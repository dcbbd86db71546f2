//! Managing the registry: adding, removing, listing and refreshing APIs.

use vstd::prelude::*;
use vstd::string::*;
use crate::command::CommandError;
use crate::config::{added, api_views, cache_path, name_index, removed, Config};
use crate::openapi::api_spec::ApiSpecView;

use crate::text::texts;

verus! {

/// The arguments of adding or updating an API.
#[derive(Debug)]
pub struct SaveArgs {
    /// Name of the API service to add or update
    pub name: String,
    /// URL of the OpenAPI/Swagger specification
    pub spec_url: String,
    /// Base URL for the API service
    pub base_url: String,
    /// Overwrite an API that is already registered under the name
    pub force: bool,
}

/// The arguments of refreshing caches.
#[derive(Debug)]
pub struct RefreshArgs {
    /// Names of the APIs to refresh; all registered APIs where there is none
    pub names: Vec<String>,
}

/// The arguments of removing an API.
#[derive(Debug)]
pub struct RemoveArgs {
    /// Name of the API service to remove
    pub name: String,
}

/// The arguments of listing the registry.
#[derive(Debug)]
pub struct ListArgs {
    /// Show the details of each API
    pub detailed: bool,
}

/// The commands that manage the registry.
#[derive(Debug)]
pub enum ApiSpecCommands {
    /// Add or update an API
    Add(SaveArgs),
    /// Remove an API
    Remove(RemoveArgs),
    /// List the registered APIs
    List(ListArgs),
    /// Refresh the caches of APIs
    Refresh(RefreshArgs),
}

/// One step of refreshing: the name asked for, and whether an API is
/// registered under it.
#[derive(Debug)]
pub struct RefreshStep {
    pub name: String,
    pub found: bool,
}

/// Whether adding under `name` is refused: the name is taken and
/// overwriting was not asked for.
pub open spec fn save_refused(name: Seq<char>, force: bool, apis: Seq<ApiSpecView>) -> bool {
    !force && name_index(apis, name) is Some
}

/// What is said after an API was added or updated.
pub open spec fn saved_text(name: Seq<char>, force: bool) -> Seq<char> {
    if force {
        "Updated API '"@ + name + "' successfully"@
    } else {
        "Added API '"@ + name + "' successfully"@
    }
}

/// What is said after an API was removed.
pub open spec fn removed_text(name: Seq<char>) -> Seq<char> {
    "Removed API '"@ + name + "' successfully"@
}

/// What is said of one step of refreshing, once it is done.
pub open spec fn refresh_text(name: Seq<char>, found: bool) -> Seq<char> {
    if found {
        "Refreshed cache for API '"@ + name + "' successfully"@
    } else {
        "Warning: API '"@ + name + "' not found, skipping"@
    }
}

/// The lines that list one API.
pub open spec fn api_listing(detailed: bool, api: ApiSpecView, home: Seq<char>) -> Seq<Seq<char>> {
    if detailed {
        seq![
            "Name: "@ + api.name,
            "SPEC URL: "@ + api.spec_url,
            "Base URL: "@ + api.base_url,
            "Cache: "@ + cache_path(home, api.name),
            ""@,
        ]
    } else {
        seq![api.name + "\t"@ + api.spec_url]
    }
}

/// The lines that list several APIs, one after the other.
pub open spec fn apis_listing(detailed: bool, apis: Seq<ApiSpecView>, home: Seq<char>) -> Seq<
    Seq<char>,
>
    decreases apis.len(),
{
    if apis.len() == 0 {
        Seq::empty()
    } else {
        apis_listing(detailed, apis.drop_last(), home) + api_listing(detailed, apis.last(), home)
    }
}

/// The lines that list the registry.
pub open spec fn registry_listing(detailed: bool, apis: Seq<ApiSpecView>, home: Seq<char>) -> Seq<
    Seq<char>,
> {
    if apis.len() == 0 {
        seq!["No APIs registered"@]
    } else {
        apis_listing(detailed, apis, home)
    }
}

/// The names to refresh: those asked for, or those of all registered APIs
/// where none is asked for.
pub open spec fn names_to_refresh(asked: Seq<Seq<char>>, apis: Seq<ApiSpecView>) -> Seq<Seq<char>> {
    if asked.len() == 0 {
        apis.map_values(|api: ApiSpecView| api.name)
    } else {
        asked
    }
}

impl ApiSpecCommands {
    /// Whether an API may be added under the name: `AlreadyExists` where the
    /// name is taken and overwriting was not asked for.
    pub fn check_save(args: &SaveArgs, config: &Config) -> (r: Result<(), CommandError>)
        ensures
            r == if save_refused(args.name@, args.force, config@) {
                Err::<(), CommandError>(CommandError::AlreadyExists)
            } else {
                Ok::<(), CommandError>(())
            },
    {
        if !args.force && config.get_api(args.name.as_str()).is_some() {
            Err(CommandError::AlreadyExists)
        } else {
            Ok(())
        }
    }

    /// Adds or updates the API in the registry and says so. Where the name
    /// is taken and overwriting was not asked for, the registry stays as it
    /// is.
    pub fn save_server(args: &SaveArgs, config: &mut Config) -> (r: Result<String, CommandError>)
        ensures
            match r {
                Ok(said) => {
                    &&& !save_refused(args.name@, args.force, old(config)@)
                    &&& final(config)@ == added(
                        old(config)@,
                        args.name@,
                        args.spec_url@,
                        args.base_url@,
                    )
                    &&& said@ == saved_text(args.name@, args.force)
                },
                Err(e) => {
                    &&& save_refused(args.name@, args.force, old(config)@)
                    &&& e == CommandError::AlreadyExists
                    &&& final(config)@ == old(config)@
                },
            },
    {
        if !args.force && config.get_api(args.name.as_str()).is_some() {
            return Err(CommandError::AlreadyExists);
        }
        config.add_api(args.name.clone(), args.spec_url.clone(), args.base_url.clone());
        let mut said = if args.force {
            String::from_str("Updated API '")
        } else {
            String::from_str("Added API '")
        };
        said.append(args.name.as_str());
        said.append("' successfully");
        Ok(said)
    }

    /// Removes the API from the registry and says so; `ApiNotFound` where
    /// none is registered under the name.
    pub fn remove_server(args: &RemoveArgs, config: &mut Config) -> (r: Result<
        String,
        CommandError,
    >)
        ensures
            final(config)@ == removed(old(config)@, args.name@),
            match r {
                Ok(said) => name_index(old(config)@, args.name@) is Some && said@ == removed_text(
                    args.name@,
                ),
                Err(e) => name_index(old(config)@, args.name@) is None && e
                    == CommandError::ApiNotFound,
            },
    {
        if config.remove_api(args.name.as_str()) {
            let mut said = String::from_str("Removed API '");
            said.append(args.name.as_str());
            said.append("' successfully");
            Ok(said)
        } else {
            Err(CommandError::ApiNotFound)
        }
    }

    /// The lines that list the registry. `home` is the home directory,
    /// below which the caches are kept.
    pub fn list_server(args: &ListArgs, config: &Config, home: &str) -> (r: Vec<String>)
        ensures
            texts(r@) == registry_listing(args.detailed, config@, home@),
    {
        let apis = config.list_apis();
        let ghost all = api_views(apis@);
        let mut lines: Vec<String> = Vec::new();
        if apis.len() == 0 {
            lines.push(String::from_str("No APIs registered"));
            assert(texts(lines@) =~= seq!["No APIs registered"@]);
            return lines;
        }
        let mut i: usize = 0;
        assert(all.take(0) =~= Seq::<ApiSpecView>::empty());
        assert(texts(lines@) =~= Seq::<Seq<char>>::empty());
        while i < apis.len()
            invariant
                i <= apis.len(),
                all == api_views(apis@),
                texts(lines@) == apis_listing(args.detailed, all.take(i as int), home@),
            decreases apis.len() - i,
        {
            proof {
                assert(all.take(i + 1).drop_last() =~= all.take(i as int));
                assert(all.take(i + 1).last() == apis@[i as int]@);
            }
            let api = apis[i];
            let ghost before = texts(lines@);
            if args.detailed {
                let mut name = String::from_str("Name: ");
                name.append(api.name.as_str());
                let mut spec_url = String::from_str("SPEC URL: ");
                spec_url.append(api.spec_url.as_str());
                let mut base_url = String::from_str("Base URL: ");
                base_url.append(api.base_url.as_str());
                let mut cache = String::from_str("Cache: ");
                cache.append(Config::get_cache_path(home, api.name.as_str()).as_str());
                let blank = String::from_str("");
                let ghost shown = seq![name@, spec_url@, base_url@, cache@, blank@];
                lines.push(name);
                lines.push(spec_url);
                lines.push(base_url);
                lines.push(cache);
                lines.push(blank);
                assert(texts(lines@) =~= before + shown);
            } else {
                let mut line = api.name.clone();
                line.append("\t");
                line.append(api.spec_url.as_str());
                let ghost shown = seq![line@];
                lines.push(line);
                assert(texts(lines@) =~= before + shown);
            }
            i = i + 1;
        }
        assert(all.take(i as int) =~= all);
        lines
    }

    /// The steps of refreshing, in order: each name to refresh, and whether
    /// an API is registered under it.
    pub fn refresh_server(args: &RefreshArgs, config: &Config) -> (r: Vec<RefreshStep>)
        ensures
            r@.len() == names_to_refresh(texts(args.names@), config@).len(),
            forall|i: int|
                0 <= i < r@.len() ==> {
                    &&& (#[trigger] r@[i]).name@ == names_to_refresh(texts(args.names@), config@)[i]
                    &&& r@[i].found == name_index(config@, r@[i].name@) is Some
                },
    {
        let mut steps: Vec<RefreshStep> = Vec::new();
        if args.names.len() == 0 {
            let apis = config.list_apis();
            let mut i: usize = 0;
            while i < apis.len()
                invariant
                    i <= apis.len(),
                    api_views(apis@) == config@,
                    steps@.len() == i,
                    forall|j: int|
                        0 <= j < i ==> {
                            &&& (#[trigger] steps@[j]).name@ == config@[j].name
                            &&& steps@[j].found == name_index(config@, steps@[j].name@) is Some
                        },
                decreases apis.len() - i,
            {
                let name = apis[i].name.clone();
                assert(api_views(apis@)[i as int] == apis@[i as int]@);
                let found = config.get_api(name.as_str()).is_some();
                steps.push(RefreshStep { name, found });
                i = i + 1;
            }
        } else {
            let mut i: usize = 0;
            while i < args.names.len()
                invariant
                    i <= args.names.len(),
                    steps@.len() == i,
                    forall|j: int|
                        0 <= j < i ==> {
                            &&& (#[trigger] steps@[j]).name@ == args.names@[j]@
                            &&& steps@[j].found == name_index(config@, steps@[j].name@) is Some
                        },
                decreases args.names.len() - i,
            {
                let name = args.names[i].clone();
                let found = config.get_api(name.as_str()).is_some();
                steps.push(RefreshStep { name, found });
                i = i + 1;
            }
        }
        steps
    }

    /// What is said of one step of refreshing, once it is done.
    pub fn refresh_message(step: &RefreshStep) -> (r: String)
        ensures
            r@ == refresh_text(step.name@, step.found),
    {
        if step.found {
            let mut said = String::from_str("Refreshed cache for API '");
            said.append(step.name.as_str());
            said.append("' successfully");
            said
        } else {
            let mut said = String::from_str("Warning: API '");
            said.append(step.name.as_str());
            said.append("' not found, skipping");
            said
        }
    }
}

} // verus!
