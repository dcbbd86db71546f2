//! The registry of APIs, and where its files are kept.

use vstd::prelude::*;
use vstd::string::*;
use crate::openapi::api_spec::{known_after, ApiSpec, ApiSpecView, FetchAction, FetchEvent};
use crate::scan::{first, first_from, lemma_first_from};
use crate::text::same_text;

verus! {

/// The directory of the registry file, below the home directory.
pub const CONFIG_DIR: &'static str = ".config/httpie-oapi";

/// The directory of the per-API caches, below the home directory.
pub const CACHE_DIR: &'static str = ".cache/httpie-oapi";

/// The name of the registry file.
pub const CONFIG_FILE: &'static str = "config.toml";

/// The registered APIs in the order in which their names were first added.
/// A registry that is only changed through its own methods holds each name
/// once.
#[derive(Debug)]
pub struct Config {
    apis: Vec<ApiSpec>,
}

impl View for Config {
    type V = Seq<ApiSpecView>;

    closed spec fn view(&self) -> Seq<ApiSpecView> {
        self.apis@.map_values(|api: ApiSpec| api@)
    }
}

/// The values of a list of borrowed APIs.
pub open spec fn api_views(apis: Seq<&ApiSpec>) -> Seq<ApiSpecView> {
    apis.map_values(|api: &ApiSpec| api@)
}

/// No two APIs have the same name.
pub open spec fn distinct_names(apis: Seq<ApiSpecView>) -> bool {
    forall|i: int, j: int|
        0 <= i < j < apis.len() ==> (#[trigger] apis[i]).name != (#[trigger] apis[j]).name
}

/// Where the API named `name` stands.
pub open spec fn name_index(apis: Seq<ApiSpecView>, name: Seq<char>) -> Option<int> {
    first(apis, |api: ApiSpecView| api.name == name)
}

/// An API as it is when newly added: its endpoints are not yet known.
pub open spec fn fresh_api(name: Seq<char>, spec_url: Seq<char>, base_url: Seq<char>) -> ApiSpecView {
    ApiSpecView { name, spec_url, base_url, endpoints: None }
}

/// The registry after `name` was added: an API of that name is replaced
/// where it stands, a new name comes last.
pub open spec fn added(
    apis: Seq<ApiSpecView>,
    name: Seq<char>,
    spec_url: Seq<char>,
    base_url: Seq<char>,
) -> Seq<ApiSpecView> {
    match name_index(apis, name) {
        Some(i) => apis.update(i, fresh_api(name, spec_url, base_url)),
        None => apis.push(fresh_api(name, spec_url, base_url)),
    }
}

/// The registry after `name` was removed.
pub open spec fn removed(apis: Seq<ApiSpecView>, name: Seq<char>) -> Seq<ApiSpecView> {
    match name_index(apis, name) {
        Some(i) => apis.remove(i),
        None => apis,
    }
}

/// The path of the registry file below `home`.
pub open spec fn config_file_path(home: Seq<char>) -> Seq<char> {
    home + "/"@ + CONFIG_DIR@ + "/"@ + CONFIG_FILE@
}

/// The path below `home` of the cache that holds the document of the API
/// `name` as it was fetched.
pub open spec fn cache_path(home: Seq<char>, name: Seq<char>) -> Seq<char> {
    home + "/"@ + CACHE_DIR@ + "/"@ + name + ".json"@
}

/// The path below `home` of the cache that holds the resolved endpoints of
/// the API `name`.
pub open spec fn endpoints_cache_path(home: Seq<char>, name: Seq<char>) -> Seq<char> {
    home + "/"@ + CACHE_DIR@ + "/"@ + name + ".endpoints.json"@
}

impl Config {
    /// An empty registry.
    pub fn new() -> (r: Config)
        ensures
            r@ == Seq::<ApiSpecView>::empty(),
            distinct_names(r@),
    {
        let apis: Vec<ApiSpec> = Vec::new();
        assert(apis@.map_values(|api: ApiSpec| api@) =~= Seq::<ApiSpecView>::empty());
        Config { apis }
    }

    /// The path of the registry file below the home directory `home`.
    pub fn config_file(home: &str) -> (r: String)
        ensures
            r@ == config_file_path(home@),
    {
        let mut path = String::from_str(home);
        path.append("/");
        path.append(CONFIG_DIR);
        path.append("/");
        path.append(CONFIG_FILE);
        path
    }

    /// The path below `home` of the cache that holds the document of the
    /// API `name` as it was fetched.
    pub fn get_cache_path(home: &str, name: &str) -> (r: String)
        ensures
            r@ == cache_path(home@, name@),
    {
        let mut path = String::from_str(home);
        path.append("/");
        path.append(CACHE_DIR);
        path.append("/");
        path.append(name);
        path.append(".json");
        path
    }

    /// The path below `home` of the cache that holds the resolved endpoints
    /// of the API `name`.
    pub fn get_endpoints_cache_path(home: &str, name: &str) -> (r: String)
        ensures
            r@ == endpoints_cache_path(home@, name@),
    {
        let mut path = String::from_str(home);
        path.append("/");
        path.append(CACHE_DIR);
        path.append("/");
        path.append(name);
        path.append(".endpoints.json");
        path
    }

    /// Where the API named `name` stands.
    fn index_of(&self, name: &str) -> (r: Option<usize>)
        ensures
            match r {
                Some(i) => name_index(self@, name@) == Some(i as int) && i < self.apis@.len(),
                None => name_index(self@, name@) is None,
            },
    {
        let ghost p = |api: ApiSpecView| api.name == name@;
        let mut i: usize = 0;
        while i < self.apis.len()
            invariant
                i <= self.apis.len(),
                p == |api: ApiSpecView| api.name == name@,
                first(self@, p) == first_from(self@, p, i as int),
            decreases self.apis.len() - i,
        {
            if same_text(self.apis[i].name.as_str(), name) {
                return Some(i);
            }
            i = i + 1;
        }
        None
    }

    /// Registers an API under `name`. An API that was registered under that
    /// name is replaced, and its endpoints are forgotten.
    pub fn add_api(&mut self, name: String, url: String, base_url: String)
        ensures
            final(self)@ == added(old(self)@, name@, url@, base_url@),
            distinct_names(old(self)@) ==> distinct_names(final(self)@),
    {
        proof {
            lemma_first_from(self@, |api: ApiSpecView| api.name == name@, 0);
        }
        let found = self.index_of(name.as_str());
        let ghost before = self@;
        let api_spec = ApiSpec::new(name, url, base_url);
        match found {
            Some(i) => {
                self.apis.set(i, api_spec);
                assert(self.apis@.map_values(|api: ApiSpec| api@) =~= before.update(
                    i as int,
                    api_spec@,
                ));
            },
            None => {
                self.apis.push(api_spec);
                assert(self.apis@.map_values(|api: ApiSpec| api@) =~= before.push(api_spec@));
            },
        }
    }

    /// Removes the API named `name`, and says whether there was one. Where
    /// the names were distinct, no API has that name afterwards.
    pub fn remove_api(&mut self, name: &str) -> (r: bool)
        ensures
            r == name_index(old(self)@, name@) is Some,
            final(self)@ == removed(old(self)@, name@),
            distinct_names(old(self)@) ==> distinct_names(final(self)@),
            distinct_names(old(self)@) ==> name_index(final(self)@, name@) is None,
    {
        let ghost before = self@;
        match self.index_of(name) {
            Some(i) => {
                let _ = self.apis.remove(i);
                proof {
                    let after = before.remove(i as int);
                    assert(self.apis@.map_values(|api: ApiSpec| api@) =~= after);
                    lemma_first_from(before, |api: ApiSpecView| api.name == name@, 0);
                    lemma_first_from(after, |api: ApiSpecView| api.name == name@, 0);
                    if distinct_names(before) {
                        assert forall|k: int| 0 <= k < after.len() implies (#[trigger] after[k]).name
                            != name@ by {
                            if k < i {
                                assert(after[k] == before[k]);
                            } else {
                                assert(after[k] == before[k + 1]);
                            }
                        }
                    }
                }
                true
            },
            None => false,
        }
    }

    /// The registered APIs, in order.
    pub fn list_apis(&self) -> (r: Vec<&ApiSpec>)
        ensures
            api_views(r@) == self@,
    {
        let mut all: Vec<&ApiSpec> = Vec::new();
        let mut i: usize = 0;
        while i < self.apis.len()
            invariant
                i <= self.apis.len(),
                all@.len() == i,
                forall|j: int| 0 <= j < i ==> (#[trigger] all@[j])@ == self.apis@[j]@,
            decreases self.apis.len() - i,
        {
            all.push(&self.apis[i]);
            i = i + 1;
        }
        assert(api_views(all@) =~= self@);
        all
    }

    /// The API named `name`.
    pub fn get_api(&self, name: &str) -> (r: Option<&ApiSpec>)
        ensures
            match r {
                Some(api) => name_index(self@, name@) matches Some(i) && self@[i] == api@,
                None => name_index(self@, name@) is None,
            },
    {
        match self.index_of(name) {
            Some(i) => Some(&self.apis[i]),
            None => None,
        }
    }

    /// One step towards the endpoints of the API named `name`, as
    /// [`ApiSpec::get_endpoints`] takes it; `None`, and no change, where no
    /// API has that name.
    pub fn get_endpoints(&mut self, name: &str, event: FetchEvent) -> (r: Option<FetchAction>)
        ensures
            match name_index(old(self)@, name@) {
                Some(i) => {
                    &&& final(self)@ == old(self)@.update(
                        i,
                        ApiSpecView {
                            endpoints: known_after(old(self)@[i].endpoints, event),
                            ..old(self)@[i]
                        },
                    )
                    &&& r matches Some(action)
                    &&& match known_after(old(self)@[i].endpoints, event) {
                        Some(endpoints) => action matches FetchAction::Deliver(delivered)
                            && delivered@ == endpoints,
                        None => match event {
                            FetchEvent::Wanted => action is LoadCache,
                            _ => action is Refresh,
                        },
                    }
                },
                None => r is None && final(self)@ == old(self)@,
            },
            distinct_names(old(self)@) ==> distinct_names(final(self)@),
    {
        let ghost before = self@;
        match self.index_of(name) {
            Some(i) => {
                let mut api = self.apis.remove(i);
                let action = api.get_endpoints(event);
                self.apis.insert(i, api);
                assert(self.apis@.map_values(|api: ApiSpec| api@) =~= before.update(
                    i as int,
                    api@,
                ));
                Some(action)
            },
            None => None,
        }
    }
}

} // verus!
