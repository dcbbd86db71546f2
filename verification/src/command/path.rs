//! Listing the paths of registered APIs.

use vstd::prelude::*;
use vstd::string::*;
use crate::command::{CommandError, Outcome, OutcomeView};
use crate::config::{api_views, name_index, Config};
use crate::openapi::api_spec::{ApiSpec, ApiSpecView};
use crate::openapi::document::opt_text;
use crate::openapi::endpoint::{endpoint_ref_views, path_holds, EndPoint, EndPointView};

use crate::text::texts;

verus! {

/// The arguments of the path listing.
#[derive(Debug)]
pub struct PathCommand {
    /// Name of the API service; all APIs where there is none
    pub name: Option<String>,
    /// What a path has to hold to be listed
    pub pattern: Option<String>,
    /// List in the form of completion candidates
    pub fish: bool,
    /// List in the plain form (the default)
    pub fzf: bool,
}

/// The endpoints that are listed: those whose path holds the pattern, all
/// where there is no pattern.
pub open spec fn listed(pattern: Option<Seq<char>>, endpoints: Seq<EndPointView>) -> Seq<
    EndPointView,
> {
    match pattern {
        Some(pattern) => endpoints.filter(path_holds(pattern)),
        None => endpoints,
    }
}

/// One endpoint in the listing.
pub open spec fn endpoint_line(fish: bool, endpoint: EndPointView, base_url: Seq<char>) -> Seq<
    char,
> {
    if fish {
        endpoint.completion_line(base_url)
    } else {
        endpoint.list_line(base_url)
    }
}

/// The listing of one API, whose endpoints have to be known.
pub open spec fn api_paths(pattern: Option<Seq<char>>, fish: bool, api: ApiSpecView) -> OutcomeView {
    match api.endpoints {
        Some(endpoints) => OutcomeView::Lines(
            listed(pattern, endpoints).map_values(
                |e: EndPointView| endpoint_line(fish, e, api.base_url),
            ),
        ),
        None => OutcomeView::NeedsEndpoints(api.name),
    }
}

/// The listings of several APIs, one after the other. The first API whose
/// endpoints are not known is asked for instead.
pub open spec fn all_paths(pattern: Option<Seq<char>>, fish: bool, apis: Seq<ApiSpecView>) -> OutcomeView
    decreases apis.len(),
{
    if apis.len() == 0 {
        OutcomeView::Lines(Seq::empty())
    } else {
        match all_paths(pattern, fish, apis.drop_last()) {
            OutcomeView::Lines(before) => match api_paths(pattern, fish, apis.last()) {
                OutcomeView::Lines(lines) => OutcomeView::Lines(before + lines),
                needs => needs,
            },
            needs => needs,
        }
    }
}

/// What the path listing makes of its arguments and the registry.
pub open spec fn path_listing(
    name: Option<Seq<char>>,
    pattern: Option<Seq<char>>,
    fish: bool,
    apis: Seq<ApiSpecView>,
) -> Result<OutcomeView, CommandError> {
    match name {
        Some(name) => match name_index(apis, name) {
            Some(i) => Ok(api_paths(pattern, fish, apis[i])),
            None => Err(CommandError::ApiNotFound),
        },
        None => Ok(all_paths(pattern, fish, apis)),
    }
}

/// What an error of the path listing is about: the name of the API, or
/// nothing where none is named.
pub open spec fn path_error_subject(name: Option<Seq<char>>) -> Seq<char> {
    match name {
        Some(name) => name,
        None => Seq::empty(),
    }
}

impl PathCommand {
    /// An error of this listing in words.
    pub fn error_message(&self, error: CommandError) -> (r: String)
        ensures
            r@ == error.text(path_error_subject(opt_text(self.name))),
    {
        match &self.name {
            Some(name) => error.message(name.as_str()),
            None => {
                proof {
                    reveal_strlit("");
                    assert(""@ =~= Seq::<char>::empty());
                }
                error.message("")
            },
        }
    }

    /// Lists the paths of the named API, or of all APIs where none is
    /// named. A name under which no API is registered is an error.
    pub fn run(&self, config: &Config) -> (r: Result<Outcome, CommandError>)
        ensures
            match r {
                Ok(outcome) => path_listing(
                    opt_text(self.name),
                    opt_text(self.pattern),
                    self.fish,
                    config@,
                ) == Ok::<OutcomeView, CommandError>(outcome@),
                Err(e) => path_listing(
                    opt_text(self.name),
                    opt_text(self.pattern),
                    self.fish,
                    config@,
                ) == Err::<OutcomeView, CommandError>(e),
            },
    {
        match &self.name {
            Some(name) => {
                match config.get_api(name.as_str()) {
                    Some(api) => Ok(self.show_api_paths(api)),
                    None => Err(CommandError::ApiNotFound),
                }
            },
            None => {
                let apis = config.list_apis();
                let ghost all = api_views(apis@);
                let mut lines: Vec<String> = Vec::new();
                let mut i: usize = 0;
                assert(all.take(0) =~= Seq::<ApiSpecView>::empty());
                assert(texts(lines@) =~= Seq::<Seq<char>>::empty());
                while i < apis.len()
                    invariant
                        i <= apis.len(),
                        self.name is None,
                        all == api_views(apis@),
                        all == config@,
                        all_paths(opt_text(self.pattern), self.fish, all.take(i as int))
                            == OutcomeView::Lines(texts(lines@)),
                    decreases apis.len() - i,
                {
                    proof {
                        assert(all.take(i + 1).drop_last() =~= all.take(i as int));
                        assert(all.take(i + 1).last() == apis@[i as int]@);
                    }
                    let ghost before = texts(lines@);
                    match self.show_api_paths(apis[i]) {
                        Outcome::Lines(mut more) => {
                            let ghost added = texts(more@);
                            lines.append(&mut more);
                            assert(texts(lines@) =~= before + added);
                        },
                        Outcome::NeedsEndpoints(name) => {
                            proof {
                                assert(all[i as int] == apis@[i as int]@);
                                assert(all[i as int].endpoints is None);
                                lemma_all_paths_needs(
                                    opt_text(self.pattern),
                                    self.fish,
                                    all,
                                    i as int,
                                );
                            }
                            return Ok(Outcome::NeedsEndpoints(name));
                        },
                    }
                    i = i + 1;
                }
                assert(all.take(i as int) =~= all);
                Ok(Outcome::Lines(lines))
            },
        }
    }

    /// The listing of one API.
    pub fn show_api_paths(&self, api: &ApiSpec) -> (r: Outcome)
        ensures
            r@ == api_paths(opt_text(self.pattern), self.fish, api@),
    {
        let endpoints = match api.endpoints() {
            Some(endpoints) => endpoints,
            None => {
                return Outcome::NeedsEndpoints(api.name.clone());
            },
        };
        let filtered: Vec<&EndPoint> = match &self.pattern {
            Some(pattern) => endpoints.filter(pattern.as_str()),
            None => endpoints.all(),
        };
        let mut lines: Vec<String> = Vec::new();
        let mut i: usize = 0;
        while i < filtered.len()
            invariant
                i <= filtered.len(),
                lines@.len() == i,
                forall|j: int|
                    0 <= j < i ==> (#[trigger] lines@[j])@ == endpoint_line(
                        self.fish,
                        filtered@[j]@,
                        api.base_url@,
                    ),
            decreases filtered.len() - i,
        {
            let endpoint = filtered[i];
            let line = if self.fish {
                endpoint.fish_complete_format(api.base_url.as_str())
            } else {
                endpoint.fzf_list_format(api.base_url.as_str())
            };
            lines.push(line);
            i = i + 1;
        }
        assert(texts(lines@) =~= endpoint_ref_views(filtered@).map_values(
            |e: EndPointView| endpoint_line(self.fish, e, api@.base_url),
        ));
        Outcome::Lines(lines)
    }
}

/// Where the APIs before the one at `i` all have known endpoints and that
/// one has not, the listing of all APIs asks for that one.
pub proof fn lemma_all_paths_needs(
    pattern: Option<Seq<char>>,
    fish: bool,
    apis: Seq<ApiSpecView>,
    i: int,
)
    requires
        0 <= i < apis.len(),
        all_paths(pattern, fish, apis.take(i)) is Lines,
        apis[i].endpoints is None,
    ensures
        all_paths(pattern, fish, apis) == OutcomeView::NeedsEndpoints(apis[i].name),
    decreases apis.len() - i,
{
    assert(apis.take(i + 1).drop_last() =~= apis.take(i));
    assert(apis.take(i + 1).last() == apis[i]);
    assert(all_paths(pattern, fish, apis.take(i + 1)) == OutcomeView::NeedsEndpoints(
        apis[i].name,
    ));
    lemma_all_paths_keeps_needs(pattern, fish, apis, i + 1);
}

/// Once the listing asks for an API, further APIs do not change that.
pub proof fn lemma_all_paths_keeps_needs(
    pattern: Option<Seq<char>>,
    fish: bool,
    apis: Seq<ApiSpecView>,
    n: int,
)
    requires
        0 <= n <= apis.len(),
        all_paths(pattern, fish, apis.take(n)) is NeedsEndpoints,
    ensures
        all_paths(pattern, fish, apis) == all_paths(pattern, fish, apis.take(n)),
    decreases apis.len() - n,
{
    if n == apis.len() {
        assert(apis.take(n) =~= apis);
    } else {
        assert(apis.take(n + 1).drop_last() =~= apis.take(n));
        lemma_all_paths_keeps_needs(pattern, fish, apis, n + 1);
    }
}

} // verus!
