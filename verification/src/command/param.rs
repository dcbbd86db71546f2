//! Listing the parameters of one endpoint.

use vstd::prelude::*;
use vstd::string::*;
use crate::command::complete::param_line;
use crate::command::{CommandError, Outcome, OutcomeView};
use crate::config::{name_index, Config};
use crate::openapi::api_spec::ApiSpecView;
use crate::openapi::document::opt_text;
use crate::openapi::endpoint::{path_index, sort_params, sorted_params};
use crate::openapi::param::{param_views, Param, ParamView};
use crate::text::{contains, occurs, texts};

verus! {

/// The arguments of the parameter listing.
#[derive(Debug)]
pub struct ParamCommand {
    /// Name of the API service
    pub name: String,
    /// The path of the endpoint, exactly as the document has it
    pub path: String,
    /// What a parameter's name has to hold to be listed
    pub pattern: Option<String>,
    /// List in the form of completion candidates
    pub fish: bool,
    /// List in the plain form (the default)
    pub fzf: bool,
}

/// The parameters whose name holds `pattern`.
pub open spec fn name_holds(pattern: Seq<char>) -> spec_fn(ParamView) -> bool {
    |p: ParamView| occurs(p.name, pattern)
}

/// The parameters that are listed: those whose name holds the pattern, all
/// where there is no pattern.
pub open spec fn listed_params(pattern: Option<Seq<char>>, params: Seq<ParamView>) -> Seq<
    ParamView,
> {
    match pattern {
        Some(pattern) => params.filter(name_holds(pattern)),
        None => params,
    }
}

/// What the parameter listing makes of its arguments and the registry: the
/// listed parameters of the first endpoint with exactly the path, the
/// required ones first.
pub open spec fn param_listing(
    name: Seq<char>,
    path: Seq<char>,
    pattern: Option<Seq<char>>,
    apis: Seq<ApiSpecView>,
) -> Result<OutcomeView, CommandError> {
    match name_index(apis, name) {
        None => Err(CommandError::ApiNotFound),
        Some(i) => match apis[i].endpoints {
            None => Ok(OutcomeView::NeedsEndpoints(apis[i].name)),
            Some(endpoints) => match path_index(endpoints, path) {
                None => Err(CommandError::NoEndpointMatched),
                Some(k) => Ok(
                    OutcomeView::Lines(
                        sorted_params(listed_params(pattern, endpoints[k].params)).map_values(
                            param_line(),
                        ),
                    ),
                ),
            },
        },
    }
}

/// What an error of the parameter listing is about: the path where no
/// endpoint matched, the name of the API otherwise.
pub open spec fn param_error_subject(name: Seq<char>, path: Seq<char>, error: CommandError) -> Seq<
    char,
> {
    match error {
        CommandError::NoEndpointMatched => path,
        _ => name,
    }
}

impl ParamCommand {
    /// An error of this listing in words.
    pub fn error_message(&self, error: CommandError) -> (r: String)
        ensures
            r@ == error.text(param_error_subject(self.name@, self.path@, error)),
    {
        match error {
            CommandError::NoEndpointMatched => error.message(self.path.as_str()),
            _ => error.message(self.name.as_str()),
        }
    }

    /// Lists the parameters of the endpoint with exactly the given path.
    /// An unknown API and an unknown path are errors.
    pub fn run(&self, config: &Config) -> (r: Result<Outcome, CommandError>)
        ensures
            match r {
                Ok(outcome) => param_listing(
                    self.name@,
                    self.path@,
                    opt_text(self.pattern),
                    config@,
                ) == Ok::<OutcomeView, CommandError>(outcome@),
                Err(e) => param_listing(self.name@, self.path@, opt_text(self.pattern), config@)
                    == Err::<OutcomeView, CommandError>(e),
            },
    {
        let api = match config.get_api(self.name.as_str()) {
            Some(api) => api,
            None => {
                return Err(CommandError::ApiNotFound);
            },
        };
        let endpoints = match api.endpoints() {
            Some(endpoints) => endpoints,
            None => {
                return Ok(Outcome::NeedsEndpoints(api.name.clone()));
            },
        };
        let ep = match endpoints.find(self.path.as_str()) {
            Some(ep) => ep,
            None => {
                return Err(CommandError::NoEndpointMatched);
            },
        };
        let filtered_params = Self::filter_params(&ep.params, &self.pattern);
        let sorted = sort_params(&filtered_params);
        let mut lines: Vec<String> = Vec::new();
        let mut i: usize = 0;
        while i < sorted.len()
            invariant
                i <= sorted.len(),
                lines@.len() == i,
                forall|j: int| 0 <= j < i ==> (#[trigger] lines@[j])@ == sorted@[j]@.completion_line(),
            decreases sorted.len() - i,
        {
            lines.push(sorted[i].fish_complete_format());
            i = i + 1;
        }
        assert(texts(lines@) =~= param_views(sorted@).map_values(param_line()));
        Ok(Outcome::Lines(lines))
    }

    /// The parameters that are listed: those whose name holds the pattern,
    /// all where there is no pattern.
    pub fn filter_params(params: &Vec<Param>, pattern: &Option<String>) -> (r: Vec<Param>)
        ensures
            param_views(r@) == listed_params(opt_text(*pattern), param_views(params@)),
    {
        let ghost all = param_views(params@);
        let mut kept: Vec<Param> = Vec::new();
        let mut i: usize = 0;
        assert(all.take(0) =~= Seq::<ParamView>::empty());
        assert(param_views(kept@) =~= Seq::<ParamView>::empty());
        while i < params.len()
            invariant
                i <= params.len(),
                all == param_views(params@),
                param_views(kept@) == listed_params(opt_text(*pattern), all.take(i as int)),
            decreases params.len() - i,
        {
            let ghost before = param_views(kept@);
            let param = &params[i];
            proof {
                assert(all.take(i + 1) =~= all.take(i as int).push(param@));
            }
            let keep = match pattern {
                Some(pat) => {
                    proof {
                        all.take(i as int).lemma_filter_push(param@, name_holds(pat@));
                    }
                    contains(param.name.as_str(), pat.as_str())
                },
                None => true,
            };
            if keep {
                kept.push(param.clone());
                assert(param_views(kept@) =~= before.push(param@));
            }
            i = i + 1;
        }
        assert(all.take(i as int) =~= all);
        kept
    }
}

} // verus!
