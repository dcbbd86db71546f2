//! Completion of a partially typed HTTPie command line.

use vstd::prelude::*;
use vstd::string::*;
use crate::command::{Outcome, OutcomeView};
use crate::config::{api_views, Config};
use crate::openapi::api_spec::{ApiSpec, ApiSpecView};
use crate::openapi::endpoint::{
    endpoint_ref_views, path_holds, sorted_params, EndPoint, EndPointView, EndPoints,
};
use crate::openapi::param::{param_views, ParamView};
use crate::scan::{first, first_from};
use crate::text::{starts_with, strip_prefix, strip_prefix_spec, texts};
use crate::tokens::{tokenize, Token, Tokens, TokensView};

verus! {

/// The arguments of a completion request.
#[derive(Debug)]
pub struct CompleteCommand {
    /// The command line as typed so far
    pub line: String,
    /// The byte offset of the cursor in the line
    pub cursor_pos: usize,
}

/// Where the first API stands, in registry order, with whose base URL some
/// token begins.
pub open spec fn matched_api(tokens: TokensView, apis: Seq<ApiSpecView>) -> Option<int> {
    first(apis, |api: ApiSpecView| tokens.index_starting_with(api.base_url) is Some)
}

/// How a registered API is offered: its base URL and a slash, a tab, its
/// name.
pub open spec fn api_line(api: ApiSpecView) -> Seq<char> {
    api.base_url + "/\t"@ + api.name
}

/// The registered APIs as candidates, in registry order.
pub open spec fn api_lines(apis: Seq<ApiSpecView>) -> Seq<Seq<char>> {
    apis.map_values(|api: ApiSpecView| api_line(api))
}

/// Whether the token under the cursor begins with `base_url`.
pub open spec fn cursor_on(tokens: TokensView, base_url: Seq<char>) -> bool {
    match tokens.current_index() {
        Some(i) => base_url.is_prefix_of(tokens.tokens[i].text),
        None => false,
    }
}

/// The endpoints as path candidates for `base_url`, in order.
pub open spec fn path_lines(endpoints: Seq<EndPointView>, base_url: Seq<char>) -> Seq<Seq<char>> {
    endpoints.map_values(|e: EndPointView| e.completion_line(base_url))
}

/// What is left of `text` behind `base_url`; all of it where it does not
/// begin with `base_url`.
pub open spec fn path_fragment(text: Seq<char>, base_url: Seq<char>) -> Seq<char> {
    match strip_prefix_spec(text, base_url) {
        Some(rest) => rest,
        None => text,
    }
}

/// The parameters with whose name no token begins.
pub open spec fn untyped(tokens: TokensView) -> spec_fn(ParamView) -> bool {
    |p: ParamView| tokens.index_starting_with(p.name) is None
}

/// How a parameter is offered.
pub open spec fn param_line() -> spec_fn(ParamView) -> Seq<char> {
    |p: ParamView| p.completion_line()
}

/// The parameter candidates of one endpoint: its parameters, the required
/// ones first, without those with whose name a token begins.
pub open spec fn endpoint_param_lines(tokens: TokensView, endpoint: EndPointView) -> Seq<
    Seq<char>,
> {
    sorted_params(endpoint.params).filter(untyped(tokens)).map_values(param_line())
}

/// The parameter candidates of a list of endpoints, endpoint by endpoint.
pub open spec fn param_lines(tokens: TokensView, endpoints: Seq<EndPointView>) -> Seq<Seq<char>>
    decreases endpoints.len(),
{
    if endpoints.len() == 0 {
        Seq::empty()
    } else {
        param_lines(tokens, endpoints.drop_last()) + endpoint_param_lines(
            tokens,
            endpoints.last(),
        )
    }
}

/// The candidates for a matched API whose endpoints are known. Where the
/// token under the cursor begins with the base URL, the base URL is still
/// being typed, and every endpoint is offered as a path. Otherwise the
/// parameters are offered of every endpoint whose path holds what follows
/// the base URL in the matched token.
pub open spec fn candidates(
    tokens: TokensView,
    base_url: Seq<char>,
    matched_text: Seq<char>,
    endpoints: Seq<EndPointView>,
) -> Seq<Seq<char>> {
    if cursor_on(tokens, base_url) {
        path_lines(endpoints, base_url)
    } else {
        param_lines(tokens, endpoints.filter(path_holds(path_fragment(matched_text, base_url))))
    }
}

/// What completion makes of a tokenized line and the registered APIs. Where
/// no token begins with the base URL of any API, all APIs are offered.
/// Otherwise the first such API in registry order is the matched one, and
/// the first token that begins with its base URL the matched token; the
/// candidates are those of that API, whose endpoints have to be known.
pub open spec fn completion(tokens: TokensView, apis: Seq<ApiSpecView>) -> OutcomeView {
    match matched_api(tokens, apis) {
        None => OutcomeView::Lines(api_lines(apis)),
        Some(k) => match apis[k].endpoints {
            None => OutcomeView::NeedsEndpoints(apis[k].name),
            Some(endpoints) => OutcomeView::Lines(
                candidates(
                    tokens,
                    apis[k].base_url,
                    match tokens.index_starting_with(apis[k].base_url) {
                        Some(t) => tokens.tokens[t].text,
                        None => Seq::empty(),
                    },
                    endpoints,
                ),
            ),
        },
    }
}

/// Without registered APIs completion offers nothing.
pub proof fn lemma_completion_of_empty_registry(tokens: TokensView)
    ensures
        completion(tokens, Seq::<ApiSpecView>::empty()) == OutcomeView::Lines(
            Seq::<Seq<char>>::empty(),
        ),
{
    assert(api_lines(Seq::<ApiSpecView>::empty()) =~= Seq::<Seq<char>>::empty());
}

impl CompleteCommand {
    /// Completes the command line: tokenizes it and decides, from the
    /// tokens and the registry alone, what to offer.
    pub fn run(&self, config: &Config) -> (r: Outcome)
        ensures
            r@ == completion(tokenize(self.line@, self.cursor_pos as int), config@),
    {
        let tokens = Tokens::new(self.line.as_str(), self.cursor_pos);
        let apis = config.list_apis();
        Self::complete(&tokens, &apis)
    }

    /// Decides what to offer for a tokenized line and the registered APIs.
    pub fn complete(tokens: &Tokens, apis: &Vec<&ApiSpec>) -> (r: Outcome)
        ensures
            r@ == completion(tokens@, api_views(apis@)),
    {
        let ghost all = api_views(apis@);
        let ghost p = |api: ApiSpecView| tokens@.index_starting_with(api.base_url) is Some;
        let mut k: usize = 0;
        while k < apis.len()
            invariant
                k <= apis.len(),
                all == api_views(apis@),
                p == |api: ApiSpecView| tokens@.index_starting_with(api.base_url) is Some,
                first(all, p) == first_from(all, p, k as int),
            decreases apis.len() - k,
        {
            let api = apis[k];
            assert(all[k as int] == api@);
            match tokens.find_token_starting_with(api.base_url.as_str()) {
                Some(token) => {
                    return match api.endpoints() {
                        Some(endpoints) => Outcome::Lines(
                            Self::candidates(tokens, api.base_url.as_str(), token, endpoints),
                        ),
                        None => Outcome::NeedsEndpoints(api.name.clone()),
                    };
                },
                None => {},
            }
            k = k + 1;
        }
        Outcome::Lines(Self::api_lines(apis))
    }

    /// The registered APIs as candidates, in registry order.
    pub fn api_lines(apis: &Vec<&ApiSpec>) -> (r: Vec<String>)
        ensures
            texts(r@) == api_lines(api_views(apis@)),
    {
        let mut lines: Vec<String> = Vec::new();
        let mut i: usize = 0;
        while i < apis.len()
            invariant
                i <= apis.len(),
                lines@.len() == i,
                forall|j: int| 0 <= j < i ==> (#[trigger] lines@[j])@ == api_line(apis@[j]@),
            decreases apis.len() - i,
        {
            let api = apis[i];
            let mut line = api.base_url.clone();
            line.append("/\t");
            line.append(api.name.as_str());
            lines.push(line);
            i = i + 1;
        }
        assert(texts(lines@) =~= api_lines(api_views(apis@)));
        lines
    }

    /// The candidates for a matched API whose endpoints are known.
    pub fn candidates(tokens: &Tokens, base_url: &str, matched: &Token, endpoints: &EndPoints) -> (r:
        Vec<String>)
        ensures
            texts(r@) == candidates(tokens@, base_url@, matched@.text, endpoints@),
    {
        match tokens.current_token() {
            Some(current) => {
                if starts_with(current.text.as_str(), base_url) {
                    return Self::path_lines(endpoints, base_url);
                }
            },
            None => {},
        }
        let path = match strip_prefix(matched.text.as_str(), base_url) {
            Some(rest) => rest,
            None => matched.text.as_str(),
        };
        let found = endpoints.filter(path);
        Self::param_lines(tokens, &found)
    }

    /// The endpoints as path candidates for `base_url`, in order.
    pub fn path_lines(endpoints: &EndPoints, base_url: &str) -> (r: Vec<String>)
        ensures
            texts(r@) == path_lines(endpoints@, base_url@),
    {
        let all = endpoints.all();
        let mut lines: Vec<String> = Vec::new();
        let mut i: usize = 0;
        while i < all.len()
            invariant
                i <= all.len(),
                lines@.len() == i,
                endpoint_ref_views(all@) == endpoints@,
                forall|j: int|
                    0 <= j < i ==> (#[trigger] lines@[j])@ == all@[j]@.completion_line(base_url@),
            decreases all.len() - i,
        {
            lines.push(all[i].fish_complete_format(base_url));
            i = i + 1;
        }
        assert(texts(lines@) =~= path_lines(endpoint_ref_views(all@), base_url@));
        lines
    }

    /// The parameter candidates of a list of endpoints, endpoint by
    /// endpoint.
    pub fn param_lines(tokens: &Tokens, endpoints: &Vec<&EndPoint>) -> (r: Vec<String>)
        ensures
            texts(r@) == param_lines(tokens@, endpoint_ref_views(endpoints@)),
    {
        let ghost all = endpoint_ref_views(endpoints@);
        let mut lines: Vec<String> = Vec::new();
        let mut i: usize = 0;
        assert(all.take(0) =~= Seq::<EndPointView>::empty());
        assert(texts(lines@) =~= Seq::<Seq<char>>::empty());
        while i < endpoints.len()
            invariant
                i <= endpoints.len(),
                all == endpoint_ref_views(endpoints@),
                texts(lines@) == param_lines(tokens@, all.take(i as int)),
            decreases endpoints.len() - i,
        {
            proof {
                assert(all.take(i + 1).drop_last() =~= all.take(i as int));
                assert(all.take(i + 1).last() == endpoints@[i as int]@);
            }
            Self::push_param_lines(tokens, endpoints[i], &mut lines);
            i = i + 1;
        }
        assert(all.take(i as int) =~= all);
        lines
    }

    /// Adds the parameter candidates of one endpoint.
    fn push_param_lines(tokens: &Tokens, endpoint: &EndPoint, lines: &mut Vec<String>)
        ensures
            texts(final(lines)@) == texts(old(lines)@) + endpoint_param_lines(tokens@, endpoint@),
    {
        let ghost before = texts(lines@);
        let sorted = endpoint.get_params_sort();
        let ghost all = param_views(sorted@);
        let mut j: usize = 0;
        assert(all.take(0) =~= Seq::<ParamView>::empty());
        assert(all.take(0).filter(untyped(tokens@)).map_values(param_line()) =~= Seq::<
            Seq<char>,
        >::empty()) by {
            reveal(Seq::filter);
        }
        assert(before + Seq::<Seq<char>>::empty() =~= before);
        while j < sorted.len()
            invariant
                j <= sorted.len(),
                all == param_views(sorted@),
                texts(lines@) == before + all.take(j as int).filter(untyped(tokens@)).map_values(
                    param_line(),
                ),
            decreases sorted.len() - j,
        {
            let param = &sorted[j];
            let ghost seen = all.take(j as int).filter(untyped(tokens@));
            let ghost shown = texts(lines@);
            proof {
                assert(all.take(j + 1) =~= all.take(j as int).push(param@));
                all.take(j as int).lemma_filter_push(param@, untyped(tokens@));
            }
            if !tokens.has_token_starting_with(param.name.as_str()) {
                let line = param.fish_complete_format();
                lines.push(line);
                proof {
                    assert(texts(lines@) =~= shown.push(line@));
                    assert(seen.push(param@).map_values(param_line()) =~= seen.map_values(
                        param_line(),
                    ).push(line@));
                    assert(shown.push(line@) =~= before + seen.map_values(param_line()).push(
                        line@,
                    ));
                }
            }
            j = j + 1;
        }
        assert(all.take(j as int) =~= all);
    }
}

} // verus!
