//! Endpoints: one method on one path, with the parameters that resolution
//! found for it, and the collection that a document resolves to.

use vstd::prelude::*;
use vstd::string::*;
use crate::openapi::document::{
    clone_opt_text, opt_text, Document, MediaType, Operation, ParameterRef, PathEntry, PathItem,
    PathItemRef, RequestBodyRef, Schema, SchemaRef,
};
use crate::openapi::method::Method;
use crate::openapi::param::{
    param_of_parameter, param_views, params_of_schema, Param, ParamView,
};
use crate::openapi::reference::{resolve, resolve_schema_reference};
use crate::scan::{first, first_from};
use crate::text::{contains, lemma_concat_assoc, occurs, same_text};

verus! {

/// One method on one path.
#[derive(Debug)]
pub struct EndPoint {
    pub method: Method,
    pub path: String,
    pub summary: Option<String>,
    pub params: Vec<Param>,
}

/// The mathematical value of an [`EndPoint`].
pub struct EndPointView {
    pub method: Method,
    pub path: Seq<char>,
    pub summary: Option<Seq<char>>,
    pub params: Seq<ParamView>,
}

impl View for EndPoint {
    type V = EndPointView;

    open spec fn view(&self) -> EndPointView {
        EndPointView {
            method: self.method,
            path: self.path@,
            summary: opt_text(self.summary),
            params: param_views(self.params@),
        }
    }
}

/// The parameters that are required.
pub open spec fn required() -> spec_fn(ParamView) -> bool {
    |p: ParamView| p.required
}

/// The parameters that are optional.
pub open spec fn optional() -> spec_fn(ParamView) -> bool {
    |p: ParamView| !p.required
}

/// The parameters with the required ones first: within the required ones,
/// and within the optional ones, the order is kept.
pub open spec fn sorted_params(params: Seq<ParamView>) -> Seq<ParamView> {
    params.filter(required()) + params.filter(optional())
}

/// The endpoints whose path holds `fragment`.
pub open spec fn path_holds(fragment: Seq<char>) -> spec_fn(EndPointView) -> bool {
    |e: EndPointView| occurs(e.path, fragment)
}

/// Where the first endpoint with exactly the path `path` stands.
pub open spec fn path_index(endpoints: Seq<EndPointView>, path: Seq<char>) -> Option<int> {
    first(endpoints, |e: EndPointView| e.path == path)
}

impl EndPointView {
    /// The endpoint in a listing: method, a space, base URL and path.
    pub open spec fn list_line(self, base_url: Seq<char>) -> Seq<char> {
        self.method.name() + " "@ + base_url + self.path
    }

    /// The completion candidate of the endpoint: base URL and path, a tab,
    /// and the summary, or the path where there is none.
    pub open spec fn completion_line(self, base_url: Seq<char>) -> Seq<char> {
        base_url + self.path + "\t"@ + match self.summary {
            Some(summary) => summary,
            None => self.path,
        }
    }
}

/// The values of a list of endpoints.
pub open spec fn endpoint_views(endpoints: Seq<EndPoint>) -> Seq<EndPointView> {
    endpoints.map_values(|e: EndPoint| e@)
}

/// The values of a list of borrowed endpoints.
pub open spec fn endpoint_ref_views(endpoints: Seq<&EndPoint>) -> Seq<EndPointView> {
    endpoints.map_values(|e: &EndPoint| e@)
}

/// A copy of a list of parameters.
pub fn clone_params(params: &Vec<Param>) -> (r: Vec<Param>)
    ensures
        param_views(r@) == param_views(params@),
{
    let mut copy: Vec<Param> = Vec::new();
    let mut i: usize = 0;
    while i < params.len()
        invariant
            i <= params.len(),
            copy@.len() == i,
            forall|j: int| 0 <= j < i ==> (#[trigger] copy@[j])@ == params@[j]@,
        decreases params.len() - i,
    {
        copy.push(params[i].clone());
        i = i + 1;
    }
    assert(param_views(copy@) =~= param_views(params@));
    copy
}

impl Clone for EndPoint {
    fn clone(&self) -> (r: EndPoint)
        ensures
            r@ == self@,
    {
        EndPoint {
            method: self.method,
            path: self.path.clone(),
            summary: clone_opt_text(&self.summary),
            params: clone_params(&self.params),
        }
    }
}

/// Filtering twice by conditions of which the first implies the second
/// changes nothing the second time; where the first excludes the second,
/// nothing is left.
pub proof fn lemma_filter_twice<T>(s: Seq<T>, p: spec_fn(T) -> bool, q: spec_fn(T) -> bool)
    ensures
        (forall|x: T| #[trigger] p(x) ==> q(x)) ==> s.filter(p).filter(q) == s.filter(p),
        (forall|x: T| #[trigger] p(x) ==> !q(x)) ==> s.filter(p).filter(q) == Seq::<T>::empty(),
    decreases s.len(),
{
    reveal(Seq::filter);
    if s.len() > 0 {
        lemma_filter_twice(s.drop_last(), p, q);
        if p(s.last()) {
            s.drop_last().filter(p).lemma_filter_push(s.last(), q);
        }
    }
}

/// Sorting parameters that are already sorted changes nothing.
pub proof fn lemma_sorted_params_idempotent(params: Seq<ParamView>)
    ensures
        sorted_params(sorted_params(params)) == sorted_params(params),
{
    lemma_sorted_params_stable(params);
}

/// Sorting never reorders two required parameters, nor two optional ones:
/// the required parameters of the result are those of the input in their
/// order, and so are the optional ones; and in the result every required
/// parameter stands before every optional one.
pub proof fn lemma_sorted_params_stable(params: Seq<ParamView>)
    ensures
        sorted_params(params).filter(required()) == params.filter(required()),
        sorted_params(params).filter(optional()) == params.filter(optional()),
        sorted_params(params).len() == params.len(),
        forall|i: int, j: int|
            0 <= i < sorted_params(params).len() && 0 <= j < sorted_params(params).len()
                && !(#[trigger] sorted_params(params)[i]).required && (#[trigger] sorted_params(
                params,
            )[j]).required ==> j < i,
{
    let req = params.filter(required());
    let opt = params.filter(optional());
    lemma_filter_twice(params, required(), required());
    lemma_filter_twice(params, required(), optional());
    lemma_filter_twice(params, optional(), required());
    lemma_filter_twice(params, optional(), optional());
    Seq::filter_distributes_over_add(req, opt, required());
    Seq::filter_distributes_over_add(req, opt, optional());
    assert(req + Seq::<ParamView>::empty() =~= req);
    assert(Seq::<ParamView>::empty() + opt =~= opt);
    lemma_partition_len(params);
    let sorted = sorted_params(params);
    assert forall|i: int, j: int|
        0 <= i < sorted.len() && 0 <= j < sorted.len() && !(#[trigger] sorted[i]).required && (
        #[trigger] sorted[j]).required implies j < i by {
        if i < req.len() {
            req.lemma_filter_pred(required(), i);
            params.lemma_filter_pred(required(), i);
        }
        if j >= req.len() {
            params.lemma_filter_pred(optional(), j - req.len());
        }
    }
}

/// Every parameter is either required or optional.
pub proof fn lemma_partition_len(params: Seq<ParamView>)
    ensures
        params.filter(required()).len() + params.filter(optional()).len() == params.len(),
    decreases params.len(),
{
    reveal(Seq::filter);
    if params.len() > 0 {
        lemma_partition_len(params.drop_last());
    }
}

/// The parameters with the required ones first; otherwise in their order.
pub fn sort_params(params: &Vec<Param>) -> (r: Vec<Param>)
    ensures
        param_views(r@) == sorted_params(param_views(params@)),
{
    let ghost all = param_views(params@);
    let mut sorted: Vec<Param> = Vec::new();
    let mut i: usize = 0;
    assert(all.take(0) =~= Seq::<ParamView>::empty());
    assert(param_views(sorted@) =~= Seq::<ParamView>::empty());
    while i < params.len()
        invariant
            i <= params.len(),
            all == param_views(params@),
            param_views(sorted@) == all.take(i as int).filter(required()),
        decreases params.len() - i,
    {
        let ghost before = param_views(sorted@);
        proof {
            assert(all.take(i + 1) =~= all.take(i as int).push(all[i as int]));
            all.take(i as int).lemma_filter_push(all[i as int], required());
        }
        if params[i].required {
            sorted.push(params[i].clone());
            assert(param_views(sorted@) =~= before.push(all[i as int]));
        }
        i = i + 1;
    }
    assert(all.take(i as int) =~= all);
    let mut k: usize = 0;
    assert(param_views(sorted@) =~= all.filter(required()) + all.take(0).filter(optional()));
    while k < params.len()
        invariant
            k <= params.len(),
            all == param_views(params@),
            param_views(sorted@) == all.filter(required()) + all.take(k as int).filter(
                optional(),
            ),
        decreases params.len() - k,
    {
        let ghost before = param_views(sorted@);
        proof {
            assert(all.take(k + 1) =~= all.take(k as int).push(all[k as int]));
            all.take(k as int).lemma_filter_push(all[k as int], optional());
        }
        if !params[k].required {
            sorted.push(params[k].clone());
            assert(param_views(sorted@) =~= before.push(all[k as int]));
            assert(before.push(all[k as int]) =~= all.filter(required()) + all.take(
                k as int,
            ).filter(optional()).push(all[k as int]));
        }
        k = k + 1;
    }
    assert(all.take(k as int) =~= all);
    sorted
}

impl EndPoint {
    /// The parameters with the required ones first; otherwise in their
    /// order.
    pub fn get_params_sort(&self) -> (r: Vec<Param>)
        ensures
            param_views(r@) == sorted_params(self@.params),
    {
        sort_params(&self.params)
    }

    /// The endpoint in a listing: method, a space, base URL and path.
    pub fn fzf_list_format(&self, base_url: &str) -> (r: String)
        ensures
            r@ == self@.list_line(base_url@),
    {
        let mut line = String::from_str(self.method.as_str());
        line.append(" ");
        line.append(base_url);
        line.append(self.path.as_str());
        line
    }

    /// The completion candidate of the endpoint: base URL and path, a tab,
    /// and the summary, or the path where there is none.
    pub fn fish_complete_format(&self, base_url: &str) -> (r: String)
        ensures
            r@ == self@.completion_line(base_url@),
    {
        let mut line = String::from_str(base_url);
        line.append(self.path.as_str());
        line.append("\t");
        match &self.summary {
            Some(summary) => line.append(summary.as_str()),
            None => line.append(self.path.as_str()),
        }
        line
    }
}

/// The endpoints of an API, in the order in which resolution found them.
#[derive(Debug)]
pub struct EndPoints(Vec<EndPoint>);

impl View for EndPoints {
    type V = Seq<EndPointView>;

    closed spec fn view(&self) -> Seq<EndPointView> {
        endpoint_views(self.0@)
    }
}

impl Clone for EndPoints {
    fn clone(&self) -> (r: EndPoints)
        ensures
            r@ == self@,
    {
        let mut copy: Vec<EndPoint> = Vec::new();
        let mut i: usize = 0;
        while i < self.0.len()
            invariant
                i <= self.0.len(),
                copy@.len() == i,
                forall|j: int| 0 <= j < i ==> (#[trigger] copy@[j])@ == self.0@[j]@,
            decreases self.0.len() - i,
        {
            copy.push(self.0[i].clone());
            i = i + 1;
        }
        assert(endpoint_views(copy@) =~= endpoint_views(self.0@));
        EndPoints(copy)
    }
}

/// The parameter that a declared or referenced parameter gives, if any. A
/// declared parameter gives itself unless it is a cookie parameter. A
/// pointer is resolved as a schema pointer and gives the first body
/// parameter of the schema it names.
pub open spec fn extracted_parameter(parameter: ParameterRef, doc: Document) -> Option<ParamView> {
    match parameter {
        ParameterRef::Item(declared) => match param_of_parameter(declared) {
            Ok(param) => Some(param),
            Err(_) => None,
        },
        ParameterRef::Reference { reference } => referenced_parameter(reference@, doc),
    }
}

/// The first body parameter of the schema that `reference` names, if it
/// resolves to an object schema with a property.
pub open spec fn referenced_parameter(reference: Seq<char>, doc: Document) -> Option<ParamView> {
    match resolve(reference, doc) {
        Ok(schema) => match params_of_schema(schema) {
            Ok(params) => if params.len() > 0 {
                Some(params[0])
            } else {
                None
            },
            Err(_) => None,
        },
        Err(_) => None,
    }
}

/// The parameters that a list of declared or referenced parameters gives,
/// in order: those that give none are left out.
pub open spec fn extracted_parameters(parameters: Seq<ParameterRef>, doc: Document) -> Seq<
    ParamView,
>
    decreases parameters.len(),
{
    if parameters.len() == 0 {
        Seq::empty()
    } else {
        let before = extracted_parameters(parameters.drop_last(), doc);
        match extracted_parameter(parameters.last(), doc) {
            Some(param) => before.push(param),
            None => before,
        }
    }
}

/// The body parameters of a schema, none where it is no object type.
pub open spec fn object_parameters(schema: Schema) -> Seq<ParamView> {
    match params_of_schema(schema) {
        Ok(params) => params,
        Err(_) => Seq::empty(),
    }
}

/// The body parameters of a schema given in place or by a pointer: none
/// where the pointer does not resolve.
pub open spec fn schema_parameters(schema: SchemaRef, doc: Document) -> Seq<ParamView> {
    match schema {
        SchemaRef::Item(schema) => object_parameters(schema),
        SchemaRef::Reference { reference } => match resolve(reference@, doc) {
            Ok(schema) => object_parameters(schema),
            Err(_) => Seq::empty(),
        },
    }
}

/// Where the first `application/json` entry stands in a request body's
/// content.
pub open spec fn json_index(content: Seq<MediaType>) -> Option<int> {
    first(content, |media: MediaType| media.content_type@ == "application/json"@)
}

/// The body parameters of a request body: those of the schema of its
/// `application/json` content. A request body given by a pointer, or
/// without such content or schema, has none.
pub open spec fn request_body_parameters(body: RequestBodyRef, doc: Document) -> Seq<ParamView> {
    match body {
        RequestBodyRef::Item(body) => match json_index(body.content@) {
            Some(i) => match body.content@[i].schema {
                Some(schema) => schema_parameters(schema, doc),
                None => Seq::empty(),
            },
            None => Seq::empty(),
        },
        RequestBodyRef::Reference { .. } => Seq::empty(),
    }
}

/// The endpoint of one operation: the path's common parameters, then the
/// operation's own, then those of its request body.
pub open spec fn operation_endpoint(
    method: Method,
    path: Seq<char>,
    common: Seq<ParamView>,
    operation: Operation,
    doc: Document,
) -> EndPointView {
    EndPointView {
        method,
        path,
        summary: opt_text(operation.summary),
        params: common + extracted_parameters(operation.parameters@, doc) + match operation.request_body {
            Some(body) => request_body_parameters(body, doc),
            None => Seq::empty(),
        },
    }
}

/// The endpoint of a method of a path item, where it declares that method.
pub open spec fn method_endpoints(
    method: Method,
    path: Seq<char>,
    common: Seq<ParamView>,
    operation: Option<Operation>,
    doc: Document,
) -> Seq<EndPointView> {
    match operation {
        Some(operation) => seq![operation_endpoint(method, path, common, operation, doc)],
        None => Seq::empty(),
    }
}

/// The endpoints of a path item: one for each method that it declares, in
/// the order GET, POST, PUT, DELETE, PATCH, HEAD, OPTIONS.
pub open spec fn item_endpoints(path: Seq<char>, item: PathItem, doc: Document) -> Seq<
    EndPointView,
> {
    let common = extracted_parameters(item.parameters@, doc);
    method_endpoints(Method::Get, path, common, item.get, doc) + method_endpoints(
        Method::Post,
        path,
        common,
        item.post,
        doc,
    ) + method_endpoints(Method::Put, path, common, item.put, doc) + method_endpoints(
        Method::Delete,
        path,
        common,
        item.delete,
        doc,
    ) + method_endpoints(Method::Patch, path, common, item.patch, doc) + method_endpoints(
        Method::Head,
        path,
        common,
        item.head,
        doc,
    ) + method_endpoints(Method::Options, path, common, item.options, doc)
}

/// The endpoints of one entry of the paths: a path item given by a pointer
/// has none.
pub open spec fn entry_endpoints(entry: PathEntry, doc: Document) -> Seq<EndPointView> {
    match entry.item {
        PathItemRef::Item(item) => item_endpoints(entry.path@, item, doc),
        PathItemRef::Reference { .. } => Seq::empty(),
    }
}

/// The endpoints of a list of path entries, in order.
pub open spec fn entries_endpoints(entries: Seq<PathEntry>, doc: Document) -> Seq<EndPointView>
    decreases entries.len(),
{
    if entries.len() == 0 {
        Seq::empty()
    } else {
        entries_endpoints(entries.drop_last(), doc) + entry_endpoints(entries.last(), doc)
    }
}

/// The endpoints that a document resolves to.
pub open spec fn document_endpoints(doc: Document) -> Seq<EndPointView> {
    entries_endpoints(doc.paths@, doc)
}

impl EndPoints {
    /// The collection of the given endpoints, in their order.
    pub fn new(endpoints: Vec<EndPoint>) -> (r: EndPoints)
        ensures
            r@ == endpoint_views(endpoints@),
    {
        EndPoints(endpoints)
    }

    /// How many endpoints there are.
    pub fn len(&self) -> (r: usize)
        ensures
            r == self@.len(),
    {
        self.0.len()
    }

    /// The endpoints whose path holds `path` somewhere, in order.
    pub fn filter(&self, path: &str) -> (r: Vec<&EndPoint>)
        ensures
            endpoint_ref_views(r@) == self@.filter(path_holds(path@)),
    {
        let ghost all = self@;
        let mut found: Vec<&EndPoint> = Vec::new();
        let mut i: usize = 0;
        assert(all.take(0) =~= Seq::<EndPointView>::empty());
        assert(endpoint_ref_views(found@) =~= Seq::<EndPointView>::empty());
        while i < self.0.len()
            invariant
                i <= self.0.len(),
                all == self@,
                all == endpoint_views(self.0@),
                endpoint_ref_views(found@) == all.take(i as int).filter(path_holds(path@)),
            decreases self.0.len() - i,
        {
            let ghost before = endpoint_ref_views(found@);
            proof {
                assert(all.take(i + 1) =~= all.take(i as int).push(all[i as int]));
                all.take(i as int).lemma_filter_push(all[i as int], path_holds(path@));
            }
            let endpoint = &self.0[i];
            if contains(endpoint.path.as_str(), path) {
                found.push(endpoint);
                assert(endpoint_ref_views(found@) =~= before.push(all[i as int]));
            }
            i = i + 1;
        }
        assert(all.take(i as int) =~= all);
        found
    }

    /// The first endpoint whose path is exactly `path`, whatever its method.
    pub fn find(&self, path: &str) -> (r: Option<&EndPoint>)
        ensures
            match r {
                Some(e) => path_index(self@, path@) matches Some(i) && self@[i] == e@,
                None => path_index(self@, path@) is None,
            },
    {
        let ghost p = |e: EndPointView| e.path == path@;
        let mut i: usize = 0;
        while i < self.0.len()
            invariant
                i <= self.0.len(),
                p == |e: EndPointView| e.path == path@,
                first(self@, p) == first_from(self@, p, i as int),
            decreases self.0.len() - i,
        {
            let endpoint = &self.0[i];
            if same_text(endpoint.path.as_str(), path) {
                return Some(endpoint);
            }
            i = i + 1;
        }
        None
    }

    /// All endpoints, in order.
    pub fn all(&self) -> (r: Vec<&EndPoint>)
        ensures
            endpoint_ref_views(r@) == self@,
    {
        let mut found: Vec<&EndPoint> = Vec::new();
        let mut i: usize = 0;
        while i < self.0.len()
            invariant
                i <= self.0.len(),
                found@.len() == i,
                forall|j: int| 0 <= j < i ==> (#[trigger] found@[j])@ == self.0@[j]@,
            decreases self.0.len() - i,
        {
            found.push(&self.0[i]);
            i = i + 1;
        }
        assert(endpoint_ref_views(found@) =~= self@);
        found
    }

    /// Resolves a document into its endpoints: one for each method that
    /// each path item given in place declares, in document order of the
    /// paths and then in the order GET, POST, PUT, DELETE, PATCH, HEAD,
    /// OPTIONS. What does not resolve is left out.
    pub fn from(api: &Document) -> (r: EndPoints)
        ensures
            r@ == document_endpoints(*api),
    {
        let mut endpoints: Vec<EndPoint> = Vec::new();
        let mut i: usize = 0;
        assert(api.paths@.take(0) =~= Seq::<PathEntry>::empty());
        assert(endpoint_views(endpoints@) =~= Seq::<EndPointView>::empty());
        while i < api.paths.len()
            invariant
                i <= api.paths.len(),
                endpoint_views(endpoints@) == entries_endpoints(api.paths@.take(i as int), *api),
            decreases api.paths.len() - i,
        {
            let entry = &api.paths[i];
            proof {
                assert(api.paths@.take(i + 1).drop_last() =~= api.paths@.take(i as int));
                assert(api.paths@.take(i + 1).last() == *entry);
            }
            match &entry.item {
                PathItemRef::Item(path) => {
                    Self::push_item(&mut endpoints, &entry.path, path, api);
                },
                PathItemRef::Reference { .. } => {
                    assert(endpoint_views(endpoints@) + Seq::<EndPointView>::empty()
                        =~= endpoint_views(endpoints@));
                },
            }
            i = i + 1;
        }
        assert(api.paths@.take(i as int) =~= api.paths@);
        EndPoints(endpoints)
    }

    /// Adds the endpoints of a path item, one for each method it declares.
    fn push_item(endpoints: &mut Vec<EndPoint>, path: &String, item: &PathItem, spec: &Document)
        ensures
            endpoint_views(final(endpoints)@) == endpoint_views(old(endpoints)@) + item_endpoints(
                path@,
                *item,
                *spec,
            ),
    {
        let ghost before = endpoint_views(endpoints@);
        let common = Self::extract_parameters(&item.parameters, spec);
        let ghost c = param_views(common@);
        let ghost get = method_endpoints(Method::Get, path@, c, item.get, *spec);
        let ghost post = method_endpoints(Method::Post, path@, c, item.post, *spec);
        let ghost put = method_endpoints(Method::Put, path@, c, item.put, *spec);
        let ghost delete = method_endpoints(Method::Delete, path@, c, item.delete, *spec);
        let ghost patch = method_endpoints(Method::Patch, path@, c, item.patch, *spec);
        let ghost head = method_endpoints(Method::Head, path@, c, item.head, *spec);
        let ghost options = method_endpoints(Method::Options, path@, c, item.options, *spec);
        Self::push_operation(endpoints, Method::Get, path, &common, &item.get, spec);
        Self::push_operation(endpoints, Method::Post, path, &common, &item.post, spec);
        proof {
            lemma_concat_assoc(before, get, post);
        }
        Self::push_operation(endpoints, Method::Put, path, &common, &item.put, spec);
        proof {
            lemma_concat_assoc(before, get + post, put);
        }
        Self::push_operation(endpoints, Method::Delete, path, &common, &item.delete, spec);
        proof {
            lemma_concat_assoc(before, get + post + put, delete);
        }
        Self::push_operation(endpoints, Method::Patch, path, &common, &item.patch, spec);
        proof {
            lemma_concat_assoc(before, get + post + put + delete, patch);
        }
        Self::push_operation(endpoints, Method::Head, path, &common, &item.head, spec);
        proof {
            lemma_concat_assoc(before, get + post + put + delete + patch, head);
        }
        Self::push_operation(endpoints, Method::Options, path, &common, &item.options, spec);
        proof {
            lemma_concat_assoc(before, get + post + put + delete + patch + head, options);
        }
    }

    /// Adds the endpoint of `method` where the path item declares it.
    fn push_operation(
        endpoints: &mut Vec<EndPoint>,
        method: Method,
        path: &String,
        common: &Vec<Param>,
        operation: &Option<Operation>,
        spec: &Document,
    )
        ensures
            endpoint_views(final(endpoints)@) == endpoint_views(old(endpoints)@) + method_endpoints(
                method,
                path@,
                param_views(common@),
                *operation,
                *spec,
            ),
    {
        let ghost before = endpoint_views(endpoints@);
        match operation {
            Some(op) => {
                let mut params = clone_params(common);
                let mut op_params = Self::extract_parameters(&op.parameters, spec);
                let ghost own = param_views(op_params@);
                let ghost head = param_views(params@);
                params.append(&mut op_params);
                assert(param_views(params@) =~= head + own);
                match &op.request_body {
                    Some(request_body) => {
                        let mut body_params = Self::extract_request_body_parameters(
                            request_body,
                            spec,
                        );
                        let ghost body = param_views(body_params@);
                        params.append(&mut body_params);
                        assert(param_views(params@) =~= head + own + body);
                    },
                    None => {
                        assert(param_views(params@) =~= head + own + Seq::<ParamView>::empty());
                    },
                }
                let endpoint = EndPoint {
                    method,
                    path: path.clone(),
                    summary: clone_opt_text(&op.summary),
                    params,
                };
                endpoints.push(endpoint);
                assert(endpoint_views(endpoints@) =~= before + seq![endpoint@]);
            },
            None => {
                assert(endpoint_views(endpoints@) =~= before + Seq::<EndPointView>::empty());
            },
        }
    }

    /// The parameters that a list of declared or referenced parameters
    /// gives, in order: those that give none are left out.
    pub fn extract_parameters(parameters: &Vec<ParameterRef>, spec: &Document) -> (r: Vec<Param>)
        ensures
            param_views(r@) == extracted_parameters(parameters@, *spec),
    {
        let mut params: Vec<Param> = Vec::new();
        let mut i: usize = 0;
        assert(parameters@.take(0) =~= Seq::<ParameterRef>::empty());
        assert(param_views(params@) =~= Seq::<ParamView>::empty());
        while i < parameters.len()
            invariant
                i <= parameters.len(),
                param_views(params@) == extracted_parameters(parameters@.take(i as int), *spec),
            decreases parameters.len() - i,
        {
            proof {
                assert(parameters@.take(i + 1).drop_last() =~= parameters@.take(i as int));
                assert(parameters@.take(i + 1).last() == parameters@[i as int]);
            }
            let ghost before = param_views(params@);
            match Self::extract_parameter(&parameters[i], spec) {
                Some(param) => {
                    params.push(param);
                    assert(param_views(params@) =~= before.push(param@));
                },
                None => {},
            }
            i = i + 1;
        }
        assert(parameters@.take(i as int) =~= parameters@);
        params
    }

    /// The parameter that a declared or referenced parameter gives, if any.
    pub fn extract_parameter(parameter: &ParameterRef, spec: &Document) -> (r: Option<Param>)
        ensures
            match r {
                Some(param) => extracted_parameter(*parameter, *spec) == Some(param@),
                None => extracted_parameter(*parameter, *spec) is None,
            },
    {
        match parameter {
            ParameterRef::Item(param) => match Param::try_from(param) {
                Ok(param) => Some(param),
                Err(_) => None,
            },
            ParameterRef::Reference { reference } => Self::extract_referenced_parameter(
                reference.as_str(),
                spec,
            ),
        }
    }

    /// The first body parameter of the schema that `reference` names, if it
    /// resolves to an object schema with a property.
    pub fn extract_referenced_parameter(reference: &str, spec: &Document) -> (r: Option<Param>)
        ensures
            match r {
                Some(param) => referenced_parameter(reference@, *spec) == Some(param@),
                None => referenced_parameter(reference@, *spec) is None,
            },
    {
        let schema = match resolve_schema_reference(reference, spec) {
            Ok(schema) => schema,
            Err(_) => {
                return None;
            },
        };
        let params = match Param::try_from_schema(schema) {
            Ok(params) => params,
            Err(_) => {
                return None;
            },
        };
        if params.len() > 0 {
            Some(params[0].clone())
        } else {
            None
        }
    }

    /// The body parameters of a schema given in place or by a pointer.
    pub fn extract_schema_parameters(schema: &SchemaRef, spec: &Document) -> (r: Vec<Param>)
        ensures
            param_views(r@) == schema_parameters(*schema, *spec),
    {
        match schema {
            SchemaRef::Item(schema) => Self::object_params(schema),
            SchemaRef::Reference { reference } => {
                match resolve_schema_reference(reference.as_str(), spec) {
                    Ok(resolved_schema) => Self::object_params(resolved_schema),
                    Err(_) => {
                        let none: Vec<Param> = Vec::new();
                        assert(param_views(none@) =~= Seq::<ParamView>::empty());
                        none
                    },
                }
            },
        }
    }

    /// The body parameters of a schema, none where it is no object type.
    fn object_params(schema: &Schema) -> (r: Vec<Param>)
        ensures
            param_views(r@) == object_parameters(*schema),
    {
        match Param::try_from_schema(schema) {
            Ok(params) => params,
            Err(_) => {
                let none: Vec<Param> = Vec::new();
                assert(param_views(none@) =~= Seq::<ParamView>::empty());
                none
            },
        }
    }

    /// The body parameters of a request body: those of the schema of its
    /// `application/json` content.
    pub fn extract_request_body_parameters(request_body: &RequestBodyRef, spec: &Document) -> (r:
        Vec<Param>)
        ensures
            param_views(r@) == request_body_parameters(*request_body, *spec),
    {
        let none: Vec<Param> = Vec::new();
        assert(param_views(none@) =~= Seq::<ParamView>::empty());
        match request_body {
            RequestBodyRef::Item(body) => {
                let ghost p = |media: MediaType| media.content_type@ == "application/json"@;
                let mut i: usize = 0;
                while i < body.content.len()
                    invariant
                        i <= body.content.len(),
                        *request_body == RequestBodyRef::Item(*body),
                        param_views(none@) == Seq::<ParamView>::empty(),
                        p == |media: MediaType| media.content_type@ == "application/json"@,
                        first(body.content@, p) == first_from(body.content@, p, i as int),
                    decreases body.content.len() - i,
                {
                    let media_type = &body.content[i];
                    if same_text(media_type.content_type.as_str(), "application/json") {
                        return match &media_type.schema {
                            Some(schema) => Self::extract_schema_parameters(schema, spec),
                            None => none,
                        };
                    }
                    i = i + 1;
                }
                none
            },
            RequestBodyRef::Reference { .. } => none,
        }
    }
}

} // verus!
