//! The parts of an OpenAPI document that endpoint resolution reads, held as
//! plain values.

use vstd::prelude::*;

verus! {

/// Where a declared parameter travels in a request.
#[derive(Debug, Clone, Copy, PartialEq, Eq, Structural)]
pub enum ParameterKind {
    Query,
    Header,
    Path,
    Cookie,
}

/// A parameter object.
#[derive(Debug, Clone)]
pub struct Parameter {
    pub kind: ParameterKind,
    pub name: String,
    pub required: bool,
    pub description: Option<String>,
}

/// A parameter: given in place, or a `$ref` pointer to one.
#[derive(Debug, Clone)]
pub enum ParameterRef {
    Reference { reference: String },
    Item(Parameter),
}

/// The schema of one property of an object schema: given in place, of which
/// only the description is read, or a `$ref` pointer.
#[derive(Debug, Clone)]
pub enum PropertySchema {
    Reference { reference: String },
    Item { description: Option<String> },
}

/// One property of an object schema.
#[derive(Debug, Clone)]
pub struct Property {
    pub name: String,
    pub schema: PropertySchema,
}

/// What kind of schema this is: an object type with its direct properties
/// and the names of those that are required, or anything else.
#[derive(Debug, Clone)]
pub enum SchemaKind {
    Object { properties: Vec<Property>, required: Vec<String> },
    Other,
}

/// A schema object.
#[derive(Debug, Clone)]
pub struct Schema {
    pub description: Option<String>,
    pub kind: SchemaKind,
}

/// A schema: given in place, or a `$ref` pointer to one.
#[derive(Debug, Clone)]
pub enum SchemaRef {
    Reference { reference: String },
    Item(Schema),
}

/// One entry of a request body's content: a media type and its schema.
#[derive(Debug, Clone)]
pub struct MediaType {
    pub content_type: String,
    pub schema: Option<SchemaRef>,
}

/// A request body object: its content by media type, in document order.
#[derive(Debug, Clone)]
pub struct RequestBody {
    pub content: Vec<MediaType>,
}

/// A request body: given in place, or a `$ref` pointer to one.
#[derive(Debug, Clone)]
pub enum RequestBodyRef {
    Reference { reference: String },
    Item(RequestBody),
}

/// One operation of a path item.
#[derive(Debug, Clone)]
pub struct Operation {
    pub summary: Option<String>,
    pub parameters: Vec<ParameterRef>,
    pub request_body: Option<RequestBodyRef>,
}

/// A path item: the parameters common to its operations, and the operation
/// of each method that it declares.
#[derive(Debug, Clone)]
pub struct PathItem {
    pub parameters: Vec<ParameterRef>,
    pub get: Option<Operation>,
    pub post: Option<Operation>,
    pub put: Option<Operation>,
    pub delete: Option<Operation>,
    pub patch: Option<Operation>,
    pub head: Option<Operation>,
    pub options: Option<Operation>,
}

/// A path item: given in place, or a `$ref` pointer to one.
#[derive(Debug, Clone)]
pub enum PathItemRef {
    Reference { reference: String },
    Item(PathItem),
}

/// One entry of the document's paths.
#[derive(Debug, Clone)]
pub struct PathEntry {
    pub path: String,
    pub item: PathItemRef,
}

/// One entry of the document's component schemas.
#[derive(Debug, Clone)]
pub struct NamedSchema {
    pub name: String,
    pub schema: SchemaRef,
}

/// An OpenAPI document: its paths in document order, and its component
/// schemas by name. Where a name occurs twice among the schemas, the first
/// entry is the one that a lookup finds.
#[derive(Debug, Clone)]
pub struct Document {
    pub paths: Vec<PathEntry>,
    pub schemas: Vec<NamedSchema>,
}

/// The text of an optional string.
pub open spec fn opt_text(s: Option<String>) -> Option<Seq<char>> {
    match s {
        Some(s) => Some(s@),
        None => None,
    }
}

/// A copy of an optional string.
pub fn clone_opt_text(s: &Option<String>) -> (r: Option<String>)
    ensures
        opt_text(r) == opt_text(*s),
{
    match s {
        Some(s) => Some(s.clone()),
        None => None,
    }
}

} // verus!
