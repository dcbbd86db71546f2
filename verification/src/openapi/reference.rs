//! Resolution of `$ref` pointers to component schemas.

use vstd::prelude::*;
use vstd::string::*;
use crate::openapi::document::{Document, NamedSchema, Schema, SchemaRef};
use crate::scan::{first, first_from};
use crate::text::{same_text, starts_with, strip_prefix, strip_prefix_spec};

verus! {

/// Why a pointer did not resolve to a schema.
#[derive(Debug, Clone, Copy, PartialEq, Eq, Structural)]
pub enum ReferenceError {
    /// The pointer does not begin with `#/components/schemas/`.
    NotSchemaReference,
    /// The document has no schema of that name, or the entry of that name is
    /// itself a pointer.
    SchemaNotFound,
}

/// What every pointer to a component schema begins with.
pub open spec fn schema_prefix() -> Seq<char> {
    "#/components/schemas/"@
}

/// Whether `reference` has the shape of a pointer to a component schema.
pub open spec fn is_schema_pointer(reference: Seq<char>) -> bool {
    schema_prefix().is_prefix_of(reference)
}

/// The schema name that a pointer holds: what follows its leading
/// `#/components/schemas/`, all of it. A text of another shape holds no
/// name and stands for itself.
pub open spec fn schema_name(reference: Seq<char>) -> Seq<char> {
    match strip_prefix_spec(reference, schema_prefix()) {
        Some(name) => name,
        None => reference,
    }
}

/// The schema name that a pointer holds.
pub fn name_in(reference: &str) -> (r: &str)
    ensures
        r@ == schema_name(reference@),
        is_schema_pointer(reference@) ==> r@ == reference@.skip(schema_prefix().len() as int),
{
    match strip_prefix(reference, "#/components/schemas/") {
        Some(name) => name,
        None => reference,
    }
}

/// Where the first schema entry named `name` stands in the document.
pub open spec fn schema_index(doc: Document, name: Seq<char>) -> Option<int> {
    first(doc.schemas@, |entry: NamedSchema| entry.name@ == name)
}

/// The schema that a pointer resolves to. Only a pointer of the shape
/// `#/components/schemas/<name>` resolves, and only to a schema that the
/// document gives in place under that name: a pointer to a pointer is not
/// followed.
pub open spec fn resolve(reference: Seq<char>, doc: Document) -> Result<Schema, ReferenceError> {
    if !is_schema_pointer(reference) {
        Err(ReferenceError::NotSchemaReference)
    } else {
        match schema_index(doc, schema_name(reference)) {
            Some(i) => match doc.schemas@[i].schema {
                SchemaRef::Item(schema) => Ok(schema),
                SchemaRef::Reference { .. } => Err(ReferenceError::SchemaNotFound),
            },
            None => Err(ReferenceError::SchemaNotFound),
        }
    }
}

impl ReferenceError {
    /// The error in words, for the pointer that gave it.
    pub open spec fn text(self, reference: Seq<char>) -> Seq<char> {
        match self {
            ReferenceError::NotSchemaReference => "Not a schema reference: "@ + reference,
            ReferenceError::SchemaNotFound => "Schema not found: "@ + schema_name(reference),
        }
    }

    /// The error in words, for the pointer that gave it.
    pub fn message(&self, reference: &str) -> (r: String)
        ensures
            r@ == self.text(reference@),
    {
        match self {
            ReferenceError::NotSchemaReference => {
                let mut text = String::from_str("Not a schema reference: ");
                text.append(reference);
                text
            },
            ReferenceError::SchemaNotFound => {
                let mut text = String::from_str("Schema not found: ");
                text.append(name_in(reference));
                text
            },
        }
    }
}

/// Resolves a pointer to the component schema that it names. A pointer of
/// any other shape than `#/components/schemas/<name>` is rejected as no
/// schema reference; a name that the document lacks, or whose entry is
/// itself a pointer, is reported as not found.
pub fn resolve_schema_reference<'a>(reference: &str, spec: &'a Document) -> (r: Result<
    &'a Schema,
    ReferenceError,
>)
    ensures
        match r {
            Ok(schema) => resolve(reference@, *spec) == Ok::<Schema, ReferenceError>(*schema),
            Err(e) => resolve(reference@, *spec) == Err::<Schema, ReferenceError>(e),
        },
        !is_schema_pointer(reference@) ==> r == Err::<&Schema, ReferenceError>(
            ReferenceError::NotSchemaReference,
        ),
{
    if !starts_with(reference, "#/components/schemas/") {
        return Err(ReferenceError::NotSchemaReference);
    }
    let name = name_in(reference);
    let ghost p = |entry: NamedSchema| entry.name@ == name@;
    let mut i: usize = 0;
    while i < spec.schemas.len()
        invariant
            i <= spec.schemas.len(),
            is_schema_pointer(reference@),
            name@ == schema_name(reference@),
            p == |entry: NamedSchema| entry.name@ == name@,
            first(spec.schemas@, p) == first_from(spec.schemas@, p, i as int),
        decreases spec.schemas.len() - i,
    {
        let entry = &spec.schemas[i];
        if same_text(entry.name.as_str(), name) {
            return match &entry.schema {
                SchemaRef::Item(schema) => Ok(schema),
                SchemaRef::Reference { .. } => Err(ReferenceError::SchemaNotFound),
            };
        }
        i = i + 1;
    }
    Err(ReferenceError::SchemaNotFound)
}

} // verus!
