use httpie_oapi::openapi::document::{
    Document, NamedSchema, Property, PropertySchema, Schema, SchemaKind, SchemaRef,
};
use httpie_oapi::openapi::reference::{name_in, resolve_schema_reference, ReferenceError};

/// A document without paths whose components hold one schema, `User`, an
/// object with the string property `name`.
fn user_document() -> Document {
    Document {
        paths: vec![],
        schemas: vec![NamedSchema {
            name: "User".to_string(),
            schema: SchemaRef::Item(Schema {
                description: None,
                kind: SchemaKind::Object {
                    properties: vec![Property {
                        name: "name".to_string(),
                        schema: PropertySchema::Item { description: None },
                    }],
                    required: vec![],
                },
            }),
        }],
    }
}

#[test]
fn test_resolve_schema_reference() {
    let spec = user_document();
    let reference = "#/components/schemas/User";
    let resolved = resolve_schema_reference(reference, &spec).unwrap();
    match resolved.kind {
        SchemaKind::Object { .. } => {}
        _ => unreachable!("Expected object type"),
    }
}

#[test]
fn test_resolve_schema_reference_not_found() {
    let spec = user_document();
    let reference = "#/components/schemas/NonExistent";
    let result = resolve_schema_reference(reference, &spec);
    assert!(result.is_err());
}

#[test]
fn test_resolve_schema_reference_invalid_path() {
    let spec = user_document();
    let reference = "#/invalid/path/User";
    let result = resolve_schema_reference(reference, &spec);
    assert!(result.is_err());
}

#[test]
fn pointer_of_another_shape_is_no_schema_reference() {
    let spec = user_document();
    for reference in [
        "",
        "User",
        "#/components/schemas",
        "#/components/parameters/User",
        "#/components/requestBodies/User",
        " #/components/schemas/User",
        "x#/components/schemas/User",
        "#/Components/Schemas/User",
        "#/invalid/path/User",
    ] {
        let error = resolve_schema_reference(reference, &spec).unwrap_err();
        assert_eq!(error, ReferenceError::NotSchemaReference, "for {:?}", reference);
    }
}

#[test]
fn unknown_name_is_not_found() {
    let spec = user_document();
    for reference in ["#/components/schemas/", "#/components/schemas/user", "#/components/schemas/User/name"] {
        let error = resolve_schema_reference(reference, &spec).unwrap_err();
        assert_eq!(error, ReferenceError::SchemaNotFound, "for {:?}", reference);
    }
    let empty = Document { paths: vec![], schemas: vec![] };
    let error = resolve_schema_reference("#/components/schemas/User", &empty).unwrap_err();
    assert_eq!(error, ReferenceError::SchemaNotFound);
}

#[test]
fn pointer_to_a_pointer_is_not_followed() {
    let mut spec = user_document();
    spec.schemas.push(NamedSchema {
        name: "Alias".to_string(),
        schema: SchemaRef::Reference { reference: "#/components/schemas/User".to_string() },
    });
    let error = resolve_schema_reference("#/components/schemas/Alias", &spec).unwrap_err();
    assert_eq!(error, ReferenceError::SchemaNotFound);
    assert!(resolve_schema_reference("#/components/schemas/User", &spec).is_ok());
}

#[test]
fn repeated_prefix_is_part_of_the_name() {
    let mut spec = user_document();
    let reference = "#/components/schemas/#/components/schemas/User";
    let error = resolve_schema_reference(reference, &spec).unwrap_err();
    assert_eq!(error, ReferenceError::SchemaNotFound);
    assert_eq!(error.message(reference), "Schema not found: #/components/schemas/User");

    spec.schemas.push(NamedSchema {
        name: "#/components/schemas/User".to_string(),
        schema: SchemaRef::Item(Schema { description: Some("odd".to_string()), kind: SchemaKind::Other }),
    });
    let resolved = resolve_schema_reference(reference, &spec).unwrap();
    assert_eq!(resolved.description, Some("odd".to_string()));
    assert_eq!(resolve_schema_reference("#/components/schemas/User", &spec).unwrap().description, None);
}

#[test]
fn name_is_what_follows_the_prefix() {
    assert_eq!(name_in("#/components/schemas/User"), "User");
    assert_eq!(name_in("#/components/schemas/"), "");
    assert_eq!(name_in("#/components/schemas/a/b"), "a/b");
    assert_eq!(name_in("#/components/schemas/#/components/schemas/User"), "#/components/schemas/User");
    assert_eq!(name_in("#/invalid/path/User"), "#/invalid/path/User");
    assert_eq!(name_in(""), "");
}

#[test]
fn first_schema_of_a_name_is_found() {
    let mut spec = user_document();
    spec.schemas.push(NamedSchema {
        name: "User".to_string(),
        schema: SchemaRef::Item(Schema { description: Some("second".to_string()), kind: SchemaKind::Other }),
    });
    let resolved = resolve_schema_reference("#/components/schemas/User", &spec).unwrap();
    assert_eq!(resolved.description, None);
}

#[test]
fn reference_error_messages() {
    assert_eq!(
        ReferenceError::NotSchemaReference.message("#/invalid/path/User"),
        "Not a schema reference: #/invalid/path/User"
    );
    assert_eq!(
        ReferenceError::SchemaNotFound.message("#/components/schemas/NonExistent"),
        "Schema not found: NonExistent"
    );
}
