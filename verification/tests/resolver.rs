use httpie_oapi::openapi::document::{
    Document, MediaType, NamedSchema, Operation, Parameter, ParameterKind, ParameterRef,
    PathEntry, PathItem, PathItemRef, Property, PropertySchema, RequestBody, RequestBodyRef,
    Schema, SchemaKind, SchemaRef,
};
use httpie_oapi::openapi::param::ParamSource;
use httpie_oapi::openapi::{EndPoints, Method, Param};

fn declared(kind: ParameterKind, name: &str, required: bool, description: Option<&str>) -> ParameterRef {
    ParameterRef::Item(Parameter {
        kind,
        name: name.to_string(),
        required,
        description: description.map(String::from),
    })
}

fn pointer(reference: &str) -> ParameterRef {
    ParameterRef::Reference { reference: reference.to_string() }
}

fn object(properties: &[(&str, Option<&str>)], required: &[&str]) -> Schema {
    Schema {
        description: None,
        kind: SchemaKind::Object {
            properties: properties
                .iter()
                .map(|(name, description)| Property {
                    name: name.to_string(),
                    schema: PropertySchema::Item { description: description.map(String::from) },
                })
                .collect(),
            required: required.iter().map(|s| s.to_string()).collect(),
        },
    }
}

fn operation(summary: Option<&str>, parameters: Vec<ParameterRef>, request_body: Option<RequestBodyRef>) -> Operation {
    Operation { summary: summary.map(String::from), parameters, request_body }
}

fn json_body(schema: SchemaRef) -> RequestBodyRef {
    RequestBodyRef::Item(RequestBody {
        content: vec![MediaType { content_type: "application/json".to_string(), schema: Some(schema) }],
    })
}

fn empty_item() -> PathItem {
    PathItem {
        parameters: vec![],
        get: None,
        post: None,
        put: None,
        delete: None,
        patch: None,
        head: None,
        options: None,
    }
}

fn document(paths: Vec<PathEntry>, schemas: Vec<NamedSchema>) -> Document {
    Document { paths, schemas }
}

fn entry(path: &str, item: PathItem) -> PathEntry {
    PathEntry { path: path.to_string(), item: PathItemRef::Item(item) }
}

fn shape(params: &[Param]) -> Vec<(String, bool, ParamSource, Option<String>)> {
    params.iter().map(|p| (p.name.clone(), p.required, p.source, p.description.clone())).collect()
}

fn petstore() -> Document {
    let pets = PathItem {
        parameters: vec![declared(ParameterKind::Query, "limit", false, Some("Max"))],
        get: Some(operation(
            Some("List pets"),
            vec![declared(ParameterKind::Header, "X-Token", true, None)],
            None,
        )),
        post: Some(operation(
            Some("Create"),
            vec![declared(ParameterKind::Cookie, "sid", true, None)],
            Some(RequestBodyRef::Item(RequestBody {
                content: vec![
                    MediaType { content_type: "text/plain".to_string(), schema: None },
                    MediaType {
                        content_type: "application/json".to_string(),
                        schema: Some(SchemaRef::Item(object(&[("name", None)], &["name"]))),
                    },
                ],
            })),
        )),
        ..empty_item()
    };
    let pet = PathItem {
        parameters: vec![
            declared(ParameterKind::Path, "id", true, None),
            pointer("#/components/schemas/Paging"),
            pointer("#/components/parameters/Trace"),
        ],
        options: Some(operation(None, vec![], None)),
        delete: Some(operation(None, vec![], Some(RequestBodyRef::Reference {
            reference: "#/components/requestBodies/Reason".to_string(),
        }))),
        get: Some(operation(
            Some("Show a pet"),
            vec![],
            Some(json_body(SchemaRef::Reference { reference: "#/components/schemas/Paging".to_string() })),
        )),
        ..empty_item()
    };
    document(
        vec![
            entry("/pets", pets),
            PathEntry {
                path: "/ref".to_string(),
                item: PathItemRef::Reference { reference: "#/components/pathItems/Ref".to_string() },
            },
            entry("/pets/{id}", pet),
        ],
        vec![NamedSchema {
            name: "Paging".to_string(),
            schema: SchemaRef::Item(object(&[("page", Some("Page number")), ("size", None)], &["size"])),
        }],
    )
}

#[test]
fn one_endpoint_for_each_declared_method_in_order() {
    let endpoints = EndPoints::from(&petstore());
    let listed: Vec<(Method, String, Option<String>)> =
        endpoints.all().iter().map(|e| (e.method, e.path.clone(), e.summary.clone())).collect();
    assert_eq!(
        listed,
        vec![
            (Method::Get, "/pets".to_string(), Some("List pets".to_string())),
            (Method::Post, "/pets".to_string(), Some("Create".to_string())),
            (Method::Get, "/pets/{id}".to_string(), Some("Show a pet".to_string())),
            (Method::Delete, "/pets/{id}".to_string(), None),
            (Method::Options, "/pets/{id}".to_string(), None),
        ]
    );
}

#[test]
fn all_seven_methods_come_in_the_fixed_order() {
    let op = || Some(operation(None, vec![], None));
    let item = PathItem {
        parameters: vec![],
        options: op(),
        head: op(),
        patch: op(),
        delete: op(),
        put: op(),
        post: op(),
        get: op(),
    };
    let endpoints = EndPoints::from(&document(vec![entry("/a", item)], vec![]));
    let methods: Vec<Method> = endpoints.all().iter().map(|e| e.method).collect();
    assert_eq!(
        methods,
        vec![
            Method::Get,
            Method::Post,
            Method::Put,
            Method::Delete,
            Method::Patch,
            Method::Head,
            Method::Options
        ]
    );
}

#[test]
fn parameters_are_the_common_ones_then_the_own_ones_then_the_body() {
    let endpoints = EndPoints::from(&petstore());
    let all = endpoints.all();
    assert_eq!(
        shape(&all[0].params),
        vec![
            ("limit".to_string(), false, ParamSource::Query, Some("Max".to_string())),
            ("X-Token".to_string(), true, ParamSource::Header, None),
        ]
    );
    assert_eq!(
        shape(&all[1].params),
        vec![
            ("limit".to_string(), false, ParamSource::Query, Some("Max".to_string())),
            ("name".to_string(), true, ParamSource::Body, None),
        ]
    );
    assert_eq!(
        shape(&all[2].params),
        vec![
            ("id".to_string(), true, ParamSource::Path, None),
            ("page".to_string(), false, ParamSource::Body, Some("Page number".to_string())),
            ("page".to_string(), false, ParamSource::Body, Some("Page number".to_string())),
            ("size".to_string(), true, ParamSource::Body, None),
        ]
    );
    assert_eq!(
        shape(&all[3].params),
        vec![
            ("id".to_string(), true, ParamSource::Path, None),
            ("page".to_string(), false, ParamSource::Body, Some("Page number".to_string())),
        ]
    );
    assert_eq!(shape(&all[4].params), shape(&all[3].params));
}

#[test]
fn object_request_body_gives_one_required_body_param() {
    let body = json_body(SchemaRef::Item(object(&[("name", None)], &["name"])));
    let spec = document(vec![], vec![]);
    let params = EndPoints::extract_request_body_parameters(&body, &spec);
    assert_eq!(shape(&params), vec![("name".to_string(), true, ParamSource::Body, None)]);

    let item = PathItem { post: Some(operation(None, vec![], Some(body))), ..empty_item() };
    let endpoints = EndPoints::from(&document(vec![entry("/things", item)], vec![]));
    assert_eq!(endpoints.len(), 1);
    let all = endpoints.all();
    assert_eq!(all[0].method, Method::Post);
    assert_eq!(shape(&all[0].params), vec![("name".to_string(), true, ParamSource::Body, None)]);
}

#[test]
fn request_body_without_object_schema_gives_nothing() {
    let spec = petstore();
    let other = json_body(SchemaRef::Item(Schema { description: None, kind: SchemaKind::Other }));
    assert!(EndPoints::extract_request_body_parameters(&other, &spec).is_empty());

    let by_pointer = RequestBodyRef::Reference { reference: "#/components/schemas/Paging".to_string() };
    assert!(EndPoints::extract_request_body_parameters(&by_pointer, &spec).is_empty());

    let no_json = RequestBodyRef::Item(RequestBody {
        content: vec![MediaType {
            content_type: "application/xml".to_string(),
            schema: Some(SchemaRef::Item(object(&[("name", None)], &[]))),
        }],
    });
    assert!(EndPoints::extract_request_body_parameters(&no_json, &spec).is_empty());

    let no_schema = RequestBodyRef::Item(RequestBody {
        content: vec![MediaType { content_type: "application/json".to_string(), schema: None }],
    });
    assert!(EndPoints::extract_request_body_parameters(&no_schema, &spec).is_empty());

    let unresolved = json_body(SchemaRef::Reference { reference: "#/components/schemas/Nope".to_string() });
    assert!(EndPoints::extract_request_body_parameters(&unresolved, &spec).is_empty());
}

#[test]
fn schema_parameters_follow_one_pointer() {
    let spec = petstore();
    let by_pointer = SchemaRef::Reference { reference: "#/components/schemas/Paging".to_string() };
    let params = EndPoints::extract_schema_parameters(&by_pointer, &spec);
    assert_eq!(
        shape(&params),
        vec![
            ("page".to_string(), false, ParamSource::Body, Some("Page number".to_string())),
            ("size".to_string(), true, ParamSource::Body, None),
        ]
    );
    let in_place = SchemaRef::Item(object(&[("a", None)], &[]));
    assert_eq!(
        shape(&EndPoints::extract_schema_parameters(&in_place, &spec)),
        vec![("a".to_string(), false, ParamSource::Body, None)]
    );
}

#[test]
fn single_parameters() {
    let spec = petstore();
    let query = declared(ParameterKind::Query, "q", false, None);
    assert_eq!(EndPoints::extract_parameter(&query, &spec).unwrap().name, "q");
    let cookie = declared(ParameterKind::Cookie, "sid", true, None);
    assert!(EndPoints::extract_parameter(&cookie, &spec).is_none());
    let first = EndPoints::extract_parameter(&pointer("#/components/schemas/Paging"), &spec).unwrap();
    assert_eq!(first.name, "page");
    assert_eq!(first.source, ParamSource::Body);
    assert!(EndPoints::extract_parameter(&pointer("#/components/parameters/Paging"), &spec).is_none());
    assert!(EndPoints::extract_referenced_parameter("#/components/schemas/Nope", &spec).is_none());
    assert!(EndPoints::extract_referenced_parameter("", &spec).is_none());
    assert_eq!(
        EndPoints::extract_referenced_parameter("#/components/schemas/Paging", &spec).unwrap().name,
        "page"
    );
}

#[test]
fn referenced_schema_without_properties_gives_no_parameter() {
    let spec = document(
        vec![],
        vec![
            NamedSchema { name: "Empty".to_string(), schema: SchemaRef::Item(object(&[], &[])) },
            NamedSchema {
                name: "Text".to_string(),
                schema: SchemaRef::Item(Schema { description: None, kind: SchemaKind::Other }),
            },
        ],
    );
    assert!(EndPoints::extract_referenced_parameter("#/components/schemas/Empty", &spec).is_none());
    assert!(EndPoints::extract_referenced_parameter("#/components/schemas/Text", &spec).is_none());
    let list = vec![
        pointer("#/components/schemas/Empty"),
        declared(ParameterKind::Path, "id", true, None),
        pointer("#/components/schemas/Text"),
    ];
    let params = EndPoints::extract_parameters(&list, &spec);
    assert_eq!(shape(&params), vec![("id".to_string(), true, ParamSource::Path, None)]);
}

#[test]
fn duplicates_are_kept() {
    let item = PathItem {
        parameters: vec![declared(ParameterKind::Query, "q", false, None)],
        get: Some(operation(None, vec![declared(ParameterKind::Query, "q", true, None)], None)),
        ..empty_item()
    };
    let endpoints = EndPoints::from(&document(vec![entry("/a", item)], vec![]));
    assert_eq!(
        shape(&endpoints.all()[0].params),
        vec![
            ("q".to_string(), false, ParamSource::Query, None),
            ("q".to_string(), true, ParamSource::Query, None),
        ]
    );
}

#[test]
fn document_without_paths_has_no_endpoints() {
    let endpoints = EndPoints::from(&document(vec![], vec![]));
    assert_eq!(endpoints.len(), 0);
    assert!(endpoints.all().is_empty());
    let only_refs = document(
        vec![PathEntry {
            path: "/a".to_string(),
            item: PathItemRef::Reference { reference: "#/x".to_string() },
        }],
        vec![],
    );
    assert_eq!(EndPoints::from(&only_refs).len(), 0);
    assert_eq!(EndPoints::from(&document(vec![entry("/a", empty_item())], vec![])).len(), 0);
}
