use velton::controller::{convert_path, document_endpoints, endpoint_operation, path_item_for, EndpointAttr, Method};
use velton::derive::{
    decorated_schema, enum_schema, header_lookup_name, header_name, request_schema, struct_component,
    upper_camel_case, FieldSpec, SchemaAttr,
};
use velton::docs::{scalar_html, DOCS_PATH, OPENAPI_PATH};
use velton::openapi::{Operation, ParameterIn, PathItem};
use velton::router::{bind_address, DEFAULT_BIND};
use velton::schema::{Components, Schema, SchemaType, ToSchema};
use velton::{OpenApi, Source};

#[test]
fn colon_params_become_braces() {
    assert_eq!(convert_path("/users/:id"), "/users/{id}");
    assert_eq!(convert_path("/a/:x/b/:y_2/c"), "/a/{x}/b/{y_2}/c");
    assert_eq!(convert_path("/plain"), "/plain");
    assert_eq!(convert_path("/already/{id}"), "/already/{id}");
    assert_eq!(convert_path("/:"), "/{}");
    assert_eq!(convert_path(""), "");
}

#[test]
fn converting_twice_changes_nothing() {
    let once = convert_path("/users/:id/posts/:post_id");
    assert_eq!(convert_path(&once), once);
}

#[test]
fn header_names_get_x_prefix() {
    assert_eq!(header_name("api_key", None), "X-Api-Key");
    assert_eq!(header_name("api_key", Some("X-Custom")), "X-Custom");
    assert_eq!(header_lookup_name("api_key", None), "x-api-key");
}

#[test]
fn upper_camel_case_splits_on_separators() {
    assert_eq!(upper_camel_case("my_field"), "My-Field");
    assert_eq!(upper_camel_case("my-field"), "My-Field");
    assert_eq!(upper_camel_case("__a__b_"), "A-B");
    assert_eq!(upper_camel_case(""), "");
    assert_eq!(upper_camel_case("x"), "X");
}

#[test]
fn method_names() {
    assert_eq!(Method::from_name("get").unwrap(), Method::Get);
    assert_eq!(Method::from_name("any").unwrap(), Method::Any);
    assert_eq!(
        Method::from_name("fetch").unwrap_err(),
        "velton: unknown endpoint method `fetch`, expected `get`, `post`, `put`, `delete`, `patch`, `options`, `head` or `any`"
    );
}

#[test]
fn endpoint_attribute_errors() {
    let missing_method = EndpointAttr { method: None, path: Some("/x".to_string()), description: None, error_responses: vec![] };
    assert_eq!(missing_method.resolve().unwrap_err(), "velton: `#[endpoint(...)]` missing `method`");
    let missing_path = EndpointAttr { method: Some("get".to_string()), path: None, description: None, error_responses: vec![] };
    assert_eq!(missing_path.resolve().unwrap_err(), "velton: `#[endpoint(...)]` missing `path`");
    let ok = EndpointAttr { method: Some("put".to_string()), path: Some("/u/:id".to_string()), description: None, error_responses: vec![] };
    let (m, p) = ok.resolve().unwrap();
    assert_eq!(m, Method::Put);
    assert_eq!(p, "/u/{id}");
}

#[test]
fn any_method_is_not_documented() {
    assert!(path_item_for(Method::Any, Operation::default()).is_none());
    let item = path_item_for(Method::Delete, Operation::default()).unwrap();
    assert!(item.delete.is_some());
    assert!(item.get.is_none());
    let paths = document_endpoints(vec![
        ("/a".to_string(), Method::Any, Operation::default()),
        ("/b".to_string(), Method::Get, Operation::default()),
        ("/a".to_string(), Method::Post, Operation::default()),
        ("/b".to_string(), Method::Head, Operation::default()),
    ]);
    assert_eq!(paths.len(), 2);
    assert_eq!(paths[0].0, "/b");
    assert!(paths[0].1.get.is_some() && paths[0].1.head.is_some());
    assert_eq!(paths[1].0, "/a");
    assert!(paths[1].1.post.is_some());
}

#[test]
fn operation_responses_keyed_by_status() {
    let ok = velton::openapi::Response { description: "first".to_string(), content: None };
    let bad = velton::openapi::Response { description: "bad".to_string(), content: None };
    let again = velton::openapi::Response { description: "second".to_string(), content: None };
    let op = endpoint_operation("h", None, None, vec![(200, ok), (400, bad), (200, again)]);
    assert_eq!(op.operation_id.as_deref(), Some("h"));
    assert!(op.parameters.is_empty());
    assert!(op.request_body.is_none());
    let keys: Vec<&String> = op.responses.keys().collect();
    assert_eq!(keys, vec!["200", "400"]);
    assert_eq!(op.responses.get("200").unwrap().description, "second");
}

#[test]
fn path_item_merge_overwrites_present_fields() {
    let mut a = PathItem { summary: Some("a".to_string()), get: Some(Operation::default()), ..Default::default() };
    let b = PathItem { summary: Some("b".to_string()), post: Some(Operation::default()), ..Default::default() };
    a.merge(b);
    assert_eq!(a.summary.as_deref(), Some("b"));
    assert!(a.get.is_some());
    assert!(a.post.is_some());
    assert!(a.put.is_none());
    let mut c = PathItem { description: Some("d".to_string()), ..Default::default() };
    c.merge(PathItem::default());
    assert_eq!(c.description.as_deref(), Some("d"));
}

#[test]
fn document_merge_keeps_existing_components() {
    let mut doc = OpenApi::builder().name("t").build();
    let mut first = Components::new();
    first.insert("A".to_string(), String::schema());
    doc.merge(vec![("/x".to_string(), PathItem { get: Some(Operation::default()), ..Default::default() })], first);
    let mut second = Components::new();
    second.insert("A".to_string(), bool::schema());
    second.insert("B".to_string(), u8::schema());
    doc.merge(vec![("/x".to_string(), PathItem { post: Some(Operation::default()), ..Default::default() })], second);
    let schemas = &doc.components.as_ref().unwrap().schemas;
    assert_eq!(schemas.get("A").unwrap().schema_type, Some(SchemaType::String));
    assert_eq!(schemas.get("B").unwrap().schema_type, Some(SchemaType::Integer));
    let x = doc.paths.get("/x").unwrap();
    assert!(x.get.is_some() && x.post.is_some());
    assert_eq!(doc.paths.len(), 1);
}

#[test]
fn document_merge_without_components_adds_none() {
    let mut doc = OpenApi::default();
    assert_eq!(doc.openapi, "3.0.3");
    doc.merge(vec![], Components::new());
    assert!(doc.components.is_none());
    assert!(doc.paths.is_empty());
}

#[test]
fn untitled_document_defaults() {
    let doc = OpenApi::builder().build();
    assert_eq!(doc.info.title, "");
    assert_eq!(doc.info.version, "0.1.0");
    assert!(doc.info.description.is_none());
    assert!(doc.components.is_none());
    let server = velton::Server::builder().description("main").build();
    assert_eq!(server.url, "");
    assert_eq!(server.description.as_deref(), Some("main"));
}

#[test]
fn header_fields_and_body_fields() {
    let fields = vec![
        FieldSpec {
            ident: "api_key".to_string(),
            is_option: false,
            schema: String::schema(),
            attrs: SchemaAttr { source: Some(Source::Header), ..Default::default() },
        },
        FieldSpec {
            ident: "note".to_string(),
            is_option: true,
            schema: <Option<String>>::schema(),
            attrs: SchemaAttr::default(),
        },
        FieldSpec {
            ident: "count".to_string(),
            is_option: false,
            schema: u32::schema(),
            attrs: SchemaAttr { required: Some(false), rename: Some("n".to_string()), ..Default::default() },
        },
    ];
    let (params, body) = request_schema(fields);
    assert_eq!(params.len(), 1);
    assert_eq!(params[0].name, "X-Api-Key");
    assert_eq!(params[0].location, ParameterIn::Header);
    assert!(params[0].required);
    let body = body.unwrap();
    assert!(!body.required);
    let schema = body.content.json.unwrap().schema.unwrap();
    assert!(schema.properties.get("note").is_some());
    assert!(schema.properties.get("n").is_some());
    assert!(schema.required.is_empty());
}

#[test]
fn no_body_fields_no_request_body() {
    let fields = vec![FieldSpec {
        ident: "id".to_string(),
        is_option: false,
        schema: u64::schema(),
        attrs: SchemaAttr { source: Some(Source::Path), required: Some(false), ..Default::default() },
    }];
    let (params, body) = request_schema(fields);
    assert!(body.is_none());
    assert!(params[0].required);
}

#[test]
fn decorations_apply_to_field_schema() {
    let attrs = SchemaAttr {
        description: Some("d".to_string()),
        format: Some("date-time".to_string()),
        deprecated: true,
        min_length: Some(2),
        maximum: Some(10.0f64.to_bits()),
        ..Default::default()
    };
    let s = decorated_schema(String::schema(), &attrs);
    assert_eq!(s.description.as_deref(), Some("d"));
    assert_eq!(s.format.as_deref(), Some("date-time"));
    assert!(s.deprecated);
    assert_eq!(s.min_length, Some(2));
    assert_eq!(s.maximum.map(f64::from_bits), Some(10.0));
    assert_eq!(s.schema_type, Some(SchemaType::String));
}

#[test]
fn struct_component_lists_required_fields() {
    let s = struct_component(vec![
        FieldSpec { ident: "a".to_string(), is_option: false, schema: String::schema(), attrs: SchemaAttr::default() },
        FieldSpec { ident: "b".to_string(), is_option: true, schema: <Option<u8>>::schema(), attrs: SchemaAttr::default() },
    ]);
    assert_eq!(s.schema_type, Some(SchemaType::Object));
    assert_eq!(s.required, vec!["a".to_string()]);
    assert_eq!(s.properties.len(), 2);
}

#[test]
fn enums_are_string_choices() {
    let s = enum_schema(vec!["Red".to_string(), "Green".to_string()]);
    assert_eq!(s.schema_type, Some(SchemaType::String));
    assert_eq!(
        s.enum_values.unwrap(),
        vec![serde_json::Value::String("Red".to_string()), serde_json::Value::String("Green".to_string())]
    );
}

#[test]
fn schema_reference_target() {
    let s: Schema = Schema::reference("User");
    assert_eq!(s.reference.unwrap(), "#/components/schemas/User");
}

#[test]
fn serving_defaults() {
    assert_eq!(bind_address(None), "127.0.0.1:3000");
    assert_eq!(bind_address(Some("0.0.0.0:8080".to_string())), "0.0.0.0:8080");
    assert_eq!(DEFAULT_BIND, "127.0.0.1:3000");
    assert_eq!(OPENAPI_PATH, "/openapi.json");
    assert_eq!(DOCS_PATH, "/docs");
    assert!(scalar_html().contains("data-url=\"/openapi.json\""));
}
