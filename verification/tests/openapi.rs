use serde_json::Value;
use velton::controller::{document_endpoints, endpoint_operation, EndpointAttr, Method};
use velton::derive::{request_schema, response_settings, struct_component, FieldSpec, SchemaAttr};
use velton::openapi::{Content, Parameter, ParameterIn, PathItem};
use velton::response::{register_response, response_for};
use velton::router::assemble_openapi;
use velton::schema::{Components, Schema, SchemaType, ToSchema};
use velton::{OpenApi, ResponseSchema, Server, Source};

#[test]
fn builder_builds_document() {
    let doc = OpenApi::builder()
        .name("my-app")
        .version("0.1.0")
        .description("Lorem ipsum")
        .server(Server::builder().url("http://localhost:3000").build())
        .build();
    assert_eq!(doc.openapi, "3.0.3");
    assert_eq!(doc.info.title, "my-app");
    assert_eq!(doc.info.version, "0.1.0");
    assert_eq!(doc.servers[0].url, "http://localhost:3000");
}

#[test]
fn parameter_serializes_in() {
    let p = Parameter {
        name: "name".to_string(),
        location: ParameterIn::Query,
        required: true,
        schema: Some(String::schema()),
        ..Default::default()
    };
    assert_eq!(p.location, ParameterIn::Query);
    assert_eq!(p.name, "name");
}

#[test]
fn content_json_key() {
    let c = Content::json(String::schema());
    assert_eq!(
        c.json.unwrap().schema.unwrap().schema_type,
        Some(SchemaType::String)
    );
}

// --- A documented controller, as `#[derive(ToSchema)]` and `#[controller]`
// would describe it ------------------------------------------------------------

fn field(ident: &str, is_option: bool, schema: Schema, attrs: SchemaAttr) -> FieldSpec {
    FieldSpec {
        ident: ident.to_string(),
        is_option,
        schema,
        attrs,
    }
}

fn list_request() -> Vec<FieldSpec> {
    vec![
        field(
            "name",
            false,
            String::schema(),
            SchemaAttr {
                source: Some(Source::Query),
                example: Some(Value::String("John Doe".to_string())),
                description: Some("filter by name".to_string()),
                ..Default::default()
            },
        ),
        field(
            "page",
            true,
            <Option<u32>>::schema(),
            SchemaAttr {
                source: Some(Source::Query),
                ..Default::default()
            },
        ),
    ]
}

fn get_request() -> Vec<FieldSpec> {
    vec![field(
        "id",
        false,
        u64::schema(),
        SchemaAttr {
            source: Some(Source::Path),
            ..Default::default()
        },
    )]
}

fn create_request() -> Vec<FieldSpec> {
    vec![
        field("name", false, String::schema(), SchemaAttr::default()),
        field("email", false, String::schema(), SchemaAttr::default()),
    ]
}

struct Nested;

impl ToSchema for Nested {
    fn schema() -> Schema {
        Schema::reference("Nested")
    }

    fn schemas(components: &mut Components) {
        <u32 as ToSchema>::schemas(components);
        components.insert(
            "Nested".to_string(),
            struct_component(vec![field("count", false, u32::schema(), SchemaAttr::default())]),
        );
    }
}

struct UserResponse;

impl ToSchema for UserResponse {
    fn schema() -> Schema {
        Schema::reference("UserResponse")
    }

    fn schemas(components: &mut Components) {
        <u64 as ToSchema>::schemas(components);
        <Option<Vec<Nested>> as ToSchema>::schemas(components);
        components.insert(
            "UserResponse".to_string(),
            struct_component(vec![
                field("id", false, u64::schema(), SchemaAttr::default()),
                field("nested", true, <Option<Vec<Nested>>>::schema(), SchemaAttr::default()),
            ]),
        );
    }
}

impl ResponseSchema for UserResponse {
    fn status() -> u16 {
        201
    }

    fn description() -> &'static str {
        "User created"
    }
}

struct BadRequest;

impl ToSchema for BadRequest {
    fn schema() -> Schema {
        Schema::reference("BadRequest")
    }

    fn schemas(components: &mut Components) {
        components.insert(
            "BadRequest".to_string(),
            struct_component(vec![field("message", false, String::schema(), SchemaAttr::default())]),
        );
    }
}

impl ResponseSchema for BadRequest {
    fn status() -> u16 {
        400
    }

    fn description() -> &'static str {
        "OK"
    }
}

fn endpoint(method: &str, path: &str, description: Option<&str>) -> (Method, String) {
    EndpointAttr {
        method: Some(method.to_string()),
        path: Some(path.to_string()),
        description: description.map(|d| d.to_string()),
        error_responses: vec![],
    }
    .resolve()
    .unwrap()
}

fn users_controller() -> (Vec<(String, PathItem)>, Components) {
    let mut components = Components::new();
    let mut endpoints = Vec::new();

    let (m, p) = endpoint("get", "/users", Some("list users"));
    let op = endpoint_operation(
        "list",
        Some("list users".to_string()),
        Some(request_schema(list_request())),
        vec![
            (UserResponse::status(), response_for::<UserResponse>()),
            (BadRequest::status(), response_for::<BadRequest>()),
        ],
    );
    register_response::<UserResponse>(&mut components);
    register_response::<BadRequest>(&mut components);
    endpoints.push((p, m, op));

    let (m, p) = endpoint("get", "/users/:id", None);
    let op = endpoint_operation(
        "get",
        None,
        Some(request_schema(get_request())),
        vec![(UserResponse::status(), response_for::<UserResponse>())],
    );
    UserResponse::schemas(&mut components);
    endpoints.push((p, m, op));

    let (m, p) = endpoint("post", "/users", None);
    let op = endpoint_operation(
        "create",
        None,
        Some(request_schema(create_request())),
        vec![(UserResponse::status(), response_for::<UserResponse>())],
    );
    UserResponse::schemas(&mut components);
    endpoints.push((p, m, op));

    (document_endpoints(endpoints), components)
}

fn doc() -> OpenApi {
    let openapi = OpenApi::builder()
        .name("users-api")
        .version("0.1.0")
        .description("users api")
        .server(Server::builder().url("http://localhost:3000").build())
        .build();
    assemble_openapi(openapi, vec![users_controller()])
}

#[test]
fn document_header() {
    let doc = doc();
    assert_eq!(doc.openapi, "3.0.3");
    assert_eq!(doc.info.title, "users-api");
    assert_eq!(doc.info.version, "0.1.0");
    assert_eq!(doc.servers[0].url, "http://localhost:3000");
}

#[test]
fn paths_are_merged_by_method() {
    let doc = doc();
    let users = doc.paths.get("/users").unwrap();
    assert!(users.get.is_some());
    assert!(users.post.is_some());
    let users_id = doc.paths.get("/users/{id}").unwrap();
    assert!(users_id.get.is_some());
}

#[test]
fn query_parameters_are_documented() {
    let doc = doc();
    let params = &doc.paths.get("/users").unwrap().get.as_ref().unwrap().parameters;
    assert_eq!(params.len(), 2);

    let name = params.iter().find(|p| p.name == "name").expect("name parameter");
    assert_eq!(name.location, ParameterIn::Query);
    assert!(name.required);
    assert_eq!(name.example, Some(Value::String("John Doe".to_string())));
    assert_eq!(name.description.as_deref(), Some("filter by name"));
    assert_eq!(name.schema.as_ref().unwrap().schema_type, Some(SchemaType::String));

    let page = params.iter().find(|p| p.name == "page").expect("page parameter");
    assert!(!page.required);
    assert_eq!(page.schema.as_ref().unwrap().schema_type, Some(SchemaType::Integer));
    assert!(page.schema.as_ref().unwrap().nullable);
}

#[test]
fn path_parameters_are_documented() {
    let doc = doc();
    let params = &doc.paths.get("/users/{id}").unwrap().get.as_ref().unwrap().parameters;
    assert_eq!(params.len(), 1);
    let id = &params[0];
    assert_eq!(id.name, "id");
    assert_eq!(id.location, ParameterIn::Path);
    assert!(id.required);
}

#[test]
fn request_body_is_documented() {
    let doc = doc();
    let rb = doc
        .paths
        .get("/users")
        .unwrap()
        .post
        .as_ref()
        .unwrap()
        .request_body
        .as_ref()
        .unwrap();
    assert!(rb.required);
    let schema = rb.content.json.as_ref().unwrap().schema.as_ref().unwrap();
    assert_eq!(schema.schema_type, Some(SchemaType::Object));
    assert!(schema.properties.get("name").is_some());
    assert!(schema.properties.get("email").is_some());
}

#[test]
fn success_and_extra_responses_are_documented() {
    let doc = doc();
    let responses = &doc.paths.get("/users").unwrap().get.as_ref().unwrap().responses;
    assert!(responses.get("201").is_some());
    assert_eq!(responses.get("201").unwrap().description, "User created");
    assert!(responses.get("400").is_some());
}

#[test]
fn components_are_collected_recursively() {
    let doc = doc();
    let schemas = &doc.components.as_ref().unwrap().schemas;
    assert!(schemas.get("UserResponse").is_some());
    let nested = schemas.get("Nested").unwrap();
    assert_eq!(
        nested.properties.get("count").unwrap().schema_type,
        Some(SchemaType::Integer)
    );
}

#[test]
fn operation_metadata_is_documented() {
    let doc = doc();
    let get = doc.paths.get("/users").unwrap().get.as_ref().unwrap();
    assert_eq!(get.description.as_deref(), Some("list users"));
    assert_eq!(get.operation_id.as_deref(), Some("list"));
}

#[test]
fn response_defaults_are_200_and_ok() {
    let (status, description) = response_settings(&SchemaAttr::default());
    assert_eq!(status, 200);
    assert_eq!(description, "OK");
    let (status, description) = response_settings(&SchemaAttr {
        status_code: Some(201),
        description: Some("User created".to_string()),
        ..Default::default()
    });
    assert_eq!(status, 201);
    assert_eq!(description, "User created");
}

#[test]
fn nested_types_register_before_their_users() {
    let mut components = Components::new();
    register_response::<UserResponse>(&mut components);
    let names: Vec<String> = components.into_entries().into_iter().map(|(k, _)| k).collect();
    assert_eq!(names, vec!["Nested".to_string(), "UserResponse".to_string()]);
}

#[test]
fn well_formed_documents_are_recognised() {
    assert!(doc().is_well_formed());
    assert!(OpenApi::builder().name("x").build().is_well_formed());
    let mut components = Components::new();
    register_response::<UserResponse>(&mut components);
    register_response::<UserResponse>(&mut components);
    assert!(components.has_distinct_keys());
    assert_eq!(components.len(), 2);
}
