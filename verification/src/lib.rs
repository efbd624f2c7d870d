//! velton — a REST API framework with first-class OpenAPI 3.0 support.
//!
//! This crate holds the verified core: the OpenAPI document model and its
//! merge rules, the rules that turn request and response types into OpenAPI
//! parameters, bodies and operations, route-path conversion, and the
//! request-extraction helpers. Serving (routing, middleware, the HTTP
//! listener) sits on top of it.

pub mod attr;
pub mod controller;
pub mod derive;
pub mod docs;
pub mod error;
pub mod extract;
pub mod maps;
pub mod openapi;
pub mod response;
pub mod router;
pub mod schema;
pub mod text;

pub use error::ExtractionRejection;
pub use extract::{RequestSchema, Source};
pub use openapi::{OpenApi, Server};
pub use response::ResponseSchema;
pub use schema::{Components, Schema, SchemaType, ToSchema};
