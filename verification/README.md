# velton

A REST API framework with first-class OpenAPI 3.0 support, built on axum.

- `src/` is the verified library: the OpenAPI document model and its merge
  rules, the rules that turn request and response types into parameters,
  request bodies, responses and component schemas, route-path conversion,
  the reading of `#[schema]` and `#[endpoint]` settings, and request
  extraction helpers. Each function states its result in `requires` /
  `ensures` and is proved by Verus; the laws of merging are public proof
  functions in `src/openapi.rs` and `src/maps.rs`.
- `app/` serves it: the axum router, the HTTP listener, process-wide
  settings, and the serde form of the document.
- `tests/` runs the library on concrete values.
