//! Interactive API docs page (Scalar).

use vstd::prelude::*;

verus! {

/// The path the OpenAPI JSON document is served at.
pub const OPENAPI_PATH: &'static str = "/openapi.json";

/// The path the interactive docs UI is served at.
pub const DOCS_PATH: &'static str = "/docs";

/// The Scalar docs page, loading `@scalar/api-reference` from a CDN and
/// pointing it at `OPENAPI_PATH`.
pub open spec fn spec_scalar_html() -> Seq<char> {
    "<!doctype html>
<html lang=\"en\">
  <head>
    <meta charset=\"utf-8\" />
    <meta name=\"viewport\" content=\"width=device-width, initial-scale=1\" />
    <title>API Reference</title>
    <style>
      html, body, #api-reference { height: 100%; margin: 0; }
    </style>
  </head>
  <body>
    <script id=\"api-reference\" data-url=\"/openapi.json\"></script>
    <script src=\"https://cdn.jsdelivr.net/npm/@scalar/api-reference\"></script>
  </body>
</html>"@
}

/// Returns the Scalar docs page, loading `@scalar/api-reference` from a CDN and
/// pointing it at `OPENAPI_PATH`.
pub fn scalar_html() -> (html: &'static str)
    ensures
        html@ == spec_scalar_html(),
{
    "<!doctype html>
<html lang=\"en\">
  <head>
    <meta charset=\"utf-8\" />
    <meta name=\"viewport\" content=\"width=device-width, initial-scale=1\" />
    <title>API Reference</title>
    <style>
      html, body, #api-reference { height: 100%; margin: 0; }
    </style>
  </head>
  <body>
    <script id=\"api-reference\" data-url=\"/openapi.json\"></script>
    <script src=\"https://cdn.jsdelivr.net/npm/@scalar/api-reference\"></script>
  </body>
</html>"
}

} // verus!
