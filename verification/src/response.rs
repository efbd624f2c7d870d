//! Response types and their OpenAPI response descriptors.

use vstd::prelude::*;
use crate::openapi::{Content, MediaType, Response};
use crate::schema::{Components, Schema, ToSchema};

verus! {

/// Implemented by response types: the HTTP status they are sent with and
/// their description.
pub trait ResponseSchema: ToSchema {
    /// The HTTP status code returned by this response.
    fn status() -> u16;

    /// The response description.
    fn description() -> &'static str;
}

/// The response descriptor with the given description and JSON content of
/// the given schema.
pub open spec fn described_response(r: Response, description: Seq<char>, schema: Schema) -> bool {
    &&& r.description@ == description
    &&& r.content == Some(Content { json: Some(MediaType { schema: Some(schema), example: None }) })
}

/// Builds the OpenAPI [`Response`] descriptor for a [`ResponseSchema`] type:
/// its description, and JSON content with its schema.
pub fn response_for<T: ResponseSchema>() -> (r: Response)
    ensures
        exists|d: &'static str, s: Schema|
            call_ensures(T::description, (), d) && call_ensures(T::schema, (), s) && described_response(r, d@, s),
{
    let d = T::description();
    let description = crate::text::owned(d);
    let schema = T::schema();
    let r = Response { description, content: Some(Content::json(schema)) };
    assert(described_response(r, d@, schema));
    r
}

/// Registers a response type and its nested schemas into `components`.
pub fn register_response<T: ResponseSchema>(components: &mut Components)
    ensures
        exists|r: &mut Components|
            #[trigger] call_ensures(T::schemas, (r,), ()) && *r == *old(components) && *final(r) == *final(components),
{
    T::schemas(components);
}

} // verus!
