use velton::schema::{Components, Schema, SchemaType, ToSchema};
use std::collections::HashMap;

#[test]
fn string_schema() {
    let s = String::schema();
    assert_eq!(s.schema_type, Some(SchemaType::String));
    assert!(s.reference.is_none());
}

#[test]
fn option_makes_nullable() {
    let s = <Option<String>>::schema();
    assert_eq!(s.schema_type, Some(SchemaType::String));
    assert!(s.nullable);
}

#[test]
fn vec_is_array() {
    let s = <Vec<i32>>::schema();
    assert_eq!(s.schema_type, Some(SchemaType::Array));
    let items = s.items.unwrap();
    assert_eq!(items.schema_type, Some(SchemaType::Integer));
}

#[test]
fn object_serializes_properties_as_object() {
    let schema = Schema::object(
        vec![("name".to_string(), String::schema())],
        vec!["name".to_string()],
    );
    assert_eq!(schema.schema_type, Some(SchemaType::Object));
    assert_eq!(
        schema.properties.get("name").unwrap().schema_type,
        Some(SchemaType::String)
    );
    assert_eq!(schema.required[0], "name");
}

#[test]
fn reference_serializes_ref() {
    let schema = Schema::reference("Foo");
    assert_eq!(schema.reference.as_deref(), Some("#/components/schemas/Foo"));
}

#[test]
fn primitives_have_their_types() {
    assert_eq!(bool::schema().schema_type, Some(SchemaType::Boolean));
    assert_eq!(u64::schema().schema_type, Some(SchemaType::Integer));
    assert_eq!(i8::schema().schema_type, Some(SchemaType::Integer));
    assert_eq!(<&'static str>::schema().schema_type, Some(SchemaType::String));
    assert_eq!(<()>::schema().schema_type, None);
    assert_eq!(serde_json::Value::schema().schema_type, None);
}

#[test]
fn map_schema_has_additional_properties() {
    let s = <HashMap<String, bool>>::schema();
    assert_eq!(s.schema_type, Some(SchemaType::Object));
    let inner = s.additional_properties.unwrap();
    assert_eq!(inner.schema_type, Some(SchemaType::Boolean));
}

#[test]
fn default_schema_sets_nothing() {
    let s = Schema::default();
    assert!(s.schema_type.is_none());
    assert!(!s.nullable);
    assert!(s.properties.is_empty());
    assert!(s.required.is_empty());
}

#[test]
fn object_duplicate_property_keeps_first_place() {
    let schema = Schema::object(
        vec![
            ("a".to_string(), String::schema()),
            ("b".to_string(), bool::schema()),
            ("a".to_string(), u8::schema()),
        ],
        vec![],
    );
    let entries = schema.properties.into_entries();
    assert_eq!(entries.len(), 2);
    assert_eq!(entries[0].0, "a");
    assert_eq!(entries[0].1.schema_type, Some(SchemaType::Integer));
    assert_eq!(entries[1].0, "b");
}

#[test]
fn components_insert_replaces_in_place() {
    let mut c = Components::new();
    assert!(c.insert("x".to_string(), String::schema()).is_none());
    assert!(c.insert("y".to_string(), bool::schema()).is_none());
    let prev = c.insert("x".to_string(), u32::schema());
    assert_eq!(prev.unwrap().schema_type, Some(SchemaType::String));
    assert_eq!(c.len(), 2);
    let entries = c.into_entries();
    assert_eq!(entries[0].0, "x");
    assert_eq!(entries[0].1.schema_type, Some(SchemaType::Integer));
}

#[test]
fn primitives_register_nothing() {
    let mut c = Components::new();
    c.insert("Kept".to_string(), Schema::default());
    <bool as ToSchema>::schemas(&mut c);
    <u64 as ToSchema>::schemas(&mut c);
    <Option<String> as ToSchema>::schemas(&mut c);
    <Vec<i32> as ToSchema>::schemas(&mut c);
    <HashMap<String, ()> as ToSchema>::schemas(&mut c);
    assert_eq!(c.len(), 1);
    assert!(c.get("Kept").is_some());
}
