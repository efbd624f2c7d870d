use serde_json::Value;
use velton::attr::{parse_decimal, Lit, LitKind, Setting, SettingValue};
use velton::controller::EndpointAttr;
use velton::derive::SchemaAttr;
use velton::Source;

fn set(key: &str, value: SettingValue) -> Setting {
    Setting { key: Some(key.to_string()), value }
}

fn path(segments: &[&str]) -> SettingValue {
    SettingValue::Path(segments.iter().map(|s| s.to_string()).collect())
}

fn string(s: &str) -> SettingValue {
    SettingValue::Lit(Lit { kind: LitKind::Str(s.to_string()), json: Value::String(s.to_string()) })
}

fn integer(digits: &str) -> SettingValue {
    let v: f64 = digits.parse().unwrap();
    SettingValue::Lit(Lit {
        kind: LitKind::Int { digits: digits.to_string(), f64_bits: v.to_bits() },
        json: Value::from(v as u64),
    })
}

fn boolean(b: bool) -> SettingValue {
    SettingValue::Lit(Lit { kind: LitKind::Bool(b), json: Value::Bool(b) })
}

#[test]
fn schema_settings_are_read_in_order() {
    let a = SchemaAttr::from_settings(vec![
        set("source", path(&["Source", "Query"])),
        set("example", string("John Doe")),
        set("description", string("filter")),
        set("deprecated", SettingValue::Absent),
        set("min_length", integer("3")),
        set("minimum", integer("2")),
        set("status_code", integer("201")),
        set("rename", string("who")),
        set("required", boolean(false)),
        set("description", string("later wins")),
    ])
    .unwrap();
    assert_eq!(a.source, Some(Source::Query));
    assert_eq!(a.example, Some(Value::String("John Doe".to_string())));
    assert_eq!(a.description.as_deref(), Some("later wins"));
    assert!(a.deprecated);
    assert_eq!(a.min_length, Some(3));
    assert_eq!(a.minimum.map(f64::from_bits), Some(2.0));
    assert_eq!(a.status_code, Some(201));
    assert_eq!(a.rename.as_deref(), Some("who"));
    assert_eq!(a.required, Some(false));
}

#[test]
fn schema_setting_errors() {
    let e = SchemaAttr::from_settings(vec![set("source", path(&["Source", "Cookie"]))]).err().unwrap();
    assert_eq!(
        e,
        "velton: unknown source `Cookie`, expected `Source::Body`, `Source::Query`, `Source::Path` or `Source::Header`"
    );
    let e = SchemaAttr::from_settings(vec![set("colour", string("red"))]).err().unwrap();
    assert_eq!(e, "velton: unknown `#[schema]` attribute `colour`");
    let e = SchemaAttr::from_settings(vec![set("minimum", string("x"))]).err().unwrap();
    assert_eq!(e, "velton: `minimum` must be a number");
    let e = SchemaAttr::from_settings(vec![set("max_length", boolean(true))]).err().unwrap();
    assert_eq!(e, "velton: `max_length` must be an integer");
    let e = SchemaAttr::from_settings(vec![set("status_code", integer("70000"))]).err().unwrap();
    assert_eq!(e, "number too large to fit in target type");
    let e = SchemaAttr::from_settings(vec![
        set("title", string("ok")),
        set("nope", SettingValue::Absent),
        set("also_nope", SettingValue::Absent),
    ])
    .err()
    .unwrap();
    assert_eq!(e, "velton: unknown `#[schema]` attribute `nope`");
}

#[test]
fn endpoint_settings_are_read() {
    let a = EndpointAttr::from_settings(vec![
        set("method", path(&["get"])),
        set("path", string("/users/:id")),
        set("description", string("one user")),
        set("error_responses", SettingValue::Types(vec!["BadRequest".to_string()])),
    ])
    .unwrap();
    assert_eq!(a.method.as_deref(), Some("get"));
    assert_eq!(a.path.as_deref(), Some("/users/:id"));
    assert_eq!(a.description.as_deref(), Some("one user"));
    assert_eq!(a.error_responses, vec!["BadRequest".to_string()]);
    let e = EndpointAttr::from_settings(vec![set("verb", path(&["get"]))]).err().unwrap();
    assert_eq!(e, "velton: unknown `#[endpoint]` attribute `verb`");
}

#[test]
fn decimal_parsing() {
    assert_eq!(parse_decimal("65535", 65535), Some(65535));
    assert_eq!(parse_decimal("65536", 65535), None);
    assert_eq!(parse_decimal("", 10), None);
    assert_eq!(parse_decimal("1a", 100), None);
    assert_eq!(parse_decimal("007", 10), Some(7));
}

#[test]
fn value_form_errors_follow_the_attribute_parser() {
    let e = SchemaAttr::from_settings(vec![set("description", SettingValue::Absent)]).err().unwrap();
    assert_eq!(e, "expected `=`");
    let e = SchemaAttr::from_settings(vec![set("description", boolean(true))]).err().unwrap();
    assert_eq!(e, "expected string literal");
    let e = SchemaAttr::from_settings(vec![set("source", string("Query"))]).err().unwrap();
    assert_eq!(e, "expected identifier");
    let e = SchemaAttr::from_settings(vec![set("status_code", string("201"))]).err().unwrap();
    assert_eq!(e, "expected integer literal");
    let e = SchemaAttr::from_settings(vec![set("required", integer("1"))]).err().unwrap();
    assert_eq!(e, "expected boolean literal");
    let e = SchemaAttr::from_settings(vec![set("deprecated", string("yes"))]).err().unwrap();
    assert_eq!(e, "expected boolean literal");
    let e = SchemaAttr::from_settings(vec![set("example", path(&["Foo"]))]).err().unwrap();
    assert_eq!(e, "expected literal");
    let e = SchemaAttr::from_settings(vec![set("minimum", path(&["LOW"]))]).err().unwrap();
    assert_eq!(e, "expected literal");
    let e = EndpointAttr::from_settings(vec![set("path", path(&["users"]))]).err().unwrap();
    assert_eq!(e, "expected string literal");
    let e = EndpointAttr::from_settings(vec![set("method", string("get"))]).err().unwrap();
    assert_eq!(e, "expected identifier");
    let e = EndpointAttr::from_settings(vec![set("error_responses", string("X"))]).err().unwrap();
    assert_eq!(e, "expected parentheses");
}
