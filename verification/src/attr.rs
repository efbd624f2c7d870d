//! Reading `#[schema(...)]` and `#[endpoint(...)]` settings.
//!
//! Each setting is `key = value` (or a bare `key`); the settings are read in
//! order, a later one overriding an earlier one, and the first unusable
//! setting stops the reading with its message.

use vstd::prelude::*;
use crate::controller::EndpointAttr;
use crate::derive::SchemaAttr;
use crate::extract::Source;
use crate::text::{chars_of, owned, push_str, same_text};

verus! {

/// A literal written as a setting's value.
pub enum LitKind {
    /// A string literal: its text.
    Str(String),
    /// An integer literal: its decimal digits and the bits of its `f64` value.
    Int { digits: String, f64_bits: u64 },
    /// A floating-point literal: the bits of its `f64` value.
    Float { f64_bits: u64 },
    /// `true` or `false`.
    Bool(bool),
    /// Any other literal (a character, a byte string, ...).
    Other,
}

/// A literal and the JSON value it stands for.
pub struct Lit {
    pub kind: LitKind,
    pub json: serde_json::Value,
}

/// The value of a setting.
pub enum SettingValue {
    /// The setting is written without `= value`.
    Absent,
    /// A path such as `Source::Query` or `get`: its segments.
    Path(Vec<String>),
    /// A literal.
    Lit(Lit),
    /// Any other expression (accepted by `default` only): its JSON value.
    Expr(serde_json::Value),
    /// A parenthesised list of types (accepted by `error_responses` only):
    /// the types as written.
    Types(Vec<String>),
}

/// One `key = value` setting; `key` is `None` when the key is not a single
/// identifier.
pub struct Setting {
    pub key: Option<String>,
    pub value: SettingValue,
}

/// The decimal value of a run of digits.
pub open spec fn digits_value(d: Seq<char>) -> nat
    decreases d.len(),
{
    if d.len() == 0 {
        0
    } else {
        digits_value(d.drop_last()) * 10 + ((d.last() as u32) - 48) as nat
    }
}

/// Every character is a decimal digit, and there is at least one.
pub open spec fn all_digits(d: Seq<char>) -> bool {
    d.len() > 0 && forall|i: int| 0 <= i < d.len() ==> '0' <= #[trigger] d[i] <= '9'
}

/// The number written by `d`, if it is digits and at most `max`.
pub open spec fn spec_parse_decimal(d: Seq<char>, max: u64) -> Option<u64> {
    if all_digits(d) && digits_value(d) <= max {
        Some(digits_value(d) as u64)
    } else {
        None
    }
}

proof fn lemma_digits_value_monotone(d: Seq<char>, i: int)
    requires
        0 <= i <= d.len(),
        forall|k: int| 0 <= k < d.len() ==> '0' <= #[trigger] d[k] <= '9',
    ensures
        digits_value(d.take(i)) <= digits_value(d),
    decreases d.len() - i,
{
    if i < d.len() {
        lemma_digits_value_monotone(d, i + 1);
        assert(d.take(i + 1).drop_last() == d.take(i));
        assert('0' <= d.take(i + 1).last() <= '9');
    } else {
        assert(d.take(i) == d);
    }
}

/// Reads a run of decimal digits as a number no greater than `max`.
pub fn parse_decimal(d: &str, max: u64) -> (r: Option<u64>)
    ensures
        r == spec_parse_decimal(d@, max),
{
    let cs = chars_of(d);
    let ghost s = d@;
    if cs.len() == 0 {
        return None;
    }
    let mut i: usize = 0;
    while i < cs.len()
        invariant
            cs@ == s,
            s == d@,
            i <= s.len(),
            forall|k: int| 0 <= k < i ==> '0' <= #[trigger] s[k] <= '9',
        decreases s.len() - i,
    {
        if !('0' <= cs[i] && cs[i] <= '9') {
            assert(!all_digits(s)) by {
                assert(!('0' <= s[i as int] <= '9'));
            }
            return None;
        }
        i = i + 1;
    }
    let mut value: u64 = 0;
    let mut j: usize = 0;
    assert(s.take(0) == Seq::<char>::empty());
    while j < cs.len()
        invariant
            cs@ == s,
            s == d@,
            j <= s.len(),
            all_digits(s),
            value == digits_value(s.take(j as int)),
            value <= max,
        decreases s.len() - j,
    {
        let digit: u64 = ((cs[j] as u32) - 48) as u64;
        assert(s.take(j + 1).drop_last() == s.take(j as int));
        if digit > max || value > (max - digit) / 10 {
            proof {
                assert(s.take(j + 1).last() == s[j as int]);
                assert(digits_value(s.take(j + 1)) == value * 10 + digit);
                if digit <= max {
                    assert(value * 10 + digit > max) by (nonlinear_arith)
                        requires
                            value > (max - digit) / 10,
                            digit <= max,
                    ;
                }
                lemma_digits_value_monotone(s, j + 1);
            }
            return None;
        }
        assert(value * 10 + digit <= max) by (nonlinear_arith)
            requires
                value <= (max - digit) / 10,
                digit <= max,
        ;
        assert(s.take(j + 1).last() == s[j as int]);
        value = value * 10 + digit;
        j = j + 1;
    }
    assert(s.take(s.len() as int) == s);
    Some(value)
}

/// The last segment of a path (empty for an empty path).
pub open spec fn last_segment(p: Seq<String>) -> Seq<char> {
    if p.len() == 0 {
        Seq::empty()
    } else {
        p.last()@
    }
}

/// The source named by the last segment of a `source = ...` path.
pub open spec fn source_named(name: Seq<char>) -> Option<Source> {
    if name == "Body"@ {
        Some(Source::Body)
    } else if name == "Query"@ {
        Some(Source::Query)
    } else if name == "Path"@ {
        Some(Source::Path)
    } else if name == "Header"@ {
        Some(Source::Header)
    } else {
        None
    }
}

/// `velton: ` followed by a key in backquotes and a complaint.
pub open spec fn key_message(key: Seq<char>, rest: Seq<char>) -> Seq<char> {
    "velton: `"@ + key + "`"@ + rest
}

/// The message for a key that `#[schema]` does not know.
pub open spec fn unknown_schema_key(key: Seq<char>) -> Seq<char> {
    "velton: unknown `#[schema]` attribute `"@ + key + "`"@
}

/// The message for a key that `#[endpoint]` does not know.
pub open spec fn unknown_endpoint_key(key: Seq<char>) -> Seq<char> {
    "velton: unknown `#[endpoint]` attribute `"@ + key + "`"@
}

/// The message for an unknown source.
pub open spec fn unknown_source(name: Seq<char>) -> Seq<char> {
    "velton: unknown source `"@ + name
        + "`, expected `Source::Body`, `Source::Query`, `Source::Path` or `Source::Header`"@
}

/// The message for a number that is too large.
pub open spec fn too_large() -> Seq<char> {
    "number too large to fit in target type"@
}

/// The message for a setting written without `= value`, as syn words it.
pub open spec fn missing_value() -> Seq<char> {
    "expected `=`"@
}

/// The message for a value not of the form a setting takes, as syn words it:
/// `expected `=`` for a missing value, else `expected ` and the form.
pub open spec fn form_error(v: SettingValue, what: Seq<char>) -> Seq<char> {
    if v is Absent {
        missing_value()
    } else {
        "expected "@ + what
    }
}

/// The text of a key (empty when the key is not a single identifier).
pub open spec fn key_text(k: Option<String>) -> Seq<char> {
    match k {
        Some(s) => s@,
        None => Seq::empty(),
    }
}

/// Applying one `#[schema]` setting to what has been read so far.
pub open spec fn schema_setting(a: SchemaAttr, st: Setting) -> Result<SchemaAttr, Seq<char>> {
    let k = key_text(st.key);
    if st.key is None {
        Err(unknown_schema_key(k))
    } else if k == "source"@ {
        match st.value {
            SettingValue::Path(p) => match source_named(last_segment(p@)) {
                Some(s) => Ok(SchemaAttr { source: Some(s), ..a }),
                None => Err(unknown_source(last_segment(p@))),
            },
            v => Err(form_error(v, "identifier"@)),
        }
    } else if k == "example"@ {
        match st.value {
            SettingValue::Lit(l) => Ok(SchemaAttr { example: Some(l.json), ..a }),
            v => Err(form_error(v, "literal"@)),
        }
    } else if k == "description"@ || k == "rename"@ || k == "format"@ || k == "pattern"@ || k == "title"@ {
        match st.value {
            SettingValue::Lit(Lit { kind: LitKind::Str(s), json: _ }) => Ok(
                if k == "description"@ {
                    SchemaAttr { description: Some(s), ..a }
                } else if k == "rename"@ {
                    SchemaAttr { rename: Some(s), ..a }
                } else if k == "format"@ {
                    SchemaAttr { format: Some(s), ..a }
                } else if k == "pattern"@ {
                    SchemaAttr { pattern: Some(s), ..a }
                } else {
                    SchemaAttr { title: Some(s), ..a }
                },
            ),
            v => Err(form_error(v, "string literal"@)),
        }
    } else if k == "status_code"@ {
        match st.value {
            SettingValue::Lit(Lit { kind: LitKind::Int { digits, f64_bits: _ }, json: _ }) => match spec_parse_decimal(digits@, 65535) {
                Some(v) => Ok(SchemaAttr { status_code: Some(v as u16), ..a }),
                None => Err(too_large()),
            },
            v => Err(form_error(v, "integer literal"@)),
        }
    } else if k == "required"@ {
        match st.value {
            SettingValue::Lit(Lit { kind: LitKind::Bool(b), json: _ }) => Ok(SchemaAttr { required: Some(b), ..a }),
            v => Err(form_error(v, "boolean literal"@)),
        }
    } else if k == "default"@ {
        match st.value {
            SettingValue::Lit(l) => Ok(SchemaAttr { default: Some(l.json), ..a }),
            SettingValue::Expr(v) => Ok(SchemaAttr { default: Some(v), ..a }),
            v => Err(form_error(v, "an expression"@)),
        }
    } else if k == "deprecated"@ {
        match st.value {
            SettingValue::Absent => Ok(SchemaAttr { deprecated: true, ..a }),
            SettingValue::Lit(Lit { kind: LitKind::Bool(b), json: _ }) => Ok(SchemaAttr { deprecated: b, ..a }),
            _ => Err("expected boolean literal"@),
        }
    } else if k == "minimum"@ || k == "maximum"@ {
        let bits = match st.value {
            SettingValue::Lit(Lit { kind: LitKind::Int { digits: _, f64_bits }, json: _ }) => Some(f64_bits),
            SettingValue::Lit(Lit { kind: LitKind::Float { f64_bits }, json: _ }) => Some(f64_bits),
            _ => None,
        };
        match bits {
            Some(b) => Ok(
                if k == "minimum"@ {
                    SchemaAttr { minimum: Some(b), ..a }
                } else {
                    SchemaAttr { maximum: Some(b), ..a }
                },
            ),
            None => if st.value is Lit {
                Err(key_message(k, " must be a number"@))
            } else {
                Err(form_error(st.value, "literal"@))
            },
        }
    } else if k == "min_length"@ || k == "max_length"@ {
        match st.value {
            SettingValue::Lit(Lit { kind: LitKind::Int { digits, f64_bits: _ }, json: _ }) => match spec_parse_decimal(digits@, usize::MAX as u64) {
                Some(v) => Ok(
                    if k == "min_length"@ {
                        SchemaAttr { min_length: Some(v as usize), ..a }
                    } else {
                        SchemaAttr { max_length: Some(v as usize), ..a }
                    },
                ),
                None => Err(too_large()),
            },
            SettingValue::Lit(_) => Err(key_message(k, " must be an integer"@)),
            v => Err(form_error(v, "literal"@)),
        }
    } else {
        Err(unknown_schema_key(k))
    }
}

/// The `#[schema]` keys and source names, spelled out.
proof fn lemma_schema_key_texts()
    ensures
        "source"@.len() == 6 && "source"@[0] == 's' && "source"@[1] == 'o',
        "example"@.len() == 7 && "example"@[0] == 'e' && "example"@[1] == 'x',
        "description"@.len() == 11 && "description"@[0] == 'd' && "description"@[1] == 'e',
        "rename"@.len() == 6 && "rename"@[0] == 'r' && "rename"@[1] == 'e',
        "format"@.len() == 6 && "format"@[0] == 'f' && "format"@[1] == 'o',
        "pattern"@.len() == 7 && "pattern"@[0] == 'p' && "pattern"@[1] == 'a',
        "title"@.len() == 5 && "title"@[0] == 't' && "title"@[1] == 'i',
        "status_code"@.len() == 11 && "status_code"@[0] == 's' && "status_code"@[1] == 't',
        "required"@.len() == 8 && "required"@[0] == 'r' && "required"@[1] == 'e',
        "default"@.len() == 7 && "default"@[0] == 'd' && "default"@[1] == 'e',
        "deprecated"@.len() == 10 && "deprecated"@[0] == 'd' && "deprecated"@[1] == 'e',
        "minimum"@.len() == 7 && "minimum"@[0] == 'm' && "minimum"@[1] == 'i',
        "maximum"@.len() == 7 && "maximum"@[0] == 'm' && "maximum"@[1] == 'a',
        "min_length"@.len() == 10 && "min_length"@[0] == 'm' && "min_length"@[1] == 'i',
        "max_length"@.len() == 10 && "max_length"@[0] == 'm' && "max_length"@[1] == 'a',
        "Body"@.len() == 4 && "Body"@[0] == 'B' && "Body"@[1] == 'o',
        "Query"@.len() == 5 && "Query"@[0] == 'Q' && "Query"@[1] == 'u',
        "Path"@.len() == 4 && "Path"@[0] == 'P' && "Path"@[1] == 'a',
        "Header"@.len() == 6 && "Header"@[0] == 'H' && "Header"@[1] == 'e',
{
    reveal_strlit("source");
    reveal_strlit("example");
    reveal_strlit("description");
    reveal_strlit("rename");
    reveal_strlit("format");
    reveal_strlit("pattern");
    reveal_strlit("title");
    reveal_strlit("status_code");
    reveal_strlit("required");
    reveal_strlit("default");
    reveal_strlit("deprecated");
    reveal_strlit("minimum");
    reveal_strlit("maximum");
    reveal_strlit("min_length");
    reveal_strlit("max_length");
    reveal_strlit("Body");
    reveal_strlit("Query");
    reveal_strlit("Path");
    reveal_strlit("Header");
    assert("source"@.len() == 6 && "source"@[0] == 's' && "source"@[1] == 'o');
    assert("example"@.len() == 7 && "example"@[0] == 'e' && "example"@[1] == 'x');
    assert("description"@.len() == 11 && "description"@[0] == 'd' && "description"@[1] == 'e');
    assert("rename"@.len() == 6 && "rename"@[0] == 'r' && "rename"@[1] == 'e');
    assert("format"@.len() == 6 && "format"@[0] == 'f' && "format"@[1] == 'o');
    assert("pattern"@.len() == 7 && "pattern"@[0] == 'p' && "pattern"@[1] == 'a');
    assert("title"@.len() == 5 && "title"@[0] == 't' && "title"@[1] == 'i');
    assert("status_code"@.len() == 11 && "status_code"@[0] == 's' && "status_code"@[1] == 't');
    assert("required"@.len() == 8 && "required"@[0] == 'r' && "required"@[1] == 'e');
    assert("default"@.len() == 7 && "default"@[0] == 'd' && "default"@[1] == 'e');
    assert("deprecated"@.len() == 10 && "deprecated"@[0] == 'd' && "deprecated"@[1] == 'e');
    assert("minimum"@.len() == 7 && "minimum"@[0] == 'm' && "minimum"@[1] == 'i');
    assert("maximum"@.len() == 7 && "maximum"@[0] == 'm' && "maximum"@[1] == 'a');
    assert("min_length"@.len() == 10 && "min_length"@[0] == 'm' && "min_length"@[1] == 'i');
    assert("max_length"@.len() == 10 && "max_length"@[0] == 'm' && "max_length"@[1] == 'a');
    assert("Body"@.len() == 4 && "Body"@[0] == 'B' && "Body"@[1] == 'o');
    assert("Query"@.len() == 5 && "Query"@[0] == 'Q' && "Query"@[1] == 'u');
    assert("Path"@.len() == 4 && "Path"@[0] == 'P' && "Path"@[1] == 'a');
    assert("Header"@.len() == 6 && "Header"@[0] == 'H' && "Header"@[1] == 'e');
}

/// A `source` setting names the source by the last segment of its path:
/// `Body`, `Query`, `Path` or `Header`, and sets only the source.
pub proof fn lemma_schema_setting_source(a: SchemaAttr, st: Setting)
    ensures
        key_text(st.key) == "source"@ ==> (st.value matches SettingValue::Path(p) ==> (
            (last_segment(p@) == "Body"@ ==> schema_setting(a, st) == Ok::<SchemaAttr, Seq<char>>(SchemaAttr { source: Some(Source::Body), ..a }))
            && (last_segment(p@) == "Query"@ ==> schema_setting(a, st) == Ok::<SchemaAttr, Seq<char>>(SchemaAttr { source: Some(Source::Query), ..a }))
            && (last_segment(p@) == "Path"@ ==> schema_setting(a, st) == Ok::<SchemaAttr, Seq<char>>(SchemaAttr { source: Some(Source::Path), ..a }))
            && (last_segment(p@) == "Header"@ ==> schema_setting(a, st) == Ok::<SchemaAttr, Seq<char>>(SchemaAttr { source: Some(Source::Header), ..a })))),
{
    lemma_schema_key_texts();
}

/// A text or literal setting is stored under its own key, and only there:
/// `example` and `default` take the literal's JSON value (`default` also any
/// expression's), the string settings take the string.
pub proof fn lemma_schema_setting_texts(a: SchemaAttr, st: Setting)
    ensures
        key_text(st.key) == "example"@ ==> (st.value matches SettingValue::Lit(l) ==> schema_setting(a, st) == Ok::<SchemaAttr, Seq<char>>(SchemaAttr { example: Some(l.json), ..a })),
        key_text(st.key) == "default"@ ==> (st.value matches SettingValue::Lit(l) ==> schema_setting(a, st) == Ok::<SchemaAttr, Seq<char>>(SchemaAttr { default: Some(l.json), ..a })),
        key_text(st.key) == "default"@ ==> (st.value matches SettingValue::Expr(v) ==> schema_setting(a, st) == Ok::<SchemaAttr, Seq<char>>(SchemaAttr { default: Some(v), ..a })),
        key_text(st.key) == "description"@ ==> (st.value matches SettingValue::Lit(Lit { kind: LitKind::Str(t), json: _ }) ==> schema_setting(a, st) == Ok::<SchemaAttr, Seq<char>>(SchemaAttr { description: Some(t), ..a })),
        key_text(st.key) == "rename"@ ==> (st.value matches SettingValue::Lit(Lit { kind: LitKind::Str(t), json: _ }) ==> schema_setting(a, st) == Ok::<SchemaAttr, Seq<char>>(SchemaAttr { rename: Some(t), ..a })),
        key_text(st.key) == "format"@ ==> (st.value matches SettingValue::Lit(Lit { kind: LitKind::Str(t), json: _ }) ==> schema_setting(a, st) == Ok::<SchemaAttr, Seq<char>>(SchemaAttr { format: Some(t), ..a })),
        key_text(st.key) == "pattern"@ ==> (st.value matches SettingValue::Lit(Lit { kind: LitKind::Str(t), json: _ }) ==> schema_setting(a, st) == Ok::<SchemaAttr, Seq<char>>(SchemaAttr { pattern: Some(t), ..a })),
        key_text(st.key) == "title"@ ==> (st.value matches SettingValue::Lit(Lit { kind: LitKind::Str(t), json: _ }) ==> schema_setting(a, st) == Ok::<SchemaAttr, Seq<char>>(SchemaAttr { title: Some(t), ..a })),
{
    lemma_schema_key_texts();
}

/// A numeric or boolean setting is stored under its own key, and only
/// there: `minimum = n` sets the minimum to the bits of `n` and `maximum = n`
/// the maximum; `status_code`, `min_length` and `max_length` take the number
/// written; `required` and `deprecated` take the boolean, and a bare
/// `deprecated` marks the field deprecated.
pub proof fn lemma_schema_setting_numbers(a: SchemaAttr, st: Setting)
    ensures
        key_text(st.key) == "minimum"@ ==> (st.value matches SettingValue::Lit(Lit { kind: LitKind::Int { digits: _, f64_bits: b }, json: _ }) ==> schema_setting(a, st) == Ok::<SchemaAttr, Seq<char>>(SchemaAttr { minimum: Some(b), ..a })),
        key_text(st.key) == "minimum"@ ==> (st.value matches SettingValue::Lit(Lit { kind: LitKind::Float { f64_bits: b }, json: _ }) ==> schema_setting(a, st) == Ok::<SchemaAttr, Seq<char>>(SchemaAttr { minimum: Some(b), ..a })),
        key_text(st.key) == "maximum"@ ==> (st.value matches SettingValue::Lit(Lit { kind: LitKind::Int { digits: _, f64_bits: b }, json: _ }) ==> schema_setting(a, st) == Ok::<SchemaAttr, Seq<char>>(SchemaAttr { maximum: Some(b), ..a })),
        key_text(st.key) == "maximum"@ ==> (st.value matches SettingValue::Lit(Lit { kind: LitKind::Float { f64_bits: b }, json: _ }) ==> schema_setting(a, st) == Ok::<SchemaAttr, Seq<char>>(SchemaAttr { maximum: Some(b), ..a })),
        key_text(st.key) == "status_code"@ ==> (st.value matches SettingValue::Lit(Lit { kind: LitKind::Int { digits: d, f64_bits: _ }, json: _ }) ==> (
            all_digits(d@) && digits_value(d@) <= 65535 ==> schema_setting(a, st) == Ok::<SchemaAttr, Seq<char>>(SchemaAttr { status_code: Some(digits_value(d@) as u16), ..a }))),
        key_text(st.key) == "min_length"@ ==> (st.value matches SettingValue::Lit(Lit { kind: LitKind::Int { digits: d, f64_bits: _ }, json: _ }) ==> (
            all_digits(d@) && digits_value(d@) <= usize::MAX ==> schema_setting(a, st) == Ok::<SchemaAttr, Seq<char>>(SchemaAttr { min_length: Some(digits_value(d@) as usize), ..a }))),
        key_text(st.key) == "max_length"@ ==> (st.value matches SettingValue::Lit(Lit { kind: LitKind::Int { digits: d, f64_bits: _ }, json: _ }) ==> (
            all_digits(d@) && digits_value(d@) <= usize::MAX ==> schema_setting(a, st) == Ok::<SchemaAttr, Seq<char>>(SchemaAttr { max_length: Some(digits_value(d@) as usize), ..a }))),
        key_text(st.key) == "required"@ ==> (st.value matches SettingValue::Lit(Lit { kind: LitKind::Bool(b), json: _ }) ==> schema_setting(a, st) == Ok::<SchemaAttr, Seq<char>>(SchemaAttr { required: Some(b), ..a })),
        key_text(st.key) == "deprecated"@ ==> (st.value matches SettingValue::Lit(Lit { kind: LitKind::Bool(b), json: _ }) ==> schema_setting(a, st) == Ok::<SchemaAttr, Seq<char>>(SchemaAttr { deprecated: b, ..a })),
        key_text(st.key) == "deprecated"@ ==> (st.value is Absent ==> schema_setting(a, st) == Ok::<SchemaAttr, Seq<char>>(SchemaAttr { deprecated: true, ..a })),
{
    lemma_schema_key_texts();
}

/// Applying `#[schema]` settings in order, stopping at the first unusable one.
pub open spec fn schema_settings(a: SchemaAttr, sts: Seq<Setting>) -> Result<SchemaAttr, Seq<char>>
    decreases sts.len(),
{
    if sts.len() == 0 {
        Ok(a)
    } else {
        match schema_settings(a, sts.drop_last()) {
            Ok(b) => schema_setting(b, sts.last()),
            Err(e) => Err(e),
        }
    }
}

/// The message `velton: `key` <rest>`.
fn key_error(key: &str, rest: &str) -> (e: String)
    ensures
        e@ == key_message(key@, rest@),
{
    let mut e = owned("velton: `");
    push_str(&mut e, key);
    push_str(&mut e, "`");
    push_str(&mut e, rest);
    e
}

/// The message for a value not of the form a setting takes.
fn form_error_of(v: &SettingValue, what: &str) -> (e: String)
    ensures
        e@ == form_error(*v, what@),
{
    match v {
        SettingValue::Absent => owned("expected `=`"),
        _ => {
            let mut e = owned("expected ");
            push_str(&mut e, what);
            e
        },
    }
}

/// The last segment of a path (empty for an empty path).
fn last_segment_of(p: &Vec<String>) -> (s: String)
    ensures
        s@ == last_segment(p@),
{
    if p.len() == 0 {
        String::new()
    } else {
        p[p.len() - 1].clone()
    }
}

impl SchemaAttr {
    /// Applies one `#[schema]` setting.
    fn apply_setting(self, st: Setting) -> (r: Result<SchemaAttr, String>)
        ensures
            match schema_setting(self, st) {
                Ok(b) => r == Ok::<SchemaAttr, String>(b),
                Err(m) => r matches Err(e) && e@ == m,
            },
    {
        let mut a = self;
        let ghost st0 = st;
        let Setting { key, value } = st;
        let k = match key {
            Some(k) => k,
            None => {
                let mut e = owned("velton: unknown `#[schema]` attribute `");
                push_str(&mut e, "`");
                return Err(e);
            },
        };
        let key = k.as_str();
        if same_text(key, "source") {
            match value {
                SettingValue::Path(p) => {
                    let name = last_segment_of(&p);
                    if same_text(name.as_str(), "Body") {
                        a.source = Some(Source::Body);
                    } else if same_text(name.as_str(), "Query") {
                        a.source = Some(Source::Query);
                    } else if same_text(name.as_str(), "Path") {
                        a.source = Some(Source::Path);
                    } else if same_text(name.as_str(), "Header") {
                        a.source = Some(Source::Header);
                    } else {
                        let mut e = owned("velton: unknown source `");
                        push_str(&mut e, name.as_str());
                        push_str(
                            &mut e,
                            "`, expected `Source::Body`, `Source::Query`, `Source::Path` or `Source::Header`",
                        );
                        return Err(e);
                    }
                    Ok(a)
                },
                v => Err(form_error_of(&v, "identifier")),
            }
        } else if same_text(key, "example") {
            match value {
                SettingValue::Lit(l) => {
                    a.example = Some(l.json);
                    Ok(a)
                },
                v => Err(form_error_of(&v, "literal")),
            }
        } else if same_text(key, "description") || same_text(key, "rename") || same_text(key, "format")
            || same_text(key, "pattern") || same_text(key, "title") {
            match value {
                SettingValue::Lit(Lit { kind: LitKind::Str(s), json: _ }) => {
                    if same_text(key, "description") {
                        a.description = Some(s);
                    } else if same_text(key, "rename") {
                        a.rename = Some(s);
                    } else if same_text(key, "format") {
                        a.format = Some(s);
                    } else if same_text(key, "pattern") {
                        a.pattern = Some(s);
                    } else {
                        a.title = Some(s);
                    }
                    Ok(a)
                },
                v => Err(form_error_of(&v, "string literal")),
            }
        } else if same_text(key, "status_code") {
            match value {
                SettingValue::Lit(Lit { kind: LitKind::Int { digits, f64_bits: _ }, json: _ }) => {
                    match parse_decimal(digits.as_str(), 65535) {
                        Some(v) => {
                            a.status_code = Some(v as u16);
                            Ok(a)
                        },
                        None => Err(owned("number too large to fit in target type")),
                    }
                },
                v => Err(form_error_of(&v, "integer literal")),
            }
        } else if same_text(key, "required") {
            match value {
                SettingValue::Lit(Lit { kind: LitKind::Bool(b), json: _ }) => {
                    a.required = Some(b);
                    Ok(a)
                },
                v => Err(form_error_of(&v, "boolean literal")),
            }
        } else if same_text(key, "default") {
            match value {
                SettingValue::Lit(l) => {
                    a.default = Some(l.json);
                    Ok(a)
                },
                SettingValue::Expr(v) => {
                    a.default = Some(v);
                    Ok(a)
                },
                v => Err(form_error_of(&v, "an expression")),
            }
        } else if same_text(key, "deprecated") {
            match value {
                SettingValue::Absent => {
                    a.deprecated = true;
                    Ok(a)
                },
                SettingValue::Lit(Lit { kind: LitKind::Bool(b), json: _ }) => {
                    a.deprecated = b;
                    Ok(a)
                },
                _ => Err(owned("expected boolean literal")),
            }
        } else if same_text(key, "minimum") || same_text(key, "maximum") {
            let bits = match &value {
                SettingValue::Lit(Lit { kind: LitKind::Int { digits: _, f64_bits }, json: _ }) => Some(*f64_bits),
                SettingValue::Lit(Lit { kind: LitKind::Float { f64_bits }, json: _ }) => Some(*f64_bits),
                _ => None,
            };
            match bits {
                Some(b) => {
                    if same_text(key, "minimum") {
                        a.minimum = Some(b);
                    } else {
                        a.maximum = Some(b);
                    }
                    Ok(a)
                },
                None => match value {
                    SettingValue::Lit(_) => Err(key_error(key, " must be a number")),
                    v => Err(form_error_of(&v, "literal")),
                },
            }
        } else if same_text(key, "min_length") || same_text(key, "max_length") {
            match value {
                SettingValue::Lit(Lit { kind: LitKind::Int { digits, f64_bits: _ }, json: _ }) => {
                    match parse_decimal(digits.as_str(), usize::MAX as u64) {
                        Some(v) => {
                            if same_text(key, "min_length") {
                                a.min_length = Some(v as usize);
                            } else {
                                a.max_length = Some(v as usize);
                            }
                            Ok(a)
                        },
                        None => Err(owned("number too large to fit in target type")),
                    }
                },
                SettingValue::Lit(_) => Err(key_error(key, " must be an integer")),
                v => Err(form_error_of(&v, "literal")),
            }
        } else {
            let mut e = owned("velton: unknown `#[schema]` attribute `");
            push_str(&mut e, key);
            push_str(&mut e, "`");
            Err(e)
        }
    }

    /// Reads `#[schema(...)]` settings, in order, into a [`SchemaAttr`].
    pub fn from_settings(settings: Vec<Setting>) -> (r: Result<SchemaAttr, String>)
        ensures
            match schema_settings(SchemaAttr::empty(), settings@) {
                Ok(a) => r == Ok::<SchemaAttr, String>(a),
                Err(m) => r matches Err(e) && e@ == m,
            },
    {
        let ghost sts = settings@;
        let mut a = SchemaAttr::default();
        assert(sts.take(0) == Seq::<Setting>::empty());
        for st in it: settings.into_iter()
            invariant
                it.seq() == sts,
                schema_settings(SchemaAttr::empty(), sts.take(it.index() as int)) == Ok::<SchemaAttr, Seq<char>>(a),
        {
            let ghost i = it.index();
            assert(sts.take(i + 1).drop_last() == sts.take(i as int));
            assert(sts.take(i + 1).last() == st);
            match a.apply_setting(st) {
                Ok(b) => {
                    a = b;
                },
                Err(e) => {
                    proof {
                        lemma_schema_settings_stop(sts, i + 1);
                    }
                    return Err(e);
                },
            }
        }
        assert(sts.take(sts.len() as int) == sts);
        Ok(a)
    }
}

/// Once reading stops at an error, further settings do not change it.
proof fn lemma_schema_settings_stop(sts: Seq<Setting>, n: int)
    requires
        0 <= n <= sts.len(),
        schema_settings(SchemaAttr::empty(), sts.take(n)) is Err,
    ensures
        schema_settings(SchemaAttr::empty(), sts) == schema_settings(SchemaAttr::empty(), sts.take(n)),
    decreases sts.len() - n,
{
    if n < sts.len() {
        assert(sts.take(n + 1).drop_last() == sts.take(n));
        lemma_schema_settings_stop(sts, n + 1);
    } else {
        assert(sts.take(n) == sts);
    }
}

/// What an [`EndpointAttr`] holds, with strings as character sequences.
pub struct EndpointAttrView {
    pub method: Option<Seq<char>>,
    pub path: Option<Seq<char>>,
    pub description: Option<Seq<char>>,
    pub error_responses: Seq<Seq<char>>,
}

impl View for EndpointAttr {
    type V = EndpointAttrView;

    open spec fn view(&self) -> EndpointAttrView {
        EndpointAttrView {
            method: crate::schema::opt_view(self.method),
            path: crate::schema::opt_view(self.path),
            description: crate::schema::opt_view(self.description),
            error_responses: self.error_responses@.map_values(|t: String| t@),
        }
    }
}

/// No endpoint settings.
pub open spec fn endpoint_empty() -> EndpointAttrView {
    EndpointAttrView { method: None, path: None, description: None, error_responses: Seq::empty() }
}

/// Applying one `#[endpoint]` setting to what has been read so far.
pub open spec fn endpoint_setting(a: EndpointAttrView, st: Setting) -> Result<EndpointAttrView, Seq<char>> {
    let k = key_text(st.key);
    if st.key is None {
        Err(unknown_endpoint_key(k))
    } else if k == "method"@ {
        match st.value {
            SettingValue::Path(p) => Ok(EndpointAttrView { method: Some(last_segment(p@)), ..a }),
            v => Err(form_error(v, "identifier"@)),
        }
    } else if k == "path"@ || k == "description"@ {
        match st.value {
            SettingValue::Lit(Lit { kind: LitKind::Str(s), json: _ }) => Ok(
                if k == "path"@ {
                    EndpointAttrView { path: Some(s@), ..a }
                } else {
                    EndpointAttrView { description: Some(s@), ..a }
                },
            ),
            v => Err(form_error(v, "string literal"@)),
        }
    } else if k == "error_responses"@ {
        match st.value {
            SettingValue::Types(ts) => Ok(EndpointAttrView { error_responses: ts@.map_values(|t: String| t@), ..a }),
            v => Err(form_error(v, "parentheses"@)),
        }
    } else {
        Err(unknown_endpoint_key(k))
    }
}

/// The `#[endpoint]` keys, spelled out.
proof fn lemma_endpoint_key_texts()
    ensures
        "method"@.len() == 6 && "method"@[0] == 'm' && "method"@[1] == 'e',
        "path"@.len() == 4 && "path"@[0] == 'p' && "path"@[1] == 'a',
        "description"@.len() == 11 && "description"@[0] == 'd' && "description"@[1] == 'e',
        "error_responses"@.len() == 15 && "error_responses"@[0] == 'e' && "error_responses"@[1] == 'r',
{
    reveal_strlit("method");
    reveal_strlit("path");
    reveal_strlit("description");
    reveal_strlit("error_responses");
    assert("method"@.len() == 6 && "method"@[0] == 'm' && "method"@[1] == 'e');
    assert("path"@.len() == 4 && "path"@[0] == 'p' && "path"@[1] == 'a');
    assert("description"@.len() == 11 && "description"@[0] == 'd' && "description"@[1] == 'e');
    assert("error_responses"@.len() == 15 && "error_responses"@[0] == 'e' && "error_responses"@[1] == 'r');
}

/// An `#[endpoint]` setting is stored under its own key, and only there:
/// `method` takes the last segment of its path, `path` and `description`
/// their strings, and `error_responses` its list of types.
pub proof fn lemma_endpoint_setting_fields(a: EndpointAttrView, st: Setting)
    ensures
        key_text(st.key) == "method"@ ==> (st.value matches SettingValue::Path(p) ==> endpoint_setting(a, st) == Ok::<EndpointAttrView, Seq<char>>(EndpointAttrView { method: Some(last_segment(p@)), ..a })),
        key_text(st.key) == "path"@ ==> (st.value matches SettingValue::Lit(Lit { kind: LitKind::Str(t), json: _ }) ==> endpoint_setting(a, st) == Ok::<EndpointAttrView, Seq<char>>(EndpointAttrView { path: Some(t@), ..a })),
        key_text(st.key) == "description"@ ==> (st.value matches SettingValue::Lit(Lit { kind: LitKind::Str(t), json: _ }) ==> endpoint_setting(a, st) == Ok::<EndpointAttrView, Seq<char>>(EndpointAttrView { description: Some(t@), ..a })),
        key_text(st.key) == "error_responses"@ ==> (st.value matches SettingValue::Types(ts) ==> endpoint_setting(a, st) == Ok::<EndpointAttrView, Seq<char>>(EndpointAttrView { error_responses: ts@.map_values(|t: String| t@), ..a })),
{
    lemma_endpoint_key_texts();
}

/// The last segment of a path is the one written last.
pub proof fn lemma_last_segment(p: Seq<String>, x: String)
    ensures
        last_segment(p.push(x)) == x@,
        last_segment(Seq::<String>::empty()) == Seq::<char>::empty(),
{
}

/// Applying `#[endpoint]` settings in order, stopping at the first unusable one.
pub open spec fn endpoint_settings(a: EndpointAttrView, sts: Seq<Setting>) -> Result<EndpointAttrView, Seq<char>>
    decreases sts.len(),
{
    if sts.len() == 0 {
        Ok(a)
    } else {
        match endpoint_settings(a, sts.drop_last()) {
            Ok(b) => endpoint_setting(b, sts.last()),
            Err(e) => Err(e),
        }
    }
}

impl EndpointAttr {
    /// Applies one `#[endpoint]` setting.
    fn apply_setting(self, st: Setting) -> (r: Result<EndpointAttr, String>)
        ensures
            match endpoint_setting(self@, st) {
                Ok(b) => r matches Ok(x) && x@ == b,
                Err(m) => r matches Err(e) && e@ == m,
            },
    {
        let mut a = self;
        let Setting { key, value } = st;
        let k = match key {
            Some(k) => k,
            None => {
                let mut e = owned("velton: unknown `#[endpoint]` attribute `");
                push_str(&mut e, "`");
                return Err(e);
            },
        };
        let key = k.as_str();
        if same_text(key, "method") {
            match value {
                SettingValue::Path(p) => {
                    a.method = Some(last_segment_of(&p));
                    Ok(a)
                },
                v => Err(form_error_of(&v, "identifier")),
            }
        } else if same_text(key, "path") || same_text(key, "description") {
            match value {
                SettingValue::Lit(Lit { kind: LitKind::Str(s), json: _ }) => {
                    if same_text(key, "path") {
                        a.path = Some(s);
                    } else {
                        a.description = Some(s);
                    }
                    Ok(a)
                },
                v => Err(form_error_of(&v, "string literal")),
            }
        } else if same_text(key, "error_responses") {
            match value {
                SettingValue::Types(ts) => {
                    a.error_responses = ts;
                    Ok(a)
                },
                v => Err(form_error_of(&v, "parentheses")),
            }
        } else {
            let mut e = owned("velton: unknown `#[endpoint]` attribute `");
            push_str(&mut e, key);
            push_str(&mut e, "`");
            Err(e)
        }
    }

    /// Reads `#[endpoint(...)]` settings, in order, into an [`EndpointAttr`].
    pub fn from_settings(settings: Vec<Setting>) -> (r: Result<EndpointAttr, String>)
        ensures
            match endpoint_settings(endpoint_empty(), settings@) {
                Ok(a) => r matches Ok(x) && x@ == a,
                Err(m) => r matches Err(e) && e@ == m,
            },
    {
        let ghost sts = settings@;
        let mut a = EndpointAttr { method: None, path: None, description: None, error_responses: Vec::new() };
        assert(a@.error_responses == Seq::<Seq<char>>::empty());
        assert(sts.take(0) == Seq::<Setting>::empty());
        for st in it: settings.into_iter()
            invariant
                it.seq() == sts,
                endpoint_settings(endpoint_empty(), sts.take(it.index() as int)) == Ok::<EndpointAttrView, Seq<char>>(a@),
        {
            let ghost i = it.index();
            assert(sts.take(i + 1).drop_last() == sts.take(i as int));
            assert(sts.take(i + 1).last() == st);
            match a.apply_setting(st) {
                Ok(b) => {
                    a = b;
                },
                Err(e) => {
                    proof {
                        lemma_endpoint_settings_stop(sts, i + 1);
                    }
                    return Err(e);
                },
            }
        }
        assert(sts.take(sts.len() as int) == sts);
        Ok(a)
    }
}

/// Once reading stops at an error, further settings do not change it.
proof fn lemma_endpoint_settings_stop(sts: Seq<Setting>, n: int)
    requires
        0 <= n <= sts.len(),
        endpoint_settings(endpoint_empty(), sts.take(n)) is Err,
    ensures
        endpoint_settings(endpoint_empty(), sts) == endpoint_settings(endpoint_empty(), sts.take(n)),
    decreases sts.len() - n,
{
    if n < sts.len() {
        assert(sts.take(n + 1).drop_last() == sts.take(n));
        lemma_endpoint_settings_stop(sts, n + 1);
    } else {
        assert(sts.take(n) == sts);
    }
}

} // verus!
