//! Request extraction: the [`Source`] enum and helpers used by extraction.

use vstd::prelude::*;
use crate::error::ExtractionRejection;
use crate::openapi::{Parameter, RequestBody};
use crate::text::{chars_of, push_char};

verus! {

/// The HTTP source a request field is extracted from.
#[derive(Debug, Clone, Copy, PartialEq, Eq, Structural)]
pub enum Source {
    Body,
    Query,
    Path,
    Header,
}

impl Source {
    /// The lower-case name of the source, as used in messages.
    pub open spec fn spec_label(self) -> Seq<char> {
        match self {
            Source::Body => "body"@,
            Source::Query => "query"@,
            Source::Path => "path"@,
            Source::Header => "header"@,
        }
    }

    /// The lower-case name of the source, as used in messages.
    pub fn label(self) -> (l: &'static str)
        ensures
            l@ == self.spec_label(),
    {
        match self {
            Source::Body => "body",
            Source::Query => "query",
            Source::Path => "path",
            Source::Header => "header",
        }
    }
}

/// Implemented by request structs.
///
/// Produces the OpenAPI parameters and request body for an operation.
pub trait RequestSchema {
    /// The query/path/header parameters declared by this request.
    fn parameters() -> Vec<Parameter>;

    /// The JSON request body, if this request has any body fields.
    fn request_body() -> Option<RequestBody>;
}

/// The default maximum request body size, in bytes: 2 MiB.
pub const DEFAULT_BODY_LIMIT: usize = 2097152;

#[verifier::external_type_specification]
#[verifier::external_body]
pub struct ExJsonError(serde_json::Error);

/// Calls `serde_json::from_str` to deserialize a `T` from JSON text.
#[verifier::external_body]
fn json_from_str<T: serde::de::DeserializeOwned>(text: &str) -> Result<T, serde_json::Error> {
    serde_json::from_str::<T>(text)
}

/// Calls `ToString::to_string` on a `serde_json::Error` (its `Display` text).
#[verifier::external_body]
fn json_error_text(e: &serde_json::Error) -> String {
    e.to_string()
}

/// How one character is written inside a JSON string by the header fallback:
/// `\` and `"` get a backslash in front.
pub open spec fn escape_char(c: char) -> Seq<char> {
    if c == '\\' {
        seq!['\\', '\\']
    } else if c == '"' {
        seq!['\\', '"']
    } else {
        seq![c]
    }
}

/// The characters of `s`, each escaped.
pub open spec fn escaped(s: Seq<char>) -> Seq<char>
    decreases s.len(),
{
    if s.len() == 0 {
        Seq::empty()
    } else {
        escaped(s.drop_last()) + escape_char(s.last())
    }
}

/// `s` as JSON string text: escaped and in double quotes.
pub open spec fn spec_quoted(s: Seq<char>) -> Seq<char> {
    seq!['"'] + escaped(s) + seq!['"']
}

/// Quoting escapes exactly the backslash and the double quote, each with a
/// backslash in front, and keeps every other character: text with neither
/// comes out as itself between double quotes.
pub proof fn lemma_quoting(s: Seq<char>, c: char)
    ensures
        escape_char('"') == seq!['\\', '"'],
        escape_char('\\') == seq!['\\', '\\'],
        c != '"' && c != '\\' ==> escape_char(c) == seq![c],
        (forall|i: int| 0 <= i < s.len() ==> s[i] != '"' && s[i] != '\\') ==> spec_quoted(s) == seq!['"'] + s + seq!['"'],
{
    if forall|i: int| 0 <= i < s.len() ==> s[i] != '"' && s[i] != '\\' {
        lemma_escaped_plain(s);
    }
}

/// Text without backslashes or double quotes is its own escaped form.
proof fn lemma_escaped_plain(s: Seq<char>)
    requires
        forall|i: int| 0 <= i < s.len() ==> s[i] != '"' && s[i] != '\\',
    ensures
        escaped(s) == s,
    decreases s.len(),
{
    if s.len() > 0 {
        let t = s.drop_last();
        assert forall|i: int| 0 <= i < t.len() implies t[i] != '"' && t[i] != '\\' by {
            assert(t[i] == s[i]);
        }
        lemma_escaped_plain(t);
        assert(s.last() == s[s.len() - 1]);
        assert(s == t.push(s.last()));
    }
}

/// Writes a header value as JSON string text: backslashes and double quotes
/// are escaped and the whole is put in double quotes.
pub fn quote_header_value(value: &str) -> (q: String)
    ensures
        q@ == spec_quoted(value@),
{
    let cs = chars_of(value);
    let ghost s = value@;
    let mut q = String::new();
    push_char(&mut q, '"');
    let mut i: usize = 0;
    assert(s.take(0) == Seq::<char>::empty());
    while i < cs.len()
        invariant
            cs@ == s,
            i <= s.len(),
            q@ == seq!['"'] + escaped(s.take(i as int)),
        decreases s.len() - i,
    {
        let c = cs[i];
        if c == '\\' {
            push_char(&mut q, '\\');
            push_char(&mut q, '\\');
        } else if c == '"' {
            push_char(&mut q, '\\');
            push_char(&mut q, '"');
        } else {
            push_char(&mut q, c);
        }
        assert(s.take(i + 1).drop_last() == s.take(i as int));
        i = i + 1;
    }
    assert(s.take(s.len() as int) == s);
    push_char(&mut q, '"');
    q
}

/// What reading a header value gives, from the outcomes of its two parses:
/// a first parse as plain JSON that succeeded is kept; otherwise the second
/// parse, of the value as a JSON string, decides, with its error text. The
/// second parse is made exactly when the first fails.
pub fn header_outcome<T>(first: Result<T, ()>, second: Option<Result<T, String>>) -> (r: Result<T, String>)
    requires
        first is Err <==> second is Some,
    ensures
        match first {
            Ok(v) => r == Ok::<T, String>(v),
            Err(_) => r == second->0,
        },
{
    match first {
        Ok(v) => Ok(v),
        Err(_) => match second {
            Some(outcome) => outcome,
            None => Err(String::new()),
        },
    }
}

/// Parses JSON text into `T`; an error is given as its message.
pub fn parse_json<T: serde::de::DeserializeOwned>(text: &str) -> Result<T, String> {
    match json_from_str::<T>(text) {
        Ok(v) => Ok(v),
        Err(e) => Err(json_error_text(&e)),
    }
}

/// Parses a header value into `T`.
///
/// First tries the value as plain JSON (numbers, booleans), then falls back to
/// treating it as a JSON string (enums, UUIDs, plain strings), written as
/// [`quote_header_value`] writes it. The error is the fallback's message.
/// What each parse gives is up to `T`'s `Deserialize` impl: the result is an
/// outcome of [`parse_json`] on the value itself if that succeeds, and
/// otherwise an outcome of [`parse_json`] on the quoted value.
pub fn parse_header_value<T: serde::de::DeserializeOwned>(value: &str) -> (r: Result<T, String>)
    ensures
        exists|first: Result<T, String>|
            #[trigger] call_ensures(parse_json::<T>, (value,), first) && (first is Ok ==> r == first) && (
            first is Err ==> exists|q: &str, second: Result<T, String>|
                #[trigger] call_ensures(parse_json::<T>, (q,), second) && q@ == spec_quoted(value@) && r == second),
{
    let parsed = parse_json::<T>(value);
    let first = match parsed {
        Ok(v) => Ok(v),
        Err(_) => Err(()),
    };
    let second = if first.is_err() {
        let quoted = quote_header_value(value);
        Some(parse_json::<T>(quoted.as_str()))
    } else {
        None
    };
    header_outcome(first, second)
}

/// The rejection for a request field whose value could not be read from its
/// source, with the reader's message.
pub open spec fn spec_field_rejection(source: Source, message: String) -> ExtractionRejection {
    match source {
        Source::Query => ExtractionRejection::Query(message),
        Source::Path => ExtractionRejection::Path(message),
        Source::Header => ExtractionRejection::Header(message),
        Source::Body => ExtractionRejection::Body(message),
    }
}

/// The rejection names the source the field is read from: a query field
/// gives an invalid query, a path field an invalid path, a header field an
/// invalid header and a body field an invalid request body.
pub proof fn lemma_field_rejection_sources(m: String)
    ensures
        spec_field_rejection(Source::Query, m) == ExtractionRejection::Query(m),
        spec_field_rejection(Source::Path, m) == ExtractionRejection::Path(m),
        spec_field_rejection(Source::Header, m) == ExtractionRejection::Header(m),
        spec_field_rejection(Source::Body, m) == ExtractionRejection::Body(m),
{
}

/// The rejection for a request field whose value could not be read from its
/// source: an invalid query, path, header or request body, with the message.
pub fn field_rejection(source: Source, message: String) -> (r: ExtractionRejection)
    ensures
        r == spec_field_rejection(source, message),
{
    match source {
        Source::Query => ExtractionRejection::Query(message),
        Source::Path => ExtractionRejection::Path(message),
        Source::Header => ExtractionRejection::Header(message),
        Source::Body => ExtractionRejection::Body(message),
    }
}

/// The outcome of reading a header field: a parsed value is taken, a value
/// that did not parse is rejected with its message, and a missing header is
/// `None` for an `Option` field and otherwise rejected as a missing field
/// under its lower-case header name.
pub fn resolve_header<T>(
    value: Option<Result<T, String>>,
    is_option: bool,
    lookup_name: String,
) -> (r: Result<Option<T>, ExtractionRejection>)
    ensures
        match value {
            Some(Ok(v)) => r == Ok::<Option<T>, ExtractionRejection>(Some(v)),
            Some(Err(m)) => r == Err::<Option<T>, ExtractionRejection>(ExtractionRejection::Header(m)),
            None => if is_option {
                r == Ok::<Option<T>, ExtractionRejection>(None)
            } else {
                r == Err::<Option<T>, ExtractionRejection>(
                    ExtractionRejection::MissingField { name: lookup_name, source: Source::Header },
                )
            },
        },
{
    match value {
        Some(Ok(v)) => Ok(Some(v)),
        Some(Err(m)) => Err(field_rejection(Source::Header, m)),
        None => if is_option {
            Ok(None)
        } else {
            Err(ExtractionRejection::MissingField { name: lookup_name, source: Source::Header })
        },
    }
}

} // verus!
