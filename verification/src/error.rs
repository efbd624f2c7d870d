//! Extraction rejections and the messages they answer with.

use vstd::prelude::*;
use crate::extract::Source;
use crate::text::push_str;

verus! {

/// A rejection produced by request extraction (answered with HTTP 400).
#[derive(Debug)]
pub enum ExtractionRejection {
    MissingField { name: String, source: Source },
    Query(String),
    Path(String),
    Header(String),
    Body(String),
}

/// The HTTP status of every extraction rejection: 400 Bad Request.
pub const BAD_REQUEST: u16 = 400;

impl ExtractionRejection {
    /// The message a rejection is answered with.
    pub open spec fn spec_message(self) -> Seq<char> {
        match self {
            ExtractionRejection::MissingField { name, source } => "missing required "@ + source.spec_label()
                + " field `"@ + name@ + "`"@,
            ExtractionRejection::Query(msg) => "invalid query: "@ + msg@,
            ExtractionRejection::Path(msg) => "invalid path: "@ + msg@,
            ExtractionRejection::Header(msg) => "invalid header: "@ + msg@,
            ExtractionRejection::Body(msg) => "invalid request body: "@ + msg@,
        }
    }

    /// The message a rejection is answered with, as `{ "message": ... }`.
    pub fn message(&self) -> (m: String)
        ensures
            m@ == self.spec_message(),
    {
        let mut m = String::new();
        match self {
            ExtractionRejection::MissingField { name, source } => {
                push_str(&mut m, "missing required ");
                push_str(&mut m, source.label());
                push_str(&mut m, " field `");
                push_str(&mut m, name.as_str());
                push_str(&mut m, "`");
            },
            ExtractionRejection::Query(msg) => {
                push_str(&mut m, "invalid query: ");
                push_str(&mut m, msg.as_str());
            },
            ExtractionRejection::Path(msg) => {
                push_str(&mut m, "invalid path: ");
                push_str(&mut m, msg.as_str());
            },
            ExtractionRejection::Header(msg) => {
                push_str(&mut m, "invalid header: ");
                push_str(&mut m, msg.as_str());
            },
            ExtractionRejection::Body(msg) => {
                push_str(&mut m, "invalid request body: ");
                push_str(&mut m, msg.as_str());
            },
        }
        m
    }

    /// The HTTP status a rejection is answered with.
    pub fn status(&self) -> (s: u16)
        ensures
            s == BAD_REQUEST,
    {
        BAD_REQUEST
    }
}

/// Every rejection is answered with 400 Bad Request, and its message names
/// what was wrong: a missing field with its source and name, or an invalid
/// query, path, header or request body with the reader's message.
pub proof fn lemma_rejection_messages(name: String, source: Source, m: String)
    ensures
        BAD_REQUEST == 400,
        (ExtractionRejection::MissingField { name, source }).spec_message()
            == "missing required "@ + source.spec_label() + " field `"@ + name@ + "`"@,
        ExtractionRejection::Query(m).spec_message() == "invalid query: "@ + m@,
        ExtractionRejection::Path(m).spec_message() == "invalid path: "@ + m@,
        ExtractionRejection::Header(m).spec_message() == "invalid header: "@ + m@,
        ExtractionRejection::Body(m).spec_message() == "invalid request body: "@ + m@,
        Source::Body.spec_label() == "body"@,
        Source::Query.spec_label() == "query"@,
        Source::Path.spec_label() == "path"@,
        Source::Header.spec_label() == "header"@,
{
}

} // verus!
