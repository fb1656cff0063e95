//! The response-format and tool descriptors: a caller-supplied string is
//! either the literal `json` marker (case-insensitive) or a JSON schema that
//! must itself be valid JSON. A malformed schema surfaces only when the
//! request is finally serialized, as the builder step cannot fail.

use crate::error::OllamaError;
use crate::json::{Json, JsonValue};
use crate::parse::parse_json;
use vstd::prelude::*;

verus! {

/// The format of a response: the literal `json` mode, or a caller-supplied
/// JSON schema kept as text until the request is sent.
#[derive(Debug, Clone)]
pub enum Format {
    Json,
    Schema(String),
}

/// Is `s` the word `json`, compared without regard to ASCII case?
pub open spec fn is_json_marker(s: Seq<char>) -> bool {
    &&& s.len() == 4
    &&& (s[0] == 'j' || s[0] == 'J')
    &&& (s[1] == 's' || s[1] == 'S')
    &&& (s[2] == 'o' || s[2] == 'O')
    &&& (s[3] == 'n' || s[3] == 'N')
}

impl Format {
    /// Picks the variant for a caller-supplied string: the literal mode on
    /// any spelling of `json`, the schema branch on everything else.
    pub fn from_text(s: &str) -> (r: Format)
        ensures
            is_json_marker(s@) ==> r == Format::Json,
            !is_json_marker(s@) ==> (r matches Format::Schema(t) && t@ == s@),
    {
        let cs = crate::text::str_to_chars(s);
        if cs.len() == 4 && (cs[0] == 'j' || cs[0] == 'J') && (cs[1] == 's' || cs[1] == 'S') && (
        cs[2] == 'o' || cs[2] == 'O') && (cs[3] == 'n' || cs[3] == 'N') {
            Format::Json
        } else {
            Format::Schema(s.to_owned())
        }
    }

    /// The wire value of a format: the string `json` for the literal mode;
    /// for a schema, the value the schema text denotes, passed through as
    /// JSON rather than re-encoded as a string. A schema that is not valid
    /// JSON gives `InvalidFormat` exactly then.
    pub fn to_value(&self) -> (r: Result<JsonValue, OllamaError>)
        ensures
            *self == Format::Json ==> (r matches Ok(v) && v@ == Json::Str("json"@)),
            self matches Format::Schema(s) ==> (match parse_json(s@) {
                Some(j) => r matches Ok(v) && v@ == j,
                None => r matches Err(e) && e matches OllamaError::InvalidFormat(msg) && msg@
                    == "invalid JSON schema"@,
            }),
    {
        match self {
            Format::Json => Ok(JsonValue::Str(String::from_str("json"))),
            Format::Schema(s) => match crate::parse::parse_json_str(s.as_str()) {
                Some(v) => Ok(v),
                None => Err(OllamaError::InvalidFormat(String::from_str("invalid JSON schema"))),
            },
        }
    }
}

/// An opaque tool descriptor: a JSON-encoded string kept as text until the
/// request is sent, with the same parse-or-fail rule as a format schema but
/// no literal-mode shortcut.
#[derive(Debug, Clone)]
pub struct Tool {
    inner: String,
}

impl Tool {
    /// The descriptor text.
    pub closed spec fn text(self) -> Seq<char> {
        self.inner@
    }

    /// Wraps a JSON tool descriptor string, unexamined.
    pub fn new(inner: &str) -> (t: Self)
        ensures
            t.text() == inner@,
    {
        Tool { inner: inner.to_owned() }
    }

    /// The wire value of a tool: the value its text denotes. Text that is
    /// not valid JSON gives `InvalidFormat` exactly then.
    pub fn to_value(&self) -> (r: Result<JsonValue, OllamaError>)
        ensures
            match parse_json(self.text()) {
                Some(j) => r matches Ok(v) && v@ == j,
                None => r matches Err(e) && e matches OllamaError::InvalidFormat(msg) && msg@
                    == "invalid tool format"@,
            },
    {
        match crate::parse::parse_json_str(self.inner.as_str()) {
            Some(v) => Ok(v),
            None => Err(OllamaError::InvalidFormat(String::from_str("invalid tool format"))),
        }
    }
}

} // verus!
