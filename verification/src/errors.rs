//! The failures that response synthesis can meet.
//!
//! Every kind is terminal for the request in which it occurs and is rendered
//! at the top level as a plain-text response with status 500; the kinds exist
//! so that each stage can say exactly when it fails.

use vstd::prelude::*;
use vstd::string::StringExecFns;

verus! {

/// A failure during response synthesis.
///
/// Each variant carries a human-readable detail string; `message` prepends a
/// short description of the failing stage.
#[derive(Debug)]
pub enum SynthError {
    /// The query string does not follow the recognized grammar.
    Parse(String),
    /// A gist reference matches no accepted domain or path shape.
    GistFormat(String),
    /// The gist fetch failed on the network or returned a non-2xx status.
    Fetch(String),
    /// A base64 body does not decode.
    Decode(String),
    /// A header name or value cannot be transmitted over HTTP.
    Header(String),
}

impl SynthError {
    /// The characters of the message that `message` returns.
    pub open spec fn message_view(&self) -> Seq<char> {
        match self {
            SynthError::Parse(d) => "parse error: "@ + d@,
            SynthError::GistFormat(d) => "gist format error: "@ + d@,
            SynthError::Fetch(d) => "fetch error: "@ + d@,
            SynthError::Decode(d) => "decode error: "@ + d@,
            SynthError::Header(d) => "header error: "@ + d@,
        }
    }

    /// The textual description of the error, never empty.
    pub fn message(&self) -> (m: String)
        ensures
            m@ == self.message_view(),
            m@.len() > 0,
    {
        proof {
            reveal_strlit("parse error: ");
            reveal_strlit("gist format error: ");
            reveal_strlit("fetch error: ");
            reveal_strlit("decode error: ");
            reveal_strlit("header error: ");
        }
        let mut m = match self {
            SynthError::Parse(_) => String::from_str("parse error: "),
            SynthError::GistFormat(_) => String::from_str("gist format error: "),
            SynthError::Fetch(_) => String::from_str("fetch error: "),
            SynthError::Decode(_) => String::from_str("decode error: "),
            SynthError::Header(_) => String::from_str("header error: "),
        };
        let d = match self {
            SynthError::Parse(d) => d,
            SynthError::GistFormat(d) => d,
            SynthError::Fetch(d) => d,
            SynthError::Decode(d) => d,
            SynthError::Header(d) => d,
        };
        m.append(d.as_str());
        m
    }
}

} // verus!
