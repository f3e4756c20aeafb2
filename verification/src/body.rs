//! The body resolver.
//!
//! Exactly one body source is used, by precedence: a literal body's bytes, a
//! base64 body decoded after spaces are turned back into `+`, the content
//! fetched from a normalized gist URL, and failing all three, an empty body.

use b64::FromBase64;
use vstd::prelude::*;

use crate::errors::SynthError;
use crate::gist::{normalize_gist, normalize_gist_url};
use crate::query::{Response, ResponseModel};
use vstd::string::{StrSliceExecFns, StringExecFns};

verus! {

/// The bytes that the base64 decoder accepts the input as denoting, or
/// `None` where it refuses the input.
pub uninterp spec fn base64_decode_of(b: Seq<u8>) -> Option<Seq<u8>>;

/// Relies on `b64::FromBase64::from_base64` for `[u8]`: the decoded bytes, a
/// function of the input bytes alone, refused exactly where the crate finds
/// a byte outside its alphabet or a leftover length.
#[verifier::external_body]
fn base64_decode(b: &[u8]) -> (r: Option<Vec<u8>>)
    ensures
        r is Some <==> base64_decode_of(b@) is Some,
        r matches Some(v) ==> base64_decode_of(b@) == Some(v@),
{
    b.from_base64().ok()
}

/// The base64 text with each space turned back into `+`: a `+` in a query
/// string arrives as a space, so the resolver tolerates it.
pub open spec fn plus_spaces(b: Seq<u8>) -> Seq<u8> {
    b.map_values(
        |x: u8|
            if x == 0x20 {
                0x2bu8
            } else {
                x
            },
    )
}

fn replace_spaces(b: &[u8]) -> (r: Vec<u8>)
    ensures
        r@ == plus_spaces(b@),
{
    let mut out: Vec<u8> = Vec::new();
    let mut i: usize = 0;
    while i < b.len()
        invariant
            i <= b@.len(),
            out@.len() == i,
            forall|j: int| 0 <= j < i ==> out@[j] == plus_spaces(b@)[j],
        decreases b@.len() - i,
    {
        let x = b[i];
        if x == 0x20 {
            out.push(0x2b);
        } else {
            out.push(x);
        }
        i += 1;
    }
    proof {
        assert(out@ =~= plus_spaces(b@));
    }
    out
}

/// What the body resolver does for a given specification: the bytes it can
/// produce at once, the canonical URL it must fetch, or the failure it meets.
pub ghost enum BodyPlanModel {
    /// The body bytes are at hand without any fetch.
    Bytes(Seq<u8>),
    /// The body is the content behind this canonical gist URL.
    Fetch(Seq<char>),
    /// The base64 body does not decode.
    BadBase64,
    /// The gist reference matches no accepted domain or shape.
    BadGist,
}

/// The body source precedence: literal over base64 over gist over empty.
pub open spec fn body_plan(m: ResponseModel) -> BodyPlanModel {
    match m.body {
        Some(text) => BodyPlanModel::Bytes(vstd::utf8::encode_utf8(text)),
        None => match m.body_b64 {
            Some(b64text) => match base64_decode_of(
                plus_spaces(vstd::utf8::encode_utf8(b64text)),
            ) {
                Some(bytes) => BodyPlanModel::Bytes(bytes),
                None => BodyPlanModel::BadBase64,
            },
            None => match m.gist {
                Some(g) => match normalize_gist(g) {
                    Some(u) => BodyPlanModel::Fetch(u),
                    None => BodyPlanModel::BadGist,
                },
                None => BodyPlanModel::Bytes(Seq::empty()),
            },
        },
    }
}

/// What the body resolver hands back when it needs no fetch, or the URL it
/// asks the caller to fetch.
pub enum BodyOutcome {
    /// The body bytes, ready to assemble.
    Bytes(Vec<u8>),
    /// The canonical gist URL whose content becomes the body.
    Fetch(String),
}

impl Response {
    /// Picks and produces the body by source precedence, exactly as
    /// `body_plan` describes: a bad base64 body is a `Decode` error, a bad
    /// gist reference a `GistFormat` error.
    pub fn get_body(&self) -> (r: Result<BodyOutcome, SynthError>)
        ensures
            body_plan(self@) matches BodyPlanModel::Bytes(b) ==> r matches Ok(
                BodyOutcome::Bytes(v),
            ) && v@ == b,
            body_plan(self@) matches BodyPlanModel::Fetch(u) ==> r matches Ok(
                BodyOutcome::Fetch(s),
            ) && s@ == u,
            body_plan(self@) is BadBase64 ==> (r matches Err(e) && e is Decode),
            body_plan(self@) is BadGist ==> (r matches Err(e) && e is GistFormat),
    {
        if let Some(text) = &self.body {
            return Ok(BodyOutcome::Bytes(text.as_str().as_bytes_vec()));
        }
        if let Some(b64text) = &self.body_b64 {
            let replaced = replace_spaces(b64text.as_str().as_bytes());
            return match base64_decode(replaced.as_slice()) {
                Some(v) => Ok(BodyOutcome::Bytes(v)),
                None => Err(SynthError::Decode(String::from_str("invalid base64 body"))),
            };
        }
        if let Some(g) = &self.gist {
            return match normalize_gist_url(g.as_str()) {
                Ok(u) => Ok(BodyOutcome::Fetch(u)),
                Err(e) => Err(e),
            };
        }
        Ok(BodyOutcome::Bytes(Vec::new()))
    }
}

} // verus!
