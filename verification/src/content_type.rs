//! The content-type resolver.
//!
//! When no explicit `content-type` header survives alias expansion, the type
//! is guessed from the request path's trailing filename extension; when that
//! yields nothing and the body came from a gist, from the gist reference's
//! trailing extension; and failing everything, `text/plain`.

use vstd::prelude::*;

use vstd::string::StrSliceExecFns;

verus! {

/// The first known MIME type for the trailing filename extension of a path,
/// as the extension table names it; `None` for an unknown or missing
/// extension.
pub uninterp spec fn mime_guess_of(path: Seq<char>) -> Option<Seq<char>>;

/// Relies on `mime_guess::from_path(..).first_raw()`: the first MIME type
/// registered for the path's trailing extension, a function of the path
/// characters alone.
#[verifier::external_body]
fn guess_mime(path: &str) -> (r: Option<String>)
    ensures
        r is Some <==> mime_guess_of(path@) is Some,
        r matches Some(s) ==> mime_guess_of(path@) == Some(s@),
{
    match mime_guess::from_path(path).first_raw() {
        Some(m) => Some(m.to_string()),
        None => None,
    }
}

/// The view of an optional owned string.
pub open spec fn opt_view(o: Option<String>) -> Option<Seq<char>> {
    match o {
        Some(s) => Some(s@),
        None => None,
    }
}

/// The lower tiers of the fallback chain: the gist-reference guess when a
/// gist was used, else `text/plain`.
pub open spec fn gist_guess_or_plain(gist: Option<Seq<char>>) -> Seq<char> {
    match gist {
        Some(g) => match mime_guess_of(g) {
            Some(m) => m,
            None => "text/plain"@,
        },
        None => "text/plain"@,
    }
}

/// The content type the fallback chain picks when no explicit header gives
/// one: the path guess first, then the gist-reference guess, then
/// `text/plain`.
pub open spec fn guessed_content_type(path: Option<Seq<char>>, gist: Option<Seq<char>>) -> Seq<
    char,
> {
    match path {
        Some(p) => match mime_guess_of(p) {
            Some(m) => m,
            None => gist_guess_or_plain(gist),
        },
        None => gist_guess_or_plain(gist),
    }
}

fn gist_fallback(gist: Option<&String>) -> (r: String)
    ensures
        r@ == gist_guess_or_plain(match gist {
            Some(g) => Some(g@),
            None => None,
        }),
{
    match gist {
        Some(g) => match guess_mime(g.as_str()) {
            Some(m) => m,
            None => String::from_str("text/plain"),
        },
        None => String::from_str("text/plain"),
    }
}

/// Applies the guessing tiers of the fallback chain.
pub fn content_type_fallback(path: &Option<String>, gist: Option<&String>) -> (r: String)
    ensures
        r@ == guessed_content_type(opt_view(*path), match gist {
            Some(g) => Some(g@),
            None => None,
        }),
{
    match path {
        Some(p) => match guess_mime(p.as_str()) {
            Some(m) => m,
            None => gist_fallback(gist),
        },
        None => gist_fallback(gist),
    }
}

} // verus!
