//! The header resolver: alias expansion, validity, and normalization.
//!
//! Every supplied `(key, value)` pair is looked up in a fixed alias table
//! (`ct` for `content-type`, `c`/`sc`/`cookie` for `set-cookie`, `l`/`loc`
//! for `location`, `csp` for `content-security-policy`); unmapped keys pass
//! through unchanged.  Names are then lowercased, and a name or value that
//! HTTP cannot transmit is a resolver error.  All resulting pairs are kept in
//! order, duplicates included.

use vstd::prelude::*;

use crate::errors::SynthError;
use crate::text::{all_ascii, lemma_ascii_bytes_utf8, str_eq, utf8_to_string};
use vstd::pervasive::unreached;
use vstd::string::{StrSliceExecFns, StringExecFns};

verus! {

/// The canonical header name an alias stands for; unmapped keys pass through.
pub open spec fn alias_canonical(k: Seq<char>) -> Seq<char> {
    if k == "ct"@ {
        "content-type"@
    } else if k == "c"@ || k == "sc"@ || k == "cookie"@ {
        "set-cookie"@
    } else if k == "l"@ || k == "loc"@ {
        "location"@
    } else if k == "csp"@ {
        "content-security-policy"@
    } else {
        k
    }
}

/// Expands a header key through the alias table.
pub fn resolve_alias(k: &str) -> (r: String)
    ensures
        r@ == alias_canonical(k@),
{
    if str_eq(k, "ct") {
        String::from_str("content-type")
    } else if str_eq(k, "c") || str_eq(k, "sc") || str_eq(k, "cookie") {
        String::from_str("set-cookie")
    } else if str_eq(k, "l") || str_eq(k, "loc") {
        String::from_str("location")
    } else if str_eq(k, "csp") {
        String::from_str("content-security-policy")
    } else {
        k.to_owned()
    }
}

/// The characters HTTP allows in a header name.
pub open spec fn is_token_char(c: char) -> bool {
    ('a' <= c <= 'z') || ('A' <= c <= 'Z') || ('0' <= c <= '9') || c == '!' || c == '#' || c == '$'
        || c == '%' || c == '&' || c == '\'' || c == '*' || c == '+' || c == '-' || c == '.' || c
        == '^' || c == '_' || c == '`' || c == '|' || c == '~'
}

/// A header name HTTP can transmit: non-empty, token characters only.
pub open spec fn valid_header_name(s: Seq<char>) -> bool {
    s.len() > 0 && forall|i: int| 0 <= i < s.len() ==> is_token_char(s[i])
}

/// A header value HTTP can transmit: no control characters but the tab.
pub open spec fn valid_header_value(s: Seq<char>) -> bool {
    forall|i: int|
        0 <= i < s.len() ==> (s[i] == '\t' || (32 <= s[i] as u32 && s[i] as u32 != 127))
}

/// The character with an upper-case letter folded to lower case.
pub open spec fn lower_char(c: char) -> char {
    if 'A' <= c <= 'Z' {
        ((c as u32) + 32) as char
    } else {
        c
    }
}

/// The name with its upper-case letters folded to lower case.
pub open spec fn lower_name(s: Seq<char>) -> Seq<char> {
    s.map_values(|c: char| lower_char(c))
}

/// All header pairs after alias expansion, lowercasing, and validity checks,
/// in order; `None` when some name or value cannot be transmitted.
pub open spec fn resolve_headers(hs: Seq<(Seq<char>, Seq<char>)>) -> Option<
    Seq<(Seq<char>, Seq<char>)>,
>
    decreases hs.len(),
{
    if hs.len() == 0 {
        Some(Seq::empty())
    } else {
        let ck = alias_canonical(hs[0].0);
        if valid_header_name(ck) && valid_header_value(hs[0].1) {
            match resolve_headers(hs.drop_first()) {
                Some(rest) => Some(seq![(lower_name(ck), hs[0].1)] + rest),
                None => None,
            }
        } else {
            None
        }
    }
}

/// Validates a header name and folds it to lower case.
fn normalize_name(name: &str) -> (r: Option<String>)
    ensures
        r is Some <==> valid_header_name(name@),
        r matches Some(s) ==> s@ == lower_name(name@),
{
    let n = name.unicode_len();
    if n == 0 {
        return None;
    }
    let mut out: Vec<u8> = Vec::new();
    let mut i: usize = 0;
    while i < n
        invariant
            i <= n,
            n == name@.len(),
            out@.len() == i,
            forall|j: int| 0 <= j < i ==> is_token_char(name@[j]),
            forall|j: int|
                0 <= j < i ==> out@[j] < 128 && out@[j] as char == lower_char(name@[j]),
        decreases n - i,
    {
        let c = name.get_char(i);
        let token = ('a' <= c && c <= 'z') || ('A' <= c && c <= 'Z') || ('0' <= c && c <= '9')
            || c == '!' || c == '#' || c == '$' || c == '%' || c == '&' || c == '\'' || c == '*'
            || c == '+' || c == '-' || c == '.' || c == '^' || c == '_' || c == '`' || c == '|'
            || c == '~';
        if !token {
            return None;
        }
        let cv: u32 = c as u32;
        assert(cv < 128);
        if 'A' <= c && c <= 'Z' {
            out.push((cv as u8) + 32);
        } else {
            out.push(cv as u8);
        }
        i += 1;
    }
    proof {
        assert(all_ascii(out@));
        lemma_ascii_bytes_utf8(out@);
    }
    match utf8_to_string(out) {
        Some(s) => {
            proof {
                assert(s@ =~= lower_name(name@));
            }
            Some(s)
        },
        None => unreached(),
    }
}

/// Whether HTTP can carry the value.
fn check_value(v: &str) -> (r: bool)
    ensures
        r == valid_header_value(v@),
{
    let n = v.unicode_len();
    let mut i: usize = 0;
    while i < n
        invariant
            i <= n,
            n == v@.len(),
            forall|j: int|
                0 <= j < i ==> (v@[j] == '\t' || (32 <= v@[j] as u32 && v@[j] as u32 != 127)),
        decreases n - i,
    {
        let c = v.get_char(i);
        let cv: u32 = c as u32;
        if !(c == '\t' || (32 <= cv && cv != 127)) {
            return false;
        }
        i += 1;
    }
    true
}

/// Expands, validates, and lowercases every supplied header pair, exactly as
/// `resolve_headers` describes; an untransmittable pair is a `Header` error.
pub fn resolve_header_list(hs: &Vec<(String, String)>) -> (r: Result<
    Vec<(String, String)>,
    SynthError,
>)
    ensures
        r is Ok <==> resolve_headers(hs@.map_values(|p: (String, String)| (p.0@, p.1@))) is Some,
        r matches Ok(out) ==> resolve_headers(hs@.map_values(|p: (String, String)| (p.0@, p.1@)))
            == Some(out@.map_values(|p: (String, String)| (p.0@, p.1@))),
        r matches Err(e) ==> e is Header,
{
    let ghost full = hs@.map_values(|p: (String, String)| (p.0@, p.1@));
    let mut out: Vec<(String, String)> = Vec::new();
    let mut i: usize = 0;
    proof {
        assert(full.skip(0) =~= full);
        assert(out@.map_values(|p: (String, String)| (p.0@, p.1@)) =~= Seq::empty());
    }
    while i < hs.len()
        invariant
            i <= hs@.len(),
            full == hs@.map_values(|p: (String, String)| (p.0@, p.1@)),
            resolve_headers(full.skip(i as int)) matches Some(rest) ==> resolve_headers(full)
                == Some(out@.map_values(|p: (String, String)| (p.0@, p.1@)) + rest),
            resolve_headers(full.skip(i as int)) is None ==> resolve_headers(full) is None,
        decreases hs@.len() - i,
    {
        let ghost tail = full.skip(i as int);
        proof {
            assert(tail.len() > 0 && tail[0] == full[i as int]);
            assert(tail.drop_first() =~= full.skip(i + 1));
        }
        let key = &hs[i].0;
        let value = &hs[i].1;
        let ck = resolve_alias(key.as_str());
        let name = match normalize_name(ck.as_str()) {
            Some(s) => s,
            None => {
                return Err(
                    SynthError::Header(String::from_str("header name cannot be transmitted")),
                );
            },
        };
        if !check_value(value.as_str()) {
            return Err(SynthError::Header(String::from_str("header value cannot be transmitted")));
        }
        let ghost old_out = out@;
        out.push((name, value.clone()));
        proof {
            assert(out@.map_values(|p: (String, String)| (p.0@, p.1@)) =~= old_out.map_values(
                |p: (String, String)| (p.0@, p.1@),
            ).push((lower_name(alias_canonical(full[i as int].0)), full[i as int].1)));
            match resolve_headers(full.skip(i + 1)) {
                Some(rest) => {
                    assert(resolve_headers(tail) == Some(
                        seq![(lower_name(alias_canonical(tail[0].0)), tail[0].1)] + rest,
                    ));
                    assert(old_out.map_values(|p: (String, String)| (p.0@, p.1@)) + (seq![
                        (lower_name(alias_canonical(tail[0].0)), tail[0].1)] + rest)
                        =~= out@.map_values(|p: (String, String)| (p.0@, p.1@)) + rest);
                },
                None => {},
            }
        }
        i += 1;
    }
    proof {
        assert(full.skip(i as int) =~= Seq::<(Seq<char>, Seq<char>)>::empty());
        assert(out@.map_values(|p: (String, String)| (p.0@, p.1@)) + Seq::<(
            Seq<char>,
            Seq<char>,
        )>::empty() =~= out@.map_values(|p: (String, String)| (p.0@, p.1@)));
    }
    Ok(out)
}

} // verus!
