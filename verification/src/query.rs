//! The query parser: from the raw query string to a structured `Response`.
//!
//! The grammar is `key=value` pairs separated by `&`, with percent-encoding
//! (`+` standing for a space) in keys and values, and the nested-map syntax
//! `headers[name]=value` (or `h[name]=value`) for header entries.  Recognized
//! keys go by a fixed alias set; unknown keys are ignored; when one field is
//! given more than once the last occurrence wins, while header entries all
//! accumulate in order.

use vstd::prelude::*;

use crate::errors::SynthError;
use crate::text::{
    all_digits, digits_val, parse_u16, pct_decode, percent_decode, prepend_first, split_sep,
    lemma_split_sep_len, str_eq, str_prefix_eq, utf8_chars, utf8_to_string,
};
use vstd::string::{StrSliceExecFns, StringExecFns, StringSliceAdditionalSpecFns};

verus! {

/// The structured form of a query string: everything the caller asked the
/// synthesized response to be.
#[derive(Debug)]
pub struct Response {
    /// The status code, 200 when the query does not give one.
    pub status: u16,
    /// A literal body.
    pub body: Option<String>,
    /// A base64-encoded body.
    pub body_b64: Option<String>,
    /// A reference to a gist whose content becomes the body.
    pub gist: Option<String>,
    /// Header entries as supplied, duplicates preserved in order.
    pub headers: Vec<(String, String)>,
    /// Whether permissive CORS headers are attached.
    pub cors: bool,
    /// The request path, set from the inbound request, never from the query.
    pub path: Option<String>,
}

/// The mathematical content of a `Response`.
#[verifier::ext_equal]
pub ghost struct ResponseModel {
    pub status: u16,
    pub body: Option<Seq<char>>,
    pub body_b64: Option<Seq<char>>,
    pub gist: Option<Seq<char>>,
    pub headers: Seq<(Seq<char>, Seq<char>)>,
    pub cors: bool,
    pub path: Option<Seq<char>>,
}

impl View for Response {
    type V = ResponseModel;

    open spec fn view(&self) -> ResponseModel {
        ResponseModel {
            status: self.status,
            body: match self.body {
                Some(s) => Some(s@),
                None => None,
            },
            body_b64: match self.body_b64 {
                Some(s) => Some(s@),
                None => None,
            },
            gist: match self.gist {
                Some(s) => Some(s@),
                None => None,
            },
            headers: self.headers@.map_values(|p: (String, String)| (p.0@, p.1@)),
            cors: self.cors,
            path: match self.path {
                Some(s) => Some(s@),
                None => None,
            },
        }
    }
}

/// The specification a query without any recognized key denotes.
pub open spec fn default_model() -> ResponseModel {
    ResponseModel {
        status: 200,
        body: None,
        body_b64: None,
        gist: None,
        headers: Seq::empty(),
        cors: false,
        path: None,
    }
}

/// The aliases that select the status code.
pub open spec fn is_status_key(k: Seq<char>) -> bool {
    k == "status"@ || k == "s"@ || k == "code"@
}

/// The aliases that give a literal body.
pub open spec fn is_body_key(k: Seq<char>) -> bool {
    k == "body"@ || k == "b"@ || k == "d"@ || k == "data"@
}

/// The aliases that give a base64 body.
pub open spec fn is_b64_key(k: Seq<char>) -> bool {
    k == "body.b64"@ || k == "data.b64"@ || k == "b64"@ || k == "base64"@
}

/// The key that gives a gist reference.
pub open spec fn is_gist_key(k: Seq<char>) -> bool {
    k == "gist"@
}

/// The key that controls CORS headers.
pub open spec fn is_cors_key(k: Seq<char>) -> bool {
    k == "cors"@
}

/// True when the key uses the nested-map bracket syntax anywhere.
pub open spec fn has_bracket(k: Seq<char>) -> bool {
    exists|i: int| 0 <= i < k.len() && (k[i] == '[' || k[i] == ']')
}

/// The values that turn the CORS flag off; every other value, the empty one
/// included, turns it on.
pub open spec fn falsy(v: Seq<char>) -> bool {
    v == "false"@ || v == "f"@ || v == "no"@ || v == "n"@ || v == "0"@
}

/// Whether the decoded value bytes spell a CORS-disabling word.
pub open spec fn falsy_val(v: Seq<u8>) -> bool {
    utf8_chars(v) matches Some(c) && falsy(c)
}

/// The header name inside a well-formed `headers[name]` or `h[name]` key;
/// `None` when the bracket syntax is malformed.
pub open spec fn header_name_of(k: Seq<char>) -> Option<Seq<char>> {
    if k.len() >= 9 && k.subrange(0, 8) == "headers["@ && k[k.len() - 1] == ']' {
        let name = k.subrange(8, k.len() - 1);
        if has_bracket(name) {
            None
        } else {
            Some(name)
        }
    } else if k.len() >= 3 && k.subrange(0, 2) == "h["@ && k[k.len() - 1] == ']' {
        let name = k.subrange(2, k.len() - 1);
        if has_bracket(name) {
            None
        } else {
            Some(name)
        }
    } else {
        None
    }
}

/// How one decoded `key=value` pair updates the specification under
/// construction; `None` is a parse failure.
pub open spec fn apply_kv(m: ResponseModel, key: Seq<char>, val: Seq<u8>) -> Option<
    ResponseModel,
> {
    if is_status_key(key) {
        if val.len() > 0 && all_digits(val) && digits_val(val) <= u16::MAX {
            Some(ResponseModel { status: digits_val(val) as u16, ..m })
        } else {
            None
        }
    } else if is_body_key(key) {
        match utf8_chars(val) {
            Some(v) => Some(ResponseModel { body: Some(v), ..m }),
            None => None,
        }
    } else if is_b64_key(key) {
        match utf8_chars(val) {
            Some(v) => Some(ResponseModel { body_b64: Some(v), ..m }),
            None => None,
        }
    } else if is_gist_key(key) {
        match utf8_chars(val) {
            Some(v) => Some(ResponseModel { gist: Some(v), ..m }),
            None => None,
        }
    } else if is_cors_key(key) {
        Some(ResponseModel { cors: !falsy_val(val), ..m })
    } else if has_bracket(key) {
        match header_name_of(key) {
            Some(name) => match utf8_chars(val) {
                Some(v) => Some(ResponseModel { headers: m.headers.push((name, v)), ..m }),
                None => None,
            },
            None => None,
        }
    } else {
        Some(m)
    }
}

/// How one raw pair (still percent-encoded) updates the specification: the
/// key must percent-decode to UTF-8 text; the value (empty when the pair has
/// no `=`) must percent-decode; empty pairs change nothing.
pub open spec fn apply_pair(m: ResponseModel, seg: Seq<u8>) -> Option<ResponseModel> {
    if seg.len() == 0 {
        Some(m)
    } else {
        let kv = kv_of(seg);
        match pct_decode(kv.0) {
            None => None,
            Some(kb) => match utf8_chars(kb) {
                None => None,
                Some(key) => {
                    let rv = match kv.1 {
                        Some(x) => x,
                        None => Seq::empty(),
                    };
                    match pct_decode(rv) {
                        None => None,
                        Some(vb) => apply_kv(m, key, vb),
                    }
                },
            },
        }
    }
}

/// Folds a sequence of raw pairs over a specification, left to right.
pub open spec fn fold_pairs(m: ResponseModel, segs: Seq<Seq<u8>>) -> Option<ResponseModel>
    decreases segs.len(),
{
    if segs.len() == 0 {
        Some(m)
    } else {
        match apply_pair(m, segs[0]) {
            None => None,
            Some(m2) => fold_pairs(m2, segs.drop_first()),
        }
    }
}

/// What a whole query string (as bytes) parses to, starting from the
/// defaults; `None` is a parse failure.
pub open spec fn parse_query_spec(q: Seq<u8>) -> Option<ResponseModel> {
    fold_pairs(default_model(), split_sep(q, 0x26))
}

/// Splits a byte sequence at every occurrence of `sep`.
pub fn split_byte_exec(s: &[u8], sep: u8) -> (r: Vec<Vec<u8>>)
    ensures
        r@.map_values(|v: Vec<u8>| v@) == split_sep(s@, sep),
{
    let mut done: Vec<Vec<u8>> = Vec::new();
    let mut cur: Vec<u8> = Vec::new();
    let mut i: usize = 0;
    proof {
        assert(s@.skip(0) =~= s@);
    }
    while i < s.len()
        invariant
            i <= s@.len(),
            split_sep(s@, sep) =~= done@.map_values(|v: Vec<u8>| v@) + prepend_first(
                cur@,
                split_sep(s@.skip(i as int), sep),
            ),
        decreases s@.len() - i,
    {
        let ghost tail = s@.skip(i as int);
        proof {
            assert(tail.len() > 0 && tail[0] == s@[i as int]);
            assert(tail.drop_first() =~= s@.skip(i + 1));
            lemma_split_sep_len(s@.skip(i + 1), sep);
        }
        let b = s[i];
        if b == sep {
            let ghost old_done = done@;
            let ghost old_cur = cur@;
            done.push(cur);
            cur = Vec::new();
            proof {
                let segs = split_sep(s@.skip(i + 1), sep);
                assert(split_sep(tail, sep) == seq![Seq::<u8>::empty()] + segs);
                assert(prepend_first(old_cur, seq![Seq::<u8>::empty()] + segs) =~= seq![old_cur]
                    + segs);
                assert(old_cur + Seq::<u8>::empty() =~= old_cur);
                assert(Seq::<u8>::empty() + segs[0] =~= segs[0]);
                assert(done@.map_values(|v: Vec<u8>| v@) =~= old_done.map_values(
                    |v: Vec<u8>| v@,
                ).push(old_cur));
                assert(prepend_first(cur@, segs) =~= segs);
                assert(split_sep(s@, sep) =~= done@.map_values(|v: Vec<u8>| v@) + prepend_first(
                    cur@,
                    segs,
                ));
            }
        } else {
            let ghost old_cur = cur@;
            cur.push(b);
            proof {
                let segs = split_sep(s@.skip(i + 1), sep);
                assert(split_sep(tail, sep) == seq![seq![s@[i as int]] + segs[0]]
                    + segs.drop_first());
                assert(prepend_first(old_cur, split_sep(tail, sep)) =~= seq![old_cur
                    + (seq![s@[i as int]] + segs[0])] + segs.drop_first());
                assert(old_cur + (seq![s@[i as int]] + segs[0]) =~= cur@ + segs[0]);
                assert(prepend_first(cur@, segs) =~= seq![cur@ + segs[0]] + segs.drop_first());
                assert(split_sep(s@, sep) =~= done@.map_values(|v: Vec<u8>| v@) + prepend_first(
                    cur@,
                    segs,
                ));
            }
        }
        i += 1;
    }
    proof {
        assert(s@.skip(i as int) =~= Seq::<u8>::empty());
        assert(split_sep(Seq::<u8>::empty(), sep) == seq![Seq::<u8>::empty()]);
        assert(prepend_first(cur@, seq![Seq::<u8>::empty()]) =~= seq![cur@]);
        assert(cur@ + Seq::<u8>::empty() =~= cur@);
    }
    let ghost old_done = done@;
    done.push(cur);
    proof {
        assert(done@.map_values(|v: Vec<u8>| v@) =~= old_done.map_values(|v: Vec<u8>| v@).push(
            cur@,
        ));
        assert(split_sep(s@, sep) =~= done@.map_values(|v: Vec<u8>| v@));
    }
    done
}

/// The part of a pair before its first `=`, and the part after it, if any.
pub open spec fn kv_of(seg: Seq<u8>) -> (Seq<u8>, Option<Seq<u8>>)
    decreases seg.len(),
{
    if seg.len() == 0 {
        (Seq::empty(), None)
    } else if seg[0] == 0x3d {
        (Seq::empty(), Some(seg.drop_first()))
    } else {
        let r = kv_of(seg.drop_first());
        (seq![seg[0]] + r.0, r.1)
    }
}

/// Splits a pair at its first `=`.
pub fn kv_exec(seg: &[u8]) -> (r: (Vec<u8>, Option<Vec<u8>>))
    ensures
        r.0@ == kv_of(seg@).0,
        r.1 is Some <==> kv_of(seg@).1 is Some,
        r.1 matches Some(v) ==> kv_of(seg@).1 == Some(v@),
{
    let mut cur: Vec<u8> = Vec::new();
    let mut i: usize = 0;
    proof {
        assert(seg@.skip(0) =~= seg@);
    }
    while i < seg.len()
        invariant
            i <= seg@.len(),
            kv_of(seg@).0 == cur@ + kv_of(seg@.skip(i as int)).0,
            kv_of(seg@).1 == kv_of(seg@.skip(i as int)).1,
        decreases seg@.len() - i,
    {
        let ghost tail = seg@.skip(i as int);
        proof {
            assert(tail.len() > 0 && tail[0] == seg@[i as int]);
            assert(tail.drop_first() =~= seg@.skip(i + 1));
        }
        let b = seg[i];
        if b == 0x3d {
            let rest = vstd::slice::slice_to_vec(&seg[i + 1..seg.len()]);
            proof {
                assert(rest@ =~= seg@.skip(i + 1));
                assert(cur@ + kv_of(tail).0 =~= cur@);
            }
            return (cur, Some(rest));
        }
        let ghost old_cur = cur@;
        cur.push(b);
        proof {
            assert(old_cur + (seq![seg@[i as int]] + kv_of(seg@.skip(i + 1)).0) =~= cur@ + kv_of(
                seg@.skip(i + 1),
            ).0);
        }
        i += 1;
    }
    proof {
        assert(seg@.skip(i as int) =~= Seq::<u8>::empty());
        assert(cur@ + Seq::<u8>::empty() =~= cur@);
    }
    (cur, None)
}

/// Whether the string holds a `[` or `]` anywhere.
pub fn has_bracket_exec(s: &str) -> (r: bool)
    ensures
        r == has_bracket(s@),
{
    let n = s.unicode_len();
    let mut i: usize = 0;
    while i < n
        invariant
            i <= n,
            n == s@.len(),
            forall|j: int| 0 <= j < i ==> !(s@[j] == '[' || s@[j] == ']'),
        decreases n - i,
    {
        let c = s.get_char(i);
        if c == '[' || c == ']' {
            assert(has_bracket(s@)) by {
                assert(s@[i as int] == '[' || s@[i as int] == ']');
            }
            return true;
        }
        i += 1;
    }
    false
}

/// Applies one raw pair to the `Response` under construction; `false` is a
/// parse failure and leaves the fields in an unspecified state.
fn apply_segment(resp: &mut Response, seg: &[u8]) -> (ok: bool)
    ensures
        apply_pair(old(resp)@, seg@) matches Some(m2) ==> ok && final(resp)@ == m2,
        apply_pair(old(resp)@, seg@) is None ==> !ok,
{
    if seg.len() == 0 {
        return true;
    }
    let (rawk, rawv) = kv_exec(seg);
    let kd = match percent_decode(rawk.as_slice()) {
        Some(k) => k,
        None => {
            return false;
        },
    };
    let key_s = match utf8_to_string(kd) {
        Some(s) => s,
        None => {
            return false;
        },
    };
    let rv: Vec<u8> = match rawv {
        Some(v) => v,
        None => Vec::new(),
    };
    proof {
        if kv_of(seg@).1 is None {
            assert(rv@ =~= Seq::<u8>::empty());
        }
    }
    let vd = match percent_decode(rv.as_slice()) {
        Some(v) => v,
        None => {
            return false;
        },
    };
    let key = key_s.as_str();
    if str_eq(key, "status") || str_eq(key, "s") || str_eq(key, "code") {
        match parse_u16(vd.as_slice()) {
            Some(n) => {
                resp.status = n;
                true
            },
            None => false,
        }
    } else if str_eq(key, "body") || str_eq(key, "b") || str_eq(key, "d") || str_eq(key, "data") {
        match utf8_to_string(vd) {
            Some(v) => {
                resp.body = Some(v);
                true
            },
            None => false,
        }
    } else if str_eq(key, "body.b64") || str_eq(key, "data.b64") || str_eq(key, "b64") || str_eq(
        key,
        "base64",
    ) {
        match utf8_to_string(vd) {
            Some(v) => {
                resp.body_b64 = Some(v);
                true
            },
            None => false,
        }
    } else if str_eq(key, "gist") {
        match utf8_to_string(vd) {
            Some(v) => {
                resp.gist = Some(v);
                true
            },
            None => false,
        }
    } else if str_eq(key, "cors") {
        let truthy = match utf8_to_string(vd) {
            Some(v) => !(str_eq(v.as_str(), "false") || str_eq(v.as_str(), "f") || str_eq(
                v.as_str(),
                "no",
            ) || str_eq(v.as_str(), "n") || str_eq(v.as_str(), "0")),
            None => true,
        };
        resp.cors = truthy;
        true
    } else if has_bracket_exec(key) {
        let n = key.unicode_len();
        let plen: usize = if str_prefix_eq(key, "headers[") && n >= 9 && key.get_char(n - 1)
            == ']' {
            proof {
                reveal_strlit("headers[");
            }
            8
        } else if str_prefix_eq(key, "h[") && n >= 3 && key.get_char(n - 1) == ']' {
            proof {
                reveal_strlit("h[");
                reveal_strlit("headers[");
            }
            2
        } else {
            proof {
                reveal_strlit("headers[");
                reveal_strlit("h[");
            }
            return false;
        };
        let name = key.substring_char(plen, n - 1);
        if has_bracket_exec(name) {
            return false;
        }
        let name_string = name.to_owned();
        match utf8_to_string(vd) {
            Some(v) => {
                let ghost old_headers = resp.headers@;
                resp.headers.push((name_string, v));
                proof {
                    assert(resp.headers@.map_values(|p: (String, String)| (p.0@, p.1@))
                        =~= old_headers.map_values(|p: (String, String)| (p.0@, p.1@)).push(
                        (name@, v@),
                    ));
                }
                true
            },
            None => false,
        }
    } else {
        true
    }
}

/// Parses a raw query string into a `Response`, exactly as
/// `parse_query_spec` describes; any malformation is a `Parse` error.
pub fn parse_query(q: &str) -> (r: Result<Response, SynthError>)
    ensures
        r is Ok <==> parse_query_spec(q.spec_bytes()) is Some,
        r matches Ok(resp) ==> parse_query_spec(q.spec_bytes()) == Some(resp@),
        r matches Err(e) ==> e is Parse,
{
    let bytes: &[u8] = q.as_bytes();
    let segs = split_byte_exec(bytes, 0x26);
    let ghost gsegs = segs@.map_values(|v: Vec<u8>| v@);
    let mut resp = Response {
        status: 200,
        body: None,
        body_b64: None,
        gist: None,
        headers: Vec::new(),
        cors: false,
        path: None,
    };
    proof {
        assert(resp.headers@.map_values(|p: (String, String)| (p.0@, p.1@)) =~= Seq::empty());
        assert(resp@ =~= default_model());
        assert(gsegs.skip(0) =~= gsegs);
    }
    let mut i: usize = 0;
    while i < segs.len()
        invariant
            i <= segs@.len(),
            gsegs == segs@.map_values(|v: Vec<u8>| v@),
            parse_query_spec(q.spec_bytes()) == fold_pairs(resp@, gsegs.skip(i as int)),
        decreases segs@.len() - i,
    {
        let ghost m_before = resp@;
        let ghost rest = gsegs.skip(i as int);
        proof {
            assert(rest.len() > 0 && rest[0] == gsegs[i as int]);
            assert(rest.drop_first() =~= gsegs.skip(i + 1));
        }
        let ok = apply_segment(&mut resp, segs[i].as_slice());
        if !ok {
            proof {
                assert(fold_pairs(m_before, rest) is None);
            }
            return Err(SynthError::Parse(String::from_str("malformed query string")));
        }
        i += 1;
    }
    proof {
        assert(gsegs.skip(i as int) =~= Seq::<Seq<u8>>::empty());
    }
    Ok(resp)
}

} // verus!
