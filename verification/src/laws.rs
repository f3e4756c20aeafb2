//! Laws of the engine: properties that hold of all inputs, stated once and
//! proved from the specifications the components carry.

use vstd::prelude::*;

use crate::body::{body_plan, BodyPlanModel};
use crate::content_type::{guessed_content_type, mime_guess_of};
use crate::engine::{
    assemble_model, assemble_ok, cors_headers, error_model, has_header, with_content_type,
    HttpModel,
};
use crate::headers::resolve_headers;
use crate::query::{
    apply_kv, apply_pair, default_model, fold_pairs, kv_of, parse_query_spec, ResponseModel,
};
use crate::text::{
    all_ascii, all_digits, digits_val, is_digit, lemma_ascii_bytes_utf8,
    lemma_encode_utf8_nonempty, pct_decode, split_sep, utf8_chars,
};
use vstd::utf8::{encode_utf8, is_ascii_chars, is_ascii_chars_encode_utf8};

verus! {

proof fn lemma_pct_decode_identity(s: Seq<u8>)
    requires
        forall|i: int| 0 <= i < s.len() ==> s[i] != 0x25 && s[i] != 0x2b,
    ensures
        pct_decode(s) == Some(s),
    decreases s.len(),
{
    if s.len() > 0 {
        lemma_pct_decode_identity(s.drop_first());
        assert(s.skip(1) =~= s.drop_first());
        assert(seq![s[0]] + s.drop_first() =~= s);
    }
}

proof fn lemma_kv_of_single_eq(a: Seq<u8>, b: Seq<u8>)
    requires
        forall|i: int| 0 <= i < a.len() ==> a[i] != 0x3d,
    ensures
        kv_of(a + seq![0x3du8] + b) == (a, Some(b)),
    decreases a.len(),
{
    let whole = a + seq![0x3du8] + b;
    if a.len() == 0 {
        assert(whole[0] == 0x3d);
        assert(whole.drop_first() =~= b);
        assert(kv_of(whole).0 =~= a);
    } else {
        assert(whole[0] == a[0] && a[0] != 0x3d);
        assert(whole.drop_first() =~= a.drop_first() + seq![0x3du8] + b);
        lemma_kv_of_single_eq(a.drop_first(), b);
        assert(seq![a[0]] + a.drop_first() =~= a);
    }
}

proof fn lemma_split_sep_whole(s: Seq<u8>, sep: u8)
    requires
        forall|i: int| 0 <= i < s.len() ==> s[i] != sep,
    ensures
        split_sep(s, sep) == seq![s],
    decreases s.len(),
{
    if s.len() == 0 {
        assert(split_sep(s, sep) == seq![Seq::<u8>::empty()]);
        assert(Seq::<u8>::empty() =~= s);
        assert(split_sep(s, sep) =~= seq![s]);
    } else {
        lemma_split_sep_whole(s.drop_first(), sep);
        let rest = split_sep(s.drop_first(), sep);
        assert(rest[0] == s.drop_first());
        assert(seq![s[0]] + s.drop_first() =~= s);
        assert(rest.drop_first() =~= Seq::<Seq<u8>>::empty());
        assert(split_sep(s, sep) =~= seq![s]);
    }
}

/// Some pair in the list bears exactly this name and value.
pub open spec fn has_header_value(
    hs: Seq<(Seq<char>, Seq<char>)>,
    name: Seq<char>,
    value: Seq<char>,
) -> bool {
    exists|i: int| 0 <= i < hs.len() && hs[i] == (name, value)
}

/// A query that is exactly `status=<digits>`, for any digit string whose
/// value lies in the range the property names, parses to the defaults with
/// exactly that status.
pub proof fn lemma_status_query_end_to_end(d: Seq<u8>)
    requires
        d.len() > 0,
        all_digits(d),
        100 <= digits_val(d) <= 599,
    ensures
        parse_query_spec(encode_utf8("status="@) + d) == Some(
            ResponseModel { status: digits_val(d) as u16, ..default_model() },
        ),
{
    reveal_strlit("status=");
    reveal_strlit("status");
    let pre = encode_utf8("status="@);
    let q = pre + d;
    assert(is_ascii_chars("status="@));
    is_ascii_chars_encode_utf8("status="@);
    assert(pre.len() == 7);
    assert(forall|i: int| 0 <= i < 7 ==> pre[i] == "status="@[i] as u8);
    assert(forall|i: int| 0 <= i < d.len() ==> is_digit(d[i]));
    // No separator anywhere, so the query is one pair.
    assert(forall|i: int| 0 <= i < q.len() ==> q[i] != 0x26);
    lemma_split_sep_whole(q, 0x26);
    assert(seq![q].drop_first() =~= Seq::<Seq<u8>>::empty());
    // The pair splits at its one `=`.
    let a = pre.subrange(0, 6);
    assert(forall|i: int| 0 <= i < 6 ==> a[i] == "status="@[i] as u8);
    assert(q =~= a + seq![0x3du8] + d);
    lemma_kv_of_single_eq(a, d);
    // Neither side holds a `%` or `+`, so decoding changes nothing.
    lemma_pct_decode_identity(a);
    lemma_pct_decode_identity(d);
    // The key bytes spell exactly the word `status`.
    assert(all_ascii(a));
    lemma_ascii_bytes_utf8(a);
    assert(vstd::utf8::decode_utf8(a) =~= "status"@);
    assert(utf8_chars(a) == Some("status"@));
    // The one pair sets the status and nothing else.
    let m2 = apply_kv(default_model(), "status"@, d);
    assert(m2 matches Some(m) && m.status == digits_val(d) as u16);
    assert(q.len() > 0);
    assert(apply_pair(default_model(), q) == m2);
    match m2 {
        Some(m) => {
            assert(fold_pairs(default_model(), seq![q]) == fold_pairs(m, seq![q].drop_first()));
            assert(fold_pairs(m, seq![q].drop_first()) == Some(m));
        },
        None => {},
    }
    assert(parse_query_spec(q) == m2);
    assert(m2 == Some(ResponseModel { status: digits_val(d) as u16, ..default_model() }));
}

/// A `status=<digits>` pair sets exactly that status and touches nothing
/// else in the specification.
pub proof fn lemma_status_key_exact(m: ResponseModel, val: Seq<u8>)
    requires
        val.len() > 0,
        all_digits(val),
        digits_val(val) <= u16::MAX,
    ensures
        apply_kv(m, "status"@, val) matches Some(m2) && m2.status == digits_val(val) && m2.body
            == m.body && m2.body_b64 == m.body_b64 && m2.gist == m.gist && m2.headers == m.headers
            && m2.cors == m.cors,
{
}

/// Assembly carries the specification's status into the response unchanged.
pub proof fn lemma_assemble_keeps_status(m: ResponseModel, body: Seq<u8>, gist_used: bool)
    requires
        assemble_ok(m),
    ensures
        assemble_model(m, body, gist_used).status == m.status,
{
}

/// An empty query parses to the defaults, whose status is 200.
pub proof fn lemma_empty_query_defaults()
    ensures
        parse_query_spec(Seq::empty()) == Some(default_model()),
        default_model().status == 200,
{
    let segs = split_sep(Seq::<u8>::empty(), 0x26);
    assert(segs == seq![Seq::<u8>::empty()]);
    assert(apply_pair(default_model(), Seq::empty()) == Some(default_model()));
    assert(segs.drop_first() =~= Seq::<Seq<u8>>::empty());
    assert(fold_pairs(default_model(), segs.drop_first()) == Some(default_model()));
}

/// When a literal body is given, its bytes are always the ones used,
/// whatever else the specification holds.
pub proof fn lemma_literal_body_wins(m: ResponseModel)
    ensures
        m.body matches Some(text) ==> body_plan(m) == BodyPlanModel::Bytes(encode_utf8(text)),
{
}

/// Without a literal body, a base64 body is always the one used, even when
/// a gist reference stands beside it.
pub proof fn lemma_base64_body_beats_gist(m: ResponseModel)
    ensures
        m.body is None ==> (m.body_b64 matches Some(t) ==> body_plan(m) == (match
            crate::body::base64_decode_of(
            crate::body::plus_spaces(encode_utf8(t)),
        ) {
            Some(bytes) => BodyPlanModel::Bytes(bytes),
            None => BodyPlanModel::BadBase64,
        })),
{
}

/// The keys `ct` and `content-type` resolve to identical header lists, for
/// any value and any headers that follow.
pub proof fn lemma_ct_alias_equal(v: Seq<char>, rest: Seq<(Seq<char>, Seq<char>)>)
    ensures
        resolve_headers(seq![("ct"@, v)] + rest) == resolve_headers(
            seq![("content-type"@, v)] + rest,
        ),
{
    reveal_strlit("ct");
    reveal_strlit("c");
    reveal_strlit("sc");
    reveal_strlit("cookie");
    reveal_strlit("l");
    reveal_strlit("loc");
    reveal_strlit("csp");
    reveal_strlit("content-type");
    let a = seq![("ct"@, v)] + rest;
    let b = seq![("content-type"@, v)] + rest;
    assert(a[0].0 == "ct"@ && a[0].1 == v);
    assert(b[0].0 == "content-type"@ && b[0].1 == v);
    assert(crate::headers::alias_canonical("ct"@) == "content-type"@);
    assert(crate::headers::alias_canonical("content-type"@) == "content-type"@);
    assert(a.drop_first() =~= rest);
    assert(b.drop_first() =~= rest);
}

/// With the CORS flag on, the assembled response carries all three
/// permissive CORS headers, each `*`.
pub proof fn lemma_cors_present(m: ResponseModel, body: Seq<u8>, gist_used: bool)
    requires
        assemble_ok(m),
        m.cors,
    ensures
        has_header_value(
            assemble_model(m, body, gist_used).headers,
            "access-control-allow-origin"@,
            "*"@,
        ),
        has_header_value(
            assemble_model(m, body, gist_used).headers,
            "access-control-allow-methods"@,
            "*"@,
        ),
        has_header_value(
            assemble_model(m, body, gist_used).headers,
            "access-control-allow-headers"@,
            "*"@,
        ),
{
    let hs = assemble_model(m, body, gist_used).headers;
    let resolved = match resolve_headers(m.headers) {
        Some(r) => r,
        None => Seq::empty(),
    };
    let gist = if gist_used {
        m.gist
    } else {
        None
    };
    let ct = with_content_type(resolved, m.path, gist);
    let n = ct.len() as int;
    assert(hs == ct + cors_headers());
    assert(hs[n] == ("access-control-allow-origin"@, "*"@));
    assert(hs[n + 1] == ("access-control-allow-methods"@, "*"@));
    assert(hs[n + 2] == ("access-control-allow-headers"@, "*"@));
}

/// With the CORS flag off, a CORS header stands in the assembled response
/// only where the caller supplied one itself.
pub proof fn lemma_cors_absent(m: ResponseModel, body: Seq<u8>, gist_used: bool, name: Seq<char>)
    requires
        assemble_ok(m),
        !m.cors,
        name == "access-control-allow-origin"@ || name == "access-control-allow-methods"@ || name
            == "access-control-allow-headers"@,
        !has_header(
            match resolve_headers(m.headers) {
                Some(r) => r,
                None => Seq::empty(),
            },
            name,
        ),
    ensures
        !has_header(assemble_model(m, body, gist_used).headers, name),
{
    reveal_strlit("content-type");
    reveal_strlit("access-control-allow-origin");
    reveal_strlit("access-control-allow-methods");
    reveal_strlit("access-control-allow-headers");
    let hs = assemble_model(m, body, gist_used).headers;
    let resolved = match resolve_headers(m.headers) {
        Some(r) => r,
        None => Seq::empty(),
    };
    assert("content-type"@.len() == 12);
    assert(name.len() != 12);
    assert forall|i: int| 0 <= i < hs.len() implies hs[i].0 != name by {
        if i < resolved.len() {
            assert(hs[i] == resolved[i]);
            assert(!(resolved[i].0 == name));
        } else {
            assert(hs[i].0 == "content-type"@);
        }
    }
}

/// The content-type tiers, in order: an explicit header always wins; then
/// the path-extension guess; then the gist-reference guess when a gist was
/// used; and `text/plain` when every tier falls through.
pub proof fn lemma_content_type_priority(
    resolved: Seq<(Seq<char>, Seq<char>)>,
    path: Option<Seq<char>>,
    gist: Option<Seq<char>>,
)
    ensures
        has_header(resolved, "content-type"@) ==> with_content_type(resolved, path, gist)
            == resolved,
        !has_header(resolved, "content-type"@) ==> with_content_type(resolved, path, gist)
            == resolved.push(("content-type"@, guessed_content_type(path, gist))),
        path matches Some(p) ==> (mime_guess_of(p) matches Some(t) ==> guessed_content_type(
            path,
            gist,
        ) == t),
        (match path {
            Some(p) => mime_guess_of(p) is None,
            None => true,
        }) ==> (gist matches Some(g) ==> (mime_guess_of(g) matches Some(t)
            ==> guessed_content_type(path, gist) == t)),
        (match path {
            Some(p) => mime_guess_of(p) is None,
            None => true,
        }) && (match gist {
            Some(g) => mime_guess_of(g) is None,
            None => true,
        }) ==> guessed_content_type(path, gist) == "text/plain"@,
{
}

/// A reference outside the accepted gist domains is never given a canonical
/// URL, whatever its path looks like.
pub proof fn lemma_foreign_domain_never_accepted(g: Seq<char>)
    requires
        !crate::gist::gist_domain_ok(g),
    ensures
        crate::gist::normalize_gist(g) is None,
{
}

/// Every rendered failure is a status-500 response with a non-empty body.
pub proof fn lemma_error_render(msg: Seq<char>, path: Option<Seq<char>>)
    requires
        msg.len() > 0,
    ensures
        error_model(msg, path).status == 500,
        error_model(msg, path).body.len() > 0,
{
    lemma_encode_utf8_nonempty(msg);
}

/// Whatever failure the drivers render for a request, the response carries
/// status 500 and a non-empty body.
pub proof fn lemma_rendered_failures_are_500(h: HttpModel, path: Option<Seq<char>>)
    requires
        crate::engine::is_error_response_for(h, path),
    ensures
        h.status == 500,
        h.body.len() > 0,
{
    let msg = choose|msg: Seq<char>| msg.len() > 0 && h == error_model(msg, path);
    lemma_encode_utf8_nonempty(msg);
}

} // verus!
