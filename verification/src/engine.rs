//! The response assembler and the synthesis driver.
//!
//! The assembler merges status, resolved headers, the content-type fallback,
//! the body bytes, and the CORS headers into one outgoing response.  The
//! driver runs the whole engine for one request; when the body must come from
//! a gist, it hands the caller the canonical URL to fetch and finishes once
//! the caller reports what came back.  Every failure anywhere upstream is
//! rendered as a plain-text response with status 500.

use vstd::prelude::*;

use crate::body::{body_plan, BodyOutcome, BodyPlanModel};
use crate::content_type::{content_type_fallback, guessed_content_type, opt_view};
use crate::errors::SynthError;
use crate::headers::{resolve_header_list, resolve_headers};
use crate::query::{parse_query, parse_query_spec, Response, ResponseModel};
use crate::text::{lemma_encode_utf8_nonempty, str_eq};
use vstd::string::{StrSliceExecFns, StringExecFns, StringSliceAdditionalSpecFns};

verus! {

/// A fully assembled HTTP response: the engine's entire output.
#[derive(Debug)]
pub struct HttpResponse {
    /// The status code, between 100 and 999.
    pub status: u16,
    /// The headers, in the order the assembler appended them.
    pub headers: Vec<(String, String)>,
    /// The body bytes.
    pub body: Vec<u8>,
}

/// The mathematical content of an `HttpResponse`.
#[verifier::ext_equal]
pub ghost struct HttpModel {
    pub status: u16,
    pub headers: Seq<(Seq<char>, Seq<char>)>,
    pub body: Seq<u8>,
}

impl View for HttpResponse {
    type V = HttpModel;

    open spec fn view(&self) -> HttpModel {
        HttpModel {
            status: self.status,
            headers: self.headers@.map_values(|p: (String, String)| (p.0@, p.1@)),
            body: self.body@,
        }
    }
}

/// True when some pair in the list bears the given name.
pub open spec fn has_header(hs: Seq<(Seq<char>, Seq<char>)>, name: Seq<char>) -> bool {
    exists|i: int| 0 <= i < hs.len() && hs[i].0 == name
}

/// The three permissive CORS headers, each `*`.
pub open spec fn cors_headers() -> Seq<(Seq<char>, Seq<char>)> {
    seq![
        ("access-control-allow-origin"@, "*"@),
        ("access-control-allow-methods"@, "*"@),
        ("access-control-allow-headers"@, "*"@),
    ]
}

/// A status code HTTP can carry.
pub open spec fn status_ok(s: u16) -> bool {
    100 <= s <= 999
}

/// When assembly succeeds: the status is transmittable and every header
/// resolves.
pub open spec fn assemble_ok(m: ResponseModel) -> bool {
    status_ok(m.status) && resolve_headers(m.headers) is Some
}

/// The resolved headers with the content-type fallback appended when no
/// explicit `content-type` survives.
pub open spec fn with_content_type(
    resolved: Seq<(Seq<char>, Seq<char>)>,
    path: Option<Seq<char>>,
    gist: Option<Seq<char>>,
) -> Seq<(Seq<char>, Seq<char>)> {
    if has_header(resolved, "content-type"@) {
        resolved
    } else {
        resolved.push(("content-type"@, guessed_content_type(path, gist)))
    }
}

/// The response that assembly produces when `assemble_ok` holds.
pub open spec fn assemble_model(m: ResponseModel, body: Seq<u8>, gist_used: bool) -> HttpModel {
    let resolved = match resolve_headers(m.headers) {
        Some(r) => r,
        None => Seq::empty(),
    };
    let gist = if gist_used {
        m.gist
    } else {
        None
    };
    let with_ct = with_content_type(resolved, m.path, gist);
    HttpModel {
        status: m.status,
        headers: if m.cors {
            with_ct + cors_headers()
        } else {
            with_ct
        },
        body,
    }
}

fn has_header_exec(hs: &Vec<(String, String)>, name: &str) -> (r: bool)
    ensures
        r == has_header(hs@.map_values(|p: (String, String)| (p.0@, p.1@)), name@),
{
    let ghost hview = hs@.map_values(|p: (String, String)| (p.0@, p.1@));
    let mut i: usize = 0;
    while i < hs.len()
        invariant
            i <= hs@.len(),
            hview == hs@.map_values(|p: (String, String)| (p.0@, p.1@)),
            forall|j: int| 0 <= j < i ==> hview[j].0 != name@,
        decreases hs@.len() - i,
    {
        if str_eq(hs[i].0.as_str(), name) {
            assert(has_header(hview, name@)) by {
                assert(hview[i as int].0 == name@);
            }
            return true;
        }
        i += 1;
    }
    false
}

/// Merges status, headers, content type, body, and CORS headers into the
/// outgoing response, exactly as `assemble_model` describes.  A status HTTP
/// cannot carry is a `Parse` error; an untransmittable header is a `Header`
/// error.
pub fn assemble(req: &Response, body: Vec<u8>, gist_used: bool) -> (r: Result<
    HttpResponse,
    SynthError,
>)
    ensures
        r is Ok <==> assemble_ok(req@),
        r matches Ok(h) ==> h@ == assemble_model(req@, body@, gist_used),
        r matches Err(e) ==> ((status_ok(req@.status) ==> e is Header) && (!status_ok(req@.status)
            ==> e is Parse)),
{
    if req.status < 100 || req.status > 999 {
        return Err(SynthError::Parse(String::from_str("status code out of range")));
    }
    let mut headers = match resolve_header_list(&req.headers) {
        Ok(h) => h,
        Err(e) => {
            return Err(e);
        },
    };
    let ghost resolved = headers@.map_values(|p: (String, String)| (p.0@, p.1@));
    if !has_header_exec(&headers, "content-type") {
        let gist_ref: Option<&String> = if gist_used {
            match &req.gist {
                Some(g) => Some(g),
                None => None,
            }
        } else {
            None
        };
        let ct = content_type_fallback(&req.path, gist_ref);
        headers.push((String::from_str("content-type"), ct));
        proof {
            assert(headers@.map_values(|p: (String, String)| (p.0@, p.1@)) =~= resolved.push(
                ("content-type"@, ct@),
            ));
        }
    }
    let ghost with_ct = headers@.map_values(|p: (String, String)| (p.0@, p.1@));
    if req.cors {
        headers.push(
            (String::from_str("access-control-allow-origin"), String::from_str("*")),
        );
        headers.push(
            (String::from_str("access-control-allow-methods"), String::from_str("*")),
        );
        headers.push(
            (String::from_str("access-control-allow-headers"), String::from_str("*")),
        );
        proof {
            assert(headers@.map_values(|p: (String, String)| (p.0@, p.1@)) =~= with_ct
                + cors_headers());
        }
    }
    let out = HttpResponse { status: req.status, headers, body };
    proof {
        assert(out@ =~= assemble_model(req@, body@, gist_used));
    }
    Ok(out)
}

/// The fallback response an error is rendered as: status 500, the error's
/// message as a plain body, the content type still resolved through the
/// normal chain.
pub open spec fn error_model(msg: Seq<char>, path: Option<Seq<char>>) -> HttpModel {
    HttpModel {
        status: 500,
        headers: seq![("content-type"@, guessed_content_type(path, None))],
        body: vstd::utf8::encode_utf8(msg),
    }
}

/// True when the response renders some non-empty error message for this
/// request path.
pub open spec fn is_error_response_for(h: HttpModel, path: Option<Seq<char>>) -> bool {
    exists|msg: Seq<char>| msg.len() > 0 && h == error_model(msg, path)
}

/// Renders a synthesis failure as the fallback response.
pub fn error_response(e: &SynthError, path: &Option<String>) -> (r: HttpResponse)
    ensures
        r@ == error_model(e.message_view(), opt_view(*path)),
        is_error_response_for(r@, opt_view(*path)),
        r@.status == 500,
        r@.body.len() > 0,
{
    let msg = e.message();
    let ct = content_type_fallback(path, None);
    let mut headers: Vec<(String, String)> = Vec::new();
    headers.push((String::from_str("content-type"), ct));
    let body = msg.as_str().as_bytes_vec();
    let out = HttpResponse { status: 500, headers, body };
    proof {
        lemma_encode_utf8_nonempty(msg@);
        assert(out@ =~= error_model(e.message_view(), opt_view(*path)));
        assert(is_error_response_for(out@, opt_view(*path))) by {
            assert(out@ == error_model(e.message_view(), opt_view(*path)));
            assert(e.message_view().len() > 0);
        }
    }
    out
}

/// What one synthesis step hands back: a finished response, or the canonical
/// gist URL whose content the caller must fetch before finishing.
pub enum SynthStep {
    /// Synthesis is complete.
    Done(HttpResponse),
    /// Fetch `url` and hand the outcome to `finish_with_fetch` on `parsed`.
    FetchGist { url: String, parsed: Response },
}

/// How a synthesis step must relate to the specification it started from.
pub open spec fn synth_step_matches(m: ResponseModel, s: SynthStep) -> bool {
    &&& body_plan(m) matches BodyPlanModel::Bytes(b) ==> (if assemble_ok(m) {
        s matches SynthStep::Done(h) && h@ == assemble_model(m, b, false)
    } else {
        s matches SynthStep::Done(h) && is_error_response_for(h@, m.path)
    })
    &&& body_plan(m) matches BodyPlanModel::Fetch(u) ==> (s matches SynthStep::FetchGist {
        url,
        parsed,
    } && url@ == u && parsed@ == m)
    &&& ((body_plan(m) is BadBase64 || body_plan(m) is BadGist) ==> (s matches SynthStep::Done(h)
        && is_error_response_for(h@, m.path)))
}

/// What the gist fetch came back with.
pub enum FetchOutcome {
    /// The fetch returned this HTTP status and these raw bytes.
    Response { status: u16, bytes: Vec<u8> },
    /// The transport failed before any response arrived.
    NetworkError(String),
}

/// A status the fetch counts as success.
pub open spec fn is_2xx(s: u16) -> bool {
    200 <= s < 300
}

impl Response {
    /// Runs synthesis as far as it can go without the network: either the
    /// finished response (errors already rendered as status 500), or the
    /// canonical gist URL to fetch.
    pub fn into_response(self) -> (s: SynthStep)
        ensures
            synth_step_matches(self@, s),
    {
        let outcome = match self.get_body() {
            Ok(o) => o,
            Err(e) => {
                return SynthStep::Done(error_response(&e, &self.path));
            },
        };
        match outcome {
            BodyOutcome::Bytes(b) => match assemble(&self, b, false) {
                Ok(h) => SynthStep::Done(h),
                Err(e) => SynthStep::Done(error_response(&e, &self.path)),
            },
            BodyOutcome::Fetch(u) => SynthStep::FetchGist { url: u, parsed: self },
        }
    }

    /// Finishes synthesis once the gist fetch has come back: a network
    /// failure or a non-2xx status is a `Fetch` error, rendered as status
    /// 500; success makes the raw bytes the body.
    pub fn finish_with_fetch(self, outcome: FetchOutcome) -> (r: HttpResponse)
        ensures
            outcome matches FetchOutcome::Response { status, bytes } ==> (if is_2xx(status) {
                if assemble_ok(self@) {
                    r@ == assemble_model(self@, bytes@, true)
                } else {
                    is_error_response_for(r@, self@.path)
                }
            } else {
                is_error_response_for(r@, self@.path)
            }),
            outcome is NetworkError ==> is_error_response_for(r@, self@.path),
    {
        match outcome {
            FetchOutcome::Response { status, bytes } => {
                if 200 <= status && status < 300 {
                    match assemble(&self, bytes, true) {
                        Ok(h) => h,
                        Err(e) => error_response(&e, &self.path),
                    }
                } else {
                    let e = SynthError::Fetch(
                        String::from_str("gist fetch returned a non-success status"),
                    );
                    error_response(&e, &self.path)
                }
            },
            FetchOutcome::NetworkError(m) => {
                let e = SynthError::Fetch(m);
                error_response(&e, &self.path)
            },
        }
    }
}

/// The specification with the request path filled in.
pub open spec fn with_path(m: ResponseModel, p: Seq<char>) -> ResponseModel {
    ResponseModel { path: Some(p), ..m }
}

/// Runs the whole engine for one request: parses the query, records the
/// request path, and synthesizes as far as the network allows.  A query that
/// does not parse is rendered as a status-500 response at once.
pub fn synthesize(path: &str, query: &str) -> (s: SynthStep)
    ensures
        parse_query_spec(query.spec_bytes()) is None ==> (s matches SynthStep::Done(h)
            && is_error_response_for(h@, Some(path@))),
        parse_query_spec(query.spec_bytes()) matches Some(m) ==> synth_step_matches(
            with_path(m, path@),
            s,
        ),
{
    match parse_query(query) {
        Err(e) => {
            let p = Some(path.to_owned());
            SynthStep::Done(error_response(&e, &p))
        },
        Ok(mut resp) => {
            resp.path = Some(path.to_owned());
            proof {
                match parse_query_spec(query.spec_bytes()) {
                    Some(m) => {
                        assert(resp@ =~= with_path(m, path@));
                    },
                    None => {},
                }
            }
            resp.into_response()
        },
    }
}

} // verus!
