//! Concrete instances of the engine's stated properties and its edge cases.

use responder::{parse_query, synthesize, HttpResponse, SynthError, SynthStep};

fn header<'a>(r: &'a HttpResponse, name: &str) -> Option<&'a str> {
    r.headers
        .iter()
        .find(|(k, _)| k == name)
        .map(|(_, v)| v.as_str())
}

fn all_headers<'a>(r: &'a HttpResponse, name: &str) -> Vec<&'a str> {
    r.headers
        .iter()
        .filter(|(k, _)| k == name)
        .map(|(_, v)| v.as_str())
        .collect()
}

fn done(step: SynthStep) -> HttpResponse {
    match step {
        SynthStep::Done(h) => h,
        SynthStep::FetchGist { .. } => panic!("expected a finished response"),
    }
}

#[test]
fn status_values_are_exact() {
    for (query, expected) in [
        ("status=100", 100),
        ("status=204", 204),
        ("status=599", 599),
        ("code=418", 418),
        ("s=301", 301),
        ("", 200),
    ] {
        let response = done(parse_query(query).unwrap().into_response());
        assert_eq!(response.status, expected);
    }
}

#[test]
fn status_out_of_range_is_500() {
    for query in ["status=99", "status=1000", "status=0"] {
        let response = done(parse_query(query).unwrap().into_response());
        assert_eq!(response.status, 500);
        assert!(!response.body.is_empty());
    }
}

#[test]
fn status_not_a_number_is_parse_error() {
    for query in ["status=abc", "status=", "status", "status=70000"] {
        let err = parse_query(query).unwrap_err();
        assert!(matches!(err, SynthError::Parse(_)));
        assert!(!err.message().is_empty());
    }
}

#[test]
fn literal_body_beats_base64_body() {
    let response = parse_query("body=plain&body.b64=SGVsbG8sIHdvcmxkIQ==").unwrap();
    let http_response = done(response.into_response());
    assert_eq!(http_response.body, b"plain");
}

#[test]
fn literal_body_beats_gist() {
    let response = parse_query("body=plain&gist=gist.github.com/user/abc123").unwrap();
    let http_response = done(response.into_response());
    assert_eq!(http_response.body, b"plain");
}

#[test]
fn bad_base64_is_500_with_message() {
    let response = done(parse_query("b64=%21%21%21").unwrap().into_response());
    assert_eq!(response.status, 500);
    assert!(!response.body.is_empty());
}

#[test]
fn short_and_long_header_syntax_agree() {
    let short = done(parse_query("h[ct]=text/html").unwrap().into_response());
    let long = done(
        parse_query("headers[content-type]=text/html")
            .unwrap()
            .into_response(),
    );
    assert_eq!(
        header(&short, "content-type").unwrap(),
        header(&long, "content-type").unwrap()
    );
    assert_eq!(header(&short, "content-type").unwrap(), "text/html");
}

#[test]
fn cookie_aliases_all_append() {
    let response = done(
        parse_query("h[c]=a%3D1&h[sc]=b%3D2&h[cookie]=c%3D3")
            .unwrap()
            .into_response(),
    );
    assert_eq!(all_headers(&response, "set-cookie"), vec!["a=1", "b=2", "c=3"]);
}

#[test]
fn explicit_header_beats_path_guess() {
    let step = synthesize("/page.html", "h[ct]=application/json&b=x");
    let response = done(step);
    assert_eq!(
        header(&response, "content-type").unwrap(),
        "application/json"
    );
}

#[test]
fn path_guess_beats_default() {
    let response = done(synthesize("/page.html", "b=x"));
    assert_eq!(header(&response, "content-type").unwrap(), "text/html");
}

#[test]
fn no_guess_falls_back_to_text_plain() {
    let response = done(synthesize("/", "b=x"));
    assert_eq!(header(&response, "content-type").unwrap(), "text/plain");
}

#[test]
fn malformed_bracket_syntax_is_parse_error() {
    for query in ["h[x=1", "h[a][b]=1", "headers[x=1"] {
        let err = parse_query(query).unwrap_err();
        assert!(matches!(err, SynthError::Parse(_)));
    }
}

#[test]
fn malformed_percent_escape_is_parse_error() {
    let err = parse_query("body=%zz").unwrap_err();
    assert!(matches!(err, SynthError::Parse(_)));
}

#[test]
fn invalid_header_name_is_500() {
    let response = done(parse_query("h[bad name]=x").unwrap().into_response());
    assert_eq!(response.status, 500);
    assert!(!response.body.is_empty());
}

#[test]
fn invalid_header_value_is_500() {
    let response = done(parse_query("h[x-note]=a%00b").unwrap().into_response());
    assert_eq!(response.status, 500);
    assert!(!response.body.is_empty());
}

#[test]
fn unknown_keys_are_ignored() {
    let response = done(parse_query("nonsense=1&b=kept&other=2").unwrap().into_response());
    assert_eq!(response.body, b"kept");
    assert_eq!(response.status, 200);
}

#[test]
fn last_occurrence_of_a_field_wins() {
    let response = done(parse_query("s=201&s=202").unwrap().into_response());
    assert_eq!(response.status, 202);
}

#[test]
fn plus_decodes_to_space_in_body() {
    let response = done(parse_query("b=a+b").unwrap().into_response());
    assert_eq!(response.body, b"a b");
}

#[test]
fn base64_with_spaces_decodes() {
    // `+` in base64 arrives as a space after form decoding; the resolver
    // turns it back before decoding.
    let response = parse_query("b64=%2Bg%3D%3D").unwrap();
    assert_eq!(response.body_b64, Some("+g==".to_string()));
    let http_response = done(response.into_response());
    assert_eq!(http_response.body, vec![0xfa]);
}

#[test]
fn cors_values_are_case_sensitive() {
    let response = done(parse_query("b=x&cors=False").unwrap().into_response());
    assert_eq!(
        header(&response, "access-control-allow-origin").unwrap(),
        "*"
    );
}

#[test]
fn multibyte_body_survives_decoding() {
    let response = parse_query("b=caf%C3%A9").unwrap();
    assert_eq!(response.body, Some("caf\u{e9}".to_string()));
    let http_response = done(response.into_response());
    assert_eq!(http_response.body, "caf\u{e9}".as_bytes());
}

#[test]
fn synthesize_records_the_path() {
    let response = done(synthesize("/data.json", ""));
    assert_eq!(header(&response, "content-type").unwrap(), "application/json");
}

#[test]
fn parse_error_renders_as_500() {
    let response = done(synthesize("/", "body=%zz"));
    assert_eq!(response.status, 500);
    assert!(!response.body.is_empty());
    assert_eq!(header(&response, "content-type").unwrap(), "text/plain");
}
