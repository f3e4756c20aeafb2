//! The gist reference shapes, their canonical form, and the fetch flow.

use responder::{parse_query, normalize_gist_url, FetchOutcome, HttpResponse, SynthError, SynthStep};

fn header<'a>(r: &'a HttpResponse, name: &str) -> Option<&'a str> {
    r.headers
        .iter()
        .find(|(k, _)| k == name)
        .map(|(_, v)| v.as_str())
}

#[test]
fn gist_web_view_shape_normalizes() {
    let url = normalize_gist_url("gist.github.com/user/abc123").unwrap();
    assert_eq!(url, "https://gist.githubusercontent.com/user/abc123/raw");
}

#[test]
fn gist_raw_shape_normalizes() {
    let url = normalize_gist_url("gist.githubusercontent.com/user/abc123/raw/file.txt").unwrap();
    assert_eq!(
        url,
        "https://gist.githubusercontent.com/user/abc123/raw/file.txt"
    );
}

#[test]
fn gist_scheme_is_stripped() {
    let url = normalize_gist_url("https://gist.github.com/user/abc123").unwrap();
    assert_eq!(url, "https://gist.githubusercontent.com/user/abc123/raw");
    let url = normalize_gist_url("http://gist.github.com/user/abc123").unwrap();
    assert_eq!(url, "https://gist.githubusercontent.com/user/abc123/raw");
}

#[test]
fn gist_foreign_domain_rejected() {
    let err = normalize_gist_url("example.com/user/abc123").unwrap_err();
    assert!(matches!(err, SynthError::GistFormat(_)));
    assert!(!err.message().is_empty());
}

#[test]
fn gist_unrecognized_shape_rejected() {
    let err = normalize_gist_url("gist.github.com/onlyowner").unwrap_err();
    assert!(matches!(err, SynthError::GistFormat(_)));
    let err = normalize_gist_url("gist.github.com/a/b/c").unwrap_err();
    assert!(matches!(err, SynthError::GistFormat(_)));
}

#[test]
fn gist_fetch_flow_success() {
    let response = parse_query("gist=gist.github.com/user/abc123").unwrap();
    let (url, parsed) = match response.into_response() {
        SynthStep::FetchGist { url, parsed } => (url, parsed),
        SynthStep::Done(_) => panic!("expected a fetch directive"),
    };
    assert_eq!(url, "https://gist.githubusercontent.com/user/abc123/raw");
    let http_response = parsed.finish_with_fetch(FetchOutcome::Response {
        status: 200,
        bytes: b"snippet content".to_vec(),
    });
    assert_eq!(http_response.status, 200);
    assert_eq!(http_response.body, b"snippet content");
}

#[test]
fn gist_fetch_non_2xx_is_error() {
    let parsed = match parse_query("gist=gist.github.com/user/abc123")
        .unwrap()
        .into_response()
    {
        SynthStep::FetchGist { parsed, .. } => parsed,
        SynthStep::Done(_) => panic!("expected a fetch directive"),
    };
    let http_response = parsed.finish_with_fetch(FetchOutcome::Response {
        status: 404,
        bytes: Vec::new(),
    });
    assert_eq!(http_response.status, 500);
    assert!(!http_response.body.is_empty());
}

#[test]
fn gist_network_error_is_error() {
    let parsed = match parse_query("gist=gist.github.com/user/abc123")
        .unwrap()
        .into_response()
    {
        SynthStep::FetchGist { parsed, .. } => parsed,
        SynthStep::Done(_) => panic!("expected a fetch directive"),
    };
    let http_response =
        parsed.finish_with_fetch(FetchOutcome::NetworkError("connection refused".to_string()));
    assert_eq!(http_response.status, 500);
    assert!(!http_response.body.is_empty());
}

#[test]
fn gist_bad_reference_in_query_is_500() {
    let response = parse_query("gist=example.com/user/abc123").unwrap();
    let http_response = match response.into_response() {
        SynthStep::Done(h) => h,
        SynthStep::FetchGist { .. } => panic!("expected a finished response"),
    };
    assert_eq!(http_response.status, 500);
    assert!(!http_response.body.is_empty());
    assert_eq!(header(&http_response, "content-type").unwrap(), "text/plain");
}

#[test]
fn gist_reference_extension_guides_content_type() {
    let parsed = match parse_query("gist=gist.github.com/user/style.css")
        .unwrap()
        .into_response()
    {
        SynthStep::FetchGist { parsed, .. } => parsed,
        SynthStep::Done(_) => panic!("expected a fetch directive"),
    };
    let http_response = parsed.finish_with_fetch(FetchOutcome::Response {
        status: 200,
        bytes: b"body {}".to_vec(),
    });
    assert_eq!(header(&http_response, "content-type").unwrap(), "text/css");
}
