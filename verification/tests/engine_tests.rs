//! End-to-end scenarios: query string in, response out.

use responder::{parse_query, BodyOutcome, HttpResponse, SynthStep};

fn header<'a>(r: &'a HttpResponse, name: &str) -> Option<&'a str> {
    r.headers
        .iter()
        .find(|(k, _)| k == name)
        .map(|(_, v)| v.as_str())
}

fn body_bytes(r: &responder::Response) -> Vec<u8> {
    match r.get_body().unwrap() {
        BodyOutcome::Bytes(b) => b,
        BodyOutcome::Fetch(_) => panic!("expected bytes, got a fetch directive"),
    }
}

fn done(step: SynthStep) -> HttpResponse {
    match step {
        SynthStep::Done(h) => h,
        SynthStep::FetchGist { .. } => panic!("expected a finished response"),
    }
}

#[test]
fn deserialize() {
    let query_string = "status=200&body=Hello%2C%20world%21&headers[content-type]=text/plain";

    let response = parse_query(query_string).unwrap();

    assert_eq!(response.body, Some("Hello, world!".to_string()));
    assert_eq!(body_bytes(&response), b"Hello, world!");
    let http_response = done(response.into_response());

    assert_eq!(http_response.status, 200);
    assert_eq!(header(&http_response, "content-type").unwrap(), "text/plain");
}

#[test]
fn deserialize_multiple() {
    let query_string =
        "status=404&body=Hello%2C%20world%21&headers[Content-Type]=text/plain&headers[content-length]=42";

    let response = parse_query(query_string).unwrap();

    assert_eq!(response.body, Some("Hello, world!".to_string()));
    assert_eq!(body_bytes(&response), b"Hello, world!");
    let http_response = done(response.into_response());

    assert_eq!(http_response.status, 404);
    assert_eq!(header(&http_response, "content-type").unwrap(), "text/plain");
    assert_eq!(header(&http_response, "content-length").unwrap(), "42");
}

#[test]
fn deserialize_default() {
    let query_string = "";

    let response = parse_query(query_string).unwrap();

    assert_eq!(response.body, None);
    assert_eq!(body_bytes(&response), b"");
    let http_response = done(response.into_response());

    assert_eq!(http_response.status, 200);
    assert_eq!(header(&http_response, "content-type").unwrap(), "text/plain");
}

#[test]
fn deserialize_alias() {
    let query_string = "s=500&b=Hello%2C%20world%21&h[content-type]=text/plain";

    let response = parse_query(query_string).unwrap();

    assert_eq!(response.body, Some("Hello, world!".to_string()));
    assert_eq!(body_bytes(&response), b"Hello, world!");
    let http_response = done(response.into_response());

    assert_eq!(http_response.status, 500);
    assert_eq!(header(&http_response, "content-type").unwrap(), "text/plain");
}

#[test]
fn deserialize_header_alias() {
    let query_string = "h[l]=file:///etc/passwd&h[ct]=text/html&h[c]=cookie%3D42";

    let response = parse_query(query_string).unwrap();
    let http_response = done(response.into_response());

    assert_eq!(
        header(&http_response, "location").unwrap(),
        "file:///etc/passwd"
    );
    assert_eq!(header(&http_response, "content-type").unwrap(), "text/html");
    assert_eq!(header(&http_response, "set-cookie").unwrap(), "cookie=42");
}

#[test]
fn deserialize_cors() {
    fn assert_cors(query_string: &str, enabled: bool) {
        let response = done(parse_query(query_string).unwrap().into_response());
        let origin = header(&response, "access-control-allow-origin");
        if enabled {
            assert_eq!(origin.unwrap(), "*");
        } else {
            assert!(origin.is_none());
        }
    }

    assert_cors("b=body", false);
    assert_cors("b=body&cors=true", true);
    assert_cors("b=body&cors=false", false);
    assert_cors("b=body&cors=n", false);
    assert_cors("b=body&cors=", true);
    assert_cors("b=body&cors", true);
}

#[test]
fn deserialize_b64() {
    let query_string = "body.b64=SGVsbG8sIHdvcmxkIQ%3D"; // invalid padding, should be '=='

    let response = parse_query(query_string).unwrap();

    assert_eq!(response.body_b64, Some("SGVsbG8sIHdvcmxkIQ=".to_string()));
    assert_eq!(body_bytes(&response), b"Hello, world!");
}
