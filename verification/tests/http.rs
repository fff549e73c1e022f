//! Tests for the request intake: framing, body accessors, headers,
//! cookies, and path parameters.

use rum::error::RequestError;
use rum::params::Params;
use rum::request::Request;

fn framed(head_lines: &[&str], body: &str) -> Vec<u8> {
    let mut text = String::new();
    for line in head_lines {
        text.push_str(line);
        text.push_str("\r\n");
    }
    text.push_str("\r\n");
    text.push_str(body);
    text.into_bytes()
}

#[test]
fn test_response() {
    let body = ("GET / HTTP/1.1\r\n".to_owned()
        + "Content-Type: application/json\r\n"
        + "Accept: */*\r\n"
        + "Content-Length: 18\r\n"
        + "\r\n"
        + r#"{"hello": "world"}"#)
        .as_bytes()
        .to_vec();
    let response = Request::parse(&body).expect("response");
    let json = response.json_raw().expect("deserialize body");
    assert_eq!(json.get("hello").and_then(|v| v.as_str()), Some("world"));
}

#[test]
fn body_is_framed_by_content_length() {
    let buf = framed(
        &["POST /submit HTTP/1.1", "Content-Length: 5"],
        "hellotrailing-bytes-beyond-the-frame",
    );
    let req = Request::parse(&buf).expect("well-formed request");
    assert_eq!(req.body(), &b"hello".to_vec());
    assert_eq!(req.html(), "hello");
}

#[test]
fn missing_content_length_means_empty_body() {
    let buf = framed(&["GET /index HTTP/1.1", "Accept: */*"], "ignored");
    let req = Request::parse(&buf).expect("well-formed request");
    assert!(req.body().is_empty());
    assert_eq!(req.html(), "");
}

#[test]
fn short_body_is_malformed() {
    let buf = framed(&["POST / HTTP/1.1", "Content-Length: 10"], "abc");
    let err = Request::parse(&buf).map(|_| ()).expect_err("body shorter than declared");
    assert_eq!(err, RequestError::MalformedRequest);
    assert_eq!(err.message(), "malformed request");
}

#[test]
fn missing_blank_line_is_malformed() {
    let buf = b"GET / HTTP/1.1\r\nAccept: */*\r\n".to_vec();
    let err = Request::parse(&buf).map(|_| ()).expect_err("missing blank line");
    assert_eq!(err, RequestError::MalformedRequest);
}

#[test]
fn bad_request_line_is_malformed() {
    let buf = framed(&["GET/HTTP/1.1"], "");
    let err = Request::parse(&buf).map(|_| ()).expect_err("request line has one token");
    assert_eq!(err, RequestError::MalformedRequest);
    let two_tokens = framed(&["GET /path"], "");
    let err = Request::parse(&two_tokens).map(|_| ()).expect_err("request line has two tokens");
    assert_eq!(err, RequestError::MalformedRequest);
}

#[test]
fn header_names_are_lowercased() {
    let buf = framed(&["GET / HTTP/1.1", "Content-Type: text/html"], "");
    let req = Request::parse(&buf).expect("well-formed request");
    let value = req.head().header(&b"content-type".to_vec());
    assert_eq!(value, Some(&b"text/html".to_vec()));
    assert_eq!(req.head().header(&b"absent".to_vec()), None);
}

#[test]
fn request_line_tokens_are_kept() {
    let buf = framed(&["PUT /items/3 HTTP/1.1"], "");
    let req = Request::parse(&buf).expect("well-formed request");
    assert_eq!(req.head().method, b"PUT".to_vec());
    assert_eq!(req.head().path, b"/items/3".to_vec());
    assert_eq!(req.head().version, b"HTTP/1.1".to_vec());
}

#[test]
fn cookies_are_parsed_in_order() {
    let buf = framed(
        &["GET / HTTP/1.1", "Cookie: session=abc123; theme=dark"],
        "",
    );
    let req = Request::parse(&buf).expect("well-formed request");
    let cookies = req.cookies();
    assert_eq!(cookies.get(&b"session".to_vec()), Some(&b"abc123".to_vec()));
    assert_eq!(cookies.get(&b"theme".to_vec()), Some(&b"dark".to_vec()));
    assert_eq!(cookies.get(&b"absent".to_vec()), None);
}

#[test]
fn absent_cookie_header_means_no_cookies() {
    let buf = framed(&["GET / HTTP/1.1"], "");
    let req = Request::parse(&buf).expect("well-formed request");
    assert_eq!(req.cookies().get(&b"any".to_vec()), None);
}

#[test]
fn invalid_json_body_is_rejected() {
    let buf = framed(&["POST / HTTP/1.1", "Content-Length: 3"], "{{{");
    let req = Request::parse(&buf).expect("well-formed request");
    assert!(req.json_raw().is_err());
}

#[test]
fn parameters_come_from_the_router() {
    let buf = framed(&["GET /users/42 HTTP/1.1"], "");
    let req = Request::parse(&buf).expect("well-formed request");
    let bare: Result<Option<usize>, RequestError> = req.parameter(0);
    assert_eq!(bare, Ok(None));
    let req = req.with_params(Params::new(vec![b"42".to_vec(), b"abc".to_vec()]));
    let first: Result<Option<usize>, RequestError> = req.parameter(0);
    assert_eq!(first, Ok(Some(42)));
    let second: Result<Option<Vec<u8>>, RequestError> = req.parameter(1);
    assert_eq!(second, Ok(Some(b"abc".to_vec())));
    let second_as_number: Result<Option<usize>, RequestError> = req.parameter(1);
    assert_eq!(second_as_number, Err(RequestError::InvalidParameter));
    assert_eq!(RequestError::InvalidParameter.message(), "invalid parameter");
    let past: Result<Option<usize>, RequestError> = req.parameter(5);
    assert_eq!(past, Ok(None));
}

#[test]
fn unreadable_content_length_is_ignored() {
    let buf = framed(&["GET / HTTP/1.1", "Content-Length: many"], "payload");
    let req = Request::parse(&buf).expect("well-formed request");
    assert!(req.body().is_empty());
    let huge = framed(
        &["GET / HTTP/1.1", "Content-Length: 99999999999999999999999999999"],
        "short",
    );
    let req = Request::parse(&huge).expect("well-formed request");
    assert!(req.body().is_empty());
}

#[test]
fn html_replaces_incompatible_bytes() {
    let mut buf = framed(&["POST / HTTP/1.1", "Content-Length: 2"], "");
    buf.push(0xff);
    buf.push(b'a');
    let req = Request::parse(&buf).expect("well-formed request");
    assert_eq!(req.html(), "\u{fffd}a");
}
