//! The message parser against the serializer: the round trip on a
//! representative message, framing edge cases, and cookie extraction.

use oauth_engine::body::Body;
use oauth_engine::parser::{
    ParseError, parse_cookie_header, parse_request, parse_response,
};
use oauth_engine::types::{
    Headers, HttpMethod, HttpResponseType, Request, RequestLine, Response, ResponseLine,
};

fn sample_request() -> Request {
    let mut headers = Headers::new();
    headers.set("Host", "localhost:7878");
    headers.set("Content-Type", "application/json");
    let mut body = Body::new();
    body.set("grant_type", "password");
    body.set("username", "user");
    Request {
        request_line: RequestLine {
            method: HttpMethod::Post,
            path: "/token".to_string(),
            http_version: "HTTP/1.1".to_string(),
        },
        headers,
        body,
    }
}

#[test]
fn request_round_trip() {
    let req = sample_request();
    let text = req.to_string();
    let back = parse_request(&text).unwrap();
    assert_eq!(back.request_line.method, HttpMethod::Post);
    assert_eq!(back.request_line.path, "/token");
    assert_eq!(back.request_line.http_version, "HTTP/1.1");
    assert_eq!(back.headers.len(), 2);
    assert_eq!(back.headers.get("Host"), Some("localhost:7878".to_string()));
    assert_eq!(
        back.headers.get("Content-Type"),
        Some("application/json".to_string())
    );
    assert_eq!(back.body.len(), 2);
    assert_eq!(back.body.get("grant_type"), Some("password".to_string()));
    assert_eq!(back.body.get("username"), Some("user".to_string()));
}

#[test]
fn response_round_trip() {
    let mut headers = Headers::new();
    headers.set("Content-Type", "application/json");
    let mut body = Body::new();
    body.set("access_token", "tok123");
    body.set("expires_in_s", "30");
    let resp = Response {
        response_line: ResponseLine {
            http_version: "HTTP/1.1".to_string(),
            status_code: 200,
            response_type: HttpResponseType::Success,
        },
        headers,
        body,
    };
    let text = resp.to_string();
    assert!(text.starts_with("HTTP/1.1 200 Success\r\n"));
    let back = parse_response(&text).unwrap();
    assert_eq!(back.response_line.status_code, 200);
    assert_eq!(back.response_line.response_type, HttpResponseType::Success);
    assert_eq!(back.response_line.http_version, "HTTP/1.1");
    assert_eq!(back.body.get("access_token"), Some("tok123".to_string()));
    assert_eq!(back.body.get("expires_in_s"), Some("30".to_string()));
}

#[test]
fn request_line_needs_three_tokens() {
    assert_eq!(
        parse_request("GET /x\r\n\r\n").unwrap_err(),
        ParseError::MalformedLine
    );
    assert_eq!(parse_request("\r\n\r\n").unwrap_err(), ParseError::MalformedLine);
    assert_eq!(
        parse_request("FETCH /x HTTP/1.1\r\n\r\n").unwrap_err(),
        ParseError::MalformedLine
    );
}

#[test]
fn request_bad_body_is_body_error() {
    assert_eq!(
        parse_request("GET /x HTTP/1.1\r\n\r\n{broken").unwrap_err(),
        ParseError::BodyDecodeError
    );
}

#[test]
fn request_without_body_parses_empty() {
    let req = parse_request("GET /resource HTTP/1.1\r\n\r\n").unwrap();
    assert_eq!(req.request_line.method, HttpMethod::Get);
    assert_eq!(req.body.len(), 0);
}

#[test]
fn request_form_body_parses() {
    let req = parse_request(
        "POST /token HTTP/1.1\r\nContent-Type: application/x-www-form-urlencoded\r\n\r\ngrant_type=password&username=user",
    )
    .unwrap();
    assert_eq!(req.body.get("grant_type"), Some("password".to_string()));
    assert_eq!(req.body.get("username"), Some("user".to_string()));
}

#[test]
fn content_length_bounds_the_body() {
    let req = parse_request("GET /x HTTP/1.1\r\nContent-Length: 2\r\n\r\n{}garbage").unwrap();
    assert_eq!(req.body.len(), 0);
    assert_eq!(
        req.headers.get("Content-Length"),
        Some("2".to_string())
    );
}

#[test]
fn response_line_needs_known_code() {
    assert_eq!(
        parse_response("HTTP/1.1 abc Success\r\n\r\n{}").unwrap_err(),
        ParseError::MalformedLine
    );
    assert_eq!(
        parse_response("HTTP/1.1 999 Odd\r\n\r\n{}").unwrap_err(),
        ParseError::MalformedLine
    );
}

#[test]
fn header_lines_are_trimmed_and_skipped() {
    let req = parse_request(
        "GET /x HTTP/1.1\r\n  Host :  spaced.example  \r\nnocolonline\r\n\r\n",
    )
    .unwrap();
    assert_eq!(req.headers.get("Host"), Some("spaced.example".to_string()));
    assert_eq!(req.headers.len(), 1);
}

#[test]
fn cookie_header_splits_and_trims() {
    let cookies = parse_cookie_header("access_token=abc; theme=dark;  x=1");
    assert_eq!(cookies.len(), 3);
    assert_eq!(cookies[0], ("access_token".to_string(), "abc".to_string()));
    assert_eq!(cookies[1], ("theme".to_string(), "dark".to_string()));
    assert_eq!(cookies[2], ("x".to_string(), "1".to_string()));
}

#[test]
fn cookie_first_occurrence_wins() {
    let cookies = parse_cookie_header("a=1; a=2");
    let first = cookies.iter().find(|p| p.0 == "a").unwrap();
    assert_eq!(first.1, "1");
}

#[test]
fn cookie_pieces_without_equals_are_skipped() {
    let cookies = parse_cookie_header("junk; a=1");
    assert_eq!(cookies.len(), 1);
    assert_eq!(cookies[0], ("a".to_string(), "1".to_string()));
}
