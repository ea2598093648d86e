//! The authorizer role end to end: the grant scenarios at `/token`, the
//! cookie gate at `/resource` and `/expiry`, and the unrouted fallback.

use oauth_engine::oauth_authorizer::{handle_connection, handle_resource, handle_token};
use oauth_engine::parser::{parse_request, parse_response};
use oauth_engine::token_base::TokenBase;
use oauth_engine::types::ErrorCode;

const GOOD_TOKEN_REQUEST: &str = "POST /token HTTP/1.1\r\nContent-Type: application/x-www-form-urlencoded\r\n\r\ngrant_type=password&client_id=client_id&client_secret=client_secret&username=user&password=asdf";

#[test]
fn token_grant_succeeds_with_correct_credentials() {
    let mut base = TokenBase::new();
    let reply = handle_connection(&mut base, GOOD_TOKEN_REQUEST, 1000);
    let resp = parse_response(&reply).unwrap();
    assert!(200 <= resp.response_line.status_code && resp.response_line.status_code < 300);
    let token = resp.body.get("access_token").unwrap();
    assert!(!token.is_empty());
    assert_eq!(resp.body.get("token_type"), Some("Bearer".to_string()));
    let expires: u64 = resp.body.get("expires_in_s").unwrap().parse().unwrap();
    assert!(expires <= 30);
    assert_eq!(base.len(), 1);
}

#[test]
fn token_grant_accepts_json_body() {
    let mut base = TokenBase::new();
    let raw = "POST /token HTTP/1.1\r\nContent-Type: application/json\r\n\r\n{\"grant_type\":\"password\",\"client_id\":\"client_id\",\"client_secret\":\"client_secret\",\"username\":\"user\",\"password\":\"asdf\"}";
    let reply = handle_connection(&mut base, raw, 1000);
    let resp = parse_response(&reply).unwrap();
    assert_eq!(resp.response_line.status_code, 200);
    assert!(resp.body.get("access_token").is_some());
}

#[test]
fn token_request_missing_password_is_invalid_request() {
    let mut base = TokenBase::new();
    let raw = "POST /token HTTP/1.1\r\n\r\ngrant_type=password&client_id=client_id&client_secret=client_secret&username=user";
    let request = parse_request(raw).unwrap();
    let err = handle_token(&mut base, &request, 1000).unwrap_err();
    assert_eq!(err.error, ErrorCode::InvalidRequest);
    assert_eq!(base.len(), 0);
}

#[test]
fn token_request_empty_password_is_invalid_request() {
    let mut base = TokenBase::new();
    let raw = "POST /token HTTP/1.1\r\n\r\ngrant_type=password&client_id=client_id&client_secret=client_secret&username=user&password=";
    let request = parse_request(raw).unwrap();
    let err = handle_token(&mut base, &request, 1000).unwrap_err();
    assert_eq!(err.error, ErrorCode::InvalidRequest);
    assert_eq!(err.error_description, "password is empty");
    assert_eq!(base.len(), 0);
}

#[test]
fn unsupported_grant_type_is_named() {
    let mut base = TokenBase::new();
    let raw = "POST /token HTTP/1.1\r\n\r\ngrant_type=implicit&client_id=client_id&client_secret=client_secret&username=user&password=asdf";
    let request = parse_request(raw).unwrap();
    let err = handle_token(&mut base, &request, 1000).unwrap_err();
    assert_eq!(err.error, ErrorCode::UnsupportedGrantType);
    assert_eq!(base.len(), 0);
}

#[test]
fn wrong_secret_is_invalid_grant() {
    let mut base = TokenBase::new();
    let raw = "POST /token HTTP/1.1\r\n\r\ngrant_type=password&client_id=client_id&client_secret=wrong&username=user&password=asdf";
    let request = parse_request(raw).unwrap();
    let err = handle_token(&mut base, &request, 1000).unwrap_err();
    assert_eq!(err.error, ErrorCode::InvalidGrant);
    assert_eq!(err.error_description, "Client credentials not valid");
    assert_eq!(base.len(), 0);
}

#[test]
fn resource_without_cookie_is_denied() {
    let base = TokenBase::new();
    let request = parse_request("GET /resource HTTP/1.1\r\n\r\n").unwrap();
    let err = handle_resource(&base, &request, 0).unwrap_err();
    assert_eq!(err.response.response_line.status_code, 403);
    assert_eq!(err.error_description, "no token provided");
}

#[test]
fn resource_with_garbage_token_is_denied_distinctly() {
    let base = TokenBase::new();
    let request =
        parse_request("GET /resource HTTP/1.1\r\nCookie: access_token=garbage\r\n\r\n").unwrap();
    let err = handle_resource(&base, &request, 0).unwrap_err();
    assert_eq!(err.response.response_line.status_code, 403);
    assert_eq!(err.error_description, "token provided was invalid");
}

#[test]
fn resource_with_valid_token_is_served() {
    let mut base = TokenBase::new();
    let grant = parse_response(&handle_connection(&mut base, GOOD_TOKEN_REQUEST, 1000)).unwrap();
    let token = grant.body.get("access_token").unwrap();
    let raw = format!("GET /resource HTTP/1.1\r\nCookie: access_token={}\r\n\r\n", token);
    let reply = handle_connection(&mut base, &raw, 1010);
    let resp = parse_response(&reply).unwrap();
    assert_eq!(resp.response_line.status_code, 200);
    assert_eq!(
        resp.body.get("resource_content"),
        Some("This is the content of the protected resource.".to_string())
    );
}

#[test]
fn expired_token_no_longer_serves_the_resource() {
    let mut base = TokenBase::new();
    let grant = parse_response(&handle_connection(&mut base, GOOD_TOKEN_REQUEST, 1000)).unwrap();
    let token = grant.body.get("access_token").unwrap();
    let raw = format!("GET /resource HTTP/1.1\r\nCookie: access_token={}\r\n\r\n", token);
    let reply = handle_connection(&mut base, &raw, 1030);
    let resp = parse_response(&reply).unwrap();
    assert_eq!(resp.response_line.status_code, 403);
    assert_eq!(
        resp.body.get("error_description"),
        Some("token provided was invalid".to_string())
    );
}

#[test]
fn expiry_reports_remaining_seconds() {
    let mut base = TokenBase::new();
    let grant = parse_response(&handle_connection(&mut base, GOOD_TOKEN_REQUEST, 1000)).unwrap();
    let token = grant.body.get("access_token").unwrap();
    let raw = format!("GET /expiry HTTP/1.1\r\nCookie: access_token={}\r\n\r\n", token);
    let reply = handle_connection(&mut base, &raw, 1005);
    let resp = parse_response(&reply).unwrap();
    assert_eq!(resp.response_line.status_code, 200);
    assert_eq!(resp.body.get("expires_in_s"), Some("25".to_string()));
}

#[test]
fn unknown_path_gets_the_fixed_page() {
    let mut base = TokenBase::new();
    let reply = handle_connection(&mut base, "GET /elsewhere HTTP/1.1\r\n\r\n", 0);
    assert!(reply.starts_with("HTTP/1.1 404 Client Error\r\n"));
    assert!(reply.contains("Sorry, I don't know what you're asking for."));
    assert_eq!(base.len(), 0);
}

#[test]
fn malformed_request_gets_best_effort_error() {
    let mut base = TokenBase::new();
    let reply = handle_connection(&mut base, "nonsense", 0);
    let resp = parse_response(&reply).unwrap();
    assert_eq!(resp.response_line.status_code, 400);
    assert_eq!(
        resp.body.get("error"),
        Some("invalid_request".to_string())
    );
}
