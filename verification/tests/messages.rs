//! The OAuth message envelopes: their wire text and the extractors that
//! read them back.

use oauth_engine::body::Body;
use oauth_engine::html_elements::{html_authorization_prompt, html_resource_table};
use oauth_engine::parser::{
    parse_access_token_request, parse_access_token_response, parse_error_response, parse_request,
    parse_response,
};
use oauth_engine::tools::error_response;
use oauth_engine::types::{
    AccessTokenRequest, AccessTokenResponse, ErrorCode, GrantType, Headers, HttpMethod,
    HttpResponseType, Request, RequestLine, Response, ResponseLine, TokenType,
};

fn bare_request(method: HttpMethod, path: &str) -> Request {
    Request {
        request_line: RequestLine {
            method,
            path: path.to_string(),
            http_version: "HTTP/1.1".to_string(),
        },
        headers: Headers::new(),
        body: Body::new(),
    }
}

fn bare_response(code: u64, class: HttpResponseType) -> Response {
    Response {
        response_line: ResponseLine {
            http_version: "HTTP/1.1".to_string(),
            status_code: code,
            response_type: class,
        },
        headers: Headers::new(),
        body: Body::new(),
    }
}

#[test]
fn access_token_request_serializes_its_fields() {
    let atr = AccessTokenRequest {
        request: bare_request(HttpMethod::Post, "/token"),
        grant_type: GrantType::ResourceOwnerPasswordCredentials,
        client_id: "client_id".to_string(),
        client_secret: "client_secret".to_string(),
        username: "user".to_string(),
        password: "asdf".to_string(),
    };
    let text = atr.to_string();
    let back = parse_request(&text).unwrap();
    let extracted = parse_access_token_request(&back).unwrap();
    assert!(matches!(
        extracted.grant_type,
        GrantType::ResourceOwnerPasswordCredentials
    ));
    assert_eq!(extracted.client_id, "client_id");
    assert_eq!(extracted.client_secret, "client_secret");
    assert_eq!(extracted.username, "user");
    assert_eq!(extracted.password, "asdf");
}

#[test]
fn access_token_request_extraction_errors_name_the_field() {
    let mut req = bare_request(HttpMethod::Post, "/token");
    let (code, description, _) = parse_access_token_request(&req).unwrap_err();
    assert_eq!(code, ErrorCode::InvalidRequest);
    assert_eq!(description, "Missing grant_type field");

    req.body.set("grant_type", "password");
    let (code, description, _) = parse_access_token_request(&req).unwrap_err();
    assert_eq!(code, ErrorCode::InvalidRequest);
    assert_eq!(description, "Missing client_id field");
}

#[test]
fn missing_field_outranks_an_unknown_grant_name() {
    // A body with an unrecognized grant name that also lacks a mandatory
    // field is a validation error for the field, never an unsupported
    // grant; the grant name is judged only once all five are present.
    let mut req = bare_request(HttpMethod::Post, "/token");
    req.body.set("grant_type", "sideways");
    req.body.set("client_id", "client_id");
    req.body.set("client_secret", "client_secret");
    req.body.set("username", "user");
    let (code, description, _) = parse_access_token_request(&req).unwrap_err();
    assert_eq!(code, ErrorCode::InvalidRequest);
    assert_eq!(description, "Missing password field");

    req.body.set("password", "asdf");
    let (code, description, _) = parse_access_token_request(&req).unwrap_err();
    assert_eq!(code, ErrorCode::UnsupportedGrantType);
    assert_eq!(description, "Unknown grant_type");
}

#[test]
fn access_token_response_round_trips() {
    let atr = AccessTokenResponse {
        response: bare_response(200, HttpResponseType::Success),
        access_token: "tok".to_string(),
        token_type: TokenType::Bearer,
        expires_in: 30,
    };
    let text = atr.to_string();
    let back = parse_response(&text).unwrap();
    let extracted = parse_access_token_response(&back).unwrap();
    assert_eq!(extracted.access_token, "tok");
    assert!(matches!(extracted.token_type, TokenType::Bearer));
    assert_eq!(extracted.expires_in, 30);
}

#[test]
fn error_response_round_trips() {
    let err = error_response(
        ErrorCode::InvalidScope,
        "scope too wide".to_string(),
        "https://datatracker.ietf.org/doc/html/rfc6749#section-3.3".to_string(),
    );
    let text = err.to_string();
    assert!(text.starts_with("HTTP/1.1 400 Client Error\r\n"));
    let back = parse_response(&text).unwrap();
    let extracted = parse_error_response(&back).unwrap();
    assert_eq!(extracted.error, ErrorCode::InvalidScope);
    assert_eq!(extracted.error_description, "scope too wide");
    assert_eq!(
        extracted.error_uri,
        "https://datatracker.ietf.org/doc/html/rfc6749#section-3.3"
    );
}

#[test]
fn error_extraction_needs_a_known_code() {
    let resp = bare_response(400, HttpResponseType::ClientError);
    assert!(parse_error_response(&resp).is_err());
    let mut resp = bare_response(400, HttpResponseType::ClientError);
    resp.body.set("error", "not_a_code");
    assert!(parse_error_response(&resp).is_err());
}

#[test]
fn html_table_embeds_its_fields() {
    let table = html_resource_table("the goods", "tok123", "25");
    assert!(table.contains("Resource Content: the goods<br>"));
    assert!(table.contains("Accessed with token: tok123<br>"));
    assert!(table.contains("Token expires in 25 seconds!<br>"));
}

#[test]
fn html_prompt_wraps_the_notice() {
    let page = html_authorization_prompt("something went sideways");
    assert!(page.contains("Authorization Prompt"));
    assert!(page.contains("something went sideways"));
    assert!(page.ends_with("\n</body>\n</html>"));
}
