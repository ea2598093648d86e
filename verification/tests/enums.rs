//! The bidirectional string mappings of the protocol vocabulary: totality
//! in both directions, and the exact wire spellings.

use oauth_engine::types::{ErrorCode, GrantType, HttpMethod, HttpResponseType, TokenType};

#[test]
fn http_method_spellings() {
    assert_eq!(HttpMethod::Get.to_string(), "GET");
    assert_eq!(HttpMethod::Post.to_string(), "POST");
    assert_eq!(HttpMethod::Put.to_string(), "PUT");
    assert_eq!(HttpMethod::Delete.to_string(), "DELETE");
}

#[test]
fn http_method_round_trip() {
    for m in [HttpMethod::Get, HttpMethod::Post, HttpMethod::Put, HttpMethod::Delete] {
        assert_eq!(HttpMethod::from_str(&m.to_string()), Ok(m));
    }
}

#[test]
fn http_method_case_insensitive() {
    assert_eq!(HttpMethod::from_str("gEt"), Ok(HttpMethod::Get));
    assert_eq!(HttpMethod::from_str("post"), Ok(HttpMethod::Post));
    assert_eq!(HttpMethod::from_str("PATCH"), Err(()));
    assert_eq!(HttpMethod::from_str(""), Err(()));
}

#[test]
fn response_class_ranges() {
    assert_eq!(HttpResponseType::from_status(200), Ok(HttpResponseType::Success));
    assert_eq!(HttpResponseType::from_status(299), Ok(HttpResponseType::Success));
    assert_eq!(HttpResponseType::from_status(302), Ok(HttpResponseType::Redirection));
    assert_eq!(HttpResponseType::from_status(404), Ok(HttpResponseType::ClientError));
    assert_eq!(HttpResponseType::from_status(500), Ok(HttpResponseType::ServerError));
    assert_eq!(HttpResponseType::from_status(599), Ok(HttpResponseType::ServerError));
    assert_eq!(HttpResponseType::from_status(199), Err(()));
    assert_eq!(HttpResponseType::from_status(600), Err(()));
    assert_eq!(HttpResponseType::from_status(0), Err(()));
}

#[test]
fn response_class_spellings() {
    assert_eq!(HttpResponseType::Success.to_string(), "Success");
    assert_eq!(HttpResponseType::Redirection.to_string(), "Redirection");
    assert_eq!(HttpResponseType::ClientError.to_string(), "Client Error");
    assert_eq!(HttpResponseType::ServerError.to_string(), "Server Error");
}

#[test]
fn grant_type_round_trip() {
    for g in [
        GrantType::AuthorizationCode,
        GrantType::Implicit,
        GrantType::ResourceOwnerPasswordCredentials,
        GrantType::ClientCredentials,
        GrantType::Extension,
    ] {
        assert_eq!(GrantType::from_str(&g.to_string()), Ok(g));
    }
    assert_eq!(
        GrantType::from_str("password"),
        Ok(GrantType::ResourceOwnerPasswordCredentials)
    );
    assert_eq!(GrantType::from_str("Password"), Err(()));
}

#[test]
fn token_type_round_trip() {
    for t in [TokenType::Bearer, TokenType::Mac] {
        assert_eq!(TokenType::from_str(&t.to_string()), Ok(t));
    }
    assert_eq!(TokenType::Bearer.to_string(), "Bearer");
    assert_eq!(TokenType::Mac.to_string(), "MAC");
    assert_eq!(TokenType::from_str("bearer"), Ok(TokenType::Bearer));
    assert_eq!(TokenType::from_str("basic"), Err(()));
}

#[test]
fn error_code_round_trip() {
    for e in [
        ErrorCode::InvalidRequest,
        ErrorCode::InvalidClient,
        ErrorCode::InvalidGrant,
        ErrorCode::UnauthorizedClient,
        ErrorCode::UnsupportedGrantType,
        ErrorCode::InvalidScope,
    ] {
        assert_eq!(ErrorCode::from_str(&e.to_string()), Ok(e));
    }
    assert_eq!(ErrorCode::InvalidRequest.to_string(), "invalid_request");
    assert_eq!(ErrorCode::from_str("invalid_token"), Err(()));
}
