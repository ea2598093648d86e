//! A minimal OAuth2 resource-owner-password-credentials engine: an HTTP/1.1
//! message model with round-trip serialization, a grant state machine, a
//! token store with expiry, and the two role handlers (authorizer and client).

pub mod body;
pub mod credential_checks;
pub mod html_elements;
pub mod kv;
pub mod oauth_authorizer;
pub mod oauth_client;
pub mod parser;
pub mod tools;
pub mod text;
pub mod token;
pub mod token_base;
pub mod types;
