//! The token store and the credential verifier: validity over time,
//! uniqueness across generations, and uniform rejection.

use oauth_engine::credential_checks::{hash_value, verify_client, verify_user};
use oauth_engine::token_base::{
    TokenBase, generate_token, get_token_expiry, get_token_validity,
};

#[test]
fn generated_token_is_valid_then_expires() {
    let mut base = TokenBase::new();
    let now = 1000u64;
    let token = generate_token(&mut base, now);
    assert!(get_token_validity(&base, &token, now));
    assert!(get_token_validity(&base, &token, now + 29));
    assert!(!get_token_validity(&base, &token, now + 30));
    assert!(!get_token_validity(&base, &token, now + 31));
    assert_eq!(get_token_expiry(&base, &token), Some(now + 30));
}

#[test]
fn generated_tokens_are_distinct() {
    let mut base = TokenBase::new();
    let t1 = generate_token(&mut base, 1000);
    let t2 = generate_token(&mut base, 1001);
    assert_ne!(t1, t2);
    assert!(get_token_validity(&base, &t1, 1001));
    assert!(get_token_validity(&base, &t2, 1001));
}

#[test]
fn generated_token_shape() {
    let mut base = TokenBase::new();
    let token = generate_token(&mut base, 0);
    assert_eq!(token.chars().count(), 30);
    let charset = "ABCDEFGHIJKLMNOPQRSTUVWXYZabcdefghijklmnopqrstuvwxyz0123456789)(*&^%$#@!~";
    for c in token.chars() {
        assert!(charset.contains(c));
    }
}

#[test]
fn unknown_token_is_invalid() {
    let base = TokenBase::new();
    assert!(!get_token_validity(&base, "nosuchtoken", 0));
    assert_eq!(get_token_expiry(&base, "nosuchtoken"), None);
}

#[test]
fn insert_token_replaces_expiry() {
    let mut base = TokenBase::new();
    base.insert_token(&"abc".to_string(), 50);
    base.insert_token(&"abc".to_string(), 90);
    assert_eq!(base.len(), 1);
    assert_eq!(base.get_expiry("abc"), Some(90));
    assert!(base.is_token_valid("abc", 89));
    assert!(!base.is_token_valid("abc", 90));
}

#[test]
fn hashing_is_deterministic() {
    assert_eq!(hash_value("asdf"), hash_value("asdf"));
    assert_ne!(hash_value("asdf"), hash_value("asdg"));
    assert!(hash_value("asdf").starts_with("$2b$12$"));
}

#[test]
fn correct_credentials_verify() {
    assert!(verify_client("client_id", "client_secret").is_ok());
    assert!(verify_user("user", "asdf").is_ok());
}

#[test]
fn one_character_off_is_rejected() {
    assert!(verify_client("client_iD", "client_secret").is_err());
    assert!(verify_client("client_id", "client_secreT").is_err());
    assert!(verify_client("", "client_secret").is_err());
    assert!(verify_user("useR", "asdf").is_err());
    assert!(verify_user("user", "asdF").is_err());
    assert!(verify_user("user", "").is_err());
}

#[test]
fn rejection_shapes_are_identical() {
    let wrong_identity = verify_client("client_iX", "client_secret").unwrap_err();
    let wrong_secret = verify_client("client_id", "client_secreX").unwrap_err();
    assert_eq!(wrong_identity, wrong_secret);

    let wrong_name = verify_user("useX", "asdf").unwrap_err();
    let wrong_password = verify_user("user", "asdX").unwrap_err();
    assert_eq!(wrong_name, wrong_password);
}
