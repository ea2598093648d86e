//! Credential verification: supplied secrets are hashed with a fixed salt
//! and an expensive hash, then compared against the reference hashes. A
//! mismatch on either the identity or the secret yields one and the same
//! error, so nothing in a rejection tells the two apart.
//!
//! The salt is a compile-time constant shared by all secrets: a documented
//! simplification, not a recommendation.

use vstd::prelude::*;

use crate::text::str_eq;
use crate::types::ErrorCode;

verus! {

/// What bcrypt computes for a value under this module's fixed salt and
/// cost: a function of the value alone.
pub uninterp spec fn bcrypt_hash_of(s: Seq<char>) -> Seq<char>;

/// Relies on `bcrypt::hash_with_salt` and `HashParts::format_for_version`:
/// with a fixed sixteen-byte salt and the default cost the call cannot
/// fail, and the formatted hash depends on the hashed value alone.
#[verifier::external_body]
pub fn hash_value(value: &str) -> (r: String)
    ensures
        r@ == bcrypt_hash_of(value@),
{
    let salt: [u8; 16] = [
        0x68, 0x65, 0x6C, 0x6C, 0x6F, 0x77, 0x6F, 0x72, 0x6C, 0x64, 0x69, 0x74, 0x73, 0x6D, 0x65,
        0x21,
    ];
    match bcrypt::hash_with_salt(value, bcrypt::DEFAULT_COST, salt) {
        Ok(parts) => parts.format_for_version(bcrypt::Version::TwoB),
        Err(_) => String::new(),
    }
}

/// The reference client identity.
pub open spec fn spec_client_id() -> Seq<char> {
    "client_id"@
}

/// The reference client secret, hashed before comparison.
pub open spec fn spec_client_secret() -> Seq<char> {
    "client_secret"@
}

/// The reference user name.
pub open spec fn spec_username() -> Seq<char> {
    "user"@
}

/// The reference user password, hashed before comparison.
pub open spec fn spec_password() -> Seq<char> {
    "asdf"@
}

/// A client is accepted exactly when the identity matches and the hash of
/// the supplied secret matches the stored hash.
pub open spec fn spec_client_ok(id: Seq<char>, secret: Seq<char>) -> bool {
    id == spec_client_id() && bcrypt_hash_of(secret) == bcrypt_hash_of(spec_client_secret())
}

/// A user is accepted exactly when the name matches and the hash of the
/// supplied password matches the stored hash.
pub open spec fn spec_user_ok(name: Seq<char>, password: Seq<char>) -> bool {
    name == spec_username() && bcrypt_hash_of(password) == bcrypt_hash_of(spec_password())
}

/// The one error every rejected client sees.
pub open spec fn spec_client_error() -> (ErrorCode, Seq<char>, Seq<char>) {
    (
        ErrorCode::InvalidGrant,
        "Client credentials not valid"@,
        "https://datatracker.ietf.org/doc/html/rfc6749#section-2.1"@,
    )
}

/// The one error every rejected user sees.
pub open spec fn spec_user_error() -> (ErrorCode, Seq<char>, Seq<char>) {
    (
        ErrorCode::InvalidGrant,
        "User credentials not valid"@,
        "https://datatracker.ietf.org/doc/html/rfc6749#section-4.3"@,
    )
}

/// Checks a client identity and secret against the reference values.
pub fn verify_client(client_id: &str, client_secret: &str) -> (r: Result<
    (),
    (ErrorCode, String, String),
>)
    ensures
        r is Ok <==> spec_client_ok(client_id@, client_secret@),
        r matches Err(e) ==> (e.0, e.1@, e.2@) == spec_client_error(),
{
    let supplied = hash_value(client_secret);
    let reference = hash_value("client_secret");
    if str_eq(client_id, "client_id") && str_eq(supplied.as_str(), reference.as_str()) {
        Ok(())
    } else {
        Err(
            (
                ErrorCode::InvalidGrant,
                "Client credentials not valid".to_owned(),
                "https://datatracker.ietf.org/doc/html/rfc6749#section-2.1".to_owned(),
            ),
        )
    }
}

/// Checks a user name and password against the reference values.
pub fn verify_user(username: &str, password: &str) -> (r: Result<(), (ErrorCode, String, String)>)
    ensures
        r is Ok <==> spec_user_ok(username@, password@),
        r matches Err(e) ==> (e.0, e.1@, e.2@) == spec_user_error(),
{
    let supplied = hash_value(password);
    let reference = hash_value("asdf");
    if str_eq(username, "user") && str_eq(supplied.as_str(), reference.as_str()) {
        Ok(())
    } else {
        Err(
            (
                ErrorCode::InvalidGrant,
                "User credentials not valid".to_owned(),
                "https://datatracker.ietf.org/doc/html/rfc6749#section-4.3".to_owned(),
            ),
        )
    }
}

/// A supplied identity that differs from the reference in any character is
/// rejected, as is a secret whose hash differs from the stored hash; and
/// every rejection carries one fixed error, so the shape of the answer
/// never tells wrong identity from wrong secret.
pub proof fn lemma_verify_rejects(id: Seq<char>, secret: Seq<char>, name: Seq<char>, pw: Seq<char>)
    ensures
        id != spec_client_id() ==> !spec_client_ok(id, secret),
        bcrypt_hash_of(secret) != bcrypt_hash_of(spec_client_secret()) ==> !spec_client_ok(
            id,
            secret,
        ),
        name != spec_username() ==> !spec_user_ok(name, pw),
        bcrypt_hash_of(pw) != bcrypt_hash_of(spec_password()) ==> !spec_user_ok(name, pw),
{
}

} // verus!
