//! The grant rules: one-shot validation of an access token request, the
//! gate on token validity, and the answers that carry a token or its
//! remaining lifetime.

use vstd::prelude::*;

use crate::credential_checks::{
    spec_client_error, spec_client_ok, spec_user_error, spec_user_ok, verify_client, verify_user,
};
use crate::text::{spec_u64_dec, u64_to_dec};
use crate::token_base::{
    TOKEN_TTL_S, TokenBase, generate_token, lemma_expiry_after_set, spec_expiry_lookup,
    spec_set_expiry, spec_store_valid, spec_token_wf,
};
use crate::tools::{json_headers, spec_json_headers, spec_line};
use crate::types::{
    AccessTokenRequest, AtrView, ErrorCode, GrantType, HttpResponseType, RespView, Response,
    ResponseLine,
};
use crate::body::Body;
use crate::kv::PairsView;

verus! {

/// Whether an access token request passes every rule of the grant: no
/// mandatory field empty, the one supported grant type, and both
/// credential checks.
pub open spec fn spec_atr_valid(a: AtrView) -> bool {
    &&& a.client_id.len() > 0
    &&& a.client_secret.len() > 0
    &&& a.username.len() > 0
    &&& a.password.len() > 0
    &&& a.grant_type == GrantType::ResourceOwnerPasswordCredentials
    &&& spec_client_ok(a.client_id, a.client_secret)
    &&& spec_user_ok(a.username, a.password)
}

/// The first failure of the grant rules, in checking order: empty fields,
/// then the grant type, then the client, then the user.
pub open spec fn spec_atr_error(a: AtrView) -> (ErrorCode, Seq<char>, Seq<char>) {
    if a.client_id.len() == 0 {
        (
            ErrorCode::InvalidRequest,
            "client_id is empty"@,
            "https://datatracker.ietf.org/doc/html/rfc6749#section-4.3.2"@,
        )
    } else if a.client_secret.len() == 0 {
        (
            ErrorCode::InvalidRequest,
            "client_secret is empty"@,
            "https://datatracker.ietf.org/doc/html/rfc6749#section-4.3.2"@,
        )
    } else if a.username.len() == 0 {
        (
            ErrorCode::InvalidRequest,
            "username is empty"@,
            "https://datatracker.ietf.org/doc/html/rfc6749#section-4.3.2"@,
        )
    } else if a.password.len() == 0 {
        (
            ErrorCode::InvalidRequest,
            "password is empty"@,
            "https://datatracker.ietf.org/doc/html/rfc6749#section-4.3.2"@,
        )
    } else if a.grant_type != GrantType::ResourceOwnerPasswordCredentials {
        (
            ErrorCode::UnsupportedGrantType,
            "Only the resource owner password credentials grant is supported"@,
            "https://datatracker.ietf.org/doc/html/rfc6749#section-4.3"@,
        )
    } else if !spec_client_ok(a.client_id, a.client_secret) {
        spec_client_error()
    } else {
        spec_user_error()
    }
}

/// Validates an access token request against the grant rules: empty
/// fields first, then the grant type, then client and user credentials in
/// that order, first failure wins.
pub fn validate_access_token_request(access_token_request: &AccessTokenRequest) -> (r: Result<
    (),
    (ErrorCode, String, String),
>)
    ensures
        r is Ok <==> spec_atr_valid(access_token_request@),
        r matches Err(e) ==> (e.0, e.1@, e.2@) == spec_atr_error(access_token_request@),
{
    if access_token_request.client_id.as_str().is_empty() {
        return Err(
            (
                ErrorCode::InvalidRequest,
                "client_id is empty".to_owned(),
                "https://datatracker.ietf.org/doc/html/rfc6749#section-4.3.2".to_owned(),
            ),
        );
    }
    if access_token_request.client_secret.as_str().is_empty() {
        return Err(
            (
                ErrorCode::InvalidRequest,
                "client_secret is empty".to_owned(),
                "https://datatracker.ietf.org/doc/html/rfc6749#section-4.3.2".to_owned(),
            ),
        );
    }
    if access_token_request.username.as_str().is_empty() {
        return Err(
            (
                ErrorCode::InvalidRequest,
                "username is empty".to_owned(),
                "https://datatracker.ietf.org/doc/html/rfc6749#section-4.3.2".to_owned(),
            ),
        );
    }
    if access_token_request.password.as_str().is_empty() {
        return Err(
            (
                ErrorCode::InvalidRequest,
                "password is empty".to_owned(),
                "https://datatracker.ietf.org/doc/html/rfc6749#section-4.3.2".to_owned(),
            ),
        );
    }
    if !(access_token_request.grant_type == GrantType::ResourceOwnerPasswordCredentials) {
        return Err(
            (
                ErrorCode::UnsupportedGrantType,
                "Only the resource owner password credentials grant is supported".to_owned(),
                "https://datatracker.ietf.org/doc/html/rfc6749#section-4.3".to_owned(),
            ),
        );
    }
    match verify_client(
        access_token_request.client_id.as_str(),
        access_token_request.client_secret.as_str(),
    ) {
        Ok(()) => verify_user(
            access_token_request.username.as_str(),
            access_token_request.password.as_str(),
        ),
        Err(e) => Err(e),
    }
}

/// Whether `token` is valid in `base` at time `now_s`.
pub fn validate_token(base: &TokenBase, token: &str, now_s: u64) -> (r: bool)
    ensures
        r == spec_store_valid(base@, token@, now_s),
{
    base.is_token_valid(token, now_s)
}

/// The answer that reports a valid token's remaining lifetime.
pub open spec fn spec_expiry_body(remaining_s: u64) -> PairsView {
    seq![("expires_in_s"@, spec_u64_dec(remaining_s as int))]
}

/// A 200 answer reporting how many seconds a valid token has left.
pub fn expiry_response(base: &TokenBase, token: &str, now_s: u64) -> (r: Response)
    requires
        spec_store_valid(base@, token@, now_s),
    ensures
        r@ == (RespView {
            line: spec_line(200, HttpResponseType::Success),
            headers: spec_json_headers(),
            body: spec_expiry_body(
                (spec_expiry_lookup(base@, token@)->Some_0 - now_s) as u64,
            ),
        }),
{
    let expiry = match base.get_expiry(token) {
        Some(e) => e,
        None => {
            proof {
                assert(false);
            }
            0
        },
    };
    let remaining = expiry - now_s;
    let body = crate::tools::one_field_body("expires_in_s", u64_to_dec(remaining));
    Response {
        response_line: ResponseLine {
            http_version: "HTTP/1.1".to_owned(),
            status_code: 200,
            response_type: HttpResponseType::Success,
        },
        headers: json_headers(),
        body,
    }
}

/// The body of a granted token: the token, its type, and the seconds it
/// will live.
pub open spec fn spec_token_grant_body(t: Seq<char>, remaining_s: u64) -> PairsView {
    seq![
        ("access_token"@, t),
        ("token_type"@, "Bearer"@),
        ("expires_in_s"@, spec_u64_dec(remaining_s as int)),
    ]
}

/// Generates a token and wraps it in a 200 answer whose lifetime field is
/// computed from the stored expiry, not hardcoded.
pub fn access_token_response(base: &mut TokenBase, now_s: u64) -> (r: Response)
    requires
        now_s <= u64::MAX - TOKEN_TTL_S,
    ensures
        r@.line == spec_line(200, HttpResponseType::Success),
        r@.headers == spec_json_headers(),
        exists|t: Seq<char>|
            {
                &&& #[trigger] spec_token_wf(t)
                &&& !spec_store_valid(old(base)@, t, now_s)
                &&& final(base)@ == spec_set_expiry(old(base)@, t, (now_s + TOKEN_TTL_S) as u64)
                &&& spec_store_valid(final(base)@, t, now_s)
                &&& r@.body == spec_token_grant_body(t, TOKEN_TTL_S)
            },
{
    let token = generate_token(base, now_s);
    proof {
        lemma_expiry_after_set(old(base)@, token@, (now_s + TOKEN_TTL_S) as u64, token@);
    }
    let expiry = match base.get_expiry(token.as_str()) {
        Some(e) => e,
        None => {
            proof {
                assert(false);
            }
            0
        },
    };
    let remaining = expiry - now_s;
    let mut ps: Vec<(String, String)> = Vec::new();
    ps.push(("access_token".to_owned(), token.clone()));
    ps.push(("token_type".to_owned(), "Bearer".to_owned()));
    ps.push(("expires_in_s".to_owned(), u64_to_dec(remaining)));
    let body = Body::from_pairs(ps);
    proof {
        assert(body@ =~= spec_token_grant_body(token@, TOKEN_TTL_S));
    }
    let resp = Response {
        response_line: ResponseLine {
            http_version: "HTTP/1.1".to_owned(),
            status_code: 200,
            response_type: HttpResponseType::Success,
        },
        headers: json_headers(),
        body,
    };
    proof {
        assert(spec_token_wf(token@) && !spec_store_valid(old(base)@, token@, now_s) && base@
            == spec_set_expiry(old(base)@, token@, (now_s + TOKEN_TTL_S) as u64)
            && spec_store_valid(base@, token@, now_s) && resp@.body == spec_token_grant_body(
            token@,
            TOKEN_TTL_S,
        ));
    }
    resp
}

} // verus!
