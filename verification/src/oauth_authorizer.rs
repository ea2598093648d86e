//! The authorizer role: gates the protected resource on token validity,
//! exchanges credentials for tokens at `/token`, reports remaining
//! lifetimes at `/expiry`, and answers anything else with the fixed
//! missing-page reply.

use vstd::prelude::*;

use crate::parser::{
    cookie_token, parse_access_token_request, parse_request, spec_atr_fields_ok,
    spec_atr_parse_error, spec_cookie_token, spec_parse_request,
};
use crate::text::str_eq;
use crate::token::{
    access_token_response, expiry_response, spec_atr_error, spec_atr_valid, spec_expiry_body,
    spec_token_grant_body, validate_access_token_request,
};
use crate::token_base::{
    TOKEN_TTL_S, TokenBase, get_token_validity, spec_expiry_lookup, spec_set_expiry,
    spec_store_valid, spec_token_wf,
};
use crate::tools::{
    access_denied_response, error_response, handle_404, invalid_token_response,
    resource_response, spec_access_denied, spec_error_response, spec_handle_404,
    spec_invalid_token, spec_json_headers, spec_line, spec_resource_response,
};
use crate::types::{
    AtrView, ErrorCode, ErrorResponse, HttpResponseType, ReqView, Request, RespView, Response,
    spec_grant_from,
};

verus! {

/// The grant fields a request body carries, read off its lookups; only
/// meaningful where `spec_atr_fields_ok` holds.
pub open spec fn spec_atr_of(req: ReqView) -> AtrView {
    AtrView {
        request: req,
        grant_type: spec_grant_from(
            crate::kv::spec_lookup(req.body, "grant_type"@)->Some_0,
        )->Some_0,
        client_id: crate::kv::spec_lookup(req.body, "client_id"@)->Some_0,
        client_secret: crate::kv::spec_lookup(req.body, "client_secret"@)->Some_0,
        username: crate::kv::spec_lookup(req.body, "username"@)->Some_0,
        password: crate::kv::spec_lookup(req.body, "password"@)->Some_0,
    }
}

/// Gate on the protected resource: a request with no `access_token`
/// cookie is denied as missing a credential, one with an invalid token is
/// denied distinctly, and one with a valid token gets the resource.
pub fn handle_resource(base: &TokenBase, request: &Request, now_s: u64) -> (r: Result<
    Response,
    ErrorResponse,
>)
    ensures
        spec_cookie_token(request@) is None ==> (r matches Err(e) && e@ == spec_access_denied()),
        spec_cookie_token(request@) matches Some(t) && spec_store_valid(base@, t, now_s) ==> (
        r matches Ok(resp) && resp@ == spec_resource_response()),
        spec_cookie_token(request@) matches Some(t) && !spec_store_valid(base@, t, now_s) ==> (
        r matches Err(e) && e@ == spec_invalid_token()),
{
    match cookie_token(request) {
        Some(token) => {
            if get_token_validity(base, token.as_str(), now_s) {
                Ok(resource_response())
            } else {
                Err(invalid_token_response())
            }
        },
        None => Err(access_denied_response()),
    }
}

/// The token endpoint: extracts the grant fields, validates them, and on
/// success mints a token whose reported lifetime is computed from its
/// stored expiry. Every failure leaves the store untouched; the error
/// reply names the first failed check.
pub fn handle_token(base: &mut TokenBase, request: &Request, now_s: u64) -> (r: Result<
    Response,
    ErrorResponse,
>)
    requires
        now_s <= u64::MAX - TOKEN_TTL_S,
    ensures
        r is Err ==> final(base)@ == old(base)@,
        !spec_atr_fields_ok(request@) ==> (r matches Err(e) && ({
            let pe = spec_atr_parse_error(request@);
            e@ == spec_error_response(pe.0, pe.1, pe.2)
        })),
        spec_atr_fields_ok(request@) && !spec_atr_valid(spec_atr_of(request@)) ==> (r matches Err(
            e,
        ) && ({
            let ve = spec_atr_error(spec_atr_of(request@));
            e@ == spec_error_response(ve.0, ve.1, ve.2)
        })),
        spec_atr_fields_ok(request@) && spec_atr_valid(spec_atr_of(request@)) ==> (r matches Ok(
            resp,
        ) && resp@.line == spec_line(200, HttpResponseType::Success) && resp@.headers
            == spec_json_headers() && (exists|t: Seq<char>|
            {
                &&& #[trigger] spec_token_wf(t)
                &&& !spec_store_valid(old(base)@, t, now_s)
                &&& final(base)@ == spec_set_expiry(old(base)@, t, (now_s + TOKEN_TTL_S) as u64)
                &&& spec_store_valid(final(base)@, t, now_s)
                &&& resp@.body == spec_token_grant_body(t, TOKEN_TTL_S)
            })),
{
    match parse_access_token_request(request) {
        Ok(access_token_request) => {
            proof {
                assert(access_token_request@.request == request@);
            }
            match validate_access_token_request(&access_token_request) {
                Ok(()) => {
                    proof {
                        assert(access_token_request@ == spec_atr_of(request@));
                    }
                    Ok(access_token_response(base, now_s))
                },
                Err((e, d, u)) => {
                    proof {
                        assert(access_token_request@ == spec_atr_of(request@));
                    }
                    Err(error_response(e, d, u))
                },
            }
        },
        Err((e, d, u)) => Err(error_response(e, d, u)),
    }
}

/// The expiry endpoint: the same cookie gate as the resource, answering
/// with the remaining seconds of a valid token.
pub fn handle_expiry(base: &TokenBase, request: &Request, now_s: u64) -> (r: Result<
    Response,
    ErrorResponse,
>)
    ensures
        spec_cookie_token(request@) is None ==> (r matches Err(e) && e@ == spec_access_denied()),
        spec_cookie_token(request@) is Some ==> ({
            let t = spec_cookie_token(request@)->Some_0;
            if spec_store_valid(base@, t, now_s) {
                r matches Ok(resp) && resp@ == (RespView {
                    line: spec_line(200, HttpResponseType::Success),
                    headers: spec_json_headers(),
                    body: spec_expiry_body(
                        (spec_expiry_lookup(base@, t)->Some_0 - now_s) as u64,
                    ),
                })
            } else {
                r matches Err(e) && e@ == spec_invalid_token()
            }
        }),
{
    match cookie_token(request) {
        Some(token) => {
            if get_token_validity(base, token.as_str(), now_s) {
                Ok(expiry_response(base, token.as_str(), now_s))
            } else {
                Err(invalid_token_response())
            }
        },
        None => Err(access_denied_response()),
    }
}

/// Serves one authorizer connection: parses the request text, routes it
/// by path, and returns the reply text. Request text that does not parse
/// gets a best-effort error reply; only the token endpoint ever changes
/// the store.
pub fn handle_connection(base: &mut TokenBase, raw: &str, now_s: u64) -> (r: String)
    requires
        now_s <= u64::MAX - TOKEN_TTL_S,
    ensures
        (spec_parse_request(raw@) matches Some(req) && req.line.path == "/token"@)
            || final(base)@ == old(base)@,
        spec_parse_request(raw@) is None ==> r@ == crate::types::spec_err_text(
            spec_error_response(
                ErrorCode::InvalidRequest,
                "Malformed request"@,
                "https://datatracker.ietf.org/doc/html/rfc6749#section-3.2"@,
            ),
        ),
        spec_parse_request(raw@) matches Some(req) ==> (req.line.path != "/resource"@
            && req.line.path != "/token"@ && req.line.path != "/expiry"@ ==> r@
            == crate::types::spec_resp_text(spec_handle_404())),
        spec_parse_request(raw@) matches Some(req) ==> (req.line.path == "/resource"@ ==> ({
            match spec_cookie_token(req) {
                None => r@ == crate::types::spec_err_text(spec_access_denied()),
                Some(t) => if spec_store_valid(old(base)@, t, now_s) {
                    r@ == crate::types::spec_resp_text(spec_resource_response())
                } else {
                    r@ == crate::types::spec_err_text(spec_invalid_token())
                },
            }
        })),
        spec_parse_request(raw@) matches Some(req) ==> (req.line.path == "/token"@ ==> ({
            if !spec_atr_fields_ok(req) {
                let pe = spec_atr_parse_error(req);
                r@ == crate::types::spec_err_text(spec_error_response(pe.0, pe.1, pe.2))
            } else if !spec_atr_valid(spec_atr_of(req)) {
                let ve = spec_atr_error(spec_atr_of(req));
                r@ == crate::types::spec_err_text(spec_error_response(ve.0, ve.1, ve.2))
            } else {
                exists|t: Seq<char>|
                    {
                        &&& #[trigger] spec_token_wf(t)
                        &&& !spec_store_valid(old(base)@, t, now_s)
                        &&& final(base)@ == spec_set_expiry(
                            old(base)@,
                            t,
                            (now_s + TOKEN_TTL_S) as u64,
                        )
                        &&& spec_store_valid(final(base)@, t, now_s)
                        &&& r@ == crate::types::spec_resp_text(
                            (RespView {
                                line: spec_line(200, HttpResponseType::Success),
                                headers: spec_json_headers(),
                                body: spec_token_grant_body(t, TOKEN_TTL_S),
                            }),
                        )
                    }
            }
        })),
        spec_parse_request(raw@) matches Some(req) ==> (req.line.path == "/expiry"@ ==> ({
            match spec_cookie_token(req) {
                None => r@ == crate::types::spec_err_text(spec_access_denied()),
                Some(t) => if spec_store_valid(old(base)@, t, now_s) {
                    r@ == crate::types::spec_resp_text(
                        (RespView {
                            line: spec_line(200, HttpResponseType::Success),
                            headers: spec_json_headers(),
                            body: spec_expiry_body(
                                (spec_expiry_lookup(old(base)@, t)->Some_0 - now_s) as u64,
                            ),
                        }),
                    )
                } else {
                    r@ == crate::types::spec_err_text(spec_invalid_token())
                },
            }
        })),
{
    proof {
        reveal_strlit("/resource");
        reveal_strlit("/token");
        reveal_strlit("/expiry");
        assert("/resource"@.len() == 9 && "/token"@.len() == 6 && "/expiry"@.len() == 7);
    }
    let request = match parse_request(raw) {
        Ok(req) => req,
        Err(_) => {
            let e = error_response(
                ErrorCode::InvalidRequest,
                "Malformed request".to_owned(),
                "https://datatracker.ietf.org/doc/html/rfc6749#section-3.2".to_owned(),
            );
            return e.to_string();
        },
    };
    let result = if str_eq(request.request_line.path.as_str(), "/resource") {
        handle_resource(base, &request, now_s)
    } else if str_eq(request.request_line.path.as_str(), "/token") {
        handle_token(base, &request, now_s)
    } else if str_eq(request.request_line.path.as_str(), "/expiry") {
        handle_expiry(base, &request, now_s)
    } else {
        Ok(handle_404(&request))
    };
    match result {
        Ok(resp) => resp.to_string(),
        Err(err) => err.to_string(),
    }
}

} // verus!
