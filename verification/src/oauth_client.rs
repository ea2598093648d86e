//! The client role: collects the user's credentials at `/authorize`,
//! exchanges them for a token, and serves `/service` by fetching the
//! protected resource with the token on the caller's behalf. Every
//! outbound round trip to the authorizer is returned to the caller as an
//! explicit step, performed outside, and fed back in; the decisions
//! themselves are pure.

use vstd::prelude::*;

use crate::kv::spec_lookup;
use crate::oauth_authorizer::spec_atr_of;
use crate::parser::{
    cookie_token, parse_error_response, parse_request, spec_atr_fields_ok, spec_cookie_token,
    spec_parse_request,
};
use crate::token::spec_atr_valid;
use crate::text::str_eq;
use crate::tools::{
    error_response, handle_404, html_headers, json_headers, one_field_body,
    response_with_error_content, response_with_error_content_from_error,
    response_with_resource_content, spec_error_block, spec_error_content_page,
    spec_error_page_from_error, spec_error_response, spec_field_or_empty, spec_html_headers,
    spec_line, spec_resource_page,
};
use crate::types::{
    ErrorCode, ErrorResponse, Headers, HttpMethod, HttpResponseType, ReqLineView, ReqView,
    Request, RequestLine, RespView, Response, ResponseLine, spec_error_code_from,
    spec_error_code_str,
};
use crate::body::Body;
use crate::html_elements::{html_authorization_prompt, spec_html_authorization_prompt};

verus! {

/// The work left after one authorizer round trip.
pub enum FollowUp {
    /// Turn the exchange answer into a cookie-setting redirect.
    TokenExchange,
    /// Turn the resource answer into a page, after asking for the expiry.
    ResourceRelay { token: String },
    /// Turn the expiry answer and the fetched content into the final page.
    ExpiryRelay { content: String, token: String },
}

/// What the client does next: answer the caller, or first make one more
/// round trip to the authorizer.
pub enum ClientStep {
    Reply(Response),
    CallAuthorizer { outbound: Request, follow_up: FollowUp },
}

/// The redirect that sends a caller without a token to the prompt.
pub open spec fn spec_redirect_authorize() -> RespView {
    RespView {
        line: spec_line(302, HttpResponseType::Redirection),
        headers: seq![("Location"@, "/authorize"@)],
        body: Seq::empty(),
    }
}

/// A 302 answer pointing at `/authorize`.
pub fn redirect_authorize() -> (r: Response)
    ensures
        r@ == spec_redirect_authorize(),
{
    let mut headers = Headers::new();
    headers.set("Location", "/authorize");
    proof {
        assert(headers@ =~= seq![("Location"@, "/authorize"@)]);
    }
    Response {
        response_line: ResponseLine {
            http_version: "HTTP/1.1".to_owned(),
            status_code: 302,
            response_type: HttpResponseType::Redirection,
        },
        headers,
        body: Body::new(),
    }
}

/// The outbound request that fetches the protected resource with a token.
pub open spec fn spec_resource_request(token: Seq<char>) -> ReqView {
    ReqView {
        line: ReqLineView { method: HttpMethod::Get, path: "/resource"@, version: "HTTP/1.1"@ },
        headers: seq![("Cookie"@, "access_token="@ + token)],
        body: seq![("access_token"@, token)],
    }
}

fn cookie_value(token: &str) -> (r: String)
    ensures
        r@ == "access_token="@ + token@,
{
    let mut s = "access_token=".to_owned();
    s.append(token);
    s
}

fn token_fetch_request(path: &str, token: &str) -> (r: Request)
    ensures
        r@ == (ReqView {
            line: ReqLineView { method: HttpMethod::Get, path: path@, version: "HTTP/1.1"@ },
            headers: seq![("Cookie"@, "access_token="@ + token@)],
            body: seq![("access_token"@, token@)],
        }),
{
    let mut headers = Headers::new();
    let cv = cookie_value(token);
    headers.set("Cookie", cv.as_str());
    proof {
        assert(headers@ =~= seq![("Cookie"@, "access_token="@ + token@)]);
    }
    Request {
        request_line: RequestLine {
            method: HttpMethod::Get,
            path: path.to_owned(),
            http_version: "HTTP/1.1".to_owned(),
        },
        headers,
        body: one_field_body("access_token", token.to_owned()),
    }
}

/// A request for the protected resource, the token in cookie and body.
pub fn resource_request(token: &str) -> (r: Request)
    ensures
        r@ == spec_resource_request(token@),
{
    token_fetch_request("/resource", token)
}

/// The outbound request that asks for a token's remaining lifetime.
pub open spec fn spec_expiry_request(token: Seq<char>) -> ReqView {
    ReqView {
        line: ReqLineView { method: HttpMethod::Get, path: "/expiry"@, version: "HTTP/1.1"@ },
        headers: seq![("Cookie"@, "access_token="@ + token)],
        body: seq![("access_token"@, token)],
    }
}

/// A request for a token's remaining lifetime.
pub fn expiry_request(token: &str) -> (r: Request)
    ensures
        r@ == spec_expiry_request(token@),
{
    token_fetch_request("/expiry", token)
}

/// The outbound exchange of the caller's credentials for a token: the
/// client's own identity and secret together with the user's name and
/// password, under the one supported grant type.
pub open spec fn spec_token_exchange_request(username: Seq<char>, password: Seq<char>) -> ReqView {
    ReqView {
        line: ReqLineView { method: HttpMethod::Get, path: "/token"@, version: "HTTP/1.1"@ },
        headers: seq![("Content-Type"@, "application/json"@)],
        body: seq![
            ("grant_type"@, "password"@),
            ("client_id"@, "client_id"@),
            ("client_secret"@, "client_secret"@),
            ("username"@, username),
            ("password"@, password),
        ],
    }
}

/// A credential exchange request for the token endpoint.
pub fn token_exchange_request(username: &str, password: &str) -> (r: Request)
    ensures
        r@ == spec_token_exchange_request(username@, password@),
{
    let mut ps: Vec<(String, String)> = Vec::new();
    ps.push(("grant_type".to_owned(), "password".to_owned()));
    ps.push(("client_id".to_owned(), "client_id".to_owned()));
    ps.push(("client_secret".to_owned(), "client_secret".to_owned()));
    ps.push(("username".to_owned(), username.to_owned()));
    ps.push(("password".to_owned(), password.to_owned()));
    let body = Body::from_pairs(ps);
    proof {
        assert(body@ =~= spec_token_exchange_request(username@, password@).body);
    }
    Request {
        request_line: RequestLine {
            method: HttpMethod::Get,
            path: "/token".to_owned(),
            http_version: "HTTP/1.1".to_owned(),
        },
        headers: json_headers(),
        body,
    }
}

/// The exchange request the client builds is exactly what the grant
/// engine accepts: its five fields are all present, the client identity
/// and secret are the reference ones, and — for non-empty credentials —
/// the grant succeeds precisely when the user's credentials check out.
pub proof fn lemma_exchange_request_accepted(u: Seq<char>, p: Seq<char>)
    ensures
        spec_atr_fields_ok(spec_token_exchange_request(u, p)),
        spec_atr_of(spec_token_exchange_request(u, p)).username == u,
        spec_atr_of(spec_token_exchange_request(u, p)).password == p,
        u.len() > 0 && p.len() > 0 ==> (spec_atr_valid(spec_atr_of(spec_token_exchange_request(u, p)))
            <==> crate::credential_checks::spec_user_ok(u, p)),
{
    let body = spec_token_exchange_request(u, p).body;
    reveal_strlit("grant_type");
    reveal_strlit("client_id");
    reveal_strlit("client_secret");
    reveal_strlit("username");
    reveal_strlit("password");
    assert("grant_type"@.len() == 10 && "client_id"@.len() == 9 && "client_secret"@.len() == 13
        && "username"@.len() == 8 && "password"@.len() == 8);
    assert("username"@[0] == 'u' && "password"@[0] == 'p');
    assert(body.len() == 5);
    let b1 = body.drop_first();
    let b2 = b1.drop_first();
    let b3 = b2.drop_first();
    let b4 = b3.drop_first();
    assert(body[0] == ("grant_type"@, "password"@));
    assert(b1[0] == ("client_id"@, "client_id"@));
    assert(b2[0] == ("client_secret"@, "client_secret"@));
    assert(b3[0] == ("username"@, u));
    assert(b4[0] == ("password"@, p));
    assert(spec_lookup(body, "grant_type"@) == Some("password"@));
    assert(spec_lookup(body, "client_id"@) == spec_lookup(b1, "client_id"@));
    assert(spec_lookup(b1, "client_id"@) == Some("client_id"@));
    assert(spec_lookup(body, "client_secret"@) == spec_lookup(b1, "client_secret"@));
    assert(spec_lookup(b1, "client_secret"@) == spec_lookup(b2, "client_secret"@));
    assert(spec_lookup(b2, "client_secret"@) == Some("client_secret"@));
    assert(spec_lookup(body, "username"@) == spec_lookup(b1, "username"@));
    assert(spec_lookup(b1, "username"@) == spec_lookup(b2, "username"@));
    assert(spec_lookup(b2, "username"@) == spec_lookup(b3, "username"@));
    assert(spec_lookup(b3, "username"@) == Some(u));
    assert(spec_lookup(body, "password"@) == spec_lookup(b1, "password"@));
    assert(spec_lookup(b1, "password"@) == spec_lookup(b2, "password"@));
    assert(spec_lookup(b2, "password"@) == spec_lookup(b3, "password"@));
    assert(spec_lookup(b3, "password"@) == spec_lookup(b4, "password"@));
    assert(spec_lookup(b4, "password"@) == Some(p));
    crate::types::lemma_grant_string_total(
        crate::types::GrantType::ResourceOwnerPasswordCredentials,
    );
    assert(crate::types::spec_grant_from("password"@) == Some(
        crate::types::GrantType::ResourceOwnerPasswordCredentials,
    ));
    assert(crate::credential_checks::spec_client_ok("client_id"@, "client_secret"@));
}

/// The service route: a caller without an `access_token` cookie is sent
/// to the prompt; one with a token has the resource fetched on their
/// behalf.
pub fn handle_service(request: &Request) -> (r: ClientStep)
    ensures
        spec_cookie_token(request@) is None ==> (r matches ClientStep::Reply(resp) && resp@
            == spec_redirect_authorize()),
        spec_cookie_token(request@) is Some ==> ({
            let t = spec_cookie_token(request@)->Some_0;
            &&& r matches ClientStep::CallAuthorizer { outbound, follow_up }
            &&& outbound@ == spec_resource_request(t)
            &&& follow_up matches FollowUp::ResourceRelay { token }
            &&& token@ == t
        }),
{
    match cookie_token(request) {
        Some(token) => {
            let outbound = resource_request(token.as_str());
            ClientStep::CallAuthorizer {
                outbound,
                follow_up: FollowUp::ResourceRelay { token },
            }
        },
        None => ClientStep::Reply(redirect_authorize()),
    }
}

/// The page that asks the user for credentials.
pub open spec fn spec_prompt_response() -> RespView {
    RespView {
        line: spec_line(200, HttpResponseType::Success),
        headers: spec_html_headers(),
        body: seq![
            ("html_content"@, spec_html_authorization_prompt(Seq::<char>::empty())),
        ],
    }
}

fn prompt_response() -> (r: Response)
    ensures
        r@ == spec_prompt_response(),
{
    proof {
        reveal_strlit("");
        assert(""@ =~= Seq::<char>::empty());
    }
    let page = html_authorization_prompt("");
    Response {
        response_line: ResponseLine {
            http_version: "HTTP/1.1".to_owned(),
            status_code: 200,
            response_type: HttpResponseType::Success,
        },
        headers: html_headers(),
        body: one_field_body("html_content", page),
    }
}

/// The authorize route: a GET shows the prompt; a POST takes `username`
/// and `password` from the body — either missing is a validation error —
/// and starts the exchange; other methods fall through to the fixed
/// missing-page answer.
pub fn handle_authorize(request: &Request) -> (r: Result<ClientStep, ErrorResponse>)
    ensures
        request@.line.method == HttpMethod::Get ==> (r matches Ok(step) && step
            matches ClientStep::Reply(resp) && resp@ == spec_prompt_response()),
        request@.line.method == HttpMethod::Post && spec_lookup(request@.body, "username"@)
            is None ==> (r matches Err(e) && e@ == spec_error_response(
            ErrorCode::InvalidRequest,
            "Missing username field"@,
            "https://datatracker.ietf.org/doc/html/rfc6749#section-4.3"@,
        )),
        request@.line.method == HttpMethod::Post && spec_lookup(request@.body, "username"@)
            is Some && spec_lookup(request@.body, "password"@) is None ==> (r matches Err(e)
            && e@ == spec_error_response(
            ErrorCode::InvalidRequest,
            "Missing password field"@,
            "https://datatracker.ietf.org/doc/html/rfc6749#section-4.3"@,
        )),
        request@.line.method == HttpMethod::Post && spec_lookup(request@.body, "username"@)
            is Some && spec_lookup(request@.body, "password"@) is Some ==> (r matches Ok(step)
            && step matches ClientStep::CallAuthorizer { outbound, follow_up } && outbound@
            == spec_token_exchange_request(
            spec_lookup(request@.body, "username"@)->Some_0,
            spec_lookup(request@.body, "password"@)->Some_0,
        ) && follow_up matches FollowUp::TokenExchange),
        (request@.line.method == HttpMethod::Put || request@.line.method == HttpMethod::Delete)
            ==> (r matches Ok(step) && step matches ClientStep::Reply(resp) && resp@
            == crate::tools::spec_handle_404()),
{
    match request.request_line.method {
        HttpMethod::Get => Ok(ClientStep::Reply(prompt_response())),
        HttpMethod::Post => {
            let username = match request.body.get("username") {
                Some(u) => u,
                None => {
                    return Err(
                        error_response(
                            ErrorCode::InvalidRequest,
                            "Missing username field".to_owned(),
                            "https://datatracker.ietf.org/doc/html/rfc6749#section-4.3".to_owned(),
                        ),
                    );
                },
            };
            let password = match request.body.get("password") {
                Some(p) => p,
                None => {
                    return Err(
                        error_response(
                            ErrorCode::InvalidRequest,
                            "Missing password field".to_owned(),
                            "https://datatracker.ietf.org/doc/html/rfc6749#section-4.3".to_owned(),
                        ),
                    );
                },
            };
            let outbound = token_exchange_request(username.as_str(), password.as_str());
            Ok(ClientStep::CallAuthorizer { outbound, follow_up: FollowUp::TokenExchange })
        },
        _ => Ok(ClientStep::Reply(handle_404(request))),
    }
}

/// The redirect that hands a fresh token back to the caller: a cookie for
/// this engine's own later use, a `Set-Cookie` for the browser, and the
/// way to `/service`.
pub open spec fn spec_token_redirect(token: Seq<char>) -> RespView {
    RespView {
        line: spec_line(302, HttpResponseType::Redirection),
        headers: seq![
            ("Location"@, "/service"@),
            ("Cookie"@, "access_token="@ + token),
            ("Set-Cookie"@, "access_token="@ + token + "; Path=/; Max-Age=3600"@),
        ],
        body: Seq::empty(),
    }
}

fn token_redirect(token: &str) -> (r: Response)
    ensures
        r@ == spec_token_redirect(token@),
{
    proof {
        reveal_strlit("Location");
        reveal_strlit("Cookie");
        reveal_strlit("Set-Cookie");
        assert("Location"@.len() == 8 && "Cookie"@.len() == 6 && "Set-Cookie"@.len() == 10);
    }
    let mut headers = Headers::new();
    headers.set("Location", "/service");
    let ghost h1 = seq![("Location"@, "/service"@)];
    proof {
        assert(headers@ =~= h1);
    }
    let cv = cookie_value(token);
    headers.set("Cookie", cv.as_str());
    let ghost h2 = h1 + seq![("Cookie"@, "access_token="@ + token@)];
    proof {
        crate::kv::lemma_lookup_absent(h1, "Cookie"@);
        crate::kv::lemma_set_pair_absent(h1, "Cookie"@, cv@);
        assert(headers@ =~= h2);
    }
    let mut setter = cookie_value(token);
    setter.append("; Path=/; Max-Age=3600");
    headers.set("Set-Cookie", setter.as_str());
    proof {
        crate::kv::lemma_lookup_absent(h2, "Set-Cookie"@);
        crate::kv::lemma_set_pair_absent(h2, "Set-Cookie"@, setter@);
        assert(headers@ =~= spec_token_redirect(token@).headers);
    }
    Response {
        response_line: ResponseLine {
            http_version: "HTTP/1.1".to_owned(),
            status_code: 302,
            response_type: HttpResponseType::Redirection,
        },
        headers,
        body: Body::new(),
    }
}

/// The lifetime text shown on the resource page; a missing field shows a
/// fixed notice instead.
pub open spec fn spec_expiry_text(body: crate::kv::PairsView) -> Seq<char> {
    match spec_lookup(body, "expires_in_s"@) {
        Some(v) => v,
        None => "Something went wrong while getting the expiry time"@,
    }
}

/// Reads the remaining lifetime out of an expiry answer.
pub fn expiry_from_response(response: &Response) -> (r: String)
    ensures
        r@ == spec_expiry_text(response@.body),
{
    match response.body.get("expires_in_s") {
        Some(v) => v,
        None => "Something went wrong while getting the expiry time".to_owned(),
    }
}

/// The page shown for a failed exchange: the authorizer's error code,
/// description and link relayed verbatim where the code is a known one,
/// else a fixed malformed-reply notice.
pub open spec fn spec_failed_exchange_page(body: crate::kv::PairsView) -> Seq<char> {
    if spec_lookup(body, "error"@) is Some && spec_error_code_from(
        spec_lookup(body, "error"@)->Some_0,
    ) is Some {
        spec_html_authorization_prompt(
            spec_error_block(
                spec_error_code_str(
                    spec_error_code_from(spec_lookup(body, "error"@)->Some_0)->Some_0,
                ),
                spec_field_or_empty(body, "error_description"@),
                spec_field_or_empty(body, "error_uri"@),
            ),
        )
    } else {
        spec_error_page_from_error(
            spec_error_response(
                ErrorCode::InvalidRequest,
                "Malformed error response"@,
                "https://datatracker.ietf.org/doc/html/rfc6749#section-5.2"@,
            ),
        )
    }
}

/// Carries an authorizer answer one step further: a granted token becomes
/// the cookie-setting redirect, a fetched resource leads to the expiry
/// question, an expiry answer completes the page, and anything else is
/// relayed as an error page.
pub fn client_next_step(follow_up: FollowUp, response: &Response) -> (r: Result<
    ClientStep,
    ErrorResponse,
>)
    ensures
        follow_up matches FollowUp::TokenExchange && spec_lookup(
            response@.body,
            "access_token"@,
        ) is Some ==> (r matches Ok(step) && step matches ClientStep::Reply(resp) && resp@
            == spec_token_redirect(spec_lookup(response@.body, "access_token"@)->Some_0)),
        follow_up matches FollowUp::TokenExchange && spec_lookup(
            response@.body,
            "access_token"@,
        ) is None ==> ({
            if spec_lookup(response@.body, "error"@) is Some && spec_error_code_from(
                spec_lookup(response@.body, "error"@)->Some_0,
            ) is Some {
                &&& r matches Err(e)
                &&& spec_error_code_from(spec_lookup(response@.body, "error"@)->Some_0) == Some(
                    e@.error,
                )
                &&& e@.error_description == spec_field_or_empty(
                    response@.body,
                    "error_description"@,
                )
                &&& e@.error_uri == spec_field_or_empty(response@.body, "error_uri"@)
                &&& e@.response == response@
            } else {
                r matches Err(e) && e@ == spec_error_response(
                    ErrorCode::InvalidRequest,
                    "Malformed error response"@,
                    "https://datatracker.ietf.org/doc/html/rfc6749#section-5.2"@,
                )
            }
        }),
        follow_up matches FollowUp::ResourceRelay { token } ==> (spec_lookup(
            response@.body,
            "resource_content"@,
        ) is Some ==> ({
            &&& r matches Ok(step)
            &&& step matches ClientStep::CallAuthorizer { outbound, follow_up: fu2 }
            &&& outbound@ == spec_expiry_request(token@)
            &&& fu2 matches FollowUp::ExpiryRelay { content, token: t2 }
            &&& content@ == spec_lookup(response@.body, "resource_content"@)->Some_0
            &&& t2@ == token@
        })),
        follow_up matches FollowUp::ResourceRelay { token } && spec_lookup(
            response@.body,
            "resource_content"@,
        ) is None ==> (r matches Ok(step) && step matches ClientStep::Reply(resp) && resp@
            == (RespView {
            line: spec_line(200, HttpResponseType::Success),
            headers: spec_html_headers(),
            body: seq![("html_content"@, spec_error_content_page(response@.body))],
        })),
        follow_up matches FollowUp::ExpiryRelay { content, token } ==> (r matches Ok(step)
            && step matches ClientStep::Reply(resp) && resp@ == (RespView {
            line: spec_line(200, HttpResponseType::Success),
            headers: spec_html_headers(),
            body: seq![
                (
                    "html_content"@,
                    spec_resource_page(content@, token@, spec_expiry_text(response@.body)),
                ),
            ],
        })),
{
    match follow_up {
        FollowUp::TokenExchange => {
            match response.body.get("access_token") {
                Some(token) => Ok(ClientStep::Reply(token_redirect(token.as_str()))),
                None => {
                    match parse_error_response(response) {
                        Ok(err) => Err(err),
                        Err(_) => Err(
                            error_response(
                                ErrorCode::InvalidRequest,
                                "Malformed error response".to_owned(),
                                "https://datatracker.ietf.org/doc/html/rfc6749#section-5.2".to_owned(),
                            ),
                        ),
                    }
                },
            }
        },
        FollowUp::ResourceRelay { token } => {
            match response.body.get("resource_content") {
                Some(content) => {
                    let outbound = expiry_request(token.as_str());
                    Ok(
                        ClientStep::CallAuthorizer {
                            outbound,
                            follow_up: FollowUp::ExpiryRelay { content, token },
                        },
                    )
                },
                None => Ok(ClientStep::Reply(response_with_error_content(response))),
            }
        },
        FollowUp::ExpiryRelay { content, token } => {
            let expiry = expiry_from_response(response);
            Ok(ClientStep::Reply(response_with_resource_content(&content, &token, &expiry)))
        },
    }
}

/// Serves one client connection, first phase: parses the request text and
/// routes it. A caller at `/service` with no token is answered at once
/// with the redirect to the prompt; requests that need the authorizer
/// come back as calls to perform.
pub fn client_connection_start(raw: &str) -> (r: ClientStep)
    ensures
        (spec_parse_request(raw@) matches Some(req) && req.line.path == "/service"@
            && spec_cookie_token(req) is None) ==> (r matches ClientStep::Reply(resp) && resp@
            == spec_redirect_authorize()),
        spec_parse_request(raw@) matches Some(req) ==> ({
            &&& req.line.path == "/service"@ && spec_cookie_token(req) is Some ==> ({
                let t = spec_cookie_token(req)->Some_0;
                &&& r matches ClientStep::CallAuthorizer { outbound, follow_up }
                &&& outbound@ == spec_resource_request(t)
                &&& follow_up matches FollowUp::ResourceRelay { token }
                &&& token@ == t
            })
            &&& req.line.path == "/authorize"@ && req.line.method == HttpMethod::Get ==> (
            r matches ClientStep::Reply(resp) && resp@ == spec_prompt_response())
            &&& req.line.path == "/authorize"@ && req.line.method == HttpMethod::Post ==> ({
                if spec_lookup(req.body, "username"@) is None {
                    r matches ClientStep::Reply(resp) && resp@ == (RespView {
                        line: spec_line(200, HttpResponseType::Success),
                        headers: spec_html_headers(),
                        body: seq![
                            (
                                "html_content"@,
                                spec_error_page_from_error(
                                    spec_error_response(
                                        ErrorCode::InvalidRequest,
                                        "Missing username field"@,
                                        "https://datatracker.ietf.org/doc/html/rfc6749#section-4.3"@,
                                    ),
                                ),
                            ),
                        ],
                    })
                } else if spec_lookup(req.body, "password"@) is None {
                    r matches ClientStep::Reply(resp) && resp@ == (RespView {
                        line: spec_line(200, HttpResponseType::Success),
                        headers: spec_html_headers(),
                        body: seq![
                            (
                                "html_content"@,
                                spec_error_page_from_error(
                                    spec_error_response(
                                        ErrorCode::InvalidRequest,
                                        "Missing password field"@,
                                        "https://datatracker.ietf.org/doc/html/rfc6749#section-4.3"@,
                                    ),
                                ),
                            ),
                        ],
                    })
                } else {
                    &&& r matches ClientStep::CallAuthorizer { outbound, follow_up }
                    &&& outbound@ == spec_token_exchange_request(
                        spec_lookup(req.body, "username"@)->Some_0,
                        spec_lookup(req.body, "password"@)->Some_0,
                    )
                    &&& follow_up matches FollowUp::TokenExchange
                }
            })
            &&& req.line.path == "/authorize"@ && (req.line.method == HttpMethod::Put
                || req.line.method == HttpMethod::Delete) ==> (r matches ClientStep::Reply(resp)
                && resp@ == crate::tools::spec_handle_404())
            &&& req.line.path != "/service"@ && req.line.path != "/authorize"@ ==> (r
                matches ClientStep::Reply(resp) && resp@ == crate::tools::spec_handle_404())
        }),
{
    proof {
        reveal_strlit("/service");
        reveal_strlit("/authorize");
        assert("/service"@.len() == 8 && "/authorize"@.len() == 10);
    }
    let request = match parse_request(raw) {
        Ok(req) => req,
        Err(_) => {
            let e = error_response(
                ErrorCode::InvalidRequest,
                "Malformed request".to_owned(),
                "https://datatracker.ietf.org/doc/html/rfc6749#section-3.2".to_owned(),
            );
            return ClientStep::Reply(response_with_error_content_from_error(&e));
        },
    };
    if str_eq(request.request_line.path.as_str(), "/service") {
        handle_service(&request)
    } else if str_eq(request.request_line.path.as_str(), "/authorize") {
        match handle_authorize(&request) {
            Ok(step) => step,
            Err(e) => ClientStep::Reply(response_with_error_content_from_error(&e)),
        }
    } else {
        ClientStep::Reply(handle_404(&request))
    }
}

/// Serves one client connection, later phases: reads the authorizer's
/// reply text and carries the pending work one step further. Reply text
/// that does not parse, and every error, becomes an explanatory page.
pub fn client_connection_next(follow_up: FollowUp, raw_response: &str) -> (r: ClientStep)
    ensures
        crate::parser::spec_parse_response(raw_response@) is None ==> (r
            matches ClientStep::Reply(resp) && resp@ == (RespView {
            line: spec_line(200, HttpResponseType::Success),
            headers: spec_html_headers(),
            body: seq![
                (
                    "html_content"@,
                    crate::tools::spec_error_page_from_error(
                        spec_error_response(
                            ErrorCode::InvalidRequest,
                            "Malformed authorizer response"@,
                            "https://datatracker.ietf.org/doc/html/rfc6749#section-5.2"@,
                        ),
                    ),
                ),
            ],
        })),
        crate::parser::spec_parse_response(raw_response@) matches Some(m) ==> ({
            &&& follow_up matches FollowUp::TokenExchange ==> (spec_lookup(
                m.body,
                "access_token"@,
            ) is Some ==> (r matches ClientStep::Reply(resp) && resp@ == spec_token_redirect(
                spec_lookup(m.body, "access_token"@)->Some_0,
            )))
            &&& follow_up matches FollowUp::TokenExchange ==> (spec_lookup(
                m.body,
                "access_token"@,
            ) is None ==> (r matches ClientStep::Reply(resp) && resp@ == (RespView {
                line: spec_line(200, HttpResponseType::Success),
                headers: spec_html_headers(),
                body: seq![("html_content"@, spec_failed_exchange_page(m.body))],
            })))
            &&& follow_up matches FollowUp::ResourceRelay { token } ==> ({
                if spec_lookup(m.body, "resource_content"@) is Some {
                    &&& r matches ClientStep::CallAuthorizer { outbound, follow_up: fu2 }
                    &&& outbound@ == spec_expiry_request(token@)
                    &&& fu2 matches FollowUp::ExpiryRelay { content, token: t2 }
                    &&& content@ == spec_lookup(m.body, "resource_content"@)->Some_0
                    &&& t2@ == token@
                } else {
                    r matches ClientStep::Reply(resp) && resp@ == (RespView {
                        line: spec_line(200, HttpResponseType::Success),
                        headers: spec_html_headers(),
                        body: seq![("html_content"@, spec_error_content_page(m.body))],
                    })
                }
            })
            &&& follow_up matches FollowUp::ExpiryRelay { content, token } ==> (r
                matches ClientStep::Reply(resp) && resp@ == (RespView {
                line: spec_line(200, HttpResponseType::Success),
                headers: spec_html_headers(),
                body: seq![
                    (
                        "html_content"@,
                        spec_resource_page(content@, token@, spec_expiry_text(m.body)),
                    ),
                ],
            }))
        }),
{
    let response = match crate::parser::parse_response(raw_response) {
        Ok(resp) => resp,
        Err(_) => {
            let e = error_response(
                ErrorCode::InvalidRequest,
                "Malformed authorizer response".to_owned(),
                "https://datatracker.ietf.org/doc/html/rfc6749#section-5.2".to_owned(),
            );
            return ClientStep::Reply(response_with_error_content_from_error(&e));
        },
    };
    match client_next_step(follow_up, &response) {
        Ok(step) => step,
        Err(e) => ClientStep::Reply(response_with_error_content_from_error(&e)),
    }
}

} // verus!
