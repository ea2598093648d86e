//! Reading wire text back into messages: request and response lines, header
//! blocks, bodies bounded by `Content-Length`, and cookie headers.

use vstd::prelude::*;

use crate::body::{
    Body, body_decode, lemma_body_round_trip, spec_body_decode, spec_body_sniff_safe,
    spec_json_body,
};
use crate::kv::{
    PairsView, kv_get, lemma_fold_set_unique, spec_fold_set, spec_keys_unique, spec_lookup,
    spec_set_pair,
};
use crate::text::{
    chars_to_string, copy_range, find_char, is_space_char, lemma_dec_round, lemma_find_first_at,
    lemma_find_skip, lemma_spec_find, lemma_tokens_nonempty, lemma_tokens_space,
    lemma_tokens_step, lemma_trim_of_trimmed, lemma_trim_wrapped, parse_u64, spec_find,
    spec_has_char, spec_parse_u64, spec_tokens, spec_trim, spec_u64_dec, split_ws, to_char_vec,
    trim,
};
use crate::types::{
    AccessTokenRequest, AccessTokenResponse, ErrorCode, ErrorResponse, GrantType, Headers,
    HttpMethod, HttpResponseType, ReqLineView, ReqView, Request, RequestLine, RespLineView,
    RespView, Response, ResponseLine, TokenType, lemma_class_str_clean, lemma_method_str_clean,
    lemma_method_string_total, spec_class_of, spec_class_str, spec_error_code_from,
    spec_grant_from, spec_header_lines, spec_method_from, spec_method_str,
    spec_response_body_text, spec_serialize_request, spec_serialize_response,
    spec_token_type_from,
};

verus! {

/// Why wire text failed to parse: a broken first line, or a body that is
/// neither a JSON object of strings nor form data.
#[derive(Debug, Clone, Copy, PartialEq, Eq, Structural)]
pub enum ParseError {
    MalformedLine,
    BodyDecodeError,
}

// ------------------------------------------------------------------
// Specification
// ------------------------------------------------------------------
/// Reads header lines into `acc` until a line of at most two characters;
/// yields the headers and the remaining text. A line without a colon is
/// skipped; names and values are trimmed; a repeated name keeps its first
/// position and takes the last value.
pub open spec fn spec_parse_headers(s: Seq<char>, acc: PairsView) -> (PairsView, Seq<char>)
    decreases s.len(),
    via spec_parse_headers_dec
{
    let nl = spec_find(s, '\n', 0);
    let le = if nl < s.len() {
        nl + 1
    } else {
        s.len() as int
    };
    if le <= 2 {
        (acc, s.skip(le))
    } else {
        let content = s.subrange(0, nl);
        let colon = spec_find(content, ':', 0);
        let acc2 = if colon < content.len() {
            spec_set_pair(
                acc,
                spec_trim(content.subrange(0, colon)),
                spec_trim(content.subrange(colon + 1, content.len() as int)),
            )
        } else {
            acc
        };
        spec_parse_headers(s.skip(le), acc2)
    }
}

#[via_fn]
proof fn spec_parse_headers_dec(s: Seq<char>, acc: PairsView) {
    lemma_spec_find(s, '\n', 0);
}

/// The body text that the headers allow: at most `Content-Length`
/// characters of the remainder when that header is present and numeric.
pub open spec fn spec_body_raw(hs: PairsView, rest: Seq<char>) -> Seq<char> {
    match spec_lookup(hs, "Content-Length"@) {
        Some(cl) => match spec_parse_u64(cl) {
            Some(n) => if n <= rest.len() {
                rest.take(n as int)
            } else {
                rest
            },
            None => rest,
        },
        None => rest,
    }
}

/// Whether the first line of `s` can head a request: at least three
/// whitespace-separated tokens, the first naming a method.
pub open spec fn spec_request_line_ok(s: Seq<char>) -> bool {
    let line = s.subrange(0, spec_find(s, '\n', 0));
    let toks = spec_tokens(line);
    toks.len() >= 3 && spec_method_from(toks[0]) is Some
}

/// What request text denotes.
pub open spec fn spec_parse_request(s: Seq<char>) -> Option<ReqView> {
    let nl = spec_find(s, '\n', 0);
    let line = s.subrange(0, nl);
    let next = if nl < s.len() {
        nl + 1
    } else {
        s.len() as int
    };
    let toks = spec_tokens(line);
    if toks.len() < 3 {
        None
    } else {
        match spec_method_from(toks[0]) {
            None => None,
            Some(m) => {
                let (hs, rest) = spec_parse_headers(s.skip(next), Seq::empty());
                match spec_body_decode(spec_body_raw(hs, rest)) {
                    Some(b) => Some(
                        ReqView {
                            line: ReqLineView { method: m, path: toks[1], version: toks[2] },
                            headers: hs,
                            body: b,
                        },
                    ),
                    None => None,
                }
            },
        }
    }
}

/// Whether the first line of `s` can head a response: at least three
/// tokens, the second a numeral whose value is a known status code.
pub open spec fn spec_response_line_ok(s: Seq<char>) -> bool {
    let line = s.subrange(0, spec_find(s, '\n', 0));
    let toks = spec_tokens(line);
    toks.len() >= 3 && spec_parse_u64(toks[1]) is Some && spec_class_of(
        spec_parse_u64(toks[1])->Some_0,
    ) is Some
}

/// What response text denotes. The response class is derived from the
/// status code; the reason phrase is ignored.
pub open spec fn spec_parse_response(s: Seq<char>) -> Option<RespView> {
    let nl = spec_find(s, '\n', 0);
    let line = s.subrange(0, nl);
    let next = if nl < s.len() {
        nl + 1
    } else {
        s.len() as int
    };
    let toks = spec_tokens(line);
    if toks.len() < 3 {
        None
    } else {
        match spec_parse_u64(toks[1]) {
            None => None,
            Some(code) => match spec_class_of(code) {
                None => None,
                Some(cls) => {
                    let (hs, rest) = spec_parse_headers(s.skip(next), Seq::empty());
                    match spec_body_decode(spec_body_raw(hs, rest)) {
                        Some(b) => Some(
                            RespView {
                                line: RespLineView { version: toks[0], code, class: cls },
                                headers: hs,
                                body: b,
                            },
                        ),
                        None => None,
                    }
                },
            },
        }
    }
}

// ------------------------------------------------------------------
// Execution
// ------------------------------------------------------------------
/// Reads header lines starting at `pos`; returns the headers and the index
/// where the body text begins.
fn parse_headers_at(v: &Vec<char>, pos: usize) -> (r: (Headers, usize))
    requires
        pos <= v@.len(),
    ensures
        ({
            let (hs, rest) = spec_parse_headers(v@.skip(pos as int), Seq::empty());
            &&& r.0@ == hs
            &&& pos <= r.1 <= v@.len()
            &&& v@.skip(r.1 as int) == rest
        }),
{
    let mut headers = Headers::new();
    let mut i: usize = pos;
    loop
        invariant
            pos <= i <= v@.len(),
            spec_parse_headers(v@.skip(pos as int), Seq::empty()) == spec_parse_headers(
                v@.skip(i as int),
                headers@,
            ),
        decreases v@.len() - i,
    {
        let ghost si = v@.skip(i as int);
        proof {
            lemma_spec_find(v@, '\n', i as int);
            lemma_find_skip(v@, '\n', i as int);
        }
        let nl = find_char(v, '\n', i);
        let le = if nl < v.len() {
            nl + 1
        } else {
            v.len()
        };
        proof {
            assert(le - i == (if spec_find(si, '\n', 0) < si.len() {
                spec_find(si, '\n', 0) + 1
            } else {
                si.len() as int
            }));
        }
        if le - i <= 2 {
            proof {
                assert(si.skip(le - i) =~= v@.skip(le as int));
            }
            return (headers, le);
        }
        let content = copy_range(v, i, nl);
        proof {
            assert(content@ =~= si.subrange(0, spec_find(si, '\n', 0)));
            lemma_spec_find(content@, ':', 0);
        }
        let colon = find_char(&content, ':', 0);
        if colon < content.len() {
            let kpart = copy_range(&content, 0, colon);
            let vpart = copy_range(&content, colon + 1, content.len());
            let kt = trim(&kpart);
            let vt = trim(&vpart);
            let ks = chars_to_string(&kt);
            let vs = chars_to_string(&vt);
            headers.set(ks.as_str(), vs.as_str());
        }
        proof {
            assert(si.skip(le - i) =~= v@.skip(le as int));
        }
        i = le;
    }
}

/// Cuts the body text down to `Content-Length` characters when that header
/// is present, numeric, and within the remainder.
fn body_raw_of(headers: &Headers, v: &Vec<char>, pos: usize) -> (r: Vec<char>)
    requires
        pos <= v@.len(),
    ensures
        r@ == spec_body_raw(headers@, v@.skip(pos as int)),
{
    let ghost rest = v@.skip(pos as int);
    match headers.get("Content-Length") {
        Some(cl) => {
            let clv = to_char_vec(cl.as_str());
            match parse_u64(&clv) {
                Some(n) => {
                    if n <= (v.len() - pos) as u64 {
                        let r = copy_range(v, pos, pos + (n as usize));
                        proof {
                            assert(r@ =~= rest.take(n as int));
                        }
                        r
                    } else {
                        copy_range(v, pos, v.len())
                    }
                },
                None => copy_range(v, pos, v.len()),
            }
        },
        None => copy_range(v, pos, v.len()),
    }
}

/// Reads request text. A first line without three tokens or with an
/// unknown method is `MalformedLine`; an undecodable body is
/// `BodyDecodeError`.
pub fn parse_request(raw: &str) -> (r: Result<Request, ParseError>)
    ensures
        r matches Ok(req) ==> spec_parse_request(raw@) == Some(req@),
        r is Err ==> spec_parse_request(raw@) is None,
        r == Err::<Request, ParseError>(ParseError::MalformedLine) <==> !spec_request_line_ok(
            raw@,
        ),
{
    let v = to_char_vec(raw);
    proof {
        lemma_spec_find(v@, '\n', 0);
    }
    let nl = find_char(&v, '\n', 0);
    let line = copy_range(&v, 0, nl);
    let next = if nl < v.len() {
        nl + 1
    } else {
        v.len()
    };
    let toks = split_ws(&line);
    if toks.len() < 3 {
        return Err(ParseError::MalformedLine);
    }
    let ghost stoks = spec_tokens(line@);
    proof {
        assert(stoks[0] == toks@[0].deep_view());
        assert(stoks[1] == toks@[1].deep_view());
        assert(stoks[2] == toks@[2].deep_view());
        assert(toks@[0].deep_view() =~= toks@[0]@);
        assert(toks@[1].deep_view() =~= toks@[1]@);
        assert(toks@[2].deep_view() =~= toks@[2]@);
    }
    let m0 = chars_to_string(&toks[0]);
    let method = match HttpMethod::from_str(m0.as_str()) {
        Ok(m) => m,
        Err(_) => {
            return Err(ParseError::MalformedLine);
        },
    };
    let path = chars_to_string(&toks[1]);
    let version = chars_to_string(&toks[2]);
    let (headers, bodypos) = parse_headers_at(&v, next);
    let braw = body_raw_of(&headers, &v, bodypos);
    match body_decode(&braw) {
        Some(body) => {
            let req = Request {
                request_line: RequestLine { method, path, http_version: version },
                headers,
                body,
            };
            Ok(req)
        },
        None => Err(ParseError::BodyDecodeError),
    }
}

/// Reads response text. A first line without three tokens or without a
/// known status code is `MalformedLine`; an undecodable body is
/// `BodyDecodeError`.
pub fn parse_response(raw: &str) -> (r: Result<Response, ParseError>)
    ensures
        r matches Ok(resp) ==> spec_parse_response(raw@) == Some(resp@),
        r is Err ==> spec_parse_response(raw@) is None,
        r == Err::<Response, ParseError>(ParseError::MalformedLine) <==> !spec_response_line_ok(
            raw@,
        ),
{
    let v = to_char_vec(raw);
    proof {
        lemma_spec_find(v@, '\n', 0);
    }
    let nl = find_char(&v, '\n', 0);
    let line = copy_range(&v, 0, nl);
    let next = if nl < v.len() {
        nl + 1
    } else {
        v.len()
    };
    let toks = split_ws(&line);
    if toks.len() < 3 {
        return Err(ParseError::MalformedLine);
    }
    let ghost stoks = spec_tokens(line@);
    proof {
        assert(stoks[0] == toks@[0].deep_view());
        assert(stoks[1] == toks@[1].deep_view());
        assert(toks@[0].deep_view() =~= toks@[0]@);
        assert(toks@[1].deep_view() =~= toks@[1]@);
    }
    let code = match parse_u64(&toks[1]) {
        Some(c) => c,
        None => {
            return Err(ParseError::MalformedLine);
        },
    };
    let cls = match HttpResponseType::from_status(code) {
        Ok(c) => c,
        Err(_) => {
            return Err(ParseError::MalformedLine);
        },
    };
    let version = chars_to_string(&toks[0]);
    let (headers, bodypos) = parse_headers_at(&v, next);
    let braw = body_raw_of(&headers, &v, bodypos);
    match body_decode(&braw) {
        Some(body) => {
            let resp = Response {
                response_line: ResponseLine {
                    http_version: version,
                    status_code: code,
                    response_type: cls,
                },
                headers,
                body,
            };
            Ok(resp)
        },
        None => Err(ParseError::BodyDecodeError),
    }
}

// ------------------------------------------------------------------
// Cookies
// ------------------------------------------------------------------
/// The cookies of a `Cookie` header: pieces split on `;` and trimmed, each
/// split at its first `=`; a piece without `=` is skipped. Pairs are kept
/// in order, so a first-match lookup gives the first occurrence of a key.
pub open spec fn spec_cookies(s: Seq<char>) -> PairsView
    decreases s.len(),
    via spec_cookies_dec
{
    if s.len() == 0 {
        Seq::empty()
    } else {
        let semi = spec_find(s, ';', 0);
        let piece = spec_trim(s.subrange(0, semi));
        let rest = if semi < s.len() {
            spec_cookies(s.skip(semi + 1))
        } else {
            Seq::empty()
        };
        let eq = spec_find(piece, '=', 0);
        if eq < piece.len() {
            seq![(piece.subrange(0, eq), piece.subrange(eq + 1, piece.len() as int))] + rest
        } else {
            rest
        }
    }
}

#[via_fn]
proof fn spec_cookies_dec(s: Seq<char>) {
    if s.len() > 0 {
        lemma_spec_find(s, ';', 0);
    }
}

/// Splits a `Cookie` header into its cookies, in order.
pub fn parse_cookie_header(header: &str) -> (r: Vec<(String, String)>)
    ensures
        r.deep_view() == spec_cookies(header@),
{
    let v = to_char_vec(header);
    let mut acc: Vec<(String, String)> = Vec::new();
    let mut i: usize = 0;
    proof {
        assert(v@.skip(0) =~= v@);
        assert(acc.deep_view() + spec_cookies(v@) =~= spec_cookies(v@));
    }
    while i < v.len()
        invariant
            i <= v@.len(),
            spec_cookies(v@) == acc.deep_view() + spec_cookies(v@.skip(i as int)),
        decreases v@.len() - i,
    {
        let ghost si = v@.skip(i as int);
        proof {
            lemma_spec_find(v@, ';', i as int);
            lemma_find_skip(v@, ';', i as int);
        }
        let semi = find_char(&v, ';', i);
        let piece_raw = copy_range(&v, i, semi);
        let piece = trim(&piece_raw);
        proof {
            assert(piece_raw@ =~= si.subrange(0, semi - i));
            lemma_spec_find(piece@, '=', 0);
        }
        let eq = find_char(&piece, '=', 0);
        let ghost prevacc = acc.deep_view();
        if eq < piece.len() {
            let kc = copy_range(&piece, 0, eq);
            let vc = copy_range(&piece, eq + 1, piece.len());
            let ghost pair = (kc@, vc@);
            acc.push((chars_to_string(&kc), chars_to_string(&vc)));
            proof {
                assert forall|j: int| 0 <= j < acc@.len() implies acc.deep_view()[j]
                    == prevacc.push(pair)[j] by {
                    assert(acc.deep_view()[j] == (acc@[j].0@, acc@[j].1@));
                }
                assert(acc.deep_view() =~= prevacc.push(pair));
            }
        }
        if semi < v.len() {
            proof {
                assert(si.skip(semi - i + 1) =~= v@.skip(semi as int + 1));
                let rest = spec_cookies(v@.skip(semi as int + 1));
                if spec_find(piece@, '=', 0) < piece@.len() {
                    assert(spec_cookies(si) == seq![
                        (
                            piece@.subrange(0, spec_find(piece@, '=', 0)),
                            piece@.subrange(
                                spec_find(piece@, '=', 0) + 1,
                                piece@.len() as int,
                            ),
                        ),
                    ] + rest);
                    assert(prevacc + spec_cookies(si) =~= acc.deep_view() + rest);
                } else {
                    assert(spec_cookies(si) == rest);
                }
            }
            i = semi + 1;
        } else {
            proof {
                let rest = Seq::<(Seq<char>, Seq<char>)>::empty();
                if spec_find(piece@, '=', 0) < piece@.len() {
                    assert(prevacc + spec_cookies(si) =~= acc.deep_view());
                } else {
                    assert(prevacc + spec_cookies(si) =~= prevacc);
                }
                assert(v@.skip(v@.len() as int).len() == 0);
            }
            i = v.len();
        }
    }
    proof {
        assert(v@.skip(v@.len() as int).len() == 0);
    }
    acc
}

// ------------------------------------------------------------------
// Field extraction from parsed messages
// ------------------------------------------------------------------
/// The token carried in a request's cookies, if any: the first
/// `access_token` cookie of the `Cookie` header.
pub open spec fn spec_cookie_token(req: ReqView) -> Option<Seq<char>> {
    match spec_lookup(req.headers, "Cookie"@) {
        Some(h) => spec_lookup(spec_cookies(h), "access_token"@),
        None => None,
    }
}

/// Extracts the access token from the request's cookies.
pub fn cookie_token(request: &Request) -> (r: Option<String>)
    ensures
        r matches Some(t) ==> spec_cookie_token(request@) == Some(t@),
        r is None ==> spec_cookie_token(request@) is None,
{
    match request.headers.get("Cookie") {
        Some(h) => {
            let cookies = parse_cookie_header(h.as_str());
            kv_get(&cookies, "access_token")
        },
        None => None,
    }
}

/// Whether a request body carries all five grant fields, the grant type
/// spelled as a known name.
pub open spec fn spec_atr_fields_ok(req: ReqView) -> bool {
    &&& spec_lookup(req.body, "grant_type"@) is Some
    &&& spec_grant_from(spec_lookup(req.body, "grant_type"@)->Some_0) is Some
    &&& spec_lookup(req.body, "client_id"@) is Some
    &&& spec_lookup(req.body, "client_secret"@) is Some
    &&& spec_lookup(req.body, "username"@) is Some
    &&& spec_lookup(req.body, "password"@) is Some
}

/// The first extraction failure: a missing field — whichever of the five,
/// checked in order — is always a validation error, before anything is
/// made of the grant name; only with all five present is an unknown grant
/// name reported as unsupported.
pub open spec fn spec_atr_parse_error(req: ReqView) -> (ErrorCode, Seq<char>, Seq<char>) {
    if spec_lookup(req.body, "grant_type"@) is None {
        (
            ErrorCode::InvalidRequest,
            "Missing grant_type field"@,
            "https://datatracker.ietf.org/doc/html/rfc6749#section-4"@,
        )
    } else if spec_lookup(req.body, "client_id"@) is None {
        (
            ErrorCode::InvalidRequest,
            "Missing client_id field"@,
            "https://datatracker.ietf.org/doc/html/rfc6749#section-4.1.1"@,
        )
    } else if spec_lookup(req.body, "client_secret"@) is None {
        (
            ErrorCode::InvalidRequest,
            "Missing client_secret field"@,
            "https://datatracker.ietf.org/doc/html/rfc6749#section-4.1.1"@,
        )
    } else if spec_lookup(req.body, "username"@) is None {
        (
            ErrorCode::InvalidRequest,
            "Missing username field"@,
            "https://datatracker.ietf.org/doc/html/rfc6749#section-4.3"@,
        )
    } else if spec_lookup(req.body, "password"@) is None {
        (
            ErrorCode::InvalidRequest,
            "Missing password field"@,
            "https://datatracker.ietf.org/doc/html/rfc6749#section-4.3"@,
        )
    } else {
        (
            ErrorCode::UnsupportedGrantType,
            "Unknown grant_type"@,
            "https://datatracker.ietf.org/doc/html/rfc6749#section-4"@,
        )
    }
}

/// Pulls the five grant fields out of a request body. Any missing field is
/// a validation error, never a silently defaulted value, and it is found
/// before the grant name is examined at all.
pub fn parse_access_token_request(request: &Request) -> (r: Result<
    AccessTokenRequest,
    (ErrorCode, String, String),
>)
    ensures
        r is Ok <==> spec_atr_fields_ok(request@),
        r matches Ok(a) ==> a@.request == request@ && spec_grant_from(
            spec_lookup(request@.body, "grant_type"@)->Some_0,
        ) == Some(a@.grant_type) && spec_lookup(request@.body, "client_id"@) == Some(a@.client_id)
            && spec_lookup(request@.body, "client_secret"@) == Some(a@.client_secret)
            && spec_lookup(request@.body, "username"@) == Some(a@.username) && spec_lookup(
            request@.body,
            "password"@,
        ) == Some(a@.password),
        r matches Err(e) ==> (e.0, e.1@, e.2@) == spec_atr_parse_error(request@),
{
    let grant_type_str = match request.body.get("grant_type") {
        Some(s) => s,
        None => {
            return Err(
                (
                    ErrorCode::InvalidRequest,
                    "Missing grant_type field".to_owned(),
                    "https://datatracker.ietf.org/doc/html/rfc6749#section-4".to_owned(),
                ),
            );
        },
    };
    let client_id = match request.body.get("client_id") {
        Some(s) => s,
        None => {
            return Err(
                (
                    ErrorCode::InvalidRequest,
                    "Missing client_id field".to_owned(),
                    "https://datatracker.ietf.org/doc/html/rfc6749#section-4.1.1".to_owned(),
                ),
            );
        },
    };
    let client_secret = match request.body.get("client_secret") {
        Some(s) => s,
        None => {
            return Err(
                (
                    ErrorCode::InvalidRequest,
                    "Missing client_secret field".to_owned(),
                    "https://datatracker.ietf.org/doc/html/rfc6749#section-4.1.1".to_owned(),
                ),
            );
        },
    };
    let username = match request.body.get("username") {
        Some(s) => s,
        None => {
            return Err(
                (
                    ErrorCode::InvalidRequest,
                    "Missing username field".to_owned(),
                    "https://datatracker.ietf.org/doc/html/rfc6749#section-4.3".to_owned(),
                ),
            );
        },
    };
    let password = match request.body.get("password") {
        Some(s) => s,
        None => {
            return Err(
                (
                    ErrorCode::InvalidRequest,
                    "Missing password field".to_owned(),
                    "https://datatracker.ietf.org/doc/html/rfc6749#section-4.3".to_owned(),
                ),
            );
        },
    };
    let grant_type = match GrantType::from_str(grant_type_str.as_str()) {
        Ok(g) => g,
        Err(_) => {
            return Err(
                (
                    ErrorCode::UnsupportedGrantType,
                    "Unknown grant_type".to_owned(),
                    "https://datatracker.ietf.org/doc/html/rfc6749#section-4".to_owned(),
                ),
            );
        },
    };
    Ok(
        AccessTokenRequest {
            request: request.duplicate(),
            grant_type,
            client_id,
            client_secret,
            username,
            password,
        },
    )
}

/// The value under `k` in a body, or nothing.
fn body_field_or_empty(b: &crate::body::Body, k: &str) -> (r: String)
    ensures
        r@ == crate::tools::spec_field_or_empty(b@, k@),
{
    match b.get(k) {
        Some(v) => v,
        None => String::new(),
    }
}

/// Pulls the error fields out of a response body; the code must be
/// present and known, description and link default to empty.
pub fn parse_error_response(response: &Response) -> (r: Result<ErrorResponse, ParseError>)
    ensures
        r is Ok <==> (spec_lookup(response@.body, "error"@) is Some && spec_error_code_from(
            spec_lookup(response@.body, "error"@)->Some_0,
        ) is Some),
        r matches Ok(e) ==> e@.response == response@ && spec_error_code_from(
            spec_lookup(response@.body, "error"@)->Some_0,
        ) == Some(e@.error) && e@.error_description == crate::tools::spec_field_or_empty(
            response@.body,
            "error_description"@,
        ) && e@.error_uri == crate::tools::spec_field_or_empty(response@.body, "error_uri"@),
        r is Err ==> r == Err::<ErrorResponse, ParseError>(ParseError::BodyDecodeError),
{
    let error_str = match response.body.get("error") {
        Some(s) => s,
        None => {
            return Err(ParseError::BodyDecodeError);
        },
    };
    let error = match ErrorCode::from_str(error_str.as_str()) {
        Ok(e) => e,
        Err(_) => {
            return Err(ParseError::BodyDecodeError);
        },
    };
    let error_description = body_field_or_empty(&response.body, "error_description");
    let error_uri = body_field_or_empty(&response.body, "error_uri");
    Ok(ErrorResponse { response: response.duplicate(), error, error_description, error_uri })
}

/// Pulls the token fields out of a response body: the token itself, its
/// type, and the numeric lifetime.
pub fn parse_access_token_response(response: &Response) -> (r: Result<
    AccessTokenResponse,
    ParseError,
>)
    ensures
        r is Ok <==> (spec_lookup(response@.body, "access_token"@) is Some && spec_lookup(
            response@.body,
            "token_type"@,
        ) is Some && spec_token_type_from(spec_lookup(response@.body, "token_type"@)->Some_0)
            is Some && spec_lookup(response@.body, "expires_in"@) is Some && spec_parse_u64(
            spec_lookup(response@.body, "expires_in"@)->Some_0,
        ) is Some),
        r matches Ok(a) ==> a@.response == response@ && spec_lookup(
            response@.body,
            "access_token"@,
        ) == Some(a@.access_token) && spec_token_type_from(
            spec_lookup(response@.body, "token_type"@)->Some_0,
        ) == Some(a@.token_type) && spec_parse_u64(
            spec_lookup(response@.body, "expires_in"@)->Some_0,
        ) == Some(a@.expires_in),
        r is Err ==> r == Err::<AccessTokenResponse, ParseError>(ParseError::BodyDecodeError),
{
    let access_token = match response.body.get("access_token") {
        Some(s) => s,
        None => {
            return Err(ParseError::BodyDecodeError);
        },
    };
    let token_type_str = match response.body.get("token_type") {
        Some(s) => s,
        None => {
            return Err(ParseError::BodyDecodeError);
        },
    };
    let token_type = match TokenType::from_str(token_type_str.as_str()) {
        Ok(t) => t,
        Err(_) => {
            return Err(ParseError::BodyDecodeError);
        },
    };
    let expires_str = match response.body.get("expires_in") {
        Some(s) => s,
        None => {
            return Err(ParseError::BodyDecodeError);
        },
    };
    let expires_chars = to_char_vec(expires_str.as_str());
    let expires_in = match parse_u64(&expires_chars) {
        Some(n) => n,
        None => {
            return Err(ParseError::BodyDecodeError);
        },
    };
    Ok(
        AccessTokenResponse {
            response: response.duplicate(),
            access_token,
            token_type,
            expires_in,
        },
    )
}

// ------------------------------------------------------------------
// Round trip: parsing a written message recovers the message
// ------------------------------------------------------------------
/// A header field that survives the wire: no newline anywhere, no colon in
/// the name, no whitespace at either end of name or value.
pub open spec fn spec_header_field_wf(k: Seq<char>, v: Seq<char>) -> bool {
    &&& !spec_has_char(k, '\n')
    &&& !spec_has_char(v, '\n')
    &&& !spec_has_char(k, ':')
    &&& (k.len() > 0 ==> !is_space_char(k[0]) && !is_space_char(k[k.len() - 1]))
    &&& (v.len() > 0 ==> !is_space_char(v[0]) && !is_space_char(v[v.len() - 1]))
}

/// Parsing a written header block recovers the headers, inserted into the
/// accumulator in order, and leaves exactly the text after the blank line.
pub proof fn lemma_headers_round(hs: PairsView, body: Seq<char>, acc: PairsView)
    requires
        forall|i: int|
            0 <= i < hs.len() ==> spec_header_field_wf(#[trigger] hs[i].0, #[trigger] hs[i].1),
    ensures
        spec_parse_headers(spec_header_lines(hs) + seq!['\r', '\n'] + body, acc) == (
            spec_fold_set(acc, hs),
            body,
        ),
    decreases hs.len(),
{
    let s = spec_header_lines(hs) + seq!['\r', '\n'] + body;
    if hs.len() == 0 {
        assert(s =~= seq!['\r', '\n'] + body);
        assert(s[0] == '\r' && s[1] == '\n');
        lemma_find_first_at(s, '\n', 1);
        assert(s.skip(2) =~= body);
    } else {
        let k = hs[0].0;
        let v = hs[0].1;
        let rest_s = spec_header_lines(hs.drop_first()) + seq!['\r', '\n'] + body;
        assert(spec_header_lines(hs) == k + seq![':', ' '] + v + seq!['\r', '\n']
            + spec_header_lines(hs.drop_first()));
        assert(s =~= k + seq![':', ' '] + v + seq!['\r', '\n'] + rest_s);
        let nlpos = k.len() as int + 2 + v.len() + 1;
        let pre = k + seq![':', ' '] + v + seq!['\r', '\n'];
        assert(s[nlpos] == '\n') by {
            assert(pre[nlpos] == '\n');
        }
        assert forall|j: int| 0 <= j < nlpos implies s[j] != '\n' by {
            if j < k.len() {
                assert(s[j] == k[j]);
                assert(!spec_has_char(k, '\n'));
                if s[j] == '\n' {
                    assert(spec_has_char(k, '\n'));
                }
            } else if j == k.len() {
                assert(s[j] == ':');
            } else if j == k.len() + 1 {
                assert(s[j] == ' ');
            } else if j < k.len() + 2 + v.len() {
                assert(s[j] == v[j - k.len() - 2]);
                if s[j] == '\n' {
                    assert(spec_has_char(v, '\n'));
                }
            } else {
                assert(s[j] == '\r');
            }
        }
        lemma_find_first_at(s, '\n', nlpos);
        let content = s.subrange(0, nlpos);
        assert(content =~= k + seq![':'] + (seq![' '] + v + seq!['\r']));
        assert(content[k.len() as int] == ':');
        assert forall|j: int| 0 <= j < k.len() implies content[j] != ':' by {
            assert(content[j] == k[j]);
            if content[j] == ':' {
                assert(spec_has_char(k, ':'));
            }
        }
        lemma_find_first_at(content, ':', k.len() as int);
        assert(content.subrange(0, k.len() as int) =~= k);
        assert(content.subrange(k.len() as int + 1, content.len() as int) =~= seq![' '] + v
            + seq!['\r']);
        lemma_trim_of_trimmed(k);
        lemma_trim_wrapped(v);
        let acc2 = spec_set_pair(acc, k, v);
        assert(s.skip(nlpos + 1) =~= rest_s);
        lemma_headers_round(hs.drop_first(), body, acc2);
        assert(spec_fold_set(acc, hs) == spec_fold_set(acc2, hs.drop_first()));
    }
}

/// A token that survives the wire: non-empty and free of whitespace.
pub open spec fn spec_token_clean(t: Seq<char>) -> bool {
    t.len() > 0 && (forall|i: int| 0 <= i < t.len() ==> !is_space_char(#[trigger] t[i]))
}

/// A request whose wire text parses back to itself.
pub open spec fn spec_request_serializable(r: ReqView) -> bool {
    &&& spec_token_clean(r.line.path)
    &&& spec_token_clean(r.line.version)
    &&& forall|i: int|
        0 <= i < r.headers.len() ==> spec_header_field_wf(
            #[trigger] r.headers[i].0,
            #[trigger] r.headers[i].1,
        )
    &&& spec_keys_unique(r.headers)
    &&& spec_lookup(r.headers, "Content-Length"@) is None
    &&& spec_keys_unique(r.body)
    &&& spec_body_sniff_safe(r.body)
}

/// The round trip law for requests: parsing the wire text of a
/// serializable request gives the request back.
pub proof fn lemma_request_round_trip(r: ReqView)
    requires
        spec_request_serializable(r),
    ensures
        spec_parse_request(spec_serialize_request(r)) == Some(r),
{
    let s = spec_serialize_request(r);
    let mstr = spec_method_str(r.line.method);
    let path = r.line.path;
    let ver = r.line.version;
    lemma_method_str_clean(r.line.method);
    let hb = spec_header_lines(r.headers) + seq!['\r', '\n'] + spec_json_body(r.body);
    let firstlen = mstr.len() as int + 1 + path.len() + 1 + ver.len();
    assert(s =~= mstr + seq![' '] + path + seq![' '] + ver + seq!['\r', '\n'] + hb);
    assert(s[firstlen + 1] == '\n') by {
        let pre = mstr + seq![' '] + path + seq![' '] + ver + seq!['\r', '\n'];
        assert(pre[firstlen + 1] == '\n');
    }
    assert forall|j: int| 0 <= j < firstlen + 1 implies s[j] != '\n' by {
        if j < mstr.len() {
            assert(s[j] == mstr[j]);
            assert(!is_space_char(mstr[j]));
        } else if j == mstr.len() {
            assert(s[j] == ' ');
        } else if j < mstr.len() + 1 + path.len() {
            assert(s[j] == path[j - mstr.len() - 1]);
            assert(!is_space_char(path[j - mstr.len() - 1]));
        } else if j == mstr.len() + 1 + path.len() {
            assert(s[j] == ' ');
        } else if j < firstlen {
            assert(s[j] == ver[j - mstr.len() - 2 - path.len()]);
            assert(!is_space_char(ver[j - mstr.len() - 2 - path.len()]));
        } else {
            assert(s[j] == '\r');
        }
    }
    lemma_find_first_at(s, '\n', firstlen + 1);
    let line = s.subrange(0, firstlen + 1);
    assert(line =~= mstr + (seq![' '] + (path + (seq![' '] + (ver + seq!['\r'])))));
    let rest1 = seq![' '] + (path + (seq![' '] + (ver + seq!['\r'])));
    let rest2 = path + (seq![' '] + (ver + seq!['\r']));
    let rest3 = seq![' '] + (ver + seq!['\r']);
    let rest4 = ver + seq!['\r'];
    lemma_tokens_step(mstr, rest1);
    lemma_tokens_space(' ', rest2);
    lemma_tokens_step(path, rest3);
    lemma_tokens_space(' ', rest4);
    lemma_tokens_step(ver, seq!['\r']);
    lemma_tokens_space('\r', Seq::<char>::empty());
    assert(seq!['\r'] =~= seq!['\r'] + Seq::<char>::empty());
    assert(spec_tokens(Seq::<char>::empty()).len() == 0);
    let toks = spec_tokens(line);
    assert(toks =~~= seq![mstr, path, ver]);
    lemma_method_string_total(r.line.method);
    assert(spec_method_from(toks[0]) == Some(r.line.method));
    let next = firstlen + 2;
    assert(s.skip(next) =~= hb);
    lemma_headers_round(r.headers, spec_json_body(r.body), Seq::empty());
    assert(forall|i: int|
        0 <= i < r.headers.len() ==> spec_lookup(Seq::empty(), #[trigger] r.headers[i].0)
            is None);
    lemma_fold_set_unique(Seq::empty(), r.headers);
    assert(Seq::empty() + r.headers =~= r.headers);
    lemma_body_round_trip(r.body);
    let out = spec_parse_request(s);
    assert(out == Some(
        ReqView {
            line: ReqLineView { method: r.line.method, path, version: ver },
            headers: r.headers,
            body: r.body,
        },
    ));
    assert(ReqLineView { method: r.line.method, path, version: ver } == r.line);
}

/// A response whose wire text parses back to itself: besides clean tokens
/// and headers, its class must match its code and its body must not carry
/// raw page text.
pub open spec fn spec_response_serializable(r: RespView) -> bool {
    &&& spec_token_clean(r.line.version)
    &&& spec_class_of(r.line.code) == Some(r.line.class)
    &&& forall|i: int|
        0 <= i < r.headers.len() ==> spec_header_field_wf(
            #[trigger] r.headers[i].0,
            #[trigger] r.headers[i].1,
        )
    &&& spec_keys_unique(r.headers)
    &&& spec_lookup(r.headers, "Content-Length"@) is None
    &&& spec_keys_unique(r.body)
    &&& spec_body_sniff_safe(r.body)
    &&& spec_lookup(r.body, "html_content"@) is None
}

/// The round trip law for responses: parsing the wire text of a
/// serializable response gives the response back.
pub proof fn lemma_response_round_trip(r: RespView)
    requires
        spec_response_serializable(r),
    ensures
        spec_parse_response(spec_serialize_response(r)) == Some(r),
{
    let s = spec_serialize_response(r);
    let ver = r.line.version;
    let dec = spec_u64_dec(r.line.code as int);
    let cls = spec_class_str(r.line.class);
    lemma_dec_round(r.line.code);
    lemma_class_str_clean(r.line.class);
    assert(spec_response_body_text(r.body) == spec_json_body(r.body));
    let hb = spec_header_lines(r.headers) + seq!['\r', '\n'] + spec_json_body(r.body);
    let firstlen = ver.len() as int + 1 + dec.len() + 1 + cls.len();
    assert(s =~= ver + seq![' '] + dec + seq![' '] + cls + seq!['\r', '\n'] + hb);
    assert(s[firstlen + 1] == '\n') by {
        let pre = ver + seq![' '] + dec + seq![' '] + cls + seq!['\r', '\n'];
        assert(pre[firstlen + 1] == '\n');
    }
    assert forall|j: int| 0 <= j < firstlen + 1 implies s[j] != '\n' by {
        if j < ver.len() {
            assert(s[j] == ver[j]);
            assert(!is_space_char(ver[j]));
        } else if j == ver.len() {
            assert(s[j] == ' ');
        } else if j < ver.len() + 1 + dec.len() {
            assert(s[j] == dec[j - ver.len() - 1]);
            assert(crate::text::is_digit_char(dec[j - ver.len() - 1]));
        } else if j == ver.len() + 1 + dec.len() {
            assert(s[j] == ' ');
        } else if j < firstlen {
            assert(s[j] == cls[j - ver.len() - 2 - dec.len()]);
            if s[j] == '\n' {
                assert(spec_has_char(cls, '\n'));
            }
        } else {
            assert(s[j] == '\r');
        }
    }
    lemma_find_first_at(s, '\n', firstlen + 1);
    let line = s.subrange(0, firstlen + 1);
    assert(line =~= ver + (seq![' '] + (dec + (seq![' '] + (cls + seq!['\r'])))));
    let rest2 = dec + (seq![' '] + (cls + seq!['\r']));
    let rest4 = cls + seq!['\r'];
    assert(forall|i: int| 0 <= i < dec.len() ==> !is_space_char(#[trigger] dec[i]));
    lemma_tokens_step(ver, seq![' '] + rest2);
    lemma_tokens_space(' ', rest2);
    lemma_tokens_step(dec, seq![' '] + rest4);
    lemma_tokens_space(' ', rest4);
    assert(rest4[0] == cls[0]);
    lemma_tokens_nonempty(rest4);
    let toks = spec_tokens(line);
    assert(toks =~~= seq![ver, dec] + spec_tokens(rest4));
    assert(toks.len() >= 3);
    assert(toks[0] == ver && toks[1] == dec);
    assert(spec_parse_u64(toks[1]) == Some(r.line.code));
    let next = firstlen + 2;
    assert(s.skip(next) =~= hb);
    lemma_headers_round(r.headers, spec_json_body(r.body), Seq::empty());
    assert(forall|i: int|
        0 <= i < r.headers.len() ==> spec_lookup(Seq::empty(), #[trigger] r.headers[i].0)
            is None);
    lemma_fold_set_unique(Seq::empty(), r.headers);
    assert(Seq::empty() + r.headers =~= r.headers);
    lemma_body_round_trip(r.body);
    let out = spec_parse_response(s);
    assert(out == Some(
        RespView {
            line: RespLineView { version: ver, code: r.line.code, class: r.line.class },
            headers: r.headers,
            body: r.body,
        },
    ));
    assert(RespLineView { version: ver, code: r.line.code, class: r.line.class } == r.line);
}

} // verus!
