//! The fixed responses both roles build: the missing-page answer, the OAuth
//! error envelope, the protected-resource answers, and the relay pages the
//! client wraps foreign answers in.

use vstd::prelude::*;

use crate::body::Body;
use crate::html_elements::{
    html_404, html_authorization_prompt, html_resource, html_resource_footer,
    html_resource_header, html_resource_table, spec_html_authorization_prompt,
    spec_html_resource_table,
};
use crate::kv::{PairsView, spec_lookup};
use crate::text::{chars_to_string, copy_range, to_char_vec};
use crate::types::{
    ErrRespView, ErrorCode, ErrorResponse, Headers, HttpResponseType, RespLineView, RespView,
    Response, ResponseLine, Request,
};

verus! {

/// The one protocol version this engine writes.
pub open spec fn spec_http_version() -> Seq<char> {
    "HTTP/1.1"@
}

/// A response line of this engine: fixed version, a code and its class.
pub open spec fn spec_line(code: u64, class: HttpResponseType) -> RespLineView {
    RespLineView { version: spec_http_version(), code, class }
}

/// The header block of a JSON answer.
pub open spec fn spec_json_headers() -> PairsView {
    seq![("Content-Type"@, "application/json"@)]
}

/// The header block of an HTML answer.
pub open spec fn spec_html_headers() -> PairsView {
    seq![("Content-Type"@, "text/html"@)]
}

/// A header block announcing JSON content.
pub fn json_headers() -> (r: Headers)
    ensures
        r@ == spec_json_headers(),
{
    let mut h = Headers::new();
    h.set("Content-Type", "application/json");
    proof {
        assert(h@ =~= spec_json_headers());
    }
    h
}

/// A header block announcing HTML content.
pub fn html_headers() -> (r: Headers)
    ensures
        r@ == spec_html_headers(),
{
    let mut h = Headers::new();
    h.set("Content-Type", "text/html");
    proof {
        assert(h@ =~= spec_html_headers());
    }
    h
}

/// A body of exactly one field.
pub fn one_field_body(k: &str, v: String) -> (r: Body)
    ensures
        r@ == seq![(k@, v@)],
{
    let mut ps: Vec<(String, String)> = Vec::new();
    ps.push((k.to_owned(), v));
    let b = Body::from_pairs(ps);
    proof {
        assert(b@ =~= seq![(k@, v@)]);
    }
    b
}

/// The answer for an unrouted path.
pub open spec fn spec_handle_404() -> RespView {
    RespView {
        line: spec_line(404, HttpResponseType::ClientError),
        headers: spec_html_headers(),
        body: seq![
            (
                "html_content"@,
                "\n<!DOCTYPE html>\n<html lang='en'>\n  <head>\n    <meta charset='utf-8'>\n    <title>Hello!</title>\n  </head>\n  <body>\n    <h1>Oops!</h1>\n    <p>Sorry, I don't know what you're asking for.</p>\n  </body>\n</html>\n"@,
            ),
        ],
    }
}

/// A 404 answer carrying the fixed missing-page text.
pub fn handle_404(request: &Request) -> (r: Response)
    ensures
        r@ == spec_handle_404(),
{
    let resp = Response {
        response_line: ResponseLine {
            http_version: "HTTP/1.1".to_owned(),
            status_code: 404,
            response_type: HttpResponseType::ClientError,
        },
        headers: html_headers(),
        body: one_field_body("html_content", html_404()),
    };
    resp
}

/// An OAuth error envelope: a 400 answer carrying the code, description
/// and reference link.
pub open spec fn spec_error_response(
    error: ErrorCode,
    description: Seq<char>,
    uri: Seq<char>,
) -> ErrRespView {
    ErrRespView {
        response: RespView {
            line: spec_line(400, HttpResponseType::ClientError),
            headers: spec_json_headers(),
            body: Seq::empty(),
        },
        error,
        error_description: description,
        error_uri: uri,
    }
}

/// Wraps an OAuth error into its response envelope.
pub fn error_response(error: ErrorCode, error_description: String, error_uri: String) -> (r:
    ErrorResponse)
    ensures
        r@ == spec_error_response(error, error_description@, error_uri@),
{
    let response = Response {
        response_line: ResponseLine {
            http_version: "HTTP/1.1".to_owned(),
            status_code: 400,
            response_type: HttpResponseType::ClientError,
        },
        headers: json_headers(),
        body: Body::new(),
    };
    ErrorResponse { response, error, error_description, error_uri }
}

/// The text with one pair of surrounding double quotes removed, if both
/// are present.
pub open spec fn spec_clear_quotes(s: Seq<char>) -> Seq<char> {
    if s.len() >= 2 && s[0] == '"' && s[s.len() - 1] == '"' {
        s.subrange(1, s.len() - 1)
    } else {
        s
    }
}

/// Strips one pair of surrounding double quotes.
pub fn clear_quotes(value: &String) -> (r: String)
    ensures
        r@ == spec_clear_quotes(value@),
{
    let v = to_char_vec(value.as_str());
    if v.len() >= 2 && v[0] == '"' && v[v.len() - 1] == '"' {
        let inner = copy_range(&v, 1, v.len() - 1);
        chars_to_string(&inner)
    } else {
        value.clone()
    }
}

/// The answer that hands out the protected resource.
pub open spec fn spec_resource_response() -> RespView {
    RespView {
        line: spec_line(200, HttpResponseType::Success),
        headers: spec_json_headers(),
        body: seq![("resource_content"@, "This is the content of the protected resource."@)],
    }
}

/// A 200 answer carrying the protected resource.
pub fn resource_response() -> (r: Response)
    ensures
        r@ == spec_resource_response(),
{
    Response {
        response_line: ResponseLine {
            http_version: "HTTP/1.1".to_owned(),
            status_code: 200,
            response_type: HttpResponseType::Success,
        },
        headers: json_headers(),
        body: one_field_body("resource_content", html_resource()),
    }
}

/// The 403 error for a request that carried no token at all.
pub open spec fn spec_access_denied() -> ErrRespView {
    ErrRespView {
        response: RespView {
            line: spec_line(403, HttpResponseType::ClientError),
            headers: spec_json_headers(),
            body: Seq::empty(),
        },
        error: ErrorCode::InvalidRequest,
        error_description: "no token provided"@,
        error_uri: "https://datatracker.ietf.org/doc/html/rfc6749#section-7"@,
    }
}

/// A 403 answer for the missing-credential case.
pub fn access_denied_response() -> (r: ErrorResponse)
    ensures
        r@ == spec_access_denied(),
{
    let response = Response {
        response_line: ResponseLine {
            http_version: "HTTP/1.1".to_owned(),
            status_code: 403,
            response_type: HttpResponseType::ClientError,
        },
        headers: json_headers(),
        body: Body::new(),
    };
    ErrorResponse {
        response,
        error: ErrorCode::InvalidRequest,
        error_description: "no token provided".to_owned(),
        error_uri: "https://datatracker.ietf.org/doc/html/rfc6749#section-7".to_owned(),
    }
}

/// The 403 error for a token that did not validate; a distinct body from
/// the missing-credential case, the same status.
pub open spec fn spec_invalid_token() -> ErrRespView {
    ErrRespView {
        response: RespView {
            line: spec_line(403, HttpResponseType::ClientError),
            headers: spec_json_headers(),
            body: Seq::empty(),
        },
        error: ErrorCode::InvalidRequest,
        error_description: "token provided was invalid"@,
        error_uri: "https://datatracker.ietf.org/doc/html/rfc6749#section-7"@,
    }
}

/// A 403 answer for a token that did not validate.
pub fn invalid_token_response() -> (r: ErrorResponse)
    ensures
        r@ == spec_invalid_token(),
{
    let response = Response {
        response_line: ResponseLine {
            http_version: "HTTP/1.1".to_owned(),
            status_code: 403,
            response_type: HttpResponseType::ClientError,
        },
        headers: json_headers(),
        body: Body::new(),
    };
    ErrorResponse {
        response,
        error: ErrorCode::InvalidRequest,
        error_description: "token provided was invalid".to_owned(),
        error_uri: "https://datatracker.ietf.org/doc/html/rfc6749#section-7".to_owned(),
    }
}

/// The page that presents a fetched resource to the caller.
pub open spec fn spec_resource_page(
    content: Seq<char>,
    token: Seq<char>,
    expiry: Seq<char>,
) -> Seq<char> {
    "\n<!DOCTYPE html>\n<html lang='en'>\n  <head>\n    <meta charset='utf-8'>\n    <title>Protected Resource</title>\n  </head>\n  <body>\n  <title>Protected Resource</title>\n"@
        + "\n"@ + spec_html_resource_table(content, token, expiry) + "\n"@
        + "\n  </body>\n</html>\n"@
}

/// A 200 HTML answer presenting the fetched resource, the token used, and
/// its remaining lifetime.
pub fn response_with_resource_content(resource_content: &String, token: &String, expiry: &String)
    -> (r: Response)
    ensures
        r@ == (RespView {
            line: spec_line(200, HttpResponseType::Success),
            headers: spec_html_headers(),
            body: seq![
                ("html_content"@, spec_resource_page(resource_content@, token@, expiry@)),
            ],
        }),
{
    let mut page = html_resource_header();
    page.append("\n");
    let table = html_resource_table(resource_content.as_str(), token.as_str(), expiry.as_str());
    page.append(table.as_str());
    page.append("\n");
    let footer = html_resource_footer();
    page.append(footer.as_str());
    proof {
        assert(page@ =~= spec_resource_page(resource_content@, token@, expiry@));
    }
    Response {
        response_line: ResponseLine {
            http_version: "HTTP/1.1".to_owned(),
            status_code: 200,
            response_type: HttpResponseType::Success,
        },
        headers: html_headers(),
        body: one_field_body("html_content", page),
    }
}

/// The value under `k`, or nothing where the field is absent.
pub open spec fn spec_field_or_empty(ps: PairsView, k: Seq<char>) -> Seq<char> {
    match spec_lookup(ps, k) {
        Some(v) => v,
        None => Seq::empty(),
    }
}

/// The notice the client shows for a foreign error body.
pub open spec fn spec_error_block(
    code: Seq<char>,
    description: Seq<char>,
    uri: Seq<char>,
) -> Seq<char> {
    "<br>\n<p>Error Code: "@ + code + "<br>\nDescription: "@ + description
        + "<br>\nHelpful <strong><a href="@ + uri + ">link</a></strong>.<br></p>"@
}

fn error_block(code: &str, description: &str, uri: &str) -> (r: String)
    ensures
        r@ == spec_error_block(code@, description@, uri@),
{
    let mut s = "<br>\n<p>Error Code: ".to_owned();
    s.append(code);
    s.append("<br>\nDescription: ");
    s.append(description);
    s.append("<br>\nHelpful <strong><a href=");
    s.append(uri);
    s.append(">link</a></strong>.<br></p>");
    proof {
        assert(s@ =~= spec_error_block(code@, description@, uri@));
    }
    s
}

/// The page that relays a foreign error body to the caller.
pub open spec fn spec_error_content_page(body: PairsView) -> Seq<char> {
    spec_html_authorization_prompt(
        spec_error_block(
            spec_field_or_empty(body, "error"@),
            spec_field_or_empty(body, "error_description"@),
            spec_field_or_empty(body, "error_uri"@),
        ),
    )
}

fn field_or_empty(b: &Body, k: &str) -> (r: String)
    ensures
        r@ == spec_field_or_empty(b@, k@),
{
    match b.get(k) {
        Some(v) => v,
        None => String::new(),
    }
}

/// A 200 HTML answer wrapping the error fields of a foreign response in
/// the authorization prompt; an absent field shows as nothing.
pub fn response_with_error_content(response: &Response) -> (r: Response)
    ensures
        r@ == (RespView {
            line: spec_line(200, HttpResponseType::Success),
            headers: spec_html_headers(),
            body: seq![("html_content"@, spec_error_content_page(response@.body))],
        }),
{
    let code = field_or_empty(&response.body, "error");
    let description = field_or_empty(&response.body, "error_description");
    let uri = field_or_empty(&response.body, "error_uri");
    let block = error_block(code.as_str(), description.as_str(), uri.as_str());
    let page = html_authorization_prompt(block.as_str());
    Response {
        response_line: ResponseLine {
            http_version: "HTTP/1.1".to_owned(),
            status_code: 200,
            response_type: HttpResponseType::Success,
        },
        headers: html_headers(),
        body: one_field_body("html_content", page),
    }
}

/// The page that relays one of this engine's own errors to the caller.
pub open spec fn spec_error_page_from_error(e: ErrRespView) -> Seq<char> {
    spec_html_authorization_prompt(
        spec_error_block(
            crate::types::spec_error_code_str(e.error),
            e.error_description,
            e.error_uri,
        ),
    )
}

/// A 200 HTML answer wrapping an error of this engine in the authorization
/// prompt.
pub fn response_with_error_content_from_error(error_response: &ErrorResponse) -> (r: Response)
    ensures
        r@ == (RespView {
            line: spec_line(200, HttpResponseType::Success),
            headers: spec_html_headers(),
            body: seq![("html_content"@, spec_error_page_from_error(error_response@))],
        }),
{
    let code = error_response.error.to_string();
    let block = error_block(
        code.as_str(),
        error_response.error_description.as_str(),
        error_response.error_uri.as_str(),
    );
    let page = html_authorization_prompt(block.as_str());
    Response {
        response_line: ResponseLine {
            http_version: "HTTP/1.1".to_owned(),
            status_code: 200,
            response_type: HttpResponseType::Success,
        },
        headers: html_headers(),
        body: one_field_body("html_content", page),
    }
}

} // verus!
