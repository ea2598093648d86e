//! The protocol vocabulary: HTTP method, response class, grant type, token
//! type and OAuth error code, each with a total bidirectional string mapping.

use vstd::prelude::*;

use crate::body::{Body, spec_json_body};
use crate::kv::{PairsView, copy_pairs, kv_get, kv_set, spec_lookup, spec_set_pair};
use crate::text::{
    is_space_char, lower_str, push_char, spec_has_char, spec_lower, spec_u64_dec, str_eq,
    u64_to_dec,
};

verus! {

/// The HTTP methods the engine understands.
#[derive(Debug, Clone, Copy, PartialEq, Eq, Structural)]
pub enum HttpMethod {
    Get,
    Post,
    Put,
    Delete,
}

/// The canonical request-line spelling of a method.
pub open spec fn spec_method_str(m: HttpMethod) -> Seq<char> {
    match m {
        HttpMethod::Get => "GET"@,
        HttpMethod::Post => "POST"@,
        HttpMethod::Put => "PUT"@,
        HttpMethod::Delete => "DELETE"@,
    }
}

/// The method a request-line token names, compared case-insensitively.
pub open spec fn spec_method_from(s: Seq<char>) -> Option<HttpMethod> {
    if spec_lower(s) == "get"@ {
        Some(HttpMethod::Get)
    } else if spec_lower(s) == "post"@ {
        Some(HttpMethod::Post)
    } else if spec_lower(s) == "put"@ {
        Some(HttpMethod::Put)
    } else if spec_lower(s) == "delete"@ {
        Some(HttpMethod::Delete)
    } else {
        None
    }
}

impl HttpMethod {
    /// The canonical spelling, e.g. `GET`.
    pub fn to_string(&self) -> (r: String)
        ensures
            r@ == spec_method_str(*self),
    {
        match self {
            HttpMethod::Get => "GET".to_owned(),
            HttpMethod::Post => "POST".to_owned(),
            HttpMethod::Put => "PUT".to_owned(),
            HttpMethod::Delete => "DELETE".to_owned(),
        }
    }

    /// Parses a method token case-insensitively; anything unrecognized is an
    /// error, never a default.
    pub fn from_str(s: &str) -> (r: Result<HttpMethod, ()>)
        ensures
            r matches Ok(m) ==> spec_method_from(s@) == Some(m),
            r is Err ==> spec_method_from(s@) is None,
    {
        let low = lower_str(s);
        if str_eq(low.as_str(), "get") {
            Ok(HttpMethod::Get)
        } else if str_eq(low.as_str(), "post") {
            Ok(HttpMethod::Post)
        } else if str_eq(low.as_str(), "put") {
            Ok(HttpMethod::Put)
        } else if str_eq(low.as_str(), "delete") {
            Ok(HttpMethod::Delete)
        } else {
            Err(())
        }
    }
}

/// The class of an HTTP status code: 2xx, 3xx, 4xx or 5xx.
#[derive(Debug, Clone, Copy, PartialEq, Eq, Structural)]
pub enum HttpResponseType {
    Success,
    Redirection,
    ClientError,
    ServerError,
}

/// The class a status code falls in; codes outside 200..=599 have none and
/// are a construction error, never silently coerced.
pub open spec fn spec_class_of(code: u64) -> Option<HttpResponseType> {
    if 200 <= code && code <= 299 {
        Some(HttpResponseType::Success)
    } else if 300 <= code && code <= 399 {
        Some(HttpResponseType::Redirection)
    } else if 400 <= code && code <= 499 {
        Some(HttpResponseType::ClientError)
    } else if 500 <= code && code <= 599 {
        Some(HttpResponseType::ServerError)
    } else {
        None
    }
}

/// The reason phrase used when serializing a response line.
pub open spec fn spec_class_str(t: HttpResponseType) -> Seq<char> {
    match t {
        HttpResponseType::Success => "Success"@,
        HttpResponseType::Redirection => "Redirection"@,
        HttpResponseType::ClientError => "Client Error"@,
        HttpResponseType::ServerError => "Server Error"@,
    }
}

impl HttpResponseType {
    /// Derives the response class from a status code; out-of-range codes are
    /// rejected.
    pub fn from_status(code: u64) -> (r: Result<HttpResponseType, ()>)
        ensures
            r matches Ok(t) ==> spec_class_of(code) == Some(t),
            r is Err ==> spec_class_of(code) is None,
    {
        if 200 <= code && code <= 299 {
            Ok(HttpResponseType::Success)
        } else if 300 <= code && code <= 399 {
            Ok(HttpResponseType::Redirection)
        } else if 400 <= code && code <= 499 {
            Ok(HttpResponseType::ClientError)
        } else if 500 <= code && code <= 599 {
            Ok(HttpResponseType::ServerError)
        } else {
            Err(())
        }
    }

    /// The reason phrase, e.g. `Client Error`.
    pub fn to_string(&self) -> (r: String)
        ensures
            r@ == spec_class_str(*self),
    {
        match self {
            HttpResponseType::Success => "Success".to_owned(),
            HttpResponseType::Redirection => "Redirection".to_owned(),
            HttpResponseType::ClientError => "Client Error".to_owned(),
            HttpResponseType::ServerError => "Server Error".to_owned(),
        }
    }
}

/// The OAuth2 grant kinds; only the resource-owner-password-credentials
/// grant is served, the others parse but fail validation as unsupported.
#[derive(Debug, Clone, Copy, PartialEq, Eq, Structural)]
pub enum GrantType {
    AuthorizationCode,
    Implicit,
    ResourceOwnerPasswordCredentials,
    ClientCredentials,
    Extension,
}

/// The wire name of a grant type.
pub open spec fn spec_grant_str(g: GrantType) -> Seq<char> {
    match g {
        GrantType::AuthorizationCode => "authorization_code"@,
        GrantType::Implicit => "implicit"@,
        GrantType::ResourceOwnerPasswordCredentials => "password"@,
        GrantType::ClientCredentials => "client_credentials"@,
        GrantType::Extension => "extension"@,
    }
}

/// The grant type a wire name denotes.
pub open spec fn spec_grant_from(s: Seq<char>) -> Option<GrantType> {
    if s == "authorization_code"@ {
        Some(GrantType::AuthorizationCode)
    } else if s == "implicit"@ {
        Some(GrantType::Implicit)
    } else if s == "password"@ {
        Some(GrantType::ResourceOwnerPasswordCredentials)
    } else if s == "client_credentials"@ {
        Some(GrantType::ClientCredentials)
    } else if s == "extension"@ {
        Some(GrantType::Extension)
    } else {
        None
    }
}

impl GrantType {
    /// The wire name, e.g. `password`.
    pub fn to_string(&self) -> (r: String)
        ensures
            r@ == spec_grant_str(*self),
    {
        match self {
            GrantType::AuthorizationCode => "authorization_code".to_owned(),
            GrantType::Implicit => "implicit".to_owned(),
            GrantType::ResourceOwnerPasswordCredentials => "password".to_owned(),
            GrantType::ClientCredentials => "client_credentials".to_owned(),
            GrantType::Extension => "extension".to_owned(),
        }
    }

    /// Parses a wire name; unknown names are an error.
    pub fn from_str(s: &str) -> (r: Result<GrantType, ()>)
        ensures
            r matches Ok(g) ==> spec_grant_from(s@) == Some(g),
            r is Err ==> spec_grant_from(s@) is None,
    {
        if str_eq(s, "authorization_code") {
            Ok(GrantType::AuthorizationCode)
        } else if str_eq(s, "implicit") {
            Ok(GrantType::Implicit)
        } else if str_eq(s, "password") {
            Ok(GrantType::ResourceOwnerPasswordCredentials)
        } else if str_eq(s, "client_credentials") {
            Ok(GrantType::ClientCredentials)
        } else if str_eq(s, "extension") {
            Ok(GrantType::Extension)
        } else {
            Err(())
        }
    }
}

/// The kind of token handed out; only bearer tokens are issued here.
#[derive(Debug, Clone, Copy, PartialEq, Eq, Structural)]
pub enum TokenType {
    Bearer,
    Mac,
}

/// The wire name of a token type.
pub open spec fn spec_token_type_str(t: TokenType) -> Seq<char> {
    match t {
        TokenType::Bearer => "Bearer"@,
        TokenType::Mac => "MAC"@,
    }
}

/// The token type a wire name denotes, compared case-insensitively.
pub open spec fn spec_token_type_from(s: Seq<char>) -> Option<TokenType> {
    if spec_lower(s) == "bearer"@ {
        Some(TokenType::Bearer)
    } else if spec_lower(s) == "mac"@ {
        Some(TokenType::Mac)
    } else {
        None
    }
}

impl TokenType {
    /// The wire name, e.g. `Bearer`.
    pub fn to_string(&self) -> (r: String)
        ensures
            r@ == spec_token_type_str(*self),
    {
        match self {
            TokenType::Bearer => "Bearer".to_owned(),
            TokenType::Mac => "MAC".to_owned(),
        }
    }

    /// Parses a wire name case-insensitively; unknown names are an error.
    pub fn from_str(s: &str) -> (r: Result<TokenType, ()>)
        ensures
            r matches Ok(t) ==> spec_token_type_from(s@) == Some(t),
            r is Err ==> spec_token_type_from(s@) is None,
    {
        let low = lower_str(s);
        if str_eq(low.as_str(), "bearer") {
            Ok(TokenType::Bearer)
        } else if str_eq(low.as_str(), "mac") {
            Ok(TokenType::Mac)
        } else {
            Err(())
        }
    }
}

/// The six RFC 6749 error codes; no other codes are ever produced.
#[derive(Debug, Clone, Copy, PartialEq, Eq, Structural)]
pub enum ErrorCode {
    InvalidRequest,
    InvalidClient,
    InvalidGrant,
    UnauthorizedClient,
    UnsupportedGrantType,
    InvalidScope,
}

/// The wire name of an error code.
pub open spec fn spec_error_code_str(e: ErrorCode) -> Seq<char> {
    match e {
        ErrorCode::InvalidRequest => "invalid_request"@,
        ErrorCode::InvalidClient => "invalid_client"@,
        ErrorCode::InvalidGrant => "invalid_grant"@,
        ErrorCode::UnauthorizedClient => "unauthorized_client"@,
        ErrorCode::UnsupportedGrantType => "unsupported_grant_type"@,
        ErrorCode::InvalidScope => "invalid_scope"@,
    }
}

/// The error code a wire name denotes.
pub open spec fn spec_error_code_from(s: Seq<char>) -> Option<ErrorCode> {
    if s == "invalid_request"@ {
        Some(ErrorCode::InvalidRequest)
    } else if s == "invalid_client"@ {
        Some(ErrorCode::InvalidClient)
    } else if s == "invalid_grant"@ {
        Some(ErrorCode::InvalidGrant)
    } else if s == "unauthorized_client"@ {
        Some(ErrorCode::UnauthorizedClient)
    } else if s == "unsupported_grant_type"@ {
        Some(ErrorCode::UnsupportedGrantType)
    } else if s == "invalid_scope"@ {
        Some(ErrorCode::InvalidScope)
    } else {
        None
    }
}

impl ErrorCode {
    /// The wire name, e.g. `invalid_request`.
    pub fn to_string(&self) -> (r: String)
        ensures
            r@ == spec_error_code_str(*self),
    {
        match self {
            ErrorCode::InvalidRequest => "invalid_request".to_owned(),
            ErrorCode::InvalidClient => "invalid_client".to_owned(),
            ErrorCode::InvalidGrant => "invalid_grant".to_owned(),
            ErrorCode::UnauthorizedClient => "unauthorized_client".to_owned(),
            ErrorCode::UnsupportedGrantType => "unsupported_grant_type".to_owned(),
            ErrorCode::InvalidScope => "invalid_scope".to_owned(),
        }
    }

    /// Parses a wire name; unknown names are an error.
    pub fn from_str(s: &str) -> (r: Result<ErrorCode, ()>)
        ensures
            r matches Ok(e) ==> spec_error_code_from(s@) == Some(e),
            r is Err ==> spec_error_code_from(s@) is None,
    {
        if str_eq(s, "invalid_request") {
            Ok(ErrorCode::InvalidRequest)
        } else if str_eq(s, "invalid_client") {
            Ok(ErrorCode::InvalidClient)
        } else if str_eq(s, "invalid_grant") {
            Ok(ErrorCode::InvalidGrant)
        } else if str_eq(s, "unauthorized_client") {
            Ok(ErrorCode::UnauthorizedClient)
        } else if str_eq(s, "unsupported_grant_type") {
            Ok(ErrorCode::UnsupportedGrantType)
        } else if str_eq(s, "invalid_scope") {
            Ok(ErrorCode::InvalidScope)
        } else {
            Err(())
        }
    }
}

/// The header block of a message, case kept as received, one value per
/// name, last write wins.
#[derive(Debug)]
pub struct Headers {
    entries: Vec<(String, String)>,
}

impl View for Headers {
    type V = PairsView;

    closed spec fn view(&self) -> PairsView {
        self.entries.deep_view()
    }
}

impl Headers {
    /// An empty header block.
    pub fn new() -> (r: Headers)
        ensures
            r@ == Seq::<(Seq<char>, Seq<char>)>::empty(),
    {
        let h = Headers { entries: Vec::new() };
        proof {
            assert(h@ =~= Seq::<(Seq<char>, Seq<char>)>::empty());
        }
        h
    }

    /// The value under `name`, first occurrence.
    pub fn get(&self, name: &str) -> (r: Option<String>)
        ensures
            r matches Some(v) ==> spec_lookup(self@, name@) == Some(v@),
            r is None ==> spec_lookup(self@, name@) is None,
    {
        kv_get(&self.entries, name)
    }

    /// Sets `name` to `value`: replaces the first occurrence, or appends.
    pub fn set(&mut self, name: &str, value: &str)
        ensures
            final(self)@ == spec_set_pair(old(self)@, name@, value@),
    {
        kv_set(&mut self.entries, name.to_owned(), value.to_owned())
    }

    /// The number of headers.
    pub fn len(&self) -> (r: usize)
        ensures
            r == self@.len(),
    {
        self.entries.len()
    }

    /// An identical copy.
    pub fn duplicate(&self) -> (r: Headers)
        ensures
            r@ == self@,
    {
        Headers { entries: copy_pairs(&self.entries) }
    }

    /// Writes the header block as `name: value` lines.
    pub fn write_lines(&self, out: &mut String)
        ensures
            final(out)@ == old(out)@ + spec_header_lines(self@),
    {
        let mut i: usize = 0;
        proof {
            assert(self@.subrange(0, 0) =~= Seq::<(Seq<char>, Seq<char>)>::empty());
            assert(out@ + spec_header_lines(self@.subrange(0, 0)) =~= out@);
        }
        while i < self.entries.len()
            invariant
                i <= self@.len(),
                out@ == old(out)@ + spec_header_lines(self@.subrange(0, i as int)),
            decreases self@.len() - i,
        {
            let ghost pre = self@.subrange(0, i as int);
            let ghost p = self@[i as int];
            out.append(self.entries[i].0.as_str());
            push_char(out, ':');
            push_char(out, ' ');
            out.append(self.entries[i].1.as_str());
            push_char(out, '\r');
            push_char(out, '\n');
            proof {
                assert(p == (self.entries@[i as int].0@, self.entries@[i as int].1@));
                lemma_header_lines_push(pre, p);
                assert(pre.push(p) =~= self@.subrange(0, i as int + 1));
                assert(out@ =~= old(out)@ + spec_header_lines(self@.subrange(0, i as int + 1)));
            }
            i += 1;
        }
        proof {
            assert(self@.subrange(0, self@.len() as int) =~= self@);
        }
    }
}

/// One `name: value` line per header, each ended by CRLF.
pub open spec fn spec_header_lines(hs: PairsView) -> Seq<char>
    decreases hs.len(),
{
    if hs.len() == 0 {
        Seq::empty()
    } else {
        hs[0].0 + seq![':', ' '] + hs[0].1 + seq!['\r', '\n'] + spec_header_lines(hs.drop_first())
    }
}

/// Appending one header at the back of the block.
pub proof fn lemma_header_lines_push(hs: PairsView, p: (Seq<char>, Seq<char>))
    ensures
        spec_header_lines(hs.push(p)) == spec_header_lines(hs) + (p.0 + seq![':', ' '] + p.1
            + seq!['\r', '\n']),
    decreases hs.len(),
{
    let q = hs.push(p);
    let line = p.0 + seq![':', ' '] + p.1 + seq!['\r', '\n'];
    if hs.len() == 0 {
        assert(q[0] == p);
        assert(q.drop_first() =~= Seq::<(Seq<char>, Seq<char>)>::empty());
        assert(spec_header_lines(Seq::<(Seq<char>, Seq<char>)>::empty()) == Seq::<char>::empty());
        assert(spec_header_lines(q) == p.0 + seq![':', ' '] + p.1 + seq!['\r', '\n']
            + Seq::<char>::empty());
        assert(spec_header_lines(q) =~= Seq::<char>::empty() + line);
    } else {
        lemma_header_lines_push(hs.drop_first(), p);
        assert(q[0] == hs[0]);
        assert(q.drop_first() =~= hs.drop_first().push(p));
        let l0 = hs[0].0 + seq![':', ' '] + hs[0].1 + seq!['\r', '\n'];
        assert(spec_header_lines(q) == l0 + (spec_header_lines(hs.drop_first()) + line));
        assert(l0 + (spec_header_lines(hs.drop_first()) + line) =~= (l0 + spec_header_lines(
            hs.drop_first(),
        )) + line);
    }
}

/// A request's first line.
#[derive(Debug)]
pub struct RequestLine {
    pub method: HttpMethod,
    pub path: String,
    pub http_version: String,
}

/// The model of a request line.
pub ghost struct ReqLineView {
    pub method: HttpMethod,
    pub path: Seq<char>,
    pub version: Seq<char>,
}

impl View for RequestLine {
    type V = ReqLineView;

    open spec fn view(&self) -> ReqLineView {
        ReqLineView { method: self.method, path: self.path@, version: self.http_version@ }
    }
}

/// An HTTP request: first line, headers, body.
#[derive(Debug)]
pub struct Request {
    pub request_line: RequestLine,
    pub headers: Headers,
    pub body: Body,
}

/// The model of a request.
pub ghost struct ReqView {
    pub line: ReqLineView,
    pub headers: PairsView,
    pub body: PairsView,
}

impl View for Request {
    type V = ReqView;

    open spec fn view(&self) -> ReqView {
        ReqView { line: self.request_line@, headers: self.headers@, body: self.body@ }
    }
}

/// The wire text of a request: line, headers, blank line, JSON body.
pub open spec fn spec_serialize_request(r: ReqView) -> Seq<char> {
    spec_method_str(r.line.method) + seq![' '] + r.line.path + seq![' '] + r.line.version + seq![
        '\r',
        '\n',
    ] + spec_header_lines(r.headers) + seq!['\r', '\n'] + spec_json_body(r.body)
}

impl Request {
    /// The wire text of this request.
    pub fn to_string(&self) -> (r: String)
        ensures
            r@ == spec_serialize_request(self@),
    {
        let mut s = self.request_line.method.to_string();
        push_char(&mut s, ' ');
        s.append(self.request_line.path.as_str());
        push_char(&mut s, ' ');
        s.append(self.request_line.http_version.as_str());
        push_char(&mut s, '\r');
        push_char(&mut s, '\n');
        self.headers.write_lines(&mut s);
        push_char(&mut s, '\r');
        push_char(&mut s, '\n');
        let bj = self.body.to_json();
        s.append(bj.as_str());
        proof {
            assert(s@ =~= spec_serialize_request(self@));
        }
        s
    }

    /// An identical copy.
    pub fn duplicate(&self) -> (r: Request)
        ensures
            r@ == self@,
    {
        Request {
            request_line: RequestLine {
                method: self.request_line.method,
                path: self.request_line.path.clone(),
                http_version: self.request_line.http_version.clone(),
            },
            headers: self.headers.duplicate(),
            body: self.body.duplicate(),
        }
    }
}

/// A response's first line.
#[derive(Debug)]
pub struct ResponseLine {
    pub http_version: String,
    pub status_code: u64,
    pub response_type: HttpResponseType,
}

/// The model of a response line.
pub ghost struct RespLineView {
    pub version: Seq<char>,
    pub code: u64,
    pub class: HttpResponseType,
}

impl View for ResponseLine {
    type V = RespLineView;

    open spec fn view(&self) -> RespLineView {
        RespLineView {
            version: self.http_version@,
            code: self.status_code,
            class: self.response_type,
        }
    }
}

/// An HTTP response: first line, headers, body.
#[derive(Debug)]
pub struct Response {
    pub response_line: ResponseLine,
    pub headers: Headers,
    pub body: Body,
}

/// The model of a response.
pub ghost struct RespView {
    pub line: RespLineView,
    pub headers: PairsView,
    pub body: PairsView,
}

impl View for Response {
    type V = RespView;

    open spec fn view(&self) -> RespView {
        RespView { line: self.response_line@, headers: self.headers@, body: self.body@ }
    }
}

/// The body text a response carries: a body holding an `html_content`
/// field is sent as that raw text, anything else as a JSON object.
pub open spec fn spec_response_body_text(body: PairsView) -> Seq<char> {
    match spec_lookup(body, "html_content"@) {
        Some(h) => h,
        None => spec_json_body(body),
    }
}

/// The wire text of a response: line with the code's reason phrase,
/// headers, blank line, body text.
pub open spec fn spec_serialize_response(r: RespView) -> Seq<char> {
    r.line.version + seq![' '] + spec_u64_dec(r.line.code as int) + seq![' '] + spec_class_str(
        r.line.class,
    ) + seq!['\r', '\n'] + spec_header_lines(r.headers) + seq!['\r', '\n']
        + spec_response_body_text(r.body)
}

impl Response {
    /// The wire text of this response.
    pub fn to_string(&self) -> (r: String)
        ensures
            r@ == spec_serialize_response(self@),
    {
        let mut s = self.http_version_clone();
        push_char(&mut s, ' ');
        let code = u64_to_dec(self.response_line.status_code);
        s.append(code.as_str());
        push_char(&mut s, ' ');
        let cls = self.response_line.response_type.to_string();
        s.append(cls.as_str());
        push_char(&mut s, '\r');
        push_char(&mut s, '\n');
        self.headers.write_lines(&mut s);
        push_char(&mut s, '\r');
        push_char(&mut s, '\n');
        match self.body.get("html_content") {
            Some(h) => {
                s.append(h.as_str());
            },
            None => {
                let bj = self.body.to_json();
                s.append(bj.as_str());
            },
        }
        proof {
            assert(s@ =~= spec_serialize_response(self@));
        }
        s
    }

    /// An identical copy.
    pub fn duplicate(&self) -> (r: Response)
        ensures
            r@ == self@,
    {
        Response {
            response_line: ResponseLine {
                http_version: self.response_line.http_version.clone(),
                status_code: self.response_line.status_code,
                response_type: self.response_line.response_type,
            },
            headers: self.headers.duplicate(),
            body: self.body.duplicate(),
        }
    }

    fn http_version_clone(&self) -> (r: String)
        ensures
            r@ == self.response_line.http_version@,
    {
        self.response_line.http_version.clone()
    }
}

/// Every grant type's wire name parses back to the grant type itself.
pub proof fn lemma_grant_string_total(g: GrantType)
    ensures
        spec_grant_from(spec_grant_str(g)) == Some(g),
{
    reveal_strlit("authorization_code");
    reveal_strlit("implicit");
    reveal_strlit("password");
    reveal_strlit("client_credentials");
    reveal_strlit("extension");
    assert("authorization_code"@.len() == 18 && "implicit"@.len() == 8 && "password"@.len() == 8
        && "client_credentials"@.len() == 18 && "extension"@.len() == 9);
    assert("implicit"@[0] == 'i' && "password"@[0] == 'p');
    assert("authorization_code"@[0] == 'a' && "client_credentials"@[0] == 'c');
}

/// Every token type's wire name parses back to the token type itself.
pub proof fn lemma_token_type_string_total(t: TokenType)
    ensures
        spec_token_type_from(spec_token_type_str(t)) == Some(t),
{
    reveal_strlit("Bearer");
    reveal_strlit("MAC");
    reveal_strlit("bearer");
    reveal_strlit("mac");
    assert("bearer"@.len() == 6 && "mac"@.len() == 3);
    match t {
        TokenType::Bearer => {
            assert(spec_lower(spec_token_type_str(t)) =~= "bearer"@);
        },
        TokenType::Mac => {
            assert(spec_lower(spec_token_type_str(t)) =~= "mac"@);
        },
    }
}

/// Every error code's wire name parses back to the error code itself.
pub proof fn lemma_error_code_string_total(e: ErrorCode)
    ensures
        spec_error_code_from(spec_error_code_str(e)) == Some(e),
{
    reveal_strlit("invalid_request");
    reveal_strlit("invalid_client");
    reveal_strlit("invalid_grant");
    reveal_strlit("unauthorized_client");
    reveal_strlit("unsupported_grant_type");
    reveal_strlit("invalid_scope");
    assert("invalid_request"@.len() == 15 && "invalid_client"@.len() == 14 && "invalid_grant"@.len()
        == 13 && "unauthorized_client"@.len() == 19 && "unsupported_grant_type"@.len() == 22
        && "invalid_scope"@.len() == 13);
    assert("invalid_grant"@[8] == 'g' && "invalid_scope"@[8] == 's');
}

/// Every method's canonical spelling parses back to the method itself.
pub proof fn lemma_method_string_total(m: HttpMethod)
    ensures
        spec_method_from(spec_method_str(m)) == Some(m),
{
    reveal_strlit("GET");
    reveal_strlit("POST");
    reveal_strlit("PUT");
    reveal_strlit("DELETE");
    reveal_strlit("get");
    reveal_strlit("post");
    reveal_strlit("put");
    reveal_strlit("delete");
    assert("get"@.len() == 3 && "post"@.len() == 4 && "put"@.len() == 3 && "delete"@.len() == 6);
    assert("get"@[0] == 'g' && "put"@[0] == 'p');
    match m {
        HttpMethod::Get => {
            assert(spec_lower(spec_method_str(m)) =~= "get"@);
        },
        HttpMethod::Post => {
            assert(spec_lower(spec_method_str(m)) =~= "post"@);
        },
        HttpMethod::Put => {
            assert(spec_lower(spec_method_str(m)) =~= "put"@);
        },
        HttpMethod::Delete => {
            assert(spec_lower(spec_method_str(m)) =~= "delete"@);
        },
    }
}

/// An access token request: the carrying request and the five mandatory
/// fields of the resource-owner-password-credentials grant.
#[derive(Debug)]
pub struct AccessTokenRequest {
    pub request: Request,
    pub grant_type: GrantType,
    pub client_id: String,
    pub client_secret: String,
    pub username: String,
    pub password: String,
}

/// The model of an access token request.
pub ghost struct AtrView {
    pub request: ReqView,
    pub grant_type: GrantType,
    pub client_id: Seq<char>,
    pub client_secret: Seq<char>,
    pub username: Seq<char>,
    pub password: Seq<char>,
}

impl View for AccessTokenRequest {
    type V = AtrView;

    open spec fn view(&self) -> AtrView {
        AtrView {
            request: self.request@,
            grant_type: self.grant_type,
            client_id: self.client_id@,
            client_secret: self.client_secret@,
            username: self.username@,
            password: self.password@,
        }
    }
}

/// The body an access token request is sent with.
pub open spec fn spec_atr_body(a: AtrView) -> PairsView {
    seq![
        ("grant_type"@, spec_grant_str(a.grant_type)),
        ("client_id"@, a.client_id),
        ("client_secret"@, a.client_secret),
        ("username"@, a.username),
        ("password"@, a.password),
    ]
}

impl AccessTokenRequest {
    /// The wire text: the carried request with its body replaced by the
    /// five grant fields.
    pub fn to_string(&self) -> (r: String)
        ensures
            r@ == spec_serialize_request(
                ReqView {
                    line: self.request@.line,
                    headers: self.request@.headers,
                    body: spec_atr_body(self@),
                },
            ),
    {
        let mut ps: Vec<(String, String)> = Vec::new();
        ps.push(("grant_type".to_owned(), self.grant_type.to_string()));
        ps.push(("client_id".to_owned(), self.client_id.clone()));
        ps.push(("client_secret".to_owned(), self.client_secret.clone()));
        ps.push(("username".to_owned(), self.username.clone()));
        ps.push(("password".to_owned(), self.password.clone()));
        proof {
            assert forall|j: int| 0 <= j < 5 implies ps.deep_view()[j] == spec_atr_body(self@)[j]
                by {
                assert(ps.deep_view()[j] == (ps@[j].0@, ps@[j].1@));
            }
            assert(ps.deep_view() =~= spec_atr_body(self@));
        }
        let req = Request {
            request_line: RequestLine {
                method: self.request.request_line.method,
                path: self.request.request_line.path.clone(),
                http_version: self.request.request_line.http_version.clone(),
            },
            headers: self.request.headers.duplicate(),
            body: Body::from_pairs(ps),
        };
        req.to_string()
    }
}

/// An access token response: the carrying response, the token, its type,
/// and the seconds left until it expires.
#[derive(Debug)]
pub struct AccessTokenResponse {
    pub response: Response,
    pub access_token: String,
    pub token_type: TokenType,
    pub expires_in: u64,
}

/// The model of an access token response.
pub ghost struct AtRespView {
    pub response: RespView,
    pub access_token: Seq<char>,
    pub token_type: TokenType,
    pub expires_in: u64,
}

impl View for AccessTokenResponse {
    type V = AtRespView;

    open spec fn view(&self) -> AtRespView {
        AtRespView {
            response: self.response@,
            access_token: self.access_token@,
            token_type: self.token_type,
            expires_in: self.expires_in,
        }
    }
}

/// The body an access token response is sent with.
pub open spec fn spec_at_resp_body(a: AtRespView) -> PairsView {
    seq![
        ("access_token"@, a.access_token),
        ("token_type"@, spec_token_type_str(a.token_type)),
        ("expires_in"@, spec_u64_dec(a.expires_in as int)),
    ]
}

impl AccessTokenResponse {
    /// The wire text: the carried response with its body replaced by the
    /// token fields.
    pub fn to_string(&self) -> (r: String)
        ensures
            r@ == spec_serialize_response(
                RespView {
                    line: self.response@.line,
                    headers: self.response@.headers,
                    body: spec_at_resp_body(self@),
                },
            ),
    {
        let mut ps: Vec<(String, String)> = Vec::new();
        ps.push(("access_token".to_owned(), self.access_token.clone()));
        ps.push(("token_type".to_owned(), self.token_type.to_string()));
        ps.push(("expires_in".to_owned(), u64_to_dec(self.expires_in)));
        proof {
            assert forall|j: int| 0 <= j < 3 implies ps.deep_view()[j] == spec_at_resp_body(
                self@,
            )[j] by {
                assert(ps.deep_view()[j] == (ps@[j].0@, ps@[j].1@));
            }
            assert(ps.deep_view() =~= spec_at_resp_body(self@));
        }
        let resp = Response {
            response_line: ResponseLine {
                http_version: self.response.response_line.http_version.clone(),
                status_code: self.response.response_line.status_code,
                response_type: self.response.response_line.response_type,
            },
            headers: self.response.headers.duplicate(),
            body: Body::from_pairs(ps),
        };
        resp.to_string()
    }
}

/// An error response: the carrying response, the RFC error code, a human
/// description, and a reference link.
#[derive(Debug)]
pub struct ErrorResponse {
    pub response: Response,
    pub error: ErrorCode,
    pub error_description: String,
    pub error_uri: String,
}

/// The model of an error response.
pub ghost struct ErrRespView {
    pub response: RespView,
    pub error: ErrorCode,
    pub error_description: Seq<char>,
    pub error_uri: Seq<char>,
}

impl View for ErrorResponse {
    type V = ErrRespView;

    open spec fn view(&self) -> ErrRespView {
        ErrRespView {
            response: self.response@,
            error: self.error,
            error_description: self.error_description@,
            error_uri: self.error_uri@,
        }
    }
}

/// The body an error response is sent with.
pub open spec fn spec_err_resp_body(a: ErrRespView) -> PairsView {
    seq![
        ("error"@, spec_error_code_str(a.error)),
        ("error_description"@, a.error_description),
        ("error_uri"@, a.error_uri),
    ]
}

impl ErrorResponse {
    /// The wire text: the carried response with its body replaced by the
    /// error fields.
    pub fn to_string(&self) -> (r: String)
        ensures
            r@ == spec_serialize_response(
                RespView {
                    line: self.response@.line,
                    headers: self.response@.headers,
                    body: spec_err_resp_body(self@),
                },
            ),
    {
        let mut ps: Vec<(String, String)> = Vec::new();
        ps.push(("error".to_owned(), self.error.to_string()));
        ps.push(("error_description".to_owned(), self.error_description.clone()));
        ps.push(("error_uri".to_owned(), self.error_uri.clone()));
        proof {
            assert forall|j: int| 0 <= j < 3 implies ps.deep_view()[j] == spec_err_resp_body(
                self@,
            )[j] by {
                assert(ps.deep_view()[j] == (ps@[j].0@, ps@[j].1@));
            }
            assert(ps.deep_view() =~= spec_err_resp_body(self@));
        }
        let resp = Response {
            response_line: ResponseLine {
                http_version: self.response.response_line.http_version.clone(),
                status_code: self.response.response_line.status_code,
                response_type: self.response.response_line.response_type,
            },
            headers: self.response.headers.duplicate(),
            body: Body::from_pairs(ps),
        };
        resp.to_string()
    }
}

/// The wire text of an error response: its carried line and headers with
/// the error fields as the body.
pub open spec fn spec_err_text(e: ErrRespView) -> Seq<char> {
    spec_serialize_response(
        RespView {
            line: e.response.line,
            headers: e.response.headers,
            body: spec_err_resp_body(e),
        },
    )
}

/// The wire text of a response as `to_string` writes it.
pub open spec fn spec_resp_text(r: RespView) -> Seq<char> {
    spec_serialize_response(r)
}

/// Method spellings are non-empty and hold no whitespace.
pub proof fn lemma_method_str_clean(m: HttpMethod)
    ensures
        spec_method_str(m).len() > 0,
        forall|i: int|
            0 <= i < spec_method_str(m).len() ==> !is_space_char(#[trigger] spec_method_str(m)[i]),
{
    reveal_strlit("GET");
    reveal_strlit("POST");
    reveal_strlit("PUT");
    reveal_strlit("DELETE");
    match m {
        HttpMethod::Get => {
            assert forall|i: int| 0 <= i < spec_method_str(m).len() implies !is_space_char(
                #[trigger] spec_method_str(m)[i],
            ) by {
                assert("GET"@[0] == 'G' && "GET"@[1] == 'E' && "GET"@[2] == 'T');
            }
        },
        HttpMethod::Post => {
            assert forall|i: int| 0 <= i < spec_method_str(m).len() implies !is_space_char(
                #[trigger] spec_method_str(m)[i],
            ) by {
                assert("POST"@[0] == 'P' && "POST"@[1] == 'O' && "POST"@[2] == 'S' && "POST"@[3]
                    == 'T');
            }
        },
        HttpMethod::Put => {
            assert forall|i: int| 0 <= i < spec_method_str(m).len() implies !is_space_char(
                #[trigger] spec_method_str(m)[i],
            ) by {
                assert("PUT"@[0] == 'P' && "PUT"@[1] == 'U' && "PUT"@[2] == 'T');
            }
        },
        HttpMethod::Delete => {
            assert forall|i: int| 0 <= i < spec_method_str(m).len() implies !is_space_char(
                #[trigger] spec_method_str(m)[i],
            ) by {
                assert("DELETE"@[0] == 'D' && "DELETE"@[1] == 'E' && "DELETE"@[2] == 'L'
                    && "DELETE"@[3] == 'E' && "DELETE"@[4] == 'T' && "DELETE"@[5] == 'E');
            }
        },
    }
}

/// Reason phrases are non-empty, start with a letter, and hold no newline.
pub proof fn lemma_class_str_clean(t: HttpResponseType)
    ensures
        spec_class_str(t).len() > 0,
        !is_space_char(spec_class_str(t)[0]),
        !spec_has_char(spec_class_str(t), '\n'),
{
    reveal_strlit("Success");
    reveal_strlit("Redirection");
    reveal_strlit("Client Error");
    reveal_strlit("Server Error");
    match t {
        HttpResponseType::Success => {
            assert("Success"@[0] == 'S');
            assert forall|i: int| 0 <= i < spec_class_str(t).len() implies #[trigger] spec_class_str(
                t,
            )[i] != '\n' by {
                assert("Success"@[0] == 'S' && "Success"@[1] == 'u' && "Success"@[2] == 'c'
                    && "Success"@[3] == 'c' && "Success"@[4] == 'e' && "Success"@[5] == 's'
                    && "Success"@[6] == 's');
            }
        },
        HttpResponseType::Redirection => {
            assert("Redirection"@[0] == 'R');
            assert forall|i: int| 0 <= i < spec_class_str(t).len() implies #[trigger] spec_class_str(
                t,
            )[i] != '\n' by {
                assert("Redirection"@[0] == 'R' && "Redirection"@[1] == 'e' && "Redirection"@[2]
                    == 'd' && "Redirection"@[3] == 'i' && "Redirection"@[4] == 'r'
                    && "Redirection"@[5] == 'e' && "Redirection"@[6] == 'c' && "Redirection"@[7]
                    == 't' && "Redirection"@[8] == 'i' && "Redirection"@[9] == 'o'
                    && "Redirection"@[10] == 'n');
            }
        },
        HttpResponseType::ClientError => {
            assert("Client Error"@[0] == 'C');
            assert forall|i: int| 0 <= i < spec_class_str(t).len() implies #[trigger] spec_class_str(
                t,
            )[i] != '\n' by {
                assert("Client Error"@[0] == 'C' && "Client Error"@[1] == 'l' && "Client Error"@[2]
                    == 'i' && "Client Error"@[3] == 'e' && "Client Error"@[4] == 'n'
                    && "Client Error"@[5] == 't' && "Client Error"@[6] == ' ' && "Client Error"@[7]
                    == 'E' && "Client Error"@[8] == 'r' && "Client Error"@[9] == 'r'
                    && "Client Error"@[10] == 'o' && "Client Error"@[11] == 'r');
            }
        },
        HttpResponseType::ServerError => {
            assert("Server Error"@[0] == 'S');
            assert forall|i: int| 0 <= i < spec_class_str(t).len() implies #[trigger] spec_class_str(
                t,
            )[i] != '\n' by {
                assert("Server Error"@[0] == 'S' && "Server Error"@[1] == 'e' && "Server Error"@[2]
                    == 'r' && "Server Error"@[3] == 'v' && "Server Error"@[4] == 'e'
                    && "Server Error"@[5] == 'r' && "Server Error"@[6] == ' ' && "Server Error"@[7]
                    == 'E' && "Server Error"@[8] == 'r' && "Server Error"@[9] == 'r'
                    && "Server Error"@[10] == 'o' && "Server Error"@[11] == 'r');
            }
        },
    }
}

} // verus!
