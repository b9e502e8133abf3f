//! The HTTP transport's logic: its settings from the URL, the headers of a
//! request, and reading the body of an answer.
use vstd::prelude::*;
use vstd::string::StringExecFns;
use vstd::utf8::encode_utf8;
use crate::dispatch::RequestIds;
use crate::error::Error;
use crate::rpc::{
    Call, Request, RequestId, RpcOutput, RpcResponse, json_rpc_response, json_text_of_request, output_result,
    parse_response, request_to_json, to_result_from_output, to_results_from_outputs,
};
use crate::text::{decimal, to_decimal};

verus! {

/// Requests at most this many parallel connections by default.
pub const DEFAULT_MAX_PARALLEL: usize = 64;

/// A request body shorter than this is sent with a `content-length` header
/// rather than chunked.
pub const MAX_SINGLE_CHUNK: usize = 256;

/// The user name and password written in a URL.
#[derive(Debug)]
pub struct UserInfo {
    pub username: String,
    pub password: Option<String>,
}

/// What `url::Url::parse` makes of a text: its user name (`Url::username`) and
/// password (`Url::password`), or the debug text of the parse error.
pub uninterp spec fn url_user_info(url: Seq<char>) -> Result<(Seq<char>, Option<Seq<char>>), Seq<char>>;

/// The character of a 6-bit value in base64's standard alphabet: `A`-`Z`,
/// `a`-`z`, `0`-`9`, `+`, `/`.
pub open spec fn base64_char(v: int) -> char {
    if v < 26 {
        (65 + v) as char
    } else if v < 52 {
        (71 + v) as char
    } else if v < 62 {
        (v - 4) as char
    } else if v == 62 {
        '+'
    } else {
        '/'
    }
}

/// What `base64::encode` writes for some bytes: each group of three bytes as
/// four characters of the standard alphabet, high bits first; a last group of
/// one or two bytes as two or three characters, padded with `=` to four.
pub open spec fn base64_text(bytes: Seq<u8>) -> Seq<char>
    decreases bytes.len(),
{
    if bytes.len() == 0 {
        seq![]
    } else if bytes.len() == 1 {
        let b0 = bytes[0] as int;
        seq![base64_char(b0 / 4), base64_char((b0 % 4) * 16), '=', '=']
    } else if bytes.len() == 2 {
        let (b0, b1) = (bytes[0] as int, bytes[1] as int);
        seq![base64_char(b0 / 4), base64_char((b0 % 4) * 16 + b1 / 16), base64_char((b1 % 16) * 4), '=']
    } else {
        let (b0, b1, b2) = (bytes[0] as int, bytes[1] as int, bytes[2] as int);
        seq![
            base64_char(b0 / 4),
            base64_char((b0 % 4) * 16 + b1 / 16),
            base64_char((b1 % 16) * 4 + b2 / 64),
            base64_char(b2 % 64),
        ] + base64_text(bytes.skip(3))
    }
}

/// Parses a URL with `url::Url::parse` and reads its user name and password.
/// The contract claims that the result is a function of the text alone.
#[verifier::external_body]
pub(crate) fn parse_user_info(url: &str) -> (r: Result<UserInfo, String>)
    ensures
        match (r, url_user_info(url@)) {
            (Ok(u), Ok((name, pass))) => u.username@ == name && match (u.password, pass) {
                (Some(a), Some(b)) => a@ == b,
                (None, None) => true,
                _ => false,
            },
            (Err(e), Err(t)) => e@ == t,
            _ => false,
        },
{
    match url::Url::parse(url) {
        Ok(u) => Ok(UserInfo {
            username: u.username().to_string(),
            password: u.password().map(|p| p.to_string()),
        }),
        Err(e) => Err(format!("{:?}", e)),
    }
}

/// Encodes bytes with `base64::encode`: the standard alphabet, with padding.
#[verifier::external_body]
fn encode_base64(bytes: &[u8]) -> (s: String)
    ensures
        s@ == base64_text(bytes@),
{
    base64::encode(bytes)
}

/// What parsing a text as a `hyper::Uri` (`http::Uri`'s `FromStr`) rejects: the
/// debug text of the parse error, or `None` when the text parses.
pub uninterp spec fn hyper_uri_error(url: Seq<char>) -> Option<Seq<char>>;

/// Parses a URL as a `hyper::Uri`. The contract claims that the outcome is a
/// function of the text alone.
#[verifier::external_body]
pub(crate) fn parse_uri(url: &str) -> (r: Result<(), String>)
    ensures
        match (r, hyper_uri_error(url@)) {
            (Ok(_), None) => true,
            (Err(e), Some(t)) => e@ == t,
            _ => false,
        },
{
    url.parse::<hyper::Uri>().map(|_| ()).map_err(|e| format!("{:?}", e))
}

/// An HTTP status code, as the client hands it over.
#[verifier::external_type_specification]
#[verifier::external_body]
pub struct ExStatusCode(hyper::StatusCode);

/// The number of a status (`hyper::StatusCode::as_u16`).
pub uninterp spec fn http_status_code(status: hyper::StatusCode) -> u16;

/// The canonical reason phrase of a status (`hyper::StatusCode::canonical_reason`),
/// such as `Internal Server Error`, where the status has one.
pub uninterp spec fn http_status_reason(status: hyper::StatusCode) -> Option<Seq<char>>;

/// The number of a status, with `hyper::StatusCode::as_u16`.
#[verifier::external_body]
fn status_code(status: &hyper::StatusCode) -> (n: u16)
    ensures
        n == http_status_code(*status),
{
    status.as_u16()
}

/// The canonical reason phrase of a status, with
/// `hyper::StatusCode::canonical_reason`.
#[verifier::external_body]
fn status_reason(status: &hyper::StatusCode) -> (r: Option<String>)
    ensures
        match (r, http_status_reason(*status)) {
            (Some(a), Some(b)) => a@ == b,
            (None, None) => true,
            _ => false,
        },
{
    status.canonical_reason().map(|r| r.to_string())
}

/// `user:password`, or `user:` when the URL has no password.
pub open spec fn credentials(user: Seq<char>, pass: Option<Seq<char>>) -> Seq<char> {
    match pass {
        Some(p) => user + ":"@ + p,
        None => user + ":"@,
    }
}

/// The `authorization` header value for a URL's user info: none without a user
/// name, else `Basic ` and the base64 text of `user:password`.
pub open spec fn basic_auth_of(user: Seq<char>, pass: Option<Seq<char>>) -> Option<Seq<char>> {
    if user.len() == 0 {
        None
    } else {
        Some("Basic "@ + base64_text(encode_utf8(credentials(user, pass))))
    }
}

/// The `authorization` header value that a URL asks for: `Basic` credentials
/// when the URL names a user. A URL that does not parse is a transport error
/// holding the parse error's debug text.
pub fn basic_auth(url: &str) -> (r: Result<Option<String>, Error>)
    ensures
        match url_user_info(url@) {
            Ok((user, pass)) => r matches Ok(auth) && match (auth, basic_auth_of(user, pass)) {
                (Some(a), Some(b)) => a@ == b,
                (None, None) => true,
                _ => false,
            },
            Err(t) => r matches Err(Error::Transport(m)) && m@ == t,
        },
{
    proof {
        reveal_strlit(":");
        reveal_strlit("Basic ");
    }
    let info = match parse_user_info(url) {
        Ok(info) => info,
        Err(e) => return Err(Error::Transport(e)),
    };
    if !info.username.as_str().is_empty() {
        let mut auth = info.username;
        auth.append(":");
        match &info.password {
            Some(p) => auth.append(p.as_str()),
            None => {},
        }
        let encoded = encode_base64(auth.as_str().as_bytes());
        let mut header = String::from_str("Basic ");
        header.append(encoded.as_str());
        Ok(Some(header))
    } else {
        Ok(None)
    }
}

/// An HTTP status code in the success class (200 to 299).
pub open spec fn is_success(code: u16) -> bool {
    200 <= code < 300
}

/// Whether an answer's status code is a success; any other status fails the request.
pub fn is_success_status(code: u16) -> (r: bool)
    ensures
        r == is_success(code),
{
    200 <= code && code < 300
}

/// The text of a status as `hyper::StatusCode`'s `Display` writes it: the
/// number, a space, and the reason phrase or `<unknown status code>`.
pub open spec fn status_text(code: u16, reason: Option<Seq<char>>) -> Seq<char> {
    decimal(code as nat) + " "@ + match reason {
        Some(r) => r,
        None => "<unknown status code>"@,
    }
}

/// What an answer with this status gives before its body is read: nothing to
/// report for a success, else a transport error that names the status.
pub fn check_status(status: &hyper::StatusCode) -> (r: Result<(), Error>)
    ensures
        is_success(http_status_code(*status)) ==> r is Ok,
        !is_success(http_status_code(*status)) ==> (r matches Err(Error::Transport(m))
            && m@ == "Unexpected response status code: "@
                + status_text(http_status_code(*status), http_status_reason(*status))),
{
    proof {
        reveal_strlit(" ");
        reveal_strlit("<unknown status code>");
        reveal_strlit("Unexpected response status code: ");
    }
    let code = status_code(status);
    if is_success_status(code) {
        return Ok(());
    }
    let mut m = String::from_str("Unexpected response status code: ");
    m.append(to_decimal(code as usize).as_str());
    m.append(" ");
    match status_reason(status) {
        Some(reason) => m.append(reason.as_str()),
        None => m.append("<unknown status code>"),
    }
    Err(Error::Transport(m))
}

/// The headers of a request whose body is `len` bytes long.
pub open spec fn headers_of(len: nat, auth: Option<Seq<char>>) -> Seq<(Seq<char>, Seq<char>)> {
    let base = seq![("content-type"@, "application/json"@), ("user-agent"@, "web3.rs"@)];
    let sized = if len < MAX_SINGLE_CHUNK { base.push(("content-length"@, decimal(len))) } else { base };
    match auth {
        Some(a) => sized.push(("authorization"@, a)),
        None => sized,
    }
}

/// The view of a header list.
pub open spec fn headers_view(h: Seq<(String, String)>) -> Seq<(Seq<char>, Seq<char>)> {
    h.map_values(|p: (String, String)| (p.0@, p.1@))
}

/// An HTTP request to send: its method, target, body and headers.
#[derive(Debug)]
pub struct HttpRequest {
    pub method: String,
    pub url: String,
    pub body: String,
    pub headers: Vec<(String, String)>,
}

/// The HTTP transport's settings: where it posts, with which credentials, how
/// many requests may run at once, and the numbering of its requests.
#[derive(Debug)]
pub struct Http {
    ids: RequestIds,
    url: String,
    basic_auth: Option<String>,
    max_parallel: usize,
}

impl Http {
    /// The URL requests are posted to.
    pub closed spec fn spec_url(&self) -> Seq<char> {
        self.url@
    }

    /// The `authorization` header value sent with each request.
    pub closed spec fn spec_basic_auth(&self) -> Option<Seq<char>> {
        match self.basic_auth {
            Some(a) => Some(a@),
            None => None,
        }
    }

    /// How many requests may run at once.
    pub closed spec fn spec_max_parallel(&self) -> usize {
        self.max_parallel
    }

    /// The id of the next request.
    pub closed spec fn spec_next_id(&self) -> usize {
        self.ids.spec_next()
    }

    /// A transport for `url` that runs at most 64 requests at once.
    pub fn new(url: &str) -> (r: Result<Http, Error>)
        ensures
            Http::with_max_parallel_result(url@, DEFAULT_MAX_PARALLEL, r),
    {
        Http::with_max_parallel(url, DEFAULT_MAX_PARALLEL)
    }

    /// What `with_max_parallel` gives for a URL.
    pub open spec fn with_max_parallel_result(url: Seq<char>, max_parallel: usize, r: Result<Http, Error>) -> bool {
        match url_user_info(url) {
            Ok((user, pass)) => match hyper_uri_error(url) {
                None => r matches Ok(h) && {
                    &&& h.spec_url() == url
                    &&& h.spec_basic_auth() == basic_auth_of(user, pass)
                    &&& h.spec_max_parallel() == max_parallel
                    &&& h.spec_next_id() == 0
                },
                Some(t) => r matches Err(Error::Transport(m)) && m@ == t,
            },
            Err(t) => r matches Err(Error::Transport(m)) && m@ == t,
        }
    }

    /// A transport for `url` that runs at most `max_parallel` requests at once;
    /// its requests carry the URL's credentials, and are numbered from 0. The URL
    /// must parse both as a `url::Url` and as a `hyper::Uri`; the first parse that
    /// rejects it gives a transport error.
    pub fn with_max_parallel(url: &str, max_parallel: usize) -> (r: Result<Http, Error>)
        ensures
            Http::with_max_parallel_result(url@, max_parallel, r),
    {
        let basic_auth = match basic_auth(url) {
            Ok(a) => a,
            Err(e) => return Err(e),
        };
        match parse_uri(url) {
            Ok(_) => {},
            Err(t) => return Err(Error::Transport(t)),
        }
        Ok(Http { ids: RequestIds::new(0), url: String::from_str(url), basic_auth, max_parallel })
    }

    /// The URL requests are posted to.
    pub fn url(&self) -> (u: &String)
        ensures
            u@ == self.spec_url(),
    {
        &self.url
    }

    /// How many requests may run at once.
    pub fn max_parallel(&self) -> (n: usize)
        ensures
            n == self.spec_max_parallel(),
    {
        self.max_parallel
    }

    /// Takes the next id and builds the call for `method` with `params`.
    pub fn prepare(&mut self, method: &str, params: Vec<serde_json::Value>) -> (r: (RequestId, Call))
        ensures
            r.0 == old(self).spec_next_id(),
            final(self).spec_next_id() == crate::dispatch::next_id(old(self).spec_next_id()),
            final(self).spec_url() == old(self).spec_url(),
            final(self).spec_basic_auth() == old(self).spec_basic_auth(),
            final(self).spec_max_parallel() == old(self).spec_max_parallel(),
            r.1.method@ == method@,
            r.1.params == params,
            r.1.id == r.0 as u64,
            r.1.jsonrpc == Some(crate::rpc::Version::V2),
    {
        self.ids.prepare(method, params)
    }

    /// The request to post: the request's JSON text as body, sent as JSON by
    /// `web3.rs`, with its length when the body is short, and with the
    /// transport's credentials.
    pub fn build_request(&self, request: &Request) -> (r: HttpRequest)
        ensures
            r.method@ == "POST"@,
            r.url@ == self.spec_url(),
            self.spec_basic_auth() matches Some(a) ==> headers_view(r.headers@).contains(("authorization"@, a)),
            r.body@ == json_text_of_request(*request),
            headers_view(r.headers@) == headers_of(
                (encode_utf8(r.body@).len() as usize) as nat,
                self.spec_basic_auth(),
            ),
    {
        proof {
            reveal_strlit("POST");
            reveal_strlit("content-type");
            reveal_strlit("application/json");
            reveal_strlit("user-agent");
            reveal_strlit("web3.rs");
            reveal_strlit("content-length");
            reveal_strlit("authorization");
        }
        let body = request_to_json(request);
        let len = body.as_str().len();
        let mut headers: Vec<(String, String)> = Vec::new();
        headers.push((String::from_str("content-type"), String::from_str("application/json")));
        headers.push((String::from_str("user-agent"), String::from_str("web3.rs")));
        let ghost base = seq![("content-type"@, "application/json"@), ("user-agent"@, "web3.rs"@)];
        assert(headers_view(headers@) =~= base);
        if len < MAX_SINGLE_CHUNK {
            headers.push((String::from_str("content-length"), to_decimal(len)));
        }
        let ghost sized = if len < MAX_SINGLE_CHUNK { base.push(("content-length"@, decimal(len as nat))) } else { base };
        assert(headers_view(headers@) =~= sized);
        match &self.basic_auth {
            Some(a) => {
                let v = a.clone();
                headers.push((String::from_str("authorization"), v));
                assert(headers_view(headers@) =~= sized.push(("authorization"@, a@)));
            },
            None => {},
        }
        assert(headers_view(headers@) =~= headers_of(len as nat, self.spec_basic_auth()));
        proof {
            law_credentials_go_with_every_request(len as nat, self.spec_basic_auth());
        }
        HttpRequest { method: String::from_str("POST"), url: self.url.clone(), body, headers }
    }
}

/// What `single_response` gives for a body.
pub open spec fn single_response_of(bytes: Seq<u8>, r: Result<serde_json::Value, Error>) -> bool {
    match json_rpc_response(bytes) {
        Ok(RpcResponse::Single(o)) => r == output_result(o),
        Ok(RpcResponse::Batch(_)) => r matches Err(Error::InvalidResponse(m)) && m@ == "Expected single, got batch."@,
        Err(t) => r matches Err(Error::InvalidResponse(m)) && m@ == t,
    }
}

/// Reads the body of the answer to a single call: the outcome of its one
/// output. A body that is no JSON-RPC response, or a batch, is an invalid response.
pub fn single_response(response: &[u8]) -> (r: Result<serde_json::Value, Error>)
    ensures
        single_response_of(response@, r),
{
    match parse_response(response) {
        Ok(RpcResponse::Single(output)) => to_result_from_output(output),
        Ok(RpcResponse::Batch(_)) => Err(Error::InvalidResponse(String::from_str("Expected single, got batch."))),
        Err(e) => Err(Error::InvalidResponse(e)),
    }
}

/// What `batch_response` gives for a body.
pub open spec fn batch_response_of(bytes: Seq<u8>, r: Result<Vec<Result<serde_json::Value, Error>>, Error>) -> bool {
    match json_rpc_response(bytes) {
        Ok(RpcResponse::Batch(outputs)) => r matches Ok(results)
            && results@ == outputs@.map_values(|o: RpcOutput| output_result(o)),
        Ok(RpcResponse::Single(_)) => r matches Err(Error::InvalidResponse(m)) && m@ == "Expected batch, got single."@,
        Err(t) => r matches Err(Error::InvalidResponse(m)) && m@ == t,
    }
}

/// Reads the body of the answer to a batch: the outcomes of its outputs, in
/// order. A body that is no JSON-RPC response, or a single one, is an invalid
/// response.
pub fn batch_response(response: &[u8]) -> (r: Result<Vec<Result<serde_json::Value, Error>>, Error>)
    ensures
        batch_response_of(response@, r),
{
    match parse_response(response) {
        Ok(RpcResponse::Batch(outputs)) => Ok(to_results_from_outputs(outputs)),
        Ok(RpcResponse::Single(_)) => Err(Error::InvalidResponse(String::from_str("Expected batch, got single."))),
        Err(e) => Err(Error::InvalidResponse(e)),
    }
}

/// Every request of a transport with credentials carries them, whatever the
/// length of its body; a short body (under 256 bytes) also carries its length,
/// and every request says that it is JSON sent by `web3.rs`.
pub proof fn law_credentials_go_with_every_request(len: nat, auth: Option<Seq<char>>)
    ensures
        auth matches Some(a) ==> headers_of(len, auth).contains(("authorization"@, a)),
        len < MAX_SINGLE_CHUNK ==> headers_of(len, auth).contains(("content-length"@, decimal(len))),
        headers_of(len, auth).contains(("content-type"@, "application/json"@)),
        headers_of(len, auth).contains(("user-agent"@, "web3.rs"@)),
{
    let h = headers_of(len, auth);
    let base = seq![("content-type"@, "application/json"@), ("user-agent"@, "web3.rs"@)];
    let sized = if len < MAX_SINGLE_CHUNK { base.push(("content-length"@, decimal(len))) } else { base };
    assert(h[0] == ("content-type"@, "application/json"@));
    assert(h[1] == ("user-agent"@, "web3.rs"@));
    if len < MAX_SINGLE_CHUNK {
        assert(h[2] == ("content-length"@, decimal(len)));
    }
    if let Some(a) = auth {
        assert(h[sized.len() as int] == ("authorization"@, a));
    }
}

} // verus!
