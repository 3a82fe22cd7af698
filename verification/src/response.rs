//! Outbound HTTP responses: the response type, the error taxonomy with its
//! fixed error responses, and the static-file success response.

use vstd::prelude::*;
use vstd::string::StrSliceExecFns;
use vstd::string::StringSliceAdditionalSpecFns;
use crate::resolve::{resolve_kind, TargetKind};

verus! {

/// One outbound HTTP header, name and value as raw bytes. CGI output is a
/// byte stream, so header values need not be valid UTF-8.
#[derive(Clone, Debug, PartialEq, Eq)]
pub struct Header {
    pub name: Vec<u8>,
    pub value: Vec<u8>,
}

impl View for Header {
    type V = (Seq<u8>, Seq<u8>);

    open spec fn view(&self) -> (Seq<u8>, Seq<u8>) {
        (self.name@, self.value@)
    }
}

/// The mathematical content of a header list: the sequence of name/value
/// byte-sequence pairs.
pub open spec fn headers_model(hs: Seq<Header>) -> Seq<(Seq<u8>, Seq<u8>)> {
    hs.map_values(|h: Header| h@)
}

/// An outbound HTTP response: status code, headers, body bytes.
#[derive(Clone, Debug, PartialEq, Eq)]
pub struct HttpResponse {
    pub status: u16,
    pub headers: Vec<Header>,
    pub body: Vec<u8>,
}

impl HttpResponse {
    /// The mathematical content of the response: status, header pairs,
    /// body bytes.
    pub open spec fn model(&self) -> (int, Seq<(Seq<u8>, Seq<u8>)>, Seq<u8>) {
        (self.status as int, headers_model(self.headers@), self.body@)
    }
}

/// Everything that can go wrong while serving one request. Each kind maps
/// to a fixed HTTP error response; no failure escapes the gateway.
#[derive(Clone, Copy, Debug, PartialEq, Eq)]
pub enum GatewayError {
    /// Neither the static root nor the CGI root holds the requested file.
    TargetNotFound,
    /// The static file vanished or was unreadable between check and read.
    StaticReadFailure,
    /// The CGI executable could not be launched.
    SpawnFailure,
    /// The CGI process exited with a non-success status.
    ScriptExecutionFailure,
    /// The CGI output has no header block terminated by a blank line, a
    /// header line without a colon, or an unusable `Status` value.
    MalformedCgiOutput,
}

/// The HTTP status code of each error kind: a missing target is `404`,
/// every other failure is a `500`-class server error.
pub open spec fn error_status(e: GatewayError) -> int {
    match e {
        GatewayError::TargetNotFound => 404,
        _ => 500,
    }
}

/// The fixed diagnostic body of each error kind.
pub open spec fn error_message(e: GatewayError) -> Seq<u8> {
    match e {
        GatewayError::TargetNotFound => ("Not found").spec_bytes(),
        GatewayError::StaticReadFailure => ("Failed to read the requested file").spec_bytes(),
        GatewayError::SpawnFailure => ("Failed to launch CGI script").spec_bytes(),
        GatewayError::ScriptExecutionFailure => ("CGI script error").spec_bytes(),
        GatewayError::MalformedCgiOutput => ("Malformed CGI output").spec_bytes(),
    }
}

/// The full response model of an error: its status, no headers, and its
/// fixed diagnostic body.
pub open spec fn error_model(e: GatewayError) -> (int, Seq<(Seq<u8>, Seq<u8>)>, Seq<u8>) {
    (error_status(e), Seq::<(Seq<u8>, Seq<u8>)>::empty(), error_message(e))
}

/// Builds the HTTP response for a failure: the kind's status code and
/// fixed diagnostic body, and nothing else — in particular nothing a CGI
/// process may have written.
pub fn error_response(e: GatewayError) -> (r: HttpResponse)
    ensures
        r.model() == error_model(e),
{
    let status: u16 = match e {
        GatewayError::TargetNotFound => 404,
        _ => 500,
    };
    let body: Vec<u8> = match e {
        GatewayError::TargetNotFound => ("Not found").as_bytes_vec(),
        GatewayError::StaticReadFailure => ("Failed to read the requested file").as_bytes_vec(),
        GatewayError::SpawnFailure => ("Failed to launch CGI script").as_bytes_vec(),
        GatewayError::ScriptExecutionFailure => ("CGI script error").as_bytes_vec(),
        GatewayError::MalformedCgiOutput => ("Malformed CGI output").as_bytes_vec(),
    };
    let r = HttpResponse { status, headers: Vec::new(), body };
    proof {
        assert(headers_model(r.headers@) =~= Seq::<(Seq<u8>, Seq<u8>)>::empty());
    }
    r
}

/// The MIME type that the file-extension registry assigns to a path, with
/// `text/plain` as the fallback; a fixed function of the path alone.
pub uninterp spec fn mime_of(path: Seq<char>) -> Seq<u8>;

/// Relies on `mime_guess::from_path(..).first_or_text_plain()`: the guess
/// reads only the path's extension, so the result is a function of the
/// path alone.
#[verifier::external_body]
fn guess_mime_type(path: &str) -> (r: Vec<u8>)
    ensures
        r@ == mime_of(path@),
{
    mime_guess::from_path(path).first_or_text_plain().as_ref().as_bytes().to_vec()
}

/// The response model for a successfully read static file: `200`, the
/// guessed content type, an advisory cache directive, and the file's bytes
/// verbatim.
pub open spec fn static_model(path: Seq<char>, content: Seq<u8>) -> (
    int,
    Seq<(Seq<u8>, Seq<u8>)>,
    Seq<u8>,
) {
    (
        200,
        seq![
            (("Content-Type").spec_bytes(), mime_of(path)),
            (("Cache-Control").spec_bytes(), ("max-age=3600").spec_bytes()),
        ],
        content,
    )
}

/// Builds the success response for a static file read: status `200`, a
/// `Content-Type` header guessed from the path's extension, an advisory
/// `Cache-Control` directive, and the file's bytes as the body, unchanged.
pub fn static_ok_response(path: &str, content: Vec<u8>) -> (r: HttpResponse)
    ensures
        r.model() == static_model(path@, content@),
{
    let mut headers: Vec<Header> = Vec::new();
    headers.push(Header { name: ("Content-Type").as_bytes_vec(), value: guess_mime_type(path) });
    headers.push(
        Header { name: ("Cache-Control").as_bytes_vec(), value: ("max-age=3600").as_bytes_vec() },
    );
    let r = HttpResponse { status: 200, headers, body: content };
    proof {
        assert(headers_model(r.headers@) =~= static_model(path@, r.body@).1);
    }
    r
}

/// A request path matching neither root resolves to no target, and a
/// missing target is answered with status `404`.
pub proof fn lemma_unmatched_path_not_found()
    ensures
        resolve_kind(false, false) == TargetKind::NotFound,
        error_model(GatewayError::TargetNotFound).0 == 404,
{
}

/// Repeating a request for a static file yields a byte-identical
/// response: the response is a function of the path and the file's bytes
/// alone, so two reads that return the same bytes answer alike.
pub proof fn lemma_static_idempotent(
    path: Seq<char>,
    content: Seq<u8>,
    r1: (int, Seq<(Seq<u8>, Seq<u8>)>, Seq<u8>),
    r2: (int, Seq<(Seq<u8>, Seq<u8>)>, Seq<u8>),
)
    requires
        r1 == static_model(path, content),
        r2 == static_model(path, content),
    ensures
        r1 == r2,
{
}

} // verus!
