//! The HTTP face of the server: which request goes where, and the answers
//! that need no stream.

use vstd::prelude::*;
use vstd::string::*;
use crate::error::{ProtocolError, StreamError};
use crate::stmt::ProtoError;
use crate::version::Version;

verus! {

/// What a request asks for, by its method and its path.
#[derive(Clone, Copy, Debug, PartialEq, Eq, Structural)]
pub enum Route {
    GetIndex,
    PostPipeline,
}

/// The method of a request.
#[derive(Clone, Copy, Debug, PartialEq, Eq, Structural)]
pub enum Method {
    Get,
    Post,
    Other,
}

/// The bytes of the path `/`.
pub open spec fn index_path() -> Seq<u8> {
    seq![47u8]
}

/// The bytes of the path of the pipeline for a version of the protocol:
/// `/v1/pipeline`, `/v2/pipeline` or `/v3/pipeline`.
pub open spec fn pipeline_path(version: Version) -> Seq<u8> {
    seq![
        47u8,
        118u8,
        (48 + version.rank()) as u8,
        47u8,
        112u8,
        105u8,
        112u8,
        101u8,
        108u8,
        105u8,
        110u8,
        101u8,
    ]
}

/// The version of the protocol that a path of the pipeline stands for.
pub open spec fn version_of_path(path: Seq<u8>) -> Option<Version> {
    if path == pipeline_path(Version::Hrana1) {
        Some(Version::Hrana1)
    } else if path == pipeline_path(Version::Hrana2) {
        Some(Version::Hrana2)
    } else if path == pipeline_path(Version::Hrana3) {
        Some(Version::Hrana3)
    } else {
        None
    }
}

/// Where a request goes: `GET /` to the index, `POST` to a path of the
/// pipeline to the pipeline, and every other request nowhere.
pub open spec fn route_of(method: Method, path: Seq<u8>) -> Option<Route> {
    if method == Method::Get && path == index_path() {
        Some(Route::GetIndex)
    } else if method == Method::Post && version_of_path(path) is Some {
        Some(Route::PostPipeline)
    } else {
        None
    }
}

/// Whether `path` is the bytes `want`.
fn path_is(path: &[u8], want: &[u8]) -> (same: bool)
    ensures
        same == (path@ == want@),
{
    let n: usize = path.len();
    if n != want.len() {
        return false;
    }
    let mut i: usize = 0;
    while i < n
        invariant
            i <= n,
            n == path@.len(),
            n == want@.len(),
            forall|k: int| 0 <= k < i ==> path@[k] == want@[k],
        decreases n - i,
    {
        if path[i] != want[i] {
            return false;
        }
        i += 1;
    }
    assert(path@ =~= want@);
    true
}

/// The version of the protocol that a request to the pipeline speaks, by
/// the bytes of its path.
pub fn pipeline_version(path: &[u8]) -> (r: Option<Version>)
    ensures
        r == version_of_path(path@),
{
    let v1: [u8; 12] = [47, 118, 49, 47, 112, 105, 112, 101, 108, 105, 110, 101];
    let v2: [u8; 12] = [47, 118, 50, 47, 112, 105, 112, 101, 108, 105, 110, 101];
    let v3: [u8; 12] = [47, 118, 51, 47, 112, 105, 112, 101, 108, 105, 110, 101];
    assert(v1@ =~= pipeline_path(Version::Hrana1));
    assert(v2@ =~= pipeline_path(Version::Hrana2));
    assert(v3@ =~= pipeline_path(Version::Hrana3));
    if path_is(path, v1.as_slice()) {
        Some(Version::Hrana1)
    } else if path_is(path, v2.as_slice()) {
        Some(Version::Hrana2)
    } else if path_is(path, v3.as_slice()) {
        Some(Version::Hrana3)
    } else {
        None
    }
}

/// Where a request goes, by its method and the bytes of its path.
pub fn route(method: Method, path: &[u8]) -> (r: Option<Route>)
    ensures
        r == route_of(method, path@),
{
    let index: [u8; 1] = [47];
    assert(index@ =~= index_path());
    match method {
        Method::Get => if path_is(path, index.as_slice()) {
            Some(Route::GetIndex)
        } else {
            None
        },
        Method::Post => match pipeline_version(path) {
            Some(_) => Some(Route::PostPipeline),
            None => None,
        },
        Method::Other => None,
    }
}

/// The body of an answer.
#[derive(Debug, PartialEq, Eq)]
pub enum Body {
    /// Plain text.
    Text(String),
    /// An error, to be written as JSON.
    Json(ProtoError),
}

/// An answer: its status and its body. A text goes out as `text/plain`, an
/// error as `application/json`.
#[derive(Debug, PartialEq, Eq)]
pub struct Response {
    pub status: u16,
    pub body: Body,
}

impl Response {
    /// The content type that the answer goes out with.
    pub fn content_type(&self) -> (t: &'static str)
        ensures
            t@ == match self.body {
                Body::Text(_) => "text/plain"@,
                Body::Json(_) => "application/json"@,
            },
    {
        match self.body {
            Body::Text(_) => "text/plain",
            Body::Json(_) => "application/json",
        }
    }
}

/// An answer that carries an error as JSON.
pub fn json_response(status: u16, resp_body: ProtoError) -> (r: Response)
    ensures
        r == (Response { status, body: Body::Json(resp_body) }),
{
    Response { status, body: Body::Json(resp_body) }
}

/// An answer that carries plain text.
pub fn text_response(status: u16, resp_body: String) -> (r: Response)
    ensures
        r == (Response { status, body: Body::Text(resp_body) }),
{
    Response { status, body: Body::Text(resp_body) }
}

/// The answer to a request for the index: a greeting.
pub fn handle_index() -> (r: Response)
    ensures
        r.status == 200,
        r.body matches Body::Text(text) && text@ == "Hello, this is HTTP API v2 (Hrana over HTTP)"@,
{
    text_response(200, String::from_str("Hello, this is HTTP API v2 (Hrana over HTTP)"))
}

/// The answer to a request that broke the protocol: a bad request, with the
/// error's text.
pub fn protocol_error_response(err: &ProtocolError) -> (r: Response)
    ensures
        r.status == 400,
        r.body matches Body::Text(text) && text@ == err.message_text(),
{
    text_response(400, err.message())
}

/// The answer to a request whose baton resumes no stream: a server error
/// that carries the error's text and code.
pub fn stream_error_response(err: StreamError) -> (r: Response)
    ensures
        r.status == 500,
        r.body matches Body::Json(e) && e.message@ == err.message_text() && e.code@
            == err.code_name(),
{
    json_response(500, ProtoError { message: err.message(), code: String::from_str(err.code()) })
}

} // verus!
