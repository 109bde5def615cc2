//! The host side of scenario execution: the HTTP types the host works with
//! and the resources it hands to scenario modules.
use vstd::prelude::*;

use std::collections::HashMap;

use crate::services::RunId;

verus! {

/// An HTTP method the host can send.
#[derive(Debug, Clone, Copy, PartialEq, Eq, Structural)]
pub enum HTTPMethod {
    HEAD,
    GET,
    POST,
    PATCH,
    PUT,
    DELETE,
    OPTIONS,
    TRACE,
}

/// A request the host sends for a scenario.
#[derive(Debug)]
pub struct HTTPRequest {
    pub url: String,
    pub method: HTTPMethod,
    pub headers: HashMap<String, String>,
    pub body: Option<String>,
}

/// Why a request failed.
#[derive(Debug)]
pub struct HTTPError {
    pub message: String,
}

/// A response the host received.
#[derive(Debug)]
pub struct HTTPResponse {
    pub headers: HashMap<String, String>,
    pub body: Vec<u8>,
    pub status: u16,
}

/// Errors about runs.
#[derive(Debug)]
pub enum Error {
    NoSuchRun(RunId),
}

/// The body of an outgoing HTTP message, as a host resource.
pub struct OutgoingBody;

/// Where the response to an incoming request is written, as a host resource.
pub struct ResponseOutparam;

/// The options of an outgoing request, as a host resource.
pub struct RequestOptions;

/// An outgoing HTTP response, as a host resource.
pub struct OutgoingResponse;

} // verus!
