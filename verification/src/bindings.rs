//! What a scenario module exchanges with its host: HTTP requests and
//! responses, and the packed word the host answers a call with.
use vstd::prelude::*;

use std::collections::HashMap;

verus! {

/// An HTTP method a scenario can use.
#[derive(Debug, Clone, Copy, PartialEq, Eq, Structural)]
pub enum HTTPMethod {
    HEAD,
    GET,
    POST,
    PUT,
    DELETE,
    OPTIONS,
}

/// A request a scenario asks the host to send.
#[derive(Debug)]
pub struct HTTPRequest {
    pub url: String,
    pub method: HTTPMethod,
    pub headers: HashMap<String, String>,
    pub body: Option<String>,
}

/// Why the host could not complete a request.
#[derive(Debug)]
pub struct HTTPError {
    pub message: String,
}

/// The response the host received.
#[derive(Debug)]
pub struct HTTPResponse {
    pub headers: HashMap<String, String>,
    pub body: String,
    pub status: u16,
}

impl HTTPRequest {
    /// The request a scenario sends for `url`: the body is always present,
    /// even when empty.
    pub fn new(url: String, method: HTTPMethod, headers: HashMap<String, String>, body: String) -> (r: HTTPRequest)
        ensures
            r.url == url,
            r.method == method,
            r.headers == headers,
            r.body == Some(body),
    {
        HTTPRequest { url, method, headers, body: Some(body) }
    }
}

/// Splits the word the host answers a call with into its status (top 8
/// bits), the length of the reply (next 24 bits) and the index of the buffer
/// holding it (low 32 bits).
pub fn extract_from_return_value(value: u64) -> (r: (u8, u32, u32))
    ensures
        r.0 == value / 0x100_0000_0000_0000,
        r.1 == (value / 0x1_0000_0000) % 0x100_0000,
        r.2 == value % 0x1_0000_0000,
{
    let status = ((value >> 56) & 0xFF) as u8;
    let length = ((value >> 32) & 0x00FF_FFFF) as u32;
    let ptr = (value & 0xFFFF_FFFF) as u32;
    assert(((value >> 56) & 0xFF) == value / 0x100_0000_0000_0000) by (bit_vector);
    assert(((value >> 32) & 0x00FF_FFFF) == (value / 0x1_0000_0000) % 0x100_0000) by (bit_vector);
    assert((value & 0xFFFF_FFFF) == value % 0x1_0000_0000) by (bit_vector);
    (status, length, ptr)
}

/// How the host answered a call: whether it succeeded, and where its reply
/// lies.
#[derive(Debug, Clone, Copy, PartialEq, Eq, Structural)]
pub struct HostReply {
    pub ok: bool,
    pub length: u32,
    pub index: u32,
}

/// Reads the word the host answers a call with: the call succeeded when the
/// status is zero.
pub fn host_reply(value: u64) -> (r: HostReply)
    ensures
        r.ok == (value / 0x100_0000_0000_0000 == 0),
        r.length == (value / 0x1_0000_0000) % 0x100_0000,
        r.index == value % 0x1_0000_0000,
{
    let (status, length, index) = extract_from_return_value(value);
    HostReply { ok: status == 0, length, index }
}

/// The three fields of the word cover it exactly: no bit is lost, so the
/// word is rebuilt from status, length and index.
pub proof fn lemma_return_value_fields(value: u64)
    ensures
        value == (value / 0x100_0000_0000_0000) * 0x100_0000_0000_0000
            + ((value / 0x1_0000_0000) % 0x100_0000) * 0x1_0000_0000
            + value % 0x1_0000_0000,
{
    assert(value == (value / 0x100_0000_0000_0000) * 0x100_0000_0000_0000
        + ((value / 0x1_0000_0000) % 0x100_0000) * 0x1_0000_0000
        + value % 0x1_0000_0000) by (nonlinear_arith);
}

} // verus!
