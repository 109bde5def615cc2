//! Where the host's HTTP client connects for a request: the scheme, host
//! and port of the URL, and the key under which the connection is reused.
use vstd::prelude::*;
use vstd::string::StringExecFns;

use crate::text::{decimal, push_decimal, lemma_decimal_injective, lemma_decimal_shape};

verus! {

/// A URL of the `url` crate, carried through unchanged.
#[verifier::external_type_specification]
#[verifier::external_body]
pub struct ExUrl(url::Url);

/// Why the `url` crate could not parse a URL, carried through unchanged.
#[verifier::external_type_specification]
#[verifier::external_body]
pub struct ExUrlParseError(url::ParseError);

/// Whether the `url` crate parses `input` as an absolute URL.
pub uninterp spec fn url_parses(input: Seq<char>) -> bool;

/// The scheme the `url` crate finds in the URL `input`.
pub uninterp spec fn url_scheme(input: Seq<char>) -> Seq<char>;

/// The host the `url` crate finds in the URL `input`, if it has one.
pub uninterp spec fn url_host(input: Seq<char>) -> Option<Seq<char>>;

/// The port of the URL `input`, or the usual port of its scheme, as the
/// `url` crate finds it.
pub uninterp spec fn url_port_or_known_default(input: Seq<char>) -> Option<u16>;

/// A URL together with the text it was parsed from.
pub struct ParsedUrl {
    url: url::Url,
    input: Ghost<Seq<char>>,
}

impl View for ParsedUrl {
    type V = Seq<char>;

    /// The text the URL was parsed from.
    closed spec fn view(&self) -> Seq<char> {
        self.input@
    }
}

/// Parses an absolute URL.
/// Trusted: `url::Url::parse`, which succeeds exactly on the texts it parses;
/// which texts those are is only named.
#[verifier::external_body]
fn parse_url(input: &str) -> (r: Result<ParsedUrl, url::ParseError>)
    ensures
        r is Ok <==> url_parses(input@),
        r matches Ok(u) ==> u@ == input@,
{
    match url::Url::parse(input) {
        Ok(url) => Ok(ParsedUrl { url, input: Ghost(input@) }),
        Err(e) => Err(e),
    }
}

/// The scheme of a URL.
/// Trusted: `url::Url::scheme`, a function of the parsed text that is only named.
#[verifier::external_body]
fn url_scheme_of(u: &ParsedUrl) -> (s: String)
    ensures
        s@ == url_scheme(u@),
{
    u.url.scheme().to_string()
}

/// The host of a URL, if it has one.
/// Trusted: `url::Url::host_str`, a function of the parsed text that is only named.
#[verifier::external_body]
fn url_host_of(u: &ParsedUrl) -> (h: Option<String>)
    ensures
        h is None <==> url_host(u@) is None,
        h matches Some(h) ==> url_host(u@) == Some(h@),
{
    u.url.host_str().map(|h| h.to_string())
}

/// The port of a URL, or the usual port of its scheme.
/// Trusted: `url::Url::port_or_known_default`, a function of the parsed text
/// that is only named.
#[verifier::external_body]
fn url_port_of(u: &ParsedUrl) -> (p: Option<u16>)
    ensures
        p == url_port_or_known_default(u@),
{
    u.url.port_or_known_default()
}

/// Why a request's URL gives no place to connect to.
#[derive(Debug, Clone, Copy, PartialEq, Eq, Structural)]
pub enum ClientError {
    /// The URL does not parse.
    InvalidUrl,
    /// The URL has no host.
    NoHost,
    /// The URL has no port and its scheme has no usual one.
    NoPort,
}

/// Where a request goes: scheme, host and port, and the key of the
/// connection that serves them.
#[derive(Debug)]
pub struct ConnectionTarget {
    pub scheme: String,
    pub host: String,
    pub port: u16,
    pub key: String,
}

/// The key of the connection for a scheme, host and port:
/// `scheme://host:port`.
pub open spec fn connection_key(scheme: Seq<char>, host: Seq<char>, port: u16) -> Seq<char> {
    scheme + "://"@ + host + ":"@ + decimal(port as nat)
}

/// Requests to different ports never share a connection: two equal keys
/// name the same port, whatever their schemes and hosts.
pub proof fn lemma_connection_key_port(scheme1: Seq<char>, host1: Seq<char>, port1: u16, scheme2: Seq<char>, host2: Seq<char>, port2: u16)
    requires
        connection_key(scheme1, host1, port1) == connection_key(scheme2, host2, port2),
    ensures
        port1 == port2,
{
    reveal_strlit(":");
    let k = connection_key(scheme1, host1, port1);
    let d1 = decimal(port1 as nat);
    let d2 = decimal(port2 as nat);
    let a1 = scheme1 + "://"@ + host1;
    let a2 = scheme2 + "://"@ + host2;
    lemma_decimal_shape(port1 as nat);
    lemma_decimal_shape(port2 as nat);
    assert(k =~= a1 + seq![':'] + d1);
    assert(k =~= a2 + seq![':'] + d2);
    if d1.len() < d2.len() {
        let i = k.len() - d1.len() - 1;
        assert(k[i] == ':');
        assert(k[i] == d2[d2.len() - d1.len() - 1]);
    } else if d2.len() < d1.len() {
        let i = k.len() - d2.len() - 1;
        assert(k[i] == ':');
        assert(k[i] == d1[d1.len() - d2.len() - 1]);
    } else {
        assert(d1 =~= k.skip(k.len() - d1.len()));
        assert(d2 =~= k.skip(k.len() - d2.len()));
        lemma_decimal_injective(port1 as nat, port2 as nat);
    }
}

/// Where a request to the URL `url` connects, or why it cannot.
pub fn connection_target(url: &str) -> (r: Result<ConnectionTarget, ClientError>)
    ensures
        !url_parses(url@) ==> r == Err::<ConnectionTarget, ClientError>(ClientError::InvalidUrl),
        url_parses(url@) && url_host(url@) is None ==> r == Err::<ConnectionTarget, ClientError>(ClientError::NoHost),
        url_parses(url@) && url_host(url@) is Some && url_port_or_known_default(url@) is None
            ==> r == Err::<ConnectionTarget, ClientError>(ClientError::NoPort),
        url_parses(url@) && url_host(url@) is Some && url_port_or_known_default(url@) is Some ==> (r matches Ok(t) && {
            &&& t.scheme@ == url_scheme(url@)
            &&& Some(t.host@) == url_host(url@)
            &&& Some(t.port) == url_port_or_known_default(url@)
            &&& t.key@ == connection_key(t.scheme@, t.host@, t.port)
        }),
{
    let parsed = match parse_url(url) {
        Ok(p) => p,
        Err(_) => return Err(ClientError::InvalidUrl),
    };
    let host = match url_host_of(&parsed) {
        Some(h) => h,
        None => return Err(ClientError::NoHost),
    };
    let port = match url_port_of(&parsed) {
        Some(p) => p,
        None => return Err(ClientError::NoPort),
    };
    let scheme = url_scheme_of(&parsed);
    let mut key = scheme.clone();
    key.append("://");
    key.append(host.as_str());
    key.append(":");
    push_decimal(&mut key, port as u64);
    proof {
        assert(key@ =~= connection_key(scheme@, host@, port));
    }
    Ok(ConnectionTarget { scheme, host, port, key })
}


/// What a connection has measured since its last reset: bytes sent and
/// received, and, in microseconds from the connection's start, when the
/// first byte came back and when the last write went out.
#[derive(Debug, Clone, Copy, PartialEq, Eq, Structural)]
pub struct TransferStats {
    pub bytes_sent: u64,
    pub bytes_received: u64,
    pub time_to_first_byte: u64,
    pub send_time: u64,
}

impl TransferStats {
    /// Nothing measured yet.
    pub fn new() -> (s: TransferStats)
        ensures
            s == (TransferStats { bytes_sent: 0, bytes_received: 0, time_to_first_byte: 0, send_time: 0 }),
    {
        TransferStats { bytes_sent: 0, bytes_received: 0, time_to_first_byte: 0, send_time: 0 }
    }

    /// Counts `bytes_read` received bytes; the first read that brings bytes
    /// while no first byte is recorded records `elapsed_micros`. The byte
    /// counter wraps around.
    pub fn record_read(&mut self, bytes_read: u64, elapsed_micros: u64)
        ensures
            final(self).bytes_received == (old(self).bytes_received + bytes_read) % 0x1_0000_0000_0000_0000,
            final(self).time_to_first_byte == if old(self).time_to_first_byte == 0 && bytes_read > 0 {
                elapsed_micros
            } else {
                old(self).time_to_first_byte
            },
            final(self).bytes_sent == old(self).bytes_sent,
            final(self).send_time == old(self).send_time,
    {
        self.bytes_received = self.bytes_received.wrapping_add(bytes_read);
        if self.time_to_first_byte == 0 && bytes_read > 0 {
            self.time_to_first_byte = elapsed_micros;
        }
    }

    /// Counts `bytes_written` sent bytes and records `elapsed_micros` as the
    /// time of the last write. The byte counter wraps around.
    pub fn record_write(&mut self, bytes_written: u64, elapsed_micros: u64)
        ensures
            final(self).bytes_sent == (old(self).bytes_sent + bytes_written) % 0x1_0000_0000_0000_0000,
            final(self).send_time == elapsed_micros,
            final(self).bytes_received == old(self).bytes_received,
            final(self).time_to_first_byte == old(self).time_to_first_byte,
    {
        self.bytes_sent = self.bytes_sent.wrapping_add(bytes_written);
        self.send_time = elapsed_micros;
    }

    /// Starts measuring the next request on the same connection: the byte
    /// counts and the first-byte time start over; the send time stays.
    pub fn reset(&mut self)
        ensures
            final(self).bytes_sent == 0,
            final(self).bytes_received == 0,
            final(self).time_to_first_byte == 0,
            final(self).send_time == old(self).send_time,
    {
        self.bytes_sent = 0;
        self.bytes_received = 0;
        self.time_to_first_byte = 0;
    }
}

} // verus!
