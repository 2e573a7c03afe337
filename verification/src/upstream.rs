//! Tunnels through an operator's own HTTP CONNECT proxy.

use vstd::prelude::*;

use crate::address::{socket_text, SocketAddress};
use crate::text::push_text;

verus! {

/// The most bytes of header that an upstream proxy may answer with.
pub const MAX_RESPONSE_HEADER_BYTES: usize = 32_768;

/// The most header lines that an upstream proxy may answer with.
pub const MAX_RESPONSE_HEADERS: usize = 64;

/// Why an upstream proxy gave no tunnel.
#[derive(Clone, Copy, Debug, PartialEq, Eq, Structural)]
pub enum UpstreamError {
    /// The answer is no complete HTTP response head.
    InvalidResponse,
    /// The answer is not a success.
    Refused,
}

impl UpstreamError {
    /// The text that describes this error.
    pub open spec fn text(self) -> Seq<char> {
        match self {
            UpstreamError::InvalidResponse => "invalid upstream proxy response"@,
            UpstreamError::Refused => "upstream proxy refused CONNECT"@,
        }
    }

    pub fn message(self) -> (text: &'static str)
        ensures
            text@ == self.text(),
    {
        match self {
            UpstreamError::InvalidResponse => "invalid upstream proxy response",
            UpstreamError::Refused => "upstream proxy refused CONNECT",
        }
    }
}

/// The request that asks an upstream proxy for a numeric destination.
pub open spec fn upstream_request_text(target: SocketAddress) -> Seq<char> {
    "CONNECT "@ + socket_text(target) + " HTTP/1.1\r\nHost: "@ + socket_text(target)
        + "\r\n\r\n"@
}

/// Ask an upstream proxy for an approved numeric destination. Nothing that the
/// guest sent goes into the request.
pub fn upstream_request(target: SocketAddress) -> (request: String)
    ensures
        request@ == upstream_request_text(target),
{
    let authority = target.to_text();
    let mut request = "CONNECT ".to_owned();
    push_text(&mut request, authority.as_str());
    push_text(&mut request, " HTTP/1.1\r\nHost: ");
    push_text(&mut request, authority.as_str());
    push_text(&mut request, "\r\n\r\n");
    request
}

/// What the bytes say as an HTTP/1 response head with at most so many header
/// lines: the status code where the head is complete, `None` where it is not.
pub uninterp spec fn response_status(bytes: Seq<u8>, max_headers: nat) -> Option<Option<u16>>;

/// `httparse::Response::parse` with room for `max_headers` header lines: a
/// function of the bytes and that number alone.
#[verifier::external_body]
fn read_response_status(bytes: &[u8], max_headers: usize) -> (status: Option<Option<u16>>)
    ensures
        status == response_status(bytes@, max_headers as nat),
{
    let mut slots = vec![httparse::EMPTY_HEADER; max_headers];
    let mut response = httparse::Response::new(&mut slots);
    match response.parse(bytes) {
        Ok(httparse::Status::Complete(_)) => Some(response.code),
        Ok(httparse::Status::Partial) => None,
        Err(_) => None,
    }
}

/// What a status means: a tunnel only where the head is complete and its code
/// is a success.
pub open spec fn tunnel_granted(status: Option<Option<u16>>) -> Result<(), UpstreamError> {
    match status {
        None => Err(UpstreamError::InvalidResponse),
        Some(Some(code)) => if 200 <= code <= 299 {
            Ok(())
        } else {
            Err(UpstreamError::Refused)
        },
        Some(None) => Err(UpstreamError::Refused),
    }
}

/// What the status of an answer means.
///
/// # Errors
///
/// Returns why there is no tunnel.
pub fn judge_status(status: Option<Option<u16>>) -> (result: Result<(), UpstreamError>)
    ensures
        result == tunnel_granted(status),
{
    match status {
        None => Err(UpstreamError::InvalidResponse),
        Some(Some(code)) => if 200 <= code && code <= 299 {
            Ok(())
        } else {
            Err(UpstreamError::Refused)
        },
        Some(None) => Err(UpstreamError::Refused),
    }
}

/// What the answer of an upstream proxy means.
///
/// # Errors
///
/// Returns why there is no tunnel.
pub fn validate_response(bytes: &[u8]) -> (result: Result<(), UpstreamError>)
    ensures
        result == tunnel_granted(response_status(bytes@, MAX_RESPONSE_HEADERS as nat)),
{
    judge_status(read_response_status(bytes, MAX_RESPONSE_HEADERS))
}

/// Bytes that arrived behind the answer of an upstream proxy and are read
/// before anything else of the tunnel.
#[derive(Debug)]
pub struct Prefix {
    pub bytes: Vec<u8>,
    pub offset: usize,
}

impl Prefix {
    pub open spec fn well_formed(self) -> bool {
        self.offset <= self.bytes@.len()
    }

    /// The bytes that are still to be read.
    pub open spec fn pending(self) -> Seq<u8> {
        self.bytes@.skip(self.offset as int)
    }

    pub fn new(bytes: Vec<u8>) -> (prefix: Self)
        ensures
            prefix.well_formed(),
            prefix.pending() == bytes@,
    {
        let prefix = Prefix { bytes, offset: 0 };
        assert(prefix.pending() =~= prefix.bytes@);
        prefix
    }

    pub fn is_empty(&self) -> (empty: bool)
        requires
            self.well_formed(),
        ensures
            empty == (self.pending().len() == 0),
    {
        self.offset >= self.bytes.len()
    }

    /// Hand out as many pending bytes as there is room for.
    pub fn serve(&mut self, room: usize) -> (served: Vec<u8>)
        requires
            old(self).well_formed(),
        ensures
            final(self).well_formed(),
            served@ + final(self).pending() == old(self).pending(),
            served@.len() == (if room <= old(self).pending().len() {
                room as nat
            } else {
                old(self).pending().len()
            }),
    {
        let ghost before = self.pending();
        let left: usize = self.bytes.len() - self.offset;
        let count: usize = if room <= left {
            room
        } else {
            left
        };
        let end: usize = self.offset + count;
        let mut served: Vec<u8> = Vec::new();
        served.extend_from_slice(&self.bytes.as_slice()[self.offset..end]);
        assert(served@ =~= before.take(count as int));
        self.offset = end;
        assert(self.pending() =~= before.skip(count as int));
        if self.offset == self.bytes.len() {
            self.bytes = Vec::new();
            self.offset = 0;
            assert(self.pending() =~= before.skip(count as int));
        }
        assert(before.take(count as int) + before.skip(count as int) =~= before);
        served
    }
}

/// An upstream proxy gives a tunnel exactly with a complete head of at most 64
/// lines whose code is one of the two hundreds.
pub proof fn law_two_hundreds_are_tunnels(status: Option<Option<u16>>)
    ensures
        tunnel_granted(status) is Ok <==> (status matches Some(Some(code)) && code / 100 == 2),
        status is None ==> tunnel_granted(status) == Err::<(), UpstreamError>(
            UpstreamError::InvalidResponse,
        ),
        MAX_RESPONSE_HEADERS == 64,
        MAX_RESPONSE_HEADER_BYTES == 32_768,
{
}

/// The request to an upstream proxy names the destination twice, as its target
/// and at the end of its Host line, and is as long as that takes.
pub proof fn law_upstream_requests_name_the_destination(target: SocketAddress)
    ensures
        ({
            let named = socket_text(target);
            let text = upstream_request_text(target);
            let end = text.len() - 4;
            &&& text.len() == 2 * named.len() + 29
            &&& text.subrange(8, (8 + named.len()) as int) == named
            &&& text.subrange(end - named.len(), end) == named
        }),
{
    reveal_strlit("CONNECT ");
    reveal_strlit(" HTTP/1.1\r\nHost: ");
    reveal_strlit("\r\n\r\n");
    let named = socket_text(target);
    let text = upstream_request_text(target);
    let end = text.len() - 4;
    assert(text.subrange(8, (8 + named.len()) as int) =~= named);
    assert(text.subrange(end - named.len(), end) =~= named);
}

} // verus!
