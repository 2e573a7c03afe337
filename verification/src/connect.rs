//! The CONNECT header: how it is read in pieces and what it asks for.

use vstd::prelude::*;
use vstd::utf8::is_ascii_chars;

use crate::address::{ip_literal, parse_ip, IpAddress};
use crate::hostname::{
    canonical_hostname, canonical_name, lower_char, lower_text, to_ascii_lowercase,
};
use crate::text::same_text;

verus! {

/// The most header lines that a CONNECT request may have.
pub const MAX_CONNECT_HEADERS: usize = 64;

/// Whether an empty line, `\r\n\r\n`, stands at this offset.
pub open spec fn blank_line_at(bytes: Seq<u8>, at: int) -> bool {
    &&& 0 <= at
    &&& at + 4 <= bytes.len()
    &&& bytes[at] == 13
    &&& bytes[at + 1] == 10
    &&& bytes[at + 2] == 13
    &&& bytes[at + 3] == 10
}

/// Where the header ends: just past the first empty line at or after `from`.
pub open spec fn header_end(bytes: Seq<u8>, from: int) -> Option<int>
    decreases bytes.len() - from,
{
    if from + 4 > bytes.len() {
        None
    } else if blank_line_at(bytes, from) {
        Some(from + 4)
    } else {
        header_end(bytes, from + 1)
    }
}

/// Find the end of the header, looking for its empty line from an offset on.
pub fn find_header_end(bytes: &[u8], scan_from: usize) -> (end: Option<usize>)
    ensures
        match end {
            Some(end) => header_end(bytes@, scan_from as int) == Some(end as int),
            None => header_end(bytes@, scan_from as int) is None,
        },
{
    if bytes.len() < 4 {
        return None;
    }
    let last: usize = bytes.len() - 4;
    let mut at: usize = scan_from;
    while at <= last
        invariant
            scan_from <= at,
            last == bytes.len() - 4,
            header_end(bytes@, scan_from as int) == header_end(bytes@, at as int),
        decreases last + 1 - at,
    {
        if bytes[at] == 13 && bytes[at + 1] == 10 && bytes[at + 2] == 13 && bytes[at + 3] == 10 {
            return Some(at + 4);
        }
        at += 1;
    }
    None
}

proof fn lemma_no_blank_line(bytes: Seq<u8>, from: int, at: int)
    requires
        header_end(bytes, from) is None,
        0 <= from <= at,
    ensures
        !blank_line_at(bytes, at),
    decreases bytes.len() - from,
{
    if from + 4 <= bytes.len() && from < at {
        lemma_no_blank_line(bytes, from + 1, at);
    }
}

proof fn lemma_skip_to(bytes: Seq<u8>, from: int, to: int)
    requires
        0 <= from <= to,
        forall|at: int| from <= at < to ==> !blank_line_at(bytes, at),
    ensures
        header_end(bytes, from) == header_end(bytes, to),
    decreases to - from,
{
    if from < to {
        lemma_skip_to(bytes, from + 1, to);
        if from + 4 > bytes.len() {
            assert(header_end(bytes, to) is None);
        }
    }
}

proof fn lemma_first_end(bytes: Seq<u8>, from: int)
    requires
        0 <= from,
        header_end(bytes, from) is Some,
    ensures
        from + 4 <= header_end(bytes, from)->0 <= bytes.len(),
        blank_line_at(bytes, header_end(bytes, from)->0 - 4),
        forall|at: int| from <= at < header_end(bytes, from)->0 - 4 ==> !blank_line_at(bytes, at),
    decreases bytes.len() - from,
{
    if !blank_line_at(bytes, from) {
        lemma_first_end(bytes, from + 1);
    }
}

/// The end that a prefix of the wire shows is the end that the whole wire
/// shows, as soon as the prefix reaches it. So it does not matter where reads
/// split the wire.
pub proof fn law_header_end_ignores_read_boundaries(wire: Seq<u8>, received: int)
    requires
        0 <= received <= wire.len(),
    ensures
        header_end(wire.take(received), 0) == (match header_end(wire, 0) {
            Some(end) => if end <= received {
                Some(end)
            } else {
                None
            },
            None => None,
        }),
{
    let part = wire.take(received);
    assert forall|at: int| 0 <= at && at + 4 <= received implies blank_line_at(part, at)
        == blank_line_at(wire, at) by {}
    match header_end(wire, 0) {
        Some(end) => {
            lemma_first_end(wire, 0);
            if end <= received {
                assert forall|at: int| 0 <= at < end - 4 implies !blank_line_at(part, at) by {
                    assert(blank_line_at(part, at) == blank_line_at(wire, at));
                }
                lemma_skip_to(part, 0, end - 4);
                assert(blank_line_at(part, end - 4));
            } else if header_end(part, 0) is Some {
                lemma_first_end(part, 0);
                assert(blank_line_at(wire, header_end(part, 0)->0 - 4));
            }
        },
        None => {
            if header_end(part, 0) is Some {
                lemma_first_end(part, 0);
                lemma_no_blank_line(wire, 0, header_end(part, 0)->0 - 4);
            }
        },
    }
}

/// What one read added to a header.
#[derive(Clone, Copy, Debug, PartialEq, Eq, Structural)]
pub enum HeaderProgress {
    /// The header goes on.
    Incomplete,
    /// The header ends just before this offset.
    Complete(usize),
    /// The limit is reached and the header has not ended.
    TooLarge,
}

/// A header as far as it has been read.
#[derive(Debug)]
pub struct HeaderReader {
    pub bytes: Vec<u8>,
    pub limit: usize,
}

impl HeaderReader {
    /// Nothing past the limit has been taken, and no empty line is in sight.
    pub open spec fn well_formed(self) -> bool {
        &&& self.bytes@.len() <= self.limit
        &&& header_end(self.bytes@, 0) is None
    }

    pub fn new(limit: usize) -> (reader: Self)
        ensures
            reader.well_formed(),
            reader.limit == limit,
            reader.bytes@ == Seq::<u8>::empty(),
    {
        HeaderReader { bytes: Vec::new(), limit }
    }

    /// How many bytes the next read may take into a buffer of this size.
    pub fn wanted(&self, buffer: usize) -> (bytes: usize)
        requires
            self.well_formed(),
        ensures
            bytes == (if self.limit - self.bytes@.len() <= buffer {
                (self.limit - self.bytes@.len()) as usize
            } else {
                buffer
            }),
    {
        let room: usize = self.limit - self.bytes.len();
        if room <= buffer {
            room
        } else {
            buffer
        }
    }

    /// Take what a read returned. Only the seam with the earlier bytes and the
    /// new bytes are searched.
    pub fn push(&mut self, chunk: &[u8]) -> (progress: HeaderProgress)
        requires
            old(self).well_formed(),
            old(self).bytes@.len() + chunk@.len() <= old(self).limit,
        ensures
            final(self).limit == old(self).limit,
            final(self).bytes@ == old(self).bytes@ + chunk@,
            match progress {
                HeaderProgress::Complete(end) => header_end(final(self).bytes@, 0) == Some(
                    end as int,
                ),
                HeaderProgress::TooLarge => final(self).well_formed() && final(self).bytes@.len()
                    == final(self).limit,
                HeaderProgress::Incomplete => final(self).well_formed() && final(self).bytes@.len()
                    < final(self).limit,
            },
    {
        let ghost before = self.bytes@;
        let scan_from: usize = self.bytes.len().saturating_sub(3);
        self.bytes.extend_from_slice(chunk);
        proof {
            assert(self.bytes@ =~= before + chunk@);
            assert forall|at: int| 0 <= at < scan_from implies !blank_line_at(self.bytes@, at) by {
                lemma_no_blank_line(before, 0, at);
            }
            lemma_skip_to(self.bytes@, 0, scan_from as int);
        }
        match find_header_end(self.bytes.as_slice(), scan_from) {
            Some(end) => HeaderProgress::Complete(end),
            None => if self.bytes.len() >= self.limit {
                HeaderProgress::TooLarge
            } else {
                HeaderProgress::Incomplete
            },
        }
    }
}

/// A complete header and whatever was read past it.
#[derive(Debug)]
pub struct HeaderBlock {
    pub bytes: Vec<u8>,
    pub end: usize,
}

/// One header line of a request.
#[derive(Debug)]
pub struct HeaderLine {
    pub name: String,
    pub value: Vec<u8>,
}

/// The parts of a complete request head.
#[derive(Debug)]
pub struct RequestHead {
    pub method: Option<String>,
    pub path: Option<String>,
    pub version: Option<u8>,
    pub headers: Vec<HeaderLine>,
}

/// What a parser made of a request head.
#[derive(Debug)]
pub enum HeadParse {
    Complete(RequestHead),
    Partial,
    TooManyHeaders,
    Malformed,
}

/// What a request head says.
#[verifier::ext_equal]
pub enum HeadView {
    Complete {
        method: Option<Seq<char>>,
        path: Option<Seq<char>>,
        version: Option<u8>,
        headers: Seq<(Seq<char>, Seq<u8>)>,
    },
    Partial,
    TooManyHeaders,
    Malformed,
}

pub open spec fn optional_text(text: Option<String>) -> Option<Seq<char>> {
    match text {
        Some(text) => Some(text@),
        None => None,
    }
}

pub open spec fn lines_view(lines: Seq<HeaderLine>) -> Seq<(Seq<char>, Seq<u8>)> {
    Seq::new(lines.len(), |i: int| (lines[i].name@, lines[i].value@))
}

impl View for HeadParse {
    type V = HeadView;

    open spec fn view(&self) -> HeadView {
        match self {
            HeadParse::Complete(head) => HeadView::Complete {
                method: optional_text(head.method),
                path: optional_text(head.path),
                version: head.version,
                headers: lines_view(head.headers@),
            },
            HeadParse::Partial => HeadView::Partial,
            HeadParse::TooManyHeaders => HeadView::TooManyHeaders,
            HeadParse::Malformed => HeadView::Malformed,
        }
    }
}

/// What the bytes say as an HTTP/1 request head with at most so many header
/// lines.
pub uninterp spec fn request_head(bytes: Seq<u8>, max_headers: nat) -> HeadView;

/// `httparse::Request::parse` with room for `max_headers` header lines: a
/// function of the bytes and that number alone.
#[verifier::external_body]
fn read_request_head(bytes: &[u8], max_headers: usize) -> (head: HeadParse)
    ensures
        head@ == request_head(bytes@, max_headers as nat),
{
    let mut slots = vec![httparse::EMPTY_HEADER; max_headers];
    let mut request = httparse::Request::new(&mut slots);
    match request.parse(bytes) {
        Ok(httparse::Status::Complete(_)) => HeadParse::Complete(RequestHead {
            method: request.method.map(str::to_owned),
            path: request.path.map(str::to_owned),
            version: request.version,
            headers: request.headers.iter().map(
                |line| HeaderLine { name: line.name.to_owned(), value: line.value.to_vec() },
            ).collect(),
        }),
        Ok(httparse::Status::Partial) => HeadParse::Partial,
        Err(httparse::Error::TooManyHeaders) => HeadParse::TooManyHeaders,
        Err(_) => HeadParse::Malformed,
    }
}

/// The host and the port of an authority such as `example.com:443`.
#[derive(Debug)]
pub struct Authority {
    pub host: String,
    pub port: Option<u16>,
}

/// The host and the port that a text names as a URI authority, where it is
/// one. An IPv6 host keeps its brackets.
pub uninterp spec fn authority_parts(text: Seq<char>) -> Option<(Seq<char>, Option<u16>)>;

pub open spec fn authority_view(authority: Option<Authority>) -> Option<(Seq<char>, Option<u16>)> {
    match authority {
        Some(authority) => Some((authority.host@, authority.port)),
        None => None,
    }
}

/// `http::uri::Authority` from a text, with its `host` and `port_u16`: a
/// function of the text alone, `None` where the text is no authority.
#[verifier::external_body]
fn parse_authority(text: &str) -> (authority: Option<Authority>)
    ensures
        authority_view(authority) == authority_parts(text@),
{
    let authority: http::uri::Authority = text.parse().ok()?;
    Some(Authority { host: authority.host().to_owned(), port: authority.port_u16() })
}

/// The destination that a guest asked for.
#[derive(Debug)]
pub struct ConnectRequest {
    pub host: String,
    pub port: u16,
}

/// Whether a request head asks for a tunnel, and for which target.
pub open spec fn requested_target(head: HeadView) -> Result<Seq<char>, Seq<char>> {
    match head {
        HeadView::Partial => Err("incomplete-header"@),
        HeadView::TooManyHeaders => Err("too-many-headers"@),
        HeadView::Malformed => Err("malformed-header"@),
        HeadView::Complete { method, path, version, .. } => if method != Some("CONNECT"@) {
            Err("connect-required"@)
        } else if version != Some(0u8) && version != Some(1u8) {
            Err("unsupported-http-version"@)
        } else {
            match path {
                None => Err("missing-authority"@),
                Some(target) => if target.contains('@') {
                    Err("userinfo-not-allowed"@)
                } else {
                    Ok(target)
                },
            }
        },
    }
}

/// Whether a host is written in square brackets.
pub open spec fn bracketed(host: Seq<char>) -> bool {
    host.len() >= 2 && host[0] == '[' && host.last() == ']'
}

/// The host without square brackets around it.
pub open spec fn unbracketed(host: Seq<char>) -> Seq<char> {
    if bracketed(host) {
        host.subrange(1, host.len() - 1)
    } else {
        host
    }
}

/// The destination that an authority names, given what its host is as an IP
/// address.
pub open spec fn requested_destination(
    authority: Option<(Seq<char>, Option<u16>)>,
    literal: Option<IpAddress>,
) -> Result<(Seq<char>, u16), Seq<char>> {
    match authority {
        None => Err("invalid-authority"@),
        Some((host, port)) => match port {
            None => Err("missing-port"@),
            Some(port) => if unbracketed(host).len() == 0 {
                Err("missing-host"@)
            } else if bracketed(host) && !(literal matches Some(IpAddress::V6(_))) {
                Err("invalid-ipv6-literal"@)
            } else if port == 0 {
                Err("invalid-port"@)
            } else {
                Ok((unbracketed(host), port))
            },
        },
    }
}

/// What a host is as text, as an IP address, and as a canonical hostname.
#[verifier::ext_equal]
pub struct HostView {
    pub text: Seq<char>,
    pub literal: Option<IpAddress>,
    pub name: Option<Seq<char>>,
}

/// What a text is as a host.
pub open spec fn host_view(text: Seq<char>) -> HostView {
    HostView { text, literal: ip_literal(text), name: canonical_name(text) }
}

/// Whether two hosts are the same: the same IP address, the same canonical
/// hostname, or, where they are neither, the same text.
pub open spec fn same_reading(left: HostView, right: HostView) -> bool {
    match (left.literal, right.literal) {
        (Some(left), Some(right)) => left == right,
        (None, None) => match (left.name, right.name) {
            (Some(left), Some(right)) => left == right,
            (None, None) => left.text == right.text,
            _ => false,
        },
        _ => false,
    }
}

/// Whether two texts name the same host.
pub open spec fn same_host(left: Seq<char>, right: Seq<char>) -> bool {
    same_reading(host_view(left), host_view(right))
}

/// The text that ASCII bytes spell.
pub open spec fn ascii_text(bytes: Seq<u8>) -> Option<Seq<char>> {
    if forall|i: int| 0 <= i < bytes.len() ==> #[trigger] bytes[i] < 128 {
        Some(Seq::new(bytes.len(), |i: int| bytes[i] as char))
    } else {
        None
    }
}

/// Whether the authority in a Host line names a destination: the same host, and
/// the same port where it gives one. It gives none where its host is the whole
/// text.
pub open spec fn authority_agrees(
    authority: Option<(Seq<char>, Option<u16>)>,
    text: Seq<char>,
    same: bool,
    port: u16,
) -> bool {
    match authority {
        None => false,
        Some((named, named_port)) => same && (named == text || named_port == Some(port)),
    }
}

/// Whether the value of a Host line names this destination.
pub open spec fn host_line_agrees(value: Seq<u8>, host: Seq<char>, port: u16) -> bool {
    match ascii_text(value) {
        None => false,
        Some(text) => !text.contains('@') && authority_agrees(
            authority_parts(text),
            text,
            same_host(unbracketed((authority_parts(text)->0).0), host),
            port,
        ),
    }
}

/// Whether every Host line of the request names the destination.
pub open spec fn host_lines_agree(
    headers: Seq<(Seq<char>, Seq<u8>)>,
    host: Seq<char>,
    port: u16,
) -> bool {
    forall|i: int|
        0 <= i < headers.len() && lower_text((#[trigger] headers[i]).0) == "host"@
            ==> host_line_agrees(headers[i].1, host, port)
}

/// What a request head asks for: a host and a port, or the reason for which the
/// request is refused.
pub open spec fn connect_request(head: HeadView) -> Result<(Seq<char>, u16), Seq<char>> {
    match requested_target(head) {
        Err(reason) => Err(reason),
        Ok(target) => {
            let authority = authority_parts(target);
            let literal = match authority {
                Some((host, _)) => ip_literal(unbracketed(host)),
                None => None,
            };
            match requested_destination(authority, literal) {
                Err(reason) => Err(reason),
                Ok((host, port)) => if host_lines_agree(head->headers, host, port) {
                    Ok((host, port))
                } else {
                    Err("host-header-mismatch"@)
                },
            }
        },
    }
}

/// Whether a text holds an at sign.
fn has_at_sign(text: &str) -> (found: bool)
    ensures
        found == text@.contains('@'),
{
    let mut found: bool = false;
    for ch in iter: text.chars()
        invariant
            found == exists|j: int| 0 <= j < iter.index() && text@[j] == '@',
            iter.seq() == text@,
    {
        if ch == '@' {
            found = true;
        }
    }
    found
}

/// The text that ASCII bytes spell.
fn to_ascii_text(bytes: &Vec<u8>) -> (text: Option<String>)
    ensures
        optional_text(text) == ascii_text(bytes@),
{
    let mut text = String::new();
    let mut i: usize = 0;
    while i < bytes.len()
        invariant
            i <= bytes.len(),
            text@ =~= Seq::new(i as nat, |j: int| bytes@[j] as char),
            forall|j: int| 0 <= j < i ==> #[trigger] bytes@[j] < 128,
        decreases bytes.len() - i,
    {
        let byte: u8 = bytes[i];
        if byte >= 128 {
            return None;
        }
        text.push(byte as char);
        i += 1;
    }
    Some(text)
}

fn is_bracketed(host: &str) -> (yes: bool)
    ensures
        yes == bracketed(host@),
{
    let len: usize = host.unicode_len();
    len >= 2 && host.get_char(0) == '[' && host.get_char(len - 1) == ']'
}

fn without_brackets(host: &str) -> (inner: &str)
    ensures
        inner@ == unbracketed(host@),
{
    if is_bracketed(host) {
        let len: usize = host.unicode_len();
        host.substring_char(1, len - 1)
    } else {
        host
    }
}

/// A host as text, as an IP address, and as a canonical hostname.
#[derive(Debug)]
pub struct HostReading {
    pub text: String,
    pub literal: Option<IpAddress>,
    pub name: Option<String>,
}

impl View for HostReading {
    type V = HostView;

    open spec fn view(&self) -> HostView {
        HostView { text: self.text@, literal: self.literal, name: optional_text(self.name) }
    }
}

fn read_host(text: &str) -> (host: HostReading)
    ensures
        host@ == host_view(text@),
{
    HostReading {
        text: text.to_owned(),
        literal: parse_ip(text),
        name: canonical_hostname(text),
    }
}

/// Whether two hosts are the same.
pub fn reads_alike(left: &HostReading, right: &HostReading) -> (same: bool)
    ensures
        same == same_reading(left@, right@),
{
    match (left.literal, right.literal) {
        (Some(left), Some(right)) => left == right,
        (None, None) => match (&left.name, &right.name) {
            (Some(left), Some(right)) => same_text(left.as_str(), right.as_str()),
            (None, None) => same_text(left.text.as_str(), right.text.as_str()),
            _ => false,
        },
        _ => false,
    }
}

/// Whether the authority in a Host line names a destination, given whether its
/// host is the same.
pub fn authority_names(
    authority: &Option<Authority>,
    text: &str,
    same: bool,
    port: u16,
) -> (agrees: bool)
    ensures
        agrees == authority_agrees(authority_view(*authority), text@, same, port),
{
    match authority {
        None => false,
        Some(named) => same && (same_text(named.host.as_str(), text) || named.port == Some(port)),
    }
}

/// Whether a header line is a Host line, in any letter case.
fn is_host_line(name: &str) -> (yes: bool)
    ensures
        yes == (lower_text(name@) == "host"@),
{
    if !name.is_ascii() {
        proof {
            if lower_text(name@) == "host"@ {
                reveal_strlit("host");
                assert forall|i: int| 0 <= i < name@.len() implies '\0' <= #[trigger] name@[i]
                    <= '\u{7f}' by {
                    assert(lower_text(name@)[i] == lower_char(name@[i]));
                    assert("host"@ =~= seq!['h', 'o', 's', 't']);
                    assert(i == 0 || i == 1 || i == 2 || i == 3);
                }
                assert(is_ascii_chars(name@));
            }
        }
        return false;
    }
    same_text(to_ascii_lowercase(name).as_str(), "host")
}

fn host_line_names(value: &Vec<u8>, host: &str, port: u16) -> (agrees: bool)
    ensures
        agrees == host_line_agrees(value@, host@, port),
{
    let text = match to_ascii_text(value) {
        Some(text) => text,
        None => return false,
    };
    if has_at_sign(text.as_str()) {
        return false;
    }
    let authority = parse_authority(text.as_str());
    let same: bool = match &authority {
        None => false,
        Some(named) => reads_alike(
            &read_host(without_brackets(named.host.as_str())),
            &read_host(host),
        ),
    };
    authority_names(&authority, text.as_str(), same, port)
}

fn host_lines_name(headers: &Vec<HeaderLine>, host: &str, port: u16) -> (agree: bool)
    ensures
        agree == host_lines_agree(lines_view(headers@), host@, port),
{
    let ghost lines = lines_view(headers@);
    let mut i: usize = 0;
    while i < headers.len()
        invariant
            i <= headers.len(),
            lines == lines_view(headers@),
            forall|j: int|
                0 <= j < i && lower_text((#[trigger] lines[j]).0) == "host"@ ==> host_line_agrees(
                    lines[j].1,
                    host@,
                    port,
                ),
        decreases headers.len() - i,
    {
        assert(lines[i as int] == (headers@[i as int].name@, headers@[i as int].value@));
        if is_host_line(headers[i].name.as_str()) && !host_line_names(
            &headers[i].value,
            host,
            port,
        ) {
            return false;
        }
        i += 1;
    }
    true
}

pub open spec fn target_result(result: Result<String, &'static str>) -> Result<
    Seq<char>,
    Seq<char>,
> {
    match result {
        Ok(target) => Ok(target@),
        Err(reason) => Err(reason@),
    }
}

/// Whether a request head asks for a tunnel, and for which target.
///
/// # Errors
///
/// Returns the reason code for which the request is refused.
pub fn tunnel_target(head: &HeadParse) -> (target: Result<String, &'static str>)
    ensures
        target_result(target) == requested_target(head@),
{
    match head {
        HeadParse::Partial => Err("incomplete-header"),
        HeadParse::TooManyHeaders => Err("too-many-headers"),
        HeadParse::Malformed => Err("malformed-header"),
        HeadParse::Complete(head) => {
            let connect: bool = match &head.method {
                Some(method) => same_text(method.as_str(), "CONNECT"),
                None => false,
            };
            if !connect {
                return Err("connect-required");
            }
            let supported: bool = match head.version {
                Some(version) => version == 0 || version == 1,
                None => false,
            };
            if !supported {
                return Err("unsupported-http-version");
            }
            match &head.path {
                None => Err("missing-authority"),
                Some(target) => if has_at_sign(target.as_str()) {
                    Err("userinfo-not-allowed")
                } else {
                    Ok(target.clone())
                },
            }
        },
    }
}

pub open spec fn request_result(result: Result<ConnectRequest, &'static str>) -> Result<
    (Seq<char>, u16),
    Seq<char>,
> {
    match result {
        Ok(request) => Ok((request.host@, request.port)),
        Err(reason) => Err(reason@),
    }
}

/// The destination that an authority names, given what its host is as an IP
/// address.
///
/// # Errors
///
/// Returns the reason code for which the request is refused.
pub fn tunnel_destination(authority: Option<Authority>, literal: Option<IpAddress>) -> (request:
    Result<ConnectRequest, &'static str>)
    ensures
        request_result(request) == requested_destination(authority_view(authority), literal),
{
    let authority = match authority {
        Some(authority) => authority,
        None => return Err("invalid-authority"),
    };
    let port: u16 = match authority.port {
        Some(port) => port,
        None => return Err("missing-port"),
    };
    let host = without_brackets(authority.host.as_str());
    if host.unicode_len() == 0 {
        return Err("missing-host");
    }
    let ipv6: bool = match literal {
        Some(IpAddress::V6(_)) => true,
        _ => false,
    };
    if is_bracketed(authority.host.as_str()) && !ipv6 {
        return Err("invalid-ipv6-literal");
    }
    if port == 0 {
        return Err("invalid-port");
    }
    Ok(ConnectRequest { host: host.to_owned(), port })
}

/// What a parsed request head asks for.
///
/// # Errors
///
/// Returns the reason code for which the request is refused.
pub fn connect_from_head(head: &HeadParse) -> (request: Result<ConnectRequest, &'static str>)
    ensures
        request_result(request) == connect_request(head@),
{
    let target = match tunnel_target(head) {
        Ok(target) => target,
        Err(reason) => return Err(reason),
    };
    let authority = parse_authority(target.as_str());
    let literal = match &authority {
        Some(authority) => parse_ip(without_brackets(authority.host.as_str())),
        None => None,
    };
    let request = match tunnel_destination(authority, literal) {
        Ok(request) => request,
        Err(reason) => return Err(reason),
    };
    match head {
        HeadParse::Complete(head) if !host_lines_name(
            &head.headers,
            request.host.as_str(),
            request.port,
        ) => Err("host-header-mismatch"),
        _ => Ok(request),
    }
}

/// What the bytes of a header ask for.
///
/// # Errors
///
/// Returns the reason code for which the request is refused.
pub fn parse_connect(bytes: &[u8]) -> (request: Result<ConnectRequest, &'static str>)
    ensures
        request_result(request) == connect_request(
            request_head(bytes@, MAX_CONNECT_HEADERS as nat),
        ),
{
    let head = read_request_head(bytes, MAX_CONNECT_HEADERS);
    connect_from_head(&head)
}

/// No request is granted for port zero, or for a bracketed host that is no
/// IPv6 address.
pub proof fn law_granted_destinations_are_usable(
    authority: Option<(Seq<char>, Option<u16>)>,
    literal: Option<IpAddress>,
)
    ensures
        match requested_destination(authority, literal) {
            Ok((host, port)) => port != 0 && host.len() > 0 && (bracketed((authority->0).0) ==> (
            literal matches Some(IpAddress::V6(_)))),
            Err(_) => true,
        },
{
}

/// A header ends exactly behind the first `\r\n\r\n` of its bytes.
pub proof fn law_headers_end_at_the_first_empty_line(bytes: Seq<u8>, end: int)
    ensures
        header_end(bytes, 0) == Some(end) <==> {
            &&& 4 <= end <= bytes.len()
            &&& bytes.subrange(end - 4, end) == seq![13u8, 10, 13, 10]
            &&& forall|at: int|
                0 <= at < end - 4 ==> #[trigger] bytes.subrange(at, at + 4) != seq![
                    13u8,
                    10,
                    13,
                    10,
                ]
        },
        header_end(bytes, 0) is None <==> forall|at: int|
            0 <= at <= bytes.len() - 4 ==> #[trigger] bytes.subrange(at, at + 4) != seq![
                13u8,
                10,
                13,
                10,
            ],
{
    let blank = seq![13u8, 10, 13, 10];
    assert forall|at: int| 0 <= at <= bytes.len() - 4 implies (#[trigger] bytes.subrange(at, at + 4)
        == blank) == blank_line_at(bytes, at) by {
        let piece = bytes.subrange(at, at + 4);
        if piece == blank {
            assert(piece[0] == 13 && piece[1] == 10 && piece[2] == 13 && piece[3] == 10);
        }
        if blank_line_at(bytes, at) {
            assert(piece =~= blank);
        }
    }
    if header_end(bytes, 0) is Some {
        let found = header_end(bytes, 0)->0;
        lemma_first_end(bytes, 0);
        assert(bytes.subrange(found - 4, found - 4 + 4) == blank);
        if 4 <= end <= bytes.len() && bytes.subrange(end - 4, end) == blank {
            assert(bytes.subrange(end - 4, end - 4 + 4) == blank);
            assert(blank_line_at(bytes, end - 4));
        }
    } else {
        assert forall|at: int| 0 <= at <= bytes.len() - 4 implies #[trigger] bytes.subrange(
            at,
            at + 4,
        ) != blank by {
            lemma_no_blank_line(bytes, 0, at);
        }
        if 4 <= end <= bytes.len() {
            assert(bytes.subrange(end - 4, end - 4 + 4) != blank);
        }
    }
}

/// A request head asks for a tunnel exactly if it is complete, its method is
/// `CONNECT`, its version is 1.0 or 1.1, and its target holds no at sign; and
/// then for that target.
pub proof fn law_connect_requests_name_their_target(
    method: Option<Seq<char>>,
    target: Seq<char>,
    version: Option<u8>,
    headers: Seq<(Seq<char>, Seq<u8>)>,
)
    ensures
        requested_target(HeadView::Complete { method, path: Some(target), version, headers })
            == Ok::<Seq<char>, Seq<char>>(target) <==> method == Some("CONNECT"@) && (version
            == Some(0u8) || version == Some(1u8)) && !target.contains('@'),
        requested_target(HeadView::Complete { method, path: None, version, headers }) is Err,
        requested_target(HeadView::Partial) is Err,
        requested_target(HeadView::TooManyHeaders) is Err,
        requested_target(HeadView::Malformed) is Err,
{
}

/// A host that stands in brackets is what stands between them, and any other is
/// itself.
pub proof fn law_brackets_are_taken_off(host: Seq<char>)
    ensures
        unbracketed(seq!['['] + host + seq![']']) == host,
        !(host.len() > 0 && host[0] == '[') ==> unbracketed(host) == host,
        !(host.len() > 0 && host.last() == ']') ==> unbracketed(host) == host,
{
    assert(unbracketed(seq!['['] + host + seq![']']) =~= host);
}

/// An authority with a host and a port names that destination: any host without
/// brackets, and an IPv6 address in brackets, with any port but zero.
pub proof fn law_usable_authorities_are_destinations(
    host: Seq<char>,
    port: u16,
    literal: Option<IpAddress>,
)
    requires
        port != 0,
        host.len() > 0,
    ensures
        host[0] != '[' ==> requested_destination(Some((host, Some(port))), literal) == Ok::<
            (Seq<char>, u16),
            Seq<char>,
        >((host, port)),
        literal matches Some(IpAddress::V6(_)) ==> requested_destination(
            Some((seq!['['] + host + seq![']'], Some(port))),
            literal,
        ) == Ok::<(Seq<char>, u16), Seq<char>>((host, port)),
        !(literal matches Some(IpAddress::V6(_))) ==> requested_destination(
            Some((seq!['['] + host + seq![']'], Some(port))),
            literal,
        ) is Err,
        requested_destination(Some((host, None)), literal) is Err,
        requested_destination(Some((host, Some(0u16))), literal) is Err,
        requested_destination(None, literal) is Err,
{
    law_brackets_are_taken_off(host);
}

/// Reading alike is an equivalence of hosts: addresses are compared as
/// addresses, names by their canonical form, and only what is neither as text.
pub proof fn law_hosts_are_compared_by_meaning(left: HostView, right: HostView, other: HostView)
    ensures
        same_reading(left, left),
        same_reading(left, right) == same_reading(right, left),
        same_reading(left, right) && same_reading(right, other) ==> same_reading(left, other),
        left.literal is Some ==> (same_reading(left, right) <==> right.literal == left.literal),
        left.literal is None && right.literal is None && left.name is Some ==> (same_reading(
            left,
            right,
        ) <==> right.name == left.name),
        left.literal is None && right.literal is None && left.name is None && right.name is None
            ==> (same_reading(left, right) <==> left.text == right.text),
{
}

/// A Host line agrees with the destination exactly if it names the same host,
/// and names the same port or none at all.
pub proof fn law_host_lines_may_leave_the_port_out(
    named: Seq<char>,
    named_port: Option<u16>,
    text: Seq<char>,
    same: bool,
    port: u16,
)
    ensures
        authority_agrees(Some((named, named_port)), text, same, port) ==> same,
        same && named == text ==> authority_agrees(Some((named, named_port)), text, same, port),
        named != text ==> (authority_agrees(Some((named, named_port)), text, same, port) <==> same
            && named_port == Some(port)),
        !authority_agrees(None, text, same, port),
{
}

/// A request without Host lines is not refused for them; with Host lines it is
/// refused exactly if one of them, wherever it stands and however its name is
/// written, disagrees.
pub proof fn law_every_host_line_has_to_agree(
    headers: Seq<(Seq<char>, Seq<u8>)>,
    host: Seq<char>,
    port: u16,
    at: int,
)
    ensures
        (forall|i: int| 0 <= i < headers.len() ==> lower_text((#[trigger] headers[i]).0) != "host"@)
            ==> host_lines_agree(headers, host, port),
        (forall|i: int|
            0 <= i < headers.len() ==> host_line_agrees((#[trigger] headers[i]).1, host, port))
            ==> host_lines_agree(headers, host, port),
        0 <= at < headers.len() && lower_text(headers[at].0) == "host"@ && !host_line_agrees(
            headers[at].1,
            host,
            port,
        ) ==> !host_lines_agree(headers, host, port),
{
}

/// Bytes spell a text exactly if all of them are ASCII, and then each byte one
/// character.
pub proof fn law_ascii_bytes_spell_text(bytes: Seq<u8>, at: int)
    ensures
        ascii_text(bytes) matches Some(text) ==> text.len() == bytes.len() && (0 <= at
            < bytes.len() ==> text[at] == bytes[at] as char && bytes[at] < 128),
        ascii_text(bytes) is None <==> exists|i: int|
            0 <= i < bytes.len() && #[trigger] bytes[i] >= 128,
{
}

/// A request is granted exactly if its head asks for a tunnel, its target is an
/// authority that names a destination, and no Host line disagrees; and then for
/// that destination.
pub proof fn law_requests_are_granted_as_they_ask(
    head: HeadView,
    target: Seq<char>,
    host: Seq<char>,
    port: u16,
)
    requires
        requested_target(head) == Ok::<Seq<char>, Seq<char>>(target),
        authority_parts(target) is Some,
        requested_destination(
            authority_parts(target),
            ip_literal(unbracketed((authority_parts(target)->0).0)),
        ) == Ok::<(Seq<char>, u16), Seq<char>>((host, port)),
    ensures
        host_lines_agree(head->headers, host, port) ==> connect_request(head) == Ok::<
            (Seq<char>, u16),
            Seq<char>,
        >((host, port)),
        !host_lines_agree(head->headers, host, port) ==> connect_request(head) is Err,
{
}

/// The value of a Host line agrees with a destination exactly if it is ASCII
/// text without an at sign, an authority, and that authority names the host, and
/// the port unless it leaves it out.
pub proof fn law_host_values_name_the_destination(value: Seq<u8>, host: Seq<char>, port: u16)
    ensures
        host_line_agrees(value, host, port) <==> (ascii_text(value) matches Some(text)
            && !text.contains('@') && (authority_parts(text) matches Some((named, named_port))
            && same_host(unbracketed(named), host) && (named == text || named_port == Some(port)))),
{
}

/// Two texts name the same host exactly if they spell the same IP address, or
/// neither spells one and they have the same canonical name, or have none and
/// are the same.
pub proof fn law_hosts_are_the_same_by_meaning(left: Seq<char>, right: Seq<char>)
    ensures
        same_host(left, right) <==> ({
            ||| ip_literal(left) is Some && ip_literal(left) == ip_literal(right)
            ||| ip_literal(left) is None && ip_literal(right) is None && canonical_name(left)
                == canonical_name(right) && (canonical_name(left) is Some || left == right)
        }),
{
}

} // verus!
