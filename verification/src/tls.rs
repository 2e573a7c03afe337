//! The visible `ClientHello` at the start of an inspected tunnel.

use vstd::prelude::*;

use crate::connect::optional_text;

verus! {

pub const TLS_HANDSHAKE: u8 = 22;

pub const CLIENT_HELLO: u8 = 1;

pub const ECH_EXTENSION: u16 = 0xfe0d;

/// The most bytes that one read adds to a `ClientHello`.
pub const HELLO_READ: usize = 4_096;

#[derive(Clone, Copy, Debug, PartialEq, Eq, Structural)]
pub enum ClientHelloError {
    Invalid,
    TooLarge,
    UnexpectedEof,
}

/// A two-byte number in network order.
pub open spec fn number_at(bytes: Seq<u8>, at: int) -> int {
    bytes[at] * 256 + bytes[at + 1]
}

/// The first bytes and the rest, where there are so many.
pub open spec fn split_first(bytes: Seq<u8>, count: int) -> Option<(Seq<u8>, Seq<u8>)> {
    if count <= bytes.len() {
        Some((bytes.take(count), bytes.skip(count)))
    } else {
        None
    }
}

/// A vector behind a one-byte length, and the rest.
pub open spec fn short_vector(bytes: Seq<u8>) -> Option<(Seq<u8>, Seq<u8>)> {
    if bytes.len() < 1 {
        None
    } else {
        split_first(bytes.skip(1), bytes[0] as int)
    }
}

/// A vector behind a two-byte length, and the rest.
pub open spec fn long_vector(bytes: Seq<u8>) -> Option<(Seq<u8>, Seq<u8>)> {
    if bytes.len() < 2 {
        None
    } else {
        split_first(bytes.skip(2), number_at(bytes, 0))
    }
}

/// Take the first bytes.
pub fn take(bytes: &[u8], count: usize) -> (parts: Result<(&[u8], &[u8]), ClientHelloError>)
    ensures
        match parts {
            Ok((value, rest)) => split_first(bytes@, count as int) == Some((value@, rest@)),
            Err(error) => error == ClientHelloError::Invalid && split_first(
                bytes@,
                count as int,
            ) is None,
        },
{
    if bytes.len() < count {
        return Err(ClientHelloError::Invalid);
    }
    let (value, rest) = bytes.split_at(count);
    assert(value@ =~= bytes@.take(count as int));
    assert(rest@ =~= bytes@.skip(count as int));
    Ok((value, rest))
}

/// Take a two-byte number.
pub fn take_u16(bytes: &[u8]) -> (parts: Result<(u16, &[u8]), ClientHelloError>)
    ensures
        match parts {
            Ok((value, rest)) => bytes@.len() >= 2 && value == number_at(bytes@, 0) && rest@
                == bytes@.skip(2),
            Err(error) => error == ClientHelloError::Invalid && bytes@.len() < 2,
        },
{
    match take(bytes, 2) {
        Ok((value, rest)) => Ok((value[0] as u16 * 256 + value[1] as u16, rest)),
        Err(error) => Err(error),
    }
}

/// Take a vector behind a one-byte length.
pub fn take_u8_vector(bytes: &[u8]) -> (parts: Result<(&[u8], &[u8]), ClientHelloError>)
    ensures
        match parts {
            Ok((value, rest)) => short_vector(bytes@) == Some((value@, rest@)),
            Err(error) => error == ClientHelloError::Invalid && short_vector(bytes@) is None,
        },
{
    match take(bytes, 1) {
        Ok((length, rest)) => take(rest, length[0] as usize),
        Err(error) => Err(error),
    }
}

/// Take a vector behind a two-byte length.
pub fn take_u16_vector(bytes: &[u8]) -> (parts: Result<(&[u8], &[u8]), ClientHelloError>)
    ensures
        match parts {
            Ok((value, rest)) => long_vector(bytes@) == Some((value@, rest@)),
            Err(error) => error == ClientHelloError::Invalid && long_vector(bytes@) is None,
        },
{
    match take_u16(bytes) {
        Ok((length, rest)) => take(rest, length as usize),
        Err(error) => Err(error),
    }
}

/// The payload of a handshake record, and what follows the record.
pub open spec fn handshake_record(bytes: Seq<u8>) -> Option<(Seq<u8>, Seq<u8>)> {
    if bytes.len() < 3 || bytes[0] != TLS_HANDSHAKE {
        None
    } else {
        long_vector(bytes.skip(3))
    }
}

/// The length of a handshake message with its four-byte header, as the header
/// declares it.
pub open spec fn declared_length(handshake: Seq<u8>) -> int {
    4 + handshake[1] * 65536 + handshake[2] * 256 + handshake[3]
}

/// The body of the `ClientHello` at the start of a handshake stream, where all
/// of it is there.
pub open spec fn client_hello_body(handshake: Seq<u8>) -> Option<Seq<u8>> {
    if handshake.len() >= 4 && handshake[0] == CLIENT_HELLO && handshake.len() >= declared_length(
        handshake,
    ) {
        Some(handshake.subrange(4, declared_length(handshake)))
    } else {
        None
    }
}

/// The body of the `ClientHello` that records carry after what was gathered
/// from earlier ones. Records past the end of the message are not read.
pub open spec fn deframed(records: Seq<u8>, gathered: Seq<u8>) -> Option<Seq<u8>>
    decreases records.len(),
{
    if gathered.len() >= 4 && gathered[0] != CLIENT_HELLO {
        None
    } else if client_hello_body(gathered) is Some {
        client_hello_body(gathered)
    } else if records.len() == 0 {
        None
    } else {
        match handshake_record(records) {
            Some((payload, rest)) => if rest.len() < records.len() {
                deframed(rest, gathered + payload)
            } else {
                None
            },
            None => None,
        }
    }
}

/// Gather the body of the `ClientHello` from its records.
///
/// # Errors
///
/// Returns [`ClientHelloError::Invalid`] where the records carry no complete
/// `ClientHello`.
pub fn deframe_client_hello(wire_bytes: &[u8]) -> (body: Result<Vec<u8>, ClientHelloError>)
    ensures
        match body {
            Ok(body) => deframed(wire_bytes@, Seq::empty()) == Some(body@),
            Err(error) => error == ClientHelloError::Invalid && deframed(
                wire_bytes@,
                Seq::empty(),
            ) is None,
        },
{
    let mut records: &[u8] = wire_bytes;
    let mut handshake: Vec<u8> = Vec::new();
    loop
        invariant
            deframed(wire_bytes@, Seq::empty()) == deframed(records@, handshake@),
        decreases records@.len(),
    {
        if handshake.len() >= 4 {
            if handshake[0] != CLIENT_HELLO {
                return Err(ClientHelloError::Invalid);
            }
            let expected: usize = 4 + handshake[1] as usize * 65536 + handshake[2] as usize * 256
                + handshake[3] as usize;
            if handshake.len() >= expected {
                let mut body: Vec<u8> = Vec::new();
                body.extend_from_slice(&handshake.as_slice()[4..expected]);
                assert(body@ =~= handshake@.subrange(4, expected as int));
                return Ok(body);
            }
        }
        if records.len() == 0 {
            return Err(ClientHelloError::Invalid);
        }
        if records.len() < 3 || records[0] != TLS_HANDSHAKE {
            return Err(ClientHelloError::Invalid);
        }
        let (_, after_version) = match take(records, 3) {
            Ok(parts) => parts,
            Err(error) => return Err(error),
        };
        let (payload, rest) = match take_u16_vector(after_version) {
            Ok(parts) => parts,
            Err(error) => return Err(error),
        };
        let ghost before = handshake@;
        handshake.extend_from_slice(payload);
        assert(handshake@ =~= before + payload@);
        records = rest;
    }
}

/// Whether one of the extensions is the encrypted `ClientHello`: `None` where
/// an extension before it is cut off.
pub open spec fn extensions_have_ech(extensions: Seq<u8>) -> Option<bool>
    decreases extensions.len(),
{
    if extensions.len() == 0 {
        Some(false)
    } else if extensions.len() < 2 {
        None
    } else {
        match long_vector(extensions.skip(2)) {
            Some((_, rest)) => if number_at(extensions, 0) == ECH_EXTENSION {
                Some(true)
            } else if rest.len() < extensions.len() {
                extensions_have_ech(rest)
            } else {
                None
            },
            None => None,
        }
    }
}

/// Whether the body of a `ClientHello` carries the encrypted `ClientHello`
/// extension: `None` where the body is malformed.
pub open spec fn body_has_ech(body: Seq<u8>) -> Option<bool> {
    match split_first(body, 34) {
        None => None,
        Some((_, after_random)) => match short_vector(after_random) {
            None => None,
            Some((_, after_session)) => match long_vector(after_session) {
                None => None,
                Some((_, after_ciphers)) => match short_vector(after_ciphers) {
                    None => None,
                    Some((_, after_compression)) => if after_compression.len() == 0 {
                        Some(false)
                    } else {
                        match long_vector(after_compression) {
                            None => None,
                            Some((extensions, rest)) => if rest.len() != 0 {
                                None
                            } else {
                                extensions_have_ech(extensions)
                            },
                        }
                    },
                },
            },
        },
    }
}

/// Whether the records on the wire carry a `ClientHello` with the encrypted
/// `ClientHello` extension: `None` where they carry no well-formed one.
pub open spec fn wire_has_ech(wire: Seq<u8>) -> Option<bool> {
    match deframed(wire, Seq::empty()) {
        Some(body) => body_has_ech(body),
        None => None,
    }
}

pub open spec fn ech_result(result: Result<bool, ClientHelloError>) -> Option<bool> {
    match result {
        Ok(present) => Some(present),
        Err(_) => None,
    }
}

fn find_ech(extensions: &[u8]) -> (found: Result<bool, ClientHelloError>)
    ensures
        ech_result(found) == extensions_have_ech(extensions@),
        found matches Err(error) ==> error == ClientHelloError::Invalid,
{
    let mut rest: &[u8] = extensions;
    while rest.len() > 0
        invariant
            extensions_have_ech(extensions@) == extensions_have_ech(rest@),
        decreases rest@.len(),
    {
        let (kind, after_kind) = match take_u16(rest) {
            Ok(parts) => parts,
            Err(error) => return Err(error),
        };
        let (_, after) = match take_u16_vector(after_kind) {
            Ok(parts) => parts,
            Err(error) => return Err(error),
        };
        if kind == ECH_EXTENSION {
            return Ok(true);
        }
        rest = after;
    }
    Ok(false)
}

/// Whether a complete `ClientHello` carries the encrypted `ClientHello`
/// extension.
///
/// # Errors
///
/// Returns [`ClientHelloError::Invalid`] where the wire carries no well-formed
/// `ClientHello`.
pub fn client_hello_has_ech(wire_bytes: &[u8]) -> (present: Result<bool, ClientHelloError>)
    ensures
        ech_result(present) == wire_has_ech(wire_bytes@),
        present matches Err(error) ==> error == ClientHelloError::Invalid,
{
    let handshake = match deframe_client_hello(wire_bytes) {
        Ok(handshake) => handshake,
        Err(error) => return Err(error),
    };
    let (_, after_random) = match take(handshake.as_slice(), 34) {
        Ok(parts) => parts,
        Err(error) => return Err(error),
    };
    let (_, after_session) = match take_u8_vector(after_random) {
        Ok(parts) => parts,
        Err(error) => return Err(error),
    };
    let (_, after_ciphers) = match take_u16_vector(after_session) {
        Ok(parts) => parts,
        Err(error) => return Err(error),
    };
    let (_, after_compression) = match take_u8_vector(after_ciphers) {
        Ok(parts) => parts,
        Err(error) => return Err(error),
    };
    if after_compression.len() == 0 {
        return Ok(false);
    }
    let (extensions, rest) = match take_u16_vector(after_compression) {
        Ok(parts) => parts,
        Err(error) => return Err(error),
    };
    if rest.len() != 0 {
        return Err(ClientHelloError::Invalid);
    }
    find_ech(extensions)
}

/// A handshake record, with the two bytes of its version.
pub struct HandshakeRecord {
    pub major: u8,
    pub minor: u8,
    pub payload: Seq<u8>,
}

/// The bytes of a record.
pub open spec fn record_bytes(record: HandshakeRecord) -> Seq<u8> {
    seq![
        TLS_HANDSHAKE,
        record.major,
        record.minor,
        (record.payload.len() / 256) as u8,
        (record.payload.len() % 256) as u8,
    ] + record.payload
}

/// The bytes of records, one after the other.
pub open spec fn records_bytes(records: Seq<HandshakeRecord>) -> Seq<u8>
    decreases records.len(),
{
    if records.len() == 0 {
        Seq::empty()
    } else {
        record_bytes(records[0]) + records_bytes(records.skip(1))
    }
}

/// The payloads of records, one after the other.
pub open spec fn joined_payloads(records: Seq<HandshakeRecord>) -> Seq<u8>
    decreases records.len(),
{
    if records.len() == 0 {
        Seq::empty()
    } else {
        records[0].payload + joined_payloads(records.skip(1))
    }
}

/// How a handshake stream is cut into records makes no difference, nor do the
/// versions that they claim: what is read is the `ClientHello` at the start of
/// the joined payloads, whatever follows the records. Only where it is not
/// complete there does the reading go on behind them.
pub proof fn law_record_boundaries_are_ignored(
    records: Seq<HandshakeRecord>,
    rest: Seq<u8>,
    gathered: Seq<u8>,
)
    requires
        forall|i: int| 0 <= i < records.len() ==> (#[trigger] records[i]).payload.len() < 65536,
    ensures
        ({
            let whole = gathered + joined_payloads(records);
            deframed(records_bytes(records) + rest, gathered) == (if client_hello_body(
                whole,
            ) is Some {
                client_hello_body(whole)
            } else {
                deframed(rest, whole)
            })
        }),
        deframed(records_bytes(records), gathered) == client_hello_body(
            gathered + joined_payloads(records),
        ),
{
    lemma_records_then_rest(records, rest, gathered);
    lemma_records_then_rest(records, Seq::empty(), gathered);
    assert(records_bytes(records) + Seq::<u8>::empty() =~= records_bytes(records));
}

proof fn lemma_records_then_rest(
    records: Seq<HandshakeRecord>,
    rest: Seq<u8>,
    gathered: Seq<u8>,
)
    requires
        forall|i: int| 0 <= i < records.len() ==> (#[trigger] records[i]).payload.len() < 65536,
    ensures
        ({
            let whole = gathered + joined_payloads(records);
            deframed(records_bytes(records) + rest, gathered) == (if client_hello_body(
                whole,
            ) is Some {
                client_hello_body(whole)
            } else {
                deframed(rest, whole)
            })
        }),
    decreases records.len(),
{
    let whole = gathered + joined_payloads(records);
    let wire = records_bytes(records) + rest;
    if gathered.len() >= 4 {
        assert(whole[0] == gathered[0] && whole[1] == gathered[1] && whole[2] == gathered[2]
            && whole[3] == gathered[3]);
    }
    if gathered.len() >= 4 && gathered[0] != CLIENT_HELLO {
        assert(deframed(wire, gathered) is None);
        assert(deframed(rest, whole) is None);
    } else if client_hello_body(gathered) is Some {
        assert(whole.subrange(4, declared_length(whole)) =~= gathered.subrange(
            4,
            declared_length(gathered),
        ));
    } else if records.len() == 0 {
        assert(whole =~= gathered);
        assert(wire =~= rest);
    } else {
        let record = records[0];
        let others = records.skip(1);
        let behind = records_bytes(others) + rest;
        assert forall|i: int| 0 <= i < others.len() implies (
        #[trigger] others[i]).payload.len() < 65536 by {
            assert(others[i] == records[i + 1]);
        }
        assert(wire =~= record_bytes(record) + behind);
        lemma_record_round_trip(record, behind);
        lemma_records_then_rest(others, rest, gathered + record.payload);
        assert(gathered + record.payload + joined_payloads(others) =~= whole);
    }
}

proof fn lemma_record_round_trip(record: HandshakeRecord, rest: Seq<u8>)
    requires
        record.payload.len() < 65536,
    ensures
        handshake_record(record_bytes(record) + rest) == Some((record.payload, rest)),
        (record_bytes(record) + rest).len() > rest.len(),
{
    let payload = record.payload;
    let bytes = record_bytes(record) + rest;
    let tail = bytes.skip(3);
    assert(tail[0] == (payload.len() / 256) as u8);
    assert(tail[1] == (payload.len() % 256) as u8);
    assert(number_at(tail, 0) == payload.len());
    assert(tail.skip(2).take(payload.len() as int) =~= payload);
    assert(tail.skip(2).skip(payload.len() as int) =~= rest);
}

/// What a TLS server made of the bytes that it was given.
#[derive(Debug)]
pub enum HelloVerdict {
    /// A complete `ClientHello`, with the server name that it shows.
    Accepted(Option<String>),
    Incomplete,
    Invalid,
}

/// What a verdict says.
pub enum VerdictView {
    Accepted(Option<Seq<char>>),
    Incomplete,
    Invalid,
}

impl View for HelloVerdict {
    type V = VerdictView;

    open spec fn view(&self) -> VerdictView {
        match self {
            HelloVerdict::Accepted(name) => VerdictView::Accepted(optional_text(*name)),
            HelloVerdict::Incomplete => VerdictView::Incomplete,
            HelloVerdict::Invalid => VerdictView::Invalid,
        }
    }
}

/// The acceptor of `rustls`, of which nothing is known but what it was asked.
#[verifier::external_type_specification]
#[verifier::external_body]
pub struct ExAcceptor(rustls::server::Acceptor);

/// What an acceptor has been asked since it was made, in order: `Some` with the
/// bytes that it took from a read, `None` for a look at what it holds.
pub uninterp spec fn acceptor_calls(acceptor: rustls::server::Acceptor) -> Seq<Option<Seq<u8>>>;

/// How many of the offered bytes an acceptor with this past takes; `None` where
/// it fails.
pub uninterp spec fn acceptor_takes(calls: Seq<Option<Seq<u8>>>, offered: Seq<u8>) -> Option<usize>;

/// What an acceptor with this past finds in the bytes that it holds.
pub uninterp spec fn acceptor_verdict(calls: Seq<Option<Seq<u8>>>) -> VerdictView;

/// `rustls::server::Acceptor::default`: an acceptor that has been asked nothing.
#[verifier::external_body]
fn new_acceptor() -> (acceptor: rustls::server::Acceptor)
    ensures
        acceptor_calls(acceptor) == Seq::<Option<Seq<u8>>>::empty(),
{
    rustls::server::Acceptor::default()
}

/// `rustls::server::Acceptor::read_tls` on these bytes: how many it takes, or
/// whether it fails, is a function of its past and of the bytes alone. It takes
/// no more than it is offered, from the front, and a failure leaves it as it
/// was.
#[verifier::external_body]
fn acceptor_read(acceptor: &mut rustls::server::Acceptor, offered: &[u8]) -> (count: Option<usize>)
    ensures
        count == acceptor_takes(acceptor_calls(*old(acceptor)), offered@),
        match count {
            Some(count) => {
                &&& count <= offered@.len()
                &&& acceptor_calls(*final(acceptor)) == acceptor_calls(*old(acceptor)).push(
                    Some(offered@.take(count as int)),
                )
            },
            None => acceptor_calls(*final(acceptor)) == acceptor_calls(*old(acceptor)),
        },
{
    let mut offered = offered;
    acceptor.read_tls(&mut offered).ok()
}

/// `rustls::server::Acceptor::accept`, with `ClientHello::server_name` of what
/// it accepted: a function of the acceptor's past alone.
#[verifier::external_body]
fn acceptor_accept(acceptor: &mut rustls::server::Acceptor) -> (verdict: HelloVerdict)
    ensures
        verdict@ == acceptor_verdict(acceptor_calls(*old(acceptor))),
        acceptor_calls(*final(acceptor)) == acceptor_calls(*old(acceptor)).push(None),
{
    match acceptor.accept() {
        Ok(Some(accepted)) => HelloVerdict::Accepted(
            accepted.client_hello().server_name().map(str::to_owned),
        ),
        Ok(None) => HelloVerdict::Incomplete,
        Err(_) => HelloVerdict::Invalid,
    }
}

/// The bytes that an acceptor with this past has taken.
pub open spec fn bytes_taken(calls: Seq<Option<Seq<u8>>>) -> Seq<u8>
    decreases calls.len(),
{
    if calls.len() == 0 {
        Seq::empty()
    } else {
        bytes_taken(calls.drop_last()) + match calls.last() {
            Some(bytes) => bytes,
            None => Seq::empty(),
        }
    }
}

proof fn lemma_taken_push(calls: Seq<Option<Seq<u8>>>, call: Option<Seq<u8>>)
    ensures
        bytes_taken(calls.push(call)) == bytes_taken(calls) + match call {
            Some(bytes) => bytes,
            None => Seq::empty(),
        },
{
    assert(calls.push(call).drop_last() =~= calls);
}

/// What to do after looking at the bytes so far.
#[derive(Debug)]
pub enum HelloStep {
    /// Read at most so many more bytes.
    Read(usize),
    /// The `ClientHello` is complete; it shows this server name and whether it
    /// carries an encrypted `ClientHello`.
    Complete(Option<String>, bool),
    Failed(ClientHelloError),
}

/// What a step says.
pub enum StepView {
    Read(int),
    Complete(Option<Seq<char>>, bool),
    Failed(ClientHelloError),
}

impl View for HelloStep {
    type V = StepView;

    open spec fn view(&self) -> StepView {
        match self {
            HelloStep::Read(count) => StepView::Read(*count as int),
            HelloStep::Complete(name, ech) => StepView::Complete(optional_text(*name), *ech),
            HelloStep::Failed(error) => StepView::Failed(*error),
        }
    }
}

/// What follows from a verdict on the wire, under a limit on its length.
pub open spec fn judged(wire: Seq<u8>, verdict: VerdictView, max_bytes: int) -> StepView {
    match verdict {
        VerdictView::Accepted(name) => match wire_has_ech(wire) {
            Some(present) => StepView::Complete(name, present),
            None => StepView::Failed(ClientHelloError::Invalid),
        },
        VerdictView::Invalid => StepView::Failed(ClientHelloError::Invalid),
        VerdictView::Incomplete => if wire.len() >= max_bytes {
            StepView::Failed(ClientHelloError::TooLarge)
        } else if max_bytes - wire.len() < HELLO_READ {
            StepView::Read(max_bytes - wire.len())
        } else {
            StepView::Read(HELLO_READ as int)
        },
    }
}

/// What follows from a verdict on the wire.
pub fn judge_hello(wire_bytes: &Vec<u8>, verdict: HelloVerdict, max_bytes: usize) -> (step:
    HelloStep)
    ensures
        step@ == judged(wire_bytes@, verdict@, max_bytes as int),
{
    match verdict {
        HelloVerdict::Accepted(name) => match client_hello_has_ech(wire_bytes.as_slice()) {
            Ok(present) => HelloStep::Complete(name, present),
            Err(error) => HelloStep::Failed(error),
        },
        HelloVerdict::Invalid => HelloStep::Failed(ClientHelloError::Invalid),
        HelloVerdict::Incomplete => {
            if wire_bytes.len() >= max_bytes {
                return HelloStep::Failed(ClientHelloError::TooLarge);
            }
            let room: usize = max_bytes - wire_bytes.len();
            if room < HELLO_READ {
                HelloStep::Read(room)
            } else {
                HelloStep::Read(HELLO_READ)
            }
        },
    }
}

/// A `ClientHello` as far as it has been read.
pub struct ClientHelloReader {
    pub wire_bytes: Vec<u8>,
    /// How many bytes of the wire the acceptor has taken.
    pub taken: usize,
    pub acceptor: rustls::server::Acceptor,
    pub max_bytes: usize,
}

/// The past of an acceptor after it was offered the rest of the wire, and how
/// much of the wire it has taken by then. It is offered nothing where it has
/// taken everything; `None` where it takes nothing of what it is offered.
pub open spec fn fed(wire: Seq<u8>, calls: Seq<Option<Seq<u8>>>, taken: int) -> Option<
    (Seq<Option<Seq<u8>>>, int),
> {
    if taken >= wire.len() {
        Some((calls, taken))
    } else {
        match acceptor_takes(calls, wire.skip(taken)) {
            Some(count) => if 0 < count <= wire.len() - taken {
                Some((calls.push(Some(wire.skip(taken).take(count as int))), taken + count))
            } else {
                None
            },
            None => None,
        }
    }
}

/// An acceptor that has taken a prefix of the wire goes on with the next bytes
/// of it.
pub proof fn lemma_fed_takes_a_prefix(wire: Seq<u8>, calls: Seq<Option<Seq<u8>>>, taken: int)
    requires
        0 <= taken <= wire.len(),
        bytes_taken(calls) == wire.take(taken),
        fed(wire, calls, taken) is Some,
    ensures
        bytes_taken((fed(wire, calls, taken)->0).0).is_prefix_of(wire),
{
    if taken < wire.len() {
        let count = acceptor_takes(calls, wire.skip(taken))->0;
        lemma_taken_push(calls, Some(wire.skip(taken).take(count as int)));
        assert(wire.take(taken) + wire.skip(taken).take(count as int) =~= wire.take(taken + count));
    }
}

impl ClientHelloReader {
    /// The limit holds, and the acceptor has taken a prefix of the wire.
    pub open spec fn well_formed(self) -> bool {
        &&& self.wire_bytes@.len() <= self.max_bytes
        &&& self.taken <= self.wire_bytes@.len()
        &&& bytes_taken(acceptor_calls(self.acceptor)) == self.wire_bytes@.take(self.taken as int)
    }

    /// Begin with the bytes that came along with the CONNECT header.
    ///
    /// # Errors
    ///
    /// Returns [`ClientHelloError::TooLarge`] where they exceed the limit.
    pub fn new(initial: Vec<u8>, max_bytes: usize) -> (reader: Result<Self, ClientHelloError>)
        ensures
            match reader {
                Ok(reader) => {
                    &&& initial@.len() <= max_bytes
                    &&& reader.well_formed()
                    &&& reader.wire_bytes@ == initial@
                    &&& reader.taken == 0
                    &&& acceptor_calls(reader.acceptor) == Seq::<Option<Seq<u8>>>::empty()
                    &&& reader.max_bytes == max_bytes
                },
                Err(error) => error == ClientHelloError::TooLarge && initial@.len() > max_bytes,
            },
    {
        if initial.len() > max_bytes {
            return Err(ClientHelloError::TooLarge);
        }
        assert(initial@.take(0) =~= Seq::<u8>::empty());
        Ok(ClientHelloReader { wire_bytes: initial, taken: 0, acceptor: new_acceptor(), max_bytes })
    }

    /// Look at the bytes so far.
    pub fn advance(&mut self) -> (step: HelloStep)
        requires
            old(self).well_formed(),
        ensures
            final(self).well_formed(),
            final(self).wire_bytes == old(self).wire_bytes,
            final(self).max_bytes == old(self).max_bytes,
            match fed(
                old(self).wire_bytes@,
                acceptor_calls(old(self).acceptor),
                old(self).taken as int,
            ) {
                None => step@ == StepView::Failed(ClientHelloError::Invalid),
                Some((calls, taken)) => {
                    &&& final(self).taken == taken
                    &&& acceptor_calls(final(self).acceptor) == calls.push(None)
                    &&& step@ == judged(
                        old(self).wire_bytes@,
                        acceptor_verdict(calls),
                        old(self).max_bytes as int,
                    )
                },
            },
    {
        let ghost calls = acceptor_calls(self.acceptor);
        let ghost wire = self.wire_bytes@;
        if self.taken < self.wire_bytes.len() {
            let end: usize = self.wire_bytes.len();
            let offered: &[u8] = &self.wire_bytes.as_slice()[self.taken..end];
            proof {
                assert(offered@ =~= wire.skip(self.taken as int));
            }
            let count: usize = match acceptor_read(&mut self.acceptor, offered) {
                Some(count) => count,
                None => return HelloStep::Failed(ClientHelloError::Invalid),
            };
            proof {
                lemma_taken_push(calls, Some(wire.skip(self.taken as int).take(count as int)));
                assert(wire.take(self.taken as int) + wire.skip(self.taken as int).take(
                    count as int,
                ) =~= wire.take(self.taken + count));
            }
            self.taken = self.taken + count;
            if count == 0 {
                return HelloStep::Failed(ClientHelloError::Invalid);
            }
        }
        proof {
            lemma_taken_push(acceptor_calls(self.acceptor), None);
            assert(bytes_taken(acceptor_calls(self.acceptor)) + Seq::<u8>::empty()
                =~= bytes_taken(acceptor_calls(self.acceptor)));
        }
        let verdict = acceptor_accept(&mut self.acceptor);
        judge_hello(&self.wire_bytes, verdict, self.max_bytes)
    }

    /// Take what a read returned. An empty read is the end of the stream.
    ///
    /// # Errors
    ///
    /// Returns [`ClientHelloError::UnexpectedEof`] for an empty read.
    pub fn push(&mut self, chunk: &[u8]) -> (result: Result<(), ClientHelloError>)
        requires
            old(self).well_formed(),
            old(self).wire_bytes@.len() + chunk@.len() <= old(self).max_bytes,
        ensures
            final(self).well_formed(),
            final(self).wire_bytes@ == old(self).wire_bytes@ + chunk@,
            final(self).taken == old(self).taken,
            final(self).acceptor == old(self).acceptor,
            final(self).max_bytes == old(self).max_bytes,
            result == (if chunk@.len() == 0 {
                Err::<(), ClientHelloError>(ClientHelloError::UnexpectedEof)
            } else {
                Ok(())
            }),
    {
        let ghost before = self.wire_bytes@;
        self.wire_bytes.extend_from_slice(chunk);
        proof {
            assert(self.wire_bytes@ =~= before + chunk@);
            assert(self.wire_bytes@.take(self.taken as int) =~= before.take(self.taken as int));
        }
        if chunk.len() == 0 {
            return Err(ClientHelloError::UnexpectedEof);
        }
        Ok(())
    }
}

/// A vector behind a two-byte length.
#[verifier::opaque]
pub open spec fn long_bytes(value: Seq<u8>) -> Seq<u8> {
    seq![(value.len() / 256) as u8, (value.len() % 256) as u8] + value
}

/// A vector behind a one-byte length.
#[verifier::opaque]
pub open spec fn short_bytes(value: Seq<u8>) -> Seq<u8> {
    seq![value.len() as u8] + value
}

proof fn lemma_long_round_trip(value: Seq<u8>, rest: Seq<u8>)
    requires
        value.len() < 65536,
    ensures
        long_vector(long_bytes(value) + rest) == Some((value, rest)),
        (long_bytes(value) + rest).len() == 2 + value.len() + rest.len(),
        long_bytes(value).len() == 2 + value.len(),
{
    reveal(long_bytes);
    let bytes = long_bytes(value) + rest;
    assert(bytes[0] == (value.len() / 256) as u8);
    assert(bytes[1] == (value.len() % 256) as u8);
    assert(number_at(bytes, 0) == value.len());
    assert(bytes.skip(2).take(value.len() as int) =~= value);
    assert(bytes.skip(2).skip(value.len() as int) =~= rest);
}

proof fn lemma_short_round_trip(value: Seq<u8>, rest: Seq<u8>)
    requires
        value.len() < 256,
    ensures
        short_vector(short_bytes(value) + rest) == Some((value, rest)),
        short_bytes(value).len() == 1 + value.len(),
{
    reveal(short_bytes);
    let bytes = short_bytes(value) + rest;
    assert(bytes[0] == value.len());
    assert(bytes.skip(1).take(value.len() as int) =~= value);
    assert(bytes.skip(1).skip(value.len() as int) =~= rest);
}

/// An extension of a `ClientHello`.
pub struct HelloExtension {
    pub kind: u16,
    pub payload: Seq<u8>,
}

/// The bytes of extensions, one after the other.
pub open spec fn extensions_bytes(extensions: Seq<HelloExtension>) -> Seq<u8>
    decreases extensions.len(),
{
    if extensions.len() == 0 {
        Seq::empty()
    } else {
        seq![(extensions[0].kind / 256) as u8, (extensions[0].kind % 256) as u8] + long_bytes(
            extensions[0].payload,
        ) + extensions_bytes(extensions.skip(1))
    }
}

/// Whether one of the extensions, at any place, is of type `0xfe0d`.
pub open spec fn lists_ech(extensions: Seq<HelloExtension>) -> bool {
    exists|i: int| 0 <= i < extensions.len() && (#[trigger] extensions[i]).kind == 0xfe0d
}

proof fn lemma_extensions_then_rest(extensions: Seq<HelloExtension>, rest: Seq<u8>)
    requires
        forall|i: int|
            0 <= i < extensions.len() ==> (#[trigger] extensions[i]).payload.len() < 65536,
    ensures
        extensions_have_ech(extensions_bytes(extensions) + rest) == (if lists_ech(extensions) {
            Some(true)
        } else {
            extensions_have_ech(rest)
        }),
    decreases extensions.len(),
{
    let wire = extensions_bytes(extensions) + rest;
    if extensions.len() == 0 {
        assert(wire =~= rest);
    } else {
        let first = extensions[0];
        let others = extensions.skip(1);
        let behind = extensions_bytes(others) + rest;
        assert forall|i: int| 0 <= i < others.len() implies (
        #[trigger] others[i]).payload.len() < 65536 by {
            assert(others[i] == extensions[i + 1]);
        }
        lemma_extensions_then_rest(others, rest);
        lemma_long_round_trip(first.payload, behind);
        assert(wire.skip(2) =~= long_bytes(first.payload) + behind);
        assert(wire[0] == (first.kind / 256) as u8);
        assert(wire[1] == (first.kind % 256) as u8);
        assert(number_at(wire, 0) == first.kind);
        assert(wire.len() == 2 + (long_bytes(first.payload) + behind).len());
        if first.kind != 0xfe0d && lists_ech(extensions) {
            let i = choose|i: int|
                0 <= i < extensions.len() && (#[trigger] extensions[i]).kind == 0xfe0d;
            assert(others[i - 1].kind == 0xfe0d);
        }
        if lists_ech(others) {
            let i = choose|i: int| 0 <= i < others.len() && (#[trigger] others[i]).kind == 0xfe0d;
            assert(extensions[i + 1].kind == 0xfe0d);
        }
    }
}

/// An encrypted `ClientHello` is found among well-formed extensions at whatever
/// place it stands, and nothing else is taken for one. A piece behind them that
/// is too short for an extension makes them malformed, unless it was found
/// already.
pub proof fn law_encrypted_hellos_are_found_anywhere(
    extensions: Seq<HelloExtension>,
    rest: Seq<u8>,
)
    requires
        forall|i: int|
            0 <= i < extensions.len() ==> (#[trigger] extensions[i]).payload.len() < 65536,
    ensures
        extensions_have_ech(extensions_bytes(extensions)) == Some(lists_ech(extensions)),
        0 < rest.len() < 4 ==> extensions_have_ech(extensions_bytes(extensions) + rest) == (
        if lists_ech(extensions) {
            Some(true)
        } else {
            None
        }),
{
    lemma_extensions_then_rest(extensions, Seq::empty());
    assert(extensions_bytes(extensions) + Seq::<u8>::empty() =~= extensions_bytes(extensions));
    lemma_extensions_then_rest(extensions, rest);
}

/// What a `ClientHello` says, as far as it is read here.
pub struct HelloFields {
    /// The version and the random bytes.
    pub opening: Seq<u8>,
    pub session: Seq<u8>,
    pub ciphers: Seq<u8>,
    pub compression: Seq<u8>,
    /// There may be no list of extensions at all.
    pub extensions: Option<Seq<HelloExtension>>,
}

impl HelloFields {
    /// Whether every field fits behind its length.
    pub open spec fn encodable(self) -> bool {
        &&& self.opening.len() == 34
        &&& self.session.len() < 256
        &&& self.ciphers.len() < 65536
        &&& self.compression.len() < 256
        &&& self.extensions matches Some(extensions) ==> extensions_bytes(extensions).len() < 65536
            && forall|i: int|
            0 <= i < extensions.len() ==> (#[trigger] extensions[i]).payload.len() < 65536
    }

    /// The body of the message.
    pub open spec fn body(self) -> Seq<u8> {
        self.opening + (short_bytes(self.session) + (long_bytes(self.ciphers) + (short_bytes(
            self.compression,
        ) + match self.extensions {
            Some(extensions) => long_bytes(extensions_bytes(extensions)),
            None => Seq::empty(),
        })))
    }

    /// Whether the message carries an encrypted `ClientHello`.
    pub open spec fn hides_a_name(self) -> bool {
        self.extensions matches Some(extensions) && lists_ech(extensions)
    }
}

/// The body of a `ClientHello` is read field by field: whether it carries an
/// encrypted `ClientHello` depends on its extensions alone. Bytes behind them
/// make it malformed.
pub proof fn law_hello_bodies_are_read_field_by_field(fields: HelloFields, rest: Seq<u8>)
    requires
        fields.encodable(),
    ensures
        body_has_ech(fields.body()) == Some(fields.hides_a_name()),
        fields.extensions is Some && rest.len() > 0 ==> body_has_ech(fields.body() + rest) is None,
{
    lemma_body_then_rest(fields, Seq::empty());
    assert(fields.body() + Seq::<u8>::empty() =~= fields.body());
    if fields.extensions is Some {
        lemma_body_then_rest(fields, rest);
    }
}

proof fn lemma_joined_alike(
    a: Seq<u8>,
    b: Seq<u8>,
    c: Seq<u8>,
    d: Seq<u8>,
    e: Seq<u8>,
    rest: Seq<u8>,
)
    ensures
        a + (b + (c + (d + e))) + rest == a + (b + (c + (d + (e + rest)))),
{
    assert(a + (b + (c + (d + e))) + rest =~= a + (b + (c + (d + (e + rest)))));
}

proof fn lemma_parts(head: Seq<u8>, tail: Seq<u8>)
    ensures
        split_first(head + tail, head.len() as int) == Some((head, tail)),
{
    assert((head + tail).take(head.len() as int) =~= head);
    assert((head + tail).skip(head.len() as int) =~= tail);
}

#[verifier::spinoff_prover]
proof fn lemma_body_then_rest(fields: HelloFields, rest: Seq<u8>)
    requires
        fields.encodable(),
        fields.extensions is None ==> rest.len() == 0,
    ensures
        body_has_ech(fields.body() + rest) == (if rest.len() > 0 {
            None
        } else {
            Some(fields.hides_a_name())
        }),
{
    let tail = match fields.extensions {
        Some(extensions) => long_bytes(extensions_bytes(extensions)),
        None => Seq::empty(),
    } + rest;
    let after_ciphers = short_bytes(fields.compression) + tail;
    let after_session = long_bytes(fields.ciphers) + after_ciphers;
    let after_opening = short_bytes(fields.session) + after_session;
    let body = fields.body() + rest;
    lemma_joined_alike(
        fields.opening,
        short_bytes(fields.session),
        long_bytes(fields.ciphers),
        short_bytes(fields.compression),
        match fields.extensions {
            Some(extensions) => long_bytes(extensions_bytes(extensions)),
            None => Seq::empty(),
        },
        rest,
    );
    assert(body == fields.opening + after_opening);
    lemma_parts(fields.opening, after_opening);
    lemma_short_round_trip(fields.session, after_session);
    lemma_long_round_trip(fields.ciphers, after_ciphers);
    lemma_short_round_trip(fields.compression, tail);
    match fields.extensions {
        Some(extensions) => {
            lemma_long_round_trip(extensions_bytes(extensions), rest);
            law_encrypted_hellos_are_found_anywhere(extensions, rest);
        },
        None => {
            assert(tail =~= Seq::<u8>::empty());
        },
    }
}

/// A `ClientHello` on the wire is read however it was cut into records, whatever
/// versions these claim and whatever follows them: it carries an encrypted
/// `ClientHello` exactly if one of its extensions is of that type.
pub proof fn law_hellos_are_read_from_the_wire(
    fields: HelloFields,
    records: Seq<HandshakeRecord>,
    rest: Seq<u8>,
)
    requires
        fields.encodable(),
        forall|i: int| 0 <= i < records.len() ==> (#[trigger] records[i]).payload.len() < 65536,
        joined_payloads(records) == hello_message(fields.body()),
    ensures
        deframed(records_bytes(records) + rest, Seq::empty()) == Some(fields.body()),
        wire_has_ech(records_bytes(records) + rest) == Some(fields.hides_a_name()),
{
    law_hello_bodies_are_read_field_by_field(fields, Seq::empty());
    lemma_body_length(fields);
    lemma_message_round_trip(fields.body());
    law_record_boundaries_are_ignored(records, rest, Seq::empty());
    assert(Seq::<u8>::empty() + joined_payloads(records) =~= joined_payloads(records));
}

proof fn lemma_body_length(fields: HelloFields)
    requires
        fields.encodable(),
    ensures
        fields.body().len() < 0x100_0000,
{
    lemma_short_round_trip(fields.session, Seq::empty());
    lemma_long_round_trip(fields.ciphers, Seq::empty());
    lemma_short_round_trip(fields.compression, Seq::empty());
    if let Some(extensions) = fields.extensions {
        lemma_long_round_trip(extensions_bytes(extensions), Seq::empty());
    }
}

/// A handshake message with this body: its type, the length in three bytes, and
/// the body.
pub open spec fn hello_message(body: Seq<u8>) -> Seq<u8> {
    let length = body.len();
    seq![1u8, (length / 65536) as u8, (length / 256 % 256) as u8, (length % 256) as u8] + body
}

proof fn lemma_message_round_trip(body: Seq<u8>)
    requires
        body.len() < 0x100_0000,
    ensures
        client_hello_body(hello_message(body)) == Some(body),
{
    let message = hello_message(body);
    let length = body.len() as int;
    assert(message[0] == 1);
    assert(message[1] == length / 65536);
    assert(message[2] == length / 256 % 256);
    assert(message[3] == length % 256);
    assert(declared_length(message) == 4 + length);
    assert(message.subrange(4, 4 + length) =~= body);
}

/// A `ClientHello` that is cut short anywhere is not complete, and one that is
/// complete is not read on: what is read is the message of the declared length.
pub proof fn law_hellos_are_as_long_as_they_declare(handshake: Seq<u8>)
    requires
        handshake.len() >= 4,
    ensures
        client_hello_body(handshake) is Some <==> handshake[0] == 1 && handshake.len() >= 4
            + handshake[1] * 65536 + handshake[2] * 256 + handshake[3],
        client_hello_body(handshake) matches Some(body) ==> {
            &&& body.len() == handshake[1] * 65536 + handshake[2] * 256 + handshake[3]
            &&& forall|i: int| 0 <= i < body.len() ==> #[trigger] body[i] == handshake[4 + i]
        },
{
}

/// A `ClientHello` that the acceptor takes is complete, with the name that it
/// shows. One that is not all there yet is read on as long as there is room for
/// it, never past the limit and never by nothing.
pub proof fn law_incomplete_hellos_are_read_on(
    wire: Seq<u8>,
    name: Option<Seq<char>>,
    max_bytes: int,
)
    requires
        wire.len() <= max_bytes,
    ensures
        wire_has_ech(wire) matches Some(present) ==> judged(
            wire,
            VerdictView::Accepted(name),
            max_bytes,
        ) == StepView::Complete(name, present),
        wire_has_ech(wire) is None ==> judged(wire, VerdictView::Accepted(name), max_bytes)
            == StepView::Failed(ClientHelloError::Invalid),
        judged(wire, VerdictView::Invalid, max_bytes) == StepView::Failed(
            ClientHelloError::Invalid,
        ),
        wire.len() == max_bytes ==> judged(wire, VerdictView::Incomplete, max_bytes)
            == StepView::Failed(ClientHelloError::TooLarge),
        wire.len() < max_bytes ==> (judged(wire, VerdictView::Incomplete, max_bytes) matches
            StepView::Read(count) && 0 < count <= 4_096 && wire.len() + count <= max_bytes && (count
            == 4_096 || wire.len() + count == max_bytes)),
{
}

/// An acceptor is offered all that it has not taken yet, and goes on behind what
/// it takes of it. It fails only where it refuses, or takes nothing.
pub proof fn law_acceptors_are_offered_the_rest(
    wire: Seq<u8>,
    calls: Seq<Option<Seq<u8>>>,
    taken: int,
)
    requires
        0 <= taken < wire.len(),
    ensures
        match acceptor_takes(calls, wire.subrange(taken, wire.len() as int)) {
            Some(count) => if 0 < count <= wire.len() - taken {
                fed(wire, calls, taken) == Some(
                    (calls.push(Some(wire.subrange(taken, taken + count))), taken + count),
                )
            } else {
                fed(wire, calls, taken) is None
            },
            None => fed(wire, calls, taken) is None,
        },
        fed(wire, calls, wire.len() as int) == Some((calls, wire.len() as int)),
{
    let rest = wire.skip(taken);
    assert(wire.subrange(taken, wire.len() as int) =~= rest);
    if let Some(count) = acceptor_takes(calls, rest) {
        if count <= wire.len() - taken {
            assert(rest.take(count as int) =~= wire.subrange(taken, taken + count));
        }
    }
}

/// Only handshake records are read: a record of any other type, where the
/// `ClientHello` is not complete yet, makes the wire malformed.
pub proof fn law_only_handshake_records_are_read(
    kind: u8,
    behind: Seq<u8>,
    gathered: Seq<u8>,
)
    requires
        kind != 22,
        client_hello_body(gathered) is None,
    ensures
        deframed(seq![kind] + behind, gathered) is None,
        deframed(Seq::empty(), gathered) is None,
{
}

} // verus!
