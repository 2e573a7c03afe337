use sandbox_egress::policy::{EchPolicy, Policy, TlsAuthority};
use sandbox_egress::tls::{
    client_hello_has_ech, deframe_client_hello, judge_hello, ClientHelloError, ClientHelloReader,
    HelloStep, HelloVerdict, CLIENT_HELLO, ECH_EXTENSION, TLS_HANDSHAKE,
};
use sandbox_egress::address::{IpAddress, IpNetwork};
use sandbox_egress::config::ProxyConfig;
use sandbox_egress::connect::HeaderBlock;
use sandbox_egress::route::LookupOutcome;
use sandbox_egress::session::{
    Action, DialOutcome, Event, HeaderOutcome, Session, TunnelOutcome, WriteOutcome,
};

fn push_u16(bytes: &mut Vec<u8>, value: usize) {
    let value = u16::try_from(value).expect("test length fits u16");
    bytes.extend_from_slice(&value.to_be_bytes());
}

fn extension(kind: u16, body: &[u8]) -> Vec<u8> {
    let mut bytes = kind.to_be_bytes().to_vec();
    push_u16(&mut bytes, body.len());
    bytes.extend_from_slice(body);
    bytes
}

fn build_hello(server_name: Option<&str>, ech: bool, grease: bool, padding: usize) -> Vec<u8> {
    let mut extensions = Vec::new();
    if grease {
        extensions.extend_from_slice(&extension(0x0a0a, &[]));
    }
    if let Some(name) = server_name {
        let mut list = vec![0];
        push_u16(&mut list, name.len());
        list.extend_from_slice(name.as_bytes());
        let mut body = Vec::new();
        push_u16(&mut body, list.len());
        body.extend_from_slice(&list);
        extensions.extend_from_slice(&extension(0, &body));
    }
    extensions.extend_from_slice(&extension(43, &[2, 3, 4]));
    extensions.extend_from_slice(&extension(13, &[0, 2, 4, 3]));
    if padding > 0 {
        extensions.extend_from_slice(&extension(21, &vec![0; padding]));
    }
    if ech {
        extensions.extend_from_slice(&extension(
            ECH_EXTENSION,
            &[0, 0, 1, 0, 1, 1, 0, 0, 0, 1, 0],
        ));
    }

    let mut body = vec![3, 3];
    body.extend_from_slice(&[7; 32]);
    body.push(0);
    if grease {
        body.extend_from_slice(&[0, 4, 0x0a, 0x0a, 0x13, 0x01]);
    } else {
        body.extend_from_slice(&[0, 2, 0x13, 0x01]);
    }
    body.extend_from_slice(&[1, 0]);
    push_u16(&mut body, extensions.len());
    body.extend_from_slice(&extensions);

    let mut handshake = vec![CLIENT_HELLO];
    let length = u32::try_from(body.len()).expect("test length fits u24");
    handshake.extend_from_slice(&length.to_be_bytes()[1..]);
    handshake.extend_from_slice(&body);

    let mut record = vec![TLS_HANDSHAKE, 3, 1];
    push_u16(&mut record, handshake.len());
    record.extend_from_slice(&handshake);
    record
}

fn client_hello(server_name: Option<&str>, ech: bool) -> Vec<u8> {
    build_hello(server_name, ech, false, 0)
}

fn fragment_record(record: &[u8], at: usize) -> Vec<u8> {
    let payload = &record[5..];
    let mut fragmented = vec![TLS_HANDSHAKE, 3, 1];
    push_u16(&mut fragmented, at);
    fragmented.extend_from_slice(&payload[..at]);
    fragmented.extend_from_slice(&[TLS_HANDSHAKE, 3, 1]);
    push_u16(&mut fragmented, payload.len() - at);
    fragmented.extend_from_slice(&payload[at..]);
    fragmented
}

fn fragment_records(record: &[u8], chunk_size: usize) -> Vec<u8> {
    let mut fragmented = Vec::new();
    for payload in record[5..].chunks(chunk_size) {
        fragmented.extend_from_slice(&[TLS_HANDSHAKE, 3, 1]);
        push_u16(&mut fragmented, payload.len());
        fragmented.extend_from_slice(payload);
    }
    fragmented
}

#[derive(Debug)]
struct Inspected {
    wire_bytes: Vec<u8>,
    server_name: Option<String>,
    ech_present: bool,
}

fn read_client_hello(
    stream: &[u8],
    initial: &[u8],
    max_bytes: usize,
) -> Result<Inspected, ClientHelloError> {
    let mut stream = stream;
    let mut reader = ClientHelloReader::new(initial.to_vec(), max_bytes)?;
    loop {
        match reader.advance() {
            HelloStep::Read(count) => {
                let (chunk, rest) = stream.split_at(count.min(stream.len()));
                stream = rest;
                reader.push(chunk)?;
            }
            HelloStep::Complete(server_name, ech_present) => {
                return Ok(Inspected { wire_bytes: reader.wire_bytes, server_name, ech_present });
            }
            HelloStep::Failed(error) => return Err(error),
        }
    }
}

fn inspect(wire: &[u8]) -> Result<Inspected, ClientHelloError> {
    let split = wire.len().min(11);
    read_client_hello(&wire[split..], &wire[..split], 65_536)
}

#[test]
fn accepts_incremental_fragmented_client_hello() {
    let hello = fragment_record(&client_hello(Some("Example.COM"), false), 17);
    let inspected = inspect(&hello).expect("valid fragmented ClientHello");
    assert_eq!(inspected.wire_bytes, hello);
    assert_eq!(inspected.server_name.as_deref(), Some("example.com"));
    assert!(!inspected.ech_present);
}

#[test]
fn accepts_grease_without_confusing_it_with_ech() {
    let hello = build_hello(Some("grease.example"), false, true, 0);
    let inspected = inspect(&hello).expect("valid ClientHello with GREASE values");
    assert_eq!(inspected.wire_bytes, hello);
    assert_eq!(inspected.server_name.as_deref(), Some("grease.example"));
    assert!(!inspected.ech_present);
}

#[test]
fn reports_ech_and_missing_sni() {
    let missing = inspect(&client_hello(None, false)).expect("valid ClientHello without SNI");
    assert_eq!(missing.server_name, None);
    assert!(!missing.ech_present);

    let ech =
        inspect(&client_hello(Some("public.example"), true)).expect("valid outer ECH ClientHello");
    assert_eq!(ech.server_name.as_deref(), Some("public.example"));
    assert!(ech.ech_present);
}

#[test]
fn enforces_the_outer_byte_bound() {
    let hello = client_hello(Some("example.com"), false);
    let result = read_client_hello(&[], &hello, 32);
    assert_eq!(result.unwrap_err(), ClientHelloError::TooLarge);
}

#[test]
fn accepts_a_large_client_hello_across_bounded_tls_records() {
    let hello = build_hello(Some("large.example"), false, false, 60_000);
    let hello = fragment_records(&hello, 16_384);
    let inspected = inspect(&hello).expect("large fragmented ClientHello");
    assert_eq!(inspected.wire_bytes, hello);
    assert_eq!(inspected.server_name.as_deref(), Some("large.example"));
}

#[test]
fn every_client_hello_truncation_fails_closed() {
    let hello = client_hello(Some("truncated.example"), true);
    for end in 0..hello.len() {
        assert!(inspect(&hello[..end]).is_err(), "accepted prefix at byte {end}");
    }
}

#[test]
fn every_client_hello_record_split_is_accepted() {
    let hello = client_hello(Some("fragmented.example"), false);
    for split in 1..hello.len() - 5 {
        let fragmented = fragment_record(&hello, split);
        let inspected = inspect(&fragmented)
            .unwrap_or_else(|error| panic!("rejected split at byte {split}: {error:?}"));
        assert_eq!(inspected.server_name.as_deref(), Some("fragmented.example"));
    }
}

#[test]
fn corrupt_record_and_handshake_lengths_fail_closed() {
    let hello = client_hello(Some("length.example"), false);
    for range in [3..5, 6..9] {
        let mut corrupt = hello.clone();
        corrupt[range].fill(0xff);
        assert!(inspect(&corrupt).is_err());
    }
}

#[test]
fn records_are_put_together_before_they_are_read() {
    let hello = client_hello(Some("a.test"), true);
    let whole = deframe_client_hello(&hello).expect("one record");
    assert_eq!(whole, hello[9..].to_vec());
    assert_eq!(deframe_client_hello(&fragment_record(&hello, 3)), Ok(whole.clone()));
    assert_eq!(deframe_client_hello(&fragment_records(&hello, 7)), Ok(whole));
    assert_eq!(client_hello_has_ech(&fragment_records(&hello, 7)), Ok(true));
    assert_eq!(client_hello_has_ech(&client_hello(Some("a.test"), false)), Ok(false));
    assert_eq!(deframe_client_hello(&hello[..20]), Err(ClientHelloError::Invalid));
    let mut alert = hello;
    alert[0] = 21;
    assert_eq!(deframe_client_hello(&alert), Err(ClientHelloError::Invalid));
}

#[test]
fn a_verdict_decides_what_is_read_next() {
    let wire = client_hello(Some("a.test"), false);
    let step = |verdict: HelloVerdict, max: usize| judge_hello(&wire, verdict, max);
    assert!(matches!(
        step(HelloVerdict::Incomplete, wire.len()),
        HelloStep::Failed(ClientHelloError::TooLarge)
    ));
    assert!(matches!(step(HelloVerdict::Incomplete, wire.len() + 5), HelloStep::Read(5)));
    assert!(matches!(step(HelloVerdict::Incomplete, 1_000_000), HelloStep::Read(4_096)));
    assert!(matches!(
        step(HelloVerdict::Invalid, 1_000_000),
        HelloStep::Failed(ClientHelloError::Invalid)
    ));
    assert!(matches!(
        step(HelloVerdict::Accepted(None), 1_000_000),
        HelloStep::Complete(None, false)
    ));
}

fn tls_policy(hostname: &str, port: u16, ech: EchPolicy) -> Policy {
    Policy::builder()
        .allow_host(hostname)
        .expect("valid test hostname")
        .allow_network(IpNetwork { address: IpAddress::V4(0x7f00_0000), prefix_len: 8 })
        .allow_port(port)
        .tls_authority(TlsAuthority::RequireVisibleSni { ech })
        .dns_timeout(2_000_000_000)
        .handshake_timeout(2_000_000_000)
        .build()
        .expect("valid policy")
}

struct Tunnel {
    forwarded: Vec<u8>,
    denied: Option<&'static str>,
    uploaded: u64,
}

/// Opens a tunnel to `allowed.test` and sends a stream through it.
fn tunnel(policy: &Policy, stream: &[u8], coalesced: usize) -> Tunnel {
    tunnel_at(policy, stream, coalesced, 9)
}

/// Opens a tunnel with a handshake deadline of ten, and begins its inspection
/// at `now`.
fn tunnel_at(policy: &Policy, stream: &[u8], coalesced: usize, now: u128) -> Tunnel {
    let config = ProxyConfig::default();
    let mut bytes = b"CONNECT allowed.test:443 HTTP/1.1\r\n\r\n".to_vec();
    let end = bytes.len();
    bytes.extend_from_slice(&stream[..coalesced]);
    let mut stream = &stream[coalesced..];
    let mut session = Session::new();
    let mut tunnel = Tunnel { forwarded: vec![], denied: None, uploaded: 0 };
    let mut event = Event::Header(HeaderOutcome::Read(HeaderBlock { bytes, end }));
    loop {
        let (action, uploaded) = session.step(policy, &config, event);
        tunnel.uploaded += uploaded;
        event = match action {
            Action::Resolve(_) => {
                Event::Lookup(LookupOutcome::Answered(vec![IpAddress::V4(0x7f00_0001)]))
            }
            Action::Dial(_) => Event::Dial(DialOutcome::Connected),
            Action::WriteSuccess => Event::Response(WriteOutcome::Written),
            Action::ReadClock => Event::Clock { now, handshake_deadline: 10 },
            Action::ReadHello(count) => {
                let (chunk, rest) = stream.split_at(count.min(stream.len()).min(100));
                stream = rest;
                Event::HelloBytes(chunk.to_vec())
            }
            Action::Forward(bytes) => {
                tunnel.forwarded.extend_from_slice(&bytes);
                Event::Forward(WriteOutcome::Written)
            }
            Action::Tunnel(count) => {
                assert_eq!(count, tunnel.forwarded.len());
                Event::Tunnel(TunnelOutcome::Finished)
            }
            Action::Reject(reason) => {
                tunnel.denied = Some(reason);
                return tunnel;
            }
            Action::Complete => return tunnel,
            action => panic!("unexpected action {action:?}"),
        };
    }
}

#[test]
fn matching_tls_sni_forwards_the_exact_client_hello() {
    let hello = client_hello(Some("allowed.test"), false);
    let policy = tls_policy("allowed.test", 443, EchPolicy::Reject);
    for coalesced in [0, 11, hello.len()] {
        let served = tunnel(&policy, &hello, coalesced);
        assert_eq!(served.forwarded, hello);
        assert_eq!(served.uploaded, hello.len() as u64);
        assert_eq!(served.denied, None);
    }
}

#[test]
fn mismatched_tls_sni_is_never_forwarded_upstream() {
    let hello = client_hello(Some("other.test"), false);
    let served = tunnel(&tls_policy("allowed.test", 443, EchPolicy::Reject), &hello, 0);
    assert_eq!(served.forwarded.len(), 0);
    assert_eq!(served.uploaded, hello.len() as u64);
    assert_eq!(served.denied, Some("tls-sni-mismatch"));
}

#[test]
fn ech_requires_an_explicit_outer_sni_compatibility_policy() {
    let hello = client_hello(Some("allowed.test"), true);
    let strict = tunnel(&tls_policy("allowed.test", 443, EchPolicy::Reject), &hello, 0);
    assert_eq!(strict.forwarded.len(), 0);
    assert_eq!(strict.denied, Some("ech-denied"));

    let compatible = tunnel(
        &tls_policy("allowed.test", 443, EchPolicy::AllowOuterSni),
        &hello,
        0,
    );
    assert_eq!(compatible.forwarded, hello);
    assert_eq!(compatible.denied, None);
    assert_eq!(compatible.uploaded, hello.len() as u64);
}

#[test]
fn each_refused_hello_has_its_own_reason() {
    let policy = tls_policy("allowed.test", 443, EchPolicy::Reject);
    let hello = client_hello(Some("allowed.test"), false);
    assert_eq!(tunnel(&policy, &client_hello(None, false), 0).denied, Some("tls-sni-missing"));
    assert_eq!(tunnel(&policy, &hello[..20], 0).denied, Some("client-hello-eof"));
    assert_eq!(tunnel(&policy, b"GET / HTTP/1.1\r\n\r\n", 0).denied, Some("client-hello-invalid"));
    let mut endless = vec![TLS_HANDSHAKE, 3, 1];
    push_u16(&mut endless, 16_000);
    endless.extend_from_slice(&[CLIENT_HELLO, 0, 0xff, 0xff]);
    endless.resize(5 + 16_000, 0);
    let one = endless.clone();
    for _ in 0..4 {
        endless.extend_from_slice(&one[..5]);
        endless.extend_from_slice(&vec![0; 16_000]);
    }
    assert_eq!(tunnel(&policy, &endless, 0).denied, Some("client-hello-too-large"));

    let limited = Policy::builder()
        .allow_host("allowed.test")
        .expect("valid test hostname")
        .allow_network(IpNetwork { address: IpAddress::V4(0x7f00_0000), prefix_len: 8 })
        .allow_port(443)
        .require_tls_sni()
        .max_upload_bytes(20)
        .build()
        .expect("valid policy");
    assert_eq!(tunnel(&limited, &hello, 0).denied, Some("upload-limit"));
}

#[test]
fn an_expired_handshake_wins_over_a_hello_that_is_there() {
    let hello = client_hello(Some("allowed.test"), false);
    let policy = tls_policy("allowed.test", 443, EchPolicy::Reject);
    for now in [10, 11] {
        let served = tunnel_at(&policy, &hello, hello.len(), now);
        assert_eq!(served.denied, Some("client-hello-timeout"));
        assert_eq!(served.uploaded, 0);
        assert_eq!(served.forwarded.len(), 0);
    }
}

#[test]
fn record_versions_and_what_follows_the_hello_are_not_read() {
    let hello = client_hello(Some("a.test"), true);
    let body = deframe_client_hello(&hello).expect("one record");
    let mut odd = fragment_records(&hello, 30);
    odd[1] = 9;
    odd[2] = 7;
    odd[36] = 0;
    assert_eq!(deframe_client_hello(&odd), Ok(body.clone()));
    odd.extend_from_slice(b"anything");
    assert_eq!(deframe_client_hello(&odd), Ok(body));
}
