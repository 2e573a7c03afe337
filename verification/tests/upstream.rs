use sandbox_egress::address::{IpAddress, SocketAddress};
use sandbox_egress::connect::find_header_end;
use sandbox_egress::upstream::{
    judge_status, upstream_request, validate_response, Prefix, UpstreamError,
};

#[test]
fn response_status_must_be_successful() {
    validate_response(b"HTTP/1.1 200 Connection Established\r\n\r\n")
        .expect("successful CONNECT response");
    let error = validate_response(b"HTTP/1.1 407 Proxy Authentication Required\r\n\r\n")
        .expect_err("proxy refusal");
    assert_eq!(error, UpstreamError::Refused);
}

#[test]
fn malformed_response_is_rejected() {
    let error = validate_response(b"not HTTP\r\n\r\n").expect_err("malformed response");
    assert_eq!(error, UpstreamError::InvalidResponse);
}

#[test]
fn incremental_scan_finds_terminators_split_across_reads() {
    let response = b"HTTP/1.1 200 OK\r\nHeader: value\r\n\r\nprefix";
    let expected = response.len() - b"prefix".len();
    for first_read in expected.saturating_sub(3)..expected {
        let mut bytes = response[..first_read].to_vec();
        let scan_from = bytes.len().saturating_sub(3);
        bytes.extend_from_slice(&response[first_read..]);
        assert_eq!(find_header_end(&bytes, scan_from), Some(expected));
    }
}

#[test]
fn every_success_and_nothing_else_opens_a_tunnel() {
    assert_eq!(judge_status(Some(Some(200))), Ok(()));
    assert_eq!(judge_status(Some(Some(299))), Ok(()));
    assert_eq!(judge_status(Some(Some(199))), Err(UpstreamError::Refused));
    assert_eq!(judge_status(Some(Some(300))), Err(UpstreamError::Refused));
    assert_eq!(judge_status(Some(None)), Err(UpstreamError::Refused));
    assert_eq!(judge_status(None), Err(UpstreamError::InvalidResponse));
    assert_eq!(
        validate_response(b"HTTP/1.1 200 OK\r\n"),
        Err(UpstreamError::InvalidResponse)
    );
    assert_eq!(validate_response(b"HTTP/1.1 204 None\r\n\r\n"), Ok(()));
}

#[test]
fn upstream_failures_are_described() {
    assert_eq!(UpstreamError::Refused.message(), "upstream proxy refused CONNECT");
    assert_eq!(
        UpstreamError::InvalidResponse.message(),
        "invalid upstream proxy response"
    );
}

#[test]
fn an_upstream_proxy_is_asked_for_the_numeric_destination() {
    let target = SocketAddress::new(IpAddress::V4(0xc000_0201), 443);
    assert_eq!(
        upstream_request(target),
        "CONNECT 192.0.2.1:443 HTTP/1.1\r\nHost: 192.0.2.1:443\r\n\r\n"
    );
    let target = SocketAddress::new(IpAddress::V6(1), 8443);
    assert_eq!(
        upstream_request(target),
        "CONNECT [::1]:8443 HTTP/1.1\r\nHost: [::1]:8443\r\n\r\n"
    );
}

#[test]
fn early_payload_is_served_before_the_stream() {
    let mut prefix = Prefix::new(b"payload".to_vec());
    assert!(!prefix.is_empty());
    assert_eq!(prefix.serve(3), b"pay");
    assert_eq!(prefix.serve(0), b"");
    assert_eq!(prefix.serve(100), b"load");
    assert!(prefix.is_empty());
    assert_eq!(prefix.serve(5), b"");
}
