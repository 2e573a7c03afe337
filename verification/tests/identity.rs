use sandbox_egress::address::{IpAddress, SocketAddress};
use sandbox_egress::identity::{Endpoint, PeerIdentity};

fn v4(text: &str) -> IpAddress {
    let host: ipnet::Ipv4Net = format!("{text}/32").parse().expect("IPv4 text");
    IpAddress::V4(host.addr().into())
}

fn v6(text: &str) -> IpAddress {
    let host: ipnet::Ipv6Net = format!("{text}/128").parse().expect("IPv6 text");
    IpAddress::V6(host.addr().into())
}

#[test]
fn canonicalizes_only_the_ipv4_mapped_transport_spelling() {
    let ipv4 = v4("192.0.2.1");
    let compatible = v6("::c000:201");
    assert_eq!(
        PeerIdentity::SourceIp(v6("::ffff:192.0.2.1")).canonical(),
        PeerIdentity::SourceIp(ipv4)
    );
    assert_eq!(
        PeerIdentity::SourceIp(compatible).canonical(),
        PeerIdentity::SourceIp(compatible)
    );
}

#[test]
fn rejects_scoped_ipv6_unicast_but_keeps_unique_local_identity() {
    for address in [
        "fe80::1",
        "febf:ffff:ffff:ffff:ffff:ffff:ffff:ffff",
        "fec0::1",
        "feff:ffff:ffff:ffff:ffff:ffff:ffff:ffff",
    ] {
        assert!(!PeerIdentity::SourceIp(v6(address)).is_attachable());
    }
    assert!(PeerIdentity::SourceIp(v6("fdff:ffff::1")).is_attachable());
}

#[test]
fn rejects_non_unicast_ipv4_source_classes() {
    for address in [
        "0.0.0.0",
        "0.0.0.1",
        "224.0.0.1",
        "240.0.0.1",
        "255.255.255.254",
        "255.255.255.255",
    ] {
        assert!(
            !PeerIdentity::SourceIp(v4(address)).is_attachable(),
            "accepted source identity {address}"
        );
    }
    for address in ["10.0.0.1", "127.0.0.1", "169.254.1.1", "223.255.255.254"] {
        assert!(
            PeerIdentity::SourceIp(v4(address)).is_attachable(),
            "rejected source identity {address}"
        );
    }
}

#[test]
fn rejects_unspecified_and_multicast_ipv6_sources() {
    assert!(!PeerIdentity::SourceIp(v6("::")).is_attachable());
    assert!(!PeerIdentity::SourceIp(v6("ff02::1")).is_attachable());
    assert!(PeerIdentity::SourceIp(v6("2001:db8::1")).is_attachable());
}

#[test]
fn an_endpoint_is_an_http_url() {
    let endpoint = Endpoint::new(SocketAddress::new(v4("127.0.0.1"), 8080));
    assert_eq!(endpoint.to_text(), "http://127.0.0.1:8080");
    assert_eq!(endpoint.socket_addr().port, 8080);

    let endpoint = Endpoint::new(SocketAddress::new(v6("2001:db8::1"), 3128));
    assert_eq!(endpoint.to_text(), "http://[2001:db8::1]:3128");

    let mut zoned = SocketAddress::new(v6("fe80::1"), 1);
    zoned.scope_id = 7;
    assert_eq!(Endpoint::new(zoned).to_text(), "http://[fe80::1%7]:1");
}

#[test]
fn canonical_addresses_stay_as_they_are() {
    assert_eq!(v6("::ffff:10.0.0.1").to_canonical(), v4("10.0.0.1"));
    assert_eq!(v4("10.0.0.1").to_canonical(), v4("10.0.0.1"));
    assert_eq!(v6("::ffff:10.0.0.1").to_canonical().to_canonical(), v4("10.0.0.1"));
    assert!(v4("0.0.0.0").is_unspecified());
    assert!(v6("::").is_unspecified());
    assert!(!v6("::1").is_unspecified());
}
