use sandbox_egress::address::{IpAddress, IpNetwork, Ipv6Network};
use sandbox_egress::destination::{
    forbidden_v4, forbidden_v6, is_forbidden_destination, nat64_embedded,
};
use sandbox_egress::error::PolicyError;
use sandbox_egress::hostname::{canonical_hostname, canonical_hostname_given, strip_final_dot};
use sandbox_egress::policy::{EchPolicy, HostPattern, Policy, TlsAuthority};
use std::time::Duration;

const LONGEST: u128 = Duration::MAX.as_nanos();
const SECOND: u128 = 1_000_000_000;

fn ip(text: &str) -> IpAddress {
    if let Ok(host) = format!("{text}/32").parse::<ipnet::Ipv4Net>() {
        return IpAddress::V4(host.addr().into());
    }
    let host: ipnet::Ipv6Net = format!("{text}/128").parse().expect("IP text");
    IpAddress::V6(host.addr().into())
}

fn network(text: &str) -> IpNetwork {
    match text.parse::<ipnet::IpNet>().expect("network text") {
        ipnet::IpNet::V4(network) => IpNetwork {
            address: IpAddress::V4(network.addr().into()),
            prefix_len: network.prefix_len(),
        },
        ipnet::IpNet::V6(network) => IpNetwork {
            address: IpAddress::V6(network.addr().into()),
            prefix_len: network.prefix_len(),
        },
    }
}

fn prefix(text: &str) -> Ipv6Network {
    let network: ipnet::Ipv6Net = text.parse().expect("IPv6 prefix");
    Ipv6Network { address: network.addr().into(), prefix_len: network.prefix_len() }
}

fn forbidden(text: &str) -> bool {
    is_forbidden_destination(ip(text), &vec![])
}

#[test]
fn wildcard_excludes_the_apex() {
    let pattern = HostPattern::parse("*.Example.COM.").expect("valid pattern");
    assert!(pattern.matches("api.example.com"));
    assert!(!pattern.matches("example.com"));
    assert!(!pattern.matches("notexample.com"));
}

#[test]
fn rejects_unrepresentable_handshake_deadline() {
    assert_eq!(
        Policy::builder()
            .dns_timeout(LONGEST)
            .handshake_timeout(LONGEST)
            .build()
            .unwrap_err(),
        PolicyError::TimeoutTooLarge
    );
}

#[test]
fn rejects_a_connection_limit_above_the_runtime_bound() {
    Policy::builder()
        .max_connections(tokio::sync::Semaphore::MAX_PERMITS)
        .expect("runtime maximum is valid")
        .build()
        .expect("boundary policy");
    assert_eq!(
        Policy::builder().max_connections(usize::MAX).unwrap_err(),
        PolicyError::ConnectionLimitTooLarge
    );
}

#[test]
fn private_and_metadata_destinations_are_forbidden() {
    for address in [
        "127.0.0.1",
        "10.0.0.1",
        "169.254.169.254",
        "::1",
        "fc00::1",
        "::ffff:127.0.0.1",
        "::ffff:169.254.169.254",
        "::127.0.0.1",
        "::169.254.169.254",
        "64:ff9b::a9fe:a9fe",
        "64:ff9b:1::1",
        "100:0:0:1::1",
        "2001::1",
        "2001:2::1",
        "2001:5::1",
        "2001:10::1",
        "2001:20::1",
        "2001:30::1",
        "2002::1",
        "3fff::1",
        "5f00::1",
        "4000::1",
        "8000::1",
        "fe00::1",
    ] {
        assert!(forbidden(address), "{address}");
    }
    assert!(!forbidden("93.184.216.34"));
    assert!(!forbidden("::93.184.216.34"));
    assert!(!forbidden("64:ff9b::5db8:d822"));
    assert!(!forbidden("2606:4700:4700::1111"));
}

#[test]
fn every_forbidden_prefix_includes_its_first_and_last_address() {
    for (network, length) in [
        (0x0000_0000_u32, 8_u32),
        (0x0a00_0000, 8),
        (0x6440_0000, 10),
        (0x7f00_0000, 8),
        (0xa9fe_0000, 16),
        (0xac10_0000, 12),
        (0xc000_0000, 24),
        (0xc000_0200, 24),
        (0xc058_6300, 24),
        (0xc0a8_0000, 16),
        (0xc612_0000, 15),
        (0xc633_6400, 24),
        (0xcb00_7100, 24),
        (0xe000_0000, 3),
    ] {
        let host_mask = u32::MAX >> length;
        assert!(forbidden_v4(network), "{network:#010x}/{length}");
        assert!(forbidden_v4(network | host_mask), "{network:#010x}/{length}");
    }
    for (network, length) in [
        (0x2001_0000_0000_0000_0000_0000_0000_0000_u128, 23_u32),
        (0x2001_0db8_0000_0000_0000_0000_0000_0000, 32),
        (0x2002_0000_0000_0000_0000_0000_0000_0000, 16),
        (0x3fff_0000_0000_0000_0000_0000_0000_0000, 20),
    ] {
        let host_mask = u128::MAX >> length;
        assert!(forbidden_v6(network), "{network:#034x}/{length}");
        assert!(forbidden_v6(network | host_mask), "{network:#034x}/{length}");
    }
}

#[test]
fn the_neighbours_of_forbidden_prefixes_are_public() {
    for address in [
        0x0100_0000_u32,
        0x09ff_ffff,
        0x0b00_0000,
        0x643f_ffff,
        0x6480_0000,
        0x7eff_ffff,
        0x8000_0000,
        0xa83f_810f,
        0xa83f_8111,
        0xa9fd_ffff,
        0xa9ff_0000,
        0xac0f_ffff,
        0xac20_0000,
        0xc000_0100,
        0xc000_0300,
        0xc058_62ff,
        0xc058_6400,
        0xc0a7_ffff,
        0xc0a9_0000,
        0xc611_ffff,
        0xc614_0000,
        0xc633_63ff,
        0xc633_6500,
        0xcb00_70ff,
        0xcb00_7200,
        0xdfff_ffff,
    ] {
        assert!(!forbidden_v4(address), "{address:#010x}");
    }
    assert!(!forbidden_v6(0x2000_ffff_ffff_ffff_ffff_ffff_ffff_ffff));
    assert!(!forbidden_v6(0x2001_0200_0000_0000_0000_0000_0000_0000));
    assert!(!forbidden_v6(0x2001_0db9_0000_0000_0000_0000_0000_0000));
    assert!(!forbidden_v6(0x2003_0000_0000_0000_0000_0000_0000_0000));
    assert!(!forbidden_v6(0x3fff_1000_0000_0000_0000_0000_0000_0000));
}

#[test]
fn explicit_network_grant_overrides_the_special_purpose_floor() {
    let address = ip("2001:5::1");
    let policy = Policy::builder()
        .allow_network(network("2001:5::1/128"))
        .build()
        .expect("valid policy");

    assert!(policy.allows_ip(address, &vec![]));
    assert!(policy.allows_ip_literal(address, &vec![]));
}

#[test]
fn patterns_are_hostnames_or_one_leading_wildcard() {
    assert_eq!(
        HostPattern::parse("API.example.com"),
        Ok(HostPattern::Exact("api.example.com".to_owned()))
    );
    assert_eq!(
        HostPattern::parse("*.example.com"),
        Ok(HostPattern::Subdomains("example.com".to_owned()))
    );
    for pattern in [
        "",
        "*",
        "*.",
        "*.*.example.com",
        "a.*.example.com",
        "*example.com",
        "127.0.0.1",
        "*.127.0.0.1",
        "::1",
        "exa_mple.com",
        "-a.com",
        "a-.com",
        "a..com",
        "a.com..",
        "b\u{fc}cher.example",
    ] {
        assert_eq!(
            HostPattern::parse(pattern),
            Err(PolicyError::InvalidHostPattern(pattern.to_owned())),
            "{pattern:?}"
        );
    }
    let pattern = HostPattern::parse("*.example.com").expect("valid pattern");
    assert!(pattern.matches("a.b.example.com"));
    assert!(!pattern.matches("b\u{fc}cher.example.comx"));
}

#[test]
fn hostnames_have_one_canonical_spelling() {
    assert_eq!(canonical_hostname("ExAmPlE.CoM."), Some("example.com".to_owned()));
    assert_eq!(canonical_hostname("example.com"), Some("example.com".to_owned()));
    assert_eq!(canonical_hostname("127.1"), Some("127.1".to_owned()));
    assert_eq!(canonical_hostname("127.0.0.1"), None);
    assert_eq!(canonical_hostname("127.0.0.1."), None);
    assert_eq!(canonical_hostname("."), None);
    assert_eq!(canonical_hostname(""), None);
    let label = "a".repeat(63);
    assert_eq!(canonical_hostname(&label), Some(label.clone()));
    assert_eq!(canonical_hostname(&"a".repeat(64)), None);
    let name = format!("{label}.{label}.{label}.{}", "a".repeat(61));
    assert_eq!(name.len(), 253);
    assert_eq!(canonical_hostname(&name), Some(name.clone()));
    assert_eq!(canonical_hostname(&format!("{name}a")), None);
    assert_eq!(canonical_hostname(&format!("{name}.")), Some(name));
}

#[test]
fn everything_starts_denied() {
    let policy = Policy::builder().build().expect("empty policy");
    assert!(!policy.allows_hostname("example.com"));
    assert!(!policy.allows_port(443));
    assert!(!policy.allows_port(80));
    assert!(!policy.allows_ip_literal(ip("93.184.216.34"), &vec![]));
    assert!(policy.allows_ip(ip("93.184.216.34"), &vec![]));
    assert_eq!(policy.max_connections, 64);
    assert_eq!(policy.dns_timeout, 3 * SECOND);
    assert_eq!(policy.handshake_timeout, 10 * SECOND);
    assert_eq!(policy.idle_timeout, None);
    assert_eq!(policy.max_upload_bytes, None);
    assert_eq!(policy.max_download_bytes, None);
    assert_eq!(policy.tls_authority, TlsAuthority::Disabled);
    assert_eq!(TlsAuthority::default(), TlsAuthority::Disabled);
    assert_eq!(EchPolicy::default(), EchPolicy::Reject);
}

#[test]
fn builders_record_each_rule() {
    let policy = Policy::builder()
        .allow_host("a.test")
        .expect("grant")
        .deny_host("*.a.test")
        .expect("denial")
        .allow_port(8443)
        .allow_port(8444)
        .allow_network(network("10.0.0.0/8"))
        .deny_network(network("10.1.0.0/16"))
        .max_connections(3)
        .expect("limit")
        .connection_attempt_rate(5, 7)
        .expect("rate")
        .dns_timeout(SECOND)
        .handshake_timeout(2 * SECOND)
        .idle_timeout(9)
        .max_upload_bytes(11)
        .max_download_bytes(12)
        .tls_authority(TlsAuthority::RequireVisibleSni { ech: EchPolicy::AllowOuterSni })
        .build()
        .expect("policy");
    assert!(policy.allows_hostname("a.test"));
    assert!(!policy.allows_hostname("b.a.test"));
    assert!(policy.allows_port(8443) && policy.allows_port(8444) && !policy.allows_port(443));
    assert!(policy.allows_ip_literal(ip("10.2.0.1"), &vec![]));
    assert!(!policy.allows_ip_literal(ip("10.1.0.1"), &vec![]));
    assert_eq!(policy.max_connections, 3);
    let rate = policy.connection_attempt_rate.expect("rate");
    assert_eq!((rate.rate_per_second, rate.burst), (5, 7));
    assert_eq!(policy.idle_timeout, Some(9));
    assert_eq!(policy.max_upload_bytes, Some(11));
    assert_eq!(policy.max_download_bytes, Some(12));
    assert_eq!(
        policy.tls_authority,
        TlsAuthority::RequireVisibleSni { ech: EchPolicy::AllowOuterSni }
    );
    assert_eq!(
        Policy::builder().require_tls_sni().build().expect("policy").tls_authority,
        TlsAuthority::RequireVisibleSni { ech: EchPolicy::Reject }
    );
}

#[test]
fn each_policy_error_comes_from_its_own_mistake() {
    assert_eq!(
        Policy::builder().allow_port(0).build().unwrap_err(),
        PolicyError::InvalidPort
    );
    assert_eq!(
        Policy::builder().max_connections(0).unwrap_err(),
        PolicyError::ZeroConnectionLimit
    );
    assert_eq!(
        Policy::builder().connection_attempt_rate(0, 1).unwrap_err(),
        PolicyError::ZeroConnectionAttemptRate
    );
    assert_eq!(
        Policy::builder().connection_attempt_rate(1, 0).unwrap_err(),
        PolicyError::ZeroConnectionAttemptRate
    );
    for builder in [
        Policy::builder().dns_timeout(0),
        Policy::builder().handshake_timeout(0),
        Policy::builder().idle_timeout(0),
    ] {
        assert_eq!(builder.build().unwrap_err(), PolicyError::ZeroTimeout);
    }
    assert_eq!(
        Policy::builder().dns_timeout(11 * SECOND).build().unwrap_err(),
        PolicyError::DnsTimeoutExceedsHandshake
    );
    assert_eq!(
        Policy::builder().idle_timeout(LONGEST).build().unwrap_err(),
        PolicyError::TimeoutTooLarge
    );
    assert_eq!(
        Policy::builder().build_when(false, true).unwrap_err(),
        PolicyError::TimeoutTooLarge
    );
    assert!(Policy::builder().build_when(true, false).is_ok());
    assert!(Policy::builder().idle_timeout(1).build_when(true, false).is_err());
}

#[test]
fn policy_errors_are_described() {
    for (error, text) in [
        (
            PolicyError::InvalidHostPattern("x_y".to_owned()),
            "invalid hostname pattern: x_y",
        ),
        (PolicyError::InvalidPort, "destination port must be greater than zero"),
        (PolicyError::ZeroConnectionLimit, "connection limit must be greater than zero"),
        (
            PolicyError::ConnectionLimitTooLarge,
            "connection limit is too large for the runtime",
        ),
        (
            PolicyError::ZeroConnectionAttemptRate,
            "connection attempt rate and burst must be greater than zero",
        ),
        (PolicyError::ZeroTimeout, "timeouts must be greater than zero"),
        (
            PolicyError::DnsTimeoutExceedsHandshake,
            "DNS timeout cannot exceed handshake timeout",
        ),
        (PolicyError::TimeoutTooLarge, "timeout is too large to represent safely"),
    ] {
        assert_eq!(error.message(), text);
    }
}

#[test]
fn denials_follow_an_address_through_its_spellings() {
    let policy = Policy::builder()
        .allow_network(network("0.0.0.0/0"))
        .allow_network(network("::/0"))
        .deny_network(network("93.184.216.0/24"))
        .build()
        .expect("policy");
    let translated = vec![prefix("2600:1f18:abcd:1234::/96")];
    for address in [
        "93.184.216.34",
        "::ffff:93.184.216.34",
        "::93.184.216.34",
        "64:ff9b::5db8:d822",
        "2600:1f18:abcd:1234::5db8:d822",
    ] {
        assert!(!policy.allows_ip(ip(address), &translated), "{address}");
        assert!(!policy.allows_ip_literal(ip(address), &translated), "{address}");
    }
    assert!(policy.allows_ip(ip("2600:1f18:abcd:1234::5db8:d822"), &vec![]));
    assert!(policy.allows_ip(ip("93.184.217.34"), &translated));
}

#[test]
fn nat64_prefixes_embed_their_ipv4_address_around_octet_eight() {
    let inner = Some(0xc000_0221);
    for (text, address) in [
        ("2001:db8::/32", "2001:db8:c000:221::"),
        ("2001:db8:100::/40", "2001:db8:1c0:2:21::"),
        ("2001:db8:122::/48", "2001:db8:122:c000:2:2100::"),
        ("2001:db8:122:300::/56", "2001:db8:122:3c0:0:221::"),
        ("2001:db8:122:344::/64", "2001:db8:122:344:c0:2:2100::"),
        ("2001:db8:122:344::/96", "2001:db8:122:344::192.0.2.33"),
    ] {
        let IpAddress::V6(bits) = ip(address) else {
            panic!("IPv6 text");
        };
        assert_eq!(nat64_embedded(&prefix(text), bits), inner, "{text}");
        assert_eq!(nat64_embedded(&prefix(text), bits ^ (1 << 127)), None, "{text}");
        assert!(is_forbidden_destination(ip(address), &vec![prefix(text)]));
    }
    assert_eq!(nat64_embedded(&prefix("2001:db8::/80"), 0), None);
    assert!(!is_forbidden_destination(
        ip("2001:db8::5db8:d822"),
        &vec![prefix("2001:db8::/96")]
    ));
}

#[test]
fn networks_hold_exactly_their_prefix() {
    assert!(network("10.0.0.0/8").contains(ip("10.255.255.255")));
    assert!(!network("10.0.0.0/8").contains(ip("11.0.0.0")));
    assert!(!network("10.0.0.0/8").contains(ip("::ffff:10.0.0.1")));
    assert!(network("0.0.0.0/0").contains(ip("255.255.255.255")));
    assert!(network("::/0").contains(ip("ffff::1")));
    assert!(!network("::/0").contains(ip("1.2.3.4")));
    assert!(network("1.2.3.4/32").contains(ip("1.2.3.4")));
    assert!(!network("1.2.3.4/32").contains(ip("1.2.3.5")));
    let overlong = IpNetwork { address: ip("1.2.3.4"), prefix_len: 33 };
    assert!(!overlong.contains(ip("1.2.3.4")));
}

#[test]
fn what_reads_as_an_address_is_no_hostname() {
    assert_eq!(strip_final_dot("a.test."), "a.test");
    assert_eq!(strip_final_dot("a.test.."), "a.test.");
    assert_eq!(strip_final_dot(""), "");
    assert_eq!(
        canonical_hostname_given("A.Test.", None),
        Some("a.test".to_owned())
    );
    assert_eq!(canonical_hostname_given("A.Test.", Some(ip("10.0.0.1"))), None);
    assert_eq!(
        HostPattern::parse_given("*.A.test", None),
        Ok(HostPattern::Subdomains("a.test".to_owned()))
    );
    assert!(HostPattern::parse_given("a.test", Some(ip("::1"))).is_err());
}

#[test]
fn every_spelling_of_an_ipv4_address_is_judged_like_it() {
    for inner in ["169.254.169.254", "93.184.216.34", "10.0.0.1", "8.8.8.8"] {
        for spelling in ["::ffff:", "::", "64:ff9b::"] {
            assert_eq!(
                forbidden(&format!("{spelling}{inner}")),
                forbidden(inner),
                "{spelling}{inner}"
            );
        }
    }
}
