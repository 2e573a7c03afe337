use sandbox_egress::address::{IpAddress, IpNetwork, Ipv6Network, SocketAddress};
use sandbox_egress::config::{DnsAddressFamily, ProxyConfig, MAX_DNS_SERVERS};
use sandbox_egress::error::ProxyError;
use sandbox_egress::proxy::{check_listener, Proxy, ShutdownReply, StartupFailure};
use std::time::Duration;

fn ip(text: &str) -> IpAddress {
    if let Ok(host) = format!("{text}/32").parse::<ipnet::Ipv4Net>() {
        return IpAddress::V4(host.addr().into());
    }
    let host: ipnet::Ipv6Net = format!("{text}/128").parse().expect("IP text");
    IpAddress::V6(host.addr().into())
}

fn socket(text: &str) -> SocketAddress {
    let (host, port) = text.rsplit_once(':').expect("socket text");
    let host = host.trim_start_matches('[').trim_end_matches(']');
    SocketAddress::new(ip(host), port.parse().expect("port text"))
}

fn zoned(text: &str, port: u16, scope_id: u32) -> SocketAddress {
    let mut address = SocketAddress::new(ip(text), port);
    address.scope_id = scope_id;
    address
}

fn prefix(text: &str) -> Ipv6Network {
    let network: ipnet::Ipv6Net = text.parse().expect("IPv6 prefix");
    Ipv6Network { address: network.addr().into(), prefix_len: network.prefix_len() }
}

fn start(config: ProxyConfig) -> Result<Proxy, ProxyError> {
    let mut config = config;
    let bound = SocketAddress::new(config.bind_address.ip, 40_001);
    Proxy::start(&mut config, Ok(bound))
}

const LONGEST: u128 = Duration::MAX.as_nanos();

#[test]
fn rejects_unrepresentable_runtime_durations() {
    assert!(ProxyConfig::default().with_header_timeout(LONGEST).validate().is_err());
    assert!(
        ProxyConfig::default()
            .with_identity_reuse_quiet_period(LONGEST)
            .validate()
            .is_err()
    );
    assert!(matches!(
        start(ProxyConfig::default().with_header_timeout(LONGEST)),
        Err(ProxyError::Initialization(_))
    ));
}

#[test]
fn rejects_a_zero_header_deadline() {
    assert!(matches!(
        start(ProxyConfig::default().with_header_timeout(0)),
        Err(ProxyError::Initialization(_))
    ));
}

#[test]
fn rejects_zero_connection_attempt_rate_or_burst() {
    for config in [
        ProxyConfig::default().with_connection_attempt_rate(0, 1),
        ProxyConfig::default().with_connection_attempt_rate(1, 0),
    ] {
        assert!(matches!(start(config), Err(ProxyError::Initialization(_))));
    }
}

#[test]
fn parser_and_resolver_ceilings_stay_bounded() {
    assert_eq!(
        ProxyConfig::default().with_max_resolved_addresses(0).max_resolved_addresses,
        1
    );
    assert_eq!(
        ProxyConfig::default()
            .with_max_resolved_addresses(usize::MAX)
            .max_resolved_addresses,
        1_024
    );
    assert_eq!(
        ProxyConfig::default().with_max_client_hello_bytes(0).max_client_hello_bytes,
        1_024
    );
    assert_eq!(
        ProxyConfig::default()
            .with_max_client_hello_bytes(usize::MAX)
            .max_client_hello_bytes,
        1024 * 1024
    );
}

#[test]
fn dns_defaults_limit_transient_and_retained_work() {
    let defaults = ProxyConfig::default();
    assert_eq!(defaults.max_concurrent_dns, 32);
    assert_eq!(defaults.dns_cache_entries, 0);
    assert_eq!(defaults.dns_cache_max_ttl, 0);
}

#[test]
fn default_global_connection_capacity_is_conservative() {
    assert_eq!(ProxyConfig::default().max_connections, 256);
}

#[test]
fn resolver_cache_configuration_can_only_narrow_process_bounds() {
    let disabled = ProxyConfig::default().with_dns_cache(0, 0);
    assert_eq!(disabled.dns_cache_entries, 0);
    assert_eq!(disabled.dns_cache_max_ttl, 0);

    let clamped = ProxyConfig::default().with_dns_cache(u64::MAX, LONGEST);
    assert_eq!(clamped.dns_cache_entries, 64);
    assert_eq!(clamped.dns_cache_max_ttl, Duration::from_secs(86_400).as_nanos());
}

#[test]
fn explicit_dns_servers_are_deduplicated_and_bounded() {
    let first = socket("127.0.0.1:53");
    let mut config = ProxyConfig::default().with_dns_server(first).with_dns_server(first);
    assert_eq!(config.dns_servers, vec![first]);

    let server_limit = u16::try_from(MAX_DNS_SERVERS).expect("small DNS server ceiling");
    for port in 54..=(53 + server_limit) {
        config = config.with_dns_server(SocketAddress::new(ip("127.0.0.1"), port));
    }
    assert!(config.validate().is_err());
    assert!(matches!(start(config), Err(ProxyError::Initialization(_))));
}

#[test]
fn explicit_scoped_ipv6_dns_server_is_rejected() {
    let server = zoned("fe80::1", 53, 7);
    assert!(ProxyConfig::default().with_dns_server(server).validate().is_err());
    assert!(
        ProxyConfig::default()
            .with_dns_server(SocketAddress::new(ip("fe80::1"), 53))
            .validate()
            .is_err()
    );
}

#[test]
fn scoped_ipv6_upstream_proxy_requires_a_zone() {
    let without_zone = zoned("fe80::1", 3128, 0);
    let with_zone = zoned("fe80::1", 3128, 7);

    assert!(ProxyConfig::default().with_upstream_proxy(without_zone).validate().is_err());
    assert!(ProxyConfig::default().with_upstream_proxy(with_zone).validate().is_ok());
}

#[test]
fn explicit_dns_server_requires_a_destination_port() {
    let server = SocketAddress::new(ip("127.0.0.1"), 0);
    assert!(ProxyConfig::default().with_dns_server(server).validate().is_err());
}

#[test]
fn upstream_proxy_requires_a_destination_port() {
    let proxy = SocketAddress::new(ip("127.0.0.1"), 0);
    assert!(ProxyConfig::default().with_upstream_proxy(proxy).validate().is_err());
}

#[test]
fn configured_remote_services_require_concrete_unicast_addresses() {
    for text in [
        "0.0.0.0:53",
        "[::]:53",
        "224.0.0.1:53",
        "[ff02::1]:53",
        "255.255.255.255:53",
        "0.0.0.1:53",
        "240.0.0.1:53",
    ] {
        let address = socket(text);
        assert!(
            ProxyConfig::default().with_dns_server(address).validate().is_err(),
            "accepted DNS server {text}"
        );
        assert!(
            ProxyConfig::default()
                .with_upstream_proxy(SocketAddress::new(address.ip, 3128))
                .validate()
                .is_err(),
            "accepted upstream proxy {text}"
        );
    }
}

#[test]
fn mapped_remote_services_follow_the_ipv4_unicast_boundary() {
    for text in ["0.0.0.0", "0.0.0.1", "224.0.0.1", "240.0.0.1", "255.255.255.255"] {
        let mapped = SocketAddress::new(ip(&format!("::ffff:{text}")), 53);
        assert!(
            ProxyConfig::default().with_dns_server(mapped).validate().is_err(),
            "accepted mapped DNS server {text}"
        );
        assert!(
            ProxyConfig::default()
                .with_upstream_proxy(SocketAddress::new(mapped.ip, 3128))
                .validate()
                .is_err(),
            "accepted mapped upstream proxy {text}"
        );
    }

    for text in ["127.0.0.1", "192.0.2.1"] {
        let mapped = SocketAddress::new(ip(&format!("::ffff:{text}")), 53);
        assert!(
            ProxyConfig::default().with_dns_server(mapped).validate().is_ok(),
            "rejected mapped DNS server {text}"
        );
        assert!(
            ProxyConfig::default()
                .with_upstream_proxy(SocketAddress::new(mapped.ip, 3128))
                .validate()
                .is_ok(),
            "rejected mapped upstream proxy {text}"
        );
    }
}

#[test]
fn listener_requires_a_bindable_unicast_or_wildcard_address() {
    for address in [
        socket("224.0.0.1:0"),
        socket("[ff02::1]:0"),
        socket("255.255.255.255:0"),
        socket("0.0.0.1:0"),
        socket("240.0.0.1:0"),
        socket("[fe80::1]:0"),
        socket("[::ffff:0.0.0.1]:0"),
        socket("[::ffff:224.0.0.1]:0"),
        socket("[::ffff:240.0.0.1]:0"),
        socket("[::ffff:255.255.255.255]:0"),
    ] {
        assert!(
            ProxyConfig::default().with_bind_address(address).validate().is_err(),
            "accepted listener {address:?}"
        );
    }

    for address in [
        socket("0.0.0.0:0"),
        socket("[::]:0"),
        socket("127.0.0.1:0"),
        socket("[::1]:0"),
        socket("[::ffff:0.0.0.0]:0"),
        socket("[::ffff:127.0.0.1]:0"),
        zoned("fe80::1", 0, 7),
    ] {
        assert!(
            ProxyConfig::default().with_bind_address(address).validate().is_ok(),
            "rejected listener {address:?}"
        );
    }
}

#[test]
fn diagnostic_rate_stays_bounded() {
    let config = ProxyConfig::default().with_diagnostic_channel(0);
    assert_eq!(config.diagnostics.expect("diagnostics configured"), 1);
    let config = ProxyConfig::default().with_diagnostic_channel(u32::MAX);
    assert_eq!(config.diagnostics.expect("diagnostics configured"), 10_000);
}

#[test]
fn rejects_a_nonstandard_nat64_prefix_length() {
    let config = ProxyConfig::default().with_nat64_prefix(prefix("2600:1f18:abcd:1200::/56"));
    config.validate().expect("RFC 6052 length is valid");

    let config = ProxyConfig::default().with_nat64_prefix(prefix("2600:1f18:abcd:1234::/80"));
    assert!(config.validate().is_err());
    assert!(matches!(start(config), Err(ProxyError::Initialization(_))));
}

#[test]
fn runtime_semaphore_limits_stay_within_the_runtime_bound() {
    let config = ProxyConfig::default()
        .with_max_connections(usize::MAX)
        .with_max_concurrent_dns(usize::MAX)
        .with_max_concurrent_dials(usize::MAX);
    assert_eq!(config.max_connections, tokio::sync::Semaphore::MAX_PERMITS);
    assert_eq!(config.max_concurrent_dns, tokio::sync::Semaphore::MAX_PERMITS);
    assert_eq!(config.max_concurrent_dials, tokio::sync::Semaphore::MAX_PERMITS);
    start(config)
        .expect("clamped global limit starts")
        .shutdown(ShutdownReply::Certified { joined: true })
        .expect("proxy shutdown");
}

#[test]
fn each_refusal_has_its_own_reason() {
    let config = ProxyConfig::default;
    for (config, reason) in [
        (
            config().with_bind_address(socket("224.0.0.1:0")),
            "listener must be a unicast or wildcard address with any required zone",
        ),
        (config().with_header_timeout(0), "header timeout must be nonzero"),
        (
            config().with_connection_attempt_rate(0, 0),
            "connection attempt rate and burst must be nonzero",
        ),
        (config().with_header_timeout(LONGEST), "header timeout is too large"),
        (
            config().with_identity_reuse_quiet_period(LONGEST),
            "identity reuse quiet period is too large",
        ),
        (
            config().with_nat64_prefix(prefix("2600::/33")),
            "NAT64 prefix length must be 32, 40, 48, 56, 64, or 96",
        ),
        (
            config().with_dns_server(socket("1.1.1.1:0")),
            "explicit DNS server port must be nonzero",
        ),
        (
            config().with_dns_server(socket("0.0.0.0:53")),
            "explicit DNS server must be a concrete unicast address",
        ),
        (
            config().with_upstream_proxy(socket("1.1.1.1:0")),
            "upstream proxy port must be nonzero",
        ),
        (
            config().with_upstream_proxy(socket("0.0.0.0:1")),
            "upstream proxy must be a concrete unicast address",
        ),
        (
            config().with_dns_server(zoned("2001:db8::1", 53, 3)),
            "scoped IPv6 DNS servers are not supported",
        ),
        (
            config().with_upstream_proxy(socket("[fec0::1]:1")),
            "scoped IPv6 upstream proxy requires a zone ID",
        ),
    ] {
        assert_eq!(config.validate(), Err(reason));
    }
    let mut crowded = config();
    for port in 1..=9 {
        crowded = crowded.with_dns_server(SocketAddress::new(ip("1.1.1.1"), port));
    }
    assert_eq!(crowded.validate(), Err("too many explicit DNS servers"));
    assert_eq!(config().validate(), Ok(()));
}

#[test]
fn the_clock_decides_only_about_representable_spans() {
    let config = ProxyConfig::default();
    assert_eq!(config.validate_when(false, true), Err("header timeout is too large"));
    assert_eq!(
        config.validate_when(true, false),
        Err("identity reuse quiet period is too large")
    );
    assert_eq!(config.validate_when(true, true), Ok(()));
    assert_eq!(config.with_identity_reuse_quiet_period(0).validate(), Ok(()));
    let beyond = ProxyConfig::default().with_header_timeout(LONGEST + 1);
    assert_eq!(beyond.validate(), Err("header timeout is too large"));
}

#[test]
fn registered_networks_and_families_are_kept() {
    let network = IpNetwork { address: ip("10.20.0.0"), prefix_len: 16 };
    let config = ProxyConfig::default()
        .with_denied_network(network)
        .with_dns_address_family(DnsAddressFamily::Ipv6Only)
        .with_nat64_prefix(prefix("2600::/32"))
        .with_nat64_prefix(prefix("2600::/32"))
        .with_max_header_bytes(5);
    assert_eq!(config.denied_networks, vec![network]);
    assert_eq!(config.dns_address_family, DnsAddressFamily::Ipv6Only);
    assert_eq!(config.nat64_prefixes, vec![prefix("2600::/32")]);
    assert_eq!(config.max_header_bytes, 1_024);
    assert_eq!(DnsAddressFamily::default(), DnsAddressFamily::Both);
}

#[test]
fn services_of_the_proxy_must_not_be_the_proxy() {
    let bound = socket("127.0.0.1:3128");
    let config = ProxyConfig::default().with_upstream_proxy(bound);
    assert_eq!(
        check_listener(&config, bound),
        Err("upstream proxy must not be the Sandbox Egress listener")
    );
    let config = ProxyConfig::default().with_dns_server(socket("[::ffff:127.0.0.1]:3128"));
    assert_eq!(
        check_listener(&config, bound),
        Err("explicit DNS server must not be the Sandbox Egress listener")
    );
    assert_eq!(check_listener(&config, socket("127.0.0.1:3129")), Ok(()));
}

#[test]
fn startup_reports_what_went_wrong() {
    let mut config = ProxyConfig::default();
    for (failure, text) in [
        (
            StartupFailure::Runtime("no".to_owned()),
            "proxy initialization failed: runtime creation failed: no",
        ),
        (
            StartupFailure::Resolver("no".to_owned()),
            "proxy initialization failed: resolver initialization failed: no",
        ),
        (
            StartupFailure::Bind("no".to_owned()),
            "proxy initialization failed: listener bind failed: no",
        ),
        (
            StartupFailure::Address("no".to_owned()),
            "proxy initialization failed: listener address failed: no",
        ),
        (StartupFailure::Thread("no".to_owned()), "proxy initialization failed: no"),
        (StartupFailure::Stopped, "proxy runtime stopped unexpectedly"),
    ] {
        let error = Proxy::start(&mut config, Err(failure)).expect_err("startup failure");
        assert_eq!(error.message(), text);
        assert_eq!(config.bind_address, socket("127.0.0.1:0"));
    }
    let proxy = Proxy::start(&mut config, Ok(socket("127.0.0.1:4711"))).expect("started");
    assert_eq!(proxy.endpoint().to_text(), "http://127.0.0.1:4711");
    assert_eq!(config.bind_address, socket("127.0.0.1:4711"));
}

#[test]
fn upstream_proxy_cannot_reference_the_shared_listener() {
    let mut config = ProxyConfig::default().with_upstream_proxy(socket("127.0.0.1:4711"));
    assert!(matches!(
        Proxy::start(&mut config, Ok(socket("127.0.0.1:4711"))),
        Err(ProxyError::Initialization(reason))
            if reason == "upstream proxy must not be the Sandbox Egress listener"
    ));
}

#[test]
fn validation_comes_before_the_listener() {
    let refused = |result: Result<Proxy, ProxyError>| match result {
        Err(ProxyError::Initialization(reason)) => reason,
        other => panic!("not refused: {other:?}"),
    };
    for listener in [
        Ok(socket("127.0.0.1:4711")),
        Err(StartupFailure::Bind("no".to_owned())),
        Err(StartupFailure::Stopped),
    ] {
        let mut config = ProxyConfig::default().with_header_timeout(0);
        let reason = refused(Proxy::start(&mut config, listener));
        assert_eq!(reason, "header timeout must be nonzero");
        assert_eq!(config.bind_address, socket("127.0.0.1:0"));
    }
    let mut config = ProxyConfig::default();
    for (header_fits, quiet_fits, reason) in [
        (false, true, "header timeout is too large"),
        (true, false, "identity reuse quiet period is too large"),
    ] {
        let bound = Ok(socket("127.0.0.1:4711"));
        let result = Proxy::start_when(&mut config, header_fits, quiet_fits, bound);
        assert_eq!(refused(result), reason);
    }
    let started = Proxy::start_when(&mut config, true, true, Ok(socket("127.0.0.1:4711")));
    assert_eq!(started.expect("started").endpoint().to_text(), "http://127.0.0.1:4711");
}
