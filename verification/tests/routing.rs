use sandbox_egress::address::{is_proxy_endpoint, IpAddress, IpNetwork, Ipv6Network, SocketAddress};
use sandbox_egress::config::{DnsAddressFamily, ProxyConfig};
use sandbox_egress::connect::{HeaderBlock, HeaderProgress, HeaderReader};
use sandbox_egress::denial::denial_response;
use sandbox_egress::dial::DialQueue;
use sandbox_egress::policy::Policy;
use sandbox_egress::resolver::ResolverSettings;
use sandbox_egress::route::{
    answer_ceiling, dns_deadline, is_in_family, route_given, LookupOutcome, Route,
};
use sandbox_egress::session::{Action, DialOutcome, Event, HeaderOutcome, Session};

const SECOND: u128 = 1_000_000_000;
const MILLISECOND: u128 = 1_000_000;

fn ip(text: &str) -> IpAddress {
    if let Ok(host) = format!("{text}/32").parse::<ipnet::Ipv4Net>() {
        return IpAddress::V4(host.addr().into());
    }
    let host: ipnet::Ipv6Net = format!("{text}/128").parse().expect("IP text");
    IpAddress::V6(host.addr().into())
}

fn socket(text: &str) -> SocketAddress {
    let (host, port) = text.rsplit_once(':').expect("socket text");
    let host = host.trim_start_matches('[').trim_end_matches(']');
    SocketAddress::new(ip(host), port.parse().expect("port text"))
}

fn network(text: &str) -> IpNetwork {
    match text.parse::<ipnet::IpNet>().expect("network text") {
        ipnet::IpNet::V4(network) => IpNetwork {
            address: IpAddress::V4(network.addr().into()),
            prefix_len: network.prefix_len(),
        },
        ipnet::IpNet::V6(network) => IpNetwork {
            address: IpAddress::V6(network.addr().into()),
            prefix_len: network.prefix_len(),
        },
    }
}

fn prefix(text: &str) -> Ipv6Network {
    let network: ipnet::Ipv6Net = text.parse().expect("IPv6 prefix");
    Ipv6Network { address: network.addr().into(), prefix_len: network.prefix_len() }
}

fn answers(addresses: &[&str]) -> LookupOutcome {
    LookupOutcome::Answered(addresses.iter().map(|text| ip(text)).collect())
}

fn hostname_policy(hostname: &str, port: u16) -> Policy {
    Policy::builder()
        .allow_host(hostname)
        .expect("valid test hostname")
        .allow_network(network("127.0.0.0/8"))
        .allow_port(port)
        .dns_timeout(2 * SECOND)
        .handshake_timeout(2 * SECOND)
        .build()
        .expect("valid policy")
}

fn floor_policy() -> Policy {
    Policy::builder()
        .allow_host("floor.test")
        .expect("valid hostname")
        .allow_network(network("0.0.0.0/0"))
        .allow_network(network("::/0"))
        .allow_port(443)
        .build()
        .expect("valid policy")
}

struct Served {
    response: String,
    lookups: Vec<String>,
    dials: Vec<SocketAddress>,
}

/// Serves one request with a fixed answer, and refuses every dial.
fn serve(config: &ProxyConfig, policy: &Policy, wire: &[u8], answer: LookupOutcome) -> Served {
    let mut reader = HeaderReader::new(config.max_header_bytes);
    let header = match reader.push(wire) {
        HeaderProgress::Complete(end) => {
            HeaderOutcome::Read(HeaderBlock { bytes: wire.to_vec(), end })
        }
        HeaderProgress::Incomplete => HeaderOutcome::Eof,
        HeaderProgress::TooLarge => HeaderOutcome::TooLarge,
    };
    let mut session = Session::new();
    let mut served = Served { response: String::new(), lookups: vec![], dials: vec![] };
    let mut answer = Some(answer);
    let mut event = Event::Header(header);
    loop {
        event = match session.step(policy, config, event).0 {
            Action::Resolve(name) => {
                served.lookups.push(name);
                Event::Lookup(answer.take().expect("one lookup"))
            }
            Action::Dial(addresses) => {
                let mut queue = DialQueue::new(addresses);
                while let Some(attempt) = queue.next_attempt(false, 0, SECOND, u128::MAX) {
                    served.dials.push(attempt.address);
                }
                Event::Dial(DialOutcome::Unreachable)
            }
            Action::Deny(denial) => {
                served.response = denial_response(denial, 0, 1).expect("time for a response");
                return served;
            }
            action => panic!("unexpected action {action:?}"),
        };
    }
}

fn request(config: &ProxyConfig, policy: &Policy, authority: &str, answer: LookupOutcome) -> Served {
    let host = authority.rsplit_once(':').expect("authority").0;
    let wire = format!("CONNECT {authority} HTTP/1.1\r\nHost: {host}\r\n\r\n");
    serve(config, policy, wire.as_bytes(), answer)
}

fn floor_request(config: ProxyConfig, addresses: &[&str], host: &str) -> (String, Vec<SocketAddress>) {
    let served = request(&config, &floor_policy(), &format!("{host}:443"), answers(addresses));
    (served.response, served.dials)
}

fn assert_dns_terminal_denial(hostname: &str, answer: LookupOutcome, reason: &str) {
    let served = request(
        &ProxyConfig::default(),
        &hostname_policy(hostname, 443),
        &format!("{hostname}:443"),
        answer,
    );
    assert!(served.response.starts_with("HTTP/1.1 502"), "{}", served.response);
    assert!(served.response.contains(reason), "{}", served.response);
    assert!(served.dials.is_empty());
}

#[test]
fn routing_dns_terminal_results_remain_distinct_and_never_dial() {
    assert_dns_terminal_denial("failed.test", LookupOutcome::Failed, "dns-failed");
    assert_dns_terminal_denial("empty.test", answers(&[]), "dns-empty");
}

#[test]
fn mod_dns_terminal_results_remain_distinct_and_never_dial() {
    assert_dns_terminal_denial("failed.test", LookupOutcome::Failed, "dns-failed");
    assert_dns_terminal_denial("empty.test", answers(&[]), "dns-empty");
}

#[test]
fn routing_dns_deadline_has_a_distinct_denial_and_never_dials() {
    let served = request(
        &ProxyConfig::default(),
        &hostname_policy("pending.test", 443),
        "pending.test:443",
        LookupOutcome::TimedOut,
    );
    assert!(served.response.starts_with("HTTP/1.1 504"), "{}", served.response);
    assert!(served.response.contains("dns-timeout"), "{}", served.response);
    assert!(served.dials.is_empty());
}

#[test]
fn a_missing_lookup_permit_has_a_distinct_denial() {
    let served = request(
        &ProxyConfig::default(),
        &hostname_policy("queued.test", 443),
        "queued.test:443",
        LookupOutcome::NoPermit,
    );
    assert!(served.response.starts_with("HTTP/1.1 503"), "{}", served.response);
    assert!(served.response.contains("dns-capacity"), "{}", served.response);
    assert!(served.dials.is_empty());
}

#[test]
fn invalid_host_port_is_denied_before_dns_or_dial() {
    let policy = Policy::builder()
        .allow_host("allowed.test")
        .expect("valid hostname")
        .allow_network(network("0.0.0.0/0"))
        .allow_network(network("::/0"))
        .allow_port(443)
        .build()
        .expect("valid policy");
    for host in ["allowed.test", "192.0.2.1", "[2001:db8::1]"] {
        for port in ["abc", "99999", "", "0", "444"] {
            let wire = format!("CONNECT {host}:443 HTTP/1.1\r\nHost: {host}:{port}\r\n\r\n");
            let served = serve(
                &ProxyConfig::default(),
                &policy,
                wire.as_bytes(),
                answers(&["192.0.2.1"]),
            );
            assert!(served.response.starts_with("HTTP/1.1 400"), "{host}:{port}");
            assert!(served.lookups.is_empty());
            assert!(served.dials.is_empty());
        }
    }
}

fn assert_absolute_hostname() {
    let served = serve(
        &ProxyConfig::default(),
        &hostname_policy("mixed.case.test", 443),
        b"CONNECT Mixed.Case.Test.:443 HTTP/1.1\r\nHost: mixed.case.test\r\n\r\n",
        answers(&["127.0.0.1"]),
    );
    assert_eq!(served.lookups, vec!["mixed.case.test.".to_owned()]);
    assert!(served.response.contains("dial-failed"), "{}", served.response);
    assert_eq!(served.dials.len(), 1);
}

#[test]
fn mod_test_and_system_resolvers_receive_the_same_absolute_hostname() {
    assert_absolute_hostname();
}

#[test]
fn routing_test_and_system_resolvers_receive_the_same_absolute_hostname() {
    assert_absolute_hostname();
}

#[test]
fn routing_explicit_public_network_denial_blocks_dns_and_literal_paths_before_dial() {
    let policy = Policy::builder()
        .allow_host("blocked-public.test")
        .expect("valid test hostname")
        .allow_network(network("0.0.0.0/0"))
        .deny_network(network("93.184.216.0/24"))
        .allow_port(443)
        .build()
        .expect("valid policy");
    for (authority, reason) in [
        ("blocked-public.test:443", "resolved-address-denied"),
        ("93.184.216.34:443", "ip-literal-denied"),
    ] {
        let served = request(
            &ProxyConfig::default(),
            &policy,
            authority,
            answers(&["93.184.216.34"]),
        );
        assert!(served.response.starts_with("HTTP/1.1 403"), "{}", served.response);
        assert!(served.response.contains(reason), "{}", served.response);
        assert!(served.dials.is_empty());
    }
}

#[test]
fn routing_azure_wireserver_dns_answer_is_rejected_before_dial() {
    let served = request(
        &ProxyConfig::default(),
        &hostname_policy("wireserver.test", 443),
        "wireserver.test:443",
        answers(&["168.63.129.16"]),
    );
    assert!(served.response.starts_with("HTTP/1.1 403"), "{}", served.response);
    assert!(served.response.contains("resolved-address-denied"), "{}", served.response);
    assert!(served.dials.is_empty());
}

#[test]
fn routing_hostname_resolving_to_proxy_listener_is_rejected_before_dial() {
    let config = ProxyConfig::default().with_bind_address(socket("127.0.0.1:4750"));
    let served = request(
        &config,
        &hostname_policy("self.test", 4750),
        "self.test:4750",
        answers(&["127.0.0.1"]),
    );
    assert!(served.response.starts_with("HTTP/1.1 403"), "{}", served.response);
    assert!(served.response.contains("proxy-endpoint-denied"), "{}", served.response);
    assert!(served.dials.is_empty());
}

#[test]
fn proxy_listener_cannot_be_a_tunnel_destination() {
    let config = ProxyConfig::default().with_bind_address(socket("127.0.0.1:4750"));
    let policy = Policy::builder()
        .allow_network(network("127.0.0.0/8"))
        .allow_port(4750)
        .build()
        .expect("valid policy");
    let served = request(&config, &policy, "127.0.0.1:4750", answers(&[]));
    assert!(served.response.starts_with("HTTP/1.1 403"), "{}", served.response);
    assert!(served.response.contains("proxy-endpoint-denied"), "{}", served.response);
}

#[test]
fn routing_wildcard_listener_rejects_every_same_port_destination_before_dial() {
    let config = ProxyConfig::default().with_bind_address(socket("[::]:4750"));
    let policy = Policy::builder()
        .allow_host("same-port.test")
        .expect("valid hostname")
        .allow_port(4750)
        .build()
        .expect("valid policy");
    let served = request(&config, &policy, "same-port.test:4750", answers(&["93.184.216.34"]));
    assert!(served.response.starts_with("HTTP/1.1 403"), "{}", served.response);
    assert!(served.response.contains("proxy-endpoint-denied"), "{}", served.response);
    assert!(served.dials.is_empty());
}

fn assert_endpoint_spellings() {
    let endpoint = socket("127.0.0.1:4750");
    assert!(is_proxy_endpoint(endpoint, endpoint));
    assert!(is_proxy_endpoint(socket("[::ffff:127.0.0.1]:4750"), endpoint));
    assert!(is_proxy_endpoint(socket("127.0.0.1:4750"), socket("[::]:4750")));
    assert!(is_proxy_endpoint(socket("127.0.0.1:4750"), socket("0.0.0.0:4750")));
    assert!(is_proxy_endpoint(socket("93.184.216.34:4750"), socket("[::]:4750")));
    assert!(is_proxy_endpoint(socket("10.0.0.8:4750"), socket("0.0.0.0:4750")));
    assert!(!is_proxy_endpoint(socket("127.0.0.1:4751"), endpoint));
}

#[test]
fn mod_proxy_endpoint_matching_covers_transport_spellings_and_wildcard_port() {
    assert_endpoint_spellings();
}

#[test]
fn routing_proxy_endpoint_matching_covers_transport_spellings_and_wildcard_port() {
    assert_endpoint_spellings();
}

#[test]
fn routing_explicit_hostname_denial_stops_before_dns_and_dial() {
    let policy = Policy::builder()
        .allow_host("*.example.test")
        .expect("valid wildcard grant")
        .deny_host("admin.example.test")
        .expect("valid hostname denial")
        .deny_host("*.internal.example.test")
        .expect("valid wildcard denial")
        .allow_port(443)
        .build()
        .expect("valid policy");
    for authority in ["AdMiN.ExAmPlE.TeSt.:443", "deep.secret.internal.example.test:443"] {
        let wire = format!("CONNECT {authority} HTTP/1.1\r\nHost: {authority}\r\n\r\n");
        let served = serve(&ProxyConfig::default(), &policy, wire.as_bytes(), answers(&[]));
        assert!(served.response.starts_with("HTTP/1.1 403"), "{}", served.response);
        assert!(served.response.contains("host-denied"), "{}", served.response);
        assert!(served.lookups.is_empty());
        assert!(served.dials.is_empty());
    }
}

#[test]
fn hostname_policy_denies_before_dns() {
    let policy = Policy::builder().allow_port(443).build().expect("valid policy");
    let served = request(
        &ProxyConfig::default(),
        &policy,
        "forbidden.invalid:443",
        answers(&["93.184.216.34"]),
    );
    assert!(served.response.starts_with("HTTP/1.1 403"), "{}", served.response);
    assert!(served.response.contains("host-denied"), "{}", served.response);
    assert!(served.lookups.is_empty());
}

#[test]
fn an_explicit_http_port_does_not_also_allow_https() {
    let policy = Policy::builder()
        .allow_network(network("127.0.0.0/8"))
        .allow_port(80)
        .build()
        .expect("valid HTTP-only policy");
    let served = request(&ProxyConfig::default(), &policy, "127.0.0.1:443", answers(&[]));
    assert!(served.response.starts_with("HTTP/1.1 403"), "{}", served.response);
    assert!(served.response.contains("port-denied"), "{}", served.response);
}

#[test]
fn routing_dns_answer_with_ipv4_compatible_metadata_address_is_rejected_as_a_set() {
    let served = request(
        &ProxyConfig::default(),
        &hostname_policy("mixed.test", 443),
        "mixed.test:443",
        answers(&["93.184.216.34", "::169.254.169.254"]),
    );
    assert!(served.response.starts_with("HTTP/1.1 403"), "{}", served.response);
    assert!(served.response.contains("resolved-address-denied"), "{}", served.response);
    assert!(served.dials.is_empty());
}

#[test]
fn routing_legacy_numeric_spellings_cannot_bypass_the_system_resolver_address_floor() {
    for hostname in ["127.1", "0177.0.0.1", "0x7f000001", "2130706433"] {
        let policy = Policy::builder()
            .allow_host(hostname)
            .expect("valid legacy-looking hostname")
            .allow_port(443)
            .build()
            .expect("valid policy");
        let served = request(
            &ProxyConfig::default(),
            &policy,
            &format!("{hostname}:443"),
            answers(&["127.0.0.1"]),
        );
        assert_eq!(served.lookups, vec![format!("{hostname}.")]);
        assert!(served.response.starts_with("HTTP/1.1 403"), "{}", served.response);
        assert!(served.response.contains("resolved-address-denied"), "{}", served.response);
        assert!(served.dials.is_empty());
    }
}

#[test]
fn routing_configured_nat64_prefix_rejects_an_embedded_metadata_destination() {
    let config = ProxyConfig::default().with_nat64_prefix(prefix("2600:1f18:abcd:1234::/96"));
    let served = request(
        &config,
        &hostname_policy("nat64.test", 443),
        "nat64.test:443",
        answers(&["2600:1f18:abcd:1234::a9fe:a9fe"]),
    );
    assert!(served.response.starts_with("HTTP/1.1 403"), "{}", served.response);
    assert!(served.response.contains("resolved-address-denied"), "{}", served.response);
    assert!(served.dials.is_empty());
}

#[test]
fn routing_oversized_dns_answer_is_rejected_before_any_dial() {
    let served = request(
        &ProxyConfig::default(),
        &hostname_policy("large-answer.test", 443),
        "large-answer.test:443",
        answers(&["127.0.0.1"; 65]),
    );
    assert!(served.response.starts_with("HTTP/1.1 502"), "{}", served.response);
    assert!(served.response.contains("dns-answer-too-large"), "{}", served.response);
    assert!(served.dials.is_empty());
}

#[test]
fn routing_duplicate_dns_answers_produce_one_dial_attempt() {
    let served = request(
        &ProxyConfig::default(),
        &hostname_policy("duplicate-answer.test", 443),
        "duplicate-answer.test:443",
        answers(&["127.0.0.1"; 64]),
    );
    assert!(served.response.contains("dial-failed"), "{}", served.response);
    assert_eq!(served.dials, vec![socket("127.0.0.1:443")]);
}

#[test]
fn routing_equivalent_dns_address_spellings_produce_one_dial_attempt() {
    let policy = Policy::builder()
        .allow_host("equivalent-answer.test")
        .expect("valid hostname")
        .allow_network(network("127.0.0.0/8"))
        .allow_network(network("::ffff:127.0.0.1/128"))
        .allow_port(443)
        .build()
        .expect("valid policy");
    let served = request(
        &ProxyConfig::default(),
        &policy,
        "equivalent-answer.test:443",
        answers(&["127.0.0.1", "::ffff:127.0.0.1"]),
    );
    assert!(served.response.contains("dial-failed"), "{}", served.response);
    assert_eq!(served.dials, vec![socket("127.0.0.1:443")]);
}

#[test]
fn bracketed_ipv6_literal_is_checked_and_dialed_directly() {
    let policy = Policy::builder()
        .allow_network(network("::1/128"))
        .allow_port(443)
        .build()
        .expect("valid policy");
    let served = request(&ProxyConfig::default(), &policy, "[::1]:443", answers(&[]));
    assert!(served.lookups.is_empty());
    assert_eq!(served.dials, vec![socket("[::1]:443")]);
}

#[test]
fn family_filter_runs_before_answer_ceiling_and_address_canonicalization() {
    for (family, addresses, excluded, expected) in [
        (
            DnsAddressFamily::Ipv4Only,
            ["::ffff:93.184.216.34", "64:ff9b::5db8:d822", "93.184.216.35"],
            "::/0",
            "93.184.216.35:443",
        ),
        (
            DnsAddressFamily::Ipv6Only,
            ["93.184.216.34", "93.184.216.35", "2606:4700:4700::1111"],
            "0.0.0.0/0",
            "[2606:4700:4700::1111]:443",
        ),
    ] {
        let (response, dials) = floor_request(
            ProxyConfig::default()
                .with_dns_address_family(family)
                .with_max_resolved_addresses(1)
                .with_denied_network(network(excluded)),
            &addresses,
            "floor.test",
        );
        assert!(response.contains("dial-failed"), "{response}");
        assert_eq!(dials, vec![socket(expected)]);
    }
}

#[test]
fn excluded_family_only_is_empty_and_never_dialed() {
    for (family, addresses) in [
        (DnsAddressFamily::Ipv4Only, ["2606:4700:4700::1111"]),
        (DnsAddressFamily::Ipv6Only, ["93.184.216.34"]),
    ] {
        let (response, dials) = floor_request(
            ProxyConfig::default().with_dns_address_family(family),
            &addresses,
            "floor.test",
        );
        assert!(response.contains("dns-empty"), "{response}");
        assert!(dials.is_empty());
    }
}

#[test]
fn selected_family_still_rejects_oversized_answers() {
    let (response, dials) = floor_request(
        ProxyConfig::default()
            .with_dns_address_family(DnsAddressFamily::Ipv4Only)
            .with_max_resolved_addresses(1),
        &["2606:4700:4700::1111", "93.184.216.34", "93.184.216.35"],
        "floor.test",
    );
    assert!(response.contains("dns-answer-too-large"), "{response}");
    assert!(dials.is_empty());
}

#[test]
fn one_denied_selected_address_still_poisons_the_whole_answer() {
    for family in [
        DnsAddressFamily::Both,
        DnsAddressFamily::Ipv4Only,
        DnsAddressFamily::Ipv6Only,
    ] {
        let blocked = if family == DnsAddressFamily::Ipv4Only {
            "93.184.216.34"
        } else {
            "::ffff:93.184.216.34"
        };
        let allowed = if family == DnsAddressFamily::Ipv4Only {
            "93.184.216.35"
        } else {
            "2606:4700:4700::1111"
        };
        for addresses in [[allowed, blocked], [blocked, allowed]] {
            let (response, dials) = floor_request(
                ProxyConfig::default()
                    .with_dns_address_family(family)
                    .with_denied_network(network("93.184.216.34/32")),
                &addresses,
                "floor.test",
            );
            assert!(response.contains("proxy-network-denied"), "{response}");
            assert!(dials.is_empty());
        }
    }
}

#[test]
fn literal_destinations_remain_subject_to_network_rules_not_dns_family() {
    for denied in [false, true] {
        let mut config = ProxyConfig::default().with_dns_address_family(DnsAddressFamily::Ipv4Only);
        if denied {
            config = config.with_denied_network(network("::/0"));
        }
        let (response, dials) = floor_request(config, &[], "[2606:4700:4700::1111]");
        assert!(response.contains(if denied {
            "proxy-network-denied"
        } else {
            "dial-failed"
        }));
        assert_eq!(dials.len(), usize::from(!denied));
    }
}

#[test]
fn family_setting_applies_to_system_and_explicit_resolvers_with_unchanged_default() {
    for server in [None, Some(socket("127.0.0.1:5353"))] {
        let mut config = ProxyConfig::default();
        if let Some(server) = server {
            config = config.with_dns_server(server);
        }
        assert_eq!(config.dns_address_family, DnsAddressFamily::Both);
        for family in [
            DnsAddressFamily::Both,
            DnsAddressFamily::Ipv4Only,
            DnsAddressFamily::Ipv6Only,
        ] {
            let settings =
                ResolverSettings::for_config(&config.clone().with_dns_address_family(family));
            assert_eq!(settings.address_family, family);
            assert_eq!(settings.name_servers.is_some(), server.is_some());
        }
    }
}

fn assert_cache_bounds() {
    let config = ProxyConfig::default().with_dns_cache(17, 19 * SECOND);
    let settings = ResolverSettings::for_config(&config);
    assert_eq!(settings.cache_size, 17);
    assert_eq!(settings.positive_max_ttl, 19 * SECOND);
    assert_eq!(settings.negative_max_ttl, 19 * SECOND);
    assert!(settings.try_tcp_on_error);
}

#[test]
fn mod_system_resolver_uses_the_configured_cache_bounds() {
    assert_cache_bounds();
}

#[test]
fn routing_system_resolver_uses_the_configured_cache_bounds() {
    assert_cache_bounds();
}

#[test]
fn explicit_servers_take_the_place_of_the_host_configuration() {
    let settings = ResolverSettings::for_config(&ProxyConfig::default());
    assert!(settings.hosts_file);
    assert!(settings.name_servers.is_none());

    let config = ProxyConfig::default()
        .with_dns_server(socket("127.0.0.1:5353"))
        .with_dns_server(socket("[2001:db8::1]:53"));
    let settings = ResolverSettings::for_config(&config);
    assert!(!settings.hosts_file);
    let servers = settings.name_servers.expect("explicit servers");
    assert_eq!(servers.len(), 2);
    assert_eq!(servers[0].ip, ip("127.0.0.1"));
    assert_eq!((servers[0].udp_port, servers[0].tcp_port), (5353, 5353));
    assert!(servers[0].trust_negative_responses);
    assert_eq!(servers[1].ip, ip("2001:db8::1"));
}

fn assert_revocation_prevents_fallback() {
    let first = socket("192.0.2.1:443");
    let second = socket("192.0.2.2:443");
    let mut queue = DialQueue::new(vec![first, second]);
    let attempt = queue.next_attempt(false, 0, SECOND, u128::MAX).expect("first attempt");
    assert_eq!(attempt.address, first);
    assert!(queue.next_attempt(true, 1, SECOND, u128::MAX).is_none());
}

#[test]
fn mod_revocation_before_refusal_prevents_a_fallback_dial() {
    assert_revocation_prevents_fallback();
}

#[test]
fn routing_revocation_before_refusal_prevents_a_fallback_dial() {
    assert_revocation_prevents_fallback();
}

#[test]
fn routing_pending_first_address_cannot_starve_a_reachable_second_address() {
    let first = socket("192.0.2.1:443");
    let second = socket("198.51.100.1:443");
    let deadline = 400 * MILLISECOND;
    let mut queue = DialQueue::new(vec![first, second]);
    let attempt = queue.next_attempt(false, 0, deadline, u128::MAX).expect("first attempt");
    assert_eq!(attempt.address, first);
    assert_eq!(attempt.deadline, 200 * MILLISECOND);
    let attempt = queue
        .next_attempt(false, attempt.deadline, deadline, u128::MAX)
        .expect("second attempt");
    assert_eq!(attempt.address, second);
    assert_eq!(attempt.deadline, deadline);
    assert!(queue.next_attempt(false, 0, deadline, u128::MAX).is_none());
}

#[test]
fn dialing_stops_when_no_time_is_left() {
    let mut queue = DialQueue::new(vec![socket("192.0.2.1:443"); 3]);
    assert!(queue.next_attempt(false, SECOND, SECOND, u128::MAX).is_none());
    assert!(queue.next_attempt(false, SECOND - 2, SECOND, u128::MAX).is_none());
    let attempt = queue
        .next_attempt(false, SECOND - 3, SECOND, SECOND - 3)
        .expect("one nanosecond each");
    assert_eq!(attempt.deadline, SECOND);
}

#[test]
fn one_more_answer_than_the_ceiling_is_read() {
    assert_eq!(answer_ceiling(64), 65);
    assert_eq!(answer_ceiling(usize::MAX), usize::MAX);
}

#[test]
fn a_lookup_ends_with_the_handshake_at_the_latest() {
    assert_eq!(dns_deadline(10, 5, 100, u128::MAX), 15);
    assert_eq!(dns_deadline(10, 500, 100, u128::MAX), 100);
    assert_eq!(dns_deadline(10, 500, 100, 50), 100);
}

#[test]
fn proxy_wide_denials_come_after_the_endpoint_and_before_the_policy() {
    let config = ProxyConfig::default()
        .with_bind_address(socket("127.0.0.1:4750"))
        .with_denied_network(network("127.0.0.0/8"));
    let served = request(
        &config,
        &hostname_policy("self.test", 4750),
        "self.test:4750",
        answers(&["127.0.0.1"]),
    );
    assert!(served.response.contains("proxy-endpoint-denied"), "{}", served.response);
    let served = request(
        &config,
        &hostname_policy("other.test", 443),
        "other.test:443",
        answers(&["127.0.0.1"]),
    );
    assert!(served.response.contains("proxy-network-denied"), "{}", served.response);
    let served = request(
        &config,
        &hostname_policy("other.test", 443),
        "other.test:443",
        answers(&["10.0.0.1"]),
    );
    assert!(served.response.contains("resolved-address-denied"), "{}", served.response);
}

#[test]
fn an_unreachable_upstream_proxy_has_its_own_reason() {
    let config = ProxyConfig::default().with_upstream_proxy(socket("192.0.2.9:3128"));
    let served = request(
        &config,
        &hostname_policy("up.test", 443),
        "up.test:443",
        answers(&["127.0.0.1"]),
    );
    assert!(served.response.starts_with("HTTP/1.1 502"), "{}", served.response);
    assert!(served.response.contains("upstream-proxy-failed"), "{}", served.response);
}

#[test]
fn a_host_that_is_no_hostname_is_refused() {
    let served = request(
        &ProxyConfig::default(),
        &hostname_policy("a.test", 443),
        "a_b.test:443",
        answers(&[]),
    );
    assert!(served.response.starts_with("HTTP/1.1 400"), "{}", served.response);
    assert!(served.response.contains("invalid-hostname"), "{}", served.response);
}

#[test]
fn every_granted_host_is_looked_up_for_every_granted_port() {
    let policy = Policy::builder()
        .allow_host("a.test")
        .expect("valid hostname")
        .allow_host("b.test")
        .expect("valid hostname")
        .allow_port(443)
        .allow_port(8443)
        .build()
        .expect("valid policy");
    for host in ["a.test", "b.test"] {
        for port in [443, 8443] {
            let served = request(
                &ProxyConfig::default(),
                &policy,
                &format!("{host}:{port}"),
                LookupOutcome::Failed,
            );
            assert_eq!(served.lookups, vec![format!("{host}.")]);
        }
    }
}

#[test]
fn an_address_is_routed_as_an_address_even_where_it_reads_as_a_name() {
    let config = ProxyConfig::default();
    let policy = floor_policy();
    let name = Some("floor.test".to_owned());
    assert!(matches!(
        route_given(&policy, &config, 443, Some(ip("93.184.216.34")), name.clone()),
        Ok(Route::Approved(addresses)) if addresses == vec![socket("93.184.216.34:443")]
    ));
    assert!(matches!(
        route_given(&policy, &config, 443, None, name),
        Ok(Route::Lookup(name)) if name == "floor.test."
    ));
    assert!(matches!(
        route_given(&policy, &config, 443, None, None),
        Err(denial) if denial.status == 400 && denial.reason == "invalid-hostname"
    ));
}

#[test]
fn a_mapped_answer_counts_as_ipv6() {
    let mapped = ip("::ffff:93.184.216.34");
    assert!(!is_in_family(DnsAddressFamily::Ipv4Only, mapped));
    assert!(is_in_family(DnsAddressFamily::Ipv6Only, mapped));
    assert!(is_in_family(DnsAddressFamily::Both, mapped));
    assert!(is_in_family(DnsAddressFamily::Ipv4Only, ip("93.184.216.34")));
    assert!(!is_in_family(DnsAddressFamily::Ipv6Only, ip("93.184.216.34")));
}
