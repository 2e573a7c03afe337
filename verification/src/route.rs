//! From a requested destination to the addresses that may be dialed.

use vstd::prelude::*;

use crate::address::{
    any_network_holds, canonical_address, ip_literal, is_proxy_endpoint, parse_ip, plain_socket,
    reaches_endpoint, IpAddress, SocketAddress,
};
use crate::config::{DnsAddressFamily, ProxyConfig};
use crate::connect::{optional_text, ConnectRequest};
use crate::denial::{denied_with, Denial, DenialView};
use crate::hostname::{canonical_hostname, canonical_name};
use crate::policy::{is_network_denied, networks_deny, Policy};
use crate::text::joined;
use crate::time::{checked_after, earlier, earlier_of, moment_after};

verus! {

/// How a requested destination is reached.
#[derive(Debug)]
pub enum Route {
    /// Dial these addresses, in this order.
    Approved(Vec<SocketAddress>),
    /// Resolve this absolute hostname first.
    Lookup(String),
}

/// What a route says.
#[verifier::ext_equal]
pub enum RouteView {
    Approved(Seq<SocketAddress>),
    Lookup(Seq<char>),
}

impl View for Route {
    type V = RouteView;

    open spec fn view(&self) -> RouteView {
        match self {
            Route::Approved(addresses) => RouteView::Approved(addresses@),
            Route::Lookup(name) => RouteView::Lookup(name@),
        }
    }
}

pub open spec fn route_result(result: Result<Route, Denial>) -> Result<RouteView, DenialView> {
    match result {
        Ok(route) => Ok(route@),
        Err(denial) => Err(denial@),
    }
}

/// The socket that is dialed for an address.
pub open spec fn dialed_socket(address: IpAddress, port: u16) -> SocketAddress {
    plain_socket(canonical_address(address), port)
}

/// Why no lease may reach an address on this port: it is the proxy itself, or
/// the operator denies its network.
pub open spec fn proxy_denial(config: ProxyConfig, address: IpAddress, port: u16) -> Option<
    DenialView,
> {
    if reaches_endpoint(dialed_socket(address, port), config.bind_address) {
        Some(denied_with(403, "proxy-endpoint-denied"))
    } else if networks_deny(config.denied_networks@, address, config.nat64_prefixes@) {
        Some(denied_with(403, "proxy-network-denied"))
    } else {
        None
    }
}

fn denied_by_proxy(config: &ProxyConfig, address: IpAddress, port: u16) -> (denied: Option<Denial>)
    ensures
        match denied {
            Some(denied) => proxy_denial(*config, address, port) == Some(denied@),
            None => proxy_denial(*config, address, port) is None,
        },
{
    let socket = SocketAddress::new(address.to_canonical(), port);
    if is_proxy_endpoint(socket, config.bind_address) {
        return Some(Denial::new(403, "proxy-endpoint-denied"));
    }
    if is_network_denied(&config.denied_networks, address, &config.nat64_prefixes) {
        return Some(Denial::new(403, "proxy-network-denied"));
    }
    None
}

/// How a destination is reached, given what its host is as an IP address and as
/// a hostname.
pub open spec fn routed_given(
    policy: Policy,
    config: ProxyConfig,
    port: u16,
    literal: Option<IpAddress>,
    hostname: Option<Seq<char>>,
) -> Result<RouteView, DenialView> {
    match literal {
        Some(address) => match proxy_denial(config, address, port) {
            Some(denied) => Err(denied),
            None => if policy.literal_allowed(address, config.nat64_prefixes@) {
                Ok(RouteView::Approved(seq![dialed_socket(address, port)]))
            } else {
                Err(denied_with(403, "ip-literal-denied"))
            },
        },
        None => match hostname {
            None => Err(denied_with(400, "invalid-hostname")),
            Some(name) => if policy.hostname_allowed(name) {
                Ok(RouteView::Lookup(name + "."@))
            } else {
                Err(denied_with(403, "host-denied"))
            },
        },
    }
}

/// How a destination is reached, given what its host is as an IP address.
pub open spec fn routed(
    policy: Policy,
    config: ProxyConfig,
    host: Seq<char>,
    port: u16,
    literal: Option<IpAddress>,
) -> Result<RouteView, DenialView> {
    routed_given(policy, config, port, literal, canonical_name(host))
}

/// How a destination is reached, given what its host is as an IP address and as
/// a hostname.
///
/// # Errors
///
/// Returns the denial where the policy or the proxy forbids it.
pub fn route_given(
    policy: &Policy,
    config: &ProxyConfig,
    port: u16,
    literal: Option<IpAddress>,
    hostname: Option<String>,
) -> (route: Result<Route, Denial>)
    ensures
        route_result(route) == routed_given(
            *policy,
            *config,
            port,
            literal,
            optional_text(hostname),
        ),
{
    match literal {
        Some(address) => {
            if let Some(denied) = denied_by_proxy(config, address, port) {
                return Err(denied);
            }
            if !policy.allows_ip_literal(address, &config.nat64_prefixes) {
                return Err(Denial::new(403, "ip-literal-denied"));
            }
            let mut addresses: Vec<SocketAddress> = Vec::new();
            addresses.push(SocketAddress::new(address.to_canonical(), port));
            assert(addresses@ =~= seq![dialed_socket(address, port)]);
            Ok(Route::Approved(addresses))
        },
        None => {
            let name = match hostname {
                Some(name) => name,
                None => return Err(Denial::new(400, "invalid-hostname")),
            };
            if !policy.allows_hostname(name.as_str()) {
                return Err(Denial::new(403, "host-denied"));
            }
            Ok(Route::Lookup(joined(name.as_str(), ".")))
        },
    }
}

/// How a destination is reached.
///
/// # Errors
///
/// Returns the denial where the policy or the proxy forbids it.
pub fn route(policy: &Policy, config: &ProxyConfig, request: &ConnectRequest) -> (route: Result<
    Route,
    Denial,
>)
    ensures
        route_result(route) == routed(
            *policy,
            *config,
            request.host@,
            request.port,
            ip_literal(request.host@),
        ),
{
    let host = request.host.as_str();
    route_given(policy, config, request.port, parse_ip(host), canonical_hostname(host))
}

/// The moment by which an answer must have come.
pub open spec fn lookup_deadline(
    now: u128,
    dns_timeout: u128,
    handshake_deadline: u128,
    clock_limit: u128,
) -> u128 {
    match moment_after(now, dns_timeout, clock_limit) {
        Some(deadline) => earlier(deadline, handshake_deadline),
        None => handshake_deadline,
    }
}

pub fn dns_deadline(
    now: u128,
    dns_timeout: u128,
    handshake_deadline: u128,
    clock_limit: u128,
) -> (deadline: u128)
    ensures
        deadline == lookup_deadline(now, dns_timeout, handshake_deadline, clock_limit),
{
    match checked_after(now, dns_timeout, clock_limit) {
        Some(deadline) => earlier_of(deadline, handshake_deadline),
        None => handshake_deadline,
    }
}

/// How many addresses of an answer are worth reading: one more than the ceiling
/// shows that the answer is over it.
pub fn answer_ceiling(max_resolved_addresses: usize) -> (count: usize)
    ensures
        count == (if max_resolved_addresses == usize::MAX {
            usize::MAX as int
        } else {
            max_resolved_addresses + 1
        }),
{
    max_resolved_addresses.saturating_add(1)
}

/// What became of a lookup.
#[derive(Debug)]
pub enum LookupOutcome {
    /// No lookup permit was free before the deadline.
    NoPermit,
    /// The deadline came first.
    TimedOut,
    Failed,
    Answered(Vec<IpAddress>),
}

/// What a lookup outcome says.
#[verifier::ext_equal]
pub enum LookupView {
    NoPermit,
    TimedOut,
    Failed,
    Answered(Seq<IpAddress>),
}

impl View for LookupOutcome {
    type V = LookupView;

    open spec fn view(&self) -> LookupView {
        match self {
            LookupOutcome::NoPermit => LookupView::NoPermit,
            LookupOutcome::TimedOut => LookupView::TimedOut,
            LookupOutcome::Failed => LookupView::Failed,
            LookupOutcome::Answered(addresses) => LookupView::Answered(addresses@),
        }
    }
}

/// Whether an address is of a selected family. A mapped spelling counts as
/// IPv6.
pub open spec fn in_family(family: DnsAddressFamily, address: IpAddress) -> bool {
    match (family, address) {
        (DnsAddressFamily::Ipv4Only, IpAddress::V6(_)) => false,
        (DnsAddressFamily::Ipv6Only, IpAddress::V4(_)) => false,
        _ => true,
    }
}

/// The addresses of a selected family, in order.
pub open spec fn selected(family: DnsAddressFamily, answers: Seq<IpAddress>) -> Seq<IpAddress>
    decreases answers.len(),
{
    if answers.len() == 0 {
        Seq::empty()
    } else {
        let before = selected(family, answers.drop_last());
        if in_family(family, answers.last()) {
            before.push(answers.last())
        } else {
            before
        }
    }
}

/// Why a lease may not reach a resolved address on this port.
pub open spec fn answer_denial(
    policy: Policy,
    config: ProxyConfig,
    address: IpAddress,
    port: u16,
) -> Option<DenialView> {
    match proxy_denial(config, address, port) {
        Some(denied) => Some(denied),
        None => if policy.address_allowed(address, config.nat64_prefixes@) {
            None
        } else {
            Some(denied_with(403, "resolved-address-denied"))
        },
    }
}

/// The denial of the first denied address, if any is denied.
pub open spec fn first_denial(
    policy: Policy,
    config: ProxyConfig,
    addresses: Seq<IpAddress>,
    port: u16,
) -> Option<DenialView>
    decreases addresses.len(),
{
    if addresses.len() == 0 {
        None
    } else {
        match first_denial(policy, config, addresses.drop_last(), port) {
            Some(denied) => Some(denied),
            None => answer_denial(policy, config, addresses.last(), port),
        }
    }
}

/// The sockets to dial for these addresses: each once, in the order of its
/// first spelling.
pub open spec fn distinct_sockets(addresses: Seq<IpAddress>, port: u16) -> Seq<SocketAddress>
    decreases addresses.len(),
{
    if addresses.len() == 0 {
        Seq::empty()
    } else {
        let before = distinct_sockets(addresses.drop_last(), port);
        let socket = dialed_socket(addresses.last(), port);
        if before.contains(socket) {
            before
        } else {
            before.push(socket)
        }
    }
}

/// What a lookup outcome allows to be dialed. The family is selected before
/// anything else is asked of the answer, and one denied address denies it all.
pub open spec fn approved(
    policy: Policy,
    config: ProxyConfig,
    port: u16,
    outcome: LookupView,
) -> Result<Seq<SocketAddress>, DenialView> {
    match outcome {
        LookupView::NoPermit => Err(denied_with(503, "dns-capacity")),
        LookupView::TimedOut => Err(denied_with(504, "dns-timeout")),
        LookupView::Failed => Err(denied_with(502, "dns-failed")),
        LookupView::Answered(answers) => {
            let addresses = selected(config.dns_address_family, answers);
            if addresses.len() == 0 {
                Err(denied_with(502, "dns-empty"))
            } else if addresses.len() > config.max_resolved_addresses {
                Err(denied_with(502, "dns-answer-too-large"))
            } else {
                match first_denial(policy, config, addresses, port) {
                    Some(denied) => Err(denied),
                    None => Ok(distinct_sockets(addresses, port)),
                }
            }
        },
    }
}

pub open spec fn approval_result(result: Result<Vec<SocketAddress>, Denial>) -> Result<
    Seq<SocketAddress>,
    DenialView,
> {
    match result {
        Ok(addresses) => Ok(addresses@),
        Err(denial) => Err(denial@),
    }
}

/// Whether an address is of a selected family.
pub fn is_in_family(family: DnsAddressFamily, address: IpAddress) -> (yes: bool)
    ensures
        yes == in_family(family, address),
{
    match (family, address) {
        (DnsAddressFamily::Ipv4Only, IpAddress::V6(_)) => false,
        (DnsAddressFamily::Ipv6Only, IpAddress::V4(_)) => false,
        _ => true,
    }
}

fn select_family(family: DnsAddressFamily, answers: &Vec<IpAddress>) -> (addresses: Vec<IpAddress>)
    ensures
        addresses@ == selected(family, answers@),
{
    let mut addresses: Vec<IpAddress> = Vec::new();
    let mut i: usize = 0;
    while i < answers.len()
        invariant
            i <= answers.len(),
            addresses@ == selected(family, answers@.take(i as int)),
        decreases answers.len() - i,
    {
        assert(answers@.take(i + 1).drop_last() =~= answers@.take(i as int));
        if is_in_family(family, answers[i]) {
            addresses.push(answers[i]);
        }
        i += 1;
    }
    assert(answers@.take(answers@.len() as int) =~= answers@);
    addresses
}

fn holds_socket(sockets: &Vec<SocketAddress>, socket: SocketAddress) -> (found: bool)
    ensures
        found == sockets@.contains(socket),
{
    let mut i: usize = 0;
    while i < sockets.len()
        invariant
            i <= sockets.len(),
            forall|j: int| 0 <= j < i ==> sockets@[j] != socket,
        decreases sockets.len() - i,
    {
        if sockets[i] == socket {
            return true;
        }
        i += 1;
    }
    false
}

proof fn lemma_first_denial_prefix(
    policy: Policy,
    config: ProxyConfig,
    addresses: Seq<IpAddress>,
    count: int,
    port: u16,
)
    requires
        0 <= count <= addresses.len(),
        first_denial(policy, config, addresses.take(count), port) is Some,
    ensures
        first_denial(policy, config, addresses, port) == first_denial(
            policy,
            config,
            addresses.take(count),
            port,
        ),
    decreases addresses.len() - count,
{
    if count < addresses.len() {
        assert(addresses.take(count + 1).drop_last() =~= addresses.take(count));
        lemma_first_denial_prefix(policy, config, addresses, count + 1, port);
    } else {
        assert(addresses.take(count) =~= addresses);
    }
}

/// Check a whole answer.
///
/// # Errors
///
/// Returns the denial of the first address that is denied.
fn check_addresses(
    policy: &Policy,
    config: &ProxyConfig,
    addresses: &Vec<IpAddress>,
    port: u16,
) -> (result: Result<Vec<SocketAddress>, Denial>)
    ensures
        approval_result(result) == (match first_denial(*policy, *config, addresses@, port) {
            Some(denied) => Err::<Seq<SocketAddress>, DenialView>(denied),
            None => Ok(distinct_sockets(addresses@, port)),
        }),
{
    let mut sockets: Vec<SocketAddress> = Vec::new();
    let mut i: usize = 0;
    while i < addresses.len()
        invariant
            i <= addresses.len(),
            first_denial(*policy, *config, addresses@.take(i as int), port) is None,
            sockets@ == distinct_sockets(addresses@.take(i as int), port),
        decreases addresses.len() - i,
    {
        let address = addresses[i];
        proof {
            assert(addresses@.take(i + 1).drop_last() =~= addresses@.take(i as int));
            assert(addresses@.take(i + 1).last() == address);
        }
        if let Some(denied) = denied_by_proxy(config, address, port) {
            proof {
                lemma_first_denial_prefix(*policy, *config, addresses@, i + 1, port);
            }
            return Err(denied);
        }
        if !policy.allows_ip(address, &config.nat64_prefixes) {
            let denied = Denial::new(403, "resolved-address-denied");
            proof {
                lemma_first_denial_prefix(*policy, *config, addresses@, i + 1, port);
            }
            return Err(denied);
        }
        let socket = SocketAddress::new(address.to_canonical(), port);
        if !holds_socket(&sockets, socket) {
            sockets.push(socket);
        }
        i += 1;
    }
    assert(addresses@.take(addresses@.len() as int) =~= addresses@);
    Ok(sockets)
}

/// What a lookup outcome allows to be dialed.
///
/// # Errors
///
/// Returns the denial where the outcome allows nothing.
pub fn resolve_addresses(
    policy: &Policy,
    config: &ProxyConfig,
    port: u16,
    outcome: &LookupOutcome,
) -> (result: Result<Vec<SocketAddress>, Denial>)
    ensures
        approval_result(result) == approved(*policy, *config, port, outcome@),
{
    match outcome {
        LookupOutcome::NoPermit => Err(Denial::new(503, "dns-capacity")),
        LookupOutcome::TimedOut => Err(Denial::new(504, "dns-timeout")),
        LookupOutcome::Failed => Err(Denial::new(502, "dns-failed")),
        LookupOutcome::Answered(answers) => {
            let addresses = select_family(config.dns_address_family, answers);
            if addresses.len() == 0 {
                return Err(Denial::new(502, "dns-empty"));
            }
            if addresses.len() > config.max_resolved_addresses {
                return Err(Denial::new(502, "dns-answer-too-large"));
            }
            check_addresses(policy, config, &addresses, port)
        },
    }
}

/// One denied address anywhere in an answer denies the whole answer.
pub proof fn law_one_denied_answer_denies_all(
    policy: Policy,
    config: ProxyConfig,
    port: u16,
    answers: Seq<IpAddress>,
    at: int,
)
    requires
        0 <= at < selected(config.dns_address_family, answers).len(),
        answer_denial(
            policy,
            config,
            selected(config.dns_address_family, answers)[at],
            port,
        ) is Some,
    ensures
        approved(policy, config, port, LookupView::Answered(answers)) is Err,
{
    let addresses = selected(config.dns_address_family, answers);
    assert(addresses.take(at + 1).last() == addresses[at]);
    lemma_first_denial_prefix(policy, config, addresses, at + 1, port);
}

proof fn lemma_no_denial(
    policy: Policy,
    config: ProxyConfig,
    addresses: Seq<IpAddress>,
    port: u16,
    at: int,
)
    requires
        first_denial(policy, config, addresses, port) is None,
        0 <= at < addresses.len(),
    ensures
        answer_denial(policy, config, addresses[at], port) is None,
    decreases addresses.len(),
{
    if at < addresses.len() - 1 {
        lemma_no_denial(policy, config, addresses.drop_last(), port, at);
    }
}

proof fn lemma_distinct_sockets(addresses: Seq<IpAddress>, port: u16)
    ensures
        distinct_sockets(addresses, port).no_duplicates(),
        forall|socket: SocketAddress|
            distinct_sockets(addresses, port).contains(socket) <==> exists|i: int|
                0 <= i < addresses.len() && #[trigger] dialed_socket(addresses[i], port) == socket,
    decreases addresses.len(),
{
    if addresses.len() > 0 {
        let before = addresses.drop_last();
        let known = distinct_sockets(before, port);
        let added = dialed_socket(addresses.last(), port);
        let all = distinct_sockets(addresses, port);
        lemma_distinct_sockets(before, port);
        assert forall|socket: SocketAddress| all.contains(socket) <==> exists|i: int|
            0 <= i < addresses.len() && #[trigger] dialed_socket(addresses[i], port) == socket by {
            if all.contains(socket) {
                if known.contains(socket) {
                    let i = choose|i: int|
                        0 <= i < before.len() && #[trigger] dialed_socket(before[i], port)
                            == socket;
                    assert(dialed_socket(addresses[i], port) == socket);
                } else {
                    assert(socket == added);
                    assert(dialed_socket(addresses[addresses.len() - 1], port) == socket);
                }
            }
            if exists|i: int|
                0 <= i < addresses.len() && #[trigger] dialed_socket(addresses[i], port) == socket {
                let i = choose|i: int|
                    0 <= i < addresses.len() && #[trigger] dialed_socket(addresses[i], port)
                        == socket;
                if i < before.len() {
                    assert(dialed_socket(before[i], port) == socket);
                    assert(known.contains(socket));
                    let k = choose|k: int| 0 <= k < known.len() && known[k] == socket;
                    assert(all[k] == socket);
                } else if !known.contains(added) {
                    assert(all[known.len() as int] == added);
                }
            }
        }
    }
}

/// What is dialed after a lookup was answered: sockets that are pairwise
/// distinct, each the canonical spelling of an answered address of a selected
/// family that neither the proxy nor the policy denies. Nothing else is dialed.
pub proof fn law_only_approved_addresses_are_dialed(
    policy: Policy,
    config: ProxyConfig,
    port: u16,
    answers: Seq<IpAddress>,
    at: int,
)
    requires
        approved(policy, config, port, LookupView::Answered(answers)) is Ok,
        0 <= at < approved(policy, config, port, LookupView::Answered(answers))->Ok_0.len(),
    ensures
        ({
            let sockets = approved(policy, config, port, LookupView::Answered(answers))->Ok_0;
            let addresses = selected(config.dns_address_family, answers);
            &&& sockets.no_duplicates()
            &&& exists|i: int|
                0 <= i < addresses.len() && #[trigger] dialed_socket(addresses[i], port)
                    == sockets[at] && policy.address_allowed(
                    addresses[i],
                    config.nat64_prefixes@,
                ) && proxy_denial(config, addresses[i], port) is None
        }),
{
    let addresses = selected(config.dns_address_family, answers);
    let sockets = distinct_sockets(addresses, port);
    lemma_distinct_sockets(addresses, port);
    assert(sockets.contains(sockets[at]));
    let i = choose|i: int|
        0 <= i < addresses.len() && #[trigger] dialed_socket(addresses[i], port) == sockets[at];
    lemma_no_denial(policy, config, addresses, port, i);
}

/// A denial by the operator overrides whatever the policy grants, for literals
/// and for resolved addresses alike.
pub proof fn law_proxy_denials_override_policies(
    policy: Policy,
    config: ProxyConfig,
    host: Seq<char>,
    address: IpAddress,
    port: u16,
)
    requires
        networks_deny(config.denied_networks@, address, config.nat64_prefixes@),
    ensures
        routed(policy, config, host, port, Some(address)) is Err,
        answer_denial(policy, config, address, port) is Some,
{
}

/// An address that the guest names itself is dialed only where an explicit
/// network grant holds it and no denial covers it, and then it alone.
pub proof fn law_literals_need_an_explicit_grant(
    policy: Policy,
    config: ProxyConfig,
    host: Seq<char>,
    address: IpAddress,
    port: u16,
)
    requires
        routed(policy, config, host, port, Some(address)) is Ok,
    ensures
        any_network_holds(policy.allowed_networks@, address),
        !networks_deny(policy.denied_networks@, address, config.nat64_prefixes@),
        !networks_deny(config.denied_networks@, address, config.nat64_prefixes@),
        routed(policy, config, host, port, Some(address)) == Ok::<RouteView, DenialView>(
            RouteView::Approved(seq![dialed_socket(address, port)]),
        ),
{
}

/// Host and port grants form a Cartesian product: whether a hostname is looked
/// up does not depend on the port.
pub proof fn law_hostnames_are_granted_for_every_port(
    policy: Policy,
    config: ProxyConfig,
    host: Seq<char>,
    port: u16,
    other: u16,
)
    ensures
        routed(policy, config, host, port, None) == routed(policy, config, host, other, None),
{
}

/// A lookup never outlives the handshake.
pub proof fn law_lookups_end_by_the_handshake_deadline(
    now: u128,
    dns_timeout: u128,
    handshake_deadline: u128,
    clock_limit: u128,
)
    ensures
        lookup_deadline(now, dns_timeout, handshake_deadline, clock_limit) <= handshake_deadline,
{
}

proof fn lemma_selected_is_idempotent(family: DnsAddressFamily, answers: Seq<IpAddress>)
    ensures
        selected(family, selected(family, answers)) == selected(family, answers),
    decreases answers.len(),
{
    if answers.len() > 0 {
        let before = selected(family, answers.drop_last());
        lemma_selected_is_idempotent(family, answers.drop_last());
        assert(before.push(answers.last()).drop_last() =~= before);
    }
}

/// Answers of a family that is not selected change nothing: neither do they
/// count against the ceiling, nor can they deny the rest.
pub proof fn law_other_families_are_ignored(
    policy: Policy,
    config: ProxyConfig,
    port: u16,
    answers: Seq<IpAddress>,
)
    ensures
        approved(policy, config, port, LookupView::Answered(answers)) == approved(
            policy,
            config,
            port,
            LookupView::Answered(selected(config.dns_address_family, answers)),
        ),
{
    lemma_selected_is_idempotent(config.dns_address_family, answers);
}

/// Whether the first spelling of one address comes before that of another.
pub open spec fn first_place(addresses: Seq<IpAddress>, port: u16, at: int) -> bool {
    forall|i: int|
        0 <= i < at ==> dialed_socket(#[trigger] addresses[i], port) != dialed_socket(
            addresses[at],
            port,
        )
}

proof fn lemma_sockets_in_order(addresses: Seq<IpAddress>, port: u16, i: int, j: int) -> (places: (
    int,
    int,
))
    requires
        0 <= i <= j < addresses.len(),
        first_place(addresses, port, i),
        first_place(addresses, port, j),
    ensures
        ({
            let sockets = distinct_sockets(addresses, port);
            &&& 0 <= places.0 <= places.1 < sockets.len()
            &&& i < j ==> places.0 < places.1
            &&& sockets[places.0] == dialed_socket(addresses[i], port)
            &&& sockets[places.1] == dialed_socket(addresses[j], port)
        }),
    decreases addresses.len(),
{
    let before = addresses.drop_last();
    let known = distinct_sockets(before, port);
    lemma_distinct_sockets(before, port);
    if j < before.len() {
        assert(first_place(before, port, i));
        assert(first_place(before, port, j));
        lemma_sockets_in_order(before, port, i, j)
    } else {
        let socket = dialed_socket(addresses[j], port);
        assert(!known.contains(socket)) by {
            if known.contains(socket) {
                let k = choose|k: int|
                    0 <= k < before.len() && #[trigger] dialed_socket(before[k], port) == socket;
                assert(addresses[k] == before[k]);
            }
        }
        let last = known.len() as int;
        if i < j {
            assert(first_place(before, port, i));
            let (place, _) = lemma_sockets_in_order(before, port, i, i);
            (place, last)
        } else {
            (last, last)
        }
    }
}

/// Every address of an approved answer can be dialed: the sockets hold each of
/// them, in the order of the answer, so that the next is there when one fails.
pub proof fn law_every_approved_address_is_dialed(
    policy: Policy,
    config: ProxyConfig,
    port: u16,
    answers: Seq<IpAddress>,
    i: int,
    j: int,
)
    requires
        approved(policy, config, port, LookupView::Answered(answers)) is Ok,
        0 <= i < j < selected(config.dns_address_family, answers).len(),
    ensures
        ({
            let sockets = approved(policy, config, port, LookupView::Answered(answers))->Ok_0;
            let addresses = selected(config.dns_address_family, answers);
            &&& sockets.contains(dialed_socket(addresses[i], port))
            &&& sockets.contains(dialed_socket(addresses[j], port))
            &&& first_place(addresses, port, i) && first_place(addresses, port, j) ==> exists|
                a: int,
                b: int,
            |
                0 <= a < b < sockets.len() && #[trigger] sockets[a] == dialed_socket(
                    addresses[i],
                    port,
                ) && #[trigger] sockets[b] == dialed_socket(addresses[j], port)
        }),
{
    let addresses = selected(config.dns_address_family, answers);
    let sockets = approved(policy, config, port, LookupView::Answered(answers))->Ok_0;
    lemma_distinct_sockets(addresses, port);
    assert(sockets == distinct_sockets(addresses, port));
    assert(dialed_socket(addresses[i], port) == dialed_socket(addresses[i], port));
    assert(dialed_socket(addresses[j], port) == dialed_socket(addresses[j], port));
    if first_place(addresses, port, i) && first_place(addresses, port, j) {
        let (a, b) = lemma_sockets_in_order(addresses, port, i, j);
        assert(sockets[a] == dialed_socket(addresses[i], port));
        assert(sockets[b] == dialed_socket(addresses[j], port));
    }
}

/// The same of an answer with one address or more: each of them can be dialed.
pub proof fn law_no_approved_address_is_dropped(
    policy: Policy,
    config: ProxyConfig,
    port: u16,
    answers: Seq<IpAddress>,
    i: int,
)
    requires
        approved(policy, config, port, LookupView::Answered(answers)) is Ok,
        0 <= i < selected(config.dns_address_family, answers).len(),
    ensures
        approved(policy, config, port, LookupView::Answered(answers))->Ok_0.contains(
            plain_socket(
                canonical_address(selected(config.dns_address_family, answers)[i]),
                port,
            ),
        ),
{
    let addresses = selected(config.dns_address_family, answers);
    lemma_distinct_sockets(addresses, port);
    let socket = dialed_socket(addresses[i], port);
    assert(distinct_sockets(addresses, port).contains(socket));
}

proof fn lemma_nothing_denied(
    policy: Policy,
    config: ProxyConfig,
    addresses: Seq<IpAddress>,
    port: u16,
)
    requires
        forall|i: int|
            0 <= i < addresses.len() ==> answer_denial(
                policy,
                config,
                #[trigger] addresses[i],
                port,
            ) is None,
    ensures
        first_denial(policy, config, addresses, port) is None,
    decreases addresses.len(),
{
    if addresses.len() > 0 {
        let before = addresses.drop_last();
        assert forall|i: int| 0 <= i < before.len() implies answer_denial(
            policy,
            config,
            #[trigger] before[i],
            port,
        ) is None by {
            assert(before[i] == addresses[i]);
        }
        lemma_nothing_denied(policy, config, before, port);
        assert(addresses.last() == addresses[addresses.len() - 1]);
    }
}

/// An answer is approved whenever it holds an address of a selected family, no
/// more of them than the ceiling, and none that the policy does not allow, whose
/// network the operator denies, or that is the proxy itself.
pub proof fn law_sound_answers_are_approved(
    policy: Policy,
    config: ProxyConfig,
    port: u16,
    answers: Seq<IpAddress>,
)
    requires
        0 < selected(config.dns_address_family, answers).len() <= config.max_resolved_addresses,
        forall|i: int|
            0 <= i < selected(config.dns_address_family, answers).len() ==> {
                let address = #[trigger] selected(config.dns_address_family, answers)[i];
                &&& policy.address_allowed(address, config.nat64_prefixes@)
                &&& !networks_deny(config.denied_networks@, address, config.nat64_prefixes@)
                &&& !reaches_endpoint(
                    plain_socket(canonical_address(address), port),
                    config.bind_address,
                )
            },
    ensures
        approved(policy, config, port, LookupView::Answered(answers)) is Ok,
{
    lemma_nothing_denied(
        policy,
        config,
        selected(config.dns_address_family, answers),
        port,
    );
}

/// An answer whose first denied address stands at this place is answered with
/// the denial of that address.
pub proof fn law_the_first_denied_address_decides(
    policy: Policy,
    config: ProxyConfig,
    port: u16,
    answers: Seq<IpAddress>,
    at: int,
)
    requires
        selected(config.dns_address_family, answers).len() <= config.max_resolved_addresses,
        0 <= at < selected(config.dns_address_family, answers).len(),
        answer_denial(
            policy,
            config,
            selected(config.dns_address_family, answers)[at],
            port,
        ) is Some,
        forall|i: int|
            0 <= i < at ==> answer_denial(
                policy,
                config,
                #[trigger] selected(config.dns_address_family, answers)[i],
                port,
            ) is None,
    ensures
        approved(policy, config, port, LookupView::Answered(answers)) == Err::<
            Seq<SocketAddress>,
            DenialView,
        >(
            answer_denial(
                policy,
                config,
                selected(config.dns_address_family, answers)[at],
                port,
            )->0,
        ),
{
    let addresses = selected(config.dns_address_family, answers);
    let before = addresses.take(at);
    assert forall|i: int| 0 <= i < before.len() implies answer_denial(
        policy,
        config,
        #[trigger] before[i],
        port,
    ) is None by {
        assert(before[i] == addresses[i]);
    }
    lemma_nothing_denied(policy, config, before, port);
    assert(addresses.take(at + 1).drop_last() =~= before);
    assert(addresses.take(at + 1).last() == addresses[at]);
    lemma_first_denial_prefix(policy, config, addresses, at + 1, port);
}

/// The selected addresses are the answered ones of that family, all of them and
/// in their order: with both families, the whole answer.
pub proof fn law_selection_keeps_the_family(answers: Seq<IpAddress>)
    ensures
        selected(DnsAddressFamily::Both, answers) == answers,
        selected(DnsAddressFamily::Ipv4Only, answers) == answers.filter(
            |address: IpAddress| address is V4,
        ),
        selected(DnsAddressFamily::Ipv6Only, answers) == answers.filter(
            |address: IpAddress| address is V6,
        ),
    decreases answers.len(),
{
    reveal(Seq::filter);
    if answers.len() > 0 {
        law_selection_keeps_the_family(answers.drop_last());
        assert(answers.drop_last().push(answers.last()) =~= answers);
    } else {
        assert(answers =~= Seq::<IpAddress>::empty());
    }
}

/// A hostname is looked up exactly if the policy allows its canonical form, as
/// that form with a final dot; and a host that is an address is never looked up.
pub proof fn law_allowed_hostnames_are_looked_up(
    policy: Policy,
    config: ProxyConfig,
    host: Seq<char>,
    port: u16,
    address: IpAddress,
)
    ensures
        match canonical_name(host) {
            Some(name) => if policy.hostname_allowed(name) {
                routed(policy, config, host, port, None) == Ok::<RouteView, DenialView>(
                    RouteView::Lookup(name + "."@),
                )
            } else {
                routed(policy, config, host, port, None) is Err
            },
            None => routed(policy, config, host, port, None) is Err,
        },
        !(routed(policy, config, host, port, Some(address)) matches Ok(RouteView::Lookup(_))),
        routed(policy, config, host, port, Some(address)) is Ok <==> policy.literal_allowed(
            address,
            config.nat64_prefixes@,
        ) && !networks_deny(config.denied_networks@, address, config.nat64_prefixes@)
            && !reaches_endpoint(
            plain_socket(canonical_address(address), port),
            config.bind_address,
        ),
{
}

/// A lookup may take its whole timeout, and no more than the handshake leaves.
pub proof fn law_lookups_get_their_timeout(
    now: u128,
    dns_timeout: u128,
    handshake_deadline: u128,
    clock_limit: u128,
)
    requires
        handshake_deadline <= clock_limit,
    ensures
        now + dns_timeout <= handshake_deadline ==> lookup_deadline(
            now,
            dns_timeout,
            handshake_deadline,
            clock_limit,
        ) == now + dns_timeout,
        now + dns_timeout >= handshake_deadline ==> lookup_deadline(
            now,
            dns_timeout,
            handshake_deadline,
            clock_limit,
        ) == handshake_deadline,
{
}

/// A lookup without an answer approves nothing, and neither does an answer
/// without an address of a selected family, or with more than the ceiling.
pub proof fn law_no_answer_is_no_approval(
    policy: Policy,
    config: ProxyConfig,
    port: u16,
    answers: Seq<IpAddress>,
)
    ensures
        approved(policy, config, port, LookupView::NoPermit) is Err,
        approved(policy, config, port, LookupView::TimedOut) is Err,
        approved(policy, config, port, LookupView::Failed) is Err,
        selected(config.dns_address_family, answers).len() == 0 ==> approved(
            policy,
            config,
            port,
            LookupView::Answered(answers),
        ) is Err,
        selected(config.dns_address_family, answers).len() > config.max_resolved_addresses
            ==> approved(policy, config, port, LookupView::Answered(answers)) is Err,
{
}

} // verus!
