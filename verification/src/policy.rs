//! Immutable egress rules of one lease.

use std::collections::BTreeSet;

use vstd::prelude::*;

use crate::address::{
    any_network_contains, any_network_holds, ip_literal, parse_ip, IpAddress, IpNetwork,
    Ipv6Network,
};
use crate::destination::{
    forbidden_destination, is_forbidden_destination, reached_ipv4, reaches_ipv4,
};
use crate::error::PolicyError;
use crate::hostname::{
    canonical_given, canonical_hostname_given, canonical_name, strip_final_dot, without_final_dot,
};
use crate::rate::RateLimit;
use crate::text::same_text;
use crate::time::{
    clock_answered, clock_refused, deadline_is_representable, law_only_the_clock_refuses_a_span,
    MAX_SPAN, NANOS_PER_SECOND,
};

verus! {

broadcast use vstd::std_specs::btree::group_btree_axioms;

/// How a visible `ClientHello` is related to CONNECT authority.
#[derive(Clone, Copy, Debug, PartialEq, Eq, Structural)]
pub enum TlsAuthority {
    /// Do not inspect tunnel bytes after CONNECT.
    Disabled,
    /// Require a valid `ClientHello` whose visible SNI equals CONNECT authority.
    RequireVisibleSni {
        /// How an encrypted `ClientHello` extension is handled.
        ech: EchPolicy,
    },
}

impl Default for TlsAuthority {
    fn default() -> (authority: Self)
        ensures
            authority == TlsAuthority::Disabled,
    {
        TlsAuthority::Disabled
    }
}

/// Handling for TLS Encrypted `ClientHello` (ECH).
#[derive(Clone, Copy, Debug, PartialEq, Eq, Structural)]
pub enum EchPolicy {
    /// Reject ECH because its inner authority is not visible to the proxy.
    Reject,
    /// Enforce only the visible outer SNI and allow an unknowable inner name.
    AllowOuterSni,
}

impl Default for EchPolicy {
    fn default() -> (policy: Self)
        ensures
            policy == EchPolicy::Reject,
    {
        EchPolicy::Reject
    }
}

/// A canonical hostname pattern accepted by a [`Policy`].
#[derive(Clone, Debug, PartialEq, Eq, Hash)]
pub enum HostPattern {
    /// Match one canonical hostname exactly.
    Exact(String),
    /// Match subdomains, but not the suffix apex itself.
    Subdomains(String),
}

/// What a pattern says: whether it is a wildcard, and its canonical name.
#[verifier::ext_equal]
pub struct PatternView {
    pub wildcard: bool,
    pub name: Seq<char>,
}

impl View for HostPattern {
    type V = PatternView;

    open spec fn view(&self) -> PatternView {
        match self {
            HostPattern::Exact(name) => PatternView { wildcard: false, name: name@ },
            HostPattern::Subdomains(name) => PatternView { wildcard: true, name: name@ },
        }
    }
}

/// Whether a pattern begins with a wildcard label.
pub open spec fn starred(text: Seq<char>) -> bool {
    text.len() >= 2 && text[0] == '*' && text[1] == '.'
}

/// The hostname of a pattern: what follows the wildcard label, if there is one.
pub open spec fn starless(text: Seq<char>) -> Seq<char> {
    if starred(text) {
        text.skip(2)
    } else {
        text
    }
}

/// The pattern that a text stands for: a hostname, or `*.` and a hostname,
/// given what that hostname is as an IP address.
pub open spec fn pattern_given(text: Seq<char>, literal: Option<IpAddress>) -> Option<PatternView> {
    match canonical_given(starless(text), literal) {
        Some(name) => Some(PatternView { wildcard: starred(text), name }),
        None => None,
    }
}

/// The pattern that a text stands for.
pub open spec fn pattern_of(text: Seq<char>) -> Option<PatternView> {
    pattern_given(text, ip_literal(without_final_dot(starless(text))))
}

fn is_starred(value: &str) -> (yes: bool)
    ensures
        yes == starred(value@),
{
    value.unicode_len() >= 2 && value.get_char(0) == '*' && value.get_char(1) == '.'
}

fn without_star(value: &str) -> (rest: &str)
    ensures
        rest@ == starless(value@),
{
    if is_starred(value) {
        let rest = value.substring_char(2, value.unicode_len());
        assert(rest@ =~= value@.skip(2));
        rest
    } else {
        value
    }
}

/// The error that quotes this text as no pattern.
pub open spec fn rejects_pattern(error: PolicyError, text: Seq<char>) -> bool {
    match error {
        PolicyError::InvalidHostPattern(quoted) => quoted@ == text,
        _ => false,
    }
}

impl PatternView {
    /// An exact pattern matches its own name; a wildcard matches what ends in a
    /// dot and its name.
    pub open spec fn covers(self, hostname: Seq<char>) -> bool {
        if self.wildcard {
            hostname.len() > self.name.len() && hostname.skip(
                hostname.len() - self.name.len() - 1,
            ) == seq!['.'] + self.name
        } else {
            hostname == self.name
        }
    }
}

impl HostPattern {
    /// Parse an ASCII hostname or a single left-most wildcard such as
    /// `*.example.com`.
    ///
    /// # Errors
    ///
    /// Returns [`PolicyError::InvalidHostPattern`] for Unicode, malformed DNS
    /// labels, IP literals, or wildcards in any other position.
    pub fn parse(value: &str) -> (pattern: Result<Self, PolicyError>)
        ensures
            match pattern {
                Ok(pattern) => pattern_of(value@) == Some(pattern@),
                Err(error) => pattern_of(value@) is None && rejects_pattern(error, value@),
            },
    {
        HostPattern::parse_given(value, parse_ip(strip_final_dot(without_star(value))))
    }

    /// Parse a pattern, given what its hostname is as an IP address.
    ///
    /// # Errors
    ///
    /// Returns [`PolicyError::InvalidHostPattern`] where it is no pattern.
    pub fn parse_given(value: &str, literal: Option<IpAddress>) -> (pattern: Result<
        Self,
        PolicyError,
    >)
        ensures
            match pattern {
                Ok(pattern) => pattern_given(value@, literal) == Some(pattern@),
                Err(error) => pattern_given(value@, literal) is None && rejects_pattern(
                    error,
                    value@,
                ),
            },
    {
        match canonical_hostname_given(without_star(value), literal) {
            Some(name) => Ok(
                if is_starred(value) {
                    HostPattern::Subdomains(name)
                } else {
                    HostPattern::Exact(name)
                },
            ),
            None => Err(PolicyError::InvalidHostPattern(value.to_owned())),
        }
    }

    pub fn matches(&self, hostname: &str) -> (yes: bool)
        ensures
            yes == self@.covers(hostname@),
    {
        match self {
            HostPattern::Exact(expected) => same_text(hostname, expected.as_str()),
            HostPattern::Subdomains(suffix) => {
                let hostname_len: usize = hostname.unicode_len();
                let suffix_len: usize = suffix.as_str().unicode_len();
                if hostname_len <= suffix_len {
                    return false;
                }
                let at: usize = hostname_len - suffix_len - 1;
                let dotted: bool = hostname.get_char(at) == '.';
                let tail = hostname.substring_char(at + 1, hostname_len);
                proof {
                    let end = hostname@.skip(at as int);
                    assert(end =~= seq![hostname@[at as int]] + tail@);
                    assert((seq!['.'] + suffix@)[0] == '.');
                    assert((seq!['.'] + suffix@).skip(1) =~= suffix@);
                    assert(end.skip(1) =~= tail@);
                }
                dotted && same_text(tail, suffix.as_str())
            },
        }
    }
}

/// A wildcard never matches the apex of its own name.
pub proof fn law_wildcard_excludes_the_apex(pattern: PatternView)
    requires
        pattern.wildcard,
    ensures
        !pattern.covers(pattern.name),
{
}

/// A wildcard matches a hostname exactly when the hostname is some prefix, a
/// dot and the wildcard's name.
pub proof fn law_wildcard_matches_subdomains(pattern: PatternView, hostname: Seq<char>)
    requires
        pattern.wildcard,
    ensures
        pattern.covers(hostname) <==> exists|prefix: Seq<char>|
            hostname == #[trigger] (prefix + seq!['.'] + pattern.name),
{
    if pattern.covers(hostname) {
        let at = hostname.len() - pattern.name.len() - 1;
        assert(hostname =~= hostname.take(at) + hostname.skip(at));
        assert(hostname =~= hostname.take(at) + seq!['.'] + pattern.name);
    }
    if exists|prefix: Seq<char>| hostname == #[trigger] (prefix + seq!['.'] + pattern.name) {
        assert(hostname.skip(hostname.len() - pattern.name.len() - 1) =~= seq!['.']
            + pattern.name);
    }
}

pub open spec fn any_pattern_covers(patterns: Seq<HostPattern>, hostname: Seq<char>) -> bool {
    exists|i: int| 0 <= i < patterns.len() && (#[trigger] patterns[i])@.covers(hostname)
}

fn any_pattern_matches(patterns: &Vec<HostPattern>, hostname: &str) -> (yes: bool)
    ensures
        yes == any_pattern_covers(patterns@, hostname@),
{
    let mut i: usize = 0;
    while i < patterns.len()
        invariant
            i <= patterns.len(),
            forall|j: int| 0 <= j < i ==> !(#[trigger] patterns@[j])@.covers(hostname@),
        decreases patterns.len() - i,
    {
        if patterns[i].matches(hostname) {
            return true;
        }
        i += 1;
    }
    false
}

/// Whether a denial covers the address under any spelling: the address itself,
/// or an IPv4 address that dialing it reaches.
pub open spec fn networks_deny(
    networks: Seq<IpNetwork>,
    address: IpAddress,
    prefixes: Seq<Ipv6Network>,
) -> bool {
    ||| any_network_holds(networks, address)
    ||| exists|inner: u32| #[trigger]
        reaches_ipv4(address, prefixes, inner) && any_network_holds(networks, IpAddress::V4(inner))
}

pub fn is_network_denied(
    networks: &Vec<IpNetwork>,
    address: IpAddress,
    prefixes: &Vec<Ipv6Network>,
) -> (denied: bool)
    ensures
        denied == networks_deny(networks@, address, prefixes@),
{
    if any_network_contains(networks, address) {
        return true;
    }
    let reached = reached_ipv4(address, prefixes);
    let mut i: usize = 0;
    while i < reached.len()
        invariant
            i <= reached.len(),
            forall|inner: u32| #[trigger]
                reached@.contains(inner) <==> reaches_ipv4(address, prefixes@, inner),
            forall|j: int|
                0 <= j < i ==> !any_network_holds(
                    networks@,
                    IpAddress::V4(#[trigger] reached@[j]),
                ),
        decreases reached.len() - i,
    {
        if any_network_contains(networks, IpAddress::V4(reached[i])) {
            proof {
                assert(reached@.contains(reached@[i as int]));
                assert(reaches_ipv4(address, prefixes@, reached@[i as int]));
            }
            return true;
        }
        i += 1;
    }
    proof {
        assert forall|inner: u32| #[trigger]
            reaches_ipv4(address, prefixes@, inner) implies !any_network_holds(
            networks@,
            IpAddress::V4(inner),
        ) by {
            assert(reached@.contains(inner));
            let j = choose|j: int| 0 <= j < reached@.len() && reached@[j] == inner;
            assert(reached@[j] == inner);
        }
    }
    false
}

/// Immutable egress rules for one lease.
#[derive(Clone, Debug)]
pub struct Policy {
    pub hosts: Vec<HostPattern>,
    pub denied_hosts: Vec<HostPattern>,
    pub ports: BTreeSet<u16>,
    pub allowed_networks: Vec<IpNetwork>,
    pub denied_networks: Vec<IpNetwork>,
    pub max_connections: usize,
    pub connection_attempt_rate: Option<RateLimit>,
    pub dns_timeout: u128,
    pub handshake_timeout: u128,
    pub idle_timeout: Option<u128>,
    pub max_upload_bytes: Option<u64>,
    pub max_download_bytes: Option<u64>,
    pub tls_authority: TlsAuthority,
}

impl Policy {
    /// Begin a deny-by-default policy.
    pub fn builder() -> (builder: PolicyBuilder)
        ensures
            builder.is_initial(),
    {
        PolicyBuilder::default()
    }

    /// A hostname is allowed by a grant that no denial overrides.
    pub open spec fn hostname_allowed(self, hostname: Seq<char>) -> bool {
        any_pattern_covers(self.hosts@, hostname) && !any_pattern_covers(
            self.denied_hosts@,
            hostname,
        )
    }

    /// A destination address is allowed by an explicit grant or because nothing
    /// forbids it, and only where no denial covers it.
    pub open spec fn address_allowed(self, address: IpAddress, prefixes: Seq<Ipv6Network>) -> bool {
        &&& !networks_deny(self.denied_networks@, address, prefixes)
        &&& any_network_holds(self.allowed_networks@, address) || !forbidden_destination(
            address,
            prefixes,
        )
    }

    /// An address that the guest names itself needs an explicit grant.
    pub open spec fn literal_allowed(self, address: IpAddress, prefixes: Seq<Ipv6Network>) -> bool {
        &&& !networks_deny(self.denied_networks@, address, prefixes)
        &&& any_network_holds(self.allowed_networks@, address)
    }

    pub fn allows_hostname(&self, hostname: &str) -> (yes: bool)
        ensures
            yes == self.hostname_allowed(hostname@),
    {
        any_pattern_matches(&self.hosts, hostname) && !any_pattern_matches(
            &self.denied_hosts,
            hostname,
        )
    }

    pub fn allows_port(&self, port: u16) -> (yes: bool)
        ensures
            yes == self.ports@.contains(port),
    {
        self.ports.contains(&port)
    }

    pub fn allows_ip(&self, address: IpAddress, prefixes: &Vec<Ipv6Network>) -> (yes: bool)
        ensures
            yes == self.address_allowed(address, prefixes@),
    {
        if is_network_denied(&self.denied_networks, address, prefixes) {
            return false;
        }
        any_network_contains(&self.allowed_networks, address) || !is_forbidden_destination(
            address,
            prefixes,
        )
    }

    pub fn allows_ip_literal(&self, address: IpAddress, prefixes: &Vec<Ipv6Network>) -> (yes: bool)
        ensures
            yes == self.literal_allowed(address, prefixes@),
    {
        !is_network_denied(&self.denied_networks, address, prefixes) && any_network_contains(
            &self.allowed_networks,
            address,
        )
    }
}

/// A denial overrides every grant: what a denied pattern covers is no allowed
/// hostname.
pub proof fn law_denied_host_overrides_grants(policy: Policy, hostname: Seq<char>)
    requires
        any_pattern_covers(policy.denied_hosts@, hostname),
    ensures
        !policy.hostname_allowed(hostname),
{
}

/// A denial overrides every grant: an address in a denied network, or one that
/// reaches an IPv4 address in a denied network, is no destination, named or
/// resolved.
pub proof fn law_denied_network_overrides_grants(
    policy: Policy,
    address: IpAddress,
    prefixes: Seq<Ipv6Network>,
)
    requires
        networks_deny(policy.denied_networks@, address, prefixes),
    ensures
        !policy.address_allowed(address, prefixes),
        !policy.literal_allowed(address, prefixes),
{
}

/// What a guest may name as a literal it may also reach by name.
pub proof fn law_literals_are_allowed_addresses(
    policy: Policy,
    address: IpAddress,
    prefixes: Seq<Ipv6Network>,
)
    requires
        policy.literal_allowed(address, prefixes),
    ensures
        policy.address_allowed(address, prefixes),
{
}

/// `tokio::sync::Semaphore::MAX_PERMITS`: an eighth of the largest `usize`,
/// rounded down.
#[verifier::external_body]
pub(crate) fn semaphore_max_permits() -> (permits: usize)
    ensures
        permits == usize::MAX / 8,
{
    tokio::sync::Semaphore::MAX_PERMITS
}

/// Builder for an immutable [`Policy`].
#[derive(Clone, Debug)]
#[must_use]
pub struct PolicyBuilder {
    pub hosts: Vec<HostPattern>,
    pub denied_hosts: Vec<HostPattern>,
    pub ports: BTreeSet<u16>,
    pub allowed_networks: Vec<IpNetwork>,
    pub denied_networks: Vec<IpNetwork>,
    pub max_connections: usize,
    pub connection_attempt_rate: Option<RateLimit>,
    pub dns_timeout: u128,
    pub handshake_timeout: u128,
    pub idle_timeout: Option<u128>,
    pub max_upload_bytes: Option<u64>,
    pub max_download_bytes: Option<u64>,
    pub tls_authority: TlsAuthority,
}

impl Default for PolicyBuilder {
    fn default() -> (builder: Self)
        ensures
            builder.is_initial(),
    {
        PolicyBuilder {
            hosts: Vec::new(),
            denied_hosts: Vec::new(),
            ports: BTreeSet::new(),
            allowed_networks: Vec::new(),
            denied_networks: Vec::new(),
            max_connections: 64,
            connection_attempt_rate: None,
            dns_timeout: 3 * NANOS_PER_SECOND,
            handshake_timeout: 10 * NANOS_PER_SECOND,
            idle_timeout: None,
            max_upload_bytes: None,
            max_download_bytes: None,
            tls_authority: TlsAuthority::Disabled,
        }
    }
}

impl PolicyBuilder {
    /// Hostnames, networks and ports start denied.
    pub open spec fn is_initial(self) -> bool {
        &&& self.hosts@ == Seq::<HostPattern>::empty()
        &&& self.denied_hosts@ == Seq::<HostPattern>::empty()
        &&& self.ports@ == Set::<u16>::empty()
        &&& self.allowed_networks@ == Seq::<IpNetwork>::empty()
        &&& self.denied_networks@ == Seq::<IpNetwork>::empty()
        &&& self.max_connections == 64
        &&& self.connection_attempt_rate is None
        &&& self.dns_timeout == 3_000_000_000
        &&& self.handshake_timeout == 10_000_000_000
        &&& self.idle_timeout is None
        &&& self.max_upload_bytes is None
        &&& self.max_download_bytes is None
        &&& self.tls_authority == TlsAuthority::Disabled
    }

    /// Add an exact hostname or `*.example.com` subdomain pattern.
    ///
    /// # Errors
    ///
    /// Returns an error when the pattern is not a canonical ASCII DNS pattern.
    pub fn allow_host(self, pattern: &str) -> (result: Result<Self, PolicyError>)
        ensures
            match result {
                Ok(builder) => {
                    &&& pattern_of(pattern@) is Some
                    &&& builder == PolicyBuilder { hosts: builder.hosts, ..self }
                    &&& builder.hosts@.len() == self.hosts@.len() + 1
                    &&& builder.hosts@.drop_last() == self.hosts@
                    &&& pattern_of(pattern@) == Some(builder.hosts@.last()@)
                },
                Err(error) => pattern_of(pattern@) is None && rejects_pattern(error, pattern@),
            },
    {
        match HostPattern::parse(pattern) {
            Ok(pattern) => {
                let mut builder = self;
                builder.hosts.push(pattern);
                Ok(builder)
            },
            Err(error) => Err(error),
        }
    }

    /// Deny a hostname or subdomain pattern, whatever is granted.
    ///
    /// # Errors
    ///
    /// Returns an error when the pattern is not a canonical ASCII DNS pattern.
    pub fn deny_host(self, pattern: &str) -> (result: Result<Self, PolicyError>)
        ensures
            match result {
                Ok(builder) => {
                    &&& pattern_of(pattern@) is Some
                    &&& builder == PolicyBuilder { denied_hosts: builder.denied_hosts, ..self }
                    &&& builder.denied_hosts@.len() == self.denied_hosts@.len() + 1
                    &&& builder.denied_hosts@.drop_last() == self.denied_hosts@
                    &&& pattern_of(pattern@) == Some(builder.denied_hosts@.last()@)
                },
                Err(error) => pattern_of(pattern@) is None && rejects_pattern(error, pattern@),
            },
    {
        match HostPattern::parse(pattern) {
            Ok(pattern) => {
                let mut builder = self;
                builder.denied_hosts.push(pattern);
                Ok(builder)
            },
            Err(error) => Err(error),
        }
    }

    /// Allow CONNECT to a destination port.
    pub fn allow_port(self, port: u16) -> (builder: Self)
        ensures
            builder == (PolicyBuilder { ports: builder.ports, ..self }),
            builder.ports@ == self.ports@.insert(port),
    {
        let mut builder = self;
        builder.ports.insert(port);
        builder
    }

    /// Explicitly allow a destination network, overriding the default
    /// forbidden-address floor for that network.
    pub fn allow_network(self, network: IpNetwork) -> (builder: Self)
        ensures
            builder == (PolicyBuilder { allowed_networks: builder.allowed_networks, ..self }),
            builder.allowed_networks@ == self.allowed_networks@.push(network),
    {
        let mut builder = self;
        builder.allowed_networks.push(network);
        builder
    }

    /// Deny a destination network under every spelling, whatever is granted.
    pub fn deny_network(self, network: IpNetwork) -> (builder: Self)
        ensures
            builder == (PolicyBuilder { denied_networks: builder.denied_networks, ..self }),
            builder.denied_networks@ == self.denied_networks@.push(network),
    {
        let mut builder = self;
        builder.denied_networks.push(network);
        builder
    }

    /// Set the concurrent connection ceiling for this lease.
    ///
    /// # Errors
    ///
    /// Returns an error when `max` is zero or too large for the runtime's
    /// admission semaphore.
    pub fn max_connections(self, max: usize) -> (result: Result<Self, PolicyError>)
        ensures
            match result {
                Ok(builder) => 0 < max <= usize::MAX / 8 && builder == (PolicyBuilder {
                    max_connections: max,
                    ..self
                }),
                Err(error) => (max == 0 && error == PolicyError::ZeroConnectionLimit) || (max
                    > usize::MAX / 8 && error == PolicyError::ConnectionLimitTooLarge),
            },
    {
        if max == 0 {
            return Err(PolicyError::ZeroConnectionLimit);
        }
        if max > semaphore_max_permits() {
            return Err(PolicyError::ConnectionLimitTooLarge);
        }
        Ok(PolicyBuilder { max_connections: max, ..self })
    }

    /// Set a token bucket for this lease's inbound TCP attempts.
    ///
    /// # Errors
    ///
    /// Returns an error when the rate or the burst is zero.
    pub fn connection_attempt_rate(self, rate_per_second: u32, burst: u32) -> (result: Result<
        Self,
        PolicyError,
    >)
        ensures
            match result {
                Ok(builder) => rate_per_second != 0 && burst != 0 && builder == (PolicyBuilder {
                    connection_attempt_rate: Some(RateLimit { rate_per_second, burst }),
                    ..self
                }),
                Err(error) => (rate_per_second == 0 || burst == 0) && error
                    == PolicyError::ZeroConnectionAttemptRate,
            },
    {
        let limit = RateLimit::new(rate_per_second, burst);
        if !limit.is_valid() {
            return Err(PolicyError::ZeroConnectionAttemptRate);
        }
        Ok(PolicyBuilder { connection_attempt_rate: Some(limit), ..self })
    }

    /// Set the DNS deadline.
    pub fn dns_timeout(self, timeout: u128) -> (builder: Self)
        ensures
            builder == (PolicyBuilder { dns_timeout: timeout, ..self }),
    {
        PolicyBuilder { dns_timeout: timeout, ..self }
    }

    /// Set the absolute header + DNS + dial + optional `ClientHello` deadline.
    pub fn handshake_timeout(self, timeout: u128) -> (builder: Self)
        ensures
            builder == (PolicyBuilder { handshake_timeout: timeout, ..self }),
    {
        PolicyBuilder { handshake_timeout: timeout, ..self }
    }

    /// Close a tunnel that has carried no byte for this long.
    pub fn idle_timeout(self, timeout: u128) -> (builder: Self)
        ensures
            builder == (PolicyBuilder { idle_timeout: Some(timeout), ..self }),
    {
        PolicyBuilder { idle_timeout: Some(timeout), ..self }
    }

    /// Set the maximum bytes uploaded over one tunnel.
    pub fn max_upload_bytes(self, bytes: u64) -> (builder: Self)
        ensures
            builder == (PolicyBuilder { max_upload_bytes: Some(bytes), ..self }),
    {
        PolicyBuilder { max_upload_bytes: Some(bytes), ..self }
    }

    /// Set the maximum bytes downloaded over one tunnel.
    pub fn max_download_bytes(self, bytes: u64) -> (builder: Self)
        ensures
            builder == (PolicyBuilder { max_download_bytes: Some(bytes), ..self }),
    {
        PolicyBuilder { max_download_bytes: Some(bytes), ..self }
    }

    /// Require the tunnel to begin with a valid `ClientHello` whose visible SNI
    /// equals its hostname CONNECT authority, and reject ECH.
    pub fn require_tls_sni(self) -> (builder: Self)
        ensures
            builder == (PolicyBuilder {
                tls_authority: TlsAuthority::RequireVisibleSni { ech: EchPolicy::Reject },
                ..self
            }),
    {
        PolicyBuilder {
            tls_authority: TlsAuthority::RequireVisibleSni { ech: EchPolicy::Reject },
            ..self
        }
    }

    /// Configure TLS authority inspection explicitly.
    pub fn tls_authority(self, authority: TlsAuthority) -> (builder: Self)
        ensures
            builder == (PolicyBuilder { tls_authority: authority, ..self }),
    {
        PolicyBuilder { tls_authority: authority, ..self }
    }

    /// Why the rules cannot be frozen, given whether the host clock can express
    /// the handshake deadline and the idle deadline.
    pub open spec fn refusal(self, handshake_fits: bool, idle_fits: bool) -> Option<PolicyError> {
        if self.ports@.contains(0) {
            Some(PolicyError::InvalidPort)
        } else if self.dns_timeout == 0 || self.handshake_timeout == 0 || self.idle_timeout == Some(
            0u128,
        ) {
            Some(PolicyError::ZeroTimeout)
        } else if self.dns_timeout > self.handshake_timeout {
            Some(PolicyError::DnsTimeoutExceedsHandshake)
        } else if !handshake_fits || (self.idle_timeout is Some && !idle_fits) {
            Some(PolicyError::TimeoutTooLarge)
        } else {
            None
        }
    }

    /// The policy with exactly these rules.
    pub open spec fn frozen(self) -> Policy {
        Policy {
            hosts: self.hosts,
            denied_hosts: self.denied_hosts,
            ports: self.ports,
            allowed_networks: self.allowed_networks,
            denied_networks: self.denied_networks,
            max_connections: self.max_connections,
            connection_attempt_rate: self.connection_attempt_rate,
            dns_timeout: self.dns_timeout,
            handshake_timeout: self.handshake_timeout,
            idle_timeout: self.idle_timeout,
            max_upload_bytes: self.max_upload_bytes,
            max_download_bytes: self.max_download_bytes,
            tls_authority: self.tls_authority,
        }
    }

    /// What freezing gives when the host clock gave these two answers.
    pub open spec fn build_result(
        self,
        handshake_fits: bool,
        idle_fits: bool,
        result: Result<Policy, PolicyError>,
    ) -> bool {
        match self.refusal(handshake_fits, idle_fits) {
            Some(error) => result == Err::<Policy, PolicyError>(error),
            None => result == Ok::<Policy, PolicyError>(self.frozen()),
        }
    }

    /// Validate and freeze the policy, given whether the host clock can express
    /// its deadlines.
    pub fn build_when(self, handshake_fits: bool, idle_fits: bool) -> (result: Result<
        Policy,
        PolicyError,
    >)
        ensures
            self.build_result(handshake_fits, idle_fits, result),
    {
        if self.ports.contains(&0) {
            return Err(PolicyError::InvalidPort);
        }
        let idle_is_zero: bool = match self.idle_timeout {
            Some(timeout) => timeout == 0,
            None => false,
        };
        if self.dns_timeout == 0 || self.handshake_timeout == 0 || idle_is_zero {
            return Err(PolicyError::ZeroTimeout);
        }
        if self.dns_timeout > self.handshake_timeout {
            return Err(PolicyError::DnsTimeoutExceedsHandshake);
        }
        if !handshake_fits || (self.idle_timeout.is_some() && !idle_fits) {
            return Err(PolicyError::TimeoutTooLarge);
        }
        Ok(
            Policy {
                hosts: self.hosts,
                denied_hosts: self.denied_hosts,
                ports: self.ports,
                allowed_networks: self.allowed_networks,
                denied_networks: self.denied_networks,
                max_connections: self.max_connections,
                connection_attempt_rate: self.connection_attempt_rate,
                dns_timeout: self.dns_timeout,
                handshake_timeout: self.handshake_timeout,
                idle_timeout: self.idle_timeout,
                max_upload_bytes: self.max_upload_bytes,
                max_download_bytes: self.max_download_bytes,
                tls_authority: self.tls_authority,
            },
        )
    }

    /// Validate and freeze the policy.
    ///
    /// # Errors
    ///
    /// Returns an error for destination port zero, zero deadlines, a DNS
    /// deadline longer than the complete handshake deadline, or a timeout too
    /// large for a runtime deadline.
    pub fn build(self) -> (result: Result<Policy, PolicyError>)
        ensures
            exists|handshake_fits: bool, idle_fits: bool| #[trigger]
                self.build_result(handshake_fits, idle_fits, result) && (self.handshake_timeout
                    > MAX_SPAN ==> !handshake_fits) && (self.handshake_timeout <= MAX_SPAN
                    ==> clock_answered(self.handshake_timeout, handshake_fits)) && (
                match self.idle_timeout {
                    Some(timeout) => (timeout > MAX_SPAN ==> !idle_fits) && (timeout <= MAX_SPAN
                        ==> clock_answered(timeout, idle_fits)),
                    None => true,
                }),
    {
        let handshake_fits: bool = deadline_is_representable(self.handshake_timeout);
        let idle_fits: bool = match self.idle_timeout {
            Some(timeout) => deadline_is_representable(timeout),
            None => true,
        };
        let ghost builder = self;
        let result = self.build_when(handshake_fits, idle_fits);
        assert(builder.build_result(handshake_fits, idle_fits, result));
        result
    }
}

/// Everything starts denied: a policy without rules allows no hostname, no port
/// and no address that a guest names.
pub proof fn law_everything_starts_denied(
    builder: PolicyBuilder,
    hostname: Seq<char>,
    port: u16,
    address: IpAddress,
    prefixes: Seq<Ipv6Network>,
)
    requires
        builder.is_initial(),
    ensures
        !builder.frozen().hostname_allowed(hostname),
        !builder.frozen().ports@.contains(port),
        !builder.frozen().literal_allowed(address, prefixes),
{
}

/// A pattern without a wildcard matches its own name and no other.
pub proof fn law_exact_patterns_match_one_name(pattern: PatternView, hostname: Seq<char>)
    requires
        !pattern.wildcard,
    ensures
        pattern.covers(hostname) <==> hostname == pattern.name,
{
}

/// A policy whose only grant is one exact name allows that name, unless it is
/// denied, and no other.
pub proof fn law_one_exact_grant_allows_one_name(
    policy: Policy,
    name: String,
    hostname: Seq<char>,
)
    requires
        policy.hosts@ == seq![HostPattern::Exact(name)],
    ensures
        policy.hostname_allowed(hostname) ==> hostname == name@,
        policy.denied_hosts@.len() == 0 ==> (policy.hostname_allowed(hostname) <==> hostname
            == name@),
{
    if hostname == name@ {
        assert(policy.hosts@[0]@.covers(hostname));
    }
}

/// Every grant counts, wherever it stands in the list, and so does every denial.
pub proof fn law_every_host_rule_counts(policy: Policy, hostname: Seq<char>, at: int)
    ensures
        0 <= at < policy.hosts@.len() && policy.hosts@[at]@.covers(hostname) && (forall|i: int|
            0 <= i < policy.denied_hosts@.len() ==> !(#[trigger] policy.denied_hosts@[i])@.covers(
                hostname,
            )) ==> policy.hostname_allowed(hostname),
        0 <= at < policy.denied_hosts@.len() && policy.denied_hosts@[at]@.covers(hostname)
            ==> !policy.hostname_allowed(hostname),
        (forall|i: int|
            0 <= i < policy.hosts@.len() ==> !(#[trigger] policy.hosts@[i])@.covers(hostname))
            ==> !policy.hostname_allowed(hostname),
{
}

/// A resolved address that no denial covers is allowed where a grant holds it,
/// and also where nothing forbids it; one that is forbidden needs a grant.
pub proof fn law_undenied_addresses_are_allowed(
    policy: Policy,
    address: IpAddress,
    prefixes: Seq<Ipv6Network>,
)
    requires
        !networks_deny(policy.denied_networks@, address, prefixes),
    ensures
        any_network_holds(policy.allowed_networks@, address) ==> policy.address_allowed(
            address,
            prefixes,
        ) && policy.literal_allowed(address, prefixes),
        !forbidden_destination(address, prefixes) ==> policy.address_allowed(address, prefixes),
        forbidden_destination(address, prefixes) && !any_network_holds(
            policy.allowed_networks@,
            address,
        ) ==> !policy.address_allowed(address, prefixes),
        !any_network_holds(policy.allowed_networks@, address) ==> !policy.literal_allowed(
            address,
            prefixes,
        ),
{
}

/// A denial covers every member of its network and every spelling that reaches
/// one, and nothing else.
pub proof fn law_denials_cover_every_spelling(
    networks: Seq<IpNetwork>,
    at: int,
    address: IpAddress,
    inner: u32,
    prefixes: Seq<Ipv6Network>,
)
    requires
        0 <= at < networks.len(),
    ensures
        networks[at].holds(address) ==> networks_deny(networks, address, prefixes),
        networks[at].holds(IpAddress::V4(inner)) && reaches_ipv4(address, prefixes, inner)
            ==> networks_deny(networks, address, prefixes),
        networks_deny(networks, address, prefixes) ==> exists|i: int|
            0 <= i < networks.len() && ((#[trigger] networks[i]).holds(address) || exists|v4: u32|
                #[trigger] reaches_ipv4(address, prefixes, v4) && networks[i].holds(
                    IpAddress::V4(v4),
                )),
        networks_deny(networks, IpAddress::V4(inner), prefixes) <==> any_network_holds(
            networks,
            IpAddress::V4(inner),
        ),
{
    if networks_deny(networks, address, prefixes) && !any_network_holds(networks, address) {
        let v4 = choose|v4: u32| #[trigger]
            reaches_ipv4(address, prefixes, v4) && any_network_holds(networks, IpAddress::V4(v4));
        let i = choose|i: int|
            0 <= i < networks.len() && (#[trigger] networks[i]).holds(IpAddress::V4(v4));
        assert(reaches_ipv4(address, prefixes, v4) && networks[i].holds(IpAddress::V4(v4)));
    }
    if any_network_holds(networks, IpAddress::V4(inner)) {
        assert(reaches_ipv4(IpAddress::V4(inner), prefixes, inner));
    }
}

/// A text without a star is read as one exact name, and `*.` before it makes a
/// wildcard of the same name.
pub proof fn law_a_star_makes_a_wildcard(text: Seq<char>)
    requires
        !(text.len() > 0 && text[0] == '*'),
    ensures
        pattern_of(text) == (match canonical_name(text) {
            Some(name) => Some(PatternView { wildcard: false, name }),
            None => None,
        }),
        pattern_of(seq!['*', '.'] + text) == (match canonical_name(text) {
            Some(name) => Some(PatternView { wildcard: true, name }),
            None => None,
        }),
{
    assert((seq!['*', '.'] + text).skip(2) =~= text);
}

/// Rules are frozen exactly if they name no port zero and no zero timeout, leave
/// the handshake at least the time of a lookup, and the clock can express their
/// deadlines; and then they are frozen as they are.
pub proof fn law_sound_rules_are_frozen(
    builder: PolicyBuilder,
    handshake_fits: bool,
    idle_fits: bool,
    result: Result<Policy, PolicyError>,
)
    requires
        builder.build_result(handshake_fits, idle_fits, result),
    ensures
        result is Ok <==> !builder.ports@.contains(0) && 0 < builder.dns_timeout
            <= builder.handshake_timeout && handshake_fits && (builder.idle_timeout matches Some(
            timeout,
        ) ==> timeout > 0 && idle_fits),
        result matches Ok(policy) ==> {
            &&& policy.hosts == builder.hosts
            &&& policy.denied_hosts == builder.denied_hosts
            &&& policy.ports == builder.ports
            &&& policy.allowed_networks == builder.allowed_networks
            &&& policy.denied_networks == builder.denied_networks
            &&& policy.max_connections == builder.max_connections
            &&& policy.connection_attempt_rate == builder.connection_attempt_rate
            &&& policy.dns_timeout == builder.dns_timeout
            &&& policy.handshake_timeout == builder.handshake_timeout
            &&& policy.idle_timeout == builder.idle_timeout
            &&& policy.max_upload_bytes == builder.max_upload_bytes
            &&& policy.max_download_bytes == builder.max_download_bytes
            &&& policy.tls_authority == builder.tls_authority
        },
        result == Err::<Policy, PolicyError>(PolicyError::TimeoutTooLarge) ==> !handshake_fits || (
        builder.idle_timeout is Some && !idle_fits),
{
}

/// Rules are refused as too long in time only where the host clock itself had no
/// moment for one of their timeouts, or the timeout is beyond the longest span;
/// sound rules with timeouts that the clock did not refuse are frozen.
pub proof fn law_only_the_clock_refuses_sound_rules(
    builder: PolicyBuilder,
    handshake_fits: bool,
    idle_fits: bool,
    result: Result<Policy, PolicyError>,
)
    requires
        builder.build_result(handshake_fits, idle_fits, result),
        builder.handshake_timeout <= MAX_SPAN,
        clock_answered(builder.handshake_timeout, handshake_fits),
        builder.idle_timeout matches Some(timeout) ==> timeout <= MAX_SPAN && clock_answered(
            timeout,
            idle_fits,
        ),
        !builder.ports@.contains(0),
        0 < builder.dns_timeout <= builder.handshake_timeout,
        builder.idle_timeout != Some(0u128),
    ensures
        result is Err ==> result == Err::<Policy, PolicyError>(PolicyError::TimeoutTooLarge) && (
        clock_refused(builder.handshake_timeout) || (builder.idle_timeout matches Some(timeout)
            && clock_refused(timeout))),
        !clock_refused(builder.handshake_timeout) && (builder.idle_timeout matches Some(timeout)
            ==> !clock_refused(timeout)) ==> result == Ok::<Policy, PolicyError>(builder.frozen()),
{
    law_only_the_clock_refuses_a_span(builder.handshake_timeout, handshake_fits);
    if let Some(timeout) = builder.idle_timeout {
        law_only_the_clock_refuses_a_span(timeout, idle_fits);
    }
}

/// Rules that nobody set: 64 connections, three seconds for a lookup and ten for
/// a handshake, and no other limit or inspection.
pub proof fn law_initial_limits(builder: PolicyBuilder)
    requires
        builder.is_initial(),
    ensures
        builder.max_connections == 64,
        builder.dns_timeout == 3 * 1_000_000_000,
        builder.handshake_timeout == 10 * 1_000_000_000,
        builder.connection_attempt_rate is None,
        builder.idle_timeout is None,
        builder.max_upload_bytes is None,
        builder.max_download_bytes is None,
        builder.tls_authority == TlsAuthority::Disabled,
        builder.refusal(true, true) is None,
{
}

} // verus!
