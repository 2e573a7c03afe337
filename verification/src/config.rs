//! Process-wide proxy configuration.

use vstd::prelude::*;

use crate::address::{
    canonical_address, mapped_ipv4, plain_socket, to_mapped_ipv4, IpAddress, IpNetwork, Ipv6Network,
    SocketAddress,
};
use crate::destination::{is_nat64_length, nat64_layout};
use crate::identity::{
    is_multicast_v6, is_scoped_unicast, is_unicast_v4, multicast_v6, scoped_unicast, unicast_v4,
};
use crate::policy::semaphore_max_permits;
use crate::rate::RateLimit;
use crate::time::{
    clock_answered, deadline_is_representable, MAX_SPAN, NANOS_PER_MILLI, NANOS_PER_SECOND,
};

verus! {

pub const MAX_DNS_CACHE_ENTRIES: u64 = 64;

/// Twenty-four hours.
pub const MAX_DNS_CACHE_TTL: u128 = 86_400_000_000_000;

pub const MAX_DNS_SERVERS: usize = 8;

pub const MAX_RESOLVED_ADDRESSES: usize = 1_024;

pub const MIN_BUFFER_BYTES: usize = 1_024;

pub const MAX_BUFFER_BYTES: usize = 1_048_576;

pub const MAX_DIAGNOSTIC_RATE: u32 = 10_000;

/// Which address families a hostname is resolved to.
#[derive(Clone, Copy, Debug, PartialEq, Eq, Structural)]
pub enum DnsAddressFamily {
    Both,
    Ipv4Only,
    Ipv6Only,
}

impl Default for DnsAddressFamily {
    fn default() -> (family: Self)
        ensures
            family == DnsAddressFamily::Both,
    {
        DnsAddressFamily::Both
    }
}

/// Process-wide proxy configuration. Spans are in nanoseconds.
#[derive(Clone, Debug)]
#[must_use]
pub struct ProxyConfig {
    pub bind_address: SocketAddress,
    pub max_connections: usize,
    pub connection_attempt_rate: Option<RateLimit>,
    pub max_concurrent_dns: usize,
    pub max_concurrent_dials: usize,
    pub dns_cache_entries: u64,
    pub dns_cache_max_ttl: u128,
    pub dns_servers: Vec<SocketAddress>,
    pub dns_address_family: DnsAddressFamily,
    pub max_resolved_addresses: usize,
    pub max_header_bytes: usize,
    pub max_client_hello_bytes: usize,
    pub nat64_prefixes: Vec<Ipv6Network>,
    pub denied_networks: Vec<IpNetwork>,
    pub header_timeout: u128,
    pub identity_reuse_quiet_period: u128,
    /// The most denial events per second, where events are wanted at all.
    pub diagnostics: Option<u32>,
    pub upstream_proxy: Option<SocketAddress>,
}

/// An IPv4 wildcard or unicast address.
pub open spec fn bindable_v4(address: u32) -> bool {
    address == 0 || unicast_v4(address)
}

/// A unicast or wildcard listener address, with any zone that it needs.
pub open spec fn bindable_listener(address: SocketAddress) -> bool {
    match address.ip {
        IpAddress::V4(bits) => bindable_v4(bits),
        IpAddress::V6(bits) => match mapped_ipv4(bits) {
            Some(inner) => bindable_v4(inner),
            None => !multicast_v6(bits) && (!scoped_unicast(bits) || address.scope_id != 0),
        },
    }
}

/// An address of one host.
pub open spec fn concrete_unicast(address: SocketAddress) -> bool {
    match address.ip {
        IpAddress::V4(bits) => unicast_v4(bits),
        IpAddress::V6(bits) => match mapped_ipv4(bits) {
            Some(inner) => unicast_v4(inner),
            None => bits != 0 && !multicast_v6(bits),
        },
    }
}

/// An IPv6 address that means nothing without a zone.
pub open spec fn needs_zone(address: SocketAddress) -> bool {
    match address.ip {
        IpAddress::V4(_) => false,
        IpAddress::V6(bits) => scoped_unicast(bits),
    }
}

/// An IPv6 socket that carries a zone, or needs one.
pub open spec fn zoned(address: SocketAddress) -> bool {
    match address.ip {
        IpAddress::V4(_) => false,
        IpAddress::V6(bits) => address.scope_id != 0 || scoped_unicast(bits),
    }
}

fn is_bindable_v4(address: u32) -> (yes: bool)
    ensures
        yes == bindable_v4(address),
{
    address == 0 || is_unicast_v4(address)
}

pub fn is_bindable_listener(address: SocketAddress) -> (yes: bool)
    ensures
        yes == bindable_listener(address),
{
    match address.ip {
        IpAddress::V4(bits) => is_bindable_v4(bits),
        IpAddress::V6(bits) => match to_mapped_ipv4(bits) {
            Some(inner) => is_bindable_v4(inner),
            None => !is_multicast_v6(bits) && (!is_scoped_unicast(bits) || address.scope_id != 0),
        },
    }
}

pub fn is_concrete_unicast(address: SocketAddress) -> (yes: bool)
    ensures
        yes == concrete_unicast(address),
{
    match address.ip {
        IpAddress::V4(bits) => is_unicast_v4(bits),
        IpAddress::V6(bits) => match to_mapped_ipv4(bits) {
            Some(inner) => is_unicast_v4(inner),
            None => bits != 0 && !is_multicast_v6(bits),
        },
    }
}

fn is_zoned(address: SocketAddress) -> (yes: bool)
    ensures
        yes == zoned(address),
{
    match address.ip {
        IpAddress::V4(_) => false,
        IpAddress::V6(bits) => address.scope_id != 0 || is_scoped_unicast(bits),
    }
}

/// The value moved to the nearest end of the range where it is outside.
pub open spec fn clamped(value: int, low: int, high: int) -> int {
    if value < low {
        low
    } else if value > high {
        high
    } else {
        value
    }
}

fn clamp_usize(value: usize, low: usize, high: usize) -> (result: usize)
    requires
        low <= high,
    ensures
        result == clamped(value as int, low as int, high as int),
{
    if value < low {
        low
    } else if value > high {
        high
    } else {
        value
    }
}

impl Default for ProxyConfig {
    fn default() -> (config: Self)
        ensures
            config.is_initial(),
    {
        ProxyConfig {
            bind_address: SocketAddress::new(IpAddress::V4(0x7f00_0001), 0),
            max_connections: 256,
            connection_attempt_rate: None,
            max_concurrent_dns: 32,
            max_concurrent_dials: 256,
            dns_cache_entries: 0,
            dns_cache_max_ttl: 0,
            dns_servers: Vec::new(),
            dns_address_family: DnsAddressFamily::Both,
            max_resolved_addresses: 64,
            max_header_bytes: 32 * 1_024,
            max_client_hello_bytes: 64 * 1_024,
            nat64_prefixes: Vec::new(),
            denied_networks: Vec::new(),
            header_timeout: 10 * NANOS_PER_SECOND,
            identity_reuse_quiet_period: 25 * NANOS_PER_MILLI,
            diagnostics: None,
            upstream_proxy: None,
        }
    }
}

impl ProxyConfig {
    /// The loopback listener with the default ceilings.
    pub open spec fn is_initial(self) -> bool {
        &&& self.bind_address == plain_socket(IpAddress::V4(0x7f00_0001), 0)
        &&& self.max_connections == 256
        &&& self.connection_attempt_rate is None
        &&& self.max_concurrent_dns == 32
        &&& self.max_concurrent_dials == 256
        &&& self.dns_cache_entries == 0
        &&& self.dns_cache_max_ttl == 0
        &&& self.dns_servers@ == Seq::<SocketAddress>::empty()
        &&& self.dns_address_family == DnsAddressFamily::Both
        &&& self.max_resolved_addresses == 64
        &&& self.max_header_bytes == 32 * 1_024
        &&& self.max_client_hello_bytes == 64 * 1_024
        &&& self.nat64_prefixes@ == Seq::<Ipv6Network>::empty()
        &&& self.denied_networks@ == Seq::<IpNetwork>::empty()
        &&& self.header_timeout == 10_000_000_000
        &&& self.identity_reuse_quiet_period == 25_000_000
        &&& self.diagnostics is None
        &&& self.upstream_proxy is None
    }

    /// The reason for which startup refuses this configuration, given whether
    /// the host clock can express the header deadline and the quiet period.
    pub open spec fn refusal(self, header_fits: bool, quiet_fits: bool) -> Option<Seq<char>> {
        let servers = self.dns_servers@;
        if !bindable_listener(self.bind_address) {
            Some("listener must be a unicast or wildcard address with any required zone"@)
        } else if self.header_timeout == 0 {
            Some("header timeout must be nonzero"@)
        } else if self.connection_attempt_rate is Some
            && !self.connection_attempt_rate->0.valid() {
            Some("connection attempt rate and burst must be nonzero"@)
        } else if !header_fits {
            Some("header timeout is too large"@)
        } else if !quiet_fits {
            Some("identity reuse quiet period is too large"@)
        } else if exists|i: int|
            0 <= i < self.nat64_prefixes@.len() && nat64_layout(
                (#[trigger] self.nat64_prefixes@[i]).prefix_len,
            ) is None {
            Some("NAT64 prefix length must be 32, 40, 48, 56, 64, or 96"@)
        } else if servers.len() > MAX_DNS_SERVERS {
            Some("too many explicit DNS servers"@)
        } else if exists|i: int| 0 <= i < servers.len() && (#[trigger] servers[i]).port == 0 {
            Some("explicit DNS server port must be nonzero"@)
        } else if exists|i: int|
            0 <= i < servers.len() && !concrete_unicast(#[trigger] servers[i]) {
            Some("explicit DNS server must be a concrete unicast address"@)
        } else if self.upstream_proxy is Some && self.upstream_proxy->0.port == 0 {
            Some("upstream proxy port must be nonzero"@)
        } else if self.upstream_proxy is Some && !concrete_unicast(self.upstream_proxy->0) {
            Some("upstream proxy must be a concrete unicast address"@)
        } else if exists|i: int| 0 <= i < servers.len() && zoned(#[trigger] servers[i]) {
            Some("scoped IPv6 DNS servers are not supported"@)
        } else if self.upstream_proxy is Some && needs_zone(self.upstream_proxy->0)
            && self.upstream_proxy->0.scope_id == 0 {
            Some("scoped IPv6 upstream proxy requires a zone ID"@)
        } else {
            None
        }
    }

    /// What validation gives when the host clock gave these two answers.
    pub open spec fn validation(
        self,
        header_fits: bool,
        quiet_fits: bool,
        result: Result<(), &'static str>,
    ) -> bool {
        match result {
            Ok(()) => self.refusal(header_fits, quiet_fits) is None,
            Err(reason) => self.refusal(header_fits, quiet_fits) == Some(reason@),
        }
    }

    fn has_odd_nat64_prefix(&self) -> (found: bool)
        ensures
            found == exists|i: int|
                0 <= i < self.nat64_prefixes@.len() && nat64_layout(
                    (#[trigger] self.nat64_prefixes@[i]).prefix_len,
                ) is None,
    {
        let mut i: usize = 0;
        while i < self.nat64_prefixes.len()
            invariant
                i <= self.nat64_prefixes.len(),
                forall|j: int|
                    0 <= j < i ==> nat64_layout(
                        (#[trigger] self.nat64_prefixes@[j]).prefix_len,
                    ) is Some,
            decreases self.nat64_prefixes.len() - i,
        {
            if !is_nat64_length(self.nat64_prefixes[i].prefix_len) {
                return true;
            }
            i += 1;
        }
        false
    }

    fn has_portless_server(&self) -> (found: bool)
        ensures
            found == exists|i: int|
                0 <= i < self.dns_servers@.len() && (#[trigger] self.dns_servers@[i]).port == 0,
    {
        let mut i: usize = 0;
        while i < self.dns_servers.len()
            invariant
                i <= self.dns_servers.len(),
                forall|j: int| 0 <= j < i ==> (#[trigger] self.dns_servers@[j]).port != 0,
            decreases self.dns_servers.len() - i,
        {
            if self.dns_servers[i].port == 0 {
                return true;
            }
            i += 1;
        }
        false
    }

    fn has_indefinite_server(&self) -> (found: bool)
        ensures
            found == exists|i: int|
                0 <= i < self.dns_servers@.len() && !concrete_unicast(
                    #[trigger] self.dns_servers@[i],
                ),
    {
        let mut i: usize = 0;
        while i < self.dns_servers.len()
            invariant
                i <= self.dns_servers.len(),
                forall|j: int| 0 <= j < i ==> concrete_unicast(#[trigger] self.dns_servers@[j]),
            decreases self.dns_servers.len() - i,
        {
            if !is_concrete_unicast(self.dns_servers[i]) {
                return true;
            }
            i += 1;
        }
        false
    }

    fn has_zoned_server(&self) -> (found: bool)
        ensures
            found == exists|i: int|
                0 <= i < self.dns_servers@.len() && zoned(#[trigger] self.dns_servers@[i]),
    {
        let mut i: usize = 0;
        while i < self.dns_servers.len()
            invariant
                i <= self.dns_servers.len(),
                forall|j: int| 0 <= j < i ==> !zoned(#[trigger] self.dns_servers@[j]),
            decreases self.dns_servers.len() - i,
        {
            if is_zoned(self.dns_servers[i]) {
                return true;
            }
            i += 1;
        }
        false
    }

    /// Check the configuration, given whether the host clock can express its
    /// deadlines.
    ///
    /// # Errors
    ///
    /// Returns the first reason for which startup refuses the configuration.
    pub fn validate_when(&self, header_fits: bool, quiet_fits: bool) -> (result: Result<
        (),
        &'static str,
    >)
        ensures
            self.validation(header_fits, quiet_fits, result),
    {
        if !is_bindable_listener(self.bind_address) {
            return Err("listener must be a unicast or wildcard address with any required zone");
        }
        if self.header_timeout == 0 {
            return Err("header timeout must be nonzero");
        }
        if let Some(limit) = self.connection_attempt_rate {
            if !limit.is_valid() {
                return Err("connection attempt rate and burst must be nonzero");
            }
        }
        if !header_fits {
            return Err("header timeout is too large");
        }
        if !quiet_fits {
            return Err("identity reuse quiet period is too large");
        }
        if self.has_odd_nat64_prefix() {
            return Err("NAT64 prefix length must be 32, 40, 48, 56, 64, or 96");
        }
        if self.dns_servers.len() > MAX_DNS_SERVERS {
            return Err("too many explicit DNS servers");
        }
        if self.has_portless_server() {
            return Err("explicit DNS server port must be nonzero");
        }
        if self.has_indefinite_server() {
            return Err("explicit DNS server must be a concrete unicast address");
        }
        if let Some(proxy) = self.upstream_proxy {
            if proxy.port == 0 {
                return Err("upstream proxy port must be nonzero");
            }
            if !is_concrete_unicast(proxy) {
                return Err("upstream proxy must be a concrete unicast address");
            }
        }
        if self.has_zoned_server() {
            return Err("scoped IPv6 DNS servers are not supported");
        }
        if let Some(proxy) = self.upstream_proxy {
            let unzoned: bool = match proxy.ip {
                IpAddress::V4(_) => false,
                IpAddress::V6(bits) => is_scoped_unicast(bits) && proxy.scope_id == 0,
            };
            if unzoned {
                return Err("scoped IPv6 upstream proxy requires a zone ID");
            }
        }
        Ok(())
    }

    /// Check the configuration against the host clock.
    ///
    /// # Errors
    ///
    /// Returns the first reason for which startup refuses the configuration.
    pub fn validate(&self) -> (result: Result<(), &'static str>)
        ensures
            exists|header_fits: bool, quiet_fits: bool| #[trigger]
                self.validation(header_fits, quiet_fits, result) && (self.header_timeout > MAX_SPAN
                    ==> !header_fits) && (self.identity_reuse_quiet_period > MAX_SPAN
                    ==> !quiet_fits) && (self.identity_reuse_quiet_period == 0 ==> quiet_fits)
                    && (self.header_timeout <= MAX_SPAN ==> clock_answered(
                    self.header_timeout,
                    header_fits,
                )) && (self.identity_reuse_quiet_period <= MAX_SPAN ==> clock_answered(
                    self.identity_reuse_quiet_period,
                    quiet_fits,
                )),
    {
        let header_fits: bool = deadline_is_representable(self.header_timeout);
        let quiet_fits: bool = deadline_is_representable(self.identity_reuse_quiet_period);
        let result = self.validate_when(header_fits, quiet_fits);
        assert(self.validation(header_fits, quiet_fits, result));
        result
    }

    /// Set the listener address. Port zero asks the operating system to choose.
    /// A wildcard bind rejects every destination using its assigned listener
    /// port because the proxy cannot distinguish remote addresses from its
    /// other local interfaces. Bind a concrete guest-facing address when runs
    /// must reach unrelated destinations on that port. Startup rejects
    /// multicast, limited broadcast, and scoped IPv6 without a zone. A
    /// wildcard remains visible in [`Endpoint`](crate::identity::Endpoint); the
    /// host must advertise an address reachable from each guest with the
    /// assigned port.
    pub fn with_bind_address(self, address: SocketAddress) -> (config: Self)
        ensures
            config == (ProxyConfig { bind_address: address, ..self }),
    {
        ProxyConfig { bind_address: address, ..self }
    }

    /// Route approved destinations through an operator-controlled HTTP CONNECT
    /// proxy at a numeric socket address.
    ///
    /// Destination names are still resolved and checked locally. The upstream
    /// proxy receives the approved numeric address, so it cannot perform a
    /// second destination lookup. Authentication and TLS to the upstream proxy
    /// are not provided by this configuration. Startup requires a concrete
    /// unicast address; scoped IPv6 additionally requires a zone identifier.
    pub fn with_upstream_proxy(self, address: SocketAddress) -> (config: Self)
        ensures
            config == (ProxyConfig { upstream_proxy: Some(address), ..self }),
    {
        ProxyConfig { upstream_proxy: Some(address), ..self }
    }

    /// Set the process-wide concurrent connection ceiling, clamped to the
    /// runtime semaphore's safe range.
    pub fn with_max_connections(self, max: usize) -> (config: Self)
        ensures
            config == (ProxyConfig {
                max_connections: clamped(max as int, 1, usize::MAX as int / 8) as usize,
                ..self
            }),
    {
        let max: usize = clamp_usize(max, 1, semaphore_max_permits());
        ProxyConfig { max_connections: max, ..self }
    }

    /// Set a process-wide token bucket for attributed inbound TCP attempts.
    ///
    /// The bucket starts full, refills at `rate_per_second`, and holds at most
    /// `burst` attempts. The check happens after source-IP attribution but
    /// before header parsing, task creation, or concurrent admission. This
    /// bounds rapid terminal connection churn in addition to the concurrent
    /// connection ceiling. Zero disables neither value: startup rejects it.
    pub fn with_connection_attempt_rate(self, rate_per_second: u32, burst: u32) -> (config: Self)
        ensures
            config == (ProxyConfig {
                connection_attempt_rate: Some(RateLimit { rate_per_second, burst }),
                ..self
            }),
    {
        ProxyConfig {
            connection_attempt_rate: Some(RateLimit::new(rate_per_second, burst)),
            ..self
        }
    }

    /// Set the process-wide ceiling for DNS lookups executing concurrently,
    /// clamped to the runtime semaphore's safe range.
    /// Connections waiting for a permit remain subject to their DNS and
    /// absolute handshake deadlines.
    pub fn with_max_concurrent_dns(self, max: usize) -> (config: Self)
        ensures
            config == (ProxyConfig {
                max_concurrent_dns: clamped(max as int, 1, usize::MAX as int / 8) as usize,
                ..self
            }),
    {
        let max: usize = clamp_usize(max, 1, semaphore_max_permits());
        ProxyConfig { max_concurrent_dns: max, ..self }
    }

    /// Set the process-wide ceiling for outbound connection attempts executing
    /// concurrently, clamped to the runtime semaphore's safe range.
    /// Waiting for a permit remains subject to the absolute handshake deadline;
    /// a permit is released as soon as dialing finishes, before tunnelling.
    pub fn with_max_concurrent_dials(self, max: usize) -> (config: Self)
        ensures
            config == (ProxyConfig {
                max_concurrent_dials: clamped(max as int, 1, usize::MAX as int / 8) as usize,
                ..self
            }),
    {
        let max: usize = clamp_usize(max, 1, semaphore_max_permits());
        ProxyConfig { max_concurrent_dials: max, ..self }
    }

    /// Opt into a process-wide resolver cache bounded by response count and TTL.
    ///
    /// Caching is disabled by default because a DNS response can contain many
    /// records and the resolver bounds its cache by response count, not bytes.
    /// The values cannot exceed 64 responses and 24 hours. The TTL ceiling
    /// applies to both successful and negative answers. Set `entries` to zero
    /// to disable the cache.
    pub fn with_dns_cache(self, entries: u64, max_ttl: u128) -> (config: Self)
        ensures
            config == (ProxyConfig {
                dns_cache_entries: clamped(entries as int, 0, MAX_DNS_CACHE_ENTRIES as int) as u64,
                dns_cache_max_ttl: clamped(max_ttl as int, 0, MAX_DNS_CACHE_TTL as int) as u128,
                ..self
            }),
    {
        let entries: u64 = if entries <= MAX_DNS_CACHE_ENTRIES {
            entries
        } else {
            MAX_DNS_CACHE_ENTRIES
        };
        let ttl: u128 = if max_ttl <= MAX_DNS_CACHE_TTL {
            max_ttl
        } else {
            MAX_DNS_CACHE_TTL
        };
        ProxyConfig { dns_cache_entries: entries, dns_cache_max_ttl: ttl, ..self }
    }

    /// Add an explicit recursive DNS server for this proxy process.
    ///
    /// When at least one server is supplied, the resolver does not read the
    /// host's resolver configuration or hosts file. Each server is contacted
    /// over UDP with TCP available for responses that require fallback. The
    /// address and port are host-controlled process configuration, never a
    /// guest or lease policy selector.
    ///
    /// Duplicate socket addresses are ignored. Startup rejects more than eight
    /// distinct servers, non-concrete addresses, and scoped IPv6 addresses.
    pub fn with_dns_server(self, server: SocketAddress) -> (config: Self)
        ensures
            config == (ProxyConfig { dns_servers: config.dns_servers, ..self }),
            config.dns_servers@ == (if self.dns_servers@.contains(server) {
                self.dns_servers@
            } else {
                self.dns_servers@.push(server)
            }),
    {
        let mut i: usize = 0;
        while i < self.dns_servers.len()
            invariant
                i <= self.dns_servers.len(),
                forall|j: int| 0 <= j < i ==> self.dns_servers@[j] != server,
            decreases self.dns_servers.len() - i,
        {
            if self.dns_servers[i] == server {
                return self;
            }
            i += 1;
        }
        let mut config = self;
        config.dns_servers.push(server);
        config
    }

    /// Select the address families that hostnames are resolved to. Answers of
    /// another family are dropped before any other check of the answer.
    pub fn with_dns_address_family(self, family: DnsAddressFamily) -> (config: Self)
        ensures
            config == (ProxyConfig { dns_address_family: family, ..self }),
    {
        ProxyConfig { dns_address_family: family, ..self }
    }

    /// Deny a destination network to every lease, whatever its policy grants.
    pub fn with_denied_network(self, network: IpNetwork) -> (config: Self)
        ensures
            config == (ProxyConfig { denied_networks: config.denied_networks, ..self }),
            config.denied_networks@ == self.denied_networks@.push(network),
    {
        let mut config = self;
        config.denied_networks.push(network);
        config
    }

    /// Set the maximum IP addresses accepted from one DNS lookup.
    ///
    /// Values are clamped to `1..=1024`. An answer over the configured ceiling
    /// is rejected as a whole rather than partially dialed.
    pub fn with_max_resolved_addresses(self, max: usize) -> (config: Self)
        ensures
            config == (ProxyConfig {
                max_resolved_addresses: clamped(
                    max as int,
                    1,
                    MAX_RESOLVED_ADDRESSES as int,
                ) as usize,
                ..self
            }),
    {
        let max: usize = clamp_usize(max, 1, MAX_RESOLVED_ADDRESSES);
        ProxyConfig { max_resolved_addresses: max, ..self }
    }

    /// Set the maximum CONNECT header block size.
    pub fn with_max_header_bytes(self, bytes: usize) -> (config: Self)
        ensures
            config == (ProxyConfig {
                max_header_bytes: clamped(
                    bytes as int,
                    MIN_BUFFER_BYTES as int,
                    MAX_BUFFER_BYTES as int,
                ) as usize,
                ..self
            }),
    {
        let bytes: usize = clamp_usize(bytes, MIN_BUFFER_BYTES, MAX_BUFFER_BYTES);
        ProxyConfig { max_header_bytes: bytes, ..self }
    }

    /// Set the maximum buffered TLS `ClientHello` size for inspected tunnels.
    pub fn with_max_client_hello_bytes(self, bytes: usize) -> (config: Self)
        ensures
            config == (ProxyConfig {
                max_client_hello_bytes: clamped(
                    bytes as int,
                    MIN_BUFFER_BYTES as int,
                    MAX_BUFFER_BYTES as int,
                ) as usize,
                ..self
            }),
    {
        let bytes: usize = clamp_usize(bytes, MIN_BUFFER_BYTES, MAX_BUFFER_BYTES);
        ProxyConfig { max_client_hello_bytes: bytes, ..self }
    }

    /// Register a network-specific NAT64 prefix whose embedded IPv4 address
    /// must receive the ordinary forbidden-destination checks.
    ///
    /// RFC 6052 permits prefix lengths of `/32`, `/40`, `/48`, `/56`, `/64`,
    /// and `/96`. Startup rejects other lengths. The well-known `64:ff9b::/96`
    /// prefix is always recognized and does not need to be registered.
    pub fn with_nat64_prefix(self, prefix: Ipv6Network) -> (config: Self)
        ensures
            config == (ProxyConfig { nat64_prefixes: config.nat64_prefixes, ..self }),
            config.nat64_prefixes@ == (if self.nat64_prefixes@.contains(prefix) {
                self.nat64_prefixes@
            } else {
                self.nat64_prefixes@.push(prefix)
            }),
    {
        let mut i: usize = 0;
        while i < self.nat64_prefixes.len()
            invariant
                i <= self.nat64_prefixes.len(),
                forall|j: int| 0 <= j < i ==> self.nat64_prefixes@[j] != prefix,
            decreases self.nat64_prefixes.len() - i,
        {
            if self.nat64_prefixes[i] == prefix {
                return self;
            }
            i += 1;
        }
        let mut config = self;
        config.nat64_prefixes.push(prefix);
        config
    }

    /// Set the absolute deadline for receiving a complete CONNECT header.
    ///
    /// Startup rejects zero and durations that cannot be represented as a
    /// runtime deadline.
    pub fn with_header_timeout(self, timeout: u128) -> (config: Self)
        ensures
            config == (ProxyConfig { header_timeout: timeout, ..self }),
    {
        ProxyConfig { header_timeout: timeout, ..self }
    }

    /// Set the post-cancellation interval during which the old identity remains
    /// revoking so the accept loop can drain already-queued sockets. Every
    /// socket observed during revocation restarts the full interval. After an
    /// apparently quiet interval, the listener owner drains its ready accept
    /// queue and rechecks the interval before certifying cleanup.
    ///
    /// Startup rejects durations that cannot be represented as a runtime
    /// deadline.
    pub fn with_identity_reuse_quiet_period(self, period: u128) -> (config: Self)
        ensures
            config == (ProxyConfig { identity_reuse_quiet_period: period, ..self }),
    {
        ProxyConfig { identity_reuse_quiet_period: period, ..self }
    }

    /// Emit bounded denial events.
    ///
    /// Delivery never blocks. Events are limited process-wide to
    /// `max_events_per_second`, clamped to `1..=10_000`. Rate- or
    /// channel-suppressed events are counted on the next event that can be
    /// delivered. A disconnected receiver silently disables delivery.
    pub fn with_diagnostic_channel(self, max_events_per_second: u32) -> (config: Self)
        ensures
            config == (ProxyConfig {
                diagnostics: Some(
                    clamped(max_events_per_second as int, 1, MAX_DIAGNOSTIC_RATE as int) as u32,
                ),
                ..self
            }),
    {
        let rate: u32 = if max_events_per_second < 1 {
            1
        } else if max_events_per_second > MAX_DIAGNOSTIC_RATE {
            MAX_DIAGNOSTIC_RATE
        } else {
            max_events_per_second
        };
        ProxyConfig { diagnostics: Some(rate), ..self }
    }
}

/// The initial configuration is one that startup accepts, on every clock that
/// can express ten seconds and 25 milliseconds ahead.
pub proof fn law_initial_configuration_is_accepted(config: ProxyConfig)
    requires
        config.is_initial(),
    ensures
        config.refusal(true, true) is None,
{
}

/// A clamped ceiling lies in its range, and one that lay there is kept.
pub proof fn law_ceilings_stay_in_range(value: int, low: int, high: int)
    requires
        low <= high,
    ensures
        low <= clamped(value, low, high) <= high,
        low <= value <= high ==> clamped(value, low, high) == value,
{
}

/// A value within the range is kept, and one outside becomes the nearer end.
pub proof fn law_values_are_moved_into_the_range(value: int, low: int, high: int)
    requires
        low <= high,
    ensures
        low <= clamped(value, low, high) <= high,
        low <= value <= high ==> clamped(value, low, high) == value,
        value < low ==> clamped(value, low, high) == low,
        value > high ==> clamped(value, low, high) == high,
{
}

/// Startup accepts a configuration exactly if its listener can be bound, its
/// header timeout is above zero, its rate can grant, the clock can express its
/// spans, its NAT64 prefixes can embed an IPv4 address, it names at most eight
/// DNS servers, each a concrete unicast address with a port and without a zone,
/// and its upstream proxy, where it has one, is such an address with the zone
/// that it needs.
pub proof fn law_sound_configurations_are_accepted(
    config: ProxyConfig,
    header_fits: bool,
    quiet_fits: bool,
)
    ensures
        config.refusal(header_fits, quiet_fits) is None <==> ({
            &&& bindable_listener(config.bind_address)
            &&& config.header_timeout > 0
            &&& config.connection_attempt_rate matches Some(limit) ==> limit.rate_per_second > 0
                && limit.burst > 0
            &&& header_fits
            &&& quiet_fits
            &&& forall|i: int|
                0 <= i < config.nat64_prefixes@.len() ==> ({
                    let length = (#[trigger] config.nat64_prefixes@[i]).prefix_len;
                    length == 32 || length == 40 || length == 48 || length == 56 || length == 64
                        || length == 96
                })
            &&& config.dns_servers@.len() <= 8
            &&& forall|i: int|
                0 <= i < config.dns_servers@.len() ==> ({
                    let server = #[trigger] config.dns_servers@[i];
                    server.port > 0 && concrete_unicast(server) && !zoned(server)
                })
            &&& config.upstream_proxy matches Some(proxy) ==> proxy.port > 0 && concrete_unicast(
                proxy,
            ) && (needs_zone(proxy) ==> proxy.scope_id != 0)
        }),
{
    let servers = config.dns_servers@;
    if config.refusal(header_fits, quiet_fits) is None {
        assert forall|i: int| 0 <= i < servers.len() implies (#[trigger] servers[i]).port > 0
            && concrete_unicast(servers[i]) && !zoned(servers[i]) by {}
    }
}

/// Which sockets are bindable, concrete and zoned, by the ranges of their
/// addresses; a mapped address counts as the IPv4 address that it spells.
pub proof fn law_listeners_and_servers_are_unicast(address: SocketAddress)
    ensures
        match canonical_address(address.ip) {
            IpAddress::V4(bits) => {
                &&& bindable_listener(address) <==> bits == 0 || 1 <= bits / 0x100_0000 <= 223
                &&& concrete_unicast(address) <==> 1 <= bits / 0x100_0000 <= 223
            },
            IpAddress::V6(bits) => {
                &&& bindable_listener(address) <==> bits
                    < 0xfe80_0000_0000_0000_0000_0000_0000_0000 || (bits
                    < 0xff00_0000_0000_0000_0000_0000_0000_0000 && address.scope_id != 0)
                &&& concrete_unicast(address) <==> 0 < bits
                    < 0xff00_0000_0000_0000_0000_0000_0000_0000
                &&& needs_zone(address) <==> 0xfe80_0000_0000_0000_0000_0000_0000_0000 <= bits
                    < 0xff00_0000_0000_0000_0000_0000_0000_0000
                &&& zoned(address) <==> address.scope_id != 0 || needs_zone(address)
            },
        },
{
}

/// The configuration that nobody changed: a loopback listener, a quiet period of
/// 25 milliseconds, ten seconds for a header, and no cache, denial, prefix,
/// server or proxy of its own.
pub proof fn law_initial_settings(config: ProxyConfig)
    requires
        config.is_initial(),
    ensures
        config.bind_address.ip == IpAddress::V4(0x7f00_0001) && config.bind_address.port == 0,
        config.identity_reuse_quiet_period == 25 * 1_000_000,
        config.header_timeout == 10 * 1_000_000_000,
        config.max_connections == 256 && config.max_concurrent_dials == 256,
        config.max_concurrent_dns == 32 && config.max_resolved_addresses == 64,
        config.dns_cache_entries == 0 && config.dns_cache_max_ttl == 0,
        config.max_header_bytes == 32_768 && config.max_client_hello_bytes == 65_536,
        config.dns_servers@.len() == 0 && config.nat64_prefixes@.len() == 0,
        config.denied_networks@.len() == 0,
        config.dns_address_family == DnsAddressFamily::Both,
        config.connection_attempt_rate is None && config.diagnostics is None,
        config.upstream_proxy is None,
{
}

/// The ceilings that settings are held to.
pub proof fn law_ceilings()
    ensures
        MAX_DNS_CACHE_ENTRIES == 64,
        MAX_DNS_CACHE_TTL == 24 * 3_600 * 1_000_000_000,
        MAX_DNS_SERVERS == 8,
        MAX_RESOLVED_ADDRESSES == 1_024,
        MIN_BUFFER_BYTES == 1_024,
        MAX_BUFFER_BYTES == 1_024 * 1_024,
        MAX_DIAGNOSTIC_RATE == 10_000,
{
}

} // verus!
