//! What the resolver is asked to do.

use vstd::prelude::*;

use crate::address::{IpAddress, SocketAddress};
use crate::config::{DnsAddressFamily, ProxyConfig};

verus! {

/// A name server that the configuration names.
#[derive(Clone, Copy, Debug, PartialEq, Eq, Structural)]
pub struct NameServer {
    pub ip: IpAddress,
    pub trust_negative_responses: bool,
    pub udp_port: u16,
    pub tcp_port: u16,
}

/// The settings of the process-wide resolver.
#[derive(Debug)]
pub struct ResolverSettings {
    /// The name servers to ask. The host's own configuration decides where the
    /// proxy's configuration names none.
    pub name_servers: Option<Vec<NameServer>>,
    /// Whether the hosts file of the host is consulted as it is configured
    /// there, or never.
    pub hosts_file: bool,
    pub cache_size: u64,
    /// In nanoseconds.
    pub positive_max_ttl: u128,
    /// In nanoseconds.
    pub negative_max_ttl: u128,
    pub try_tcp_on_error: bool,
    pub address_family: DnsAddressFamily,
}

/// A configured server answers over UDP and TCP at the same port, and is
/// believed when it says that there is no answer.
pub open spec fn configured_server(address: SocketAddress) -> NameServer {
    NameServer {
        ip: address.ip,
        trust_negative_responses: true,
        udp_port: address.port,
        tcp_port: address.port,
    }
}

fn configured_name_server(address: SocketAddress) -> (server: NameServer)
    ensures
        server == configured_server(address),
{
    NameServer {
        ip: address.ip,
        trust_negative_responses: true,
        udp_port: address.port,
        tcp_port: address.port,
    }
}

impl ResolverSettings {
    /// The settings for this configuration. Servers that it names take the
    /// place of the host's configuration and of its hosts file.
    pub fn for_config(config: &ProxyConfig) -> (settings: Self)
        ensures
            match settings.name_servers {
                Some(servers) => {
                    &&& config.dns_servers@.len() > 0
                    &&& servers@ == config.dns_servers@.map_values(
                        |server: SocketAddress| configured_server(server),
                    )
                },
                None => config.dns_servers@.len() == 0,
            },
            settings.hosts_file == (config.dns_servers@.len() == 0),
            settings.cache_size == config.dns_cache_entries,
            settings.positive_max_ttl == config.dns_cache_max_ttl,
            settings.negative_max_ttl == config.dns_cache_max_ttl,
            settings.try_tcp_on_error,
            settings.address_family == config.dns_address_family,
    {
        let mut name_servers: Option<Vec<NameServer>> = None;
        if config.dns_servers.len() > 0 {
            let mut servers: Vec<NameServer> = Vec::new();
            let mut i: usize = 0;
            while i < config.dns_servers.len()
                invariant
                    i <= config.dns_servers@.len(),
                    servers@ == config.dns_servers@.take(i as int).map_values(
                        |server: SocketAddress| configured_server(server),
                    ),
                decreases config.dns_servers@.len() - i,
            {
                servers.push(configured_name_server(config.dns_servers[i]));
                i += 1;
            }
            assert(config.dns_servers@.take(i as int) =~= config.dns_servers@);
            name_servers = Some(servers);
        }
        ResolverSettings {
            hosts_file: config.dns_servers.len() == 0,
            name_servers,
            cache_size: config.dns_cache_entries,
            positive_max_ttl: config.dns_cache_max_ttl,
            negative_max_ttl: config.dns_cache_max_ttl,
            try_tcp_on_error: true,
            address_family: config.dns_address_family,
        }
    }
}

/// A configured server is asked at its own address, over UDP and TCP at its own
/// port, and is believed.
pub proof fn law_servers_are_asked_where_they_are(address: SocketAddress)
    ensures
        configured_server(address).ip == address.ip,
        configured_server(address).udp_port == address.port,
        configured_server(address).tcp_port == address.port,
        configured_server(address).trust_negative_responses,
{
}

} // verus!
