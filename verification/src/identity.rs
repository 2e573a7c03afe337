//! Peer identities and the proxy's own endpoint.

use vstd::prelude::*;

use crate::address::{
    canonical_address, mapped_ipv4, socket_text, to_mapped_ipv4, IpAddress, SocketAddress,
};
use crate::text::joined;

verus! {

/// Identity evidence derived by the trusted host boundary.
#[derive(Clone, Copy, Debug, PartialEq, Eq, Hash, Structural)]
#[non_exhaustive]
pub enum PeerIdentity {
    /// The source address the proxy listener observes, enforced by the trusted
    /// namespace, routing, or NAT boundary. This may be a host-translated
    /// address rather than the address configured inside the guest. A proxy
    /// treats an IPv4-mapped IPv6 spelling as the equivalent IPv4 address at
    /// both attachment and socket acceptance. Scoped IPv6 unicast addresses
    /// are rejected because this identity cannot carry their zone ID.
    SourceIp(IpAddress),
}

/// A first octet from 1 to 223.
pub open spec fn unicast_v4(address: u32) -> bool {
    0x0100_0000 <= address < 0xe000_0000
}

/// `ff00::/8`.
pub open spec fn multicast_v6(address: u128) -> bool {
    0xff00_0000_0000_0000_0000_0000_0000_0000 <= address
}

/// Link-local (`fe80::/10`) or site-local (`fec0::/10`): an address that means
/// nothing without a zone.
pub open spec fn scoped_unicast(address: u128) -> bool {
    0xfe80_0000_0000_0000_0000_0000_0000_0000 <= address
        < 0xff00_0000_0000_0000_0000_0000_0000_0000
}

pub fn is_unicast_v4(address: u32) -> (yes: bool)
    ensures
        yes == unicast_v4(address),
{
    let first: u32 = address / 0x100_0000;
    first != 0 && first < 224
}

pub fn is_multicast_v6(address: u128) -> (yes: bool)
    ensures
        yes == multicast_v6(address),
{
    address / 0x100_0000_0000_0000_0000_0000_0000_0000 == 0xff
}

pub fn is_scoped_unicast(address: u128) -> (yes: bool)
    ensures
        yes == scoped_unicast(address),
{
    let block: u128 = address / 0x40_0000_0000_0000_0000_0000_0000_0000;
    block == 0xfe80 / 0x40 || block == 0xfec0 / 0x40
}

impl PeerIdentity {
    /// The one spelling under which a peer is known.
    pub open spec fn canonical_spec(self) -> PeerIdentity {
        match self {
            PeerIdentity::SourceIp(address) => PeerIdentity::SourceIp(canonical_address(address)),
        }
    }

    pub fn canonical(self) -> (identity: PeerIdentity)
        ensures
            identity == self.canonical_spec(),
    {
        match self {
            PeerIdentity::SourceIp(IpAddress::V6(bits)) => match to_mapped_ipv4(bits) {
                Some(inner) => PeerIdentity::SourceIp(IpAddress::V4(inner)),
                None => self,
            },
            PeerIdentity::SourceIp(IpAddress::V4(_)) => self,
        }
    }

    /// Whether an accepted connection can carry exactly this source address.
    pub open spec fn attachable(self) -> bool {
        match self {
            PeerIdentity::SourceIp(IpAddress::V4(bits)) => unicast_v4(bits),
            PeerIdentity::SourceIp(IpAddress::V6(bits)) => bits != 0 && !multicast_v6(bits)
                && !scoped_unicast(bits),
        }
    }

    pub fn is_attachable(&self) -> (yes: bool)
        ensures
            yes == self.attachable(),
    {
        match *self {
            PeerIdentity::SourceIp(IpAddress::V4(bits)) => is_unicast_v4(bits),
            PeerIdentity::SourceIp(IpAddress::V6(bits)) => bits != 0 && !is_multicast_v6(bits)
                && !is_scoped_unicast(bits),
        }
    }
}

/// Canonicalizing twice changes nothing, and exactly the spellings of one peer
/// share a canonical identity: an IPv4 address and its mapped spelling.
pub proof fn law_canonical_identity(left: u32, right: u128)
    ensures
        PeerIdentity::SourceIp(IpAddress::V6(right)).canonical_spec().canonical_spec()
            == PeerIdentity::SourceIp(IpAddress::V6(right)).canonical_spec(),
        PeerIdentity::SourceIp(IpAddress::V4(left)).canonical_spec() == PeerIdentity::SourceIp(
            IpAddress::V6(right),
        ).canonical_spec() <==> mapped_ipv4(right) == Some(left),
{
}

/// The HTTP proxy endpoint to expose inside the guest.
#[derive(Clone, Copy, Debug, PartialEq, Eq, Hash, Structural)]
pub struct Endpoint(pub SocketAddress);

impl Endpoint {
    pub fn new(address: SocketAddress) -> (endpoint: Self)
        ensures
            endpoint.0 == address,
    {
        Endpoint(address)
    }

    /// Return the underlying listener address.
    pub fn socket_addr(self) -> (address: SocketAddress)
        ensures
            address == self.0,
    {
        self.0
    }

    /// Return the proxy URL.
    pub fn to_text(self) -> (text: String)
        ensures
            text@ == "http://"@ + socket_text(self.0),
    {
        joined("http://", self.0.to_text().as_str())
    }
}

/// An accepted connection can carry any IPv4 address with a first octet from 1
/// to 223, and any IPv6 address below the scoped and multicast ones but the
/// unspecified one; and no other.
pub proof fn law_attachable_identities(address: u32, wide: u128)
    ensures
        PeerIdentity::SourceIp(IpAddress::V4(address)).attachable() <==> 1 <= address / 0x100_0000
            <= 223,
        PeerIdentity::SourceIp(IpAddress::V6(wide)).attachable() <==> 0 < wide
            < 0xfe80_0000_0000_0000_0000_0000_0000_0000,
{
}

} // verus!
