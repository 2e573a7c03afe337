//! IP addresses, socket addresses and networks as plain values.

use vstd::arithmetic::power2::pow2;
use vstd::bits::lemma_u128_shr_is_div;
use vstd::prelude::*;

use crate::hostname::{dotless, dotted_labels, labels, law_labels_are_the_parts_between_dots};
use crate::text::{
    decimal_text, digits_value, law_decimal_digits_spell_the_number, push_decimal, push_text,
};

verus! {

/// The number of values of a 32-bit word.
pub const WORD: u128 = 0x1_0000_0000;

/// An IP address, as the number that its octets spell in network order.
#[derive(Clone, Copy, Debug, PartialEq, Eq, Hash, Structural)]
pub enum IpAddress {
    V4(u32),
    V6(u128),
}

/// The IPv4 address inside an IPv4-mapped IPv6 address (`::ffff:a.b.c.d`).
pub open spec fn mapped_ipv4(bits: u128) -> Option<u32> {
    if bits / WORD == 0xffff {
        Some((bits % WORD) as u32)
    } else {
        None
    }
}

/// The IPv4 address inside an IPv4-mapped or IPv4-compatible IPv6 address
/// (`::ffff:a.b.c.d` or `::a.b.c.d`).
pub open spec fn embedded_ipv4(bits: u128) -> Option<u32> {
    if bits / WORD == 0xffff || bits / WORD == 0 {
        Some((bits % WORD) as u32)
    } else {
        None
    }
}

/// The IPv4 address behind the well-known NAT64 prefix `64:ff9b::/96`.
pub open spec fn well_known_nat64_ipv4(bits: u128) -> Option<u32> {
    if bits / WORD == 0x0064_ff9b_0000_0000_0000_0000 {
        Some((bits % WORD) as u32)
    } else {
        None
    }
}

pub fn to_mapped_ipv4(bits: u128) -> (address: Option<u32>)
    ensures
        address == mapped_ipv4(bits),
{
    if bits / WORD == 0xffff {
        Some((bits % WORD) as u32)
    } else {
        None
    }
}

pub fn to_embedded_ipv4(bits: u128) -> (address: Option<u32>)
    ensures
        address == embedded_ipv4(bits),
{
    if bits / WORD == 0xffff || bits / WORD == 0 {
        Some((bits % WORD) as u32)
    } else {
        None
    }
}

pub fn is_well_known_nat64(bits: u128) -> (known: bool)
    ensures
        known == well_known_nat64_ipv4(bits) is Some,
{
    bits / WORD == 0x0064_ff9b_0000_0000_0000_0000
}

/// The address with an IPv4-mapped spelling replaced by the IPv4 address that
/// the transport treats as the same peer.
pub open spec fn canonical_address(address: IpAddress) -> IpAddress {
    match address {
        IpAddress::V4(_) => address,
        IpAddress::V6(bits) => match mapped_ipv4(bits) {
            Some(inner) => IpAddress::V4(inner),
            None => address,
        },
    }
}

impl IpAddress {
    pub fn to_canonical(self) -> (address: IpAddress)
        ensures
            address == canonical_address(self),
    {
        match self {
            IpAddress::V4(_) => self,
            IpAddress::V6(bits) => match to_mapped_ipv4(bits) {
                Some(inner) => IpAddress::V4(inner),
                None => self,
            },
        }
    }

    /// Whether this is `0.0.0.0` or `::`.
    pub open spec fn unspecified(self) -> bool {
        self == IpAddress::V4(0) || self == IpAddress::V6(0)
    }

    pub fn is_unspecified(self) -> (yes: bool)
        ensures
            yes == self.unspecified(),
    {
        match self {
            IpAddress::V4(bits) => bits == 0,
            IpAddress::V6(bits) => bits == 0,
        }
    }
}

/// A canonical address is its own canonical spelling.
pub proof fn law_canonical_address_is_idempotent(address: IpAddress)
    ensures
        canonical_address(canonical_address(address)) == canonical_address(address),
{
}

/// The transport address of a socket. The flow label and the zone of an IPv4
/// socket are zero.
#[derive(Clone, Copy, Debug, PartialEq, Eq, Hash, Structural)]
pub struct SocketAddress {
    pub ip: IpAddress,
    pub port: u16,
    pub flow_info: u32,
    pub scope_id: u32,
}

impl SocketAddress {
    /// A socket address without a flow label or a zone.
    pub fn new(ip: IpAddress, port: u16) -> (address: Self)
        ensures
            address == plain_socket(ip, port),
    {
        SocketAddress { ip, port, flow_info: 0, scope_id: 0 }
    }
}

pub open spec fn plain_socket(ip: IpAddress, port: u16) -> SocketAddress {
    SocketAddress { ip, port, flow_info: 0, scope_id: 0 }
}

/// Whether connecting to `address` would reach the proxy's own listener: the
/// same port, and the same canonical address or a wildcard listener, which
/// answers on every local interface.
pub open spec fn reaches_endpoint(address: SocketAddress, endpoint: SocketAddress) -> bool {
    &&& address.port == endpoint.port
    &&& canonical_address(address.ip) == canonical_address(endpoint.ip) || canonical_address(
        endpoint.ip,
    ).unspecified()
}

pub fn is_proxy_endpoint(address: SocketAddress, endpoint: SocketAddress) -> (yes: bool)
    ensures
        yes == reaches_endpoint(address, endpoint),
{
    if address.port != endpoint.port {
        return false;
    }
    let address_ip = address.ip.to_canonical();
    let endpoint_ip = endpoint.ip.to_canonical();
    address_ip == endpoint_ip || endpoint_ip.is_unspecified()
}

/// Whether two numbers of `width` bits agree in their first `length` bits.
pub open spec fn prefix_agrees(address: u128, network: u128, length: u32, width: u32) -> bool {
    address >> ((width - length) as u128) == network >> ((width - length) as u128)
}

/// Whether `address` and `network` agree in their first `length` bits out of
/// `width`.
pub fn prefix_matches(address: u128, network: u128, length: u32, width: u32) -> (yes: bool)
    requires
        0 < length <= width <= 128,
    ensures
        yes == prefix_agrees(address, network, length, width),
{
    let shift: u128 = (width - length) as u128;
    address >> shift == network >> shift
}

/// A network: an address and the number of leading bits that its members share
/// with it.
#[derive(Clone, Copy, Debug, PartialEq, Eq, Hash, Structural)]
pub struct IpNetwork {
    pub address: IpAddress,
    pub prefix_len: u8,
}

/// An IPv6 network.
#[derive(Clone, Copy, Debug, PartialEq, Eq, Hash, Structural)]
pub struct Ipv6Network {
    pub address: u128,
    pub prefix_len: u8,
}

/// `ipnet::Ipv4Net::new` and `Ipv4Net::contains` with an address: a prefix of
/// at most 32 bits contains exactly the addresses that agree with it in those
/// bits, and a longer one is no network.
#[verifier::external_body]
fn ipv4_net_contains(network: u32, prefix_len: u8, address: u32) -> (yes: bool)
    ensures
        yes == (prefix_len <= 32 && prefix_agrees(
            address as u128,
            network as u128,
            prefix_len as u32,
            32,
        )),
{
    match (
        ipnet::Ipv4Net::new(network.into(), prefix_len),
        ipnet::Ipv4Net::new(address.into(), 32),
    ) {
        (Ok(network), Ok(host)) => network.contains(&host.addr()),
        _ => false,
    }
}

/// `ipnet::Ipv6Net::new` and `Ipv6Net::contains` with an address: a prefix of
/// at most 128 bits contains exactly the addresses that agree with it in those
/// bits, and a longer one is no network.
#[verifier::external_body]
fn ipv6_net_contains(network: u128, prefix_len: u8, address: u128) -> (yes: bool)
    ensures
        yes == (prefix_len <= 128 && prefix_agrees(address, network, prefix_len as u32, 128)),
{
    match (
        ipnet::Ipv6Net::new(network.into(), prefix_len),
        ipnet::Ipv6Net::new(address.into(), 128),
    ) {
        (Ok(network), Ok(host)) => network.contains(&host.addr()),
        _ => false,
    }
}

impl Ipv6Network {
    pub open spec fn holds(self, address: u128) -> bool {
        self.prefix_len <= 128 && prefix_agrees(address, self.address, self.prefix_len as u32, 128)
    }

    pub fn contains(&self, address: u128) -> (yes: bool)
        ensures
            yes == self.holds(address),
    {
        ipv6_net_contains(self.address, self.prefix_len, address)
    }
}

impl IpNetwork {
    /// Whether the address belongs to this network. No network holds addresses
    /// of the other family, whatever they embed.
    pub open spec fn holds(self, address: IpAddress) -> bool {
        match (self.address, address) {
            (IpAddress::V4(network), IpAddress::V4(bits)) => self.prefix_len <= 32 && prefix_agrees(
                bits as u128,
                network as u128,
                self.prefix_len as u32,
                32,
            ),
            (IpAddress::V6(network), IpAddress::V6(bits)) => self.prefix_len <= 128
                && prefix_agrees(bits, network, self.prefix_len as u32, 128),
            _ => false,
        }
    }

    pub fn contains(&self, address: IpAddress) -> (yes: bool)
        ensures
            yes == self.holds(address),
    {
        match (self.address, address) {
            (IpAddress::V4(network), IpAddress::V4(bits)) => ipv4_net_contains(
                network,
                self.prefix_len,
                bits,
            ),
            (IpAddress::V6(network), IpAddress::V6(bits)) => ipv6_net_contains(
                network,
                self.prefix_len,
                bits,
            ),
            _ => false,
        }
    }
}

/// Whether some network of the list holds the address.
pub open spec fn any_network_holds(networks: Seq<IpNetwork>, address: IpAddress) -> bool {
    exists|i: int| 0 <= i < networks.len() && (#[trigger] networks[i]).holds(address)
}

pub fn any_network_contains(networks: &Vec<IpNetwork>, address: IpAddress) -> (yes: bool)
    ensures
        yes == any_network_holds(networks@, address),
{
    let mut i: usize = 0;
    while i < networks.len()
        invariant
            i <= networks.len(),
            forall|j: int| 0 <= j < i ==> !(#[trigger] networks@[j]).holds(address),
        decreases networks.len() - i,
    {
        if networks[i].contains(address) {
            return true;
        }
        i += 1;
    }
    false
}

/// What the textual form of an IP address stands for, where it is one.
pub uninterp spec fn ip_literal(text: Seq<char>) -> Option<IpAddress>;

/// `str::parse` for an IP address: a function of the text alone, `None` where
/// the text is no IPv4 or IPv6 address.
#[verifier::external_body]
pub(crate) fn parse_ip(text: &str) -> (address: Option<IpAddress>)
    ensures
        address == ip_literal(text@),
{
    match ipnet::IpNet::new(text.parse().ok()?, 0) {
        Ok(ipnet::IpNet::V4(network)) => Some(IpAddress::V4(network.addr().into())),
        Ok(ipnet::IpNet::V6(network)) => Some(IpAddress::V6(network.addr().into())),
        Err(_) => None,
    }
}

/// The text of an IPv6 address.
pub uninterp spec fn ipv6_text(bits: u128) -> Seq<char>;

/// The `Display` text of an IPv6 address of the standard library: a function
/// of the address alone.
#[verifier::external_body]
fn format_ipv6(bits: u128) -> (text: String)
    ensures
        text@ == ipv6_text(bits),
{
    match ipnet::Ipv6Net::new(bits.into(), 128) {
        Ok(host) => format!("{}", host.addr()),
        Err(_) => String::new(),
    }
}

/// The four octets of an IPv4 address in decimal, with dots between them.
pub open spec fn ipv4_text(bits: u32) -> Seq<char> {
    decimal_text((bits / 0x100_0000) as nat) + "."@ + decimal_text((bits / 0x1_0000 % 256) as nat)
        + "."@ + decimal_text((bits / 0x100 % 256) as nat) + "."@ + decimal_text(
        (bits % 256) as nat,
    )
}

/// The text of a socket address: an IPv6 address stands in brackets, with its
/// zone where it has one.
pub open spec fn socket_text(address: SocketAddress) -> Seq<char> {
    match address.ip {
        IpAddress::V4(bits) => ipv4_text(bits) + ":"@ + decimal_text(address.port as nat),
        IpAddress::V6(bits) => if address.scope_id == 0 {
            "["@ + ipv6_text(bits) + "]:"@ + decimal_text(address.port as nat)
        } else {
            "["@ + ipv6_text(bits) + "%"@ + decimal_text(address.scope_id as nat) + "]:"@
                + decimal_text(address.port as nat)
        },
    }
}

impl SocketAddress {
    pub fn to_text(&self) -> (text: String)
        ensures
            text@ == socket_text(*self),
    {
        let mut text = String::new();
        match self.ip {
            IpAddress::V4(bits) => {
                push_decimal(&mut text, (bits / 0x100_0000) as u64);
                push_text(&mut text, ".");
                push_decimal(&mut text, (bits / 0x1_0000 % 256) as u64);
                push_text(&mut text, ".");
                push_decimal(&mut text, (bits / 0x100 % 256) as u64);
                push_text(&mut text, ".");
                push_decimal(&mut text, (bits % 256) as u64);
                assert(text@ =~= ipv4_text(bits));
                push_text(&mut text, ":");
            },
            IpAddress::V6(bits) => {
                push_text(&mut text, "[");
                push_text(&mut text, format_ipv6(bits).as_str());
                if self.scope_id != 0 {
                    push_text(&mut text, "%");
                    push_decimal(&mut text, self.scope_id as u64);
                }
                push_text(&mut text, "]:");
                assert(text@ + decimal_text(self.port as nat) =~= socket_text(*self));
            },
        }
        push_decimal(&mut text, self.port as u64);
        text
    }
}

/// A network holds exactly the addresses of its own family that lie in its
/// block: those that leave the same quotient by the size of the block.
pub proof fn law_networks_hold_one_block(
    network: u32,
    wide: u128,
    prefix_len: u8,
    address: u32,
    other: u128,
)
    ensures
        ({
            let v4 = IpNetwork { address: IpAddress::V4(network), prefix_len };
            let v6 = IpNetwork { address: IpAddress::V6(wide), prefix_len };
            &&& prefix_len <= 32 ==> (v4.holds(IpAddress::V4(address)) <==> address as nat / pow2(
                (32 - prefix_len) as nat,
            ) == network as nat / pow2((32 - prefix_len) as nat))
            &&& prefix_len > 32 ==> !v4.holds(IpAddress::V4(address))
            &&& 0 < prefix_len <= 128 ==> (v6.holds(IpAddress::V6(other)) <==> other as nat / pow2(
                (128 - prefix_len) as nat,
            ) == wide as nat / pow2((128 - prefix_len) as nat))
            &&& prefix_len > 128 ==> !v6.holds(IpAddress::V6(other))
            &&& !v4.holds(IpAddress::V6(other))
            &&& !v6.holds(IpAddress::V4(address))
            &&& 0 < prefix_len ==> ((Ipv6Network { address: wide, prefix_len }).holds(other)
                <==> v6.holds(IpAddress::V6(other)))
        }),
{
    if prefix_len <= 32 {
        let shift = (32 - prefix_len) as u128;
        lemma_u128_shr_is_div(address as u128, shift);
        lemma_u128_shr_is_div(network as u128, shift);
    }
    if 0 < prefix_len <= 128 {
        let shift = (128 - prefix_len) as u128;
        lemma_u128_shr_is_div(other, shift);
        lemma_u128_shr_is_div(wide, shift);
    }
}

/// A list of networks holds what one of them holds, wherever that stands in the
/// list, and nothing else.
pub proof fn law_every_network_counts(networks: Seq<IpNetwork>, address: IpAddress, at: int)
    ensures
        0 <= at < networks.len() && networks[at].holds(address) ==> any_network_holds(
            networks,
            address,
        ),
        (forall|i: int| 0 <= i < networks.len() ==> !(#[trigger] networks[i]).holds(address))
            ==> !any_network_holds(networks, address),
{
}

/// An IPv6 address has a canonical IPv4 spelling exactly if it is `::ffff:` and
/// that address; every other address is its own spelling.
pub proof fn law_mapped_spellings_are_one_address(bits: u128, inner: u32)
    ensures
        canonical_address(IpAddress::V6(bits)) == IpAddress::V4(inner) <==> bits
            == 0xffff_0000_0000 + inner,
        !(0xffff_0000_0000 <= bits <= 0xffff_ffff_ffff) ==> canonical_address(IpAddress::V6(bits))
            == IpAddress::V6(bits),
        canonical_address(IpAddress::V4(inner)) == IpAddress::V4(inner),
{
    assert(bits == bits / WORD * WORD + bits % WORD) by (nonlinear_arith)
        requires
            WORD == 0x1_0000_0000u128,
    ;
    if bits == 0xffff_0000_0000 + inner {
        assert(bits / WORD == 0xffff && bits % WORD == inner) by (nonlinear_arith)
            requires
                bits == 0xffff_0000_0000 + inner,
                WORD == 0x1_0000_0000u128,
                inner <= 0xffff_ffffu32,
        ;
    }
}

/// Connecting somewhere reaches the listener exactly if the port is its own and
/// the address is its own in some spelling, or the listener answers everywhere.
pub proof fn law_the_listener_is_known_by_every_spelling(
    address: SocketAddress,
    endpoint: SocketAddress,
)
    ensures
        address.port != endpoint.port ==> !reaches_endpoint(address, endpoint),
        address.port == endpoint.port && (endpoint.ip == IpAddress::V4(0) || endpoint.ip
            == IpAddress::V6(0) || endpoint.ip == IpAddress::V6(0xffff_0000_0000))
            ==> reaches_endpoint(address, endpoint),
        address.port == endpoint.port && canonical_address(address.ip) == canonical_address(
            endpoint.ip,
        ) ==> reaches_endpoint(address, endpoint),
        reaches_endpoint(address, endpoint) && canonical_address(address.ip) != canonical_address(
            endpoint.ip,
        ) ==> endpoint.ip == IpAddress::V4(0) || endpoint.ip == IpAddress::V6(0) || endpoint.ip
            == IpAddress::V6(0xffff_0000_0000),
{
    if let IpAddress::V6(bits) = endpoint.ip {
        law_mapped_spellings_are_one_address(bits, 0);
    }
}

/// The text of an IPv4 address has four parts between its dots, and they spell
/// its octets, first octet first.
pub proof fn law_ipv4_texts_spell_the_address(bits: u32)
    ensures
        ({
            let parts = labels(ipv4_text(bits));
            &&& parts.len() == 4
            &&& digits_value(parts[0]) < 256 && digits_value(parts[1]) < 256
            &&& digits_value(parts[2]) < 256 && digits_value(parts[3]) < 256
            &&& digits_value(parts[0]) * 0x100_0000 + digits_value(parts[1]) * 0x1_0000
                + digits_value(parts[2]) * 0x100 + digits_value(parts[3]) == bits
        }),
{
    let a = decimal_text((bits / 0x100_0000) as nat);
    let b = decimal_text((bits / 0x1_0000 % 256) as nat);
    let c = decimal_text((bits / 0x100 % 256) as nat);
    let d = decimal_text((bits % 256) as nat);
    let parts = seq![a, b, c, d];
    law_decimal_digits_spell_the_number((bits / 0x100_0000) as nat);
    law_decimal_digits_spell_the_number((bits / 0x1_0000 % 256) as nat);
    law_decimal_digits_spell_the_number((bits / 0x100 % 256) as nat);
    law_decimal_digits_spell_the_number((bits % 256) as nat);
    assert forall|i: int| 0 <= i < parts.len() implies dotless(#[trigger] parts[i]) by {
        assert(i == 0 || i == 1 || i == 2 || i == 3);
    }
    law_labels_are_the_parts_between_dots(parts);
    reveal_strlit(".");
    assert("."@ =~= seq!['.']);
    reveal_with_fuel(dotted_labels, 4);
    assert(parts.drop_last() =~= seq![a, b, c]);
    assert(seq![a, b, c].drop_last() =~= seq![a, b]);
    assert(seq![a, b].drop_last() =~= seq![a]);
    assert(dotted_labels(parts) =~= ipv4_text(bits));
}

/// The text of a socket ends in its port, behind a colon.
pub proof fn law_socket_texts_end_in_the_port(address: SocketAddress)
    ensures
        ({
            let text = socket_text(address);
            let port = decimal_text(address.port as nat);
            &&& digits_value(port) == address.port
            &&& text.len() > port.len()
            &&& text.skip(text.len() - port.len()) == port
            &&& text[text.len() - port.len() - 1] == ':'
        }),
{
    reveal_strlit(":");
    reveal_strlit("]:");
    law_decimal_digits_spell_the_number(address.port as nat);
    let text = socket_text(address);
    let port = decimal_text(address.port as nat);
    assert(text.skip(text.len() - port.len()) =~= port);
}

} // verus!
