//! Which addresses are no destination unless a policy grants them.

use vstd::prelude::*;

use crate::address::{
    embedded_ipv4, is_well_known_nat64, prefix_matches, to_embedded_ipv4, well_known_nat64_ipv4,
    IpAddress, Ipv6Network, WORD,
};

verus! {

/// The IPv4 blocks that name no public unicast host: the special-purpose
/// registry, multicast, the reserved top of the range, and the platform agent
/// address `168.63.129.16`.
pub open spec fn special_purpose_v4(address: u32) -> bool {
    ||| address <= 0x00ff_ffff  // 0.0.0.0/8, this network
    ||| 0x0a00_0000 <= address <= 0x0aff_ffff  // 10.0.0.0/8, private
    ||| 0x6440_0000 <= address <= 0x647f_ffff  // 100.64.0.0/10, shared
    ||| 0x7f00_0000 <= address <= 0x7fff_ffff  // 127.0.0.0/8, loopback
    ||| address == 0xa83f_8110  // 168.63.129.16, platform agent
    ||| 0xa9fe_0000 <= address <= 0xa9fe_ffff  // 169.254.0.0/16, link-local
    ||| 0xac10_0000 <= address <= 0xac1f_ffff  // 172.16.0.0/12, private
    ||| 0xc000_0000 <= address <= 0xc000_00ff  // 192.0.0.0/24, protocol assignments
    ||| 0xc000_0200 <= address <= 0xc000_02ff  // 192.0.2.0/24, documentation
    ||| 0xc058_6300 <= address <= 0xc058_63ff  // 192.88.99.0/24, deprecated 6to4 relay
    ||| 0xc0a8_0000 <= address <= 0xc0a8_ffff  // 192.168.0.0/16, private
    ||| 0xc612_0000 <= address <= 0xc613_ffff  // 198.18.0.0/15, benchmarking
    ||| 0xc633_6400 <= address <= 0xc633_64ff  // 198.51.100.0/24, documentation
    ||| 0xcb00_7100 <= address <= 0xcb00_71ff  // 203.0.113.0/24, documentation
    ||| 0xe000_0000 <= address  // multicast and reserved
}

/// Everything outside the global unicast block `2000::/3`, and the
/// special-purpose blocks inside it.
pub open spec fn special_purpose_v6(address: u128) -> bool {
    ||| address < 0x2000_0000_0000_0000_0000_0000_0000_0000
    ||| 0x4000_0000_0000_0000_0000_0000_0000_0000 <= address
    ||| 0x2001_0000_0000_0000_0000_0000_0000_0000 <= address
        < 0x2001_0200_0000_0000_0000_0000_0000_0000  // 2001::/23, protocol assignments
    ||| 0x2001_0db8_0000_0000_0000_0000_0000_0000 <= address
        < 0x2001_0db9_0000_0000_0000_0000_0000_0000  // 2001:db8::/32, documentation
    ||| 0x2002_0000_0000_0000_0000_0000_0000_0000 <= address
        < 0x2003_0000_0000_0000_0000_0000_0000_0000  // 2002::/16, 6to4
    ||| 0x3fff_0000_0000_0000_0000_0000_0000_0000 <= address
        < 0x3fff_1000_0000_0000_0000_0000_0000_0000  // 3fff::/20, documentation
}

pub fn forbidden_v4(address: u32) -> (forbidden: bool)
    ensures
        forbidden == special_purpose_v4(address),
{
    let bits: u128 = address as u128;
    proof {
        assert(special_purpose_v4(address) == (bits >> 24u128 == 0u128 || bits >> 24u128 == 0x0au128
            || bits >> 22u128 == 0x6440_0000u128 >> 22u128 || bits >> 24u128 == 0x7fu128 || bits
            == 0xa83f_8110u128 || bits >> 16u128 == 0xa9feu128 || bits >> 20u128 == 0xac1u128
            || bits >> 8u128 == 0xc0_0000u128 || bits >> 8u128 == 0xc0_0002u128 || bits >> 8u128
            == 0xc0_5863u128 || bits >> 16u128 == 0xc0a8u128 || bits >> 17u128
            == 0xc612_0000u128 >> 17u128 || bits >> 8u128 == 0xc6_3364u128 || bits >> 8u128
            == 0xcb_0071u128 || bits >> 29u128 == 7u128)) by (bit_vector)
            requires
                bits == address as u128,
        ;
        assert(0x0000_0000u128 >> 24u128 == 0u128 && 0x0a00_0000u128 >> 24u128 == 0x0au128
            && 0x7f00_0000u128 >> 24u128 == 0x7fu128 && 0xa9fe_0000u128 >> 16u128 == 0xa9feu128
            && 0xac10_0000u128 >> 20u128 == 0xac1u128 && 0xc000_0000u128 >> 8u128 == 0xc0_0000u128
            && 0xc000_0200u128 >> 8u128 == 0xc0_0002u128 && 0xc058_6300u128 >> 8u128
            == 0xc0_5863u128 && 0xc0a8_0000u128 >> 16u128 == 0xc0a8u128 && 0xc633_6400u128 >> 8u128
            == 0xc6_3364u128 && 0xcb00_7100u128 >> 8u128 == 0xcb_0071u128 && 0xe000_0000u128
            >> 29u128 == 7u128 && bits >> 0u128 == bits && 0xa83f_8110u128 >> 0u128
            == 0xa83f_8110u128) by (bit_vector);
    }
    prefix_matches(bits, 0x0000_0000, 8, 32) || prefix_matches(bits, 0x0a00_0000, 8, 32)
        || prefix_matches(bits, 0x6440_0000, 10, 32) || prefix_matches(bits, 0x7f00_0000, 8, 32)
        || prefix_matches(bits, 0xa83f_8110, 32, 32) || prefix_matches(bits, 0xa9fe_0000, 16, 32)
        || prefix_matches(bits, 0xac10_0000, 12, 32) || prefix_matches(bits, 0xc000_0000, 24, 32)
        || prefix_matches(bits, 0xc000_0200, 24, 32) || prefix_matches(bits, 0xc058_6300, 24, 32)
        || prefix_matches(bits, 0xc0a8_0000, 16, 32) || prefix_matches(bits, 0xc612_0000, 15, 32)
        || prefix_matches(bits, 0xc633_6400, 24, 32) || prefix_matches(bits, 0xcb00_7100, 24, 32)
        || prefix_matches(bits, 0xe000_0000, 3, 32)
}

pub fn forbidden_v6(address: u128) -> (forbidden: bool)
    ensures
        forbidden == special_purpose_v6(address),
{
    proof {
        assert(special_purpose_v6(address) == (address >> 125u128
            != 0x2000_0000_0000_0000_0000_0000_0000_0000u128 >> 125u128 || address >> 105u128
            == 0x2001_0000_0000_0000_0000_0000_0000_0000u128 >> 105u128 || address >> 96u128
            == 0x2001_0db8_0000_0000_0000_0000_0000_0000u128 >> 96u128 || address >> 112u128
            == 0x2002_0000_0000_0000_0000_0000_0000_0000u128 >> 112u128 || address >> 108u128
            == 0x3fff_0000_0000_0000_0000_0000_0000_0000u128 >> 108u128)) by (bit_vector);
    }
    !prefix_matches(address, 0x2000_0000_0000_0000_0000_0000_0000_0000, 3, 128) || prefix_matches(
        address,
        0x2001_0000_0000_0000_0000_0000_0000_0000,
        23,
        128,
    ) || prefix_matches(address, 0x2001_0db8_0000_0000_0000_0000_0000_0000, 32, 128)
        || prefix_matches(address, 0x2002_0000_0000_0000_0000_0000_0000_0000, 16, 128)
        || prefix_matches(address, 0x3fff_0000_0000_0000_0000_0000_0000_0000, 20, 128)
}

/// The octet of an IPv6 address at an index from 0 to 15, first octet first.
pub open spec fn octet_at(address: u128, index: int) -> u8 {
    ((address >> ((120 - 8 * index) as u128)) & 0xff) as u8
}

fn octet(address: u128, index: u128) -> (value: u8)
    requires
        index <= 15,
    ensures
        value == octet_at(address, index as int),
{
    let shift: u128 = 120 - 8 * index;
    ((address >> shift) & 0xff) as u8
}

/// Where the four octets of the embedded IPv4 address stand behind a NAT64
/// prefix of this length. Octet 8 is always skipped.
pub open spec fn nat64_layout(prefix_len: u8) -> Option<(int, int, int, int)> {
    if prefix_len == 32 {
        Some((4, 5, 6, 7))
    } else if prefix_len == 40 {
        Some((5, 6, 7, 9))
    } else if prefix_len == 48 {
        Some((6, 7, 9, 10))
    } else if prefix_len == 56 {
        Some((7, 9, 10, 11))
    } else if prefix_len == 64 {
        Some((9, 10, 11, 12))
    } else if prefix_len == 96 {
        Some((12, 13, 14, 15))
    } else {
        None
    }
}

/// The IPv4 address that an address carries behind a network-specific NAT64
/// prefix, where the prefix holds the address and its length is one that
/// embeds an IPv4 address.
pub open spec fn nat64_ipv4(prefix: Ipv6Network, address: u128) -> Option<u32> {
    match nat64_layout(prefix.prefix_len) {
        Some((a, b, c, d)) => if prefix.holds(address) {
            Some(
                (octet_at(address, a) * 0x100_0000 + octet_at(address, b) * 0x1_0000 + octet_at(
                    address,
                    c,
                ) * 0x100 + octet_at(address, d)) as u32,
            )
        } else {
            None
        },
        None => None,
    }
}

/// Whether prefixes of this length embed an IPv4 address.
pub fn is_nat64_length(prefix_len: u8) -> (yes: bool)
    ensures
        yes == nat64_layout(prefix_len) is Some,
{
    prefix_len == 32 || prefix_len == 40 || prefix_len == 48 || prefix_len == 56 || prefix_len == 64
        || prefix_len == 96
}

pub fn nat64_embedded(prefix: &Ipv6Network, address: u128) -> (embedded: Option<u32>)
    ensures
        embedded == nat64_ipv4(*prefix, address),
{
    if !is_nat64_length(prefix.prefix_len) || !prefix.contains(address) {
        return None;
    }
    let (a, b, c, d): (u128, u128, u128, u128) = if prefix.prefix_len == 32 {
        (4, 5, 6, 7)
    } else if prefix.prefix_len == 40 {
        (5, 6, 7, 9)
    } else if prefix.prefix_len == 48 {
        (6, 7, 9, 10)
    } else if prefix.prefix_len == 56 {
        (7, 9, 10, 11)
    } else if prefix.prefix_len == 64 {
        (9, 10, 11, 12)
    } else {
        (12, 13, 14, 15)
    };
    Some(
        octet(address, a) as u32 * 0x100_0000 + octet(address, b) as u32 * 0x1_0000 + octet(
            address,
            c,
        ) as u32 * 0x100 + octet(address, d) as u32,
    )
}

/// Whether some registered NAT64 prefix makes the address stand for this IPv4
/// address.
pub open spec fn nat64_reaches(prefixes: Seq<Ipv6Network>, address: u128, inner: u32) -> bool {
    exists|i: int|
        0 <= i < prefixes.len() && nat64_ipv4(#[trigger] prefixes[i], address) == Some(inner)
}

/// Whether dialing the address reaches this IPv4 address: because it is that
/// address, or because it embeds it as a mapped, compatible or NAT64 spelling.
pub open spec fn reaches_ipv4(address: IpAddress, prefixes: Seq<Ipv6Network>, inner: u32) -> bool {
    match address {
        IpAddress::V4(bits) => bits == inner,
        IpAddress::V6(bits) => {
            ||| embedded_ipv4(bits) == Some(inner)
            ||| well_known_nat64_ipv4(bits) == Some(inner)
            ||| nat64_reaches(prefixes, bits, inner)
        },
    }
}

/// Every IPv4 address that dialing this address reaches, in no particular
/// order.
pub fn reached_ipv4(address: IpAddress, prefixes: &Vec<Ipv6Network>) -> (reached: Vec<u32>)
    ensures
        forall|inner: u32| #[trigger]
            reached@.contains(inner) <==> reaches_ipv4(address, prefixes@, inner),
{
    let mut reached: Vec<u32> = Vec::new();
    match address {
        IpAddress::V4(bits) => {
            reached.push(bits);
            assert(reached@[0] == bits);
        },
        IpAddress::V6(bits) => {
            let embedded = to_embedded_ipv4(bits);
            if let Some(inner) = embedded {
                reached.push(inner);
                assert(reached@[0] == inner);
            }
            if is_well_known_nat64(bits) {
                let ghost before = reached@;
                let inner: u32 = (bits % WORD) as u32;
                reached.push(inner);
                assert(reached@[before.len() as int] == inner);
            }
            let mut i: usize = 0;
            while i < prefixes.len()
                invariant
                    i <= prefixes.len(),
                    forall|inner: u32| #[trigger]
                        reached@.contains(inner) <==> (embedded_ipv4(bits) == Some(inner)
                            || well_known_nat64_ipv4(bits) == Some(inner) || exists|j: int|
                            0 <= j < i && nat64_ipv4(#[trigger] prefixes@[j], bits) == Some(inner)),
                decreases prefixes.len() - i,
            {
                let ghost before = reached@;
                if let Some(found) = nat64_embedded(&prefixes[i], bits) {
                    reached.push(found);
                    proof {
                        assert(reached@[before.len() as int] == found);
                        assert forall|inner: u32| #[trigger]
                            reached@.contains(inner) <==> before.contains(inner) || inner
                                == found by {
                            if before.contains(inner) {
                                let k = choose|k: int| 0 <= k < before.len() && before[k] == inner;
                                assert(reached@[k] == inner);
                            }
                        }
                    }
                }
                proof {
                    assert forall|inner: u32| #[trigger]
                        reached@.contains(inner) <==> (embedded_ipv4(bits) == Some(inner)
                            || well_known_nat64_ipv4(bits) == Some(inner) || exists|j: int|
                            0 <= j < i + 1 && nat64_ipv4(#[trigger] prefixes@[j], bits) == Some(
                                inner,
                            )) by {
                        assert(before.contains(inner) <==> (embedded_ipv4(bits) == Some(inner)
                            || well_known_nat64_ipv4(bits) == Some(inner) || exists|j: int|
                            0 <= j < i && nat64_ipv4(#[trigger] prefixes@[j], bits) == Some(
                                inner,
                            )));
                    }
                }
                i += 1;
            }
        },
    }
    reached
}

/// Whether an address is no destination by default. An address that embeds an
/// IPv4 address is judged by that address alone; one behind several registered
/// NAT64 prefixes is forbidden as soon as one reading of it is.
pub open spec fn forbidden_destination(address: IpAddress, prefixes: Seq<Ipv6Network>) -> bool {
    match address {
        IpAddress::V4(bits) => special_purpose_v4(bits),
        IpAddress::V6(bits) => match embedded_ipv4(bits) {
            Some(inner) => special_purpose_v4(inner),
            None => match well_known_nat64_ipv4(bits) {
                Some(inner) => special_purpose_v4(inner),
                None => if exists|inner: u32| nat64_reaches(prefixes, bits, inner) {
                    exists|inner: u32|
                        nat64_reaches(prefixes, bits, inner) && special_purpose_v4(inner)
                } else {
                    special_purpose_v6(bits)
                },
            },
        },
    }
}

pub fn is_forbidden_destination(address: IpAddress, prefixes: &Vec<Ipv6Network>) -> (forbidden:
    bool)
    ensures
        forbidden == forbidden_destination(address, prefixes@),
{
    match address {
        IpAddress::V4(bits) => forbidden_v4(bits),
        IpAddress::V6(bits) => {
            if let Some(inner) = to_embedded_ipv4(bits) {
                return forbidden_v4(inner);
            }
            if is_well_known_nat64(bits) {
                return forbidden_v4((bits % WORD) as u32);
            }
            let mut translated: bool = false;
            let mut i: usize = 0;
            while i < prefixes.len()
                invariant
                    i <= prefixes.len(),
                    translated == exists|j: int|
                        0 <= j < i && (#[trigger] nat64_ipv4(prefixes@[j], bits)) is Some,
                    forall|j: int|
                        0 <= j < i ==> match #[trigger] nat64_ipv4(prefixes@[j], bits) {
                            Some(inner) => !special_purpose_v4(inner),
                            None => true,
                        },
                    embedded_ipv4(bits) is None,
                    well_known_nat64_ipv4(bits) is None,
                    address == IpAddress::V6(bits),
                decreases prefixes.len() - i,
            {
                let found = nat64_embedded(&prefixes[i], bits);
                if let Some(inner) = found {
                    if forbidden_v4(inner) {
                        assert(nat64_reaches(prefixes@, bits, inner));
                        return true;
                    }
                    translated = true;
                    assert(nat64_ipv4(prefixes@[i as int], bits) is Some);
                }
                i += 1;
            }
            proof {
                if translated {
                    let j = choose|j: int|
                        0 <= j < prefixes@.len() && (#[trigger] nat64_ipv4(
                            prefixes@[j],
                            bits,
                        )) is Some;
                    let inner = nat64_ipv4(prefixes@[j], bits)->0;
                    assert(nat64_reaches(prefixes@, bits, inner));
                }
            }
            !translated && forbidden_v6(bits)
        },
    }
}

/// An address that spells an IPv4 address, mapped, compatible or behind the
/// well-known NAT64 prefix, is judged exactly like the address that it spells,
/// whatever NAT64 prefixes are registered.
pub proof fn law_ipv4_spellings_are_judged_alike(inner: u32, prefixes: Seq<Ipv6Network>)
    ensures
        forbidden_destination(IpAddress::V6((0xffff * WORD + inner) as u128), prefixes)
            == forbidden_destination(IpAddress::V4(inner), prefixes),
        forbidden_destination(IpAddress::V6(inner as u128), prefixes) == forbidden_destination(
            IpAddress::V4(inner),
            prefixes,
        ),
        forbidden_destination(
            IpAddress::V6((0x0064_ff9b_0000_0000_0000_0000 * WORD + inner) as u128),
            prefixes,
        ) == forbidden_destination(IpAddress::V4(inner), prefixes),
{
    lemma_spelling(0xffff, inner);
    lemma_spelling(0, inner);
    lemma_spelling(0x0064_ff9b_0000_0000_0000_0000, inner);
}

/// The upper bits and the last word of an address come apart again.
proof fn lemma_spelling(upper: int, inner: u32)
    requires
        0 <= upper <= 0x0064_ff9b_0000_0000_0000_0000,
    ensures
        upper * WORD + inner <= u128::MAX,
        ((upper * WORD + inner) as u128) / WORD == upper,
        ((upper * WORD + inner) as u128) % WORD == inner,
{
    assert(upper * WORD + inner <= u128::MAX) by (nonlinear_arith)
        requires
            0 <= upper <= 0x0064_ff9b_0000_0000_0000_0000,
            WORD == 0x1_0000_0000u128,
            inner <= 0xffff_ffffu32,
    ;
    let bits = (upper * WORD + inner) as u128;
    assert(bits / WORD == upper && bits % WORD == inner) by (nonlinear_arith)
        requires
            bits == upper * WORD + inner,
            0 <= upper,
            inner < 0x1_0000_0000,
            WORD == 0x1_0000_0000u128,
    ;
}

/// The IPv4 address with these four octets.
pub open spec fn dotted(a: int, b: int, c: int, d: int) -> int {
    a * 0x100_0000 + b * 0x1_0000 + c * 0x100 + d
}

/// The IPv6 address whose first two groups are these, with zeros behind them.
pub open spec fn grouped(first: int, second: int) -> int {
    first * 0x1_0000_0000_0000_0000_0000_0000_0000 + second * 0x1_0000_0000_0000_0000_0000_0000
}

/// Exactly the addresses of these blocks are no public unicast hosts: each block
/// by its first address and the one behind its last.
pub proof fn law_special_purpose_blocks(address: u32, wide: u128)
    ensures
        special_purpose_v4(address) <==> ({
            ||| address < dotted(1, 0, 0, 0)
            ||| dotted(10, 0, 0, 0) <= address < dotted(11, 0, 0, 0)
            ||| dotted(100, 64, 0, 0) <= address < dotted(100, 128, 0, 0)
            ||| dotted(127, 0, 0, 0) <= address < dotted(128, 0, 0, 0)
            ||| dotted(168, 63, 129, 16) <= address < dotted(168, 63, 129, 17)
            ||| dotted(169, 254, 0, 0) <= address < dotted(169, 255, 0, 0)
            ||| dotted(172, 16, 0, 0) <= address < dotted(172, 32, 0, 0)
            ||| dotted(192, 0, 0, 0) <= address < dotted(192, 0, 1, 0)
            ||| dotted(192, 0, 2, 0) <= address < dotted(192, 0, 3, 0)
            ||| dotted(192, 88, 99, 0) <= address < dotted(192, 88, 100, 0)
            ||| dotted(192, 168, 0, 0) <= address < dotted(192, 169, 0, 0)
            ||| dotted(198, 18, 0, 0) <= address < dotted(198, 20, 0, 0)
            ||| dotted(198, 51, 100, 0) <= address < dotted(198, 51, 101, 0)
            ||| dotted(203, 0, 113, 0) <= address < dotted(203, 0, 114, 0)
            ||| dotted(224, 0, 0, 0) <= address
        }),
        special_purpose_v6(wide) <==> ({
            ||| wide < grouped(0x2000, 0)
            ||| grouped(0x2001, 0) <= wide < grouped(0x2001, 0x200)
            ||| grouped(0x2001, 0xdb8) <= wide < grouped(0x2001, 0xdb9)
            ||| grouped(0x2002, 0) <= wide < grouped(0x2003, 0)
            ||| grouped(0x3fff, 0) <= wide < grouped(0x3fff, 0x1000)
            ||| grouped(0x4000, 0) <= wide
        }),
{
}

/// An address without an IPv4 address inside is judged by its own block, and an
/// IPv4 address by its own.
pub proof fn law_plain_addresses_are_judged_by_their_block(
    address: u32,
    wide: u128,
    prefixes: Seq<Ipv6Network>,
)
    ensures
        forbidden_destination(IpAddress::V4(address), prefixes) <==> special_purpose_v4(address),
        (forall|inner: u32| !reaches_ipv4(IpAddress::V6(wide), prefixes, inner)) ==> (
        forbidden_destination(IpAddress::V6(wide), prefixes) <==> special_purpose_v6(wide)),
{
    if forall|inner: u32| !reaches_ipv4(IpAddress::V6(wide), prefixes, inner) {
        if embedded_ipv4(wide) is Some {
            assert(!reaches_ipv4(IpAddress::V6(wide), prefixes, embedded_ipv4(wide)->0));
        }
        if well_known_nat64_ipv4(wide) is Some {
            assert(!reaches_ipv4(IpAddress::V6(wide), prefixes, well_known_nat64_ipv4(wide)->0));
        }
        assert forall|inner: u32| !nat64_reaches(prefixes, wide, inner) by {
            assert(!reaches_ipv4(IpAddress::V6(wide), prefixes, inner));
        }
    }
}

/// An address behind a registered NAT64 prefix is forbidden as soon as one IPv4
/// address that it stands for is, and allowed where none is, though its own
/// block be special.
pub proof fn law_translated_addresses_are_judged_by_what_they_reach(
    wide: u128,
    prefixes: Seq<Ipv6Network>,
    at: int,
)
    requires
        0 <= at < prefixes.len(),
        nat64_ipv4(prefixes[at], wide) is Some,
        embedded_ipv4(wide) is None,
        well_known_nat64_ipv4(wide) is None,
    ensures
        special_purpose_v4(nat64_ipv4(prefixes[at], wide)->0) ==> forbidden_destination(
            IpAddress::V6(wide),
            prefixes,
        ),
        (forall|i: int|
            0 <= i < prefixes.len() ==> (nat64_ipv4(#[trigger] prefixes[i], wide) matches Some(
                inner,
            ) ==> !special_purpose_v4(inner))) ==> !forbidden_destination(
            IpAddress::V6(wide),
            prefixes,
        ),
{
    let inner = nat64_ipv4(prefixes[at], wide)->0;
    assert(nat64_reaches(prefixes, wide, inner));
}

/// The address that stands for an IPv4 address behind a NAT64 prefix of this
/// length: the octets of the IPv4 address follow the prefix, around the ninth
/// octet of the whole, which stays zero.
pub open spec fn nat64_spelling(prefix: Ipv6Network, inner: u32) -> u128 {
    let bits = inner as u128;
    let start = prefix.address;
    if prefix.prefix_len == 32 {
        (start >> 96u128 << 96u128) | (bits << 64u128)
    } else if prefix.prefix_len == 40 {
        (start >> 88u128 << 88u128) | (bits >> 8u128 << 64u128) | ((bits & 0xff) << 48u128)
    } else if prefix.prefix_len == 48 {
        (start >> 80u128 << 80u128) | (bits >> 16u128 << 64u128) | ((bits & 0xffff) << 40u128)
    } else if prefix.prefix_len == 56 {
        (start >> 72u128 << 72u128) | (bits >> 24u128 << 64u128) | ((bits & 0xff_ffff) << 32u128)
    } else if prefix.prefix_len == 64 {
        (start >> 64u128 << 64u128) | (bits << 24u128)
    } else {
        (start >> 32u128 << 32u128) | bits
    }
}

/// What an IPv4 address becomes behind a registered prefix of a length that
/// embeds one is read back as that address.
pub proof fn law_nat64_spellings_are_read_back(prefix: Ipv6Network, inner: u32)
    requires
        prefix.prefix_len == 32 || prefix.prefix_len == 40 || prefix.prefix_len == 48
            || prefix.prefix_len == 56 || prefix.prefix_len == 64 || prefix.prefix_len == 96,
    ensures
        nat64_ipv4(prefix, nat64_spelling(prefix, inner)) == Some(inner),
{
    let x = nat64_spelling(prefix, inner);
    let p = prefix.address;
    let bits = inner as u128;
    let a = inner / 0x100_0000;
    let b = inner / 0x1_0000 % 256;
    let c = inner / 0x100 % 256;
    let d = inner % 256;
    assert(bits >> 24u128 == a && (bits >> 16u128) & 0xff == b && (bits >> 8u128) & 0xff == c
        && bits & 0xff == d && bits <= 0xffff_ffff) by (bit_vector)
        requires
            bits == inner as u128,
            a == inner / 0x100_0000,
            b == (inner / 0x1_0000) % 256,
            c == (inner / 0x100) % 256,
            d == inner % 256,
    ;
    if prefix.prefix_len == 32 {
        assert(x >> 96u128 == p >> 96u128 && (x >> 88u128) & 0xff == bits >> 24u128 && (x >> 80u128)
            & 0xff == (bits >> 16u128) & 0xff && (x >> 72u128) & 0xff == (bits >> 8u128) & 0xff
            && (x >> 64u128) & 0xff == bits & 0xff) by (bit_vector)
            requires
                bits <= 0xffff_ffff,
                x == (p >> 96u128 << 96u128) | (bits << 64u128),
        ;
    } else if prefix.prefix_len == 40 {
        assert(x >> 88u128 == p >> 88u128 && (x >> 80u128) & 0xff == bits >> 24u128 && (x >> 72u128)
            & 0xff == (bits >> 16u128) & 0xff && (x >> 64u128) & 0xff == (bits >> 8u128) & 0xff
            && (x >> 48u128) & 0xff == bits & 0xff) by (bit_vector)
            requires
                bits <= 0xffff_ffff,
                x == (p >> 88u128 << 88u128) | (bits >> 8u128 << 64u128) | ((bits & 0xff)
                    << 48u128),
        ;
    } else if prefix.prefix_len == 48 {
        assert(x >> 80u128 == p >> 80u128 && (x >> 72u128) & 0xff == bits >> 24u128 && (x >> 64u128)
            & 0xff == (bits >> 16u128) & 0xff && (x >> 48u128) & 0xff == (bits >> 8u128) & 0xff
            && (x >> 40u128) & 0xff == bits & 0xff) by (bit_vector)
            requires
                bits <= 0xffff_ffff,
                x == (p >> 80u128 << 80u128) | (bits >> 16u128 << 64u128) | ((bits & 0xffff)
                    << 40u128),
        ;
    } else if prefix.prefix_len == 56 {
        assert(x >> 72u128 == p >> 72u128 && (x >> 64u128) & 0xff == bits >> 24u128 && (x >> 48u128)
            & 0xff == (bits >> 16u128) & 0xff && (x >> 40u128) & 0xff == (bits >> 8u128) & 0xff
            && (x >> 32u128) & 0xff == bits & 0xff) by (bit_vector)
            requires
                bits <= 0xffff_ffff,
                x == (p >> 72u128 << 72u128) | (bits >> 24u128 << 64u128) | ((bits & 0xff_ffff)
                    << 32u128),
        ;
    } else if prefix.prefix_len == 64 {
        assert(x >> 64u128 == p >> 64u128 && (x >> 48u128) & 0xff == bits >> 24u128 && (x >> 40u128)
            & 0xff == (bits >> 16u128) & 0xff && (x >> 32u128) & 0xff == (bits >> 8u128) & 0xff
            && (x >> 24u128) & 0xff == bits & 0xff) by (bit_vector)
            requires
                bits <= 0xffff_ffff,
                x == (p >> 64u128 << 64u128) | (bits << 24u128),
        ;
    } else {
        assert(x >> 32u128 == p >> 32u128 && (x >> 24u128) & 0xff == bits >> 24u128 && (x >> 16u128)
            & 0xff == (bits >> 16u128) & 0xff && (x >> 8u128) & 0xff == (bits >> 8u128) & 0xff
            && (x >> 0u128) & 0xff == bits & 0xff) by (bit_vector)
            requires
                bits <= 0xffff_ffff,
                x == (p >> 32u128 << 32u128) | bits,
        ;
    }
    assert(a < 256 && b < 256 && c < 256 && d < 256);
    assert(a * 0x100_0000 + b * 0x1_0000 + c * 0x100 + d == inner);
}

/// An address reaches an IPv4 address exactly if it is that address, or spells
/// it as `::ffff:`, `::` or `64:ff9b::` and the address, or a registered prefix
/// translates it to the address.
pub proof fn law_reached_addresses(wide: u128, prefixes: Seq<Ipv6Network>, inner: u32, other: u32)
    ensures
        reaches_ipv4(IpAddress::V4(other), prefixes, inner) <==> other == inner,
        reaches_ipv4(IpAddress::V6(wide), prefixes, inner) <==> ({
            ||| wide == 0xffff_0000_0000 + inner
            ||| wide == inner
            ||| wide == 0x0064_ff9b_0000_0000_0000_0000_0000_0000 + inner
            ||| exists|i: int|
                0 <= i < prefixes.len() && nat64_ipv4(#[trigger] prefixes[i], wide) == Some(inner)
        }),
{
    assert(wide == wide / WORD * WORD + wide % WORD) by (nonlinear_arith)
        requires
            WORD == 0x1_0000_0000u128,
    ;
    lemma_spelling(0xffff, inner);
    lemma_spelling(0, inner);
    lemma_spelling(0x0064_ff9b_0000_0000_0000_0000, inner);
}

} // verus!
