//! Link-layer and network-layer addresses as plain integers.

use vstd::prelude::*;
use vstd::array::array_as_slice;
use crate::bytes::{be_value, lemma_pow256_values, pow256, read_be};

verus! {

/// The all-ones hardware address.
pub const BROADCAST_MAC: u64 = 0xFFFF_FFFF_FFFF;

/// What one unit of the first octet of a hardware address is worth.
pub const FIRST_OCTET_UNIT: u64 = 0x100_0000_0000;

/// 127.0.0.1 as a big-endian number.
pub const LOOPBACK_V4: u32 = 0x7F00_0001;

/// ::1 as a big-endian number.
pub const LOOPBACK_V6: u128 = 1;

/// A 48-bit hardware address: its six octets read as one big-endian number.
#[derive(Debug, Clone, Copy, PartialEq, Eq, Structural)]
pub struct MacAddr {
    pub value: u64,
}

/// An IPv4 or IPv6 address: its octets read as one big-endian number.
#[derive(Debug, Clone, Copy, PartialEq, Eq, Structural)]
pub enum IpAddress {
    V4(u32),
    V6(u128),
}

impl MacAddr {
    /// Whether this is the broadcast address ff:ff:ff:ff:ff:ff.
    pub open spec fn spec_is_broadcast(&self) -> bool {
        self.value == BROADCAST_MAC
    }

    /// Whether the group bit, the lowest bit of the first octet, is set.
    pub open spec fn spec_is_multicast(&self) -> bool {
        (self.value / FIRST_OCTET_UNIT) % 2 == 1
    }

    /// The address with the given octets, in transmission order.
    pub fn new(a: u8, b: u8, c: u8, d: u8, e: u8, f: u8) -> (mac: MacAddr)
        ensures
            mac.value == be_value(seq![a, b, c, d, e, f]),
            mac.value < pow256(6),
            mac.value / FIRST_OCTET_UNIT == a,
    {
        proof {
            reveal_with_fuel(be_value, 7);
            lemma_pow256_values();
            let s = seq![a, b, c, d, e, f];
            assert(s.drop_last() =~= seq![a, b, c, d, e]);
            assert(s.drop_last().drop_last() =~= seq![a, b, c, d]);
            assert(s.drop_last().drop_last().drop_last() =~= seq![a, b, c]);
            assert(s.drop_last().drop_last().drop_last().drop_last() =~= seq![a, b]);
            assert(s.drop_last().drop_last().drop_last().drop_last().drop_last() =~= seq![a]);
        }
        let high: u64 = (a as u64) * 0x100 + b as u64;
        let mid: u64 = (c as u64) * 0x100 + d as u64;
        let low: u64 = (e as u64) * 0x100 + f as u64;
        MacAddr { value: (high * 0x1_0000 + mid) * 0x1_0000 + low }
    }

    /// The address that six octets spell, in transmission order.
    pub open spec fn of_octets(octets: [u8; 6]) -> MacAddr {
        MacAddr { value: be_value(octets@) as u64 }
    }

    /// The address with the given octets, in transmission order.
    pub fn from_octets(octets: &[u8; 6]) -> (mac: MacAddr)
        ensures
            mac == MacAddr::of_octets(*octets),
            mac.value == be_value(octets@),
    {
        let bytes = array_as_slice(octets);
        proof {
            lemma_pow256_values();
            assert(bytes@.subrange(0, 6) =~= octets@);
        }
        MacAddr { value: read_be(bytes, 0, 6) as u64 }
    }

    /// The broadcast address.
    pub fn broadcast() -> (mac: MacAddr)
        ensures
            mac.spec_is_broadcast(),
    {
        MacAddr { value: BROADCAST_MAC }
    }

    #[verifier::when_used_as_spec(spec_is_broadcast)]
    pub fn is_broadcast(&self) -> (r: bool)
        ensures
            r == self.spec_is_broadcast(),
    {
        self.value == BROADCAST_MAC
    }

    #[verifier::when_used_as_spec(spec_is_multicast)]
    pub fn is_multicast(&self) -> (r: bool)
        ensures
            r == self.spec_is_multicast(),
    {
        (self.value / FIRST_OCTET_UNIT) % 2 == 1
    }
}

/// The broadcast address is a group address.
pub proof fn law_broadcast_is_multicast(mac: MacAddr)
    requires
        mac.spec_is_broadcast(),
    ensures
        mac.spec_is_multicast(),
{
}

} // verus!
