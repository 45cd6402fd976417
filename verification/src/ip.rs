//! Plain-value model of IPv4 addresses and CIDR subnets.
//!
//! The wire types of the protocol engine are kept out of the routing logic;
//! an address is its 32-bit value, and a subnet is an address plus a prefix
//! length. Only what the routing table reads is modelled.

use vstd::prelude::*;

verus! {

/// An IPv4 address as its 32-bit big-endian value.
#[derive(Clone, Copy, Debug, PartialEq, Eq, Structural)]
pub struct Ipv4Addr {
    pub bits: u32,
}

impl Ipv4Addr {
    /// The mathematical value of the four dotted octets.
    pub open spec fn spec_from_octets(a: u8, b: u8, c: u8, d: u8) -> Ipv4Addr {
        Ipv4Addr {
            bits: ((a as int) * 0x100_0000 + (b as int) * 0x1_0000 + (c as int) * 0x100
                + (d as int)) as u32,
        }
    }

    /// Builds the address `a.b.c.d`.
    pub fn from_octets(a: u8, b: u8, c: u8, d: u8) -> (r: Ipv4Addr)
        ensures
            r == Ipv4Addr::spec_from_octets(a, b, c, d),
    {
        Ipv4Addr {
            bits: (a as u32) * 0x100_0000 + (b as u32) * 0x1_0000 + (c as u32) * 0x100
                + (d as u32),
        }
    }

    /// The unspecified address `0.0.0.0`.
    pub fn unspecified() -> (r: Ipv4Addr)
        ensures
            r.bits == 0,
    {
        Ipv4Addr { bits: 0 }
    }
}

/// The bit mask selecting the `prefix` leading bits of an address.
pub open spec fn prefix_mask(prefix: u8) -> u32
    recommends
        prefix <= 32,
{
    if prefix == 0 {
        0u32
    } else {
        (0xffff_ffffu32 << ((32 - prefix) as u32)) as u32
    }
}

/// An IPv4 subnet in CIDR notation: a base address and a prefix length.
#[derive(Clone, Copy, Debug, PartialEq, Eq, Structural)]
pub struct Ipv4Cidr {
    pub base: Ipv4Addr,
    pub prefix: u8,
}

impl Ipv4Cidr {
    /// A subnet is well formed when its prefix length fits an address.
    pub open spec fn wf(self) -> bool {
        self.prefix <= 32
    }

    /// Whether `addr` lies inside the subnet: the leading `prefix` bits agree.
    pub open spec fn spec_contains(self, addr: Ipv4Addr) -> bool {
        addr.bits & prefix_mask(self.prefix) == self.base.bits & prefix_mask(self.prefix)
    }

    /// Builds the subnet `base/prefix`.
    pub fn new(base: Ipv4Addr, prefix: u8) -> (r: Ipv4Cidr)
        requires
            prefix <= 32,
        ensures
            r == (Ipv4Cidr { base, prefix }),
            r.wf(),
    {
        Ipv4Cidr { base, prefix }
    }

    /// Decides membership of `addr` in the subnet.
    pub fn contains(&self, addr: Ipv4Addr) -> (r: bool)
        requires
            self.wf(),
        ensures
            r == self.spec_contains(addr),
    {
        let mask: u32 = if self.prefix == 0 {
            0
        } else {
            0xffff_ffffu32 << ((32 - self.prefix) as u32)
        };
        assert(mask == prefix_mask(self.prefix));
        (addr.bits & mask) == (self.base.bits & mask)
    }
}

/// Every address lies in the default subnet `0.0.0.0/0`.
pub proof fn lemma_default_subnet_contains_all(addr: Ipv4Addr)
    ensures
        (Ipv4Cidr { base: Ipv4Addr { bits: 0 }, prefix: 0 }).spec_contains(addr),
{
    assert(addr.bits & 0u32 == 0u32 & 0u32) by (bit_vector);
}

} // verus!
