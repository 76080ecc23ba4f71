//! Internet addresses as the numbers that their octets spell in network order.
use vstd::prelude::*;

verus! {

/// An IPv4 address: four octets, held as the 32-bit number they spell in network order.
#[derive(Clone, Copy, Debug, PartialEq, Eq, Structural, Hash)]
pub struct Ipv4Addr {
    bits: u32,
}

/// An IPv6 address: sixteen octets, held as the 128-bit number they spell in network
/// order.
#[derive(Clone, Copy, Debug, PartialEq, Eq, Structural, Hash)]
pub struct Ipv6Addr {
    bits: u128,
}

/// An address of either family.
#[derive(Clone, Copy, Debug, PartialEq, Eq, Structural, Hash)]
pub enum IpAddr {
    V4(Ipv4Addr),
    V6(Ipv6Addr),
}

impl Ipv4Addr {
    /// The number that the address's octets spell.
    pub closed spec fn view(&self) -> u32 {
        self.bits
    }

    pub fn from_bits(bits: u32) -> (addr: Ipv4Addr)
        ensures
            addr@ == bits,
    {
        Ipv4Addr { bits }
    }

    pub fn to_bits(&self) -> (bits: u32)
        ensures
            bits == self@,
    {
        self.bits
    }

    /// Whether this is the all-zero address, which stands for "no address" on the wire.
    pub fn is_unspecified(&self) -> (r: bool)
        ensures
            r == (self@ == 0),
    {
        self.bits == 0
    }
}

impl Ipv6Addr {
    /// The number that the address's octets spell.
    pub closed spec fn view(&self) -> u128 {
        self.bits
    }

    pub fn from_bits(bits: u128) -> (addr: Ipv6Addr)
        ensures
            addr@ == bits,
    {
        Ipv6Addr { bits }
    }

    pub fn to_bits(&self) -> (bits: u128)
        ensures
            bits == self@,
    {
        self.bits
    }

    /// Whether this is the all-zero address, which stands for "no address" on the wire.
    pub fn is_unspecified(&self) -> (r: bool)
        ensures
            r == (self@ == 0),
    {
        self.bits == 0
    }
}

} // verus!
