//! Link-layer addresses.
use vstd::prelude::*;

verus! {

/// A MAC address: six octets in transmission order.
#[derive(Clone, Copy, Debug, PartialEq, Eq, Hash)]
pub struct MacAddr {
    octets: [u8; 6],
}

impl MacAddr {
    /// The number of octets of an address.
    pub const LENGTH: usize = 6;

    /// The six octets, in order.
    pub closed spec fn view(&self) -> Seq<u8> {
        self.octets@
    }

    pub fn new(octets: [u8; 6]) -> (addr: MacAddr)
        ensures
            addr@ == octets@,
    {
        MacAddr { octets }
    }

    pub fn as_bytes(&self) -> (octets: [u8; 6])
        ensures
            octets@ == self@,
    {
        self.octets
    }

    /// Every address has six octets.
    pub proof fn lemma_len(&self)
        ensures
            self@.len() == 6,
    {
    }
}

} // verus!
