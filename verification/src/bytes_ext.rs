//! Reads and writes of the fixed-width wire fields that the buffers of the `bytes` crate
//! do not offer themselves: 24-bit numbers, IPv4 and IPv6 addresses, addresses that may be
//! absent, and MAC addresses.
//!
//! Each read comes in two forms. The `try_get_*` form is for input of unknown length: it
//! fails, and leaves the cursor where it was, when fewer octets are left than the field
//! has. The `get_*` form is for callers that have already checked the length, and says so
//! in its `requires`.
use vstd::prelude::*;
use ::arbitrary::Unstructured;
use ::bytes::{Bytes, BytesMut, TryGetError};
use crate::cursor::{
    fixed_read, put_slice, put_u128, put_u32, try_copy_to_array, try_get_u128, try_get_u32,
    unread, written,
};
use crate::endian::{
    be_octets, be_value, lemma_be_octets_3, lemma_be_octets_len, lemma_be_value_3,
    lemma_be_value_of_octets, lemma_pow256_values,
};
use crate::entropy::entropy;
use crate::ip::{IpAddr, Ipv4Addr, Ipv6Addr};
use crate::mac_addr::MacAddr;

verus! {

/// The octets that a 24-bit field holds for `n`: the three low octets of `n` in network
/// order. Whatever `n` has above them is dropped.
pub open spec fn u24_octets(n: u32) -> Seq<u8> {
    be_octets(n as nat, 3)
}

/// The octets that stand for an address of either family on the wire.
pub open spec fn ip_octets(addr: IpAddr) -> Seq<u8> {
    match addr {
        IpAddr::V4(a) => be_octets(a@ as nat, 4),
        IpAddr::V6(a) => be_octets(a@ as nat, 16),
    }
}

// Extension methods for Bytes.
pub trait BytesExt: Sized {
    /// The octets between the cursor and the end of the buffer.
    spec fn rest(&self) -> Seq<u8>;

    /// Generate a value of `Bytes` from the given unstructured data: a buffer that holds
    /// all the raw octets that are left, which are used up.
    fn arbitrary(u: &mut Unstructured<'_>) -> (r: Result<Bytes, ::arbitrary::Error>)
        ensures
            r is Ok,
            unread(r->Ok_0) == entropy(*old(u)),
            entropy(*final(u)) == Seq::<u8>::empty(),
    ;

    /// Gets an unsigned 24 bit integer from `self` in the big-endian byte order.
    ///
    /// The current position is advanced by 3.
    fn get_u24(&mut self) -> (n: u32)
        requires
            old(self).rest().len() >= 3,
        ensures
            n == be_value(old(self).rest().take(3)),
            n <= 0xFF_FFFF,
            final(self).rest() == old(self).rest().skip(3),
    ;

    /// Gets an unsigned 24 bit integer from `self` in the big-endian byte order.
    ///
    /// The current position is advanced by 3.
    ///
    /// Returns `Err(TryGetError)` when there are not enough remaining bytes to
    /// read the value.
    fn try_get_u24(&mut self) -> (r: Result<u32, TryGetError>)
        ensures
            fixed_read(old(self).rest(), final(self).rest(), r, 3),
            r is Ok ==> r->Ok_0 == be_value(old(self).rest().take(3)) && r->Ok_0 <= 0xFF_FFFF,
    ;

    /// Gets an IPv4 address from `self` in big-endian byte order.
    ///
    /// The current position is advanced by 4.
    fn get_ipv4(&mut self) -> (addr: Ipv4Addr)
        requires
            old(self).rest().len() >= 4,
        ensures
            addr@ == be_value(old(self).rest().take(4)),
            final(self).rest() == old(self).rest().skip(4),
    ;

    /// Gets an IPv4 address from `self` in big-endian byte order.
    ///
    /// The current position is advanced by 4.
    ///
    /// Returns `Err(TryGetError)` when there are not enough remaining bytes to
    /// read the value.
    fn try_get_ipv4(&mut self) -> (r: Result<Ipv4Addr, TryGetError>)
        ensures
            fixed_read(old(self).rest(), final(self).rest(), r, 4),
            r is Ok ==> r->Ok_0@ == be_value(old(self).rest().take(4)),
    ;

    /// Gets an optional IPv4 address from `self` in big-endian byte order: none where
    /// the four octets are all zero.
    ///
    /// The current position is advanced by 4.
    fn get_opt_ipv4(&mut self) -> (addr: Option<Ipv4Addr>)
        requires
            old(self).rest().len() >= 4,
        ensures
            addr is Some <==> be_value(old(self).rest().take(4)) != 0,
            addr is Some ==> addr->Some_0@ == be_value(old(self).rest().take(4)),
            final(self).rest() == old(self).rest().skip(4),
    ;

    /// Gets an optional IPv4 address from `self` in big-endian byte order: none where
    /// the four octets are all zero.
    ///
    /// The current position is advanced by 4.
    ///
    /// Returns `Err(TryGetError)` when there are not enough remaining bytes to
    /// read the value.
    fn try_get_opt_ipv4(&mut self) -> (r: Result<Option<Ipv4Addr>, TryGetError>)
        ensures
            fixed_read(old(self).rest(), final(self).rest(), r, 4),
            r is Ok ==> (r->Ok_0 is Some <==> be_value(old(self).rest().take(4)) != 0),
            r is Ok && r->Ok_0 is Some ==> r->Ok_0->Some_0@ == be_value(
                old(self).rest().take(4),
            ),
    ;

    /// Gets an IPv6 address from `self` in big-endian byte order.
    ///
    /// The current position is advanced by 16.
    fn get_ipv6(&mut self) -> (addr: Ipv6Addr)
        requires
            old(self).rest().len() >= 16,
        ensures
            addr@ == be_value(old(self).rest().take(16)),
            final(self).rest() == old(self).rest().skip(16),
    ;

    /// Gets an IPv6 address from `self` in big-endian byte order.
    ///
    /// The current position is advanced by 16.
    ///
    /// Returns `Err(TryGetError)` when there are not enough remaining bytes to
    /// read the value.
    fn try_get_ipv6(&mut self) -> (r: Result<Ipv6Addr, TryGetError>)
        ensures
            fixed_read(old(self).rest(), final(self).rest(), r, 16),
            r is Ok ==> r->Ok_0@ == be_value(old(self).rest().take(16)),
    ;

    /// Gets an optional IPv6 address from `self` in big-endian byte order: none where
    /// the sixteen octets are all zero.
    ///
    /// The current position is advanced by 16.
    fn get_opt_ipv6(&mut self) -> (addr: Option<Ipv6Addr>)
        requires
            old(self).rest().len() >= 16,
        ensures
            addr is Some <==> be_value(old(self).rest().take(16)) != 0,
            addr is Some ==> addr->Some_0@ == be_value(old(self).rest().take(16)),
            final(self).rest() == old(self).rest().skip(16),
    ;

    /// Gets an optional IPv6 address from `self` in big-endian byte order: none where
    /// the sixteen octets are all zero.
    ///
    /// The current position is advanced by 16.
    ///
    /// Returns `Err(TryGetError)` when there are not enough remaining bytes to
    /// read the value.
    fn try_get_opt_ipv6(&mut self) -> (r: Result<Option<Ipv6Addr>, TryGetError>)
        ensures
            fixed_read(old(self).rest(), final(self).rest(), r, 16),
            r is Ok ==> (r->Ok_0 is Some <==> be_value(old(self).rest().take(16)) != 0),
            r is Ok && r->Ok_0 is Some ==> r->Ok_0->Some_0@ == be_value(
                old(self).rest().take(16),
            ),
    ;

    /// Gets a MAC address from `self`.
    ///
    /// The current position is advanced by 6.
    fn get_mac(&mut self) -> (addr: MacAddr)
        requires
            old(self).rest().len() >= 6,
        ensures
            addr@ == old(self).rest().take(6),
            final(self).rest() == old(self).rest().skip(6),
    ;

    /// Gets a MAC address from `self`.
    ///
    /// The current position is advanced by 6.
    ///
    /// Returns `Err(TryGetError)` when there are not enough remaining bytes to
    /// read the value.
    fn try_get_mac(&mut self) -> (r: Result<MacAddr, TryGetError>)
        ensures
            fixed_read(old(self).rest(), final(self).rest(), r, 6),
            r is Ok ==> r->Ok_0@ == old(self).rest().take(6),
    ;
}

// Extension methods for BytesMut.
pub trait BytesMutExt: Sized {
    /// The octets written to the buffer so far.
    spec fn contents(&self) -> Seq<u8>;

    /// Writes an unsigned 24 bit integer to `self` in big-endian byte order. Only the low
    /// 24 bits of `n` are written.
    ///
    /// The current position is advanced by 3.
    fn put_u24(&mut self, n: u32)
        requires
            old(self).contents().len() + 3 <= isize::MAX,
        ensures
            final(self).contents() == old(self).contents() + u24_octets(n),
    ;

    /// Writes an IP address to `self` in big-endian byte order.
    ///
    /// The current position is advanced by 4 or 16.
    fn put_ip(&mut self, addr: &IpAddr)
        requires
            old(self).contents().len() + ip_octets(*addr).len() <= isize::MAX,
        ensures
            final(self).contents() == old(self).contents() + ip_octets(*addr),
    ;

    /// Writes an IPv4 address to `self` in big-endian byte order.
    ///
    /// The current position is advanced by 4.
    fn put_ipv4(&mut self, addr: &Ipv4Addr)
        requires
            old(self).contents().len() + 4 <= isize::MAX,
        ensures
            final(self).contents() == old(self).contents() + be_octets(addr@ as nat, 4),
    ;

    /// Writes an IPv6 address to `self` in big-endian byte order.
    ///
    /// The current position is advanced by 16.
    fn put_ipv6(&mut self, addr: &Ipv6Addr)
        requires
            old(self).contents().len() + 16 <= isize::MAX,
        ensures
            final(self).contents() == old(self).contents() + be_octets(addr@ as nat, 16),
    ;

    /// Writes a MAC address to `self`.
    ///
    /// The current position is advanced by 6.
    fn put_mac(&mut self, addr: &MacAddr)
        requires
            old(self).contents().len() + 6 <= isize::MAX,
        ensures
            final(self).contents() == old(self).contents() + addr@,
    ;
}

// ===== impl Bytes =====

impl BytesExt for Bytes {
    open spec fn rest(&self) -> Seq<u8> {
        unread(*self)
    }

    fn arbitrary(u: &mut Unstructured<'_>) -> (r: Result<Bytes, ::arbitrary::Error>) {
        let len = u.len();
        match u.bytes(len) {
            Ok(bytes) => {
                assert(entropy(*old(u)).take(len as int) =~= entropy(*old(u)));
                assert(entropy(*old(u)).skip(len as int) =~= Seq::<u8>::empty());
                Ok(Bytes::copy_from_slice(bytes))
            },
            Err(e) => Err(e),
        }
    }

    fn get_u24(&mut self) -> (n: u32) {
        self.try_get_u24().unwrap()
    }

    fn try_get_u24(&mut self) -> (r: Result<u32, TryGetError>) {
        match try_copy_to_array::<3>(self) {
            Ok(n) => {
                proof {
                    lemma_be_value_3(n@);
                }
                Ok(n[0] as u32 * 0x1_0000 + n[1] as u32 * 0x100 + n[2] as u32)
            },
            Err(e) => Err(e),
        }
    }

    fn get_ipv4(&mut self) -> (addr: Ipv4Addr) {
        self.try_get_ipv4().unwrap()
    }

    fn try_get_ipv4(&mut self) -> (r: Result<Ipv4Addr, TryGetError>) {
        match try_get_u32(self) {
            Ok(bytes) => Ok(Ipv4Addr::from_bits(bytes)),
            Err(e) => Err(e),
        }
    }

    fn get_opt_ipv4(&mut self) -> (addr: Option<Ipv4Addr>) {
        self.try_get_opt_ipv4().unwrap()
    }

    fn try_get_opt_ipv4(&mut self) -> (r: Result<Option<Ipv4Addr>, TryGetError>) {
        match try_get_u32(self) {
            Ok(bytes) => {
                let addr = Ipv4Addr::from_bits(bytes);
                if addr.is_unspecified() {
                    Ok(None)
                } else {
                    Ok(Some(addr))
                }
            },
            Err(e) => Err(e),
        }
    }

    fn get_ipv6(&mut self) -> (addr: Ipv6Addr) {
        self.try_get_ipv6().unwrap()
    }

    fn try_get_ipv6(&mut self) -> (r: Result<Ipv6Addr, TryGetError>) {
        match try_get_u128(self) {
            Ok(bytes) => Ok(Ipv6Addr::from_bits(bytes)),
            Err(e) => Err(e),
        }
    }

    fn get_opt_ipv6(&mut self) -> (addr: Option<Ipv6Addr>) {
        self.try_get_opt_ipv6().unwrap()
    }

    fn try_get_opt_ipv6(&mut self) -> (r: Result<Option<Ipv6Addr>, TryGetError>) {
        match try_get_u128(self) {
            Ok(bytes) => {
                let addr = Ipv6Addr::from_bits(bytes);
                if addr.is_unspecified() {
                    Ok(None)
                } else {
                    Ok(Some(addr))
                }
            },
            Err(e) => Err(e),
        }
    }

    fn get_mac(&mut self) -> (addr: MacAddr) {
        self.try_get_mac().unwrap()
    }

    fn try_get_mac(&mut self) -> (r: Result<MacAddr, TryGetError>) {
        match try_copy_to_array::<6>(self) {
            Ok(bytes) => Ok(MacAddr::new(bytes)),
            Err(e) => Err(e),
        }
    }
}

// ===== impl BytesMut =====

impl BytesMutExt for BytesMut {
    open spec fn contents(&self) -> Seq<u8> {
        written(*self)
    }

    fn put_u24(&mut self, n: u32) {
        let octets: [u8; 3] = [
            ((n / 0x1_0000) % 0x100) as u8,
            ((n / 0x100) % 0x100) as u8,
            (n % 0x100) as u8,
        ];
        proof {
            lemma_be_octets_3(n as nat);
            assert(octets@ =~= u24_octets(n));
        }
        put_slice(self, octets.as_slice());
    }

    fn put_ip(&mut self, addr: &IpAddr) {
        proof {
            match *addr {
                IpAddr::V4(a) => lemma_be_octets_len(a@ as nat, 4),
                IpAddr::V6(a) => lemma_be_octets_len(a@ as nat, 16),
            }
        }
        match addr {
            IpAddr::V4(addr) => self.put_ipv4(addr),
            IpAddr::V6(addr) => self.put_ipv6(addr),
        }
    }

    fn put_ipv4(&mut self, addr: &Ipv4Addr) {
        put_u32(self, addr.to_bits())
    }

    fn put_ipv6(&mut self, addr: &Ipv6Addr) {
        put_u128(self, addr.to_bits())
    }

    fn put_mac(&mut self, addr: &MacAddr) {
        let octets = addr.as_bytes();
        proof {
            addr.lemma_len();
        }
        put_slice(self, octets.as_slice())
    }
}

/// Writing a 32-bit number as a 24-bit field and reading the field back gives the number's
/// low 24 bits, for every number: the field is three octets long, and a read at the front
/// of these octets, whatever follows them, gives `n & 0xFFFFFF` and stops behind them.
pub proof fn lemma_u24_round_trip(n: u32, tail: Seq<u8>)
    ensures
        u24_octets(n).len() == 3,
        be_value((u24_octets(n) + tail).take(3)) == n & 0xFF_FFFF,
        (u24_octets(n) + tail).skip(3) == tail,
{
    lemma_be_octets_len(n as nat, 3);
    lemma_be_value_of_octets(n as nat, 3);
    lemma_pow256_values();
    assert((u24_octets(n) + tail).take(3) =~= u24_octets(n));
    assert((u24_octets(n) + tail).skip(3) =~= tail);
    assert(n % 0x100_0000 == n & 0xFF_FFFF) by (bit_vector);
}

} // verus!
