//! The twenty octets of an IPv4 header without options.
pub mod checksum;

use super::address::{read_ipv4, write_ipv4, Ipv4Addr};
use super::protocol::Ipv4Protocol;
use crate::fail::Fail;
use crate::protocols::ethernet2::header::{be16, be16_bytes, read_u16, splice, write_u16};
use vstd::prelude::*;

verus! {

/// The size of an IPv4 header without options, in octets.
pub const IPV4_HEADER_SIZE: usize = 20;

/// The header length, in 32-bit words, of a header without options.
pub const IPV4_IHL_NO_OPTIONS: u8 = 5;

pub const IPV4_VERSION: u8 = 4;

/// The time to live that sealing writes.
pub const DEFAULT_IPV4_TTL: u8 = 64;

/// The largest value of a field of four bits.
pub const MAX_NIBBLE: u8 = 0xf;

/// The largest fragment offset: thirteen bits.
pub const MAX_FRAG_OFFSET: u16 = 0x1fff;

pub open spec fn version_of(h: Seq<u8>) -> int {
    h[0] as int / 16
}

pub open spec fn ihl_of(h: Seq<u8>) -> int {
    h[0] as int % 16
}

pub open spec fn dscp_of(h: Seq<u8>) -> int {
    h[1] as int / 4
}

pub open spec fn ecn_of(h: Seq<u8>) -> int {
    h[1] as int % 4
}

pub open spec fn total_len_of(h: Seq<u8>) -> int {
    be16(h, 2)
}

pub open spec fn id_of(h: Seq<u8>) -> int {
    be16(h, 4)
}

pub open spec fn flags_of(h: Seq<u8>) -> int {
    h[6] as int / 32
}

pub open spec fn frag_offset_of(h: Seq<u8>) -> int {
    (h[6] as int % 32) * 256 + h[7] as int
}

pub open spec fn ttl_of(h: Seq<u8>) -> int {
    h[8] as int
}

pub open spec fn protocol_of(h: Seq<u8>) -> Option<Ipv4Protocol> {
    Ipv4Protocol::from_code(h[9])
}

pub open spec fn checksum_of(h: Seq<u8>) -> int {
    be16(h, 10)
}

pub open spec fn src_addr_of(h: Seq<u8>) -> Ipv4Addr {
    Ipv4Addr::from_seq(h.subrange(12, 16))
}

pub open spec fn dest_addr_of(h: Seq<u8>) -> Ipv4Addr {
    Ipv4Addr::from_seq(h.subrange(16, 20))
}

/// A read-only view of the twenty octets of an IPv4 header.
pub struct Ipv4Header<'a> {
    bytes: &'a [u8],
}

impl<'a> Ipv4Header<'a> {
    /// The octets of the header.
    pub closed spec fn view(&self) -> Seq<u8> {
        self.bytes@
    }

    pub open spec fn wf(&self) -> bool {
        self@.len() == IPV4_HEADER_SIZE
    }

    pub fn new(bytes: &'a [u8]) -> (r: Ipv4Header<'a>)
        requires
            bytes@.len() == IPV4_HEADER_SIZE,
        ensures
            r@ == bytes@,
            r.wf(),
    {
        Ipv4Header { bytes }
    }

    pub fn as_bytes(&self) -> (r: &'a [u8])
        ensures
            r@ == self@,
    {
        self.bytes
    }

    pub fn version(&self) -> (r: u8)
        requires
            self.wf(),
        ensures
            r == version_of(self@),
    {
        self.bytes[0] / 16
    }

    /// The header length in 32-bit words.
    pub fn ihl(&self) -> (r: u8)
        requires
            self.wf(),
        ensures
            r == ihl_of(self@),
    {
        self.bytes[0] % 16
    }

    pub fn dscp(&self) -> (r: u8)
        requires
            self.wf(),
        ensures
            r == dscp_of(self@),
    {
        self.bytes[1] / 4
    }

    pub fn ecn(&self) -> (r: u8)
        requires
            self.wf(),
        ensures
            r == ecn_of(self@),
    {
        self.bytes[1] % 4
    }

    /// The length of header and payload together, as the header states it.
    pub fn total_len(&self) -> (r: usize)
        requires
            self.wf(),
        ensures
            r == total_len_of(self@),
    {
        read_u16(self.bytes, 2) as usize
    }

    pub fn id(&self) -> (r: u16)
        requires
            self.wf(),
        ensures
            r == id_of(self@),
    {
        read_u16(self.bytes, 4)
    }

    pub fn flags(&self) -> (r: u8)
        requires
            self.wf(),
        ensures
            r == flags_of(self@),
    {
        self.bytes[6] / 32
    }

    pub fn frag_offset(&self) -> (r: u16)
        requires
            self.wf(),
        ensures
            r == frag_offset_of(self@),
    {
        let hi: u16 = (self.bytes[6] % 32) as u16;
        let lo: u16 = self.bytes[7] as u16;
        hi * 256 + lo
    }

    pub fn ttl(&self) -> (r: u8)
        requires
            self.wf(),
        ensures
            r == ttl_of(self@),
    {
        self.bytes[8]
    }

    /// The transport protocol. An unknown number is `Unsupported`.
    pub fn protocol(&self) -> (r: Result<Ipv4Protocol, Fail>)
        requires
            self.wf(),
        ensures
            r == match protocol_of(self@) {
                Some(p) => Ok::<Ipv4Protocol, Fail>(p),
                None => Err(Fail::Unsupported),
            },
    {
        Ipv4Protocol::try_from_u8(self.bytes[9])
    }

    pub fn checksum(&self) -> (r: u16)
        requires
            self.wf(),
        ensures
            r == checksum_of(self@),
    {
        read_u16(self.bytes, 10)
    }

    pub fn src_addr(&self) -> (r: Ipv4Addr)
        requires
            self.wf(),
        ensures
            r == src_addr_of(self@),
    {
        read_ipv4(self.bytes, 12)
    }

    pub fn dest_addr(&self) -> (r: Ipv4Addr)
        requires
            self.wf(),
        ensures
            r == dest_addr_of(self@),
    {
        read_ipv4(self.bytes, 16)
    }
}

/// A view of the twenty octets of an IPv4 header that can write them.
/// `bytes` is the borrowed range itself.
pub struct Ipv4HeaderMut<'a> {
    pub bytes: &'a mut [u8],
}

impl<'a> Ipv4HeaderMut<'a> {
    pub open spec fn wf(&self) -> bool {
        self.bytes@.len() == IPV4_HEADER_SIZE
    }

    pub fn new(bytes: &'a mut [u8]) -> (r: Ipv4HeaderMut<'a>)
        requires
            old(bytes)@.len() == IPV4_HEADER_SIZE,
        ensures
            r.bytes@ == old(bytes)@,
            final(r.bytes)@ == final(bytes)@,
            r.wf(),
    {
        Ipv4HeaderMut { bytes }
    }

    pub fn as_bytes(&self) -> (r: &[u8])
        ensures
            r@ == old(self.bytes)@,
    {
        &*self.bytes
    }

    pub fn version(&mut self, value: u8)
        requires
            old(self).wf(),
            value <= MAX_NIBBLE,
        ensures
            final(self).bytes@ == old(self).bytes@.update(
                0,
                (value * 16 + old(self).bytes@[0] % 16) as u8,
            ),
            final(final(self).bytes)@ == final(old(self).bytes)@,
    {
        let low: u8 = self.bytes[0] % 16;
        self.bytes[0] = value * 16 + low;
    }

    pub fn ihl(&mut self, value: u8)
        requires
            old(self).wf(),
            value <= MAX_NIBBLE,
        ensures
            final(self).bytes@ == old(self).bytes@.update(
                0,
                ((old(self).bytes@[0] / 16) * 16 + value) as u8,
            ),
            final(final(self).bytes)@ == final(old(self).bytes)@,
    {
        let high: u8 = self.bytes[0] / 16;
        self.bytes[0] = high * 16 + value;
    }

    pub fn dscp(&mut self, value: u8)
        requires
            old(self).wf(),
            value < 64,
        ensures
            final(self).bytes@ == old(self).bytes@.update(
                1,
                (value * 4 + old(self).bytes@[1] % 4) as u8,
            ),
            final(final(self).bytes)@ == final(old(self).bytes)@,
    {
        let low: u8 = self.bytes[1] % 4;
        self.bytes[1] = value * 4 + low;
    }

    pub fn ecn(&mut self, value: u8)
        requires
            old(self).wf(),
            value < 4,
        ensures
            final(self).bytes@ == old(self).bytes@.update(
                1,
                ((old(self).bytes@[1] / 4) * 4 + value) as u8,
            ),
            final(final(self).bytes)@ == final(old(self).bytes)@,
    {
        let high: u8 = self.bytes[1] / 4;
        self.bytes[1] = high * 4 + value;
    }

    pub fn total_len(&mut self, value: u16)
        requires
            old(self).wf(),
        ensures
            final(self).bytes@ == splice(old(self).bytes@, 2, be16_bytes(value as int)),
            final(final(self).bytes)@ == final(old(self).bytes)@,
    {
        write_u16(self.bytes, 2, value);
    }

    pub fn id(&mut self, value: u16)
        requires
            old(self).wf(),
        ensures
            final(self).bytes@ == splice(old(self).bytes@, 4, be16_bytes(value as int)),
            final(final(self).bytes)@ == final(old(self).bytes)@,
    {
        write_u16(self.bytes, 4, value);
    }

    pub fn flags(&mut self, value: u8)
        requires
            old(self).wf(),
            value < 8,
        ensures
            final(self).bytes@ == old(self).bytes@.update(
                6,
                (value * 32 + old(self).bytes@[6] % 32) as u8,
            ),
            final(final(self).bytes)@ == final(old(self).bytes)@,
    {
        let low: u8 = self.bytes[6] % 32;
        self.bytes[6] = value * 32 + low;
    }

    pub fn frag_offset(&mut self, value: u16)
        requires
            old(self).wf(),
            value <= MAX_FRAG_OFFSET,
        ensures
            final(self).bytes@ == old(self).bytes@.update(
                6,
                ((old(self).bytes@[6] / 32) * 32 + value / 256) as u8,
            ).update(7, (value % 256) as u8),
            final(final(self).bytes)@ == final(old(self).bytes)@,
    {
        let high: u8 = self.bytes[6] / 32;
        let upper: u8 = (value / 256) as u8;
        self.bytes[6] = high * 32 + upper;
        self.bytes[7] = (value % 256) as u8;
    }

    pub fn ttl(&mut self, value: u8)
        requires
            old(self).wf(),
        ensures
            final(self).bytes@ == old(self).bytes@.update(8, value),
            final(final(self).bytes)@ == final(old(self).bytes)@,
    {
        self.bytes[8] = value;
    }

    pub fn protocol(&mut self, value: Ipv4Protocol)
        requires
            old(self).wf(),
        ensures
            final(self).bytes@ == old(self).bytes@.update(9, value.code() as u8),
            protocol_of(final(self).bytes@) == Some(value),
            final(final(self).bytes)@ == final(old(self).bytes)@,
    {
        self.bytes[9] = value.to_u8();
    }

    pub fn checksum(&mut self, value: u16)
        requires
            old(self).wf(),
        ensures
            final(self).bytes@ == splice(old(self).bytes@, 10, be16_bytes(value as int)),
            final(final(self).bytes)@ == final(old(self).bytes)@,
    {
        write_u16(self.bytes, 10, value);
    }

    pub fn src_addr(&mut self, addr: Ipv4Addr)
        requires
            old(self).wf(),
        ensures
            final(self).bytes@ == splice(old(self).bytes@, 12, addr@),
            final(final(self).bytes)@ == final(old(self).bytes)@,
    {
        write_ipv4(self.bytes, 12, addr);
    }

    pub fn dest_addr(&mut self, addr: Ipv4Addr)
        requires
            old(self).wf(),
        ensures
            final(self).bytes@ == splice(old(self).bytes@, 16, addr@),
            final(final(self).bytes)@ == final(old(self).bytes)@,
    {
        write_ipv4(self.bytes, 16, addr);
    }
}

} // verus!
