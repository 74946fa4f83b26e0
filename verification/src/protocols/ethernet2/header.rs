use super::mac_address::MacAddress;
use crate::fail::Fail;
use vstd::prelude::*;

verus! {

/// The size of an Ethernet II header in octets.
pub const HEADER_SIZE: usize = 14;

/// The payload protocols that the engine knows.
#[derive(Clone, Copy, Debug, PartialEq, Eq, Hash, Structural)]
pub enum EtherType {
    Arp,
    Ipv4,
}

impl EtherType {
    /// The number that stands for the protocol on the wire.
    pub open spec fn code(self) -> int {
        match self {
            EtherType::Arp => 0x0806,
            EtherType::Ipv4 => 0x0800,
        }
    }

    /// The protocol that a wire number stands for, if it is a known one.
    pub open spec fn from_code(code: int) -> Option<EtherType> {
        if code == 0x0806 {
            Some(EtherType::Arp)
        } else if code == 0x0800 {
            Some(EtherType::Ipv4)
        } else {
            None
        }
    }

    pub fn to_u16(self) -> (r: u16)
        ensures
            r == self.code(),
    {
        match self {
            EtherType::Arp => 0x0806,
            EtherType::Ipv4 => 0x0800,
        }
    }

    /// Reads a wire number. An unknown number is `Unsupported`.
    pub fn try_from_u16(n: u16) -> (r: Result<EtherType, Fail>)
        ensures
            r == match EtherType::from_code(n as int) {
                Some(t) => Ok::<EtherType, Fail>(t),
                None => Err(Fail::Unsupported),
            },
    {
        if n == 0x0806 {
            Ok(EtherType::Arp)
        } else if n == 0x0800 {
            Ok(EtherType::Ipv4)
        } else {
            Err(Fail::Unsupported)
        }
    }

    /// The number of an EtherType stands for that EtherType, and fits in
    /// sixteen bits.
    pub proof fn law_code_roundtrip(self)
        ensures
            EtherType::from_code(self.code()) == Some(self),
            0 <= self.code() < 0x1_0000,
    {
    }
}

/// The 16-bit number that the octets at `i` and `i + 1` of `s` spell in
/// network byte order.
pub open spec fn be16(s: Seq<u8>, i: int) -> int {
    s[i] as int * 256 + s[i + 1] as int
}

/// The two octets that spell `n` in network byte order.
pub open spec fn be16_bytes(n: int) -> Seq<u8> {
    seq![(n / 256) as u8, (n % 256) as u8]
}

/// The destination address in a header or a frame.
pub open spec fn dest_addr_of(s: Seq<u8>) -> MacAddress {
    MacAddress::from_seq(s.subrange(0, 6))
}

/// The source address in a header or a frame.
pub open spec fn src_addr_of(s: Seq<u8>) -> MacAddress {
    MacAddress::from_seq(s.subrange(6, 12))
}

/// The EtherType number in a header or a frame.
pub open spec fn ether_type_code_of(s: Seq<u8>) -> int {
    be16(s, 12)
}

/// The known EtherType in a header or a frame, if the number is a known one.
pub open spec fn ether_type_of(s: Seq<u8>) -> Option<EtherType> {
    EtherType::from_code(ether_type_code_of(s))
}

/// `s` with the octets from `at` on replaced by those of `part`.
pub open spec fn splice(s: Seq<u8>, at: int, part: Seq<u8>) -> Seq<u8> {
    Seq::new(
        s.len(),
        |i: int|
            if at <= i < at + part.len() {
                part[i - at]
            } else {
                s[i]
            },
    )
}

/// Reads two octets in network byte order.
pub fn read_u16(bytes: &[u8], at: usize) -> (r: u16)
    requires
        at + 1 < bytes@.len(),
    ensures
        r == be16(bytes@, at as int),
{
    let hi: u16 = bytes[at] as u16;
    let lo: u16 = bytes[at + 1] as u16;
    hi * 256 + lo
}

/// Writes two octets in network byte order.
pub fn write_u16(bytes: &mut [u8], at: usize, value: u16)
    requires
        at + 1 < old(bytes)@.len(),
    ensures
        final(bytes)@ == splice(old(bytes)@, at as int, be16_bytes(value as int)),
        be16(final(bytes)@, at as int) == value,
{
    let hi: u8 = (value / 256) as u8;
    let lo: u8 = (value % 256) as u8;
    bytes[at] = hi;
    bytes[at + 1] = lo;
    assert(bytes@ =~= splice(old(bytes)@, at as int, be16_bytes(value as int)));
}

/// Writes the six octets of a link address.
pub fn write_mac(bytes: &mut [u8], at: usize, addr: MacAddress)
    requires
        at + 6 <= old(bytes)@.len(),
    ensures
        final(bytes)@ == splice(old(bytes)@, at as int, addr@),
{
    bytes[at] = addr.b0;
    bytes[at + 1] = addr.b1;
    bytes[at + 2] = addr.b2;
    bytes[at + 3] = addr.b3;
    bytes[at + 4] = addr.b4;
    bytes[at + 5] = addr.b5;
    assert(bytes@ =~= splice(old(bytes)@, at as int, addr@));
}

/// Reads the six octets of a link address.
pub fn read_mac(bytes: &[u8], at: usize) -> (r: MacAddress)
    requires
        at + 6 <= bytes@.len(),
    ensures
        r == MacAddress::from_seq(bytes@.subrange(at as int, at + 6)),
{
    MacAddress {
        b0: bytes[at],
        b1: bytes[at + 1],
        b2: bytes[at + 2],
        b3: bytes[at + 3],
        b4: bytes[at + 4],
        b5: bytes[at + 5],
    }
}

/// A read-only view of the fourteen octets of an Ethernet II header.
pub struct Header<'a> {
    bytes: &'a [u8],
}

impl<'a> Header<'a> {
    /// The octets of the header.
    pub closed spec fn view(&self) -> Seq<u8> {
        self.bytes@
    }

    pub open spec fn wf(&self) -> bool {
        self@.len() == HEADER_SIZE
    }

    pub fn new(bytes: &'a [u8]) -> (r: Header<'a>)
        requires
            bytes@.len() == HEADER_SIZE,
        ensures
            r@ == bytes@,
            r.wf(),
    {
        Header { bytes }
    }

    pub fn as_bytes(&self) -> (r: &[u8])
        ensures
            r@ == self@,
    {
        self.bytes
    }

    pub fn dest_addr(&self) -> (r: MacAddress)
        requires
            self.wf(),
        ensures
            r == dest_addr_of(self@),
    {
        read_mac(self.bytes, 0)
    }

    pub fn src_addr(&self) -> (r: MacAddress)
        requires
            self.wf(),
        ensures
            r == src_addr_of(self@),
    {
        read_mac(self.bytes, 6)
    }

    /// The payload protocol. An unknown number is `Unsupported`.
    pub fn ether_type(&self) -> (r: Result<EtherType, Fail>)
        requires
            self.wf(),
        ensures
            r == match ether_type_of(self@) {
                Some(t) => Ok::<EtherType, Fail>(t),
                None => Err(Fail::Unsupported),
            },
    {
        EtherType::try_from_u16(read_u16(self.bytes, 12))
    }
}

/// A view of the fourteen octets of an Ethernet II header that can write
/// them. `bytes` is the borrowed range itself.
pub struct HeaderMut<'a> {
    pub bytes: &'a mut [u8],
}

impl<'a> HeaderMut<'a> {
    pub open spec fn wf(&self) -> bool {
        self.bytes@.len() == HEADER_SIZE
    }

    pub fn new(bytes: &'a mut [u8]) -> (r: HeaderMut<'a>)
        requires
            old(bytes)@.len() == HEADER_SIZE,
        ensures
            r.bytes@ == old(bytes)@,
            final(r.bytes)@ == final(bytes)@,
            r.wf(),
    {
        HeaderMut { bytes }
    }

    pub fn dest_addr(&mut self, addr: MacAddress)
        requires
            old(self).wf(),
        ensures
            final(self).bytes@ == splice(old(self).bytes@, 0, addr@),
            final(final(self).bytes)@ == final(old(self).bytes)@,
    {
        write_mac(self.bytes, 0, addr);
    }

    pub fn src_addr(&mut self, addr: MacAddress)
        requires
            old(self).wf(),
        ensures
            final(self).bytes@ == splice(old(self).bytes@, 6, addr@),
            final(final(self).bytes)@ == final(old(self).bytes)@,
    {
        write_mac(self.bytes, 6, addr);
    }

    pub fn ether_type(&mut self, ether_type: EtherType)
        requires
            old(self).wf(),
        ensures
            final(self).bytes@ == splice(old(self).bytes@, 12, be16_bytes(ether_type.code())),
            final(final(self).bytes)@ == final(old(self).bytes)@,
    {
        write_u16(self.bytes, 12, ether_type.to_u16());
    }
}

/// Writing a field changes that field only, and reads back what was written.
pub proof fn law_header_writes(s: Seq<u8>, addr: MacAddress, t: EtherType)
    requires
        s.len() >= HEADER_SIZE,
    ensures
        dest_addr_of(splice(s, 0, addr@)) == addr,
        src_addr_of(splice(s, 0, addr@)) == src_addr_of(s),
        ether_type_code_of(splice(s, 0, addr@)) == ether_type_code_of(s),
        src_addr_of(splice(s, 6, addr@)) == addr,
        dest_addr_of(splice(s, 6, addr@)) == dest_addr_of(s),
        ether_type_code_of(splice(s, 6, addr@)) == ether_type_code_of(s),
        ether_type_of(splice(s, 12, be16_bytes(t.code()))) == Some(t),
        dest_addr_of(splice(s, 12, be16_bytes(t.code()))) == dest_addr_of(s),
        src_addr_of(splice(s, 12, be16_bytes(t.code()))) == src_addr_of(s),
{
}

} // verus!
