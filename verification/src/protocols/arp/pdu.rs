//! The ARP packet for IPv4 over Ethernet II: twenty-eight octets.
use crate::fail::Fail;
use crate::protocols::ethernet2::frame::{
    header_of, payload_of, FrameMut, MIN_PAYLOAD_SIZE,
};
use crate::protocols::ethernet2::header::{
    be16, be16_bytes, dest_addr_of, ether_type_of, read_mac, read_u16, splice, src_addr_of,
    write_mac, write_u16, EtherType, HEADER_SIZE,
};
use crate::protocols::ethernet2::mac_address::MacAddress;
use crate::protocols::ipv4::address::{read_ipv4, write_ipv4, Ipv4Addr};
use vstd::prelude::*;

verus! {

/// The size of an ARP packet for IPv4 over Ethernet II, in octets.
pub const ARP_PDU_SIZE: usize = 28;

/// The hardware type that stands for Ethernet.
pub const HARD_TYPE_ETHER2: u16 = 1;

/// The protocol type that stands for IPv4.
pub const PROT_TYPE_IPV4: u16 = 0x0800;

/// The length of a link address.
pub const HARD_SIZE_ETHER2: u8 = 6;

/// The length of an IPv4 address.
pub const PROT_SIZE_IPV4: u8 = 4;

/// The size of the frame that carries an ARP packet: the header and the
/// smallest payload, which the packet does not fill.
pub const ARP_FRAME_SIZE: usize = 60;

/// What an ARP packet asks or tells.
#[derive(Clone, Copy, Debug, PartialEq, Eq, Hash, Structural)]
pub enum ArpOp {
    Request,
    Reply,
}

impl ArpOp {
    pub open spec fn code(self) -> int {
        match self {
            ArpOp::Request => 1,
            ArpOp::Reply => 2,
        }
    }

    pub open spec fn from_code(code: int) -> Option<ArpOp> {
        if code == 1 {
            Some(ArpOp::Request)
        } else if code == 2 {
            Some(ArpOp::Reply)
        } else {
            None
        }
    }

    pub fn to_u16(self) -> (r: u16)
        ensures
            r == self.code(),
    {
        match self {
            ArpOp::Request => 1,
            ArpOp::Reply => 2,
        }
    }

    /// Reads an opcode. An unknown one is `Unsupported`.
    pub fn try_from_u16(n: u16) -> (r: Result<ArpOp, Fail>)
        ensures
            r == match ArpOp::from_code(n as int) {
                Some(op) => Ok::<ArpOp, Fail>(op),
                None => Err(Fail::Unsupported),
            },
    {
        if n == 1 {
            Ok(ArpOp::Request)
        } else if n == 2 {
            Ok(ArpOp::Reply)
        } else {
            Err(Fail::Unsupported)
        }
    }
}

/// An ARP packet for IPv4 over Ethernet II.
#[derive(Clone, Copy, Debug, PartialEq, Eq, Hash, Structural)]
pub struct ArpPdu {
    pub op: ArpOp,
    pub sender_link_addr: MacAddress,
    pub sender_ip_addr: Ipv4Addr,
    pub target_link_addr: MacAddress,
    pub target_ip_addr: Ipv4Addr,
}

/// `n` octets of zero.
pub open spec fn zeros(n: nat) -> Seq<u8> {
    Seq::new(n, |i: int| 0u8)
}

impl ArpPdu {
    /// The twenty-eight octets of the packet.
    pub open spec fn body(self) -> Seq<u8> {
        be16_bytes(HARD_TYPE_ETHER2 as int) + be16_bytes(PROT_TYPE_IPV4 as int) + seq![
            HARD_SIZE_ETHER2,
            PROT_SIZE_IPV4,
        ] + be16_bytes(self.op.code()) + self.sender_link_addr@ + self.sender_ip_addr@
            + self.target_link_addr@ + self.target_ip_addr@
    }

    /// The frame that carries the packet: from the sender's link address
    /// to the target's, naming ARP, padded with zeros to the smallest
    /// frame.
    pub open spec fn datagram(self) -> Seq<u8> {
        self.target_link_addr@ + self.sender_link_addr@ + be16_bytes(EtherType::Arp.code())
            + self.body() + zeros((MIN_PAYLOAD_SIZE - ARP_PDU_SIZE) as nat)
    }

    /// What the octets `s` say as an ARP packet. Too few octets are
    /// `Malformed`; a hardware other than Ethernet is `Unsupported`; a
    /// protocol other than IPv4 is `Ignored`; address lengths other than
    /// six and four are `Malformed`; an unknown opcode is `Unsupported`.
    /// Octets after the twenty-eighth are padding.
    pub open spec fn parse(s: Seq<u8>) -> Result<ArpPdu, Fail> {
        if s.len() < ARP_PDU_SIZE {
            Err(Fail::Malformed)
        } else if be16(s, 0) != HARD_TYPE_ETHER2 {
            Err(Fail::Unsupported)
        } else if be16(s, 2) != PROT_TYPE_IPV4 {
            Err(Fail::Ignored)
        } else if s[4] != HARD_SIZE_ETHER2 || s[5] != PROT_SIZE_IPV4 {
            Err(Fail::Malformed)
        } else {
            match ArpOp::from_code(be16(s, 6)) {
                None => Err(Fail::Unsupported),
                Some(op) => Ok(
                    ArpPdu {
                        op,
                        sender_link_addr: MacAddress::from_seq(s.subrange(8, 14)),
                        sender_ip_addr: Ipv4Addr::from_seq(s.subrange(14, 18)),
                        target_link_addr: MacAddress::from_seq(s.subrange(18, 24)),
                        target_ip_addr: Ipv4Addr::from_seq(s.subrange(24, 28)),
                    },
                ),
            }
        }
    }

    /// Reads a packet from the payload of a frame.
    pub fn from_bytes(bytes: &[u8]) -> (r: Result<ArpPdu, Fail>)
        ensures
            r == ArpPdu::parse(bytes@),
    {
        if bytes.len() < ARP_PDU_SIZE {
            return Err(Fail::Malformed);
        }
        if read_u16(bytes, 0) != HARD_TYPE_ETHER2 {
            return Err(Fail::Unsupported);
        }
        if read_u16(bytes, 2) != PROT_TYPE_IPV4 {
            return Err(Fail::Ignored);
        }
        if bytes[4] != HARD_SIZE_ETHER2 || bytes[5] != PROT_SIZE_IPV4 {
            return Err(Fail::Malformed);
        }
        match ArpOp::try_from_u16(read_u16(bytes, 6)) {
            Err(e) => Err(e),
            Ok(op) => Ok(
                ArpPdu {
                    op,
                    sender_link_addr: read_mac(bytes, 8),
                    sender_ip_addr: read_ipv4(bytes, 14),
                    target_link_addr: read_mac(bytes, 18),
                    target_ip_addr: read_ipv4(bytes, 24),
                },
            ),
        }
    }

    /// Writes the packet over the first twenty-eight octets of `out`.
    pub fn write(&self, out: &mut [u8])
        requires
            old(out)@.len() >= ARP_PDU_SIZE,
        ensures
            final(out)@ == splice(old(out)@, 0, self.body()),
    {
        write_u16(out, 0, HARD_TYPE_ETHER2);
        write_u16(out, 2, PROT_TYPE_IPV4);
        out[4] = HARD_SIZE_ETHER2;
        out[5] = PROT_SIZE_IPV4;
        write_u16(out, 6, self.op.to_u16());
        write_mac(out, 8, self.sender_link_addr);
        write_ipv4(out, 14, self.sender_ip_addr);
        write_mac(out, 18, self.target_link_addr);
        write_ipv4(out, 24, self.target_ip_addr);
        assert(out@ =~= splice(old(out)@, 0, self.body()));
    }

    /// The frame that carries the packet, ready for the wire.
    pub fn to_datagram(&self) -> (r: Vec<u8>)
        ensures
            r@ == self.datagram(),
    {
        let mut bytes: Vec<u8> = vec![0u8; ARP_FRAME_SIZE];
        assert(bytes@ =~= zeros(ARP_FRAME_SIZE as nat));
        match FrameMut::from_bytes(bytes.as_mut_slice()) {
            Ok(mut frame) => {
                {
                    let mut header = frame.header();
                    header.dest_addr(self.target_link_addr);
                    header.src_addr(self.sender_link_addr);
                    header.ether_type(EtherType::Arp);
                }
                self.write(frame.payload());
                assert(frame.bytes@ =~= self.datagram());
            },
            Err(_) => {},
        }
        bytes
    }

    /// What was written is what is read: the frame of a packet names ARP,
    /// goes from the sender's link address to the target's, has the size
    /// of the smallest frame, and its payload parses as the packet.
    pub proof fn law_datagram_roundtrip(self)
        ensures
            self.datagram().len() == ARP_FRAME_SIZE,
            ether_type_of(self.datagram()) == Some(EtherType::Arp),
            dest_addr_of(self.datagram()) == self.target_link_addr,
            src_addr_of(self.datagram()) == self.sender_link_addr,
            ArpPdu::parse(payload_of(self.datagram())) == Ok::<ArpPdu, Fail>(self),
            ArpPdu::parse(self.body()) == Ok::<ArpPdu, Fail>(self),
    {
        let d = self.datagram();
        let p = payload_of(d);
        let b = self.body();
        assert(b.len() == ARP_PDU_SIZE);
        assert(p.subrange(8, 14) =~= self.sender_link_addr@);
        assert(p.subrange(14, 18) =~= self.sender_ip_addr@);
        assert(p.subrange(18, 24) =~= self.target_link_addr@);
        assert(p.subrange(24, 28) =~= self.target_ip_addr@);
        assert(b.subrange(8, 14) =~= self.sender_link_addr@);
        assert(b.subrange(14, 18) =~= self.sender_ip_addr@);
        assert(b.subrange(18, 24) =~= self.target_link_addr@);
        assert(b.subrange(24, 28) =~= self.target_ip_addr@);
        assert(d.subrange(0, 6) =~= self.target_link_addr@);
        assert(d.subrange(6, 12) =~= self.sender_link_addr@);
    }
}

} // verus!
