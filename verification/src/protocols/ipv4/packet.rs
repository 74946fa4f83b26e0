//! IPv4 datagrams as views over Ethernet II frames: a read-only view that
//! was checked when it was made from a received frame, and a view for
//! construction that is sealed when the datagram is complete.
use super::header::checksum::{
    fold, internet_checksum, lemma_checksum_verifies, lemma_fold_absorb, lemma_word_sum_concat,
    word_at, word_sum, Hasher,
};
use super::header::{
    checksum_of, dest_addr_of, dscp_of, ecn_of, flags_of, frag_offset_of, id_of, ihl_of,
    protocol_of, src_addr_of, total_len_of, ttl_of, version_of, Ipv4Header, Ipv4HeaderMut,
    DEFAULT_IPV4_TTL, IPV4_HEADER_SIZE, IPV4_IHL_NO_OPTIONS, IPV4_VERSION,
};
use crate::fail::Fail;
use crate::protocols::ethernet2::frame::{
    header_of, payload_of, Frame, FrameMut, MIN_PAYLOAD_SIZE,
};
use crate::protocols::ethernet2::header::{
    be16, be16_bytes, ether_type_of, splice, EtherType, HEADER_SIZE,
};
use vstd::prelude::*;
use vstd::slice::slice_subrange;

verus! {

/// The largest total length that the header can state.
pub const MAX_TOTAL_LEN: usize = 0xffff;

/// The header of the datagram that is the payload `p` of a frame.
pub open spec fn datagram_header(p: Seq<u8>) -> Seq<u8> {
    p.subrange(0, IPV4_HEADER_SIZE as int)
}

/// What the datagram `p` carries: the octets after its header.
pub open spec fn datagram_payload(p: Seq<u8>) -> Seq<u8> {
    p.subrange(IPV4_HEADER_SIZE as int, p.len() as int)
}

/// Whether the payload `p` of a frame is a datagram that the engine takes:
/// more than a header, version 4, a total length that is the length of
/// `p`, no options, no fragmentation, a checksum field other than 0xffff
/// that is either zero or such that the header verifies, and a known
/// transport protocol.
pub open spec fn valid_datagram(p: Seq<u8>) -> bool {
    let h = datagram_header(p);
    &&& p.len() > IPV4_HEADER_SIZE
    &&& version_of(h) == IPV4_VERSION
    &&& total_len_of(h) == p.len()
    &&& ihl_of(h) == IPV4_IHL_NO_OPTIONS
    &&& frag_offset_of(h) == 0
    &&& checksum_of(h) != 0xffff
    &&& (checksum_of(h) == 0 || internet_checksum(h) == 0)
    &&& protocol_of(h) is Some
}

/// The failure with which the payload `p` of a frame is turned away, and
/// `None` where it is taken. The first rule that `p` breaks decides.
pub open spec fn parse_failure(p: Seq<u8>) -> Option<Fail> {
    let h = datagram_header(p);
    if p.len() <= IPV4_HEADER_SIZE {
        Some(Fail::Malformed)
    } else if version_of(h) != IPV4_VERSION {
        Some(Fail::Unsupported)
    } else if total_len_of(h) != p.len() {
        Some(Fail::Malformed)
    } else if ihl_of(h) != IPV4_IHL_NO_OPTIONS {
        Some(Fail::Unsupported)
    } else if frag_offset_of(h) != 0 {
        Some(Fail::Unsupported)
    } else if checksum_of(h) == 0xffff {
        Some(Fail::Malformed)
    } else if checksum_of(h) != 0 && internet_checksum(h) != 0 {
        Some(Fail::Malformed)
    } else if protocol_of(h) is None {
        Some(Fail::Unsupported)
    } else {
        None
    }
}

/// The failure with which a frame is turned away as a datagram, and `None`
/// where it is taken: a frame that does not name IPv4, be its EtherType
/// another known one or none, is `Unsupported`, and else its payload
/// decides.
pub open spec fn packet_failure(frame: Seq<u8>) -> Option<Fail> {
    if ether_type_of(frame) != Some(EtherType::Ipv4) {
        Some(Fail::Unsupported)
    } else {
        parse_failure(payload_of(frame))
    }
}

/// The header `h` as sealing leaves it for a datagram of `total_len`
/// octets: version 4, no options, the default time to live, the total
/// length, and the checksum of the header computed with its own field
/// taken as zero.
pub open spec fn sealed_header(h: Seq<u8>, total_len: int) -> Seq<u8> {
    let typed = splice(
        h.update(0, 0x45u8).update(8, DEFAULT_IPV4_TTL),
        2,
        be16_bytes(total_len),
    );
    let sum = word_sum(typed.subrange(0, 10)) + word_sum(typed.subrange(12, 20));
    splice(typed, 10, be16_bytes(0xffff - fold(sum)))
}

/// The frame `frame` as sealing leaves it: the EtherType is IPv4, the
/// header of the datagram is sealed, and all else is as it was.
pub open spec fn sealed(frame: Seq<u8>) -> Seq<u8> {
    let p = payload_of(frame);
    splice(header_of(frame), 12, be16_bytes(EtherType::Ipv4.code())) + sealed_header(
        datagram_header(p),
        p.len() as int,
    ) + datagram_payload(p)
}

/// A read-only view of an IPv4 datagram in an Ethernet II frame.
pub struct Ipv4Packet<'a>(Frame<'a>);

impl<'a> Ipv4Packet<'a> {
    /// All octets of the frame that holds the datagram.
    pub closed spec fn view(&self) -> Seq<u8> {
        self.0@
    }

    /// The frame holds at least the two headers.
    pub open spec fn wf(&self) -> bool {
        self@.len() >= HEADER_SIZE + IPV4_HEADER_SIZE
    }

    /// The frame names IPv4 and its payload is a datagram that the engine
    /// takes.
    pub open spec fn valid(&self) -> bool {
        &&& self.wf()
        &&& ether_type_of(self@) == Some(EtherType::Ipv4)
        &&& valid_datagram(payload_of(self@))
    }

    pub fn header(&self) -> (r: Ipv4Header<'_>)
        requires
            self.wf(),
        ensures
            r@ == datagram_header(payload_of(self@)),
            r.wf(),
    {
        Ipv4Header::new(slice_subrange(self.0.payload(), 0, IPV4_HEADER_SIZE))
    }

    pub fn frame(&self) -> (r: &Frame<'a>)
        ensures
            r@ == self@,
    {
        &self.0
    }

    /// What the datagram carries. Nothing is copied.
    pub fn payload(&self) -> (r: &[u8])
        requires
            self.wf(),
        ensures
            r@ == datagram_payload(payload_of(self@)),
    {
        let p = self.0.payload();
        slice_subrange(p, IPV4_HEADER_SIZE, p.len())
    }

    /// Checks a received frame and views it as a datagram. The frame is
    /// turned away with the failure of the first rule that it breaks, in
    /// the order of `parse_failure`; one that does not name IPv4 is
    /// `Unsupported` before its payload is read.
    pub fn try_from(frame: Frame<'a>) -> (r: Result<Ipv4Packet<'a>, Fail>)
        requires
            frame.wf(),
        ensures
            match r {
                Ok(packet) => {
                    &&& packet_failure(frame@) is None
                    &&& packet@ == frame@
                    &&& packet.valid()
                },
                Err(e) => packet_failure(frame@) == Some(e),
            },
    {
        match frame.header().ether_type() {
            Ok(EtherType::Ipv4) => {},
            Ok(EtherType::Arp) => {
                return Err(Fail::Unsupported);
            },
            Err(e) => {
                return Err(e);
            },
        }
        if frame.payload().len() <= IPV4_HEADER_SIZE {
            return Err(Fail::Malformed);
        }
        let packet = Ipv4Packet(frame);
        let payload_len = packet.payload().len();
        let header = packet.header();
        if header.version() != IPV4_VERSION {
            return Err(Fail::Unsupported);
        }
        if header.total_len() != payload_len + IPV4_HEADER_SIZE {
            return Err(Fail::Malformed);
        }
        // a header length other than that of a header without options is
        // not supported, the lengths below it included.
        if header.ihl() != IPV4_IHL_NO_OPTIONS {
            return Err(Fail::Unsupported);
        }
        if header.frag_offset() != 0 {
            return Err(Fail::Unsupported);
        }
        let checksum = header.checksum();
        if checksum == 0xffff {
            return Err(Fail::Malformed);
        }
        let should_be_zero = {
            let mut hasher = Hasher::new();
            hasher.write(header.as_bytes());
            proof {
                lemma_fold_absorb(0, word_sum(header@));
            }
            hasher.finish()
        };
        if checksum != 0 && should_be_zero != 0 {
            return Err(Fail::Malformed);
        }
        match header.protocol() {
            Ok(_) => {
                proof {
                    law_valid_iff_no_failure(payload_of(frame@));
                }
                Ok(packet)
            },
            Err(e) => Err(e),
        }
    }
}

/// A view of an IPv4 datagram under construction in an Ethernet II frame.
/// The field is the frame itself.
pub struct Ipv4PacketMut<'a>(pub FrameMut<'a>);

impl<'a> Ipv4PacketMut<'a> {
    /// The frame has room for a header and the smallest payload, and so for
    /// the header of the datagram.
    pub open spec fn wf(&self) -> bool {
        self.0.wf()
    }

    /// Views a buffer as a datagram to fill in. A buffer without room for
    /// an Ethernet II header and the smallest payload is `Malformed`.
    pub fn from_bytes(bytes: &'a mut [u8]) -> (r: Result<Ipv4PacketMut<'a>, Fail>)
        ensures
            match r {
                Ok(packet) => {
                    &&& old(bytes)@.len() >= HEADER_SIZE + MIN_PAYLOAD_SIZE
                    &&& packet.0.bytes@ == old(bytes)@
                    &&& final(packet.0.bytes)@ == final(bytes)@
                    &&& packet.wf()
                },
                Err(e) => {
                    &&& old(bytes)@.len() < HEADER_SIZE + MIN_PAYLOAD_SIZE
                    &&& e == Fail::Malformed
                    &&& final(bytes)@ == old(bytes)@
                },
            },
    {
        match FrameMut::from_bytes(bytes) {
            Ok(frame) => Ok(Ipv4PacketMut(frame)),
            Err(e) => Err(e),
        }
    }

    /// The header of the datagram, to write its fields. What is written
    /// shows in the frame when the returned view is given up.
    pub fn header(&mut self) -> (r: Ipv4HeaderMut<'_>)
        requires
            old(self).wf(),
        ensures
            r.bytes@ == datagram_header(payload_of(old(self).0.bytes@)),
            r.wf(),
            final(self).0.bytes@ == header_of(old(self).0.bytes@) + final(r.bytes)@
                + datagram_payload(payload_of(old(self).0.bytes@)),
            final(final(self).0.bytes)@ == final(old(self).0.bytes)@,
    {
        let payload = self.0.payload();
        let (head, _) = payload.split_at_mut(IPV4_HEADER_SIZE);
        Ipv4HeaderMut::new(head)
    }

    /// The frame, to write its header.
    pub fn frame(&mut self) -> (r: &mut FrameMut<'a>)
        ensures
            r.bytes@ == old(self).0.bytes@,
            final(r.bytes)@ == final(old(self).0.bytes)@,
            final(self).0.bytes@ == final(r).bytes@,
            final(final(self).0.bytes)@ == final(final(r).bytes)@,
    {
        &mut self.0
    }

    /// What the datagram carries, to write it.
    pub fn payload(&mut self) -> (r: &mut [u8])
        requires
            old(self).wf(),
        ensures
            r@ == datagram_payload(payload_of(old(self).0.bytes@)),
            final(self).0.bytes@ == header_of(old(self).0.bytes@) + datagram_header(
                payload_of(old(self).0.bytes@),
            ) + final(r)@,
            final(final(self).0.bytes)@ == final(old(self).0.bytes)@,
    {
        let payload = self.0.payload();
        let (_, rest) = payload.split_at_mut(IPV4_HEADER_SIZE);
        rest
    }

    /// Gives up the right to write and keeps the view. Nothing is checked
    /// and nothing is written.
    pub fn unmut(self) -> (r: Ipv4Packet<'a>)
        requires
            self.wf(),
        ensures
            r@ == old(self.0.bytes)@,
            final(self.0.bytes)@ == old(self.0.bytes)@,
            r.wf(),
    {
        Ipv4Packet(self.0.unmut())
    }

    /// Completes the datagram: writes version, header length, time to live
    /// and total length, then the checksum of the header, names IPv4 in the
    /// frame, and gives up the right to write.
    ///
    /// A datagram whose total length does not fit in sixteen bits is
    /// `Malformed`, and the buffer is then as it was.
    pub fn seal(self) -> (r: Result<Ipv4Packet<'a>, Fail>)
        requires
            self.wf(),
        ensures
            match r {
                Ok(packet) => {
                    &&& payload_of(old(self.0.bytes)@).len() <= MAX_TOTAL_LEN
                    &&& packet@ == sealed(old(self.0.bytes)@)
                    &&& final(self.0.bytes)@ == sealed(old(self.0.bytes)@)
                    &&& packet.wf()
                },
                Err(e) => {
                    &&& payload_of(old(self.0.bytes)@).len() > MAX_TOTAL_LEN
                    &&& e == Fail::Malformed
                    &&& final(self.0.bytes)@ == old(self.0.bytes)@
                },
            },
    {
        let mut this = self;
        let ghost before = this.0.bytes@;
        let total_len: usize = this.0.bytes.len() - HEADER_SIZE;
        if total_len > MAX_TOTAL_LEN {
            return Err(Fail::Malformed);
        }
        let ghost typed = splice(
            datagram_header(payload_of(before)).update(0, 0x45u8).update(8, DEFAULT_IPV4_TTL),
            2,
            be16_bytes(total_len as int),
        );
        {
            let mut ipv4_header = this.header();
            ipv4_header.version(IPV4_VERSION);
            ipv4_header.ihl(IPV4_IHL_NO_OPTIONS);
            ipv4_header.ttl(DEFAULT_IPV4_TTL);
            ipv4_header.total_len(total_len as u16);
            assert(ipv4_header.bytes@ =~= typed);
            let mut hasher = Hasher::new();
            hasher.write(slice_subrange(ipv4_header.as_bytes(), 0, 10));
            hasher.write(slice_subrange(ipv4_header.as_bytes(), 12, 20));
            proof {
                lemma_fold_absorb(0, word_sum(typed.subrange(0, 10)));
                lemma_fold_absorb(
                    word_sum(typed.subrange(0, 10)),
                    word_sum(typed.subrange(12, 20)),
                );
            }
            ipv4_header.checksum(hasher.finish());
            assert(ipv4_header.bytes@ =~= sealed_header(
                datagram_header(payload_of(before)),
                total_len as int,
            ));
        }
        let mut frame_header = this.frame().header();
        frame_header.ether_type(EtherType::Ipv4);
        assert(this.0.bytes@ =~= sealed(before));
        Ok(this.unmut())
    }
}

impl<'a> From<FrameMut<'a>> for Ipv4PacketMut<'a> {
    /// Views a frame under construction as a datagram under construction.
    fn from(frame: FrameMut<'a>) -> (r: Ipv4PacketMut<'a>) {
        Ipv4PacketMut(frame)
    }
}

impl<'a> vstd::std_specs::convert::FromSpecImpl<FrameMut<'a>> for Ipv4PacketMut<'a> {
    open spec fn obeys_from_spec() -> bool {
        true
    }

    open spec fn from_spec(frame: FrameMut<'a>) -> Ipv4PacketMut<'a> {
        Ipv4PacketMut(frame)
    }
}

/// A payload is taken exactly when it is a valid datagram.
pub proof fn law_valid_iff_no_failure(p: Seq<u8>)
    ensures
        parse_failure(p) is None <==> valid_datagram(p),
{
}

/// The sum of the words of a header is that of the words before the
/// checksum field, the field, and the words after it; and it is at least
/// the first word.
pub proof fn lemma_header_sum(h: Seq<u8>)
    requires
        h.len() == IPV4_HEADER_SIZE,
    ensures
        word_sum(h) == word_sum(h.subrange(0, 10)) + checksum_of(h) + word_sum(
            h.subrange(12, 20),
        ),
        word_sum(h.subrange(0, 10)) >= be16(h, 0),
{
    let a = h.subrange(0, 10);
    let b = h.subrange(10, 12);
    let d = h.subrange(12, 20);
    assert(h =~= a + (b + d));
    lemma_word_sum_concat(a, b + d);
    lemma_word_sum_concat(b, d);
    assert(word_sum(b) == checksum_of(h)) by {
        reveal_with_fuel(super::header::checksum::sum_words, 2);
    }
    assert(word_sum(a) >= be16(h, 0)) by {
        reveal_with_fuel(super::header::checksum::sum_words, 6);
        assert(word_at(a, 0) == be16(h, 0));
    }
}

/// The header of a sealed datagram verifies: its Internet checksum, taken
/// over all twenty octets, is zero.
pub proof fn law_sealed_header_verifies(h: Seq<u8>, total_len: int)
    requires
        h.len() == IPV4_HEADER_SIZE,
    ensures
        sealed_header(h, total_len).len() == IPV4_HEADER_SIZE,
        internet_checksum(sealed_header(h, total_len)) == 0,
        checksum_of(sealed_header(h, total_len)) != 0xffff,
{
    let typed = splice(
        h.update(0, 0x45u8).update(8, DEFAULT_IPV4_TTL),
        2,
        be16_bytes(total_len),
    );
    let rest = word_sum(typed.subrange(0, 10)) + word_sum(typed.subrange(12, 20));
    let s = sealed_header(h, total_len);
    lemma_header_sum(s);
    lemma_header_sum(typed);
    lemma_fold_absorb(rest, 0);
    assert(s.subrange(0, 10) =~= typed.subrange(0, 10));
    assert(s.subrange(12, 20) =~= typed.subrange(12, 20));
    assert(be16(typed, 0) >= 0x4500);
    assert(checksum_of(s) == 0xffff - fold(rest));
    lemma_checksum_verifies(rest);
}

/// The checksum rule can be read in two ways that agree: a header of
/// version 4 whose checksum field is not 0xffff verifies exactly when the
/// field holds the checksum of the header taken with the field zeroed.
pub proof fn law_checksum_field(h: Seq<u8>)
    requires
        h.len() == IPV4_HEADER_SIZE,
        version_of(h) == IPV4_VERSION,
        checksum_of(h) != 0xffff,
    ensures
        internet_checksum(h) == 0 <==> checksum_of(h) == internet_checksum(
            splice(h, 10, seq![0u8, 0u8]),
        ),
{
    let z = splice(h, 10, seq![0u8, 0u8]);
    lemma_header_sum(h);
    lemma_header_sum(z);
    assert(z.subrange(0, 10) =~= h.subrange(0, 10));
    assert(z.subrange(12, 20) =~= h.subrange(12, 20));
    let rest = word_sum(h.subrange(0, 10)) + word_sum(h.subrange(12, 20));
    assert(be16(h, 0) >= 0x4000);
    assert(word_sum(z) == rest);
    lemma_fold_absorb(rest, 0);
    if checksum_of(h) == 0xffff - fold(rest) {
        lemma_checksum_verifies(rest);
    }
    if fold(rest + checksum_of(h) as nat) == 0xffff {
        super::header::checksum::lemma_checksum_unique(rest, checksum_of(h) as nat);
    }
}

/// Sealing and then parsing gives back what was written. A frame under
/// construction whose datagram fits, states no fragment offset and names a
/// known protocol is, once sealed, a frame that names IPv4 and holds a
/// datagram that is taken; the fields that sealing writes read as it wrote
/// them, and every other field, the payload and the addresses of the frame
/// read as they were before.
pub proof fn law_seal_then_parse(frame: Seq<u8>)
    requires
        frame.len() >= HEADER_SIZE + MIN_PAYLOAD_SIZE,
        payload_of(frame).len() <= MAX_TOTAL_LEN,
        frag_offset_of(datagram_header(payload_of(frame))) == 0,
        protocol_of(datagram_header(payload_of(frame))) is Some,
    ensures
        ({
            let s = sealed(frame);
            let h0 = datagram_header(payload_of(frame));
            let h = datagram_header(payload_of(s));
            &&& s.len() == frame.len()
            &&& ether_type_of(s) == Some(EtherType::Ipv4)
            &&& crate::protocols::ethernet2::header::dest_addr_of(s)
                == crate::protocols::ethernet2::header::dest_addr_of(frame)
            &&& crate::protocols::ethernet2::header::src_addr_of(s)
                == crate::protocols::ethernet2::header::src_addr_of(frame)
            &&& parse_failure(payload_of(s)) is None
            &&& valid_datagram(payload_of(s))
            &&& version_of(h) == IPV4_VERSION
            &&& ihl_of(h) == IPV4_IHL_NO_OPTIONS
            &&& ttl_of(h) == DEFAULT_IPV4_TTL
            &&& total_len_of(h) == payload_of(frame).len()
            &&& internet_checksum(h) == 0
            &&& dscp_of(h) == dscp_of(h0)
            &&& ecn_of(h) == ecn_of(h0)
            &&& id_of(h) == id_of(h0)
            &&& flags_of(h) == flags_of(h0)
            &&& frag_offset_of(h) == frag_offset_of(h0)
            &&& protocol_of(h) == protocol_of(h0)
            &&& src_addr_of(h) == src_addr_of(h0)
            &&& dest_addr_of(h) == dest_addr_of(h0)
            &&& datagram_payload(payload_of(s)) == datagram_payload(payload_of(frame))
        }),
{
    let s = sealed(frame);
    let p0 = payload_of(frame);
    let h0 = datagram_header(p0);
    let n = p0.len() as int;
    let sh = sealed_header(h0, n);
    law_sealed_header_verifies(h0, n);
    assert(payload_of(s) =~= sh + datagram_payload(p0));
    let h = datagram_header(payload_of(s));
    assert(h =~= sh);
    assert(datagram_payload(payload_of(s)) =~= datagram_payload(p0));
    assert(h.subrange(12, 16) =~= h0.subrange(12, 16));
    assert(h.subrange(16, 20) =~= h0.subrange(16, 20));
    assert(s.subrange(0, 6) =~= frame.subrange(0, 6));
    assert(s.subrange(6, 12) =~= frame.subrange(6, 12));
    assert(total_len_of(h) == n);
    law_valid_iff_no_failure(payload_of(s));
}

/// A checksum field of 0xffff is never taken. The failure is `Malformed`
/// wherever no rule that is checked before it answers `Unsupported`: the
/// version is 4 and, where the total length is right, the header length
/// is that of a header without options and there is no fragment offset.
pub proof fn law_checksum_all_ones_is_malformed(p: Seq<u8>)
    requires
        checksum_of(datagram_header(p)) == 0xffff,
        p.len() > IPV4_HEADER_SIZE ==> {
            &&& version_of(datagram_header(p)) == IPV4_VERSION
            &&& total_len_of(datagram_header(p)) == p.len() ==> {
                &&& ihl_of(datagram_header(p)) == IPV4_IHL_NO_OPTIONS
                &&& frag_offset_of(datagram_header(p)) == 0
            }
        },
    ensures
        parse_failure(p) == Some(Fail::Malformed),
{
}

/// A checksum field of 0xffff is turned away whatever else the datagram
/// holds.
pub proof fn law_checksum_all_ones_is_refused(p: Seq<u8>)
    requires
        checksum_of(datagram_header(p)) == 0xffff,
    ensures
        parse_failure(p) is Some,
        !valid_datagram(p),
{
}

/// A total length that is not the length of what the frame carries is
/// `Malformed`, wherever the version, which is checked before it, is 4.
pub proof fn law_length_mismatch_is_malformed(p: Seq<u8>)
    requires
        total_len_of(datagram_header(p)) != p.len(),
        p.len() > IPV4_HEADER_SIZE ==> version_of(datagram_header(p)) == IPV4_VERSION,
    ensures
        parse_failure(p) == Some(Fail::Malformed),
{
}

/// A header length other than that of a header without options, above it
/// or below, is `Unsupported`, wherever the rules on lengths, which are
/// checked before it, hold.
pub proof fn law_options_are_unsupported(p: Seq<u8>)
    requires
        ihl_of(datagram_header(p)) != IPV4_IHL_NO_OPTIONS,
        p.len() > IPV4_HEADER_SIZE,
        version_of(datagram_header(p)) == IPV4_VERSION ==> total_len_of(datagram_header(p))
            == p.len(),
    ensures
        parse_failure(p) == Some(Fail::Unsupported),
{
}

/// A fragment is `Unsupported`, wherever the rules on lengths, which are
/// checked before it, hold.
pub proof fn law_fragments_are_unsupported(p: Seq<u8>)
    requires
        frag_offset_of(datagram_header(p)) != 0,
        p.len() > IPV4_HEADER_SIZE,
        version_of(datagram_header(p)) == IPV4_VERSION ==> total_len_of(datagram_header(p))
            == p.len(),
    ensures
        parse_failure(p) == Some(Fail::Unsupported),
{
}

/// A frame that does not name IPv4 is never taken as a datagram, and the
/// failure is `Unsupported`, whatever its payload holds.
pub proof fn law_other_ether_types_are_unsupported(frame: Seq<u8>)
    requires
        ether_type_of(frame) != Some(EtherType::Ipv4),
    ensures
        packet_failure(frame) == Some(Fail::Unsupported),
{
}

/// Whatever the datagram, other header lengths, fragments and wrong total
/// lengths are never taken.
pub proof fn law_options_and_fragments_are_refused(p: Seq<u8>)
    requires
        ihl_of(datagram_header(p)) != IPV4_IHL_NO_OPTIONS || frag_offset_of(datagram_header(p))
            != 0 || total_len_of(datagram_header(p)) != p.len(),
    ensures
        parse_failure(p) is Some,
        !valid_datagram(p),
{
}

} // verus!
