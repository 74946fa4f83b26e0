use catnip::protocols::ethernet2::{EtherType, Frame, FrameMut, MacAddress};
use catnip::protocols::ipv4::header::checksum::{checksum, Hasher};
use catnip::protocols::ipv4::{
    Ipv4Addr, Ipv4Packet, Ipv4PacketMut, Ipv4Protocol, DEFAULT_IPV4_TTL, IPV4_HEADER_SIZE,
};
use catnip::{Engine, Fail, Options, Timestamp};

const FRAME_HEADER: usize = 14;

/// A frame that names IPv4 and carries a datagram with `payload_len`
/// octets of payload, sealed.
fn sealed_frame(payload_len: usize) -> Vec<u8> {
    let mut bytes = vec![0u8; FRAME_HEADER + IPV4_HEADER_SIZE + payload_len];
    {
        let mut packet = Ipv4PacketMut::from_bytes(&mut bytes).unwrap();
        {
            let mut frame_header = packet.frame().header();
            frame_header.dest_addr(MacAddress::new([0xbb; 6]));
            frame_header.src_addr(MacAddress::new([0xaa; 6]));
        }
        {
            let mut header = packet.header();
            header.protocol(Ipv4Protocol::Udp);
            header.id(0x1234);
            header.src_addr(Ipv4Addr::new(10, 0, 0, 1));
            header.dest_addr(Ipv4Addr::new(10, 0, 0, 2));
        }
        {
            let payload = packet.payload();
            for i in 0..payload.len() {
                payload[i] = (i % 251) as u8;
            }
        }
        let _ = packet.seal().unwrap();
    }
    bytes
}

/// Writes the checksum that makes the header of the datagram in `bytes`
/// verify.
fn fix_checksum(bytes: &mut [u8]) {
    bytes[FRAME_HEADER + 10] = 0;
    bytes[FRAME_HEADER + 11] = 0;
    let sum = checksum(&bytes[FRAME_HEADER..FRAME_HEADER + IPV4_HEADER_SIZE]);
    bytes[FRAME_HEADER + 10] = (sum >> 8) as u8;
    bytes[FRAME_HEADER + 11] = (sum & 0xff) as u8;
}

fn parse(bytes: &[u8]) -> Result<(), Fail> {
    let frame = Frame::attach(bytes).unwrap();
    assert_eq!(frame.header().ether_type(), Ok(EtherType::Ipv4));
    Ipv4Packet::try_from(frame).map(|_| ())
}

#[test]
fn seal_round_trip() {
    let bytes = sealed_frame(100);
    let frame = Frame::attach(&bytes).unwrap();
    assert_eq!(frame.header().ether_type(), Ok(EtherType::Ipv4));
    assert_eq!(frame.header().dest_addr(), MacAddress::new([0xbb; 6]));
    assert_eq!(frame.header().src_addr(), MacAddress::new([0xaa; 6]));
    let packet = Ipv4Packet::try_from(frame).unwrap();
    let header = packet.header();
    assert_eq!(header.total_len(), 120);
    assert_eq!(header.ihl(), 5);
    assert_eq!(header.version(), 4);
    assert_eq!(header.ttl(), DEFAULT_IPV4_TTL);
    assert_eq!(header.ttl(), 64);
    assert_eq!(header.protocol(), Ok(Ipv4Protocol::Udp));
    assert_eq!(header.id(), 0x1234);
    assert_eq!(header.frag_offset(), 0);
    assert_eq!(header.flags(), 0);
    assert_eq!(header.dscp(), 0);
    assert_eq!(header.ecn(), 0);
    assert_eq!(header.src_addr(), Ipv4Addr::new(10, 0, 0, 1));
    assert_eq!(header.dest_addr(), Ipv4Addr::new(10, 0, 0, 2));
    // the checksum verifies.
    assert_eq!(checksum(header.as_bytes()), 0);
    assert_ne!(header.checksum(), 0);
    assert_ne!(header.checksum(), 0xffff);
    assert_eq!(packet.payload().len(), 100);
    for i in 0..100usize {
        assert_eq!(packet.payload()[i], (i % 251) as u8);
    }
    assert_eq!(packet.frame().as_bytes(), &bytes[..]);
}

#[test]
fn sealed_header_is_exact() {
    let bytes = sealed_frame(100);
    // 4500 0078 1234 0000 4011 xxxx 0a00 0001 0a00 0002
    // the sum of the other words is 0x4500 + 0x78 + 0x1234 + 0x4011 + 0x0a00
    // + 0x0001 + 0x0a00 + 0x0002 = 0xabc0, so the checksum is 0x543f.
    assert_eq!(
        &bytes[14..34],
        &[
            0x45, 0x00, 0x00, 0x78, 0x12, 0x34, 0x00, 0x00, 0x40, 0x11, 0x54, 0x3f, 10, 0, 0,
            1, 10, 0, 0, 2
        ]
    );
    assert_eq!(&bytes[12..14], &[0x08, 0x00]);
}

#[test]
fn seal_returns_the_view_of_what_it_wrote() {
    let mut bytes = vec![0u8; 14 + 20 + 100];
    let expected = sealed_frame(100);
    let mut packet = Ipv4PacketMut::from_bytes(&mut bytes).unwrap();
    {
        let mut frame_header = packet.frame().header();
        frame_header.dest_addr(MacAddress::new([0xbb; 6]));
        frame_header.src_addr(MacAddress::new([0xaa; 6]));
    }
    {
        let mut header = packet.header();
        header.protocol(Ipv4Protocol::Udp);
        header.id(0x1234);
        header.src_addr(Ipv4Addr::new(10, 0, 0, 1));
        header.dest_addr(Ipv4Addr::new(10, 0, 0, 2));
    }
    {
        let payload = packet.payload();
        for i in 0..payload.len() {
            payload[i] = (i % 251) as u8;
        }
    }
    let packet = packet.seal().unwrap();
    assert_eq!(packet.frame().as_bytes(), &expected[..]);
    assert_eq!(packet.header().total_len(), 120);
    assert_eq!(packet.header().ihl(), 5);
    assert_eq!(checksum(packet.header().as_bytes()), 0);
    assert_eq!(packet.payload().len(), 100);
}

#[test]
fn seal_overwrites_version_length_and_ttl() {
    let mut bytes = vec![0xeeu8; 14 + 20 + 30];
    {
        let mut packet = Ipv4PacketMut::from_bytes(&mut bytes).unwrap();
        {
            let mut header = packet.header();
            header.version(6);
            header.ihl(9);
            header.ttl(1);
            header.total_len(7);
            header.checksum(0xffff);
            header.flags(0);
            header.frag_offset(0);
            header.protocol(Ipv4Protocol::Tcp);
        }
        let sealed = packet.seal().unwrap();
        assert_eq!(sealed.header().version(), 4);
        assert_eq!(sealed.header().ihl(), 5);
        assert_eq!(sealed.header().ttl(), 64);
        assert_eq!(sealed.header().total_len(), 50);
        assert_eq!(sealed.header().protocol(), Ok(Ipv4Protocol::Tcp));
        // what sealing does not write stays.
        assert_eq!(sealed.header().dscp(), 0xee >> 2);
        assert_eq!(sealed.header().ecn(), 0xee & 3);
        assert_eq!(sealed.header().id(), 0xeeee);
        assert_eq!(sealed.header().src_addr(), Ipv4Addr::new(0xee, 0xee, 0xee, 0xee));
    }
    assert_eq!(parse(&bytes), Ok(()));
}

#[test]
fn seal_fails_when_total_length_does_not_fit() {
    let mut bytes = vec![0u8; 14 + 65536];
    let before = bytes.clone();
    {
        let packet = Ipv4PacketMut::from_bytes(&mut bytes).unwrap();
        match packet.seal() {
            Err(Fail::Malformed) => (),
            Err(e) => panic!("expected Fail::Malformed, got `{:?}`", e),
            Ok(_) => panic!("expected Fail::Malformed, got a packet"),
        }
    }
    assert_eq!(bytes, before);
    // the largest datagram that fits.
    let mut bytes = vec![0u8; 14 + 65535];
    {
        let mut packet = Ipv4PacketMut::from_bytes(&mut bytes).unwrap();
        packet.header().protocol(Ipv4Protocol::Udp);
        let sealed = packet.seal().unwrap();
        assert_eq!(sealed.header().total_len(), 65535);
        assert_eq!(sealed.payload().len(), 65515);
    }
    assert_eq!(parse(&bytes), Ok(()));
}

#[test]
fn from_bytes_needs_room_for_the_smallest_frame() {
    let mut short = vec![0u8; 59];
    assert!(matches!(
        Ipv4PacketMut::from_bytes(&mut short),
        Err(Fail::Malformed)
    ));
    assert!(matches!(FrameMut::from_bytes(&mut short), Err(Fail::Malformed)));
    let mut smallest = vec![0u8; 60];
    assert!(Ipv4PacketMut::from_bytes(&mut smallest).is_ok());
    let mut smallest = vec![0u8; 60];
    let frame = FrameMut::from_bytes(&mut smallest).unwrap();
    let mut packet = Ipv4PacketMut::from(frame);
    assert_eq!(packet.payload().len(), 26);
}

#[test]
fn frame_without_a_known_ether_type_is_unsupported() {
    // a sealed datagram in every respect, but for the EtherType.
    let mut bytes = sealed_frame(100);
    bytes[12] = 0;
    bytes[13] = 0;
    let mut copy = bytes.clone();
    let frame = FrameMut::from_bytes(&mut copy).unwrap().unmut();
    assert_eq!(frame.as_bytes(), &bytes[..]);
    assert!(matches!(Ipv4Packet::try_from(frame), Err(Fail::Unsupported)));
}

#[test]
fn frame_that_names_arp_is_unsupported_as_a_datagram() {
    // a sealed datagram in every respect, but the frame names ARP.
    let mut bytes = sealed_frame(100);
    bytes[12] = 0x08;
    bytes[13] = 0x06;
    let frame = Frame::attach(&bytes).unwrap();
    assert_eq!(frame.header().ether_type(), Ok(EtherType::Arp));
    assert!(matches!(Ipv4Packet::try_from(frame), Err(Fail::Unsupported)));
    // the same octets under the name of IPv4 are taken.
    bytes[13] = 0x00;
    let frame = Frame::attach(&bytes).unwrap();
    assert!(Ipv4Packet::try_from(frame).is_ok());
}

#[test]
fn unmut_writes_nothing() {
    let mut bytes = vec![0x5au8; 64];
    let before = bytes.clone();
    {
        let packet = Ipv4PacketMut::from_bytes(&mut bytes).unwrap();
        let view = packet.unmut();
        assert_eq!(view.frame().as_bytes(), &before[..]);
        assert_eq!(view.header().as_bytes(), &before[14..34]);
        assert_eq!(view.payload(), &before[34..]);
    }
    assert_eq!(bytes, before);
}

#[test]
fn parse_rejects_fragmented() {
    let mut bytes = sealed_frame(100);
    // frag_offset = 1
    bytes[FRAME_HEADER + 7] = 1;
    fix_checksum(&mut bytes);
    assert_eq!(parse(&bytes), Err(Fail::Unsupported));
    // an offset in the high bits only.
    let mut bytes = sealed_frame(100);
    bytes[FRAME_HEADER + 6] = 0x10;
    fix_checksum(&mut bytes);
    assert_eq!(parse(&bytes), Err(Fail::Unsupported));
    // the flags are no offset.
    let mut bytes = sealed_frame(100);
    bytes[FRAME_HEADER + 6] = 0x40;
    fix_checksum(&mut bytes);
    assert_eq!(parse(&bytes), Ok(()));
}

#[test]
fn parse_rejects_options() {
    let mut bytes = sealed_frame(100);
    bytes[FRAME_HEADER] = 0x46;
    fix_checksum(&mut bytes);
    assert_eq!(parse(&bytes), Err(Fail::Unsupported));
    // a header length below that of a header without options is no more
    // supported than one above it.
    for ihl in [0u8, 1, 4, 6, 15] {
        let mut bytes = sealed_frame(100);
        bytes[FRAME_HEADER] = 0x40 + ihl;
        fix_checksum(&mut bytes);
        assert_eq!(parse(&bytes), Err(Fail::Unsupported));
    }
}

#[test]
fn parse_rejects_checksum_of_all_ones() {
    let mut bytes = sealed_frame(100);
    bytes[FRAME_HEADER + 10] = 0xff;
    bytes[FRAME_HEADER + 11] = 0xff;
    assert_eq!(parse(&bytes), Err(Fail::Malformed));
}

#[test]
fn parse_rejects_wrong_checksum_and_takes_none() {
    let mut bytes = sealed_frame(100);
    bytes[FRAME_HEADER + 11] ^= 1;
    assert_eq!(parse(&bytes), Err(Fail::Malformed));
    // a checksum field of zero is not checked.
    let mut bytes = sealed_frame(100);
    bytes[FRAME_HEADER + 10] = 0;
    bytes[FRAME_HEADER + 11] = 0;
    assert_eq!(parse(&bytes), Ok(()));
    // a corrupted field under a checksum is found.
    let mut bytes = sealed_frame(100);
    bytes[FRAME_HEADER + 4] ^= 0x80;
    assert_eq!(parse(&bytes), Err(Fail::Malformed));
}

#[test]
fn parse_rejects_length_mismatch() {
    let mut bytes = sealed_frame(100);
    bytes.push(0);
    assert_eq!(parse(&bytes), Err(Fail::Malformed));
    let mut bytes = sealed_frame(100);
    bytes.pop();
    assert_eq!(parse(&bytes), Err(Fail::Malformed));
    let mut bytes = sealed_frame(100);
    bytes[FRAME_HEADER + 3] = 121;
    fix_checksum(&mut bytes);
    assert_eq!(parse(&bytes), Err(Fail::Malformed));
}

#[test]
fn parse_rejects_other_versions_and_protocols() {
    let mut bytes = sealed_frame(100);
    bytes[FRAME_HEADER] = 0x65;
    fix_checksum(&mut bytes);
    assert_eq!(parse(&bytes), Err(Fail::Unsupported));
    let mut bytes = sealed_frame(100);
    bytes[FRAME_HEADER + 9] = 41;
    fix_checksum(&mut bytes);
    assert_eq!(parse(&bytes), Err(Fail::Unsupported));
    for known in [1u8, 6, 17] {
        let mut bytes = sealed_frame(100);
        bytes[FRAME_HEADER + 9] = known;
        fix_checksum(&mut bytes);
        assert_eq!(parse(&bytes), Ok(()));
    }
}

#[test]
fn parse_rejects_a_header_without_payload() {
    let mut bytes = vec![0u8; 14 + 20];
    bytes[12] = 0x08;
    bytes[FRAME_HEADER] = 0x45;
    bytes[FRAME_HEADER + 3] = 20;
    bytes[FRAME_HEADER + 9] = 17;
    fix_checksum(&mut bytes);
    assert_eq!(parse(&bytes), Err(Fail::Malformed));
    // one octet of payload is enough.
    let mut bytes = vec![0u8; 14 + 21];
    bytes[12] = 0x08;
    bytes[FRAME_HEADER] = 0x45;
    bytes[FRAME_HEADER + 3] = 21;
    bytes[FRAME_HEADER + 9] = 17;
    fix_checksum(&mut bytes);
    assert_eq!(parse(&bytes), Ok(()));
}

#[test]
fn first_broken_rule_decides() {
    // options and a checksum of all ones: the options are found first.
    let mut bytes = sealed_frame(100);
    bytes[FRAME_HEADER] = 0x46;
    bytes[FRAME_HEADER + 10] = 0xff;
    bytes[FRAME_HEADER + 11] = 0xff;
    assert_eq!(parse(&bytes), Err(Fail::Unsupported));
    // another version and a wrong length: the version is found first.
    let mut bytes = sealed_frame(100);
    bytes[FRAME_HEADER] = 0x55;
    bytes[FRAME_HEADER + 3] = 1;
    assert_eq!(parse(&bytes), Err(Fail::Unsupported));
    // a wrong length and a fragment: the length is found first.
    let mut bytes = sealed_frame(100);
    bytes[FRAME_HEADER + 3] = 1;
    bytes[FRAME_HEADER + 7] = 1;
    assert_eq!(parse(&bytes), Err(Fail::Malformed));
}

#[test]
fn engine_checks_datagrams() {
    let options = Options::new(MacAddress::new([0xbb; 6]), Ipv4Addr::new(10, 0, 0, 2));
    let mut engine = Engine::new(Timestamp::from_nanos(0), options);
    let bytes = sealed_frame(100);
    assert_eq!(engine.receive(&bytes), Ok(()));
    let mut fragment = sealed_frame(100);
    fragment[FRAME_HEADER + 7] = 1;
    fix_checksum(&mut fragment);
    assert_eq!(engine.receive(&fragment), Err(Fail::Unsupported));
    let mut broken = sealed_frame(100);
    broken[FRAME_HEADER + 10] = 0xff;
    broken[FRAME_HEADER + 11] = 0xff;
    assert_eq!(engine.receive(&broken), Err(Fail::Malformed));
    assert!(engine.poll(Timestamp::from_nanos(0)).is_none());
}

#[test]
fn checksum_of_a_known_header() {
    // the sum of the words is 0x2479c; with the carry added back in it is
    // 0x479e, and the complement of that is 0xb861.
    let header: [u8; 20] = [
        0x45, 0x00, 0x00, 0x73, 0x00, 0x00, 0x40, 0x00, 0x40, 0x11, 0x00, 0x00, 0xc0, 0xa8,
        0x00, 0x01, 0xc0, 0xa8, 0x00, 0xc7,
    ];
    assert_eq!(checksum(&header), 0xb861);
    let mut stored = header;
    stored[10] = 0xb8;
    stored[11] = 0x61;
    assert_eq!(checksum(&stored), 0);
    // in two parts around the field, as sealing does it.
    let mut hasher = Hasher::new();
    hasher.write(&header[..10]);
    hasher.write(&header[12..]);
    assert_eq!(hasher.finish(), 0xb861);
}

#[test]
fn checksum_edge_cases() {
    assert_eq!(checksum(&[]), 0xffff);
    assert_eq!(checksum(&[0, 0, 0, 0]), 0xffff);
    assert_eq!(checksum(&[0xff, 0xff]), 0);
    assert_eq!(checksum(&[0xff, 0xff, 0xff, 0xff]), 0);
    assert_eq!(checksum(&[0x00, 0x01]), 0xfffe);
    // a last odd octet is the high half of a word.
    assert_eq!(checksum(&[0x12]), 0xffff - 0x1200);
    assert_eq!(checksum(&[0x00, 0x01, 0x12]), 0xffff - 0x1201);
    // the carry comes back in at the low end.
    assert_eq!(checksum(&[0xff, 0xff, 0x00, 0x02]), 0xffff - 0x0002);
    assert_eq!(checksum(&[0x80, 0x00, 0x80, 0x00]), 0xffff - 0x0001);
    assert_eq!(Hasher::new().finish(), 0xffff);
    // many words do not overflow the sum.
    let long = vec![0xffu8; 200_000];
    assert_eq!(checksum(&long), 0);
}

#[test]
fn header_setters_write_their_own_bits() {
    let mut bytes = vec![0u8; 60];
    let mut packet = Ipv4PacketMut::from_bytes(&mut bytes).unwrap();
    {
        let mut header = packet.header();
        header.version(4);
        header.ihl(5);
        header.dscp(0x2e);
        header.ecn(1);
        header.total_len(0x0102);
        header.id(0xbeef);
        header.flags(2);
        header.frag_offset(0x1abc);
        header.ttl(9);
        header.protocol(Ipv4Protocol::Icmpv4);
        header.checksum(0xa1b2);
        header.src_addr(Ipv4Addr::new(1, 2, 3, 4));
        header.dest_addr(Ipv4Addr::new(5, 6, 7, 8));
        assert_eq!(
            header.as_bytes(),
            &[
                0x45, 0xb9, 0x01, 0x02, 0xbe, 0xef, 0x5a, 0xbc, 9, 1, 0xa1, 0xb2, 1, 2, 3, 4,
                5, 6, 7, 8
            ]
        );
    }
    let view = packet.unmut();
    let header = view.header();
    assert_eq!(header.version(), 4);
    assert_eq!(header.ihl(), 5);
    assert_eq!(header.dscp(), 0x2e);
    assert_eq!(header.ecn(), 1);
    assert_eq!(header.total_len(), 0x0102);
    assert_eq!(header.id(), 0xbeef);
    assert_eq!(header.flags(), 2);
    assert_eq!(header.frag_offset(), 0x1abc);
    assert_eq!(header.ttl(), 9);
    assert_eq!(header.protocol(), Ok(Ipv4Protocol::Icmpv4));
    assert_eq!(header.checksum(), 0xa1b2);
    assert_eq!(header.src_addr(), Ipv4Addr::new(1, 2, 3, 4));
    assert_eq!(header.dest_addr(), Ipv4Addr::new(5, 6, 7, 8));
}
