use catnip::protocols::arp::pdu::ARP_PDU_SIZE;
use catnip::protocols::arp::{ArpCache, ArpOp, ArpPdu};
use catnip::protocols::ethernet2::{
    EtherType, Frame, FrameMut, MacAddress, HEADER_SIZE, MIN_PAYLOAD_SIZE,
};
use catnip::protocols::ipv4::{Ipv4Addr, Ipv4Protocol};
use catnip::{DeferredResult, Duration, Event, EventQueue, Fail, Timestamp};

fn sample_pdu() -> ArpPdu {
    ArpPdu {
        op: ArpOp::Request,
        sender_link_addr: MacAddress::new([1, 2, 3, 4, 5, 6]),
        sender_ip_addr: Ipv4Addr::new(192, 168, 0, 1),
        target_link_addr: MacAddress::new([7, 8, 9, 10, 11, 12]),
        target_ip_addr: Ipv4Addr::new(192, 168, 0, 2),
    }
}

#[test]
fn frame_attach() {
    assert!(matches!(Frame::attach(&[0u8; 13]), Err(Fail::Malformed)));
    assert!(matches!(Frame::attach(&[]), Err(Fail::Malformed)));
    assert!(matches!(Frame::attach(&[0u8; 14]), Err(Fail::Unsupported)));
    let mut bytes = vec![0u8; 20];
    bytes[..6].copy_from_slice(&[1, 2, 3, 4, 5, 6]);
    bytes[6..12].copy_from_slice(&[7, 8, 9, 10, 11, 12]);
    bytes[12] = 0x08;
    bytes[13] = 0x06;
    bytes[14] = 0x77;
    let frame = Frame::attach(&bytes).unwrap();
    assert_eq!(frame.header().dest_addr(), MacAddress::new([1, 2, 3, 4, 5, 6]));
    assert_eq!(frame.header().src_addr(), MacAddress::new([7, 8, 9, 10, 11, 12]));
    assert_eq!(frame.header().ether_type(), Ok(EtherType::Arp));
    assert_eq!(frame.header().as_bytes(), &bytes[..14]);
    assert_eq!(frame.payload(), &[0x77, 0, 0, 0, 0, 0]);
    assert_eq!(frame.as_bytes(), &bytes[..]);
    bytes[13] = 0x00;
    assert_eq!(
        Frame::attach(&bytes).unwrap().header().ether_type(),
        Ok(EtherType::Ipv4)
    );
    bytes[13] = 0x01;
    assert!(matches!(Frame::attach(&bytes), Err(Fail::Unsupported)));
    // a header alone is a frame with an empty payload.
    bytes.truncate(14);
    bytes[13] = 0x00;
    assert_eq!(Frame::attach(&bytes).unwrap().payload().len(), 0);
}

#[test]
fn frame_mut_writes_into_the_buffer() {
    assert_eq!(HEADER_SIZE, 14);
    assert_eq!(MIN_PAYLOAD_SIZE, 46);
    let mut bytes = vec![0u8; 60];
    {
        let mut frame = FrameMut::from_bytes(&mut bytes).unwrap();
        {
            let mut header = frame.header();
            header.dest_addr(MacAddress::broadcast());
            header.src_addr(MacAddress::new([1, 2, 3, 4, 5, 6]));
            header.ether_type(EtherType::Arp);
        }
        let payload = frame.payload();
        assert_eq!(payload.len(), 46);
        payload[0] = 0xab;
        payload[45] = 0xcd;
        let view = frame.unmut();
        assert_eq!(view.header().ether_type(), Ok(EtherType::Arp));
        assert_eq!(view.payload()[0], 0xab);
    }
    let mut expected = vec![0u8; 60];
    expected[..6].copy_from_slice(&[0xff; 6]);
    expected[6..12].copy_from_slice(&[1, 2, 3, 4, 5, 6]);
    expected[12] = 0x08;
    expected[13] = 0x06;
    expected[14] = 0xab;
    expected[59] = 0xcd;
    assert_eq!(bytes, expected);
}

#[test]
fn ether_type_numbers() {
    assert_eq!(EtherType::Arp.to_u16(), 0x0806);
    assert_eq!(EtherType::Ipv4.to_u16(), 0x0800);
    assert_eq!(EtherType::try_from_u16(0x0806), Ok(EtherType::Arp));
    assert_eq!(EtherType::try_from_u16(0x0800), Ok(EtherType::Ipv4));
    assert_eq!(EtherType::try_from_u16(0x86dd), Err(Fail::Unsupported));
    assert_eq!(EtherType::try_from_u16(0), Err(Fail::Unsupported));
}

#[test]
fn protocol_numbers() {
    assert_eq!(Ipv4Protocol::Icmpv4.to_u8(), 1);
    assert_eq!(Ipv4Protocol::Tcp.to_u8(), 6);
    assert_eq!(Ipv4Protocol::Udp.to_u8(), 17);
    assert_eq!(Ipv4Protocol::try_from_u8(1), Ok(Ipv4Protocol::Icmpv4));
    assert_eq!(Ipv4Protocol::try_from_u8(6), Ok(Ipv4Protocol::Tcp));
    assert_eq!(Ipv4Protocol::try_from_u8(17), Ok(Ipv4Protocol::Udp));
    assert_eq!(Ipv4Protocol::try_from_u8(0), Err(Fail::Unsupported));
    assert_eq!(Ipv4Protocol::try_from_u8(255), Err(Fail::Unsupported));
}

#[test]
fn link_addresses() {
    assert!(MacAddress::broadcast().is_broadcast());
    assert!(!MacAddress::nil().is_broadcast());
    assert!(MacAddress::nil().is_nil());
    assert_eq!(MacAddress::broadcast().to_array(), [0xff; 6]);
    assert_eq!(MacAddress::nil().to_array(), [0; 6]);
    assert_eq!(MacAddress::new([1, 2, 3, 4, 5, 6]).to_array(), [1, 2, 3, 4, 5, 6]);
    assert_eq!(
        MacAddress::from_bytes(&[1, 2, 3, 4, 5, 6]),
        MacAddress::new([1, 2, 3, 4, 5, 6])
    );
    assert_ne!(
        MacAddress::new([1, 2, 3, 4, 5, 6]),
        MacAddress::new([1, 2, 3, 4, 5, 7])
    );
    assert_eq!(Ipv4Addr::new(10, 0, 0, 1).octets(), [10, 0, 0, 1]);
    assert_ne!(Ipv4Addr::new(10, 0, 0, 1), Ipv4Addr::new(1, 0, 0, 10));
}

#[test]
fn arp_pdu_round_trip() {
    let pdu = sample_pdu();
    let datagram = pdu.to_datagram();
    assert_eq!(datagram.len(), 60);
    assert_eq!(
        &datagram[..42],
        &[
            7, 8, 9, 10, 11, 12, 1, 2, 3, 4, 5, 6, 0x08, 0x06, 0, 1, 8, 0, 6, 4, 0, 1, 1, 2, 3,
            4, 5, 6, 192, 168, 0, 1, 7, 8, 9, 10, 11, 12, 192, 168, 0, 2
        ]
    );
    assert_eq!(&datagram[42..], &[0u8; 18]);
    let frame = Frame::attach(&datagram).unwrap();
    assert_eq!(frame.header().ether_type(), Ok(EtherType::Arp));
    assert_eq!(ArpPdu::from_bytes(frame.payload()), Ok(pdu));
    let reply = ArpPdu { op: ArpOp::Reply, ..pdu };
    let datagram = reply.to_datagram();
    assert_eq!(datagram[21], 2);
    assert_eq!(ArpPdu::from_bytes(&datagram[14..]), Ok(reply));
    // without the padding.
    assert_eq!(ArpPdu::from_bytes(&datagram[14..42]), Ok(reply));
    assert_eq!(ARP_PDU_SIZE, 28);
}

#[test]
fn arp_pdu_write_keeps_what_follows() {
    let mut out = vec![0x99u8; 30];
    sample_pdu().write(&mut out);
    assert_eq!(&out[..28], &sample_pdu().to_datagram()[14..42]);
    assert_eq!(&out[28..], &[0x99, 0x99]);
}

#[test]
fn arp_pdu_failures() {
    let good = sample_pdu().to_datagram()[14..].to_vec();
    assert_eq!(ArpPdu::from_bytes(&good[..27]), Err(Fail::Malformed));
    assert_eq!(ArpPdu::from_bytes(&[]), Err(Fail::Malformed));
    // a hardware other than Ethernet.
    let mut bytes = good.clone();
    bytes[1] = 6;
    assert_eq!(ArpPdu::from_bytes(&bytes), Err(Fail::Unsupported));
    // a protocol other than IPv4.
    let mut bytes = good.clone();
    bytes[2] = 0x86;
    bytes[3] = 0xdd;
    assert_eq!(ArpPdu::from_bytes(&bytes), Err(Fail::Ignored));
    // address lengths.
    let mut bytes = good.clone();
    bytes[4] = 8;
    assert_eq!(ArpPdu::from_bytes(&bytes), Err(Fail::Malformed));
    let mut bytes = good.clone();
    bytes[5] = 16;
    assert_eq!(ArpPdu::from_bytes(&bytes), Err(Fail::Malformed));
    // opcodes.
    let mut bytes = good.clone();
    bytes[7] = 3;
    assert_eq!(ArpPdu::from_bytes(&bytes), Err(Fail::Unsupported));
    let mut bytes = good.clone();
    bytes[7] = 0;
    assert_eq!(ArpPdu::from_bytes(&bytes), Err(Fail::Unsupported));
    let mut bytes = good.clone();
    bytes[6] = 1;
    assert_eq!(ArpPdu::from_bytes(&bytes), Err(Fail::Unsupported));
    assert_eq!(ArpOp::try_from_u16(1), Ok(ArpOp::Request));
    assert_eq!(ArpOp::try_from_u16(2), Ok(ArpOp::Reply));
    assert_eq!(ArpOp::Request.to_u16(), 1);
    assert_eq!(ArpOp::Reply.to_u16(), 2);
    // the first broken rule decides.
    let mut bytes = good.clone();
    bytes[1] = 6;
    bytes[2] = 0x86;
    assert_eq!(ArpPdu::from_bytes(&bytes), Err(Fail::Unsupported));
    let mut bytes = good.clone();
    bytes[2] = 0x86;
    bytes[4] = 8;
    assert_eq!(ArpPdu::from_bytes(&bytes), Err(Fail::Ignored));
}

#[test]
fn cache_entries_expire() {
    let ip = Ipv4Addr::new(10, 0, 0, 3);
    let link = MacAddress::new([0xcc; 6]);
    let mut cache = ArpCache::new(Duration::from_secs(10));
    assert_eq!(cache.get(ip, Timestamp::from_nanos(0)), None);
    cache.insert(ip, link, Timestamp::from_nanos(5));
    assert_eq!(cache.get(ip, Timestamp::from_nanos(5)), Some(link));
    assert_eq!(cache.get(ip, Timestamp::from_nanos(0)), Some(link));
    // the expiry is at 10 s + 5 ns: live up to it, gone after it.
    assert_eq!(cache.get(ip, Timestamp::from_nanos(10_000_000_005)), Some(link));
    assert_eq!(cache.get(ip, Timestamp::from_nanos(10_000_000_006)), None);
    assert_eq!(cache.get(ip, Timestamp::from_nanos(u64::MAX)), None);
    assert_eq!(cache.get(Ipv4Addr::new(10, 0, 0, 4), Timestamp::from_nanos(5)), None);
    assert_eq!(cache.len(), 1);
}

#[test]
fn cache_insert_overwrites() {
    let ip = Ipv4Addr::new(10, 0, 0, 3);
    let other = Ipv4Addr::new(10, 0, 0, 4);
    let mut cache = ArpCache::new(Duration::from_nanos(100));
    cache.insert(ip, MacAddress::new([1; 6]), Timestamp::from_nanos(0));
    cache.insert(other, MacAddress::new([2; 6]), Timestamp::from_nanos(0));
    cache.insert(ip, MacAddress::new([3; 6]), Timestamp::from_nanos(50));
    assert_eq!(cache.len(), 2);
    assert_eq!(cache.get(ip, Timestamp::from_nanos(60)), Some(MacAddress::new([3; 6])));
    // the new expiry counts.
    assert_eq!(cache.get(ip, Timestamp::from_nanos(150)), Some(MacAddress::new([3; 6])));
    assert_eq!(cache.get(ip, Timestamp::from_nanos(151)), None);
    assert_eq!(cache.get(other, Timestamp::from_nanos(100)), Some(MacAddress::new([2; 6])));
    assert_eq!(cache.get(other, Timestamp::from_nanos(101)), None);
    // the order is that of first arrival.
    let snapshot = cache.export(Timestamp::from_nanos(60));
    assert_eq!(snapshot.len(), 2);
    assert!(!snapshot.is_empty());
    assert_eq!(snapshot.entry(0), (ip, MacAddress::new([3; 6])));
    assert_eq!(snapshot.entry(1), (other, MacAddress::new([2; 6])));
    assert_eq!(snapshot.get(&ip), Some(&MacAddress::new([3; 6])));
    assert_eq!(snapshot.get(&other), Some(&MacAddress::new([2; 6])));
    assert_eq!(snapshot.get(&Ipv4Addr::new(10, 0, 0, 5)), None);
    let snapshot = cache.export(Timestamp::from_nanos(120));
    assert_eq!(snapshot.len(), 1);
    assert_eq!(snapshot.entry(0), (ip, MacAddress::new([3; 6])));
    assert_eq!(snapshot.get(&other), None);
    assert!(cache.export(Timestamp::from_nanos(151)).is_empty());
}

#[test]
fn cache_purge_drops_the_expired() {
    let a = Ipv4Addr::new(10, 0, 0, 1);
    let b = Ipv4Addr::new(10, 0, 0, 2);
    let c = Ipv4Addr::new(10, 0, 0, 3);
    let mut cache = ArpCache::new(Duration::from_nanos(100));
    cache.insert(a, MacAddress::new([1; 6]), Timestamp::from_nanos(0));
    cache.insert(b, MacAddress::new([2; 6]), Timestamp::from_nanos(50));
    cache.insert(c, MacAddress::new([3; 6]), Timestamp::from_nanos(10));
    cache.purge(Timestamp::from_nanos(100));
    assert_eq!(cache.len(), 3);
    cache.purge(Timestamp::from_nanos(111));
    assert_eq!(cache.len(), 1);
    assert_eq!(cache.get(b, Timestamp::from_nanos(111)), Some(MacAddress::new([2; 6])));
    assert_eq!(cache.get(a, Timestamp::from_nanos(0)), None);
    assert_eq!(cache.get(c, Timestamp::from_nanos(0)), None);
    cache.purge(Timestamp::from_nanos(151));
    assert_eq!(cache.len(), 0);
}

#[test]
fn cache_expiry_saturates() {
    let ip = Ipv4Addr::new(10, 0, 0, 3);
    let mut cache = ArpCache::new(Duration::from_nanos(u64::MAX));
    cache.insert(ip, MacAddress::new([1; 6]), Timestamp::from_nanos(5));
    assert_eq!(cache.get(ip, Timestamp::from_nanos(u64::MAX)), Some(MacAddress::new([1; 6])));
}

#[test]
fn time_arithmetic() {
    assert_eq!(Duration::from_secs(1).as_nanos(), 1_000_000_000);
    assert_eq!(Duration::from_millis(1).as_nanos(), 1_000_000);
    assert_eq!(Duration::from_nanos(7).as_nanos(), 7);
    assert_eq!(Duration::from_secs(18_446_744_073).as_nanos(), 18_446_744_073_000_000_000);
    assert_eq!(Duration::from_secs(18_446_744_074).as_nanos(), u64::MAX);
    assert_eq!(Duration::from_millis(u64::MAX).as_nanos(), u64::MAX);
    assert!(Duration::from_secs(0).is_zero());
    assert!(!Duration::from_nanos(1).is_zero());
    let t = Timestamp::from_nanos(100);
    assert_eq!(t.after(Duration::from_nanos(5)).as_nanos(), 105);
    assert_eq!(t.after(Duration::from_nanos(u64::MAX)).as_nanos(), u64::MAX);
    assert_eq!(
        Timestamp::from_nanos(u64::MAX - 5).after(Duration::from_nanos(5)).as_nanos(),
        u64::MAX
    );
    assert!(t.has_reached(Timestamp::from_nanos(100)));
    assert!(t.has_reached(Timestamp::from_nanos(99)));
    assert!(!t.has_reached(Timestamp::from_nanos(101)));
    assert_eq!(t.latest(Timestamp::from_nanos(99)), t);
    assert_eq!(t.latest(Timestamp::from_nanos(101)), Timestamp::from_nanos(101));
}

#[test]
fn deferred_result_is_single_shot() {
    let mut cell: DeferredResult<u32> = DeferredResult::new();
    assert!(cell.is_pending());
    assert_eq!(cell.poll(), None);
    assert_eq!(cell.poll(), None);
    cell.complete(7);
    assert!(!cell.is_pending());
    assert_eq!(cell.poll(), Some(Ok(7)));
    cell.complete(8);
    cell.fail(Fail::Timeout);
    assert_eq!(cell.poll(), Some(Ok(7)));
    assert_eq!(cell.poll(), Some(Ok(7)));
    let mut cell: DeferredResult<u32> = DeferredResult::new();
    cell.fail(Fail::Timeout);
    assert_eq!(cell.poll(), Some(Err(Fail::Timeout)));
    cell.complete(1);
    cell.fail(Fail::Malformed);
    assert_eq!(cell.poll(), Some(Err(Fail::Timeout)));
}

#[test]
fn event_queue_is_first_in_first_out() {
    let mut queue = EventQueue::new();
    assert!(queue.is_empty());
    assert!(queue.pop().is_none());
    queue.push(Event::Transmit(vec![1]));
    queue.push(Event::Transmit(vec![2, 2]));
    queue.push(Event::Transmit(vec![3, 3, 3]));
    assert_eq!(queue.len(), 3);
    for expected in [vec![1u8], vec![2, 2], vec![3, 3, 3]] {
        match queue.pop().unwrap() {
            Event::Transmit(bytes) => assert_eq!(bytes, expected),
            e => panic!("got unanticipated event `{:?}`", e),
        }
    }
    assert!(queue.is_empty());
    assert!(queue.pop().is_none());
    assert_eq!(queue.len(), 0);
}
