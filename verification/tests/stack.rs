use netty::util::checksum;
use netty::{arp, eth, icmpv4, ipv4, Error, FrameOutcome, NettyStack};

const STACK_MAC: [u8; 6] = [0xaa, 0xbb, 0xcc, 0xdd, 0xee, 0xff];
const STACK_IP: u32 = 0x0a000002; // 10.0.0.2
const PEER_MAC: [u8; 6] = [0x02, 0x00, 0x00, 0x00, 0x00, 0x01];
const PEER_IP: u32 = 0x0a000003; // 10.0.0.3

fn arp_request_frame_from(smac: [u8; 6], sip: u32) -> Vec<u8> {
    let mut frame = vec![0u8; 42];
    let eth_hdr = eth::Header {
        dmac: [0xff; 6],
        smac,
        ethertype: eth::Ethertype::ARP,
    };
    assert_eq!(eth_hdr.encode(&mut frame, 0), Ok(14));
    let arp_hdr = arp::Header {
        hwtype: arp::HwType::Ethernet,
        protype: arp::ProtocolType::Ipv4,
        hwsize: 6,
        prosize: 4,
        opcode: arp::Opcode::ArpRequest,
    };
    assert_eq!(arp_hdr.encode(&mut frame, 14), Ok(8));
    let data = arp::Ipv4Data {
        smac,
        sip,
        dmac: [0; 6],
        dip: STACK_IP,
    };
    assert_eq!(data.encode(&mut frame, 22), Ok(20));
    frame
}

fn arp_request_frame() -> Vec<u8> {
    arp_request_frame_from(PEER_MAC, PEER_IP)
}

fn no_reply() -> FrameOutcome {
    FrameOutcome { reply: None, cache_full: false }
}

fn echo_request_frame(id: u16, seq: u16, payload: &[u8]) -> Vec<u8> {
    let mut frame = vec![0u8; 42];
    let eth_hdr = eth::Header {
        dmac: STACK_MAC,
        smac: PEER_MAC,
        ethertype: eth::Ethertype::IPv4,
    };
    assert_eq!(eth_hdr.encode(&mut frame, 0), Ok(14));
    let ip_hdr = ipv4::Header {
        version: 4,
        internet_header_len: 5,
        type_of_service: 0,
        datagram_len: (28 + payload.len()) as u16,
        id: 0x41e0,
        control_flags: 2,
        fragment_offset: 0,
        time_to_live: 64,
        proto: ipv4::PROTO_ICMPV4,
        checksum: 0,
        src_addr: PEER_IP,
        dst_addr: STACK_IP,
    };
    assert_eq!(ip_hdr.encode(&mut frame, 14), Ok(20));
    let icmp_hdr = icmpv4::Header {
        msg_type: icmpv4::MsgType::EchoRequest,
        code: 0,
        checksum: 0x1c2e,
    };
    assert_eq!(icmp_hdr.encode(&mut frame, 34), Ok(4));
    let echo_hdr = icmpv4::EchoHeader { id, seq };
    assert_eq!(echo_hdr.encode(&mut frame, 38), Ok(4));
    frame.extend_from_slice(payload);
    frame
}

#[test]
fn arp_request_gets_one_reply_and_fills_the_cache() {
    let mut stack = NettyStack::new(STACK_MAC, STACK_IP);
    let outcome = stack
        .handle_frame(&arp_request_frame())
        .unwrap();
    assert!(!outcome.cache_full);
    let reply = outcome.reply.expect("an ARP request provokes a reply");

    // Ethernet header, ARP header, payload, 18 zero bytes of trailer.
    assert_eq!(reply.len(), 60);
    let (eth_hdr, _) = eth::Header::decode(&reply).unwrap();
    assert_eq!(eth_hdr.dmac, PEER_MAC);
    assert_eq!(eth_hdr.smac, STACK_MAC);
    assert_eq!(eth_hdr.ethertype, eth::Ethertype::ARP);
    let (arp_hdr, _) = arp::Header::decode(&reply[14..]).unwrap();
    assert_eq!(arp_hdr.opcode, arp::Opcode::ArpReply);
    assert_eq!(arp_hdr.hwsize, 6);
    assert_eq!(arp_hdr.prosize, 4);
    let (data, _) = arp::Ipv4Data::decode(&reply[22..]).unwrap();
    assert_eq!(data.smac, STACK_MAC);
    assert_eq!(data.sip, STACK_IP);
    assert_eq!(data.dmac, PEER_MAC);
    assert_eq!(data.dip, PEER_IP);
    assert_eq!(&reply[42..], &[0u8; 18]);

    // The sender's translation is now cached.
    assert_eq!(stack.do_arp_lookup(PEER_IP), Some(PEER_MAC));
}

#[test]
fn arp_reply_updates_cache_without_answering() {
    let mut stack = NettyStack::new(STACK_MAC, STACK_IP);
    let mut frame = arp_request_frame();
    // Flip the opcode to ArpReply.
    frame[20] = 0x00;
    frame[21] = 0x02;
    assert_eq!(stack.handle_frame(&frame), Ok(no_reply()));
    assert_eq!(stack.do_arp_lookup(PEER_IP), Some(PEER_MAC));
}

#[test]
fn echo_request_gets_one_echo_reply() {
    let mut stack = NettyStack::new(STACK_MAC, STACK_IP);
    // A prior ARP resolution for the peer.
    stack.handle_frame(&arp_request_frame()).unwrap();

    let payload = [0xde, 0xad, 0xbe, 0xef];
    let outcome = stack
        .handle_frame(&echo_request_frame(0x1234, 0x0001, &payload))
        .unwrap();
    assert!(!outcome.cache_full);
    let reply = outcome.reply.expect("an echo request provokes a reply");

    assert_eq!(reply.len(), 42 + payload.len());
    let (eth_hdr, _) = eth::Header::decode(&reply).unwrap();
    assert_eq!(eth_hdr.dmac, PEER_MAC);
    assert_eq!(eth_hdr.smac, STACK_MAC);
    assert_eq!(eth_hdr.ethertype, eth::Ethertype::IPv4);
    let (ip_hdr, _) = ipv4::Header::decode(&reply[14..]).unwrap();
    // Source and destination swapped; length recomputed; the IPv4
    // checksum is left zero on purpose.
    assert_eq!(ip_hdr.src_addr, STACK_IP);
    assert_eq!(ip_hdr.dst_addr, PEER_IP);
    assert_eq!(ip_hdr.datagram_len, 28 + payload.len() as u16);
    assert_eq!(ip_hdr.checksum, 0);
    let (icmp_hdr, _) = icmpv4::Header::decode(&reply[34..]).unwrap();
    assert_eq!(icmp_hdr.msg_type, icmpv4::MsgType::EchoReply);
    assert_eq!(icmp_hdr.code, 0);
    let (echo_hdr, _) = icmpv4::EchoHeader::decode(&reply[38..]).unwrap();
    assert_eq!(echo_hdr.id, 0x1234);
    assert_eq!(echo_hdr.seq, 0x0001);
    assert_eq!(&reply[42..], &payload);
    // The ICMP checksum is self-verifying over header, sub-header and
    // payload.
    assert_eq!(checksum(&reply[34..]), 0x0000);
}

#[test]
fn echo_request_without_resolution_is_dropped() {
    let mut stack = NettyStack::new(STACK_MAC, STACK_IP);
    let r = stack.handle_frame(&echo_request_frame(0x1234, 0x0001, &[]));
    assert_eq!(r, Ok(no_reply()));
}

#[test]
fn echo_request_for_another_address_is_dropped() {
    let mut stack = NettyStack::new(STACK_MAC, STACK_IP);
    stack.handle_frame(&arp_request_frame()).unwrap();
    let mut frame = echo_request_frame(0x1234, 0x0001, &[]);
    // Point the datagram at someone else: 10.0.0.9.
    frame[33] = 9;
    assert_eq!(stack.handle_frame(&frame), Ok(no_reply()));
}

#[test]
fn unknown_ethertype_is_unsupported_and_has_no_side_effects() {
    let mut stack = NettyStack::new(STACK_MAC, STACK_IP);
    let mut frame = arp_request_frame();
    frame[12] = 0x99;
    frame[13] = 0x99;
    assert_eq!(stack.handle_frame(&frame), Err(Error::Unsupported));
    // No cache entry was made for the would-be sender.
    assert_eq!(stack.do_arp_lookup(PEER_IP), None);
}

#[test]
fn rarp_is_decoded_but_dropped() {
    let mut stack = NettyStack::new(STACK_MAC, STACK_IP);
    let mut frame = arp_request_frame();
    frame[12] = 0x80;
    frame[13] = 0x35;
    assert_eq!(stack.handle_frame(&frame), Ok(no_reply()));
    assert_eq!(stack.do_arp_lookup(PEER_IP), None);
}

#[test]
fn truncated_arp_payload_is_malformed() {
    let mut stack = NettyStack::new(STACK_MAC, STACK_IP);
    let frame = arp_request_frame();
    assert_eq!(stack.handle_frame(&frame[..30]), Err(Error::Malformed));
    assert_eq!(stack.do_arp_lookup(PEER_IP), None);
}

#[test]
fn icmp_non_echo_is_dropped() {
    let mut stack = NettyStack::new(STACK_MAC, STACK_IP);
    stack.handle_frame(&arp_request_frame()).unwrap();
    let mut frame = echo_request_frame(0x1234, 0x0001, &[]);
    // DestinationUnreachable instead of EchoRequest.
    frame[34] = 3;
    assert_eq!(stack.handle_frame(&frame), Ok(no_reply()));
}

#[test]
fn full_cache_is_reported_and_the_frame_still_answered() {
    let mut stack = NettyStack::new(STACK_MAC, STACK_IP);
    for i in 0..32u32 {
        let mac = [0x02, 0, 0, 0, 1, i as u8];
        let outcome = stack
            .handle_frame(&arp_request_frame_from(mac, 0x0a000100 + i))
            .unwrap();
        assert!(!outcome.cache_full);
        assert!(outcome.reply.is_some());
    }
    // The 33rd distinct sender still gets its reply, but the recording is
    // rejected and reported.
    let outcome = stack
        .handle_frame(&arp_request_frame_from([0x02, 0, 0, 0, 2, 0], 0x0a000200))
        .unwrap();
    assert!(outcome.cache_full);
    assert!(outcome.reply.is_some());
    assert_eq!(stack.do_arp_lookup(0x0a000200), None);
    assert_eq!(stack.do_arp_lookup(0x0a000100), Some([0x02, 0, 0, 0, 1, 0]));
}
