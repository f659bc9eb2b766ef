use netty::{arp, eth, icmpv4, ipv4, Error};

#[test]
fn eth_round_trip() {
    let h = eth::Header {
        dmac: [1, 2, 3, 4, 5, 6],
        smac: [7, 8, 9, 10, 11, 12],
        ethertype: eth::Ethertype::IPv4,
    };
    let mut buf = vec![0u8; 14];
    assert_eq!(h.encode(&mut buf, 0), Ok(14));
    assert_eq!(buf, vec![1, 2, 3, 4, 5, 6, 7, 8, 9, 10, 11, 12, 0x08, 0x00]);
    let (h2, consumed) = eth::Header::decode(&buf).unwrap();
    assert_eq!(consumed, 14);
    assert_eq!(h2, h);
}

#[test]
fn eth_decode_short_is_malformed() {
    let buf = [0u8; 13];
    assert_eq!(eth::Header::decode(&buf), Err(Error::Malformed));
}

#[test]
fn eth_decode_unknown_ethertype_is_unsupported() {
    let mut buf = [0u8; 14];
    buf[12] = 0x99;
    buf[13] = 0x99;
    assert_eq!(eth::Header::decode(&buf), Err(Error::Unsupported));
}

#[test]
fn eth_encode_too_small_buffer() {
    let h = eth::Header {
        dmac: [0; 6],
        smac: [0; 6],
        ethertype: eth::Ethertype::ARP,
    };
    let mut buf = vec![0u8; 13];
    assert_eq!(h.encode(&mut buf, 0), Err(Error::BufferTooSmall));
    let mut buf2 = vec![0u8; 20];
    assert_eq!(h.encode(&mut buf2, 7), Err(Error::BufferTooSmall));
}

#[test]
fn arp_header_round_trip() {
    let h = arp::Header {
        hwtype: arp::HwType::Ethernet,
        protype: arp::ProtocolType::Ipv4,
        hwsize: 6,
        prosize: 4,
        opcode: arp::Opcode::ArpRequest,
    };
    let mut buf = vec![0u8; 8];
    assert_eq!(h.encode(&mut buf, 0), Ok(8));
    assert_eq!(buf, vec![0x00, 0x01, 0x08, 0x00, 6, 4, 0x00, 0x01]);
    let (h2, consumed) = arp::Header::decode(&buf).unwrap();
    assert_eq!(consumed, 8);
    assert_eq!(h2, h);
}

#[test]
fn arp_header_unknown_hwtype_is_unsupported() {
    let buf = [0x00, 0x02, 0x08, 0x00, 6, 4, 0x00, 0x01];
    assert_eq!(arp::Header::decode(&buf), Err(Error::Unsupported));
}

#[test]
fn arp_header_unknown_opcode_is_malformed() {
    let buf = [0x00, 0x01, 0x08, 0x00, 6, 4, 0x00, 0x09];
    assert_eq!(arp::Header::decode(&buf), Err(Error::Malformed));
}

#[test]
fn arp_data_round_trip() {
    let d = arp::Ipv4Data {
        smac: [1, 2, 3, 4, 5, 6],
        sip: 0x0a000003,
        dmac: [7, 8, 9, 10, 11, 12],
        dip: 0x0a000002,
    };
    let mut buf = vec![0u8; 20];
    assert_eq!(d.encode(&mut buf, 0), Ok(20));
    assert_eq!(
        buf,
        vec![1, 2, 3, 4, 5, 6, 10, 0, 0, 3, 7, 8, 9, 10, 11, 12, 10, 0, 0, 2]
    );
    let (d2, consumed) = arp::Ipv4Data::decode(&buf).unwrap();
    assert_eq!(consumed, 20);
    assert_eq!(d2, d);
}

#[test]
fn arp_data_short_is_malformed() {
    let buf = [0u8; 19];
    assert_eq!(arp::Ipv4Data::decode(&buf), Err(Error::Malformed));
}

#[test]
fn ipv4_round_trip() {
    let h = ipv4::Header {
        version: 4,
        internet_header_len: 5,
        type_of_service: 0,
        datagram_len: 84,
        id: 0x41e0,
        control_flags: 2,
        fragment_offset: 0x0155,
        time_to_live: 64,
        proto: 1,
        checksum: 0,
        src_addr: 0x0a000004,
        dst_addr: 0x0a000005,
    };
    let mut buf = vec![0u8; 20];
    assert_eq!(h.encode(&mut buf, 0), Ok(20));
    // A version-4 header with length 5 puts 0x45 on the wire.
    assert_eq!(buf[0], 0x45);
    let (h2, consumed) = ipv4::Header::decode(&buf).unwrap();
    assert_eq!(consumed, 20);
    assert_eq!(h2, h);
}

#[test]
fn ipv4_nibbles_and_fragment_bits() {
    // 0x45 = version 4 in the high nibble, header length 5 in the low one;
    // the flags are the top three bits of the sixth and seventh bytes, the
    // fragment offset the remaining thirteen: 0x4005 = flags 2, offset 5.
    let buf: [u8; 20] = [
        0x45, 0x00, 0x00, 0x54, 0x41, 0xe0, 0x40, 0x05, 0x40, 0x01, 0x00, 0x00, 0x0a, 0x00, 0x00,
        0x04, 0x0a, 0x00, 0x00, 0x05,
    ];
    let (h, _) = ipv4::Header::decode(&buf).unwrap();
    assert_eq!(h.version, 4);
    assert_eq!(h.internet_header_len, 5);
    assert_eq!(h.control_flags, 2);
    assert_eq!(h.fragment_offset, 5);
    assert_eq!(h.datagram_len, 0x54);
    assert_eq!(h.src_addr, 0x0a000004);
    assert_eq!(h.dst_addr, 0x0a000005);
}

#[test]
fn ipv4_short_is_malformed() {
    let buf = [0u8; 19];
    assert_eq!(ipv4::Header::decode(&buf), Err(Error::Malformed));
}

#[test]
fn icmp_round_trip() {
    let h = icmpv4::Header {
        msg_type: icmpv4::MsgType::EchoRequest,
        code: 0,
        checksum: 0xbeef,
    };
    let mut buf = vec![0u8; 4];
    assert_eq!(h.encode(&mut buf, 0), Ok(4));
    assert_eq!(buf, vec![8, 0, 0xbe, 0xef]);
    let (h2, consumed) = icmpv4::Header::decode(&buf).unwrap();
    assert_eq!(consumed, 4);
    assert_eq!(h2, h);
}

#[test]
fn icmp_unknown_type_is_unsupported() {
    let buf = [5u8, 0, 0, 0];
    assert_eq!(icmpv4::Header::decode(&buf), Err(Error::Unsupported));
}

#[test]
fn icmp_echo_round_trip() {
    let h = icmpv4::EchoHeader { id: 0x1234, seq: 0x0001 };
    let mut buf = vec![0u8; 4];
    assert_eq!(h.encode(&mut buf, 0), Ok(4));
    assert_eq!(buf, vec![0x12, 0x34, 0x00, 0x01]);
    let (h2, consumed) = icmpv4::EchoHeader::decode(&buf).unwrap();
    assert_eq!(consumed, 4);
    assert_eq!(h2, h);
}

#[test]
fn encode_leaves_surrounding_bytes_untouched() {
    let h = icmpv4::EchoHeader { id: 0x1234, seq: 0x0001 };
    let mut buf = vec![0xau8; 8];
    assert_eq!(h.encode(&mut buf, 2), Ok(4));
    assert_eq!(buf, vec![0xa, 0xa, 0x12, 0x34, 0x00, 0x01, 0xa, 0xa]);
}
