use dhcp4r::addr::Ipv4Addr;
use dhcp4r::options::{DhcpOption, MessageType, RawDhcpOption};
use dhcp4r::packet::{Error, Packet};

/// A minimal valid request: 240-byte header (op=1, hlen=6) plus the given
/// option bytes and an END byte.
fn request_bytes(options: &[u8]) -> Vec<u8> {
    let mut b = vec![0u8; 240];
    b[0] = 1; // BOOTREQUEST
    b[1] = 1; // htype ethernet
    b[2] = 6; // hlen
    b[4] = 0xDE; // xid
    b[5] = 0xAD;
    b[6] = 0xBE;
    b[7] = 0xEF;
    b[28] = 0x00;
    b[29] = 0x11;
    b[30] = 0x22;
    b[31] = 0x33;
    b[32] = 0x44;
    b[33] = 0x55;
    b[236] = 99;
    b[237] = 130;
    b[238] = 83;
    b[239] = 99;
    b.extend_from_slice(options);
    b.push(255);
    b
}

#[test]
fn decode_header_fields() {
    let b = request_bytes(&[]);
    let p = Packet::from(&b).unwrap();
    assert!(!p.reply);
    assert_eq!(p.xid, 0xDEADBEEF);
    assert_eq!(p.chaddr, [0x00, 0x11, 0x22, 0x33, 0x44, 0x55]);
    assert_eq!(p.hops, 0);
    assert_eq!(p.secs, 0);
    assert!(!p.broadcast);
    assert_eq!(p.ciaddr, Ipv4Addr::new(0, 0, 0, 0));
    assert!(p.options.is_empty());
}

#[test]
fn decode_short_input_truncated() {
    let b = vec![1u8; 239];
    assert_eq!(Packet::from(&b).unwrap_err(), Error::TruncatedPacket);
}

#[test]
fn decode_bad_op_codes() {
    for op in [0u8, 3u8] {
        let mut b = request_bytes(&[]);
        b[0] = op;
        assert_eq!(Packet::from(&b).unwrap_err(), Error::InvalidOpCode);
    }
}

#[test]
fn decode_bad_hlen() {
    let mut b = request_bytes(&[]);
    b[2] = 7;
    assert_eq!(Packet::from(&b).unwrap_err(), Error::InvalidHlen);
}

#[test]
fn decode_flipped_cookie_bytes() {
    for i in 236..240 {
        let mut b = request_bytes(&[]);
        b[i] ^= 0x01;
        assert_eq!(Packet::from(&b).unwrap_err(), Error::InvalidCookie);
    }
}

#[test]
fn decode_option_length_past_end() {
    // Option 12 claims 10 payload bytes but only 2 follow before the end.
    let mut b = request_bytes(&[]);
    b.pop(); // drop END
    b.extend_from_slice(&[12, 10, b'h', b'i']);
    assert_eq!(Packet::from(&b).unwrap_err(), Error::TruncatedPacket);
}

#[test]
fn decode_message_type_nine() {
    let b = request_bytes(&[53, 1, 9]);
    assert_eq!(Packet::from(&b).unwrap_err(), Error::UnrecognizedMessageType);
}

#[test]
fn decode_non_utf8_host_name() {
    let b = request_bytes(&[12, 2, 0xFF, 0xFE]);
    assert_eq!(Packet::from(&b).unwrap_err(), Error::NonUtf8String);
}

#[test]
fn decode_typed_options() {
    let b = request_bytes(&[
        53, 1, 1, // Discover
        54, 4, 192, 168, 0, 76, // server id
        50, 4, 192, 168, 0, 181, // requested ip
        51, 4, 0, 0, 0x1C, 0x20, // lease time 7200
        1, 4, 255, 255, 255, 0, // subnet mask
        3, 4, 192, 168, 0, 254, // router
        6, 8, 8, 8, 8, 8, 4, 4, 4, 4, // dns
        12, 4, b'h', b'o', b's', b't', // host name
        56, 2, b'n', b'o', // message
        55, 3, 1, 3, 6, // prl
    ]);
    let p = Packet::from(&b).unwrap();
    assert_eq!(p.options.len(), 10);
    assert!(matches!(p.options[0], DhcpOption::DhcpMessageType(MessageType::Discover)));
    assert!(matches!(p.options[1], DhcpOption::ServerIdentifier(a) if a == Ipv4Addr::new(192, 168, 0, 76)));
    assert!(matches!(p.options[2], DhcpOption::RequestedIpAddress(a) if a == Ipv4Addr::new(192, 168, 0, 181)));
    assert!(matches!(p.options[3], DhcpOption::IpAddressLeaseTime(7200)));
    assert!(matches!(p.options[4], DhcpOption::SubnetMask(a) if a == Ipv4Addr::new(255, 255, 255, 0)));
    match &p.options[5] {
        DhcpOption::Router(l) => assert_eq!(l, &vec![Ipv4Addr::new(192, 168, 0, 254)]),
        o => panic!("wrong option: {:?}", o),
    }
    match &p.options[6] {
        DhcpOption::DomainNameServer(l) => {
            assert_eq!(l, &vec![Ipv4Addr::new(8, 8, 8, 8), Ipv4Addr::new(4, 4, 4, 4)])
        }
        o => panic!("wrong option: {:?}", o),
    }
    match &p.options[7] {
        DhcpOption::HostName(s) => assert_eq!(s, "host"),
        o => panic!("wrong option: {:?}", o),
    }
    match &p.options[8] {
        DhcpOption::Message(s) => assert_eq!(s, "no"),
        o => panic!("wrong option: {:?}", o),
    }
    match &p.options[9] {
        DhcpOption::ParameterRequestList(l) => assert_eq!(l, &vec![1, 3, 6]),
        o => panic!("wrong option: {:?}", o),
    }
}

#[test]
fn decode_skips_pad_bytes() {
    let mut b = request_bytes(&[]);
    b.pop();
    b.extend_from_slice(&[0, 0, 0, 53, 1, 1, 0, 255]);
    let p = Packet::from(&b).unwrap();
    assert_eq!(p.options.len(), 1);
    assert!(matches!(p.options[0], DhcpOption::DhcpMessageType(MessageType::Discover)));
}

#[test]
fn encode_minimum_padded_length() {
    let p = Packet {
        reply: false,
        hops: 0,
        xid: 7,
        secs: 0,
        broadcast: false,
        ciaddr: Ipv4Addr::new(0, 0, 0, 0),
        yiaddr: Ipv4Addr::new(0, 0, 0, 0),
        siaddr: Ipv4Addr::new(0, 0, 0, 0),
        giaddr: Ipv4Addr::new(0, 0, 0, 0),
        chaddr: [1, 2, 3, 4, 5, 6],
        options: vec![],
    };
    assert!(p.encodable());
    let b = p.encode();
    assert_eq!(b.len(), 272);
    assert!(b.len() <= 1500);
    // Cookie at offset 236.
    assert_eq!(&b[236..240], &[99, 130, 83, 99]);
    // The final non-pad byte in the options region is END.
    assert_eq!(b[240], 255);
    assert!(b[241..].iter().all(|&x| x == 0));
}

#[test]
fn encode_end_before_padding() {
    let p = Packet {
        reply: true,
        hops: 0,
        xid: 1,
        secs: 0,
        broadcast: false,
        ciaddr: Ipv4Addr::new(0, 0, 0, 0),
        yiaddr: Ipv4Addr::new(0, 0, 0, 0),
        siaddr: Ipv4Addr::new(0, 0, 0, 0),
        giaddr: Ipv4Addr::new(0, 0, 0, 0),
        chaddr: [0; 6],
        options: vec![DhcpOption::DhcpMessageType(MessageType::Offer)],
    };
    assert!(p.encodable());
    let b = p.encode();
    assert_eq!(b.len(), 272);
    assert_eq!(&b[240..244], &[53, 1, 2, 255]);
    let last_non_pad = b.iter().rposition(|&x| x != 0).unwrap();
    assert_eq!(b[last_non_pad], 255);
}

#[test]
fn round_trip_typed_options() {
    let p = Packet {
        reply: true,
        hops: 3,
        xid: 0x01020304,
        secs: 0xBEEF,
        broadcast: true,
        ciaddr: Ipv4Addr::new(10, 0, 0, 1),
        yiaddr: Ipv4Addr::new(10, 0, 0, 2),
        siaddr: Ipv4Addr::new(10, 0, 0, 3),
        giaddr: Ipv4Addr::new(10, 0, 0, 4),
        chaddr: [9, 8, 7, 6, 5, 4],
        options: vec![
            DhcpOption::DhcpMessageType(MessageType::Ack),
            DhcpOption::ServerIdentifier(Ipv4Addr::new(10, 0, 0, 3)),
            DhcpOption::IpAddressLeaseTime(86400),
            DhcpOption::SubnetMask(Ipv4Addr::new(255, 255, 0, 0)),
            DhcpOption::Router(vec![Ipv4Addr::new(10, 0, 0, 254)]),
            DhcpOption::DomainNameServer(vec![
                Ipv4Addr::new(1, 1, 1, 1),
                Ipv4Addr::new(9, 9, 9, 9),
            ]),
            DhcpOption::HostName(String::from("zircon")),
            DhcpOption::Message(String::from("all good")),
            DhcpOption::ParameterRequestList(vec![1, 3, 6, 51]),
        ],
    };
    assert!(p.encodable());
    let b = p.encode();
    assert!(b.len() >= 272 && b.len() <= 1500);
    let q = Packet::from(&b).unwrap();
    assert_eq!(q.reply, p.reply);
    assert_eq!(q.hops, p.hops);
    assert_eq!(q.xid, p.xid);
    assert_eq!(q.secs, p.secs);
    assert_eq!(q.broadcast, p.broadcast);
    assert_eq!(q.ciaddr, p.ciaddr);
    assert_eq!(q.yiaddr, p.yiaddr);
    assert_eq!(q.siaddr, p.siaddr);
    assert_eq!(q.giaddr, p.giaddr);
    assert_eq!(q.chaddr, p.chaddr);
    assert_eq!(q.options.len(), p.options.len());
    assert!(matches!(q.options[0], DhcpOption::DhcpMessageType(MessageType::Ack)));
    assert!(matches!(q.options[2], DhcpOption::IpAddressLeaseTime(86400)));
    match &q.options[6] {
        DhcpOption::HostName(s) => assert_eq!(s, "zircon"),
        o => panic!("wrong option: {:?}", o),
    }
    match &q.options[8] {
        DhcpOption::ParameterRequestList(l) => assert_eq!(l, &vec![1, 3, 6, 51]),
        o => panic!("wrong option: {:?}", o),
    }
}

#[test]
fn round_trip_unknown_option() {
    let p = Packet {
        reply: false,
        hops: 0,
        xid: 42,
        secs: 0,
        broadcast: false,
        ciaddr: Ipv4Addr::new(0, 0, 0, 0),
        yiaddr: Ipv4Addr::new(0, 0, 0, 0),
        siaddr: Ipv4Addr::new(0, 0, 0, 0),
        giaddr: Ipv4Addr::new(0, 0, 0, 0),
        chaddr: [0; 6],
        options: vec![
            DhcpOption::DhcpMessageType(MessageType::Inform),
            DhcpOption::Unrecognized(RawDhcpOption {
                code: 200,
                data: vec![0xDE, 0xAD, 0xBE, 0xEF],
            }),
        ],
    };
    assert!(p.encodable());
    let b = p.encode();
    let q = Packet::from(&b).unwrap();
    assert_eq!(q.options.len(), 2);
    match &q.options[1] {
        DhcpOption::Unrecognized(r) => {
            assert_eq!(r.code, 200);
            assert_eq!(r.data, vec![0xDE, 0xAD, 0xBE, 0xEF]);
        }
        o => panic!("wrong option: {:?}", o),
    }
}

#[test]
fn encodable_rejects_oversized_payload() {
    let p = Packet {
        reply: false,
        hops: 0,
        xid: 0,
        secs: 0,
        broadcast: false,
        ciaddr: Ipv4Addr::new(0, 0, 0, 0),
        yiaddr: Ipv4Addr::new(0, 0, 0, 0),
        siaddr: Ipv4Addr::new(0, 0, 0, 0),
        giaddr: Ipv4Addr::new(0, 0, 0, 0),
        chaddr: [0; 6],
        options: vec![DhcpOption::Unrecognized(RawDhcpOption {
            code: 128,
            data: vec![0; 300],
        })],
    };
    assert!(!p.encodable());
}

#[test]
fn encodable_rejects_total_over_datagram() {
    // Six options of 250 bytes each overflow one 1500-byte datagram.
    let opts: Vec<DhcpOption> = (0..6)
        .map(|i| {
            DhcpOption::Unrecognized(RawDhcpOption {
                code: 128 + i as u8,
                data: vec![7; 250],
            })
        })
        .collect();
    let p = Packet {
        reply: false,
        hops: 0,
        xid: 0,
        secs: 0,
        broadcast: false,
        ciaddr: Ipv4Addr::new(0, 0, 0, 0),
        yiaddr: Ipv4Addr::new(0, 0, 0, 0),
        siaddr: Ipv4Addr::new(0, 0, 0, 0),
        giaddr: Ipv4Addr::new(0, 0, 0, 0),
        chaddr: [0; 6],
        options: opts,
    };
    assert!(!p.encodable());
}

#[test]
fn option_and_message_type_lookup() {
    let b = request_bytes(&[53, 1, 3, 54, 4, 10, 0, 0, 1]);
    let p = Packet::from(&b).unwrap();
    assert_eq!(p.message_type().unwrap(), MessageType::Request);
    assert!(matches!(
        p.option(54),
        Some(DhcpOption::ServerIdentifier(a)) if *a == Ipv4Addr::new(10, 0, 0, 1)
    ));
    assert!(p.option(51).is_none());
    let empty = Packet::from(&request_bytes(&[])).unwrap();
    assert_eq!(empty.message_type().unwrap_err(), Error::UnrecognizedMessageType);
}

#[test]
fn decode_broadcast_flag_bit_fifteen() {
    let mut b = request_bytes(&[]);
    b[10] = 0x80;
    let p = Packet::from(&b).unwrap();
    assert!(p.broadcast);
    let mut b2 = request_bytes(&[]);
    b2[11] = 0x80; // low byte of flags: not the broadcast bit
    let p2 = Packet::from(&b2).unwrap();
    assert!(!p2.broadcast);
}
