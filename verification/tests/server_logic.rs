use dhcp4r::addr::{Ipv4Addr, SocketAddr};
use dhcp4r::options::{DhcpOption, MessageType, RawDhcpOption};
use dhcp4r::packet::Packet;
use dhcp4r::server::{broadcast_address, filter_options_by_req, Server};

fn blank_request() -> Packet {
    Packet {
        reply: false,
        hops: 0,
        xid: 0x1234_5678,
        secs: 0,
        broadcast: false,
        ciaddr: Ipv4Addr::new(0, 0, 0, 0),
        yiaddr: Ipv4Addr::new(0, 0, 0, 0),
        siaddr: Ipv4Addr::new(0, 0, 0, 0),
        giaddr: Ipv4Addr::new(0, 0, 0, 0),
        chaddr: [0x00, 0x11, 0x22, 0x33, 0x44, 0x55],
        options: vec![],
    }
}

fn codes(opts: &[DhcpOption]) -> Vec<u8> {
    opts.iter().map(|o| o.code()).collect()
}

#[test]
fn filter_orders_and_drops() {
    let mut opts = vec![
        DhcpOption::DhcpMessageType(MessageType::Offer),
        DhcpOption::ServerIdentifier(Ipv4Addr::new(192, 168, 0, 76)),
        DhcpOption::SubnetMask(Ipv4Addr::new(255, 255, 255, 0)),
        DhcpOption::Router(vec![Ipv4Addr::new(192, 168, 0, 254)]),
        DhcpOption::DomainNameServer(vec![Ipv4Addr::new(8, 8, 8, 8)]),
        DhcpOption::IpAddressLeaseTime(7200),
        DhcpOption::HostName(String::from("dropme")),
    ];
    let n = opts.len();
    // The client asks for dns (6) before router (3); mask (1) too.
    filter_options_by_req(&mut opts, &[6, 1, 3]);
    // Mandatory head [53, 54, 51], then the client's order [6, 1, 3];
    // the host name (12) is neither mandatory nor requested and is gone.
    assert_eq!(codes(&opts), vec![53, 54, 51, 6, 1, 3]);
    assert!(opts.len() <= n);
}

#[test]
fn filter_skips_absent_codes() {
    let mut opts = vec![
        DhcpOption::DhcpMessageType(MessageType::Ack),
        DhcpOption::ServerIdentifier(Ipv4Addr::new(10, 0, 0, 1)),
    ];
    // Lease time is mandatory but the handler never supplied it, and the
    // client asks for codes that are absent too.
    filter_options_by_req(&mut opts, &[1, 6]);
    assert_eq!(codes(&opts), vec![53, 54]);
}

#[test]
fn filter_keeps_no_duplicates_and_only_requested() {
    let mut opts = vec![
        DhcpOption::DhcpMessageType(MessageType::Offer),
        DhcpOption::ServerIdentifier(Ipv4Addr::new(10, 0, 0, 1)),
        DhcpOption::SubnetMask(Ipv4Addr::new(255, 0, 0, 0)),
        DhcpOption::Unrecognized(RawDhcpOption { code: 200, data: vec![1] }),
    ];
    filter_options_by_req(&mut opts, &[1, 1, 99]);
    // One subnet mask only, despite the repeated request; 200 is dropped.
    assert_eq!(codes(&opts), vec![53, 54, 1]);
    for c in codes(&opts) {
        assert!([53u8, 54, 51, 1, 99].contains(&c));
    }
}

#[test]
fn filter_request_repeating_mandatory_code() {
    let mut opts = vec![
        DhcpOption::DhcpMessageType(MessageType::Offer),
        DhcpOption::ServerIdentifier(Ipv4Addr::new(10, 0, 0, 1)),
        DhcpOption::SubnetMask(Ipv4Addr::new(255, 255, 255, 0)),
    ];
    // A client may list 53 in its request list too; the single message
    // type option is already pinned at the head and is not re-emitted.
    filter_options_by_req(&mut opts, &[53, 1]);
    assert_eq!(codes(&opts), vec![53, 54, 1]);
}

#[test]
fn destination_broadcast_flag() {
    // Given src = 1.2.3.4:68, a reply with broadcast=true goes to
    // broadcast_ip:68.
    let mut s = Server::new(Ipv4Addr::new(192, 168, 0, 76), Ipv4Addr::new(255, 255, 255, 0));
    s.set_src(SocketAddr::new(Ipv4Addr::new(1, 2, 3, 4), 68));
    let mut p = blank_request();
    p.reply = true;
    p.broadcast = true;
    assert_eq!(
        s.destination(&p),
        SocketAddr::new(Ipv4Addr::new(192, 168, 0, 255), 68)
    );
}

#[test]
fn destination_unspecified_peer() {
    let mut s = Server::new(Ipv4Addr::new(192, 168, 0, 76), Ipv4Addr::new(255, 255, 255, 0));
    s.set_src(SocketAddr::new(Ipv4Addr::new(0, 0, 0, 0), 68));
    let mut p = blank_request();
    p.reply = true;
    assert_eq!(
        s.destination(&p),
        SocketAddr::new(Ipv4Addr::new(192, 168, 0, 255), 68)
    );
}

#[test]
fn destination_unicast_peer() {
    let mut s = Server::new(Ipv4Addr::new(192, 168, 0, 76), Ipv4Addr::new(255, 255, 255, 0));
    s.set_src(SocketAddr::new(Ipv4Addr::new(1, 2, 3, 4), 68));
    let mut p = blank_request();
    p.reply = true;
    assert_eq!(s.destination(&p), SocketAddr::new(Ipv4Addr::new(1, 2, 3, 4), 68));
}

#[test]
fn broadcast_address_of_subnet() {
    assert_eq!(
        broadcast_address(Ipv4Addr::new(192, 168, 0, 76), Ipv4Addr::new(255, 255, 255, 0)),
        Ipv4Addr::new(192, 168, 0, 255)
    );
    // An unspecified mask falls back to the limited broadcast address.
    assert_eq!(
        broadcast_address(Ipv4Addr::new(192, 168, 0, 76), Ipv4Addr::new(0, 0, 0, 0)),
        Ipv4Addr::new(255, 255, 255, 255)
    );
}

#[test]
fn discover_to_offer() {
    // DISCOVER: op=1, hlen=6, chaddr 00:11:22:33:44:55, message type 1,
    // parameter request list [1, 3, 6, 51].
    let mut req = blank_request();
    req.options = vec![
        DhcpOption::DhcpMessageType(MessageType::Discover),
        DhcpOption::ParameterRequestList(vec![1, 3, 6, 51]),
    ];
    let server = Server::new(Ipv4Addr::new(192, 168, 0, 76), Ipv4Addr::new(255, 255, 255, 0));
    let reply = server.reply(
        MessageType::Offer,
        vec![
            DhcpOption::SubnetMask(Ipv4Addr::new(255, 255, 255, 0)),
            DhcpOption::Router(vec![Ipv4Addr::new(192, 168, 0, 254)]),
            DhcpOption::DomainNameServer(vec![
                Ipv4Addr::new(8, 8, 8, 8),
                Ipv4Addr::new(4, 4, 4, 4),
            ]),
            DhcpOption::IpAddressLeaseTime(7200),
        ],
        Ipv4Addr::new(192, 168, 0, 180),
        &req,
    );
    assert!(reply.encodable());
    let b = reply.encode();
    assert_eq!(b[0], 2); // BOOTREPLY
    assert_eq!(&b[4..8], &[0x12, 0x34, 0x56, 0x78]); // xid preserved
    assert_eq!(&b[16..20], &[192, 168, 0, 180]); // yiaddr
    // Option order on the wire: [53, 54, 51, 1, 3, 6].
    let mut wire_codes = Vec::new();
    let mut i = 240;
    while b[i] != 255 {
        wire_codes.push(b[i]);
        i += 2 + b[i + 1] as usize;
    }
    assert_eq!(wire_codes, vec![53, 54, 51, 1, 3, 6]);
}

#[test]
fn request_for_another_server() {
    let mut req = blank_request();
    req.options = vec![
        DhcpOption::DhcpMessageType(MessageType::Request),
        DhcpOption::ServerIdentifier(Ipv4Addr::new(10, 0, 0, 1)),
    ];
    let server = Server::new(Ipv4Addr::new(192, 168, 0, 76), Ipv4Addr::new(255, 255, 255, 0));
    // The example handler emits no reply when this returns false.
    assert!(!server.for_this_server(&req));
}

#[test]
fn request_for_this_server() {
    let mut req = blank_request();
    req.options = vec![
        DhcpOption::DhcpMessageType(MessageType::Request),
        DhcpOption::ServerIdentifier(Ipv4Addr::new(192, 168, 0, 76)),
    ];
    let server = Server::new(Ipv4Addr::new(192, 168, 0, 76), Ipv4Addr::new(255, 255, 255, 0));
    assert!(server.for_this_server(&req));
}

#[test]
fn request_accepted_to_ack() {
    let mut req = blank_request();
    req.ciaddr = Ipv4Addr::new(192, 168, 0, 181);
    req.options = vec![
        DhcpOption::DhcpMessageType(MessageType::Request),
        DhcpOption::RequestedIpAddress(Ipv4Addr::new(192, 168, 0, 181)),
        DhcpOption::ServerIdentifier(Ipv4Addr::new(192, 168, 0, 76)),
    ];
    let server = Server::new(Ipv4Addr::new(192, 168, 0, 76), Ipv4Addr::new(255, 255, 255, 0));
    let reply = server.reply(
        MessageType::Ack,
        vec![DhcpOption::IpAddressLeaseTime(7200)],
        Ipv4Addr::new(192, 168, 0, 181),
        &req,
    );
    assert_eq!(reply.message_type().unwrap(), MessageType::Ack);
    assert_eq!(reply.yiaddr, Ipv4Addr::new(192, 168, 0, 181));
    assert_eq!(reply.ciaddr, Ipv4Addr::new(192, 168, 0, 181)); // copied
    assert!(reply.reply);
}

#[test]
fn nak_reply_shape() {
    let mut req = blank_request();
    req.ciaddr = Ipv4Addr::new(10, 9, 8, 7);
    req.options = vec![DhcpOption::DhcpMessageType(MessageType::Request)];
    let server = Server::new(Ipv4Addr::new(192, 168, 0, 76), Ipv4Addr::new(255, 255, 255, 0));
    let reply = server.reply(
        MessageType::Nak,
        vec![DhcpOption::Message(String::from("address not available"))],
        Ipv4Addr::new(0, 0, 0, 0),
        &req,
    );
    assert_eq!(reply.ciaddr, Ipv4Addr::new(0, 0, 0, 0));
    assert_eq!(reply.yiaddr, Ipv4Addr::new(0, 0, 0, 0));
    assert_eq!(codes(&reply.options), vec![53, 54, 56]);
    assert!(matches!(reply.options[0], DhcpOption::DhcpMessageType(MessageType::Nak)));
    assert!(matches!(
        reply.options[1],
        DhcpOption::ServerIdentifier(a) if a == Ipv4Addr::new(192, 168, 0, 76)
    ));
    match &reply.options[2] {
        DhcpOption::Message(s) => assert_eq!(s, "address not available"),
        o => panic!("wrong option: {:?}", o),
    }
}

#[test]
fn broadcast_send_target() {
    // The request asks for broadcast; the peer was 10.0.0.5:68. The send
    // target must be the subnet broadcast address on port 68.
    let mut s = Server::new(Ipv4Addr::new(10, 0, 0, 1), Ipv4Addr::new(255, 0, 0, 0));
    s.set_src(SocketAddr::new(Ipv4Addr::new(10, 0, 0, 5), 68));
    let mut req = blank_request();
    req.broadcast = true;
    req.options = vec![DhcpOption::DhcpMessageType(MessageType::Discover)];
    let reply = s.reply(
        MessageType::Offer,
        vec![],
        Ipv4Addr::new(10, 0, 0, 50),
        &req,
    );
    assert!(reply.broadcast);
    assert_eq!(
        s.destination(&reply),
        SocketAddr::new(Ipv4Addr::new(10, 255, 255, 255), 68)
    );
}
