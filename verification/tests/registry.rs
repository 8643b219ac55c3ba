use dhcp4r::options::{title, DhcpOption, MessageType, RawDhcpOption};
use dhcp4r::packet::Error;
use dhcp4r::{ACK, DISCOVER, INFORM, NAK};

#[test]
fn it_works() {}

#[test]
fn title_known_codes() {
    assert_eq!(title(1), Some("Subnet Mask"));
    assert_eq!(title(53), Some("DHCP Message Type"));
    assert_eq!(title(121), Some("Classless Route Format"));
    assert_eq!(title(200), None);
    assert_eq!(title(0), None);
}

#[test]
fn option_title_text() {
    let o = DhcpOption::SubnetMask(dhcp4r::addr::Ipv4Addr::new(255, 255, 255, 0));
    assert_eq!(o.title(), "Subnet Mask");
    let u = DhcpOption::Unrecognized(RawDhcpOption { code: 200, data: vec![] });
    assert_eq!(u.title(), "Unknown (200)");
    let v = DhcpOption::Unrecognized(RawDhcpOption { code: 62, data: vec![] });
    assert_eq!(v.title(), "Unknown (62)");
}

#[test]
fn message_type_from_wire_values() {
    assert_eq!(MessageType::from(1).unwrap(), MessageType::Discover);
    assert_eq!(MessageType::from(8).unwrap(), MessageType::Inform);
    assert_eq!(MessageType::from(0).unwrap_err(), Error::UnrecognizedMessageType);
    assert_eq!(MessageType::from(9).unwrap_err(), Error::UnrecognizedMessageType);
}

#[test]
fn message_type_codes() {
    assert_eq!(MessageType::Discover.code(), DISCOVER);
    assert_eq!(MessageType::Ack.code(), ACK);
    assert_eq!(MessageType::Nak.code(), NAK);
    assert_eq!(MessageType::Inform.code(), INFORM);
}

#[test]
fn option_codes() {
    assert_eq!(DhcpOption::DhcpMessageType(MessageType::Discover).code(), 53);
    assert_eq!(DhcpOption::HostName(String::from("x")).code(), 12);
    assert_eq!(
        DhcpOption::Unrecognized(RawDhcpOption { code: 77, data: vec![] }).code(),
        77
    );
}
