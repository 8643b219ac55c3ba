//! The DHCP option registry: numeric codes, human titles, and the typed
//! option model with its wire form.
use vstd::prelude::*;
use vstd::arithmetic::div_mod::lemma_div_denominator;
use vstd::string::*;
use vstd::utf8::encode_utf8;

use crate::addr::Ipv4Addr;
use crate::packet::Error;
use crate::wire::u32_be_bytes;

verus! {

// DHCP option codes.
pub const SUBNET_MASK: u8 = 1;

pub const TIME_OFFSET: u8 = 2;

pub const ROUTER: u8 = 3;

pub const TIME_SERVER: u8 = 4;

pub const NAME_SERVER: u8 = 5;

pub const DOMAIN_NAME_SERVER: u8 = 6;

pub const LOG_SERVER: u8 = 7;

pub const COOKIE_SERVER: u8 = 8;

pub const LPR_SERVER: u8 = 9;

pub const IMPRESS_SERVER: u8 = 10;

pub const RESOURCE_LOCATION_SERVER: u8 = 11;

pub const HOST_NAME: u8 = 12;

pub const BOOT_FILE_SIZE: u8 = 13;

pub const MERIT_DUMP_FILE: u8 = 14;

pub const DOMAIN_NAME: u8 = 15;

pub const SWAP_SERVER: u8 = 16;

pub const ROOT_PATH: u8 = 17;

pub const EXTENSIONS_PATH: u8 = 18;

// IP layer parameters per host.
pub const IP_FORWARDING_ENABLE_DISABLE: u8 = 19;

pub const NON_LOCAL_SOURCE_ROUTING_ENABLE_DISABLE: u8 = 20;

pub const POLICY_FILTER: u8 = 21;

pub const MAXIMUM_DATAGRAM_REASSEMBLY_SIZE: u8 = 22;

pub const DEFAULT_IP_TIME_TO_LIVE: u8 = 23;

pub const PATH_MTU_AGING_TIMEOUT: u8 = 24;

pub const PATH_MTU_PLATEAU_TABLE: u8 = 25;

// IP layer parameters per interface.
pub const INTERFACE_MTU: u8 = 26;

pub const ALL_SUBNETS_ARE_LOCAL: u8 = 27;

pub const BROADCAST_ADDRESS: u8 = 28;

pub const PERFORM_MASK_DISCOVERY: u8 = 29;

pub const MASK_SUPPLIER: u8 = 30;

pub const PERFORM_ROUTER_DISCOVERY: u8 = 31;

pub const ROUTER_SOLICITATION_ADDRESS: u8 = 32;

pub const STATIC_ROUTE: u8 = 33;

// Link layer parameters per interface.
pub const TRAILER_ENCAPSULATION: u8 = 34;

pub const ARP_CACHE_TIMEOUT: u8 = 35;

pub const ETHERNET_ENCAPSULATION: u8 = 36;

// TCP parameters.
pub const TCP_DEFAULT_TTL: u8 = 37;

pub const TCP_KEEPALIVE_INTERVAL: u8 = 38;

pub const TCP_KEEPALIVE_GARBAGE: u8 = 39;

// Application and service parameters.
pub const NETWORK_INFORMATION_SERVICE_DOMAIN: u8 = 40;

pub const NETWORK_INFORMATION_SERVERS: u8 = 41;

pub const NETWORK_TIME_PROTOCOL_SERVERS: u8 = 42;

pub const VENDOR_SPECIFIC_INFORMATION: u8 = 43;

pub const NETBIOS_OVER_TCPIP_NAME_SERVER: u8 = 44;

pub const NETBIOS_OVER_TCPIP_DATAGRAM_DISTRIBUTION_SERVER: u8 = 45;

pub const NETBIOS_OVER_TCPIP_NODE_TYPE: u8 = 46;

pub const NETBIOS_OVER_TCPIP_SCOPE: u8 = 47;

pub const XWINDOW_SYSTEM_FONT_SERVER: u8 = 48;

pub const XWINDOW_SYSTEM_DISPLAY_MANAGER: u8 = 49;

pub const NETWORK_INFORMATION_SERVICEPLUS_DOMAIN: u8 = 64;

pub const NETWORK_INFORMATION_SERVICEPLUS_SERVERS: u8 = 65;

pub const MOBILE_IP_HOME_AGENT: u8 = 68;

pub const SIMPLE_MAIL_TRANSPORT_PROTOCOL: u8 = 69;

pub const POST_OFFICE_PROTOCOL_SERVER: u8 = 70;

pub const NETWORK_NEWS_TRANSPORT_PROTOCOL: u8 = 71;

pub const DEFAULT_WORLD_WIDE_WEB_SERVER: u8 = 72;

pub const DEFAULT_FINGER_SERVER: u8 = 73;

pub const DEFAULT_INTERNET_RELAY_CHAT_SERVER: u8 = 74;

pub const STREETTALK_SERVER: u8 = 75;

pub const STREETTALK_DIRECTORY_ASSISTANCE: u8 = 76;

pub const RELAY_AGENT_INFORMATION: u8 = 82;

// DHCP extensions.
pub const REQUESTED_IP_ADDRESS: u8 = 50;

pub const IP_ADDRESS_LEASE_TIME: u8 = 51;

pub const OVERLOAD: u8 = 52;

pub const DHCP_MESSAGE_TYPE: u8 = 53;

pub const SERVER_IDENTIFIER: u8 = 54;

pub const PARAMETER_REQUEST_LIST: u8 = 55;

pub const MESSAGE: u8 = 56;

pub const MAXIMUM_DHCP_MESSAGE_SIZE: u8 = 57;

pub const RENEWAL_TIME_VALUE: u8 = 58;

pub const REBINDING_TIME_VALUE: u8 = 59;

pub const VENDOR_CLASS_IDENTIFIER: u8 = 60;

pub const CLIENT_IDENTIFIER: u8 = 61;

pub const TFTP_SERVER_NAME: u8 = 66;

pub const BOOTFILE_NAME: u8 = 67;

pub const USER_CLASS: u8 = 77;

pub const CLIENT_ARCHITECTURE: u8 = 93;

pub const TZ_POSIX_STRING: u8 = 100;

pub const TZ_DATABASE_STRING: u8 = 101;

pub const CLASSLESS_ROUTE_FORMAT: u8 = 121;

/// The canonical human title of an option code, when one is known.
pub open spec fn spec_title(code: u8) -> Option<Seq<char>> {
    match code {
        SUBNET_MASK => Some("Subnet Mask"@),
        TIME_OFFSET => Some("Time Offset"@),
        ROUTER => Some("Router"@),
        TIME_SERVER => Some("Time Server"@),
        NAME_SERVER => Some("Name Server"@),
        DOMAIN_NAME_SERVER => Some("Domain Name Server"@),
        LOG_SERVER => Some("Log Server"@),
        COOKIE_SERVER => Some("Cookie Server"@),
        LPR_SERVER => Some("LPR Server"@),
        IMPRESS_SERVER => Some("Impress Server"@),
        RESOURCE_LOCATION_SERVER => Some("Resource Location Server"@),
        HOST_NAME => Some("Host Name"@),
        BOOT_FILE_SIZE => Some("Boot File Size"@),
        MERIT_DUMP_FILE => Some("Merit Dump File"@),
        DOMAIN_NAME => Some("Domain Name"@),
        SWAP_SERVER => Some("Swap Server"@),
        ROOT_PATH => Some("Root Path"@),
        EXTENSIONS_PATH => Some("Extensions Path"@),
        IP_FORWARDING_ENABLE_DISABLE => Some("IP Forwarding Enable/Disable"@),
        NON_LOCAL_SOURCE_ROUTING_ENABLE_DISABLE => Some(
            "Non-Local Source Routing Enable/Disable"@,
        ),
        POLICY_FILTER => Some("Policy Filter"@),
        MAXIMUM_DATAGRAM_REASSEMBLY_SIZE => Some("Maximum Datagram Reassembly Size"@),
        DEFAULT_IP_TIME_TO_LIVE => Some("Default IP Time-to-live"@),
        PATH_MTU_AGING_TIMEOUT => Some("Path MTU Aging Timeout"@),
        PATH_MTU_PLATEAU_TABLE => Some("Path MTU Plateau Table"@),
        INTERFACE_MTU => Some("Interface MTU"@),
        ALL_SUBNETS_ARE_LOCAL => Some("All Subnets are Local"@),
        BROADCAST_ADDRESS => Some("Broadcast Address"@),
        PERFORM_MASK_DISCOVERY => Some("Perform Mask Discovery"@),
        MASK_SUPPLIER => Some("Mask Supplier"@),
        PERFORM_ROUTER_DISCOVERY => Some("Perform Router Discovery"@),
        ROUTER_SOLICITATION_ADDRESS => Some("Router Solicitation Address"@),
        STATIC_ROUTE => Some("Static Route"@),
        TRAILER_ENCAPSULATION => Some("Trailer Encapsulation"@),
        ARP_CACHE_TIMEOUT => Some("ARP Cache Timeout"@),
        ETHERNET_ENCAPSULATION => Some("Ethernet Encapsulation"@),
        TCP_DEFAULT_TTL => Some("TCP Default TTL"@),
        TCP_KEEPALIVE_INTERVAL => Some("TCP Keepalive Interval"@),
        TCP_KEEPALIVE_GARBAGE => Some("TCP Keepalive Garbage"@),
        NETWORK_INFORMATION_SERVICE_DOMAIN => Some("Network Information Service Domain"@),
        NETWORK_INFORMATION_SERVERS => Some("Network Information Servers"@),
        NETWORK_TIME_PROTOCOL_SERVERS => Some("Network Time Protocol Servers"@),
        VENDOR_SPECIFIC_INFORMATION => Some("Vendor Specific Information"@),
        NETBIOS_OVER_TCPIP_NAME_SERVER => Some("NetBIOS over TCP/IP Name Server"@),
        NETBIOS_OVER_TCPIP_DATAGRAM_DISTRIBUTION_SERVER => Some(
            "NetBIOS over TCP/IP Datagram Distribution Server"@,
        ),
        NETBIOS_OVER_TCPIP_NODE_TYPE => Some("NetBIOS over TCP/IP Node Type"@),
        NETBIOS_OVER_TCPIP_SCOPE => Some("NetBIOS over TCP/IP Scope"@),
        XWINDOW_SYSTEM_FONT_SERVER => Some("X Window System Font Server"@),
        XWINDOW_SYSTEM_DISPLAY_MANAGER => Some("X Window System Display Manager"@),
        NETWORK_INFORMATION_SERVICEPLUS_DOMAIN => Some("Network Information Service+ Domain"@),
        NETWORK_INFORMATION_SERVICEPLUS_SERVERS => Some("Network Information Service+ Servers"@),
        MOBILE_IP_HOME_AGENT => Some("Mobile IP Home Agent"@),
        SIMPLE_MAIL_TRANSPORT_PROTOCOL => Some("Simple Mail Transport Protocol (SMTP) Server"@),
        POST_OFFICE_PROTOCOL_SERVER => Some("Post Office Protocol (POP3) Server"@),
        NETWORK_NEWS_TRANSPORT_PROTOCOL => Some("Network News Transport Protocol (NNTP) Server"@),
        DEFAULT_WORLD_WIDE_WEB_SERVER => Some("Default World Wide Web (WWW) Server"@),
        DEFAULT_FINGER_SERVER => Some("Default Finger Server"@),
        DEFAULT_INTERNET_RELAY_CHAT_SERVER => Some("Default Internet Relay Chat (IRC) Server"@),
        STREETTALK_SERVER => Some("StreetTalk Server"@),
        STREETTALK_DIRECTORY_ASSISTANCE => Some("StreetTalk Directory Assistance (STDA) Server"@),
        RELAY_AGENT_INFORMATION => Some("Relay Agent Information"@),
        REQUESTED_IP_ADDRESS => Some("Requested IP Address"@),
        IP_ADDRESS_LEASE_TIME => Some("IP Address Lease Time"@),
        OVERLOAD => Some("Overload"@),
        DHCP_MESSAGE_TYPE => Some("DHCP Message Type"@),
        SERVER_IDENTIFIER => Some("Server Identifier"@),
        PARAMETER_REQUEST_LIST => Some("Parameter Request List"@),
        MESSAGE => Some("Message"@),
        MAXIMUM_DHCP_MESSAGE_SIZE => Some("Maximum DHCP Message Size"@),
        RENEWAL_TIME_VALUE => Some("Renewal (T1) Time Value"@),
        REBINDING_TIME_VALUE => Some("Rebinding (T2) Time Value"@),
        VENDOR_CLASS_IDENTIFIER => Some("Vendor class identifier"@),
        CLIENT_IDENTIFIER => Some("Client-identifier"@),
        TFTP_SERVER_NAME => Some("TFTP server name"@),
        BOOTFILE_NAME => Some("Bootfile name"@),
        USER_CLASS => Some("User Class"@),
        CLIENT_ARCHITECTURE => Some("Client Architecture"@),
        TZ_POSIX_STRING => Some("TZ-POSIX String"@),
        TZ_DATABASE_STRING => Some("TZ-Database String"@),
        CLASSLESS_ROUTE_FORMAT => Some("Classless Route Format"@),
        _ => None,
    }
}

/// Returns the title of a DHCP option code, if known.
pub fn title(code: u8) -> (r: Option<&'static str>)
    ensures
        match r {
            Some(t) => spec_title(code) == Some(t@),
            None => spec_title(code) is None,
        },
{
    match code {
        SUBNET_MASK => Some("Subnet Mask"),
        TIME_OFFSET => Some("Time Offset"),
        ROUTER => Some("Router"),
        TIME_SERVER => Some("Time Server"),
        NAME_SERVER => Some("Name Server"),
        DOMAIN_NAME_SERVER => Some("Domain Name Server"),
        LOG_SERVER => Some("Log Server"),
        COOKIE_SERVER => Some("Cookie Server"),
        LPR_SERVER => Some("LPR Server"),
        IMPRESS_SERVER => Some("Impress Server"),
        RESOURCE_LOCATION_SERVER => Some("Resource Location Server"),
        HOST_NAME => Some("Host Name"),
        BOOT_FILE_SIZE => Some("Boot File Size"),
        MERIT_DUMP_FILE => Some("Merit Dump File"),
        DOMAIN_NAME => Some("Domain Name"),
        SWAP_SERVER => Some("Swap Server"),
        ROOT_PATH => Some("Root Path"),
        EXTENSIONS_PATH => Some("Extensions Path"),
        IP_FORWARDING_ENABLE_DISABLE => Some("IP Forwarding Enable/Disable"),
        NON_LOCAL_SOURCE_ROUTING_ENABLE_DISABLE => Some("Non-Local Source Routing Enable/Disable"),
        POLICY_FILTER => Some("Policy Filter"),
        MAXIMUM_DATAGRAM_REASSEMBLY_SIZE => Some("Maximum Datagram Reassembly Size"),
        DEFAULT_IP_TIME_TO_LIVE => Some("Default IP Time-to-live"),
        PATH_MTU_AGING_TIMEOUT => Some("Path MTU Aging Timeout"),
        PATH_MTU_PLATEAU_TABLE => Some("Path MTU Plateau Table"),
        INTERFACE_MTU => Some("Interface MTU"),
        ALL_SUBNETS_ARE_LOCAL => Some("All Subnets are Local"),
        BROADCAST_ADDRESS => Some("Broadcast Address"),
        PERFORM_MASK_DISCOVERY => Some("Perform Mask Discovery"),
        MASK_SUPPLIER => Some("Mask Supplier"),
        PERFORM_ROUTER_DISCOVERY => Some("Perform Router Discovery"),
        ROUTER_SOLICITATION_ADDRESS => Some("Router Solicitation Address"),
        STATIC_ROUTE => Some("Static Route"),
        TRAILER_ENCAPSULATION => Some("Trailer Encapsulation"),
        ARP_CACHE_TIMEOUT => Some("ARP Cache Timeout"),
        ETHERNET_ENCAPSULATION => Some("Ethernet Encapsulation"),
        TCP_DEFAULT_TTL => Some("TCP Default TTL"),
        TCP_KEEPALIVE_INTERVAL => Some("TCP Keepalive Interval"),
        TCP_KEEPALIVE_GARBAGE => Some("TCP Keepalive Garbage"),
        NETWORK_INFORMATION_SERVICE_DOMAIN => Some("Network Information Service Domain"),
        NETWORK_INFORMATION_SERVERS => Some("Network Information Servers"),
        NETWORK_TIME_PROTOCOL_SERVERS => Some("Network Time Protocol Servers"),
        VENDOR_SPECIFIC_INFORMATION => Some("Vendor Specific Information"),
        NETBIOS_OVER_TCPIP_NAME_SERVER => Some("NetBIOS over TCP/IP Name Server"),
        NETBIOS_OVER_TCPIP_DATAGRAM_DISTRIBUTION_SERVER => Some(
            "NetBIOS over TCP/IP Datagram Distribution Server",
        ),
        NETBIOS_OVER_TCPIP_NODE_TYPE => Some("NetBIOS over TCP/IP Node Type"),
        NETBIOS_OVER_TCPIP_SCOPE => Some("NetBIOS over TCP/IP Scope"),
        XWINDOW_SYSTEM_FONT_SERVER => Some("X Window System Font Server"),
        XWINDOW_SYSTEM_DISPLAY_MANAGER => Some("X Window System Display Manager"),
        NETWORK_INFORMATION_SERVICEPLUS_DOMAIN => Some("Network Information Service+ Domain"),
        NETWORK_INFORMATION_SERVICEPLUS_SERVERS => Some("Network Information Service+ Servers"),
        MOBILE_IP_HOME_AGENT => Some("Mobile IP Home Agent"),
        SIMPLE_MAIL_TRANSPORT_PROTOCOL => Some("Simple Mail Transport Protocol (SMTP) Server"),
        POST_OFFICE_PROTOCOL_SERVER => Some("Post Office Protocol (POP3) Server"),
        NETWORK_NEWS_TRANSPORT_PROTOCOL => Some("Network News Transport Protocol (NNTP) Server"),
        DEFAULT_WORLD_WIDE_WEB_SERVER => Some("Default World Wide Web (WWW) Server"),
        DEFAULT_FINGER_SERVER => Some("Default Finger Server"),
        DEFAULT_INTERNET_RELAY_CHAT_SERVER => Some("Default Internet Relay Chat (IRC) Server"),
        STREETTALK_SERVER => Some("StreetTalk Server"),
        STREETTALK_DIRECTORY_ASSISTANCE => Some("StreetTalk Directory Assistance (STDA) Server"),
        RELAY_AGENT_INFORMATION => Some("Relay Agent Information"),
        REQUESTED_IP_ADDRESS => Some("Requested IP Address"),
        IP_ADDRESS_LEASE_TIME => Some("IP Address Lease Time"),
        OVERLOAD => Some("Overload"),
        DHCP_MESSAGE_TYPE => Some("DHCP Message Type"),
        SERVER_IDENTIFIER => Some("Server Identifier"),
        PARAMETER_REQUEST_LIST => Some("Parameter Request List"),
        MESSAGE => Some("Message"),
        MAXIMUM_DHCP_MESSAGE_SIZE => Some("Maximum DHCP Message Size"),
        RENEWAL_TIME_VALUE => Some("Renewal (T1) Time Value"),
        REBINDING_TIME_VALUE => Some("Rebinding (T2) Time Value"),
        VENDOR_CLASS_IDENTIFIER => Some("Vendor class identifier"),
        CLIENT_IDENTIFIER => Some("Client-identifier"),
        TFTP_SERVER_NAME => Some("TFTP server name"),
        BOOTFILE_NAME => Some("Bootfile name"),
        USER_CLASS => Some("User Class"),
        CLIENT_ARCHITECTURE => Some("Client Architecture"),
        TZ_POSIX_STRING => Some("TZ-POSIX String"),
        TZ_DATABASE_STRING => Some("TZ-Database String"),
        CLASSLESS_ROUTE_FORMAT => Some("Classless Route Format"),
        _ => None,
    }
}

/// DHCP message type (option code 53).
#[derive(Clone, Copy, PartialEq, Eq, Structural, Debug)]
pub enum MessageType {
    Discover,
    Offer,
    Request,
    Decline,
    Ack,
    Nak,
    Release,
    Inform,
}

impl MessageType {
    /// The wire value of the message type.
    pub open spec fn spec_code(self) -> u8 {
        match self {
            MessageType::Discover => 1,
            MessageType::Offer => 2,
            MessageType::Request => 3,
            MessageType::Decline => 4,
            MessageType::Ack => 5,
            MessageType::Nak => 6,
            MessageType::Release => 7,
            MessageType::Inform => 8,
        }
    }

    /// The wire value of the message type.
    pub fn code(&self) -> (r: u8)
        ensures
            r == self.spec_code(),
    {
        match self {
            MessageType::Discover => 1,
            MessageType::Offer => 2,
            MessageType::Request => 3,
            MessageType::Decline => 4,
            MessageType::Ack => 5,
            MessageType::Nak => 6,
            MessageType::Release => 7,
            MessageType::Inform => 8,
        }
    }

    /// Parses a wire value into a message type: 1..=8 succeed, and every
    /// other value fails with `UnrecognizedMessageType`.
    pub fn from(val: u8) -> (r: Result<MessageType, Error>)
        ensures
            r is Ok <==> 1 <= val <= 8,
            match r {
                Ok(m) => m.spec_code() == val,
                Err(e) => e == Error::UnrecognizedMessageType,
            },
    {
        match val {
            1 => Ok(MessageType::Discover),
            2 => Ok(MessageType::Offer),
            3 => Ok(MessageType::Request),
            4 => Ok(MessageType::Decline),
            5 => Ok(MessageType::Ack),
            6 => Ok(MessageType::Nak),
            7 => Ok(MessageType::Release),
            8 => Ok(MessageType::Inform),
            _ => Err(Error::UnrecognizedMessageType),
        }
    }
}

/// An option kept as raw bytes: a code the codec does not model, with its
/// payload verbatim.
#[derive(Clone, Debug)]
pub struct RawDhcpOption {
    pub code: u8,
    pub data: Vec<u8>,
}

/// A DHCP option. Recognized codes carry parsed payloads; every other code
/// is carried raw.
#[derive(Clone, Debug)]
pub enum DhcpOption {
    DhcpMessageType(MessageType),
    ServerIdentifier(Ipv4Addr),
    RequestedIpAddress(Ipv4Addr),
    IpAddressLeaseTime(u32),
    SubnetMask(Ipv4Addr),
    Router(Vec<Ipv4Addr>),
    DomainNameServer(Vec<Ipv4Addr>),
    HostName(String),
    Message(String),
    ParameterRequestList(Vec<u8>),
    Unrecognized(RawDhcpOption),
}

/// The mathematical model of a DHCP option: payloads as sequences.
#[verifier::ext_equal]
pub enum OptModel {
    DhcpMessageType(MessageType),
    ServerIdentifier(Ipv4Addr),
    RequestedIpAddress(Ipv4Addr),
    IpAddressLeaseTime(u32),
    SubnetMask(Ipv4Addr),
    Router(Seq<Ipv4Addr>),
    DomainNameServer(Seq<Ipv4Addr>),
    HostName(Seq<char>),
    Message(Seq<char>),
    ParameterRequestList(Seq<u8>),
    Unrecognized(u8, Seq<u8>),
}

impl View for DhcpOption {
    type V = OptModel;

    open spec fn view(&self) -> OptModel {
        match self {
            DhcpOption::DhcpMessageType(m) => OptModel::DhcpMessageType(*m),
            DhcpOption::ServerIdentifier(a) => OptModel::ServerIdentifier(*a),
            DhcpOption::RequestedIpAddress(a) => OptModel::RequestedIpAddress(*a),
            DhcpOption::IpAddressLeaseTime(t) => OptModel::IpAddressLeaseTime(*t),
            DhcpOption::SubnetMask(a) => OptModel::SubnetMask(*a),
            DhcpOption::Router(l) => OptModel::Router(l@),
            DhcpOption::DomainNameServer(l) => OptModel::DomainNameServer(l@),
            DhcpOption::HostName(s) => OptModel::HostName(s@),
            DhcpOption::Message(s) => OptModel::Message(s@),
            DhcpOption::ParameterRequestList(c) => OptModel::ParameterRequestList(c@),
            DhcpOption::Unrecognized(r) => OptModel::Unrecognized(r.code, r.data@),
        }
    }
}

/// The wire code of an option.
pub open spec fn opt_code(o: OptModel) -> u8 {
    match o {
        OptModel::DhcpMessageType(_) => DHCP_MESSAGE_TYPE,
        OptModel::ServerIdentifier(_) => SERVER_IDENTIFIER,
        OptModel::RequestedIpAddress(_) => REQUESTED_IP_ADDRESS,
        OptModel::IpAddressLeaseTime(_) => IP_ADDRESS_LEASE_TIME,
        OptModel::SubnetMask(_) => SUBNET_MASK,
        OptModel::Router(_) => ROUTER,
        OptModel::DomainNameServer(_) => DOMAIN_NAME_SERVER,
        OptModel::HostName(_) => HOST_NAME,
        OptModel::Message(_) => MESSAGE,
        OptModel::ParameterRequestList(_) => PARAMETER_REQUEST_LIST,
        OptModel::Unrecognized(c, _) => c,
    }
}

/// The concatenated four-octet wire form of a list of addresses.
pub open spec fn addrs_bytes(l: Seq<Ipv4Addr>) -> Seq<u8>
    decreases l.len(),
{
    if l.len() == 0 {
        Seq::empty()
    } else {
        l[0].spec_octets() + addrs_bytes(l.drop_first())
    }
}

/// Four bytes per address.
pub proof fn lemma_addrs_bytes_len(l: Seq<Ipv4Addr>)
    ensures
        addrs_bytes(l).len() == 4 * l.len(),
    decreases l.len(),
{
    if l.len() > 0 {
        lemma_addrs_bytes_len(l.drop_first());
    }
}

/// The wire payload of an option: the bytes between the length byte and the
/// next option.
pub open spec fn opt_payload(o: OptModel) -> Seq<u8> {
    match o {
        OptModel::DhcpMessageType(m) => seq![m.spec_code()],
        OptModel::ServerIdentifier(a) => a.spec_octets(),
        OptModel::RequestedIpAddress(a) => a.spec_octets(),
        OptModel::IpAddressLeaseTime(t) => u32_be_bytes(t),
        OptModel::SubnetMask(a) => a.spec_octets(),
        OptModel::Router(l) => addrs_bytes(l),
        OptModel::DomainNameServer(l) => addrs_bytes(l),
        OptModel::HostName(s) => encode_utf8(s),
        OptModel::Message(s) => encode_utf8(s),
        OptModel::ParameterRequestList(c) => c,
        OptModel::Unrecognized(_, d) => d,
    }
}

/// True of the codes that the decoder parses into a typed variant.
pub open spec fn is_typed_code(c: u8) -> bool {
    c == DHCP_MESSAGE_TYPE || c == SERVER_IDENTIFIER || c == REQUESTED_IP_ADDRESS || c
        == IP_ADDRESS_LEASE_TIME || c == SUBNET_MASK || c == ROUTER || c == DOMAIN_NAME_SERVER || c
        == HOST_NAME || c == MESSAGE || c == PARAMETER_REQUEST_LIST
}

/// A well-formed option: its payload fits in one length byte, an address
/// list is non-empty, and a raw option does not masquerade as a typed code
/// or a sentinel.
pub open spec fn opt_wf(o: OptModel) -> bool {
    &&& opt_payload(o).len() <= 255
    &&& match o {
        OptModel::Router(l) => l.len() >= 1,
        OptModel::DomainNameServer(l) => l.len() >= 1,
        OptModel::Unrecognized(c, _) => c != 0 && c != 255 && !is_typed_code(c),
        _ => true,
    }
}

impl DhcpOption {
    /// The wire code of the option.
    pub fn code(&self) -> (r: u8)
        ensures
            r == opt_code(self@),
    {
        match self {
            DhcpOption::DhcpMessageType(_) => DHCP_MESSAGE_TYPE,
            DhcpOption::ServerIdentifier(_) => SERVER_IDENTIFIER,
            DhcpOption::RequestedIpAddress(_) => REQUESTED_IP_ADDRESS,
            DhcpOption::IpAddressLeaseTime(_) => IP_ADDRESS_LEASE_TIME,
            DhcpOption::SubnetMask(_) => SUBNET_MASK,
            DhcpOption::Router(_) => ROUTER,
            DhcpOption::DomainNameServer(_) => DOMAIN_NAME_SERVER,
            DhcpOption::HostName(_) => HOST_NAME,
            DhcpOption::Message(_) => MESSAGE,
            DhcpOption::ParameterRequestList(_) => PARAMETER_REQUEST_LIST,
            DhcpOption::Unrecognized(r) => r.code,
        }
    }

    /// The title of the option's code, or `Unknown (<code>)` for a code the
    /// registry does not know.
    pub fn title(&self) -> (r: String)
        ensures
            match spec_title(opt_code(self@)) {
                Some(t) => r@ == t,
                None => r@ == "Unknown ("@ + dec_chars(opt_code(self@) as nat) + ")"@,
            },
    {
        let c = self.code();
        match title(c) {
            Some(t) => String::from_str(t),
            None => {
                let mut s = String::from_str("Unknown (");
                append_decimal(&mut s, c);
                s.append(")");
                s
            },
        }
    }
}

/// The character of a single decimal digit.
pub open spec fn digit_char(d: nat) -> char {
    if d == 0 {
        '0'
    } else if d == 1 {
        '1'
    } else if d == 2 {
        '2'
    } else if d == 3 {
        '3'
    } else if d == 4 {
        '4'
    } else if d == 5 {
        '5'
    } else if d == 6 {
        '6'
    } else if d == 7 {
        '7'
    } else if d == 8 {
        '8'
    } else {
        '9'
    }
}

/// The decimal digits of a number, most significant first.
pub open spec fn dec_chars(n: nat) -> Seq<char>
    decreases n,
{
    if n < 10 {
        seq![digit_char(n)]
    } else {
        dec_chars(n / 10) + seq![digit_char(n % 10)]
    }
}

/// Appends one decimal digit to a string.
fn append_digit(s: &mut String, d: u8)
    requires
        d < 10,
    ensures
        final(s)@ == old(s)@ + seq![digit_char(d as nat)],
{
    match d {
        0 => {
            proof {
                reveal_strlit("0");
            }
            s.append("0");
        },
        1 => {
            proof {
                reveal_strlit("1");
            }
            s.append("1");
        },
        2 => {
            proof {
                reveal_strlit("2");
            }
            s.append("2");
        },
        3 => {
            proof {
                reveal_strlit("3");
            }
            s.append("3");
        },
        4 => {
            proof {
                reveal_strlit("4");
            }
            s.append("4");
        },
        5 => {
            proof {
                reveal_strlit("5");
            }
            s.append("5");
        },
        6 => {
            proof {
                reveal_strlit("6");
            }
            s.append("6");
        },
        7 => {
            proof {
                reveal_strlit("7");
            }
            s.append("7");
        },
        8 => {
            proof {
                reveal_strlit("8");
            }
            s.append("8");
        },
        _ => {
            proof {
                reveal_strlit("9");
            }
            s.append("9");
        },
    }
}

/// Appends the decimal digits of a byte to a string.
fn append_decimal(s: &mut String, n: u8)
    ensures
        final(s)@ == old(s)@ + dec_chars(n as nat),
{
    if n >= 100 {
        append_digit(s, n / 100);
    }
    if n >= 10 {
        append_digit(s, (n / 10) % 10);
    }
    append_digit(s, n % 10);
    proof {
        let nn = n as nat;
        if nn < 10 {
            assert(dec_chars(nn) =~= seq![digit_char(nn)]);
            assert((n % 10) as nat == nn);
        } else if nn < 100 {
            assert(dec_chars(nn) == dec_chars(nn / 10) + seq![digit_char(nn % 10)]);
            assert(dec_chars(nn / 10) =~= seq![digit_char(nn / 10)]);
            assert(((n / 10) % 10) as nat == nn / 10);
            assert(old(s)@ + seq![digit_char(nn / 10)] + seq![digit_char(nn % 10)] =~= old(s)@
                + dec_chars(nn));
        } else {
            lemma_div_denominator(n as int, 10, 10);
            assert(nn / 10 / 10 == nn / 100);
            assert(dec_chars(nn) == dec_chars(nn / 10) + seq![digit_char(nn % 10)]);
            assert(dec_chars(nn / 10) == dec_chars(nn / 10 / 10) + seq![digit_char((nn / 10) % 10)]);
            assert(dec_chars(nn / 100) =~= seq![digit_char(nn / 100)]);
            assert(old(s)@ + seq![digit_char(nn / 100)] + seq![digit_char((nn / 10) % 10)] + seq![
                digit_char(nn % 10),
            ] =~= old(s)@ + dec_chars(nn));
        }
    }
}

} // verus!
