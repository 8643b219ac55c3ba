//! The DHCP packet type and its wire codec.
//!
//! A `Packet` is the typed in-memory form of one datagram: the fixed BOOTP
//! header fields plus the decoded option list. The wire form is specified
//! once, by `spec_encode` and `spec_decode` over the packet's mathematical
//! model, and the executable encoder and decoder are proved against those
//! two functions.
use vstd::prelude::*;
use vstd::slice::slice_subrange;
use vstd::utf8::{decode_utf8, encode_utf8, valid_utf8};

use crate::addr::Ipv4Addr;
use crate::options::{
    addrs_bytes, lemma_addrs_bytes_len, opt_code, opt_payload, opt_wf, DhcpOption, MessageType,
    OptModel, RawDhcpOption, DHCP_MESSAGE_TYPE, DOMAIN_NAME_SERVER, HOST_NAME,
    IP_ADDRESS_LEASE_TIME, MESSAGE, PARAMETER_REQUEST_LIST, REQUESTED_IP_ADDRESS, ROUTER,
    SERVER_IDENTIFIER, SUBNET_MASK,
};
use crate::wire::{be_u16, be_u32, u16_be_bytes, u32_be_bytes};

verus! {

/// Why a datagram was rejected by the decoder.
#[derive(Clone, Copy, PartialEq, Eq, Structural, Debug)]
pub enum Error {
    /// Bytes 236..240 are not the magic cookie `99,130,83,99`.
    InvalidCookie,
    /// Byte 0 is neither 1 (request) nor 2 (reply).
    InvalidOpCode,
    /// Byte 2 (the hardware address length) is not 6.
    InvalidHlen,
    /// Fewer than 240 bytes, or an option length runs past the input end.
    TruncatedPacket,
    /// A text option's payload is not valid UTF-8.
    NonUtf8String,
    /// Option 53 carries a value outside 1..=8.
    UnrecognizedMessageType,
}

/// A DHCP packet: the BOOTP header fields the protocol reads, plus the
/// option list in wire order (without the END sentinel).
#[derive(Clone, Debug)]
pub struct Packet {
    /// false = BOOTREQUEST (op 1), true = BOOTREPLY (op 2).
    pub reply: bool,
    pub hops: u8,
    pub xid: u32,
    pub secs: u16,
    /// Bit 15 of the flags field.
    pub broadcast: bool,
    pub ciaddr: Ipv4Addr,
    pub yiaddr: Ipv4Addr,
    pub siaddr: Ipv4Addr,
    pub giaddr: Ipv4Addr,
    pub chaddr: [u8; 6],
    pub options: Vec<DhcpOption>,
}

/// The mathematical model of a packet.
#[verifier::ext_equal]
pub struct PacketModel {
    pub reply: bool,
    pub hops: u8,
    pub xid: u32,
    pub secs: u16,
    pub broadcast: bool,
    pub ciaddr: Ipv4Addr,
    pub yiaddr: Ipv4Addr,
    pub siaddr: Ipv4Addr,
    pub giaddr: Ipv4Addr,
    pub chaddr: Seq<u8>,
    pub options: Seq<OptModel>,
}

/// The models of a sequence of options.
pub open spec fn view_opts(s: Seq<DhcpOption>) -> Seq<OptModel> {
    Seq::new(s.len(), |i: int| s[i]@)
}

impl View for Packet {
    type V = PacketModel;

    open spec fn view(&self) -> PacketModel {
        PacketModel {
            reply: self.reply,
            hops: self.hops,
            xid: self.xid,
            secs: self.secs,
            broadcast: self.broadcast,
            ciaddr: self.ciaddr,
            yiaddr: self.yiaddr,
            siaddr: self.siaddr,
            giaddr: self.giaddr,
            chaddr: self.chaddr@,
            options: view_opts(self.options@),
        }
    }
}

/// The four magic bytes that follow the fixed header.
pub open spec fn cookie_bytes() -> Seq<u8> {
    seq![99u8, 130u8, 83u8, 99u8]
}

/// One option on the wire: code, payload length, payload.
pub open spec fn opt_wire(o: OptModel) -> Seq<u8> {
    seq![opt_code(o), opt_payload(o).len() as u8] + opt_payload(o)
}

/// A whole option list on the wire, in order, without the END sentinel.
pub open spec fn opts_wire(l: Seq<OptModel>) -> Seq<u8>
    decreases l.len(),
{
    if l.len() == 0 {
        Seq::empty()
    } else {
        opt_wire(l[0]) + opts_wire(l.drop_first())
    }
}

pub proof fn lemma_opts_wire_concat(a: Seq<OptModel>, b: Seq<OptModel>)
    ensures
        opts_wire(a + b) == opts_wire(a) + opts_wire(b),
    decreases a.len(),
{
    if a.len() == 0 {
        assert(a + b =~= b);
        assert(opts_wire(a) + opts_wire(b) =~= opts_wire(b));
    } else {
        assert((a + b).drop_first() =~= a.drop_first() + b);
        lemma_opts_wire_concat(a.drop_first(), b);
        assert(opt_wire((a + b)[0]) + (opts_wire(a.drop_first()) + opts_wire(b)) =~= (opt_wire(a[0])
            + opts_wire(a.drop_first())) + opts_wire(b));
    }
}

pub proof fn lemma_opts_wire_snoc(l: Seq<OptModel>, o: OptModel)
    ensures
        opts_wire(l.push(o)) == opts_wire(l) + opt_wire(o),
{
    assert(l.push(o) =~= l + seq![o]);
    lemma_opts_wire_concat(l, seq![o]);
    assert(seq![o].drop_first() =~= Seq::<OptModel>::empty());
    assert(opt_wire(o) + opts_wire(seq![o].drop_first()) =~= opt_wire(o));
}

/// The 236-byte fixed header followed by the cookie: bytes 0..240 of every
/// encoded packet.
pub open spec fn header_bytes(m: PacketModel) -> Seq<u8> {
    seq![if m.reply { 2u8 } else { 1u8 }, 1u8, 6u8, m.hops] + u32_be_bytes(m.xid) + u16_be_bytes(
        m.secs,
    ) + seq![if m.broadcast { 128u8 } else { 0u8 }, 0u8] + m.ciaddr.spec_octets()
        + m.yiaddr.spec_octets() + m.siaddr.spec_octets() + m.giaddr.spec_octets() + m.chaddr
        + Seq::new(202, |i: int| 0u8) + cookie_bytes()
}

pub proof fn lemma_header_bytes_len(m: PacketModel)
    requires
        m.chaddr.len() == 6,
    ensures
        header_bytes(m).len() == 240,
{
}

/// A packet the encoder accepts: six hardware address bytes, every option
/// well formed, and the whole wire form within one 1500-byte datagram.
pub open spec fn packet_wf(m: PacketModel) -> bool {
    &&& m.chaddr.len() == 6
    &&& forall|i: int| 0 <= i < m.options.len() ==> opt_wf(#[trigger] m.options[i])
    &&& 241 + opts_wire(m.options).len() <= 1500
}

/// The encoded form of a packet: header, cookie, options, the END byte,
/// and zero padding up to the 272-byte minimum.
pub open spec fn spec_encode(m: PacketModel) -> Seq<u8> {
    let raw = header_bytes(m) + opts_wire(m.options) + seq![255u8];
    if raw.len() < 272 {
        raw + Seq::new((272 - raw.len()) as nat, |i: int| 0u8)
    } else {
        raw
    }
}

/// The first option with the given code, if any.
pub open spec fn find_option(opts: Seq<OptModel>, code: u8) -> Option<OptModel>
    decreases opts.len(),
{
    if opts.len() == 0 {
        None
    } else if opt_code(opts[0]) == code {
        Some(opts[0])
    } else {
        find_option(opts.drop_first(), code)
    }
}

/// The address read from four consecutive bytes.
pub open spec fn addr_at(b: Seq<u8>, i: int) -> Ipv4Addr {
    Ipv4Addr { a: b[i], b: b[i + 1], c: b[i + 2], d: b[i + 3] }
}

/// The message type with the given wire value in 1..=8.
pub open spec fn msg_from(v: u8) -> MessageType {
    if v == 1 {
        MessageType::Discover
    } else if v == 2 {
        MessageType::Offer
    } else if v == 3 {
        MessageType::Request
    } else if v == 4 {
        MessageType::Decline
    } else if v == 5 {
        MessageType::Ack
    } else if v == 6 {
        MessageType::Nak
    } else if v == 7 {
        MessageType::Release
    } else {
        MessageType::Inform
    }
}

/// The addresses read from the leading four-byte groups of a payload; a
/// trailing fragment shorter than four bytes is ignored.
pub open spec fn parse_addrs(b: Seq<u8>) -> Seq<Ipv4Addr>
    decreases b.len(),
{
    if b.len() < 4 {
        Seq::empty()
    } else {
        seq![addr_at(b, 0)] + parse_addrs(b.skip(4))
    }
}

/// The typed option parsed from one option's code and payload, or the
/// error that rejects the whole datagram.
pub open spec fn parse_opt_payload(code: u8, data: Seq<u8>) -> Result<OptModel, Error> {
    if code == DHCP_MESSAGE_TYPE {
        if data.len() < 1 {
            Err(Error::TruncatedPacket)
        } else if 1 <= data[0] <= 8 {
            Ok(OptModel::DhcpMessageType(msg_from(data[0])))
        } else {
            Err(Error::UnrecognizedMessageType)
        }
    } else if code == SERVER_IDENTIFIER {
        if data.len() < 4 {
            Err(Error::TruncatedPacket)
        } else {
            Ok(OptModel::ServerIdentifier(addr_at(data, 0)))
        }
    } else if code == REQUESTED_IP_ADDRESS {
        if data.len() < 4 {
            Err(Error::TruncatedPacket)
        } else {
            Ok(OptModel::RequestedIpAddress(addr_at(data, 0)))
        }
    } else if code == SUBNET_MASK {
        if data.len() < 4 {
            Err(Error::TruncatedPacket)
        } else {
            Ok(OptModel::SubnetMask(addr_at(data, 0)))
        }
    } else if code == IP_ADDRESS_LEASE_TIME {
        if data.len() < 4 {
            Err(Error::TruncatedPacket)
        } else {
            Ok(OptModel::IpAddressLeaseTime(be_u32(data[0], data[1], data[2], data[3])))
        }
    } else if code == ROUTER {
        Ok(OptModel::Router(parse_addrs(data)))
    } else if code == DOMAIN_NAME_SERVER {
        Ok(OptModel::DomainNameServer(parse_addrs(data)))
    } else if code == HOST_NAME {
        if valid_utf8(data) {
            Ok(OptModel::HostName(decode_utf8(data)))
        } else {
            Err(Error::NonUtf8String)
        }
    } else if code == MESSAGE {
        if valid_utf8(data) {
            Ok(OptModel::Message(decode_utf8(data)))
        } else {
            Err(Error::NonUtf8String)
        }
    } else if code == PARAMETER_REQUEST_LIST {
        Ok(OptModel::ParameterRequestList(data))
    } else {
        Ok(OptModel::Unrecognized(code, data))
    }
}

/// One step of the option-region parse at index `i`, where `b[i]` is an
/// option code (neither PAD nor END): the parsed option and the index of
/// the byte after its payload.
pub open spec fn spec_parse_one(b: Seq<u8>, i: int) -> Result<(OptModel, int), Error> {
    if i + 1 >= b.len() {
        Err(Error::TruncatedPacket)
    } else {
        let len = b[i + 1] as int;
        if i + 2 + len > b.len() {
            Err(Error::TruncatedPacket)
        } else {
            match parse_opt_payload(b[i], b.subrange(i + 2, i + 2 + len)) {
                Err(e) => Err(e),
                Ok(o) => Ok((o, i + 2 + len)),
            }
        }
    }
}

/// The options parsed from index `i` up to the END byte. PAD bytes are
/// skipped. An option's payload may end exactly at the input end, but a
/// length byte that would read past it fails, as does running out of
/// input without meeting END.
pub open spec fn spec_parse_opts(b: Seq<u8>, i: int) -> Result<Seq<OptModel>, Error>
    decreases b.len() - i,
{
    if i < 0 || i >= b.len() {
        Err(Error::TruncatedPacket)
    } else if b[i] == 255 {
        Ok(Seq::empty())
    } else if b[i] == 0 {
        spec_parse_opts(b, i + 1)
    } else if i + 1 >= b.len() {
        Err(Error::TruncatedPacket)
    } else if i + 2 + b[i + 1] > b.len() {
        Err(Error::TruncatedPacket)
    } else {
        match parse_opt_payload(b[i], b.subrange(i + 2, i + 2 + b[i + 1])) {
            Err(e) => Err(e),
            Ok(o) => match spec_parse_opts(b, i + 2 + b[i + 1]) {
                Err(e) => Err(e),
                Ok(rest) => Ok(seq![o] + rest),
            },
        }
    }
}

/// At an option code, the region parse is one step followed by the parse
/// of the rest.
pub proof fn lemma_parse_opts_step(b: Seq<u8>, i: int)
    requires
        0 <= i < b.len(),
        b[i] != 0,
        b[i] != 255,
    ensures
        spec_parse_opts(b, i) == match spec_parse_one(b, i) {
            Err(e) => Err::<Seq<OptModel>, Error>(e),
            Ok((o, n)) => match spec_parse_opts(b, n) {
                Err(e) => Err::<Seq<OptModel>, Error>(e),
                Ok(rest) => Ok::<Seq<OptModel>, Error>(seq![o] + rest),
            },
        },
{
}

/// The packet decoded from a datagram, or the error that rejects it. The
/// checks run in wire order: length, op, hlen, cookie, then the options.
pub open spec fn spec_decode(b: Seq<u8>) -> Result<PacketModel, Error> {
    if b.len() < 240 {
        Err(Error::TruncatedPacket)
    } else if b[0] != 1 && b[0] != 2 {
        Err(Error::InvalidOpCode)
    } else if b[2] != 6 {
        Err(Error::InvalidHlen)
    } else if b.subrange(236, 240) != cookie_bytes() {
        Err(Error::InvalidCookie)
    } else {
        match spec_parse_opts(b, 240) {
            Err(e) => Err(e),
            Ok(opts) => Ok(
                PacketModel {
                    reply: b[0] == 2,
                    hops: b[3],
                    xid: be_u32(b[4], b[5], b[6], b[7]),
                    secs: be_u16(b[8], b[9]),
                    broadcast: b[10] & 128 == 128,
                    ciaddr: addr_at(b, 12),
                    yiaddr: addr_at(b, 16),
                    siaddr: addr_at(b, 20),
                    giaddr: addr_at(b, 24),
                    chaddr: b.subrange(28, 34),
                    options: opts,
                },
            ),
        }
    }
}

/// Appends a slice's bytes to a byte vector.
fn push_bytes(out: &mut Vec<u8>, b: &[u8])
    ensures
        final(out)@ == old(out)@ + b@,
{
    let ghost orig = old(out)@;
    let mut i: usize = 0;
    while i < b.len()
        invariant
            i <= b@.len(),
            out@ == orig + b@.subrange(0, i as int),
        decreases b@.len() - i,
    {
        out.push(b[i]);
        proof {
            assert(orig + b@.subrange(0, i as int) + seq![b@[i as int]] =~= orig + b@.subrange(
                0,
                i as int + 1,
            ));
        }
        i += 1;
    }
    proof {
        assert(b@.subrange(0, b@.len() as int) =~= b@);
    }
}

/// Appends one address's four octets.
fn push_addr(out: &mut Vec<u8>, a: &Ipv4Addr)
    ensures
        final(out)@ == old(out)@ + a.spec_octets(),
{
    out.push(a.a);
    out.push(a.b);
    out.push(a.c);
    out.push(a.d);
    proof {
        assert(old(out)@ + seq![a.a] + seq![a.b] + seq![a.c] + seq![a.d] =~= old(out)@
            + a.spec_octets());
    }
}

/// Appends one option in wire form: code, payload length, payload.
fn encode_option(out: &mut Vec<u8>, o: &DhcpOption)
    requires
        opt_wf(o@),
    ensures
        final(out)@ == old(out)@ + opt_wire(o@),
{
    let ghost orig = old(out)@;
    match o {
        DhcpOption::DhcpMessageType(m) => {
            out.push(DHCP_MESSAGE_TYPE);
            out.push(1);
            out.push(m.code());
            proof {
                assert(orig + seq![DHCP_MESSAGE_TYPE] + seq![1u8] + seq![m.spec_code()] =~= orig
                    + opt_wire(o@));
            }
        },
        DhcpOption::ServerIdentifier(a) => {
            out.push(SERVER_IDENTIFIER);
            out.push(4);
            push_addr(out, a);
            proof {
                assert(orig + seq![SERVER_IDENTIFIER] + seq![4u8] + a.spec_octets() =~= orig
                    + opt_wire(o@));
            }
        },
        DhcpOption::RequestedIpAddress(a) => {
            out.push(REQUESTED_IP_ADDRESS);
            out.push(4);
            push_addr(out, a);
            proof {
                assert(orig + seq![REQUESTED_IP_ADDRESS] + seq![4u8] + a.spec_octets() =~= orig
                    + opt_wire(o@));
            }
        },
        DhcpOption::SubnetMask(a) => {
            out.push(SUBNET_MASK);
            out.push(4);
            push_addr(out, a);
            proof {
                assert(orig + seq![SUBNET_MASK] + seq![4u8] + a.spec_octets() =~= orig + opt_wire(
                    o@,
                ));
            }
        },
        DhcpOption::IpAddressLeaseTime(t) => {
            let t = *t;
            out.push(IP_ADDRESS_LEASE_TIME);
            out.push(4);
            out.push(((t >> 24) & 0xff) as u8);
            out.push(((t >> 16) & 0xff) as u8);
            out.push(((t >> 8) & 0xff) as u8);
            out.push((t & 0xff) as u8);
            proof {
                assert(orig + seq![IP_ADDRESS_LEASE_TIME] + seq![4u8] + seq![(((t >> 24)
                    & 0xff) as u8)] + seq![(((t >> 16) & 0xff) as u8)] + seq![(((t >> 8)
                    & 0xff) as u8)] + seq![((t & 0xff) as u8)] =~= orig + opt_wire(o@));
            }
        },
        DhcpOption::Router(l) => {
            proof {
                lemma_addrs_bytes_len(l@);
            }
            out.push(ROUTER);
            out.push((l.len() * 4) as u8);
            push_addr_list(out, l);
            proof {
                assert(orig + seq![ROUTER] + seq![((l@.len() * 4) as u8)] + addrs_bytes(l@) =~= orig
                    + opt_wire(o@));
            }
        },
        DhcpOption::DomainNameServer(l) => {
            proof {
                lemma_addrs_bytes_len(l@);
            }
            out.push(DOMAIN_NAME_SERVER);
            out.push((l.len() * 4) as u8);
            push_addr_list(out, l);
            proof {
                assert(orig + seq![DOMAIN_NAME_SERVER] + seq![((l@.len() * 4) as u8)] + addrs_bytes(
                    l@,
                ) =~= orig + opt_wire(o@));
            }
        },
        DhcpOption::HostName(s) => {
            let bytes = s.as_str().as_bytes();
            out.push(HOST_NAME);
            out.push(bytes.len() as u8);
            push_bytes(out, bytes);
            proof {
                assert(orig + seq![HOST_NAME] + seq![(bytes@.len() as u8)] + bytes@ =~= orig
                    + opt_wire(o@));
            }
        },
        DhcpOption::Message(s) => {
            let bytes = s.as_str().as_bytes();
            out.push(MESSAGE);
            out.push(bytes.len() as u8);
            push_bytes(out, bytes);
            proof {
                assert(orig + seq![MESSAGE] + seq![(bytes@.len() as u8)] + bytes@ =~= orig
                    + opt_wire(o@));
            }
        },
        DhcpOption::ParameterRequestList(v) => {
            out.push(PARAMETER_REQUEST_LIST);
            out.push(v.len() as u8);
            push_bytes(out, v.as_slice());
            proof {
                assert(orig + seq![PARAMETER_REQUEST_LIST] + seq![(v@.len() as u8)] + v@ =~= orig
                    + opt_wire(o@));
            }
        },
        DhcpOption::Unrecognized(r) => {
            out.push(r.code);
            out.push(r.data.len() as u8);
            push_bytes(out, r.data.as_slice());
            proof {
                assert(orig + seq![r.code] + seq![(r.data@.len() as u8)] + r.data@ =~= orig
                    + opt_wire(o@));
            }
        },
    }
}

/// Appends the four-octet forms of a list of addresses.
fn push_addr_list(out: &mut Vec<u8>, l: &Vec<Ipv4Addr>)
    ensures
        final(out)@ == old(out)@ + addrs_bytes(l@),
{
    let ghost orig = old(out)@;
    let mut i: usize = 0;
    while i < l.len()
        invariant
            i <= l@.len(),
            out@ == orig + addrs_bytes(l@.subrange(0, i as int)),
        decreases l@.len() - i,
    {
        push_addr(out, &l[i]);
        proof {
            lemma_addrs_bytes_snoc(l@.subrange(0, i as int), l@[i as int]);
            assert(l@.subrange(0, i as int).push(l@[i as int]) =~= l@.subrange(0, i as int + 1));
        }
        i += 1;
    }
    proof {
        assert(l@.subrange(0, l@.len() as int) =~= l@);
    }
}

pub proof fn lemma_addrs_bytes_snoc(l: Seq<Ipv4Addr>, a: Ipv4Addr)
    ensures
        addrs_bytes(l.push(a)) == addrs_bytes(l) + a.spec_octets(),
    decreases l.len(),
{
    if l.len() == 0 {
        assert(l.push(a).drop_first() =~= Seq::<Ipv4Addr>::empty());
        assert(a.spec_octets() + addrs_bytes(Seq::<Ipv4Addr>::empty()) =~= addrs_bytes(l)
            + a.spec_octets());
    } else {
        assert(l.push(a).drop_first() =~= l.drop_first().push(a));
        lemma_addrs_bytes_snoc(l.drop_first(), a);
        assert(l.push(a)[0] == l[0]);
        assert(l[0].spec_octets() + (addrs_bytes(l.drop_first()) + a.spec_octets()) =~= (
        l[0].spec_octets() + addrs_bytes(l.drop_first())) + a.spec_octets());
    }
}

impl Packet {
    /// Parses a datagram into a packet; exactly the datagrams accepted by
    /// `spec_decode` succeed, and a rejected one reports its error kind.
    pub fn from(input: &[u8]) -> (r: Result<Packet, Error>)
        ensures
            match r {
                Ok(p) => spec_decode(input@) == Ok::<PacketModel, Error>(p@),
                Err(e) => spec_decode(input@) == Err::<PacketModel, Error>(e),
            },
    {
        if input.len() < 240 {
            return Err(Error::TruncatedPacket);
        }
        let op = input[0];
        if op != 1 && op != 2 {
            return Err(Error::InvalidOpCode);
        }
        if input[2] != 6 {
            return Err(Error::InvalidHlen);
        }
        if input[236] != 99 || input[237] != 130 || input[238] != 83 || input[239] != 99 {
            proof {
                assert(input@.subrange(236, 240)[0] == input@[236]);
                assert(input@.subrange(236, 240)[1] == input@[237]);
                assert(input@.subrange(236, 240)[2] == input@[238]);
                assert(input@.subrange(236, 240)[3] == input@[239]);
            }
            return Err(Error::InvalidCookie);
        }
        proof {
            assert(input@.subrange(236, 240) =~= cookie_bytes());
        }
        let mut opts: Vec<DhcpOption> = Vec::new();
        let mut i: usize = 240;
        proof {
            assert(view_opts(opts@) =~= Seq::<OptModel>::empty());
            if spec_parse_opts(input@, 240) is Ok {
                let s = spec_parse_opts(input@, 240)->Ok_0;
                assert(view_opts(opts@) + s =~= s);
            }
        }
        while i < input.len()
            invariant
                240 <= i <= input@.len(),
                op == input@[0],
                op == 1 || op == 2,
                input@[2] == 6,
                input@.subrange(236, 240) == cookie_bytes(),
                prepend_opts(view_opts(opts@), spec_parse_opts(input@, i as int)) == spec_parse_opts(
                    input@,
                    240,
                ),
            decreases input@.len() - i,
        {
            let c = input[i];
            if c == 255 {
                proof {
                    assert(spec_parse_opts(input@, i as int) == Ok::<Seq<OptModel>, Error>(
                        Seq::empty(),
                    ));
                    assert(view_opts(opts@) + Seq::<OptModel>::empty() =~= view_opts(opts@));
                }
                let xid = ((input[4] as u32) << 24) | ((input[5] as u32) << 16) | ((
                input[6] as u32) << 8) | (input[7] as u32);
                let secs = ((input[8] as u16) << 8) | (input[9] as u16);
                let p = Packet {
                    reply: op == 2,
                    hops: input[3],
                    xid,
                    secs,
                    broadcast: input[10] & 128 == 128,
                    ciaddr: Ipv4Addr::new(input[12], input[13], input[14], input[15]),
                    yiaddr: Ipv4Addr::new(input[16], input[17], input[18], input[19]),
                    siaddr: Ipv4Addr::new(input[20], input[21], input[22], input[23]),
                    giaddr: Ipv4Addr::new(input[24], input[25], input[26], input[27]),
                    chaddr: [input[28], input[29], input[30], input[31], input[32], input[33]],
                    options: opts,
                };
                proof {
                    assert(p@.chaddr =~= input@.subrange(28, 34));
                    assert(spec_decode(input@) matches Ok(m) && m =~= p@);
                }
                return Ok(p);
            } else if c == 0 {
                i = i + 1;
            } else {
                match decode_option(input, i) {
                    Err(e) => {
                        proof {
                            lemma_parse_opts_step(input@, i as int);
                        }
                        return Err(e);
                    },
                    Ok((o, next)) => {
                        proof {
                            lemma_parse_opts_step(input@, i as int);
                            let pre = view_opts(opts@);
                            assert(view_opts(opts@.push(o)) =~= pre + seq![o@]);
                            if spec_parse_opts(input@, next as int) is Ok {
                                let rest = spec_parse_opts(input@, next as int)->Ok_0;
                                assert((pre + seq![o@]) + rest =~= pre + (seq![o@] + rest));
                            }
                        }
                        opts.push(o);
                        i = next;
                    },
                }
            }
        }
        proof {
            assert(spec_parse_opts(input@, i as int) == Err::<Seq<OptModel>, Error>(
                Error::TruncatedPacket,
            ));
        }
        Err(Error::TruncatedPacket)
    }

    /// The first option with the given code, if any; options are searched
    /// in wire order.
    pub fn option(&self, code: u8) -> (r: Option<&DhcpOption>)
        ensures
            match r {
                Some(o) => find_option(self@.options, code) == Some(o@),
                None => find_option(self@.options, code) is None,
            },
    {
        let ghost all = self@.options;
        proof {
            assert(all.skip(0) =~= all);
        }
        let mut i: usize = 0;
        while i < self.options.len()
            invariant
                i <= all.len(),
                all == view_opts(self.options@),
                find_option(all, code) == find_option(all.skip(i as int), code),
            decreases all.len() - i,
        {
            proof {
                assert(all.skip(i as int).len() > 0);
                assert(all.skip(i as int)[0] == all[i as int]);
                assert(all.skip(i as int).drop_first() =~= all.skip(i as int + 1));
            }
            if self.options[i].code() == code {
                return Some(&self.options[i]);
            }
            i += 1;
        }
        proof {
            assert(all.skip(all.len() as int) =~= Seq::<OptModel>::empty());
        }
        None
    }

    /// The packet's DHCP message type (option 53). Fails when the option
    /// is absent or, on a hand-built packet, is not the typed variant.
    pub fn message_type(&self) -> (r: Result<MessageType, Error>)
        ensures
            match find_option(self@.options, DHCP_MESSAGE_TYPE) {
                Some(o) => match o {
                    OptModel::DhcpMessageType(m) => r == Ok::<MessageType, Error>(m),
                    _ => r == Err::<MessageType, Error>(Error::UnrecognizedMessageType),
                },
                None => r == Err::<MessageType, Error>(Error::UnrecognizedMessageType),
            },
    {
        match self.option(DHCP_MESSAGE_TYPE) {
            Some(DhcpOption::DhcpMessageType(m)) => Ok(*m),
            _ => Err(Error::UnrecognizedMessageType),
        }
    }

    /// True exactly when the encoder accepts the packet.
    pub fn encodable(&self) -> (r: bool)
        ensures
            r == packet_wf(self@),
    {
        let ghost all = self@.options;
        let mut total: usize = 241;
        let mut i: usize = 0;
        while i < self.options.len()
            invariant
                i <= all.len(),
                all == view_opts(self.options@),
                total == 241 + opts_wire(all.subrange(0, i as int)).len(),
                total <= 1500,
                forall|j: int| 0 <= j < i ==> opt_wf(#[trigger] all[j]),
            decreases all.len() - i,
        {
            if !opt_is_wf(&self.options[i]) {
                return false;
            }
            let pl = payload_len(&self.options[i]);
            proof {
                lemma_opts_wire_snoc(all.subrange(0, i as int), all[i as int]);
                assert(all.subrange(0, i as int).push(all[i as int]) =~= all.subrange(
                    0,
                    i as int + 1,
                ));
            }
            if pl + 2 > 1500 - total {
                proof {
                    lemma_opts_wire_concat(
                        all.subrange(0, i as int + 1),
                        all.skip(i as int + 1),
                    );
                    assert(all.subrange(0, i as int + 1) + all.skip(i as int + 1) =~= all);
                }
                return false;
            }
            total = total + 2 + pl;
            i += 1;
        }
        proof {
            assert(all.subrange(0, all.len() as int) =~= all);
        }
        true
    }

    /// Serializes the packet: fixed header, cookie, each option in order,
    /// the END byte, and zero padding up to 272 bytes.
    pub fn encode(&self) -> (r: Vec<u8>)
        requires
            packet_wf(self@),
        ensures
            r@ == spec_encode(self@),
            272 <= r@.len() <= 1500,
    {
        let mut out: Vec<u8> = Vec::new();
        out.push(if self.reply {
            2
        } else {
            1
        });
        out.push(1);
        out.push(6);
        out.push(self.hops);
        out.push(((self.xid >> 24) & 0xff) as u8);
        out.push(((self.xid >> 16) & 0xff) as u8);
        out.push(((self.xid >> 8) & 0xff) as u8);
        out.push((self.xid & 0xff) as u8);
        out.push(((self.secs >> 8) & 0xff) as u8);
        out.push((self.secs & 0xff) as u8);
        out.push(if self.broadcast {
            128
        } else {
            0
        });
        out.push(0);
        push_addr(&mut out, &self.ciaddr);
        push_addr(&mut out, &self.yiaddr);
        push_addr(&mut out, &self.siaddr);
        push_addr(&mut out, &self.giaddr);
        let mut i: usize = 0;
        while i < 6
            invariant
                i <= 6,
                out@.len() == 28 + i,
                out@ == header_bytes(self@).subrange(0, 28 + i as int),
            decreases 6 - i,
        {
            proof {
                assert(header_bytes(self@)[28 + i as int] == self@.chaddr[i as int]);
            }
            out.push(self.chaddr[i]);
            proof {
                assert(out@ =~= header_bytes(self@).subrange(0, 28 + i as int + 1));
            }
            i += 1;
        }
        let mut z: usize = 0;
        while z < 202
            invariant
                z <= 202,
                out@.len() == 34 + z,
                out@ == header_bytes(self@).subrange(0, 34 + z as int),
            decreases 202 - z,
        {
            proof {
                assert(header_bytes(self@)[34 + z as int] == 0u8);
            }
            out.push(0);
            proof {
                assert(out@ =~= header_bytes(self@).subrange(0, 34 + z as int + 1));
            }
            z += 1;
        }
        out.push(99);
        out.push(130);
        out.push(83);
        out.push(99);
        proof {
            lemma_header_bytes_len(self@);
            assert(out@ =~= header_bytes(self@));
        }
        let ghost all = self@.options;
        let mut k: usize = 0;
        while k < self.options.len()
            invariant
                k <= all.len(),
                all == view_opts(self.options@),
                forall|j: int| 0 <= j < all.len() ==> opt_wf(#[trigger] all[j]),
                out@ == header_bytes(self@) + opts_wire(all.subrange(0, k as int)),
            decreases all.len() - k,
        {
            encode_option(&mut out, &self.options[k]);
            proof {
                lemma_opts_wire_snoc(all.subrange(0, k as int), all[k as int]);
                assert(all.subrange(0, k as int).push(all[k as int]) =~= all.subrange(
                    0,
                    k as int + 1,
                ));
                assert(header_bytes(self@) + opts_wire(all.subrange(0, k as int)) + opt_wire(
                    all[k as int],
                ) =~= header_bytes(self@) + opts_wire(all.subrange(0, k as int + 1)));
            }
            k += 1;
        }
        proof {
            assert(all.subrange(0, all.len() as int) =~= all);
        }
        out.push(255);
        let ghost raw = header_bytes(self@) + opts_wire(all) + seq![255u8];
        proof {
            assert(out@ =~= raw);
            lemma_header_bytes_len(self@);
            assert(out@ =~= raw + Seq::new((out@.len() - raw.len()) as nat, |i: int| 0u8));
        }
        while out.len() < 272
            invariant
                raw.len() <= out@.len(),
                out@.len() <= 272 || out@.len() == raw.len(),
                raw == header_bytes(self@) + opts_wire(all) + seq![255u8],
                raw.len() <= 1500,
                out@ == raw + Seq::new((out@.len() - raw.len()) as nat, |i: int| 0u8),
            decreases 272 - out@.len(),
        {
            out.push(0);
            proof {
                assert(out@ =~= raw + Seq::new((out@.len() - raw.len()) as nat, |i: int| 0u8));
            }
        }
        proof {
            if raw.len() >= 272 {
                assert(out@ =~= raw);
            }
            assert(out@ =~= spec_encode(self@));
        }
        out
    }
}

/// True exactly when the option is well formed.
fn opt_is_wf(o: &DhcpOption) -> (r: bool)
    ensures
        r == opt_wf(o@),
{
    match o {
        DhcpOption::DhcpMessageType(_) => true,
        DhcpOption::ServerIdentifier(_) => true,
        DhcpOption::RequestedIpAddress(_) => true,
        DhcpOption::IpAddressLeaseTime(_) => true,
        DhcpOption::SubnetMask(_) => true,
        DhcpOption::Router(l) => {
            proof {
                lemma_addrs_bytes_len(l@);
            }
            1 <= l.len() && l.len() <= 63
        },
        DhcpOption::DomainNameServer(l) => {
            proof {
                lemma_addrs_bytes_len(l@);
            }
            1 <= l.len() && l.len() <= 63
        },
        DhcpOption::HostName(s) => s.as_str().as_bytes().len() <= 255,
        DhcpOption::Message(s) => s.as_str().as_bytes().len() <= 255,
        DhcpOption::ParameterRequestList(v) => v.len() <= 255,
        DhcpOption::Unrecognized(r) => r.data.len() <= 255 && r.code != 0 && r.code != 255
            && r.code != DHCP_MESSAGE_TYPE && r.code != SERVER_IDENTIFIER && r.code
            != REQUESTED_IP_ADDRESS && r.code != IP_ADDRESS_LEASE_TIME && r.code != SUBNET_MASK
            && r.code != ROUTER && r.code != DOMAIN_NAME_SERVER && r.code != HOST_NAME && r.code
            != MESSAGE && r.code != PARAMETER_REQUEST_LIST,
    }
}

/// Every well-formed packet encodes to between 272 and 1500 bytes.
pub proof fn lemma_encode_length(m: PacketModel)
    requires
        packet_wf(m),
    ensures
        272 <= spec_encode(m).len() <= 1500,
{
    lemma_header_bytes_len(m);
}

/// The magic cookie stands at bytes 236..240 of every well-formed
/// packet's encoding.
pub proof fn lemma_encode_cookie(m: PacketModel)
    requires
        packet_wf(m),
    ensures
        spec_encode(m).subrange(236, 240) == cookie_bytes(),
{
    lemma_header_bytes_len(m);
    let b = spec_encode(m);
    let h = header_bytes(m);
    assert(h[236] == 99 && h[237] == 130 && h[238] == 83 && h[239] == 99);
    assert(b[236] == h[236] && b[237] == h[237] && b[238] == h[238] && b[239] == h[239]);
    assert(b.subrange(236, 240) =~= cookie_bytes());
}

/// The END byte closes the options region of every well-formed packet's
/// encoding, and only PAD zeros follow it.
pub proof fn lemma_encode_end(m: PacketModel)
    requires
        packet_wf(m),
    ensures
        ({
            let b = spec_encode(m);
            let e = 240 + opts_wire(m.options).len() as int;
            &&& 240 <= e < b.len()
            &&& b[e] == 255
            &&& forall|k: int| e < k < b.len() ==> b[k] == 0
        }),
{
    lemma_header_bytes_len(m);
    let raw = header_bytes(m) + opts_wire(m.options) + seq![255u8];
    let e = 240 + opts_wire(m.options).len() as int;
    assert(raw[e] == 255);
}

/// Any input under 240 bytes is rejected as truncated.
pub proof fn lemma_decode_short(b: Seq<u8>)
    requires
        b.len() < 240,
    ensures
        spec_decode(b) == Err::<PacketModel, Error>(Error::TruncatedPacket),
{
}

/// An op byte that is neither 1 nor 2 — 0 or 3, say — is rejected as an
/// invalid op code.
pub proof fn lemma_decode_bad_op(b: Seq<u8>)
    requires
        b.len() >= 240,
        b[0] != 1,
        b[0] != 2,
    ensures
        spec_decode(b) == Err::<PacketModel, Error>(Error::InvalidOpCode),
{
}

/// An hlen byte other than 6 — 7, say — is rejected as an invalid
/// hardware address length.
pub proof fn lemma_decode_bad_hlen(b: Seq<u8>)
    requires
        b.len() >= 240,
        b[0] == 1 || b[0] == 2,
        b[2] != 6,
    ensures
        spec_decode(b) == Err::<PacketModel, Error>(Error::InvalidHlen),
{
}

/// Flipping any single byte of the cookie makes the decoder reject the
/// input as an invalid cookie.
pub proof fn lemma_decode_bad_cookie(b: Seq<u8>, i: int)
    requires
        b.len() >= 240,
        b[0] == 1 || b[0] == 2,
        b[2] == 6,
        236 <= i < 240,
        b[i] != cookie_bytes()[i - 236],
    ensures
        spec_decode(b) == Err::<PacketModel, Error>(Error::InvalidCookie),
{
    assert(b.subrange(236, 240)[i - 236] == b[i]);
}

/// An option whose length byte would read past the input end is a parse
/// error: the whole datagram is rejected as truncated.
pub proof fn lemma_parse_length_past_end(b: Seq<u8>, i: int)
    requires
        0 <= i,
        i + 1 < b.len(),
        i + 2 + b[i + 1] > b.len(),
    ensures
        spec_parse_one(b, i) == Err::<(OptModel, int), Error>(Error::TruncatedPacket),
{
}

/// A message type option carrying a value outside 1..=8 — 9, say — is
/// rejected as an unrecognized message type.
pub proof fn lemma_parse_bad_message_type(data: Seq<u8>)
    requires
        data.len() >= 1,
        !(1 <= data[0] <= 8),
    ensures
        parse_opt_payload(DHCP_MESSAGE_TYPE, data) == Err::<OptModel, Error>(
            Error::UnrecognizedMessageType,
        ),
{
}

/// A text option whose payload is not valid UTF-8 rejects the datagram.
pub proof fn lemma_parse_non_utf8_text(code: u8, data: Seq<u8>)
    requires
        code == HOST_NAME || code == MESSAGE,
        !valid_utf8(data),
    ensures
        parse_opt_payload(code, data) == Err::<OptModel, Error>(Error::NonUtf8String),
{
}

/// Reading back the wire form of an address list gives the list.
proof fn lemma_parse_addrs_roundtrip(l: Seq<Ipv4Addr>)
    ensures
        parse_addrs(addrs_bytes(l)) == l,
    decreases l.len(),
{
    lemma_addrs_bytes_len(l);
    if l.len() == 0 {
        assert(parse_addrs(addrs_bytes(l)) =~= l);
    } else {
        let bytes = addrs_bytes(l);
        lemma_addrs_bytes_len(l.drop_first());
        assert(bytes.len() >= 4);
        assert(addr_at(bytes, 0) == l[0]);
        assert(bytes.skip(4) =~= addrs_bytes(l.drop_first()));
        lemma_parse_addrs_roundtrip(l.drop_first());
        assert(seq![l[0]] + l.drop_first() =~= l);
    }
}

/// Reading back one well-formed option's payload gives the option.
proof fn lemma_parse_payload_roundtrip(o: OptModel)
    requires
        opt_wf(o),
    ensures
        parse_opt_payload(opt_code(o), opt_payload(o)) == Ok::<OptModel, Error>(o),
{
    match o {
        OptModel::DhcpMessageType(mt) => {
            assert(opt_payload(o)[0] == mt.spec_code());
            assert(1 <= mt.spec_code() <= 8);
            assert(msg_from(mt.spec_code()) == mt);
        },
        OptModel::ServerIdentifier(a) => {
            assert(addr_at(a.spec_octets(), 0) == a);
        },
        OptModel::RequestedIpAddress(a) => {
            assert(addr_at(a.spec_octets(), 0) == a);
        },
        OptModel::SubnetMask(a) => {
            assert(addr_at(a.spec_octets(), 0) == a);
        },
        OptModel::IpAddressLeaseTime(t) => {
            crate::wire::lemma_u32_be_roundtrip(t);
        },
        OptModel::Router(l) => {
            lemma_parse_addrs_roundtrip(l);
        },
        OptModel::DomainNameServer(l) => {
            lemma_parse_addrs_roundtrip(l);
        },
        OptModel::HostName(s) => {
            vstd::utf8::encode_utf8_valid_utf8(s);
            vstd::utf8::encode_utf8_decode_utf8(s);
        },
        OptModel::Message(s) => {
            vstd::utf8::encode_utf8_valid_utf8(s);
            vstd::utf8::encode_utf8_decode_utf8(s);
        },
        OptModel::ParameterRequestList(_) => {},
        OptModel::Unrecognized(_, _) => {},
    }
}

/// The option code of a well-formed option is neither PAD nor END.
proof fn lemma_opt_code_not_sentinel(o: OptModel)
    requires
        opt_wf(o),
    ensures
        opt_code(o) != 0,
        opt_code(o) != 255,
{
}

/// Parsing an option region that is the wire form of a well-formed option
/// list followed by END gives the list back.
proof fn lemma_parse_opts_of_wire(b: Seq<u8>, i: int, opts: Seq<OptModel>)
    requires
        forall|k: int| 0 <= k < opts.len() ==> opt_wf(#[trigger] opts[k]),
        0 <= i,
        i + opts_wire(opts).len() < b.len(),
        b.subrange(i, i + opts_wire(opts).len()) == opts_wire(opts),
        b[i + opts_wire(opts).len()] == 255,
    ensures
        spec_parse_opts(b, i) == Ok::<Seq<OptModel>, Error>(opts),
    decreases opts.len(),
{
    if opts.len() == 0 {
        assert(b[i] == 255);
        assert(opts =~= Seq::<OptModel>::empty());
    } else {
        let o = opts[0];
        let w = opt_wire(o);
        let rest = opts.drop_first();
        let pl = opt_payload(o).len() as int;
        assert(w.len() == 2 + pl);
        assert(opts_wire(opts) == w + opts_wire(rest));
        let wl = opts_wire(opts).len() as int;
        assert(wl == w.len() + opts_wire(rest).len());
        let sub = b.subrange(i, i + wl);
        assert(sub == opts_wire(opts));
        assert(sub[0] == b[i]);
        assert(sub[1] == b[i + 1]);
        assert(b[i] == w[0]);
        assert(w[0] == opt_code(o));
        lemma_opt_code_not_sentinel(o);
        assert(b[i + 1] == w[1]);
        assert(w[1] == pl as u8);
        assert(opt_payload(o).len() <= 255);
        assert(b[i + 1] as int == pl);
        assert(i + 2 + pl <= b.len());
        assert(b.subrange(i + 2, i + 2 + pl) =~= opt_payload(o)) by {
            assert forall|k: int| 0 <= k < pl implies b[i + 2 + k] == opt_payload(o)[k] by {
                assert(sub[2 + k] == b[i + (2 + k)]);
                assert(sub[2 + k] == w[2 + k]);
                assert(w[2 + k] == opt_payload(o)[k]);
            }
        }
        lemma_parse_payload_roundtrip(o);
        assert(parse_opt_payload(b[i], b.subrange(i + 2, i + 2 + pl)) == Ok::<OptModel, Error>(o));
        let j = i + 2 + pl;
        assert(b.subrange(j, j + opts_wire(rest).len()) =~= opts_wire(rest)) by {
            assert forall|k: int| 0 <= k < opts_wire(rest).len() implies b[j + k] == opts_wire(
                rest,
            )[k] by {
                assert(sub[2 + pl + k] == b[i + (2 + pl + k)]);
                assert(sub[2 + pl + k] == opts_wire(rest)[k]);
            }
        }
        assert(b[j + opts_wire(rest).len()] == 255);
        lemma_parse_opts_of_wire(b, j, rest);
        assert(spec_parse_opts(b, j) == Ok::<Seq<OptModel>, Error>(rest));
        assert(b[i] != 0 && b[i] != 255);
        assert(i + 1 < b.len());
        assert(i + 2 + b[i + 1] <= b.len());
        assert(i + 2 + b[i + 1] == j);
        assert(spec_parse_opts(b, i) == Ok::<Seq<OptModel>, Error>(seq![o] + rest));
        assert(seq![o] + rest =~= opts);
    }
}

/// Decoding the encoding of any well-formed packet gives the packet back:
/// the codec round-trips, the padding and END sentinel notwithstanding.
pub proof fn lemma_decode_encode(m: PacketModel)
    requires
        packet_wf(m),
    ensures
        spec_decode(spec_encode(m)) == Ok::<PacketModel, Error>(m),
{
    lemma_header_bytes_len(m);
    lemma_encode_cookie(m);
    let b = spec_encode(m);
    let h = header_bytes(m);
    let raw = h + opts_wire(m.options) + seq![255u8];
    assert(b.len() >= 272);
    assert forall|k: int| 0 <= k < raw.len() implies b[k] == raw[k] by {}
    assert(b[0] == h[0]);
    assert(b[2] == h[2] && h[2] == 6);
    assert(h[0] == 1 || h[0] == 2);
    let e = 240 + opts_wire(m.options).len() as int;
    assert(b.subrange(240, e) =~= opts_wire(m.options)) by {
        assert forall|k: int| 0 <= k < opts_wire(m.options).len() implies b[240 + k] == opts_wire(
            m.options,
        )[k] by {
            assert(raw[240 + k] == opts_wire(m.options)[k]);
        }
    }
    assert(b[e] == raw[e] && raw[e] == 255);
    lemma_parse_opts_of_wire(b, 240, m.options);
    let dm = spec_decode(b)->Ok_0;
    assert(b[0] == (if m.reply {
        2u8
    } else {
        1u8
    }));
    assert(dm.reply == m.reply);
    assert(b[3] == m.hops);
    assert(b[4] == h[4] && b[5] == h[5] && b[6] == h[6] && b[7] == h[7]);
    crate::wire::lemma_u32_be_roundtrip(m.xid);
    assert(dm.xid == m.xid);
    crate::wire::lemma_u16_be_roundtrip(m.secs);
    assert(dm.secs == m.secs);
    assert(b[10] == (if m.broadcast {
        128u8
    } else {
        0u8
    }));
    assert(128u8 & 128 == 128) by (bit_vector);
    assert(0u8 & 128 == 0) by (bit_vector);
    assert(dm.broadcast == m.broadcast);
    assert(addr_at(b, 12) == m.ciaddr);
    assert(addr_at(b, 16) == m.yiaddr);
    assert(addr_at(b, 20) == m.siaddr);
    assert(addr_at(b, 24) == m.giaddr);
    assert(b.subrange(28, 34) =~= m.chaddr) by {
        assert forall|k: int| 0 <= k < 6 implies b[28 + k] == m.chaddr[k] by {
            assert(h[28 + k] == m.chaddr[k]);
        }
    }
    assert(dm =~= m);
}

/// Relies on std::str::from_utf8: it succeeds exactly on the valid UTF-8
/// byte sequences, and returns the text those bytes encode.
#[verifier::external_body]
fn utf8_to_string(b: &[u8]) -> (r: Option<String>)
    ensures
        r is Some <==> valid_utf8(b@),
        r matches Some(s) ==> encode_utf8(s@) == b@,
{
    match std::str::from_utf8(b) {
        Ok(s) => Some(s.to_string()),
        Err(_) => None,
    }
}

/// Reads the leading four-byte groups of a payload as addresses.
fn parse_addr_list(data: &[u8]) -> (r: Vec<Ipv4Addr>)
    requires
        data@.len() <= 255,
    ensures
        r@ == parse_addrs(data@),
{
    let mut v: Vec<Ipv4Addr> = Vec::new();
    let mut i: usize = 0;
    proof {
        assert(data@.skip(0) =~= data@);
        assert(v@ + parse_addrs(data@) =~= parse_addrs(data@));
    }
    while i + 4 <= data.len()
        invariant
            i <= data@.len(),
            data@.len() <= 255,
            parse_addrs(data@) == v@ + parse_addrs(data@.skip(i as int)),
        decreases data@.len() - i,
    {
        let a = Ipv4Addr::new(data[i], data[i + 1], data[i + 2], data[i + 3]);
        proof {
            let rest = data@.skip(i as int);
            assert(rest.len() >= 4);
            assert(rest[0] == data@[i as int]);
            assert(rest[1] == data@[i as int + 1]);
            assert(rest[2] == data@[i as int + 2]);
            assert(rest[3] == data@[i as int + 3]);
            assert(addr_at(rest, 0) == a);
            assert(rest.skip(4) =~= data@.skip(i as int + 4));
            assert(v@ + parse_addrs(rest) =~= (v@ + seq![a]) + parse_addrs(data@.skip(i as int + 4)));
        }
        v.push(a);
        i += 4;
    }
    proof {
        assert(data@.skip(i as int).len() < 4);
        assert(v@ + parse_addrs(data@.skip(i as int)) =~= v@);
    }
    v
}

/// Parses one option at index `at` of the input, where `input[at]` is an
/// option code (neither PAD nor END). Returns the option and the index of
/// the byte after its payload.
pub fn decode_option(input: &[u8], at: usize) -> (r: Result<(DhcpOption, usize), Error>)
    requires
        at < input@.len(),
        input@[at as int] != 0,
        input@[at as int] != 255,
    ensures
        match r {
            Ok((o, next)) => spec_parse_one(input@, at as int) == Ok::<(OptModel, int), Error>(
                (o@, next as int),
            ) && at < next <= input@.len(),
            Err(e) => spec_parse_one(input@, at as int) == Err::<(OptModel, int), Error>(e),
        },
{
    let code = input[at];
    if at + 1 >= input.len() {
        return Err(Error::TruncatedPacket);
    }
    let len = input[at + 1] as usize;
    if len > input.len() - (at + 2) {
        return Err(Error::TruncatedPacket);
    }
    let end = at + 2 + len;
    let data = slice_subrange(input, at + 2, end);
    let ghost d = input@.subrange(at as int + 2, end as int);
    let parsed: Result<DhcpOption, Error> = match code {
        DHCP_MESSAGE_TYPE => {
            if data.len() < 1 {
                Err(Error::TruncatedPacket)
            } else {
                match MessageType::from(data[0]) {
                    Ok(m) => {
                        proof {
                            assert(m == msg_from(d[0]));
                        }
                        Ok(DhcpOption::DhcpMessageType(m))
                    },
                    Err(e) => Err(e),
                }
            }
        },
        SERVER_IDENTIFIER => {
            if data.len() < 4 {
                Err(Error::TruncatedPacket)
            } else {
                Ok(DhcpOption::ServerIdentifier(Ipv4Addr::new(data[0], data[1], data[2], data[3])))
            }
        },
        REQUESTED_IP_ADDRESS => {
            if data.len() < 4 {
                Err(Error::TruncatedPacket)
            } else {
                Ok(DhcpOption::RequestedIpAddress(Ipv4Addr::new(data[0], data[1], data[2], data[3])))
            }
        },
        SUBNET_MASK => {
            if data.len() < 4 {
                Err(Error::TruncatedPacket)
            } else {
                Ok(DhcpOption::SubnetMask(Ipv4Addr::new(data[0], data[1], data[2], data[3])))
            }
        },
        IP_ADDRESS_LEASE_TIME => {
            if data.len() < 4 {
                Err(Error::TruncatedPacket)
            } else {
                let t = ((data[0] as u32) << 24) | ((data[1] as u32) << 16) | ((data[2] as u32)
                    << 8) | (data[3] as u32);
                Ok(DhcpOption::IpAddressLeaseTime(t))
            }
        },
        ROUTER => Ok(DhcpOption::Router(parse_addr_list(data))),
        DOMAIN_NAME_SERVER => Ok(DhcpOption::DomainNameServer(parse_addr_list(data))),
        HOST_NAME => {
            match utf8_to_string(data) {
                Some(s) => {
                    proof {
                        vstd::utf8::encode_utf8_decode_utf8(s@);
                    }
                    Ok(DhcpOption::HostName(s))
                },
                None => Err(Error::NonUtf8String),
            }
        },
        MESSAGE => {
            match utf8_to_string(data) {
                Some(s) => {
                    proof {
                        vstd::utf8::encode_utf8_decode_utf8(s@);
                    }
                    Ok(DhcpOption::Message(s))
                },
                None => Err(Error::NonUtf8String),
            }
        },
        PARAMETER_REQUEST_LIST => Ok(
            DhcpOption::ParameterRequestList(vstd::slice::slice_to_vec(data)),
        ),
        _ => Ok(
            DhcpOption::Unrecognized(RawDhcpOption { code, data: vstd::slice::slice_to_vec(data) }),
        ),
    };
    match parsed {
        Err(e) => Err(e),
        Ok(o) => {
            proof {
                assert(parse_opt_payload(input@[at as int], d) matches Ok(m) && m =~= o@);
            }
            Ok((o, end))
        },
    }
}

/// The models of a prefix joined onto an option-region parse.
pub open spec fn prepend_opts(pre: Seq<OptModel>, r: Result<Seq<OptModel>, Error>) -> Result<
    Seq<OptModel>,
    Error,
> {
    match r {
        Ok(s) => Ok(pre + s),
        Err(e) => Err(e),
    }
}

/// The length of the option's wire payload.
fn payload_len(o: &DhcpOption) -> (r: usize)
    requires
        opt_wf(o@),
    ensures
        r == opt_payload(o@).len(),
{
    match o {
        DhcpOption::DhcpMessageType(_) => 1,
        DhcpOption::ServerIdentifier(_) => 4,
        DhcpOption::RequestedIpAddress(_) => 4,
        DhcpOption::IpAddressLeaseTime(_) => 4,
        DhcpOption::SubnetMask(_) => 4,
        DhcpOption::Router(l) => {
            proof {
                lemma_addrs_bytes_len(l@);
            }
            l.len() * 4
        },
        DhcpOption::DomainNameServer(l) => {
            proof {
                lemma_addrs_bytes_len(l@);
            }
            l.len() * 4
        },
        DhcpOption::HostName(s) => s.as_str().as_bytes().len(),
        DhcpOption::Message(s) => s.as_str().as_bytes().len(),
        DhcpOption::ParameterRequestList(v) => v.len(),
        DhcpOption::Unrecognized(r) => r.data.len(),
    }
}

} // verus!
