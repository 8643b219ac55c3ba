//! The server's decision logic: reply assembly, option filtering by the
//! client's parameter request list, and the send destination policy.
//!
//! The surrounding program owns the socket; it records the peer of each
//! received datagram in a `Server` value and asks these functions what to
//! build and where to send it.
use vstd::prelude::*;

use crate::addr::{Ipv4Addr, SocketAddr};
use crate::options::{
    opt_code, DhcpOption, MessageType, OptModel, DHCP_MESSAGE_TYPE, IP_ADDRESS_LEASE_TIME,
    PARAMETER_REQUEST_LIST, SERVER_IDENTIFIER,
};
use crate::packet::{find_option, view_opts, Packet, PacketModel};

verus! {

/// The smallest index at or after `pos` whose option has the given code.
pub open spec fn spec_find_from(opts: Seq<OptModel>, pos: int, code: u8) -> Option<int>
    decreases opts.len() - pos,
{
    if pos < 0 || pos >= opts.len() {
        None
    } else if opt_code(opts[pos]) == code {
        Some(pos)
    } else {
        spec_find_from(opts, pos + 1, code)
    }
}

/// The sequence with the elements at `i` and `j` exchanged.
pub open spec fn seq_swap(opts: Seq<OptModel>, i: int, j: int) -> Seq<OptModel> {
    opts.update(i, opts[j]).update(j, opts[i])
}

/// The filter's cursor loop: for each requested code in order, move the
/// first matching option at or after the cursor to the cursor position and
/// advance the cursor; a code with no match is skipped. Returns the
/// permuted list and the final cursor.
pub open spec fn spec_filter_loop(opts: Seq<OptModel>, pos: int, reqs: Seq<u8>) -> (
    Seq<OptModel>,
    int,
)
    decreases reqs.len(),
{
    if reqs.len() == 0 {
        (opts, pos)
    } else {
        match spec_find_from(opts, pos, reqs[0]) {
            None => spec_filter_loop(opts, pos, reqs.drop_first()),
            Some(at) => spec_filter_loop(seq_swap(opts, pos, at), pos + 1, reqs.drop_first()),
        }
    }
}

/// The codes every reply keeps at its head, in this order.
pub open spec fn mandatory_codes() -> Seq<u8> {
    seq![DHCP_MESSAGE_TYPE, SERVER_IDENTIFIER, IP_ADDRESS_LEASE_TIME]
}

/// The reply option list after filtering: the mandatory codes pinned at
/// the head, then the requested codes in the client's order; everything
/// neither mandatory nor requested is dropped.
pub open spec fn spec_filter(opts: Seq<OptModel>, reqs: Seq<u8>) -> Seq<OptModel> {
    let (o, p) = spec_filter_loop(opts, 0, mandatory_codes() + reqs);
    o.subrange(0, p)
}

/// What `spec_find_from` returns: the first match at or after `pos`, or
/// nothing when no option at or after `pos` has the code.
pub proof fn lemma_find_from_props(opts: Seq<OptModel>, pos: int, code: u8)
    requires
        0 <= pos <= opts.len(),
    ensures
        match spec_find_from(opts, pos, code) {
            Some(at) => pos <= at < opts.len() && opt_code(opts[at]) == code && forall|k: int|
                pos <= k < at ==> opt_code(#[trigger] opts[k]) != code,
            None => forall|k: int| pos <= k < opts.len() ==> opt_code(#[trigger] opts[k]) != code,
        },
    decreases opts.len() - pos,
{
    if pos < opts.len() && opt_code(opts[pos]) != code {
        lemma_find_from_props(opts, pos + 1, code);
    }
}

/// Chaining the cursor loop over two request lists is one run over their
/// concatenation.
pub proof fn lemma_filter_loop_concat(opts: Seq<OptModel>, pos: int, a: Seq<u8>, b: Seq<u8>)
    ensures
        spec_filter_loop(opts, pos, a + b) == spec_filter_loop(
            spec_filter_loop(opts, pos, a).0,
            spec_filter_loop(opts, pos, a).1,
            b,
        ),
    decreases a.len(),
{
    if a.len() == 0 {
        assert(a + b =~= b);
    } else {
        assert((a + b)[0] == a[0]);
        assert((a + b).drop_first() =~= a.drop_first() + b);
        match spec_find_from(opts, pos, a[0]) {
            None => {
                lemma_filter_loop_concat(opts, pos, a.drop_first(), b);
            },
            Some(at) => {
                lemma_filter_loop_concat(seq_swap(opts, pos, at), pos + 1, a.drop_first(), b);
            },
        }
    }
}

/// The first option at or after `pos` whose code is `code`.
fn find_code_from(opts: &Vec<DhcpOption>, pos: usize, code: u8) -> (r: Option<usize>)
    requires
        pos <= opts@.len(),
    ensures
        match r {
            Some(at) => spec_find_from(view_opts(opts@), pos as int, code) == Some(at as int) && pos
                <= at < opts@.len(),
            None => spec_find_from(view_opts(opts@), pos as int, code) is None,
        },
{
    let mut j: usize = pos;
    while j < opts.len()
        invariant
            pos <= j <= opts@.len(),
            spec_find_from(view_opts(opts@), pos as int, code) == spec_find_from(
                view_opts(opts@),
                j as int,
                code,
            ),
        decreases opts@.len() - j,
    {
        if opts[j].code() == code {
            return Some(j);
        }
        j += 1;
    }
    None
}

/// Exchanges the options at `a` and `b`.
fn swap_opts(opts: &mut Vec<DhcpOption>, a: usize, b: usize)
    requires
        a <= b < old(opts)@.len(),
    ensures
        final(opts)@ == old(opts)@.update(a as int, old(opts)@[b as int]).update(
            b as int,
            old(opts)@[a as int],
        ),
{
    let ghost s = old(opts)@;
    if a < b {
        let x = opts.remove(b);
        let y = opts.remove(a);
        opts.insert(a, x);
        opts.insert(b, y);
        proof {
            assert(opts@ =~= s.update(a as int, s[b as int]).update(b as int, s[a as int]));
        }
    } else {
        proof {
            assert(opts@ =~= s.update(a as int, s[b as int]).update(b as int, s[a as int]));
        }
    }
}

/// One pass of the filter over one request list, starting at cursor `pos`.
fn filter_pass(opts: &mut Vec<DhcpOption>, codes: &[u8], pos: usize) -> (r: usize)
    requires
        pos <= old(opts)@.len(),
    ensures
        final(opts)@.len() == old(opts)@.len(),
        r <= final(opts)@.len(),
        (view_opts(final(opts)@), r as int) == spec_filter_loop(
            view_opts(old(opts)@),
            pos as int,
            codes@,
        ),
{
    let ghost v0 = view_opts(old(opts)@);
    let mut cur: usize = pos;
    let mut zi: usize = 0;
    proof {
        assert(codes@.skip(0) =~= codes@);
    }
    while zi < codes.len()
        invariant
            zi <= codes@.len(),
            cur <= opts@.len(),
            opts@.len() == old(opts)@.len(),
            pos <= cur,
            spec_filter_loop(view_opts(opts@), cur as int, codes@.skip(zi as int))
                == spec_filter_loop(v0, pos as int, codes@),
        decreases codes@.len() - zi,
    {
        let r = codes[zi];
        proof {
            assert(codes@.skip(zi as int)[0] == codes@[zi as int]);
            assert(codes@.skip(zi as int).drop_first() =~= codes@.skip(zi as int + 1));
        }
        match find_code_from(opts, cur, r) {
            None => {},
            Some(at) => {
                let ghost vpre = view_opts(opts@);
                swap_opts(opts, cur, at);
                proof {
                    assert(view_opts(opts@) =~= seq_swap(vpre, cur as int, at as int));
                }
                let n = opts.len();
                proof {
                    assert(cur < n);
                }
                cur += 1;
            },
        }
        zi += 1;
    }
    proof {
        assert(codes@.skip(codes@.len() as int) =~= Seq::<u8>::empty());
    }
    cur
}

/// Orders and filters a reply's options by the client's parameter request
/// list: `DhcpMessageType`, `ServerIdentifier` and `IpAddressLeaseTime`
/// are pinned first, then the requested codes in the client's order;
/// options neither mandatory nor requested are dropped.
pub fn filter_options_by_req(opts: &mut Vec<DhcpOption>, req_params: &[u8])
    ensures
        view_opts(final(opts)@) == spec_filter(view_opts(old(opts)@), req_params@),
{
    let ghost v0 = view_opts(old(opts)@);
    let h: [u8; 3] = [DHCP_MESSAGE_TYPE, SERVER_IDENTIFIER, IP_ADDRESS_LEASE_TIME];
    proof {
        assert(h@ =~= mandatory_codes());
    }
    let p1 = filter_pass(opts, h.as_slice(), 0);
    let p2 = filter_pass(opts, req_params, p1);
    let ghost vpre = view_opts(opts@);
    proof {
        lemma_filter_loop_concat(v0, 0, mandatory_codes(), req_params@);
    }
    opts.truncate(p2);
    proof {
        assert(view_opts(opts@) =~= vpre.subrange(0, p2 as int));
    }
}

/// The decision state of a DHCP server: its own address, the broadcast
/// address of its subnet, and the peer of the datagram in hand.
#[derive(Clone, Copy, PartialEq, Eq, Structural, Debug)]
pub struct Server {
    pub server_ip: Ipv4Addr,
    pub broadcast_ip: Ipv4Addr,
    /// The source address of the last received datagram.
    pub src: SocketAddr,
}

/// The subnet's broadcast address: the network part of the server's
/// address with the host part all ones. An unspecified mask gives
/// `255.255.255.255`.
pub open spec fn spec_broadcast(ip: Ipv4Addr, mask: Ipv4Addr) -> Ipv4Addr {
    Ipv4Addr {
        a: (ip.a & mask.a) | (255u8 & !mask.a),
        b: (ip.b & mask.b) | (255u8 & !mask.b),
        c: (ip.c & mask.c) | (255u8 & !mask.c),
        d: (ip.d & mask.d) | (255u8 & !mask.d),
    }
}

/// Where a packet is sent: the subnet broadcast address when the packet
/// asks for broadcast or no peer is recorded, else the recorded peer,
/// always on the peer's port.
pub open spec fn spec_destination(s: Server, p: PacketModel) -> SocketAddr {
    if p.broadcast || s.src.ip.spec_is_unspecified() {
        SocketAddr { ip: s.broadcast_ip, port: s.src.port }
    } else {
        s.src
    }
}

/// The option list of a reply: message type and server identifier first,
/// then the handler's options; filtered by the request's parameter request
/// list when it carries one.
pub open spec fn spec_reply_options(
    s: Server,
    mt: MessageType,
    additional: Seq<OptModel>,
    req: PacketModel,
) -> Seq<OptModel> {
    let base = seq![
        OptModel::DhcpMessageType(mt),
        OptModel::ServerIdentifier(s.server_ip),
    ] + additional;
    match find_option(req.options, PARAMETER_REQUEST_LIST) {
        Some(o) => match o {
            OptModel::ParameterRequestList(prl) => spec_filter(base, prl),
            _ => base,
        },
        None => base,
    }
}

/// The reply packet built for a request: a BOOTREPLY carrying the
/// request's transaction id, broadcast flag, relay address and hardware
/// address, the offered address, and the filtered option list.
pub open spec fn spec_reply(
    s: Server,
    mt: MessageType,
    additional: Seq<OptModel>,
    offer_ip: Ipv4Addr,
    req: PacketModel,
) -> PacketModel {
    PacketModel {
        reply: true,
        hops: 0,
        xid: req.xid,
        secs: 0,
        broadcast: req.broadcast,
        ciaddr: if mt == MessageType::Nak {
            Ipv4Addr { a: 0, b: 0, c: 0, d: 0 }
        } else {
            req.ciaddr
        },
        yiaddr: offer_ip,
        siaddr: Ipv4Addr { a: 0, b: 0, c: 0, d: 0 },
        giaddr: req.giaddr,
        chaddr: req.chaddr,
        options: spec_reply_options(s, mt, additional, req),
    }
}

impl Server {
    /// A server at `server_ip` that broadcasts within the given subnet,
    /// with no peer recorded yet.
    pub fn new(server_ip: Ipv4Addr, subnet_mask: Ipv4Addr) -> (s: Server)
        ensures
            s.server_ip == server_ip,
            s.broadcast_ip == spec_broadcast(server_ip, subnet_mask),
            s.src == (SocketAddr { ip: Ipv4Addr { a: 0, b: 0, c: 0, d: 0 }, port: 0 }),
    {
        Server {
            server_ip,
            broadcast_ip: broadcast_address(server_ip, subnet_mask),
            src: SocketAddr::new(Ipv4Addr::unspecified(), 0),
        }
    }

    /// Records the peer of the datagram in hand.
    pub fn set_src(&mut self, src: SocketAddr)
        ensures
            *final(self) == (Server { src, ..*old(self) }),
    {
        self.src = src;
    }

    /// Where to send a packet, by the send policy.
    pub fn destination(&self, p: &Packet) -> (d: SocketAddr)
        ensures
            d == spec_destination(*self, p@),
    {
        if p.broadcast || self.src.ip.is_unspecified() {
            SocketAddr::new(self.broadcast_ip, self.src.port)
        } else {
            self.src
        }
    }

    /// True exactly when the packet carries a `ServerIdentifier` option
    /// equal to this server's address.
    pub fn for_this_server(&self, packet: &Packet) -> (r: bool)
        ensures
            r == match find_option(packet@.options, SERVER_IDENTIFIER) {
                Some(o) => o == OptModel::ServerIdentifier(self.server_ip),
                None => false,
            },
    {
        match packet.option(SERVER_IDENTIFIER) {
            Some(DhcpOption::ServerIdentifier(x)) => *x == self.server_ip,
            _ => false,
        }
    }

    /// Builds the reply to a request: the message type and this server's
    /// identifier lead the handler's options, the request's parameter
    /// request list (when present) filters and orders them, and the header
    /// fields follow the request. The handler's options must not include
    /// `DhcpMessageType` or `ServerIdentifier`: those are added here.
    pub fn reply(
        &self,
        msg_type: MessageType,
        additional_options: Vec<DhcpOption>,
        offer_ip: Ipv4Addr,
        req_packet: &Packet,
    ) -> (p: Packet)
        ensures
            p@ == spec_reply(*self, msg_type, view_opts(additional_options@), offer_ip, req_packet@),
    {
        let ghost additional = view_opts(additional_options@);
        let ciaddr = match msg_type {
            MessageType::Nak => Ipv4Addr::unspecified(),
            _ => req_packet.ciaddr,
        };
        let mut opts: Vec<DhcpOption> = Vec::new();
        opts.push(DhcpOption::DhcpMessageType(msg_type));
        opts.push(DhcpOption::ServerIdentifier(self.server_ip));
        let mut rest = additional_options;
        opts.append(&mut rest);
        proof {
            assert(view_opts(opts@) =~= seq![
                OptModel::DhcpMessageType(msg_type),
                OptModel::ServerIdentifier(self.server_ip),
            ] + additional);
        }
        match req_packet.option(PARAMETER_REQUEST_LIST) {
            Some(DhcpOption::ParameterRequestList(prl)) => {
                filter_options_by_req(&mut opts, prl.as_slice());
            },
            _ => {},
        }
        let p = Packet {
            reply: true,
            hops: 0,
            xid: req_packet.xid,
            secs: 0,
            broadcast: req_packet.broadcast,
            ciaddr,
            yiaddr: offer_ip,
            siaddr: Ipv4Addr::unspecified(),
            giaddr: req_packet.giaddr,
            chaddr: req_packet.chaddr,
            options: opts,
        };
        proof {
            assert(p@ =~= spec_reply(*self, msg_type, additional, offer_ip, req_packet@));
        }
        p
    }
}

/// True when some option in the list has the given code.
pub open spec fn contains_code(opts: Seq<OptModel>, c: u8) -> bool {
    exists|i: int| 0 <= i < opts.len() && opt_code(#[trigger] opts[i]) == c
}

/// The position of the first occurrence of a code in a request list that
/// contains it.
pub open spec fn first_index_of(reqs: Seq<u8>, c: u8) -> int
    decreases reqs.len(),
{
    if reqs.len() == 0 {
        -1
    } else if reqs[0] == c {
        0
    } else {
        1 + first_index_of(reqs.drop_first(), c)
    }
}

/// A contained code's first occurrence is a valid index.
pub proof fn lemma_first_index_bounds(reqs: Seq<u8>, c: u8)
    requires
        reqs.contains(c),
    ensures
        0 <= first_index_of(reqs, c) < reqs.len(),
        reqs[first_index_of(reqs, c)] == c,
    decreases reqs.len(),
{
    if reqs[0] != c {
        let rest = reqs.drop_first();
        let w = choose|w: int| 0 <= w < reqs.len() && reqs[w] == c;
        assert(rest[w - 1] == c);
        lemma_first_index_bounds(rest, c);
    }
}

/// Swapping two elements preserves a sequence's multiset.
proof fn lemma_seq_swap_multiset(s: Seq<OptModel>, i: int, j: int)
    requires
        0 <= i <= j < s.len(),
    ensures
        seq_swap(s, i, j).to_multiset() == s.to_multiset(),
{
    broadcast use vstd::seq_lib::to_multiset_update;
    broadcast use vstd::seq_lib::to_multiset_contains;
    broadcast use vstd::multiset::group_multiset_axioms;
    broadcast use vstd::multiset::group_multiset_properties;

    if i == j {
        assert(seq_swap(s, i, j) =~= s);
    } else {
        let t = s.update(i, s[j]);
        assert(t[j] == s[j]);
        assert(s.contains(s[i]));
        assert(s.to_multiset().count(s[i]) > 0);
        assert(seq_swap(s, i, j).to_multiset() =~= s.to_multiset());
    }
}

/// What one run of the cursor loop guarantees: the list is permuted (its
/// multiset is kept), the part before the starting cursor is untouched,
/// the cursor only advances, and everything it placed between the old and
/// new cursor has a requested code.
pub proof fn lemma_filter_loop_props(opts: Seq<OptModel>, pos: int, reqs: Seq<u8>)
    requires
        0 <= pos <= opts.len(),
    ensures
        ({
            let (o, p) = spec_filter_loop(opts, pos, reqs);
            &&& o.len() == opts.len()
            &&& pos <= p <= opts.len()
            &&& forall|k: int| 0 <= k < pos ==> o[k] == opts[k]
            &&& forall|k: int| pos <= k < p ==> reqs.contains(opt_code(#[trigger] o[k]))
            &&& o.to_multiset() == opts.to_multiset()
        }),
    decreases reqs.len(),
{
    if reqs.len() > 0 {
        lemma_find_from_props(opts, pos, reqs[0]);
        let rest = reqs.drop_first();
        assert forall|c: u8| rest.contains(c) implies reqs.contains(c) by {
            let w = choose|w: int| 0 <= w < rest.len() && rest[w] == c;
            assert(reqs[w + 1] == c);
        }
        match spec_find_from(opts, pos, reqs[0]) {
            None => {
                lemma_filter_loop_props(opts, pos, rest);
            },
            Some(at) => {
                let s2 = seq_swap(opts, pos, at);
                lemma_seq_swap_multiset(opts, pos, at);
                lemma_filter_loop_props(s2, pos + 1, rest);
                let (o, p) = spec_filter_loop(s2, pos + 1, rest);
                assert(o[pos] == s2[pos]);
                assert(opt_code(s2[pos]) == reqs[0]);
                assert(reqs.contains(reqs[0]));
            },
        }
    }
}

/// The filtered list never grows, and repeats no option of the input: its
/// multiset is contained in the input's.
pub proof fn lemma_filter_no_dup(opts: Seq<OptModel>, reqs: Seq<u8>)
    ensures
        spec_filter(opts, reqs).len() <= opts.len(),
        spec_filter(opts, reqs).to_multiset().subset_of(opts.to_multiset()),
{
    broadcast use vstd::multiset::group_multiset_axioms;

    let merged = mandatory_codes() + reqs;
    lemma_filter_loop_props(opts, 0, merged);
    let (o, p) = spec_filter_loop(opts, 0, merged);
    let res = o.subrange(0, p);
    let suffix = o.subrange(p, o.len() as int);
    assert(o =~= res + suffix);
    vstd::seq_lib::lemma_multiset_commutative(res, suffix);
}

/// Every element of the filtered list has a mandatory or requested code.
pub proof fn lemma_filter_codes(opts: Seq<OptModel>, reqs: Seq<u8>)
    ensures
        forall|k: int| 0 <= k < spec_filter(opts, reqs).len() ==> (mandatory_codes()
            + reqs).contains(opt_code(#[trigger] spec_filter(opts, reqs)[k])),
{
    lemma_filter_loop_props(opts, 0, mandatory_codes() + reqs);
}

/// With a duplicate-free merged request list, the filtered elements stand
/// in the order of their codes' first occurrence in that list.
pub proof fn lemma_filter_loop_order(opts: Seq<OptModel>, pos: int, reqs: Seq<u8>)
    requires
        0 <= pos <= opts.len(),
        forall|x: int, y: int| 0 <= x < y < reqs.len() ==> reqs[x] != reqs[y],
    ensures
        ({
            let (o, p) = spec_filter_loop(opts, pos, reqs);
            forall|x: int, y: int|
                pos <= x < y < p ==> first_index_of(reqs, opt_code(#[trigger] o[x]))
                    < first_index_of(reqs, opt_code(#[trigger] o[y]))
        }),
    decreases reqs.len(),
{
    if reqs.len() > 0 {
        lemma_find_from_props(opts, pos, reqs[0]);
        let rest = reqs.drop_first();
        assert(forall|x: int, y: int| 0 <= x < y < rest.len() ==> rest[x] != rest[y]);
        assert forall|c: u8| rest.contains(c) implies c != reqs[0] by {
            let w = choose|w: int| 0 <= w < rest.len() && rest[w] == c;
            assert(reqs[w + 1] == c);
            assert(reqs[0] != reqs[w + 1]);
        }
        match spec_find_from(opts, pos, reqs[0]) {
            None => {
                lemma_filter_loop_props(opts, pos, rest);
                lemma_filter_loop_order(opts, pos, rest);
                let (o, p) = spec_filter_loop(opts, pos, rest);
                assert forall|x: int, y: int| pos <= x < y < p implies first_index_of(
                    reqs,
                    opt_code(o[x]),
                ) < first_index_of(reqs, opt_code(o[y])) by {
                    assert(rest.contains(opt_code(o[x])));
                    assert(rest.contains(opt_code(o[y])));
                }
            },
            Some(at) => {
                let s2 = seq_swap(opts, pos, at);
                lemma_filter_loop_props(s2, pos + 1, rest);
                lemma_filter_loop_order(s2, pos + 1, rest);
                let (o, p) = spec_filter_loop(s2, pos + 1, rest);
                assert(o[pos] == s2[pos]);
                assert(opt_code(o[pos]) == reqs[0]);
                assert(first_index_of(reqs, reqs[0]) == 0);
                assert forall|x: int, y: int| pos <= x < y < p implies first_index_of(
                    reqs,
                    opt_code(o[x]),
                ) < first_index_of(reqs, opt_code(o[y])) by {
                    assert(rest.contains(opt_code(o[y])));
                    assert(opt_code(o[y]) != reqs[0]);
                    assert(first_index_of(reqs, opt_code(o[y])) == 1 + first_index_of(
                        rest,
                        opt_code(o[y]),
                    ));
                    lemma_first_index_bounds(rest, opt_code(o[y]));
                    if x > pos {
                        assert(rest.contains(opt_code(o[x])));
                        assert(opt_code(o[x]) != reqs[0]);
                        assert(first_index_of(reqs, opt_code(o[x])) == 1 + first_index_of(
                            rest,
                            opt_code(o[x]),
                        ));
                    } else {
                        assert(opt_code(o[x]) == reqs[0]);
                        assert(first_index_of(reqs, opt_code(o[x])) == 0);
                    }
                }
            },
        }
    }
}

/// With a duplicate-free merged list, the filtered result follows the
/// merged order: mandatory codes first, then the requested codes in the
/// client's order of first mention.
pub proof fn lemma_filter_order(opts: Seq<OptModel>, reqs: Seq<u8>)
    requires
        forall|x: int, y: int| 0 <= x < y < (mandatory_codes() + reqs).len() ==> (mandatory_codes()
            + reqs)[x] != (mandatory_codes() + reqs)[y],
    ensures
        forall|x: int, y: int|
            0 <= x < y < spec_filter(opts, reqs).len() ==> first_index_of(
                mandatory_codes() + reqs,
                opt_code(#[trigger] spec_filter(opts, reqs)[x]),
            ) < first_index_of(
                mandatory_codes() + reqs,
                opt_code(#[trigger] spec_filter(opts, reqs)[y]),
            ),
{
    let merged = mandatory_codes() + reqs;
    lemma_filter_loop_props(opts, 0, merged);
    lemma_filter_loop_order(opts, 0, merged);
}

/// When the option list holds the message type and server identifier —
/// as every list built by `reply` does — they lead the filtered result in
/// that order, and a lease time option, when present, stands third.
pub proof fn lemma_filter_mandatory_head(opts: Seq<OptModel>, reqs: Seq<u8>)
    requires
        contains_code(opts, DHCP_MESSAGE_TYPE),
        contains_code(opts, SERVER_IDENTIFIER),
    ensures
        spec_filter(opts, reqs).len() >= 2,
        opt_code(spec_filter(opts, reqs)[0]) == DHCP_MESSAGE_TYPE,
        opt_code(spec_filter(opts, reqs)[1]) == SERVER_IDENTIFIER,
        contains_code(opts, IP_ADDRESS_LEASE_TIME) ==> spec_filter(opts, reqs).len() >= 3
            && opt_code(spec_filter(opts, reqs)[2]) == IP_ADDRESS_LEASE_TIME,
{
    let merged = mandatory_codes() + reqs;
    assert(merged[0] == DHCP_MESSAGE_TYPE);
    assert(merged[1] == SERVER_IDENTIFIER);
    assert(merged[2] == IP_ADDRESS_LEASE_TIME);
    lemma_find_from_props(opts, 0, DHCP_MESSAGE_TYPE);
    assert(spec_find_from(opts, 0, DHCP_MESSAGE_TYPE) is Some) by {
        if spec_find_from(opts, 0, DHCP_MESSAGE_TYPE) is None {
            let k = choose|k: int|
                0 <= k < opts.len() && opt_code(#[trigger] opts[k]) == DHCP_MESSAGE_TYPE;
            assert(opt_code(opts[k]) != DHCP_MESSAGE_TYPE);
        }
    }
    let at1 = spec_find_from(opts, 0, DHCP_MESSAGE_TYPE)->Some_0;
    let s1 = seq_swap(opts, 0, at1);
    assert(opt_code(s1[0]) == DHCP_MESSAGE_TYPE);
    assert(contains_code(s1, SERVER_IDENTIFIER) && exists|k: int|
        1 <= k < s1.len() && opt_code(#[trigger] s1[k]) == SERVER_IDENTIFIER) by {
        let k = choose|k: int| 0 <= k < opts.len() && opt_code(#[trigger] opts[k])
            == SERVER_IDENTIFIER;
        if k == 0 {
            assert(opt_code(s1[at1]) == SERVER_IDENTIFIER);
            assert(at1 >= 1);
        } else {
            assert(opt_code(s1[k]) == SERVER_IDENTIFIER);
        }
    }
    lemma_find_from_props(s1, 1, SERVER_IDENTIFIER);
    assert(spec_find_from(s1, 1, SERVER_IDENTIFIER) is Some) by {
        if spec_find_from(s1, 1, SERVER_IDENTIFIER) is None {
            let k = choose|k: int|
                1 <= k < s1.len() && opt_code(#[trigger] s1[k]) == SERVER_IDENTIFIER;
            assert(opt_code(s1[k]) != SERVER_IDENTIFIER);
        }
    }
    let at2 = spec_find_from(s1, 1, SERVER_IDENTIFIER)->Some_0;
    assert(1 <= at2 < s1.len());
    let s2 = seq_swap(s1, 1, at2);
    assert(opt_code(s2[0]) == DHCP_MESSAGE_TYPE);
    assert(opt_code(s2[1]) == SERVER_IDENTIFIER);
    let d1 = merged.drop_first();
    let d2 = d1.drop_first();
    let d3 = d2.drop_first();
    assert(d1[0] == SERVER_IDENTIFIER);
    assert(d2[0] == IP_ADDRESS_LEASE_TIME);
    assert(d3 =~= reqs);
    assert(spec_filter_loop(opts, 0, merged) == spec_filter_loop(s1, 1, d1));
    assert(spec_filter_loop(s1, 1, d1) == spec_filter_loop(s2, 2, d2));
    if contains_code(opts, IP_ADDRESS_LEASE_TIME) {
        assert(exists|k: int| 2 <= k < s2.len() && opt_code(#[trigger] s2[k])
            == IP_ADDRESS_LEASE_TIME) by {
            let k = choose|k: int| 0 <= k < opts.len() && opt_code(#[trigger] opts[k])
                == IP_ADDRESS_LEASE_TIME;
            let m: int = if k == 0 {
                at1
            } else if k == at1 {
                0
            } else {
                k
            };
            assert(opt_code(s1[m]) == IP_ADDRESS_LEASE_TIME);
            let m2: int = if m == 1 {
                at2
            } else if m == at2 {
                1
            } else {
                m
            };
            assert(opt_code(s2[m2]) == IP_ADDRESS_LEASE_TIME);
            assert(m2 >= 2);
        }
        lemma_find_from_props(s2, 2, IP_ADDRESS_LEASE_TIME);
        assert(spec_find_from(s2, 2, IP_ADDRESS_LEASE_TIME) is Some) by {
            if spec_find_from(s2, 2, IP_ADDRESS_LEASE_TIME) is None {
                let k = choose|k: int|
                    2 <= k < s2.len() && opt_code(#[trigger] s2[k]) == IP_ADDRESS_LEASE_TIME;
                assert(opt_code(s2[k]) != IP_ADDRESS_LEASE_TIME);
            }
        }
        let at3 = spec_find_from(s2, 2, IP_ADDRESS_LEASE_TIME)->Some_0;
        assert(2 <= at3 < s2.len());
        let s3 = seq_swap(s2, 2, at3);
        assert(opt_code(s3[0]) == DHCP_MESSAGE_TYPE);
        assert(opt_code(s3[1]) == SERVER_IDENTIFIER);
        assert(opt_code(s3[2]) == IP_ADDRESS_LEASE_TIME);
        assert(spec_filter_loop(s2, 2, d2) == spec_filter_loop(s3, 3, d3));
        assert(spec_filter_loop(s3, 3, d3) == spec_filter_loop(s3, 3, reqs));
        lemma_filter_loop_props(s3, 3, reqs);
        let (o, p) = spec_filter_loop(s3, 3, reqs);
        assert(spec_filter_loop(opts, 0, merged) == (o, p));
        assert(spec_filter(opts, reqs) == o.subrange(0, p));
        assert(spec_filter(opts, reqs)[0] == o[0]);
        assert(spec_filter(opts, reqs)[1] == o[1]);
        assert(spec_filter(opts, reqs)[2] == o[2]);
        assert(o[0] == s3[0]);
        assert(o[1] == s3[1]);
        assert(o[2] == s3[2]);
    } else {
        assert(s2.to_multiset() == opts.to_multiset()) by {
            lemma_seq_swap_multiset(opts, 0, at1);
            lemma_seq_swap_multiset(s1, 1, at2);
        }
        assert(spec_find_from(s2, 2, IP_ADDRESS_LEASE_TIME) is None) by {
            lemma_find_from_props(s2, 2, IP_ADDRESS_LEASE_TIME);
            if spec_find_from(s2, 2, IP_ADDRESS_LEASE_TIME) is Some {
                let at = spec_find_from(s2, 2, IP_ADDRESS_LEASE_TIME)->Some_0;
                let e = s2[at];
                assert(opt_code(e) == IP_ADDRESS_LEASE_TIME);
                let k: int = if at == at2 {
                    1
                } else if at == 1 {
                    at2
                } else {
                    at
                };
                assert(s1[k] == e);
                let k2: int = if k == at1 {
                    0
                } else if k == 0 {
                    at1
                } else {
                    k
                };
                assert(opts[k2] == e);
                assert(contains_code(opts, IP_ADDRESS_LEASE_TIME));
            }
        }
        assert(spec_filter_loop(s2, 2, d2) == spec_filter_loop(s2, 2, d3));
        assert(spec_filter_loop(s2, 2, d3) == spec_filter_loop(s2, 2, reqs));
        lemma_filter_loop_props(s2, 2, reqs);
        let (o, p) = spec_filter_loop(s2, 2, reqs);
        assert(spec_filter_loop(opts, 0, merged) == (o, p));
        assert(spec_filter(opts, reqs) == o.subrange(0, p));
        assert(spec_filter(opts, reqs)[0] == o[0]);
        assert(spec_filter(opts, reqs)[1] == o[1]);
        assert(o[0] == s2[0]);
        assert(o[1] == s2[1]);
    }
}

/// The subnet's broadcast address, octet by octet.
pub fn broadcast_address(ip: Ipv4Addr, mask: Ipv4Addr) -> (r: Ipv4Addr)
    ensures
        r == spec_broadcast(ip, mask),
{
    Ipv4Addr {
        a: (ip.a & mask.a) | (255u8 & !mask.a),
        b: (ip.b & mask.b) | (255u8 & !mask.b),
        c: (ip.c & mask.c) | (255u8 & !mask.c),
        d: (ip.d & mask.d) | (255u8 & !mask.d),
    }
}

} // verus!
