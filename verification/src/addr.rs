//! Plain-value models of an IPv4 address and a UDP endpoint.
//!
//! The wire codec and the server's decision logic only ever read the four
//! octets of an address, so an address is held here as four bytes; the
//! surrounding program converts to and from the operating system's socket
//! address types at the I/O boundary.
use vstd::prelude::*;

verus! {

/// An IPv4 address as its four octets, in network order.
#[derive(Clone, Copy, PartialEq, Eq, Structural, Debug)]
pub struct Ipv4Addr {
    pub a: u8,
    pub b: u8,
    pub c: u8,
    pub d: u8,
}

impl Ipv4Addr {
    pub fn new(a: u8, b: u8, c: u8, d: u8) -> (r: Ipv4Addr)
        ensures
            r == (Ipv4Addr { a, b, c, d }),
    {
        Ipv4Addr { a, b, c, d }
    }

    /// The address `0.0.0.0`.
    pub fn unspecified() -> (r: Ipv4Addr)
        ensures
            r == (Ipv4Addr { a: 0, b: 0, c: 0, d: 0 }),
    {
        Ipv4Addr { a: 0, b: 0, c: 0, d: 0 }
    }

    pub open spec fn spec_is_unspecified(self) -> bool {
        self == (Ipv4Addr { a: 0, b: 0, c: 0, d: 0 })
    }

    /// True exactly when the address is `0.0.0.0`.
    pub fn is_unspecified(&self) -> (r: bool)
        ensures
            r == self.spec_is_unspecified(),
    {
        self.a == 0 && self.b == 0 && self.c == 0 && self.d == 0
    }

    /// The four octets as wire bytes.
    pub open spec fn spec_octets(self) -> Seq<u8> {
        seq![self.a, self.b, self.c, self.d]
    }
}

/// A UDP endpoint: an IPv4 address and a port.
#[derive(Clone, Copy, PartialEq, Eq, Structural, Debug)]
pub struct SocketAddr {
    pub ip: Ipv4Addr,
    pub port: u16,
}

impl SocketAddr {
    pub fn new(ip: Ipv4Addr, port: u16) -> (r: SocketAddr)
        ensures
            r == (SocketAddr { ip, port }),
    {
        SocketAddr { ip, port }
    }
}

} // verus!
