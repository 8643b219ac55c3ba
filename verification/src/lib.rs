//! A DHCPv4 wire codec and server-side helpers.
//!
//! The crate models DHCP packets (RFC 2131) as typed values, proves the
//! byte-level encoder and decoder correct against a single wire-format
//! specification, and provides the verified decision logic of a DHCP
//! server: reply assembly, option filtering by the client's parameter
//! request list, and the unicast-versus-broadcast send policy.
use vstd::prelude::*;

pub mod addr;
pub mod wire;
pub mod options;
pub mod packet;
pub mod server;

verus! {

// DHCP message type codes (option 53).
pub const DISCOVER: u8 = 1;

pub const OFFER: u8 = 2;

pub const REQUEST: u8 = 3;

pub const DECLINE: u8 = 4;

pub const ACK: u8 = 5;

pub const NAK: u8 = 6;

pub const RELEASE: u8 = 7;

pub const INFORM: u8 = 8;

} // verus!
