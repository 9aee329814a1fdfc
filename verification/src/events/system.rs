//! System event ids (0x00-0x0F).

use vstd::prelude::*;

verus! {

pub const HANDSHAKE: u8 = 0x00;
pub const HANDSHAKE_ACK: u8 = 0x01;
pub const HEARTBEAT: u8 = 0x02;
pub const HEARTBEAT_ACK: u8 = 0x03;
pub const SERVER_CONNECT: u8 = 0x04;
pub const SERVER_DISCONNECT: u8 = 0x05;
pub const ERROR: u8 = 0x06;

} // verus!
