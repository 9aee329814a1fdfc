//! Player event ids (0x20-0x2F).

use vstd::prelude::*;

verus! {

pub const PLAYER_DEATH: u8 = 0x20;
pub const PLAYER_CONNECT: u8 = 0x21;
pub const PLAYER_DISCONNECT: u8 = 0x22;
pub const PLAYER_TEAM_CHANGE: u8 = 0x23;
pub const PLAYER_CLASS_CHANGE: u8 = 0x24;

} // verus!
