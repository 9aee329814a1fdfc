//! Ghost sync and cross-server event ids (0x70-0x7F).

use vstd::prelude::*;

verus! {

pub const PLAYER_SYNC: u8 = 0x70;
pub const PLAYER_POSITION: u8 = 0x71;
pub const GHOST_REMOVE: u8 = 0x72;
pub const HEAL_REQUEST: u8 = 0x73;
pub const HEAL_CONFIRM: u8 = 0x74;
pub const UBER_SHARE: u8 = 0x75;
pub const DAMAGE_REQUEST: u8 = 0x76;
pub const DAMAGE_CONFIRM: u8 = 0x77;

} // verus!
