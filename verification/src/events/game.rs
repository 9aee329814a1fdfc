//! Game event ids (0x40-0x5F).

use vstd::prelude::*;

verus! {

pub const ROUND_START: u8 = 0x40;
pub const ROUND_END: u8 = 0x41;
pub const MAP_CHANGE: u8 = 0x42;
pub const GAME_MODE_INFO: u8 = 0x43;

} // verus!
