//! Gameplay event ids (0x30-0x3F); some are reserved for later
//! cross-server features and have no record yet.

use vstd::prelude::*;

verus! {

pub const PLAYER_HEALED: u8 = 0x30;
pub const BUILDING_HEALED: u8 = 0x31;
pub const UBER_DEPLOYED: u8 = 0x32;
pub const PLAYER_INVULNED: u8 = 0x33;
pub const PLAYER_HURT: u8 = 0x34;
pub const BUILDING_BUILT: u8 = 0x35;
pub const BUILDING_DESTROYED: u8 = 0x36;
pub const BUILDING_SAPPED: u8 = 0x37;
pub const PROJECTILE_DEFLECTED: u8 = 0x38;
pub const PLAYER_IGNITED: u8 = 0x39;
pub const PLAYER_EXTINGUISHED: u8 = 0x3A;
pub const PLAYER_JARATED: u8 = 0x3B;
pub const PLAYER_TELEPORTED: u8 = 0x3C;
pub const PLAYER_SPAWN: u8 = 0x3D;
pub const MEDIC_DEATH: u8 = 0x3E;
pub const SENTRY_ATTACK: u8 = 0x3F;

} // verus!
