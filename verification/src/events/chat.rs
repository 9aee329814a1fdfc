//! Chat event ids (0x10-0x1F).

use vstd::prelude::*;

verus! {

pub const CHAT_MESSAGE: u8 = 0x10;
pub const ADMIN_MESSAGE: u8 = 0x11;

} // verus!
