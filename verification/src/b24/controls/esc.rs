use vstd::prelude::*;

verus! {

pub const LS2: u8 = 0x6e;
pub const LS3: u8 = 0x6f;
pub const LS1R: u8 = 0x7e;
pub const LS2R: u8 = 0x7d;
pub const LS3R: u8 = 0x7c;

} // verus!
