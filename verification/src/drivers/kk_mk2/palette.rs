//! Common palette indices, named after Synthesia's finger-based channel
//! convention.

use vstd::prelude::*;

verus! {

pub const OFF: u8 = 0x00;
pub const LIGHT_GREEN: u8 = 0x19;
pub const GREEN: u8 = 0x1d;
pub const RIGHT_THUMB: u8 = 0x1f;
pub const BLUE: u8 = 0x2d;
pub const LEFT_THUMB: u8 = 0x2f;

} // verus!
