//! System block registers.
use vstd::prelude::*;

verus! {

pub const DEMOD_CTL: u16 = 0x3000;
pub const DEMOD_CTL1: u16 = 0x300b;
/// GPIO output levels.
pub const GPO: u16 = 0x3001;
/// GPIO output enables.
pub const GPOE: u16 = 0x3003;
/// GPIO directions, a set bit being an input.
pub const GPD: u16 = 0x3004;
pub const DEMOD_CTL_POWER_ON: u8 = 0xe8;
pub const DEMOD_CTL_POWER_OFF: u8 = 0x20;

} // verus!
