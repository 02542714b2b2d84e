//! Demodulator pages and registers.
use vstd::prelude::*;

verus! {

pub const P0_PAGE: u8 = 0;
pub const P1_PAGE: u8 = 1;
pub const P2_PAGE: u8 = 2;
pub const P0_AGC_CTL: u16 = 0x0019;
pub const P1_IIC_REPEAT: u16 = 0x0001;
pub const P1_IIC_REPEAT_ON: u8 = 0x18;
pub const P1_IIC_REPEAT_OFF: u8 = 0x10;
pub const P1_SOFT_RESET: u16 = 0x0001;
pub const P1_SOFT_RESET_ON: u8 = 0x14;
pub const P1_SOFT_RESET_OFF: u8 = 0x10;
// IF frequency registers (page 1)
pub const P1_IF_FREQ_H: u16 = 0x0019;
pub const P1_IF_FREQ_M: u16 = 0x001a;
pub const P1_IF_FREQ_L: u16 = 0x001b;
// Resampler registers (page 2)
pub const P2_RESAMPLE_H: u16 = 0x0022;
pub const P2_RESAMPLE_M: u16 = 0x0023;
pub const P2_RESAMPLE_L: u16 = 0x0024;
pub const P2_RESAMPLE_LSB: u16 = 0x0025;

} // verus!
