//! I2C addresses of the tuner chips.
use vstd::prelude::*;

verus! {

pub const R82XX_I2C_ADDR: u8 = 0x34;
pub const R828D_I2C_ADDR: u8 = 0x74;
pub const E4000_I2C_ADDR: u8 = 0xc8;
pub const FC0012_I2C_ADDR: u8 = 0xc2;
pub const FC0013_I2C_ADDR: u8 = 0xc6;

/// What the Rafael Micro tuners answer to a read of register 0.
pub const RAFAEL_CHIP_ID: u8 = 0x69;

/// The E4000's identity register, and what it holds.
pub const E4000_ID_REG: u8 = 0x02;

pub const E4000_CHIP_ID: u8 = 0x40;

/// What the FC0012, and some of the FC0013, answer to a read of register 0.
pub const FC0012_CHIP_ID: u8 = 0xa1;

/// What the other FC0013 answer.
pub const FC0013_CHIP_ID: u8 = 0x63;

} // verus!
