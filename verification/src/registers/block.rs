//! Block IDs of USB control transfers (the upper byte of `wIndex`).
use vstd::prelude::*;

verus! {

pub const DEMOD: u16 = 0;
pub const USB: u16 = 1;
pub const SYS: u16 = 2;
pub const I2C: u16 = 6;

} // verus!
