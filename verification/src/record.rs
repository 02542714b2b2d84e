//! What the registers of a device hold by what was written to them.
//!
//! A device's state is opaque to the rest of the library. What an operation comes to is
//! said here of everything that remembers what was written: of a memory, which knows what
//! each register holds, and of a record, which lists all operations.
use crate::device::{BusOp, HardwareInterface};
use vstd::prelude::*;

verus! {

/// A register of the device, or of a chip behind its I2C bridge.
pub enum Place {
    /// A register of the demodulator.
    Demod { page: u8, addr: u16 },
    /// A register of one of the other blocks.
    Block { blk: u16, addr: u16 },
    /// A register of the chip at an I2C address.
    Chip { chip: u8, reg: int },
}

/// What an operation writes to a register, if it does. An I2C write names the register
/// that its data starts at; the following bytes go to the following registers.
pub open spec fn written(op: BusOp, place: Place) -> Option<int> {
    match (op, place) {
        (BusOp::WriteReg { blk, addr, val }, Place::Block { blk: b, addr: a }) => if b == blk && a
            == addr {
            Some(val as int)
        } else {
            None
        },
        (BusOp::WriteReg16 { blk, addr, val16 }, Place::Block { blk: b, addr: a }) => if b == blk
            && a == addr {
            Some(val16 as int)
        } else {
            None
        },
        (BusOp::DemodWriteReg { page, addr, val }, Place::Demod { page: p, addr: a }) => if p
            == page && a == addr {
            Some(val as int)
        } else {
            None
        },
        (BusOp::DemodWriteReg16 { page, addr, val16 }, Place::Demod { page: p, addr: a }) => if p
            == page && a == addr {
            Some(val16 as int)
        } else {
            None
        },
        (BusOp::I2cWrite { chip, data }, Place::Chip { chip: c, reg }) => if c == chip
            && data.len() > 0 && 1 <= reg - data[0] + 1 < data.len() {
            Some(data[reg - data[0] + 1] as int)
        } else {
            None
        },
        _ => None,
    }
}

/// Whether `held` says of every state of the hardware what each register holds: a write
/// that succeeds changes the register that it names, and no operation changes another.
pub open spec fn is_memory<H: HardwareInterface>(held: spec_fn(H, Place) -> int) -> bool {
    forall|h: H, op: BusOp, place: Place|
        match written(op, place) {
            Some(val) => h.ack(op) is Ok ==> #[trigger] held(h.after(op), place) == val,
            None => held(h.after(op), place) == held(h, place),
        }
}

/// Whether reading a register of a block succeeds, and answers the byte that it holds.
pub open spec fn reads_back<H: HardwareInterface>(held: spec_fn(H, Place) -> int) -> bool {
    forall|h: H, blk: u16, addr: u16|
        (#[trigger] h.byte(BusOp::ReadReg { blk, addr })) matches Ok(val) && val == held(
            h,
            Place::Block { blk, addr },
        ) % 256
}

/// Whether byte `k` of everything that the chip at an I2C address answers is `val`.
pub open spec fn answers_byte<H: HardwareInterface>(chip: u8, k: int, val: u8) -> bool {
    forall|h: H, len: nat|
        match #[trigger] h.bytes(BusOp::I2cRead { chip, len }) {
            Ok(data) => k < data.len() ==> data[k] == val,
            Err(_) => true,
        }
}

/// Whether `done` lists, for every state of the hardware, the operations that led to it.
pub open spec fn is_record<H: HardwareInterface>(done: spec_fn(H) -> Seq<BusOp>) -> bool {
    forall|h: H, op: BusOp| done(#[trigger] h.after(op)) == done(h).push(op)
}

/// Whether hardware performs every write and answers every read, that of a chip in full.
pub open spec fn is_willing<H: HardwareInterface>() -> bool {
    &&& forall|h: H, op: BusOp| (#[trigger] h.ack(op)) is Ok
    &&& forall|h: H, op: BusOp| (#[trigger] h.byte(op)) is Ok
    &&& forall|h: H, chip: u8, len: nat|
        (#[trigger] h.bytes(BusOp::I2cRead { chip, len })) matches Ok(data) && data.len() >= len
}

} // verus!
