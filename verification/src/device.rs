//! The RTL2832U as the rest of the library sees it: registers, the I2C bridge
//! to the tuner chip, GPIO pins and a clock to wait by.
//!
//! [`HardwareInterface`] holds the elementary transfers. What the board can be
//! made to do with them (the I2C repeater, tuner register access, GPIO pins,
//! tuner detection) is [`HardwareRoutines`], which every implementation of the
//! first trait has.
use crate::error::{Error, Result};
use crate::record::{self, Place};
use crate::registers::{block, demod, sys, tuner_ids};
pub use crate::transfer::DeviceInfo;
use crate::tuner::TunerType;
use vstd::prelude::*;

verus! {

/// One elementary transfer, or a pause between two of them.
pub enum BusOp {
    WriteReg { blk: u16, addr: u16, val: u8 },
    WriteReg16 { blk: u16, addr: u16, val16: u16 },
    ReadReg { blk: u16, addr: u16 },
    DemodWriteReg { page: u8, addr: u16, val: u8 },
    DemodWriteReg16 { page: u8, addr: u16, val16: u16 },
    DemodReadReg { page: u8, addr: u16 },
    I2cWrite { chip: u8, data: Seq<u8> },
    I2cRead { chip: u8, len: nat },
    Sleep { ms: nat },
}

/// The elementary transfers of an RTL2832U.
///
/// A value of an implementing type stands for the hardware in its current
/// state. `after` is its state once an operation has been performed, and `ack`,
/// `byte` and `bytes` are what the operation answers. An implementation has to choose
/// these four such that its transfers meet their contracts; what is proved holds of
/// every choice. For a real device the state takes in all that its answers depend on,
/// such as what it will answer next, and the choice is whatever the device does.
///
/// The default bodies are no such choice: no device answers every operation alike. They
/// let an implementation that is not itself verified, such as one that performs USB
/// transfers, be written without ghost code. A verified one overrides all four, as
/// [`MockHardware`] does.
pub trait HardwareInterface: Sized {
    /// The hardware once `op` has been performed, successfully or not.
    open spec fn after(self, op: BusOp) -> Self {
        arbitrary()
    }

    /// Whether a write succeeds.
    open spec fn ack(self, op: BusOp) -> Result<()> {
        arbitrary()
    }

    /// The answer to a read of one register.
    open spec fn byte(self, op: BusOp) -> Result<u8> {
        arbitrary()
    }

    /// The answer to a read over I2C.
    open spec fn bytes(self, op: BusOp) -> Result<Seq<u8>> {
        arbitrary()
    }

    fn write_reg(&mut self, blk: u16, addr: u16, val: u8) -> (res: Result<()>)
        ensures
            *final(self) == old(self).after(BusOp::WriteReg { blk, addr, val }),
            res == old(self).ack(BusOp::WriteReg { blk, addr, val }),
    ;

    fn write_reg16(&mut self, blk: u16, addr: u16, val: u16) -> (res: Result<()>)
        ensures
            *final(self) == old(self).after(BusOp::WriteReg16 { blk, addr, val16: val }),
            res == old(self).ack(BusOp::WriteReg16 { blk, addr, val16: val }),
    ;

    fn read_reg(&mut self, blk: u16, addr: u16) -> (res: Result<u8>)
        ensures
            *final(self) == old(self).after(BusOp::ReadReg { blk, addr }),
            res == old(self).byte(BusOp::ReadReg { blk, addr }),
    ;

    fn demod_write_reg(&mut self, page: u8, addr: u16, val: u8) -> (res: Result<()>)
        ensures
            *final(self) == old(self).after(BusOp::DemodWriteReg { page, addr, val }),
            res == old(self).ack(BusOp::DemodWriteReg { page, addr, val }),
    ;

    fn demod_write_reg16(&mut self, page: u8, addr: u16, val: u16) -> (res: Result<()>)
        ensures
            *final(self) == old(self).after(BusOp::DemodWriteReg16 { page, addr, val16: val }),
            res == old(self).ack(BusOp::DemodWriteReg16 { page, addr, val16: val }),
    ;

    fn demod_read_reg(&mut self, page: u8, addr: u16) -> (res: Result<u8>)
        ensures
            *final(self) == old(self).after(BusOp::DemodReadReg { page, addr }),
            res == old(self).byte(BusOp::DemodReadReg { page, addr }),
    ;

    /// Writes `data` to the chip at I2C address `addr`; the repeater must be on.
    fn i2c_write_raw(&mut self, addr: u8, data: &[u8]) -> (res: Result<()>)
        ensures
            *final(self) == old(self).after(BusOp::I2cWrite { chip: addr, data: data@ }),
            res == old(self).ack(BusOp::I2cWrite { chip: addr, data: data@ }),
    ;

    /// Reads `len` bytes from the chip at I2C address `addr`; the repeater must
    /// be on. The chip may answer with another number of bytes.
    fn i2c_read_raw(&mut self, addr: u8, len: usize) -> (res: Result<Vec<u8>>)
        ensures
            *final(self) == old(self).after(BusOp::I2cRead { chip: addr, len: len as nat }),
            bytes_result(res) == old(self).bytes(BusOp::I2cRead { chip: addr, len: len as nat }),
    ;

    /// Waits for `ms` milliseconds.
    fn sleep_ms(&mut self, ms: u64)
        ensures
            *final(self) == old(self).after(BusOp::Sleep { ms: ms as nat }),
    ;
}

/// A read's result, with its bytes as a sequence.
pub open spec fn bytes_result(res: Result<Vec<u8>>) -> Result<Seq<u8>> {
    match res {
        Ok(v) => Ok(v@),
        Err(e) => Err(e),
    }
}

// ── Exchanges ───────────────────────────────────────────────────────────────
/// Where an exchange with the hardware has got to: the state of the hardware
/// and the result so far. Once an operation has failed, those that would have
/// followed are not performed.
pub struct Exchange<H, T> {
    pub hw: H,
    pub res: Result<T>,
}

impl<H: HardwareInterface> Exchange<H, ()> {
    /// An exchange in which nothing has been performed yet.
    pub open spec fn begin(hw: H) -> Self {
        Exchange { hw, res: Ok(()) }
    }

    /// Followed by the write `op`.
    pub open spec fn op(self, op: BusOp) -> Self {
        if self.res is Ok {
            Exchange { hw: self.hw.after(op), res: self.hw.ack(op) }
        } else {
            self
        }
    }

    /// Followed by the writes `ops`, in order.
    pub open spec fn ops(self, ops: Seq<BusOp>) -> Self
        decreases ops.len(),
    {
        if ops.len() == 0 {
            self
        } else {
            self.ops(ops.drop_last()).op(ops.last())
        }
    }

    pub open spec fn reg(self, blk: u16, addr: u16, val: u8) -> Self {
        self.op(BusOp::WriteReg { blk, addr, val })
    }

    pub open spec fn reg16(self, blk: u16, addr: u16, val16: u16) -> Self {
        self.op(BusOp::WriteReg16 { blk, addr, val16 })
    }

    pub open spec fn demod(self, page: u8, addr: u16, val: u8) -> Self {
        self.op(BusOp::DemodWriteReg { page, addr, val })
    }

    pub open spec fn demod16(self, page: u8, addr: u16, val16: u16) -> Self {
        self.op(BusOp::DemodWriteReg16 { page, addr, val16 })
    }

    pub open spec fn i2c(self, chip: u8, data: Seq<u8>) -> Self {
        self.op(BusOp::I2cWrite { chip, data })
    }

    /// Followed by a pause.
    pub open spec fn sleep(self, ms: nat) -> Self {
        if self.res is Ok {
            Exchange { hw: self.hw.after(BusOp::Sleep { ms }), res: Ok(()) }
        } else {
            self
        }
    }

    /// Followed by what `next` does with the hardware.
    pub open spec fn chain<T>(self, next: spec_fn(H) -> Exchange<H, T>) -> Exchange<H, T> {
        match self.res {
            Ok(_) => next(self.hw),
            Err(e) => Exchange { hw: self.hw, res: Err(e) },
        }
    }
}

/// A register's new content worked out from its old one.
pub open spec fn update_reg<H: HardwareInterface>(
    hw: H,
    blk: u16,
    addr: u16,
    f: spec_fn(u8) -> u8,
) -> Exchange<H, ()> {
    let op = BusOp::ReadReg { blk, addr };
    match hw.byte(op) {
        Ok(val) => Exchange::begin(hw.after(op)).reg(blk, addr, f(val)),
        Err(e) => Exchange { hw: hw.after(op), res: Err(e) },
    }
}

/// The operation that switches the I2C repeater on or off.
pub open spec fn repeater_op(on: bool) -> BusOp {
    BusOp::DemodWriteReg {
        page: demod::P1_PAGE,
        addr: demod::P1_IIC_REPEAT,
        val: if on {
            demod::P1_IIC_REPEAT_ON
        } else {
            demod::P1_IIC_REPEAT_OFF
        },
    }
}

/// `body`, with the I2C repeater switched on before it and off after it. The
/// repeater is switched off whether or not `body` succeeds.
pub open spec fn with_repeater<H: HardwareInterface, T>(
    hw: H,
    body: spec_fn(H) -> Exchange<H, T>,
) -> Exchange<H, T> {
    match hw.ack(repeater_op(true)) {
        Ok(_) => {
            let inner = body(hw.after(repeater_op(true)));
            Exchange { hw: inner.hw.after(repeater_op(false)), res: inner.res }
        },
        Err(e) => Exchange { hw: hw.after(repeater_op(true)), res: Err(e) },
    }
}

/// Most data bytes that one I2C write carries.
pub const I2C_CHUNK: usize = 7;

/// How many I2C writes `len` data bytes take. Without data one write still
/// goes out, which only selects the register.
pub open spec fn chunk_count(len: nat) -> nat {
    if len == 0 {
        1
    } else {
        ((len + 6) / 7) as nat
    }
}

/// The `k`-th I2C write of `data` to registers `reg`, `reg + 1`, ...: the
/// register that the chunk starts at, followed by at most seven data bytes.
pub open spec fn chunk_op(chip: u8, reg: u8, data: Seq<u8>, k: int) -> BusOp {
    let end = if 7 * k + 7 <= data.len() {
        7 * k + 7
    } else {
        data.len() as int
    };
    BusOp::I2cWrite { chip, data: seq![(reg + 7 * k) as u8] + data.subrange(7 * k, end) }
}

/// The I2C writes that put `data` into the registers from `reg` on.
pub open spec fn chunk_ops(chip: u8, reg: u8, data: Seq<u8>) -> Seq<BusOp> {
    Seq::new(chunk_count(data.len()), |k: int| chunk_op(chip, reg, data, k))
}

pub open spec fn tuner_write<H: HardwareInterface>(
    hw: H,
    chip: u8,
    reg: u8,
    data: Seq<u8>,
) -> Exchange<H, ()> {
    with_repeater(hw, |h: H| Exchange::begin(h).ops(chunk_ops(chip, reg, data)))
}

pub open spec fn raw_read<H: HardwareInterface>(hw: H, chip: u8, len: nat) -> Exchange<
    H,
    Seq<u8>,
> {
    let op = BusOp::I2cRead { chip, len };
    Exchange { hw: hw.after(op), res: hw.bytes(op) }
}

pub open spec fn tuner_read<H: HardwareInterface>(
    hw: H,
    chip: u8,
    reg: u8,
    len: nat,
) -> Exchange<H, Seq<u8>> {
    with_repeater(hw, |h: H| Exchange::begin(h).i2c(chip, seq![reg]).chain(|g: H| raw_read(g, chip, len)))
}

pub open spec fn direct_read<H: HardwareInterface>(hw: H, chip: u8, len: nat) -> Exchange<
    H,
    Seq<u8>,
> {
    with_repeater(hw, |h: H| raw_read(h, chip, len))
}

/// Makes GPIO pin `gpio` an output: its output enable is set, then its
/// direction bit is cleared.
pub open spec fn gpio_output<H: HardwareInterface>(hw: H, gpio: u8) -> Exchange<H, ()> {
    let bit = 1u8 << gpio;
    update_reg(hw, block::SYS, sys::GPOE, |val: u8| val | bit).chain(
        |h: H| update_reg(h, block::SYS, sys::GPD, |val: u8| val & !bit),
    )
}

/// Drives GPIO pin `gpio` high or low, leaving the other pins as they are.
pub open spec fn gpio_bit<H: HardwareInterface>(hw: H, gpio: u8, value: bool) -> Exchange<H, ()> {
    let bit = 1u8 << gpio;
    update_reg(
        hw,
        block::SYS,
        sys::GPO,
        |val: u8|
            if value {
                val | bit
            } else {
                val & !bit
            },
    )
}

/// The first byte of an answer, if there is one.
pub open spec fn first_byte(res: Result<Seq<u8>>) -> Option<u8> {
    match res {
        Ok(data) => if data.len() > 0 {
            Some(data[0])
        } else {
            None
        },
        Err(_) => None,
    }
}

/// A pulse on GPIO 4, which resets some tuners. Failures do not matter.
pub open spec fn tuner_reset<H: HardwareInterface>(hw: H) -> H {
    gpio_bit(gpio_bit(gpio_output(hw, 4).hw, 4, true).hw, 4, false).hw
}

/// The search for the tuner, with the repeater on.
pub open spec fn probe<H: HardwareInterface>(hw: H) -> Exchange<H, TunerType> {
    with_repeater(hw, |h: H| probe_body(h))
}

/// Looks for an R820T, then for an R828D. When neither answers, GPIO 4 is
/// pulsed, and an E4000, an FC0012 and an FC0013 are looked for.
pub open spec fn probe_body<H: HardwareInterface>(hw: H) -> Exchange<H, TunerType> {
    let r820t = tuner_read(hw, tuner_ids::R82XX_I2C_ADDR, 0x00, 1);
    let r828d = tuner_read(r820t.hw, tuner_ids::R828D_I2C_ADDR, 0x00, 1);
    let e4000 = tuner_read(
        tuner_reset(r828d.hw),
        tuner_ids::E4000_I2C_ADDR,
        tuner_ids::E4000_ID_REG,
        1,
    );
    let fc0012 = tuner_read(e4000.hw, tuner_ids::FC0012_I2C_ADDR, 0x00, 1);
    let fc0013 = tuner_read(fc0012.hw, tuner_ids::FC0013_I2C_ADDR, 0x00, 1);
    if first_byte(r820t.res) == Some(tuner_ids::RAFAEL_CHIP_ID) {
        Exchange { hw: r820t.hw, res: Ok(TunerType::R820T) }
    } else if first_byte(r828d.res) == Some(tuner_ids::RAFAEL_CHIP_ID) {
        Exchange { hw: r828d.hw, res: Ok(TunerType::R828D) }
    } else if first_byte(e4000.res) == Some(tuner_ids::E4000_CHIP_ID) {
        Exchange { hw: e4000.hw, res: Ok(TunerType::E4000) }
    } else if first_byte(fc0012.res) == Some(tuner_ids::FC0012_CHIP_ID) {
        Exchange { hw: fc0012.hw, res: Ok(TunerType::FC0012) }
    } else if first_byte(fc0013.res) == Some(tuner_ids::FC0013_CHIP_ID) || first_byte(
        fc0013.res,
    ) == Some(tuner_ids::FC0012_CHIP_ID) {
        Exchange { hw: fc0013.hw, res: Ok(TunerType::FC0013) }
    } else {
        Exchange { hw: fc0013.hw, res: Ok(TunerType::Unknown(0)) }
    }
}

/// The first byte that the tuner at `addr` answers to a read of register `reg`.
fn identity<H: HardwareInterface>(hw: &mut H, addr: u8, reg: u8) -> (id: Option<u8>)
    ensures
        *final(hw) == tuner_read(*old(hw), addr, reg, 1).hw,
        id == first_byte(tuner_read(*old(hw), addr, reg, 1).res),
{
    match hw.i2c_read_tuner(addr, reg, 1) {
        Ok(data) => if data.len() > 0 {
            Some(data[0])
        } else {
            None
        },
        Err(_) => None,
    }
}

/// Finds out which tuner answers; the repeater must be on.
fn identify<H: HardwareInterface>(hw: &mut H) -> (found: TunerType)
    ensures
        probe_body(*old(hw)) == (Exchange { hw: *final(hw), res: Ok(found) }),
{
    if identity(hw, tuner_ids::R82XX_I2C_ADDR, 0x00) == Some(tuner_ids::RAFAEL_CHIP_ID) {
        return TunerType::R820T;
    }
    if identity(hw, tuner_ids::R828D_I2C_ADDR, 0x00) == Some(tuner_ids::RAFAEL_CHIP_ID) {
        return TunerType::R828D;
    }
    let _ = hw.set_gpio_output(4);
    let _ = hw.set_gpio_bit(4, true);
    let _ = hw.set_gpio_bit(4, false);
    if identity(hw, tuner_ids::E4000_I2C_ADDR, tuner_ids::E4000_ID_REG) == Some(
        tuner_ids::E4000_CHIP_ID,
    ) {
        return TunerType::E4000;
    }
    if identity(hw, tuner_ids::FC0012_I2C_ADDR, 0x00) == Some(tuner_ids::FC0012_CHIP_ID) {
        return TunerType::FC0012;
    }
    let id = identity(hw, tuner_ids::FC0013_I2C_ADDR, 0x00);
    if id == Some(tuner_ids::FC0013_CHIP_ID) || id == Some(tuner_ids::FC0012_CHIP_ID) {
        return TunerType::FC0013;
    }
    TunerType::Unknown(0)
}

// ── Routines ────────────────────────────────────────────────────────────────
/// What can be done with the elementary transfers.
pub trait HardwareRoutines: HardwareInterface {
    /// Opens or closes the bridge between the RTL2832U and the tuner chip.
    fn set_i2c_repeater(&mut self, on: bool) -> (res: Result<()>)
        ensures
            (Exchange { hw: *final(self), res }) == Exchange::begin(*old(self)).op(repeater_op(on)),
    ;

    /// Writes `data` into the tuner registers from `reg` on, in I2C writes of at
    /// most seven data bytes.
    fn i2c_write_tuner(&mut self, addr: u8, reg: u8, data: &[u8]) -> (res: Result<()>)
        requires
            reg + data@.len() <= 255,
        ensures
            (Exchange { hw: *final(self), res }) == tuner_write(*old(self), addr, reg, data@),
    ;

    /// Selects tuner register `reg` and reads `len` bytes from there on.
    fn i2c_read_tuner(&mut self, addr: u8, reg: u8, len: usize) -> (res: Result<Vec<u8>>)
        ensures
            (Exchange { hw: *final(self), res: bytes_result(res) }) == tuner_read(
                *old(self),
                addr,
                reg,
                len as nat,
            ),
    ;

    /// Reads `len` bytes from the register that was selected last.
    fn i2c_read_direct(&mut self, addr: u8, len: usize) -> (res: Result<Vec<u8>>)
        ensures
            (Exchange { hw: *final(self), res: bytes_result(res) }) == direct_read(
                *old(self),
                addr,
                len as nat,
            ),
    ;

    /// Makes a GPIO pin an output.
    fn set_gpio_output(&mut self, gpio: u8) -> (res: Result<()>)
        requires
            gpio < 8,
        ensures
            (Exchange { hw: *final(self), res }) == gpio_output(*old(self), gpio),
    ;

    /// Drives a GPIO pin high or low.
    fn set_gpio_bit(&mut self, gpio: u8, value: bool) -> (res: Result<()>)
        requires
            gpio < 8,
        ensures
            (Exchange { hw: *final(self), res }) == gpio_bit(*old(self), gpio, value),
    ;

    /// Finds out which tuner chip the board carries.
    fn probe_tuner(&mut self) -> (res: Result<TunerType>)
        ensures
            (Exchange { hw: *final(self), res }) == probe(*old(self)),
    ;
}

impl<H: HardwareInterface> HardwareRoutines for H {
    fn set_i2c_repeater(&mut self, on: bool) -> (res: Result<()>) {
        let val: u8 = if on {
            demod::P1_IIC_REPEAT_ON
        } else {
            demod::P1_IIC_REPEAT_OFF
        };
        self.demod_write_reg(demod::P1_PAGE, demod::P1_IIC_REPEAT, val)
    }

    fn i2c_write_tuner(&mut self, addr: u8, reg: u8, data: &[u8]) -> (res: Result<()>) {
        self.set_i2c_repeater(true)?;
        let ghost opened = *self;
        let ghost all = chunk_ops(addr, reg, data@);
        let mut res: Result<()> = Ok(());
        if data.len() == 0 {
            let select: [u8; 1] = [reg];
            res = self.i2c_write_raw(addr, &select);
            proof {
                assert(select@ =~= seq![reg] + data@.subrange(0, 0));
                reveal_with_fuel(Exchange::ops, 2);
                assert(all.len() == 1 && all[0] == chunk_op(addr, reg, data@, 0));
                assert(all.drop_last() =~= Seq::empty());
            }
        } else {
            let mut pos: usize = 0;
            let mut current_reg: u8 = reg;
            let ghost mut k: int = 0;
            assert(all.take(0) =~= Seq::empty());
            while pos < data.len() && res.is_ok()
                invariant
                    0 < data@.len() <= 255,
                    reg + data@.len() <= 255,
                    pos <= data@.len(),
                    0 <= k <= all.len(),
                    res is Ok ==> pos == if 7 * k <= data@.len() { 7 * k } else { data@.len() as int },
                    current_reg == reg + pos,
                    all == chunk_ops(addr, reg, data@),
                    res is Ok ==> (Exchange { hw: *self, res }) == Exchange::begin(opened).ops(all.take(k)),
                    res is Err ==> (Exchange { hw: *self, res }) == Exchange::begin(opened).ops(all),
                decreases data@.len() - pos, if res is Ok { 1int } else { 0int },
            {
                let left: usize = data.len() - pos;
                let chunk_len: usize = if left < I2C_CHUNK {
                    left
                } else {
                    I2C_CHUNK
                };
                let mut buf: Vec<u8> = Vec::with_capacity(1 + chunk_len);
                buf.push(current_reg);
                buf.extend_from_slice(&data[pos..pos + chunk_len]);
                proof {
                    assert(chunk_op(addr, reg, data@, k) == BusOp::I2cWrite {
                        chip: addr,
                        data: buf@,
                    }) by {
                        assert(buf@ =~= seq![(reg + 7 * k) as u8] + data@.subrange(
                            7 * k,
                            pos + chunk_len,
                        ));
                    }
                    assert(all[k] == chunk_op(addr, reg, data@, k));
                    assert(all.take(k + 1).drop_last() =~= all.take(k));
                }
                res = self.i2c_write_raw(addr, buf.as_slice());
                proof {
                    k = k + 1;
                    if res is Err {
                        lemma_failed_ops_stay(Exchange::begin(opened), all, k);
                    }
                }
                if res.is_ok() {
                    pos = pos + chunk_len;
                    current_reg = current_reg + chunk_len as u8;
                }
            }
            assert(res is Ok ==> all.take(k) =~= all);
        }
        let _ = self.set_i2c_repeater(false);
        res
    }

    fn i2c_read_tuner(&mut self, addr: u8, reg: u8, len: usize) -> (res: Result<Vec<u8>>) {
        self.set_i2c_repeater(true)?;
        let select: [u8; 1] = [reg];
        assert(select@ =~= seq![reg]);
        let data = match self.i2c_write_raw(addr, &select) {
            Ok(_) => self.i2c_read_raw(addr, len),
            Err(e) => Err(e),
        };
        let _ = self.set_i2c_repeater(false);
        data
    }

    fn i2c_read_direct(&mut self, addr: u8, len: usize) -> (res: Result<Vec<u8>>) {
        self.set_i2c_repeater(true)?;
        let data = self.i2c_read_raw(addr, len);
        let _ = self.set_i2c_repeater(false);
        data
    }

    fn set_gpio_output(&mut self, gpio: u8) -> (res: Result<()>) {
        let bit: u8 = 1u8 << gpio;
        let val: u8 = self.read_reg(block::SYS, sys::GPOE)?;
        self.write_reg(block::SYS, sys::GPOE, val | bit)?;
        let val: u8 = self.read_reg(block::SYS, sys::GPD)?;
        self.write_reg(block::SYS, sys::GPD, val & !bit)?;
        Ok(())
    }

    fn set_gpio_bit(&mut self, gpio: u8, value: bool) -> (res: Result<()>) {
        let bit: u8 = 1u8 << gpio;
        let val: u8 = self.read_reg(block::SYS, sys::GPO)?;
        let new: u8 = if value {
            val | bit
        } else {
            val & !bit
        };
        self.write_reg(block::SYS, sys::GPO, new)?;
        Ok(())
    }

    fn probe_tuner(&mut self) -> (res: Result<TunerType>) {
        self.set_i2c_repeater(true)?;
        let found = identify(self);
        let _ = self.set_i2c_repeater(false);
        Ok(found)
    }
}

// ── A board that always succeeds ────────────────────────────────────────────
/// Hardware that accepts every write and answers every read with zeros.
#[derive(Debug, Clone, Copy, PartialEq, Eq, Structural)]
pub struct MockHardware;

impl HardwareInterface for MockHardware {
    open spec fn after(self, op: BusOp) -> Self {
        self
    }

    open spec fn ack(self, op: BusOp) -> Result<()> {
        Ok(())
    }

    open spec fn byte(self, op: BusOp) -> Result<u8> {
        Ok(0)
    }

    open spec fn bytes(self, op: BusOp) -> Result<Seq<u8>> {
        Ok(seq![0u8])
    }

    fn write_reg(&mut self, blk: u16, addr: u16, val: u8) -> (res: Result<()>) {
        Ok(())
    }

    fn write_reg16(&mut self, blk: u16, addr: u16, val: u16) -> (res: Result<()>) {
        Ok(())
    }

    fn read_reg(&mut self, blk: u16, addr: u16) -> (res: Result<u8>) {
        Ok(0)
    }

    fn demod_write_reg(&mut self, page: u8, addr: u16, val: u8) -> (res: Result<()>) {
        Ok(())
    }

    fn demod_write_reg16(&mut self, page: u8, addr: u16, val: u16) -> (res: Result<()>) {
        Ok(())
    }

    fn demod_read_reg(&mut self, page: u8, addr: u16) -> (res: Result<u8>) {
        Ok(0)
    }

    fn i2c_write_raw(&mut self, addr: u8, data: &[u8]) -> (res: Result<()>) {
        Ok(())
    }

    fn i2c_read_raw(&mut self, addr: u8, len: usize) -> (res: Result<Vec<u8>>) {
        let mut data: Vec<u8> = Vec::new();
        data.push(0);
        Ok(data)
    }

    fn sleep_ms(&mut self, ms: u64) {
    }
}

impl MockHardware {
    /// The mock board carries an R828D.
    pub fn probe_tuner(&mut self) -> (res: Result<TunerType>)
        ensures
            res == Result::<TunerType>::Ok(TunerType::R828D),
            *final(self) == *old(self),
    {
        Ok(TunerType::R828D)
    }
}

// ── Laws ────────────────────────────────────────────────────────────────────
/// Once the repeater has been switched on, switching it off is the last thing that
/// happens, and the result is that of what happened in between, failure or not.
pub proof fn lemma_repeater_closed<H: HardwareInterface, T>(
    hw: H,
    body: spec_fn(H) -> Exchange<H, T>,
)
    requires
        hw.ack(repeater_op(true)) is Ok,
    ensures
        ({
            let inner = body(hw.after(repeater_op(true)));
            let whole = with_repeater(hw, body);
            whole.hw == inner.hw.after(repeater_op(false)) && whole.res == inner.res
        }),
{
}

/// Every byte of a write to the tuner goes out exactly once, in a write that starts at
/// a register such that the byte lands `i` registers after the first. No write carries
/// more than seven of them.
pub proof fn lemma_tuner_write_places_data(chip: u8, reg: u8, data: Seq<u8>, i: int)
    requires
        0 <= i < data.len(),
        reg + data.len() <= 255,
    ensures
        ({
            let ops = chunk_ops(chip, reg, data);
            let k = i / 7;
            &&& 0 <= k < ops.len()
            &&& ops[k] matches BusOp::I2cWrite { chip: c, data: sent } && c == chip && sent.len()
                <= 8 && sent[0] + i % 7 == reg + i && sent[1 + i % 7] == data[i]
        }),
{
    let ops = chunk_ops(chip, reg, data);
    let k = i / 7;
    assert(ops[k] == chunk_op(chip, reg, data, k));
}

/// A write without data still goes out, and only selects the register.
pub proof fn lemma_empty_tuner_write(chip: u8, reg: u8)
    ensures
        chunk_ops(chip, reg, Seq::empty()) == seq![
            BusOp::I2cWrite { chip, data: seq![reg] },
        ],
{
    let ops = chunk_ops(chip, reg, Seq::<u8>::empty());
    assert(seq![reg] + Seq::<u8>::empty().subrange(0, 0) =~= seq![reg]);
    assert(ops[0] == chunk_op(chip, reg, Seq::<u8>::empty(), 0));
    assert(ops =~= seq![BusOp::I2cWrite { chip, data: seq![reg] }]);
}

/// Driving a pin sets or clears its bit and leaves the other pins as they are.
pub proof fn lemma_gpio_bit_alone(val: u8, gpio: u8, value: bool, other: u8)
    requires
        gpio < 8,
        other < 8,
    ensures
        ({
            let bit = 1u8 << gpio;
            let new = if value {
                val | bit
            } else {
                val & !bit
            };
            &&& (new & bit != 0) == value
            &&& other != gpio ==> new & (1u8 << other) == val & (1u8 << other)
        }),
{
    assert((val | (1u8 << gpio)) & (1u8 << gpio) != 0 && (val & !(1u8 << gpio)) & (1u8 << gpio) == 0
        && (other != gpio ==> (val | (1u8 << gpio)) & (1u8 << other) == val & (1u8 << other) && (val
        & !(1u8 << gpio)) & (1u8 << other) == val & (1u8 << other))) by (bit_vector)
        requires
            gpio < 8,
            other < 8,
    ;
}

/// What the first `k` writes of `data` put into the chip's registers.
proof fn lemma_chunks_held<H: HardwareInterface>(
    hw: H,
    chip: u8,
    reg: u8,
    data: Seq<u8>,
    k: nat,
    held: spec_fn(H, Place) -> int,
)
    requires
        record::is_memory(held),
        reg + data.len() <= 255,
        k <= chunk_ops(chip, reg, data).len(),
    ensures
        ({
            let e = Exchange::begin(hw).ops(chunk_ops(chip, reg, data).take(k as int));
            &&& e.res is Ok ==> forall|i: int|
                0 <= i < data.len() && i < 7 * k ==> held(
                    e.hw,
                    Place::Chip { chip, reg: reg + i },
                ) == #[trigger] data[i]
            &&& forall|place: Place|
                (place matches Place::Chip { chip: c, reg: r } ==> c != chip || r < reg || r >= reg
                    + data.len()) ==> #[trigger] held(e.hw, place) == held(hw, place)
        }),
    decreases k,
{
    let all = chunk_ops(chip, reg, data);
    if k > 0 {
        lemma_chunks_held(hw, chip, reg, data, (k - 1) as nat, held);
        assert(all.take(k as int).drop_last() =~= all.take(k - 1));
        let before = Exchange::begin(hw).ops(all.take(k - 1));
        let op = chunk_op(chip, reg, data, k - 1);
        let e = Exchange::begin(hw).ops(all.take(k as int));
        assert(all.take(k as int).last() == op);
        assert(e == before.op(op));
        if e.res is Ok {
            assert forall|i: int| 0 <= i < data.len() && i < 7 * k implies held(
                e.hw,
                Place::Chip { chip, reg: reg + i },
            ) == #[trigger] data[i] by {
                let place = Place::Chip { chip, reg: reg + i };
                if i < 7 * (k - 1) {
                    assert(record::written(op, place) is None);
                } else {
                    assert(record::written(op, place) == Some(data[i] as int));
                }
            }
        }
        assert forall|place: Place|
            (place matches Place::Chip { chip: c, reg: r } ==> c != chip || r < reg || r >= reg
                + data.len()) implies #[trigger] held(e.hw, place) == held(hw, place) by {
            assert(record::written(op, place) is None);
            assert(held(before.hw, place) == held(hw, place));
        }
    } else {
        assert(all.take(0) =~= Seq::empty());
    }
}

/// After a write to the tuner that succeeded, the chip's registers from `reg` on hold the
/// data, one byte each. Nothing else changes, whether it succeeds or not, but the switch of
/// the I2C repeater.
pub proof fn lemma_tuner_write_held<H: HardwareInterface>(
    hw: H,
    chip: u8,
    reg: u8,
    data: Seq<u8>,
    held: spec_fn(H, Place) -> int,
)
    requires
        record::is_memory(held),
        reg + data.len() <= 255,
    ensures
        ({
            let e = tuner_write(hw, chip, reg, data);
            &&& e.res is Ok ==> forall|i: int|
                0 <= i < data.len() ==> held(e.hw, Place::Chip { chip, reg: reg + i })
                    == #[trigger] data[i]
            &&& forall|place: Place|
                (place matches Place::Chip { chip: c, reg: r } ==> c != chip || r < reg || r >= reg
                    + data.len()) && place != (Place::Demod { page: 1, addr: 1 }) ==> #[trigger] held(
                    e.hw,
                    place,
                ) == held(hw, place)
        }),
{
    let all = chunk_ops(chip, reg, data);
    let opened = hw.after(repeater_op(true));
    lemma_chunks_held(opened, chip, reg, data, all.len(), held);
    assert(all.take(all.len() as int) =~= all);
    let inner = Exchange::begin(opened).ops(all);
    let e = tuner_write(hw, chip, reg, data);
    if e.res is Ok {
        assert forall|i: int| 0 <= i < data.len() implies held(
            e.hw,
            Place::Chip { chip, reg: reg + i },
        ) == #[trigger] data[i] by {
            assert(held(inner.hw, Place::Chip { chip, reg: reg + i }) == data[i]);
        }
    }
    assert forall|place: Place|
        (place matches Place::Chip { chip: c, reg: r } ==> c != chip || r < reg || r >= reg
            + data.len()) && place != (Place::Demod { page: 1, addr: 1 }) implies #[trigger] held(
        e.hw,
        place,
    ) == held(hw, place) by {
        assert(held(inner.hw, place) == held(opened, place));
    }
}

/// After one byte has been written to a register of the tuner, the register holds it, and no
/// other register of any chip has changed.
pub proof fn lemma_byte_held<H: HardwareInterface>(chip: u8, held: spec_fn(H, Place) -> int)
    requires
        record::is_memory(held),
    ensures
        forall|h: H, reg: u8, val: u8, other: int|
            #![trigger held(tuner_write(h, chip, reg, seq![val]).hw, Place::Chip { chip, reg: other })]
            reg < 255 ==> {
                let e = tuner_write(h, chip, reg, seq![val]);
                let place = Place::Chip { chip, reg: other };
                if other == reg {
                    e.res is Ok ==> held(e.hw, place) == val
                } else {
                    held(e.hw, place) == held(h, place)
                }
            },
{
    assert forall|h: H, reg: u8, val: u8, other: int|
        #![trigger held(tuner_write(h, chip, reg, seq![val]).hw, Place::Chip { chip, reg: other })]
        reg < 255 implies {
        let e = tuner_write(h, chip, reg, seq![val]);
        let place = Place::Chip { chip, reg: other };
        if other == reg {
            e.res is Ok ==> held(e.hw, place) == val
        } else {
            held(e.hw, place) == held(h, place)
        }
    } by {
        lemma_tuner_write_held(h, chip, reg, seq![val], held);
        assert(seq![val][0] == val);
    }
}

/// A read from the tuner selects the register, by an I2C write of its number, and reads
/// from the same chip, with the repeater switched on (0x18 in register 1 of page 1) before
/// and off (0x10) after.
pub proof fn lemma_tuner_read_selects<H: HardwareInterface>(
    hw: H,
    chip: u8,
    reg: u8,
    len: nat,
    done: spec_fn(H) -> Seq<BusOp>,
)
    requires
        record::is_record(done),
        tuner_read(hw, chip, reg, len).res is Ok,
    ensures
        done(tuner_read(hw, chip, reg, len).hw) == done(hw) + seq![
            BusOp::DemodWriteReg { page: 1, addr: 0x01, val: 0x18 },
            BusOp::I2cWrite { chip, data: seq![reg] },
            BusOp::I2cRead { chip, len },
            BusOp::DemodWriteReg { page: 1, addr: 0x01, val: 0x10 },
        ],
{
    let after = done(tuner_read(hw, chip, reg, len).hw);
    assert(after =~= done(hw) + seq![
        BusOp::DemodWriteReg { page: 1, addr: 0x01, val: 0x18 },
        BusOp::I2cWrite { chip, data: seq![reg] },
        BusOp::I2cRead { chip, len },
        BusOp::DemodWriteReg { page: 1, addr: 0x01, val: 0x10 },
    ]);
}

/// Whether reading a register of a chip answers the byte that it holds.
pub open spec fn chip_reads_back<H: HardwareInterface>(
    chip: u8,
    held: spec_fn(H, Place) -> int,
) -> bool {
    forall|h: H, reg: u8|
        match (#[trigger] tuner_read(h, chip, reg, 1)).res {
            Ok(data) => data.len() > 0 ==> data[0] == held(
                h,
                Place::Chip { chip, reg: reg as int },
            ) % 256,
            Err(_) => true,
        }
}

/// Driving a pin changes that pin's level, bit `gpio` of register 0x3001 of the system
/// block, and no other pin's.
pub proof fn lemma_pin_driven<H: HardwareInterface>(
    hw: H,
    gpio: u8,
    value: bool,
    pin: u8,
    held: spec_fn(H, Place) -> int,
)
    requires
        record::is_memory(held),
        record::reads_back(held),
        gpio < 8,
        pin < 8,
        gpio_bit(hw, gpio, value).res is Ok,
    ensures
        ({
            let gpo = Place::Block { blk: 2, addr: 0x3001 };
            let before = (held(hw, gpo) % 256) as u8;
            let after = held(gpio_bit(hw, gpio, value).hw, gpo);
            &&& 0 <= after < 256
            &&& (((after as u8) >> pin) & 1 == 1) == if pin == gpio {
                value
            } else {
                (before >> pin) & 1 == 1
            }
        }),
{
    let before = (held(hw, Place::Block { blk: 2, addr: 0x3001 }) % 256) as u8;
    assert(gpio < 8 && pin < 8 ==> (((before | (1u8 << gpio)) >> pin) & 1 == 1) == (pin == gpio || (
    before >> pin) & 1 == 1) && (((before & !(1u8 << gpio)) >> pin) & 1 == 1) == (pin != gpio && (
    before >> pin) & 1 == 1)) by (bit_vector);
}

/// Making a pin an output enables it, in register 0x3003, and makes it no input, in
/// register 0x3004. The other pins and all levels stay as they are.
pub proof fn lemma_pin_is_output<H: HardwareInterface>(
    hw: H,
    gpio: u8,
    pin: u8,
    held: spec_fn(H, Place) -> int,
)
    requires
        record::is_memory(held),
        record::reads_back(held),
        gpio < 8,
        pin < 8,
        gpio_output(hw, gpio).res is Ok,
    ensures
        ({
            let (gpo, gpoe, gpd) = (
                Place::Block { blk: 2, addr: 0x3001 },
                Place::Block { blk: 2, addr: 0x3003 },
                Place::Block { blk: 2, addr: 0x3004 },
            );
            let after = gpio_output(hw, gpio).hw;
            let enabled = (held(hw, gpoe) % 256) as u8;
            let inputs = (held(hw, gpd) % 256) as u8;
            &&& 0 <= held(after, gpoe) < 256
            &&& 0 <= held(after, gpd) < 256
            &&& (((held(after, gpoe) as u8) >> pin) & 1 == 1) == (pin == gpio || (enabled >> pin)
                & 1 == 1)
            &&& (((held(after, gpd) as u8) >> pin) & 1 == 1) == (pin != gpio && (inputs >> pin) & 1
                == 1)
            &&& held(after, gpo) == held(hw, gpo)
        }),
{
    let enabled = (held(hw, Place::Block { blk: 2, addr: 0x3003 }) % 256) as u8;
    let inputs = (held(hw, Place::Block { blk: 2, addr: 0x3004 }) % 256) as u8;
    assert(gpio < 8 && pin < 8 ==> (((enabled | (1u8 << gpio)) >> pin) & 1 == 1) == (pin == gpio || (
    enabled >> pin) & 1 == 1) && (((inputs & !(1u8 << gpio)) >> pin) & 1 == 1) == (pin != gpio && (
    inputs >> pin) & 1 == 1)) by (bit_vector);
}

/// Which chip is found depends on what the chips answer: 0x69 at address 0x34 makes it an
/// R820T and at 0x74 an R828D, 0x40 at 0xc8 an E4000, 0xa1 at 0xc2 an FC0012, and 0x63 or
/// 0xa1 at 0xc6 an FC0013. The first of these counts; without any, no chip is known.
pub proof fn lemma_probe_goes_by_answers<H: HardwareInterface>(hw: H, ids: spec_fn(u8) -> u8)
    requires
        forall|h: H, op: BusOp| (#[trigger] h.ack(op)) is Ok,
        forall|h: H, chip: u8|
            (#[trigger] h.bytes(BusOp::I2cRead { chip, len: 1 })) == Result::<Seq<u8>>::Ok(
                seq![ids(chip)],
            ),
    ensures
        probe(hw).res == Result::<TunerType>::Ok(
            if ids(0x34) == 0x69 {
                TunerType::R820T
            } else if ids(0x74) == 0x69 {
                TunerType::R828D
            } else if ids(0xc8) == 0x40 {
                TunerType::E4000
            } else if ids(0xc2) == 0xa1 {
                TunerType::FC0012
            } else if ids(0xc6) == 0x63 || ids(0xc6) == 0xa1 {
                TunerType::FC0013
            } else {
                TunerType::Unknown(0)
            },
        ),
{
}

/// Hardware that performs every write performs any number of them.
pub(crate) proof fn lemma_ops_performed<H: HardwareInterface>(start: Exchange<H, ()>, ops: Seq<BusOp>)
    requires
        forall|h: H, op: BusOp| (#[trigger] h.ack(op)) is Ok,
        start.res is Ok,
    ensures
        start.ops(ops).res is Ok,
    decreases ops.len(),
{
    if ops.len() > 0 {
        lemma_ops_performed(start, ops.drop_last());
    }
}

/// Once one of the writes `ops` has failed, the rest of them change nothing.
pub(crate) proof fn lemma_failed_ops_stay<H: HardwareInterface>(
    start: Exchange<H, ()>,
    ops: Seq<BusOp>,
    n: int,
)
    requires
        0 <= n <= ops.len(),
        start.ops(ops.take(n)).res is Err,
    ensures
        start.ops(ops) == start.ops(ops.take(n)),
    decreases ops.len() - n,
{
    if n == ops.len() {
        assert(ops.take(n) =~= ops);
    } else {
        assert(ops.take(n + 1).drop_last() =~= ops.take(n));
        lemma_failed_ops_stay(start, ops, n + 1);
    }
}


/// A write of one byte to the tuner changes nothing but its register and the switch of the
/// I2C repeater.
pub(crate) proof fn lemma_byte_keeps<H: HardwareInterface>(
    chip: u8,
    held: spec_fn(H, Place) -> int,
    place: Place,
)
    requires
        record::is_memory(held),
        place != (Place::Demod { page: 1, addr: 1 }),
    ensures
        forall|h: H, reg: u8, val: u8|
            #![trigger held(tuner_write(h, chip, reg, seq![val]).hw, place)]
            reg < 255 && (place matches Place::Chip { chip: c, reg: r } ==> c != chip || r != reg)
                ==> held(tuner_write(h, chip, reg, seq![val]).hw, place) == held(h, place),
{
    assert forall|h: H, reg: u8, val: u8|
        #![trigger held(tuner_write(h, chip, reg, seq![val]).hw, place)]
        reg < 255 && (place matches Place::Chip { chip: c, reg: r } ==> c != chip || r
            != reg) implies held(tuner_write(h, chip, reg, seq![val]).hw, place) == held(h, place) by {
        lemma_tuner_write_held(h, chip, reg, seq![val], held);
    }
}

/// Hardware that performs every write performs every write to a tuner.
pub(crate) proof fn lemma_tuner_writes_performed<H: HardwareInterface>(chip: u8)
    requires
        forall|h: H, op: BusOp| (#[trigger] h.ack(op)) is Ok,
    ensures
        forall|h: H, reg: u8, data: Seq<u8>|
            (#[trigger] tuner_write(h, chip, reg, data)).res is Ok,
{
    assert forall|h: H, reg: u8, data: Seq<u8>| (#[trigger] tuner_write(h, chip, reg, data)).res
        is Ok by {
        lemma_ops_performed(
            Exchange::begin(h.after(repeater_op(true))),
            chunk_ops(chip, reg, data),
        );
    }
}

/// A read from the register that was selected last selects none, and reads with the
/// repeater switched on before and off after.
pub proof fn lemma_direct_read_selects_nothing<H: HardwareInterface>(
    hw: H,
    chip: u8,
    len: nat,
    done: spec_fn(H) -> Seq<BusOp>,
)
    requires
        record::is_record(done),
        direct_read(hw, chip, len).res is Ok,
    ensures
        done(direct_read(hw, chip, len).hw) == done(hw) + seq![
            BusOp::DemodWriteReg { page: 1, addr: 0x01, val: 0x18 },
            BusOp::I2cRead { chip, len },
            BusOp::DemodWriteReg { page: 1, addr: 0x01, val: 0x10 },
        ],
{
}

/// GPIO 4 is pulsed before the chips that a pulse resets are looked for: it is an output and
/// low again then, and has been high.
pub proof fn lemma_reset_pulse<H: HardwareInterface>(hw: H, held: spec_fn(H, Place) -> int)
    requires
        record::is_memory(held),
        record::reads_back(held),
        forall|h: H, op: BusOp| (#[trigger] h.ack(op)) is Ok,
    ensures
        ({
            let gpo = Place::Block { blk: 2, addr: 0x3001 };
            let raised = gpio_bit(gpio_output(hw, 4).hw, 4, true).hw;
            let after = tuner_reset(hw);
            &&& ((held(raised, gpo) as u8) >> 4) & 1 == 1
            &&& ((held(after, gpo) as u8) >> 4) & 1 != 1
            &&& after == gpio_bit(raised, 4, false).hw
        }),
{
    let out = gpio_output(hw, 4);
    let raised = gpio_bit(out.hw, 4, true);
    lemma_pin_driven(out.hw, 4, true, 4, held);
    lemma_pin_driven(raised.hw, 4, false, 4, held);
}

/// A chip is looked for by what a register of its own holds: register 0, and register 2 of
/// an E4000.
pub proof fn lemma_probe_reads_identities<H: HardwareInterface>(hw: H, ids: spec_fn(u8, u8) -> u8)
    requires
        forall|h: H, op: BusOp| (#[trigger] h.ack(op)) is Ok,
        forall|h: H, chip: u8, reg: u8|
            (#[trigger] tuner_read(h, chip, reg, 1)).res == Result::<Seq<u8>>::Ok(
                seq![ids(chip, reg)],
            ),
    ensures
        probe(hw).res == Result::<TunerType>::Ok(
            if ids(0x34, 0) == 0x69 {
                TunerType::R820T
            } else if ids(0x74, 0) == 0x69 {
                TunerType::R828D
            } else if ids(0xc8, 2) == 0x40 {
                TunerType::E4000
            } else if ids(0xc2, 0) == 0xa1 {
                TunerType::FC0012
            } else if ids(0xc6, 0) == 0x63 || ids(0xc6, 0) == 0xa1 {
                TunerType::FC0013
            } else {
                TunerType::Unknown(0)
            },
        ),
{
}


} // verus!
