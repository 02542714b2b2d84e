//! R820T and R828D chip driver.
//!
//! This module knows only about the silicon: PLL, register map, gain tables, IF
//! bandwidth. It has no knowledge of which board the chip is mounted on.
use crate::device::{self, BusOp, HardwareInterface, HardwareRoutines};
use crate::error::{Error, Result, TunerFault};
use crate::record::{self, Place};
use crate::tuner::{self, FilterRange, Gain, GainSetting, InputPath, Session, Tuner, TunerType};
use crate::tuners::rafael::{
    self, GAIN_STEPS, GAIN_TABLE, IF_FREQ_NARROW, INIT_ARRAY, NUM_REGS, REG_SHADOW_START,
    XTAL_CAP_SEL,
};
use vstd::arithmetic::power2::pow2;
use vstd::prelude::*;

verus! {

/// The driver of one chip.
pub struct R82xx {
    pub tuner_type: TunerType,
    pub i2c_addr: u8,
    /// What the registers from 0x05 on hold.
    pub regs: [u8; 27],
    pub nominal_xtal: u64,
    pub xtal_freq: u64,
    pub has_lock: bool,
    pub current_gain: Gain,
    pub current_if: u64,
    /// Whether the frequency is inside a notch band of the board: if so, the
    /// band's `open_d` is not used.
    pub in_notch: bool,
}

impl R82xx {
    /// The driver with `val` in the shadow of register `reg`.
    pub open spec fn with_reg(self, reg: u8, val: u8) -> R82xx {
        R82xx {
            regs: vstd::array::spec_array_update(
                self.regs,
                reg - REG_SHADOW_START,
                val,
            ),
            ..self
        }
    }

    pub open spec fn with_lock(self, has_lock: bool) -> R82xx {
        R82xx { has_lock, ..self }
    }

    /// A driver of a chip that nothing has been done with yet.
    pub open spec fn fresh(tuner_type: TunerType, i2c_addr: u8, xtal_hz: u64) -> R82xx {
        R82xx {
            tuner_type,
            i2c_addr,
            regs: INIT_ARRAY,
            nominal_xtal: xtal_hz,
            xtal_freq: xtal_hz,
            has_lock: false,
            current_gain: Gain::Tenths(0),
            current_if: IF_FREQ_NARROW,
            in_notch: false,
        }
    }

    /// `xtal_hz`: 28_800_000 for the R828D of a V4, 16_000_000 for an R820T.
    pub fn new(tuner_type: TunerType, i2c_addr: u8, xtal_hz: u64) -> (chip: Self)
        ensures
            chip == R82xx::fresh(tuner_type, i2c_addr, xtal_hz),
    {
        R82xx {
            tuner_type,
            i2c_addr,
            regs: INIT_ARRAY,
            nominal_xtal: xtal_hz,
            xtal_freq: xtal_hz,
            has_lock: false,
            current_gain: Gain::Tenths(0),
            current_if: IF_FREQ_NARROW,
            in_notch: false,
        }
    }
}

impl<H: HardwareInterface> Session<R82xx, H, ()> {
    /// Followed by a write of `data` to the chip.
    pub open spec fn raw(self, data: Seq<u8>) -> Self {
        if self.res is Ok {
            let op = BusOp::I2cWrite { chip: self.chip.i2c_addr, data };
            Session { chip: self.chip, hw: self.hw.after(op), res: self.hw.ack(op) }
        } else {
            self
        }
    }

    /// Followed by a write of the bits of `mask` in register `reg`; the shadow
    /// supplies the other bits.
    pub open spec fn mask(self, reg: u8, val: u8, mask: u8) -> Self {
        if self.res is Ok {
            let idx = reg - REG_SHADOW_START;
            if idx >= NUM_REGS {
                Session {
                    chip: self.chip,
                    hw: self.hw,
                    res: Err(Error::Tuner(TunerFault::RegisterOutOfRange { reg })),
                }
            } else {
                let new = rafael::masked(self.chip.regs[idx], val, mask);
                Session { chip: self.chip.with_reg(reg, new), hw: self.hw, res: Ok(()) }.raw(
                    seq![reg, new],
                )
            }
        } else {
            self
        }
    }
}

/// The first `len` status bytes, their bits in the usual order; the repeater must
/// be on.
pub open spec fn status_read<H: HardwareInterface>(chip: R82xx, hw: H, len: nat) -> Session<
    R82xx,
    H,
    Seq<u8>,
> {
    Session::begin(chip, hw).raw(seq![0x00u8]).chain(
        |c: R82xx, h: H|
            {
                let op = BusOp::I2cRead { chip: c.i2c_addr, len };
                Session {
                    chip: c,
                    hw: h.after(op),
                    res: match h.bytes(op) {
                        Ok(data) => if data.len() < len {
                            Err(Error::I2c { addr: c.i2c_addr })
                        } else {
                            Ok(data.map_values(|b: u8| rafael::reversed(b)))
                        },
                        Err(e) => Err(e),
                    },
                }
            },
    )
}

/// Waits until the PLL is locked, for at most `retries` looks at the status, of
/// which `i` are over. After the first look in vain the VCO current is set to
/// its maximum; after each a millisecond passes.
pub open spec fn lock_awaited<H: HardwareInterface>(
    chip: R82xx,
    hw: H,
    i: nat,
    retries: nat,
) -> Session<R82xx, H, bool>
    decreases retries - i,
{
    if i >= retries {
        Session { chip: chip.with_lock(false), hw, res: Ok(false) }
    } else {
        let look = status_read(chip, hw, 3);
        match look.res {
            Err(e) => Session { chip: look.chip, hw: look.hw, res: Err(e) },
            Ok(status) => if rafael::is_locked(status) {
                Session { chip: look.chip.with_lock(true), hw: look.hw, res: Ok(true) }
            } else {
                let adjusted = if i == 0 {
                    Session::begin(look.chip, look.hw).mask(0x12, 0x06, 0xff)
                } else {
                    Session::begin(look.chip, look.hw)
                };
                let waited = adjusted.sleep(1);
                match waited.res {
                    Err(e) => Session { chip: waited.chip, hw: waited.hw, res: Err(e) },
                    Ok(_) => lock_awaited(waited.chip, waited.hw, i + 1, retries),
                }
            },
        }
    }
}

/// The VCO power reference of a chip.
pub open spec fn power_ref(tuner_type: TunerType) -> u8 {
    if tuner_type == TunerType::R820T {
        2
    } else {
        1
    }
}

/// The PLL registers written for a divider code and a synthesis.
pub open spec fn pll_written<H: HardwareInterface>(
    chip: R82xx,
    hw: H,
    code: u8,
    s: rafael::Synthesis,
) -> Session<R82xx, H, ()> {
    Session::begin(chip, hw).mask(0x10, code << 5, 0xe0).raw(
        seq![0x14, s.ni | (s.si << 6)],
    ).raw(seq![0x16, (s.sdm / 256) as u8]).raw(seq![0x15, (s.sdm % 256) as u8]).mask(
        0x12,
        if s.integer {
            0x08
        } else {
            0x00
        },
        0x08,
    ).sleep(2)
}

/// The divider corrected by what the status says of the VCO, then the wait for
/// the lock.
pub open spec fn pll_settled<H: HardwareInterface>(chip: R82xx, hw: H, code: u8) -> Session<
    R82xx,
    H,
    (),
> {
    let look = status_read(chip, hw, 5);
    match look.res {
        Err(e) => Session { chip: look.chip, hw: look.hw, res: Err(e) },
        Ok(status) => {
            let fine_tune = (status[4] & 0x30) >> 4;
            let power = power_ref(chip.tuner_type);
            let start = Session::begin(look.chip, look.hw);
            let corrected = if fine_tune == power {
                start
            } else {
                start.mask(0x10, rafael::adjusted_code(code, fine_tune, power) << 5, 0xe0)
            };
            corrected.chain(
                |c: R82xx, h: H|
                    {
                        let wait = lock_awaited(c, h, 0, 10);
                        match wait.res {
                            Err(e) => Session { chip: wait.chip, hw: wait.hw, res: Err(e) },
                            Ok(locked) => if locked {
                                Session::begin(wait.chip, wait.hw).mask(0x1a, 0x08, 0x08)
                            } else {
                                Session::begin(wait.chip, wait.hw)
                            },
                        }
                    },
            )
        },
    }
}

/// What setting the PLL to a local oscillator frequency does; the repeater must
/// be on.
pub open spec fn pll_set<H: HardwareInterface>(chip: R82xx, hw: H, lo_hz: u64) -> Session<
    R82xx,
    H,
    (),
> {
    match rafael::divider_code(lo_hz as int) {
        None => Session { chip, hw, res: Err(Error::InvalidFrequency(lo_hz)) },
        Some(code) => match rafael::synthesis(
            lo_hz * rafael::mix_div(code as int),
            chip.xtal_freq as int,
            power_ref(chip.tuner_type),
        ) {
            None => Session { chip, hw, res: Err(Error::InvalidFrequency(lo_hz)) },
            Some(s) => pll_written(chip, hw, code, s).chain(
                |c: R82xx, h: H| pll_settled(c, h, code),
            ),
        },
    }
}

/// The front end switched to the band of `freq_hz`; the repeater must be on.
pub open spec fn mux_set<H: HardwareInterface>(chip: R82xx, hw: H, freq_hz: u64) -> Session<
    R82xx,
    H,
    (),
> {
    let range = rafael::band_of(freq_hz);
    let open_d = if chip.in_notch {
        0x00
    } else {
        range.open_d
    };
    Session::begin(chip, hw).mask(0x17, 0xa0, 0x30).mask(0x17, open_d, 0x08).mask(
        0x1a,
        range.rf_mux_ploy,
        0xc3,
    ).mask(0x1b, range.tf_c, 0xff).mask(
        0x10,
        XTAL_CAP_SEL[range.xtal_cap_sel as int],
        0x0b,
    ).mask(0x08, 0x00, 0x3f).mask(0x09, 0x00, 0x3f).mask(0x1d, 0x18, 0x38).mask(
        0x1c,
        0x24,
        0x04,
    ).mask(0x1e, 14, 0x1f).mask(0x1a, 0x20, 0x30)
}

/// The IF filter set for an intermediate frequency; the repeater must be on.
pub open spec fn if_filter_set<H: HardwareInterface>(chip: R82xx, hw: H, if_hz: u64) -> Session<
    R82xx,
    H,
    (),
> {
    let wide = if_hz >= 3_500_000;
    Session::begin(chip, hw).mask(
        0x0a,
        if wide {
            0x10
        } else {
            0x00
        },
        0x70,
    ).mask(
        0x0b,
        if wide {
            0x6b
        } else {
            0x80
        },
        0xef,
    )
}

/// The last registers of the initialization; the repeater must be on.
pub open spec fn init_finished<H: HardwareInterface>(chip: R82xx, hw: H) -> Session<R82xx, H, ()> {
    Session::begin(chip, hw).mask(0x1a, 0x00, 0x0c).mask(0x12, 0x06, 0xff).mask(
        0x0c,
        0x00,
        0x0f,
    ).mask(0x13, 0x01, 0x3f)
}

/// The three amplifiers set to gain step `idx`, by hand instead of by the chip;
/// the repeater must be on.
pub open spec fn amplifiers_set<H: HardwareInterface>(chip: R82xx, hw: H, idx: int) -> Session<
    R82xx,
    H,
    (),
> {
    let (lna, mix, vga) = GAIN_TABLE[idx];
    Session::begin(chip, hw).mask(0x05, 0x10, 0x10).mask(0x07, 0x00, 0x10).mask(
        0x05,
        lna,
        0x0f,
    ).mask(0x07, mix, 0x0f).mask(0x0c, vga, 0x0f)
}

/// Gain step `idx` set and remembered.
pub open spec fn step_set<H: HardwareInterface>(chip: R82xx, hw: H, idx: int) -> Session<
    R82xx,
    H,
    Gain,
> {
    tuner::bridged(chip, hw, |c: R82xx, h: H| amplifiers_set(c, h, idx)).chain(
        |c: R82xx, h: H|
            {
                let gain = Gain::Tenths(GAIN_STEPS[idx]);
                Session { chip: R82xx { current_gain: gain, ..c }, hw: h, res: Ok(gain) }
            },
    )
}

/// The chip's inputs switched; the repeater must be on.
pub open spec fn input_switched<H: HardwareInterface>(
    chip: R82xx,
    hw: H,
    path: InputPath,
) -> Session<R82xx, H, ()> {
    match path {
        // Cable 2 on; cable 1 and the air input off.
        InputPath::Hf => Session::begin(chip, hw).mask(0x06, 0x08, 0x08).mask(0x05, 0x00, 0x60),
        // Cable 1 on; cable 2 off.
        InputPath::Vhf => Session::begin(chip, hw).mask(0x05, 0x40, 0x60).mask(0x06, 0x00, 0x08),
        // Air input on; cable 2 off.
        InputPath::Uhf => Session::begin(chip, hw).mask(0x05, 0x20, 0x60).mask(0x06, 0x00, 0x08),
    }
}

/// The setting of the analog filter for a bandwidth.
pub open spec fn filter_code(hz: u32) -> u8 {
    if hz <= 6_000_000 {
        0x08
    } else if hz <= 7_000_000 {
        0x06
    } else {
        0x00
    }
}

/// The whole range that the chip covers.
pub open spec fn full_range() -> FilterRange {
    FilterRange { start_hz: 0, end_hz: 1_766_000_000 }
}

impl R82xx {
    /// Replaces bits in the shadow of a register; returns its new content.
    fn update_shadow(&mut self, reg: u8, val: u8, mask: u8) -> (res: Result<u8>)
        requires
            reg >= REG_SHADOW_START,
        ensures
            ({
                let idx = reg - REG_SHADOW_START;
                if idx >= NUM_REGS {
                    res == Result::<u8>::Err(Error::Tuner(TunerFault::RegisterOutOfRange { reg }))
                        && *final(self) == *old(self)
                } else {
                    let new = rafael::masked(old(self).regs[idx], val, mask);
                    res == Result::<u8>::Ok(new) && *final(self) == old(self).with_reg(reg, new)
                }
            }),
    {
        let idx: usize = (reg - REG_SHADOW_START) as usize;
        if idx >= NUM_REGS {
            return Err(Error::Tuner(TunerFault::RegisterOutOfRange { reg }));
        }
        let new: u8 = (self.regs[idx] & !mask) | (val & mask);
        self.regs[idx] = new;
        Ok(new)
    }

    /// Writes bits of a register; the repeater must be on.
    fn write_reg_mask_raw<H: HardwareInterface>(
        &mut self,
        hw: &mut H,
        reg: u8,
        val: u8,
        mask: u8,
    ) -> (res: Result<()>)
        requires
            reg >= REG_SHADOW_START,
        ensures
            (Session { chip: *final(self), hw: *final(hw), res }) == Session::begin(
                *old(self),
                *old(hw),
            ).mask(reg, val, mask),
            *final(self) == (R82xx { regs: final(self).regs, ..*old(self) }),
    {
        let new: u8 = self.update_shadow(reg, val, mask)?;
        let data: [u8; 2] = [reg, new];
        assert(data@ =~= seq![reg, new]);
        hw.i2c_write_raw(self.i2c_addr, &data)
    }

    /// Writes two bytes to the chip; the repeater must be on.
    fn write_raw<H: HardwareInterface>(&self, hw: &mut H, reg: u8, val: u8) -> (res: Result<()>)
        ensures
            (Session { chip: *self, hw: *final(hw), res }) == Session::begin(*self, *old(hw)).raw(
                seq![reg, val],
            ),
    {
        let data: [u8; 2] = [reg, val];
        assert(data@ =~= seq![reg, val]);
        hw.i2c_write_raw(self.i2c_addr, &data)
    }

    /// Reads `len` status bytes; the repeater must be on.
    fn read_status_raw<H: HardwareInterface>(&self, hw: &mut H, len: usize) -> (res: Result<
        Vec<u8>,
    >)
        ensures
            ({
                let look = status_read(*self, *old(hw), len as nat);
                &&& *final(hw) == look.hw
                &&& look.chip == *self
                &&& match res {
                    Ok(status) => look.res == Result::<Seq<u8>>::Ok(status@) && status@.len()
                        >= len,
                    Err(e) => look.res == Result::<Seq<u8>>::Err(e),
                }
            }),
    {
        let select: [u8; 1] = [0x00];
        assert(select@ =~= seq![0x00u8]);
        hw.i2c_write_raw(self.i2c_addr, &select)?;
        let data: Vec<u8> = hw.i2c_read_raw(self.i2c_addr, len)?;
        if data.len() < len {
            return Err(Error::I2c { addr: self.i2c_addr });
        }
        Ok(rafael::reverse_all(&data))
    }

    /// Waits for the PLL to lock; the repeater must be on.
    fn wait_pll_lock_raw<H: HardwareInterface>(&mut self, hw: &mut H, retries: u32) -> (res: Result<
        bool,
    >)
        ensures
            (Session { chip: *final(self), hw: *final(hw), res }) == lock_awaited(
                *old(self),
                *old(hw),
                0,
                retries as nat,
            ),
    {
        let ghost all = lock_awaited(*self, *hw, 0, retries as nat);
        let mut i: u32 = 0;
        while i < retries
            invariant
                i <= retries,
                all == lock_awaited(*self, *hw, i as nat, retries as nat),
                all == lock_awaited(*old(self), *old(hw), 0, retries as nat),
            decreases retries - i,
        {
            let status: Vec<u8> = self.read_status_raw(hw, 3)?;
            if status[2] & 0x40 != 0 {
                self.has_lock = true;
                return Ok(true);
            }
            if i == 0 {
                self.write_reg_mask_raw(hw, 0x12, 0x06, 0xff)?;
            }
            hw.sleep_ms(1);
            i = i + 1;
        }
        self.has_lock = false;
        Ok(false)
    }

    /// Sets the PLL to a local oscillator frequency; the repeater must be on.
    fn set_pll_raw<H: HardwareInterface>(&mut self, hw: &mut H, lo_freq_hz: u64) -> (res: Result<
        (),
    >)
        requires
            rafael::can_set_pll(
                lo_freq_hz as int,
                old(self).xtal_freq as int,
                power_ref(old(self).tuner_type),
            ),
        ensures
            (Session { chip: *final(self), hw: *final(hw), res }) == pll_set(
                *old(self),
                *old(hw),
                lo_freq_hz,
            ),
    {
        let (code, vco_freq) = match rafael::select_divider(lo_freq_hz) {
            Some(divider) => divider,
            None => {
                return Err(Error::InvalidFrequency(lo_freq_hz));
            },
        };
        let power: u8 = match self.tuner_type {
            TunerType::R820T => 2,
            _ => 1,
        };
        let s = match rafael::synthesize(vco_freq, self.xtal_freq, power) {
            Some(s) => s,
            None => {
                return Err(Error::InvalidFrequency(lo_freq_hz));
            },
        };

        self.write_reg_mask_raw(hw, 0x10, code << 5, 0xe0)?;
        self.write_raw(hw, 0x14, s.ni | (s.si << 6))?;
        self.write_raw(hw, 0x16, (s.sdm / 256) as u8)?;
        self.write_raw(hw, 0x15, (s.sdm % 256) as u8)?;
        let pw_sdm: u8 = if s.integer {
            0x08
        } else {
            0x00
        };
        self.write_reg_mask_raw(hw, 0x12, pw_sdm, 0x08)?;

        // Give the VCO a moment to settle, so that the status is that of the new
        // frequency.
        hw.sleep_ms(2);
        let status: Vec<u8> = self.read_status_raw(hw, 5)?;
        let fine_tune: u8 = (status[4] & 0x30) >> 4;

        if fine_tune != power {
            let code: u8 = rafael::adjust_code(code, fine_tune, power);
            self.write_reg_mask_raw(hw, 0x10, code << 5, 0xe0)?;
        }
        if self.wait_pll_lock_raw(hw, 10)? {
            self.write_reg_mask_raw(hw, 0x1a, 0x08, 0x08)?;
        }
        Ok(())
    }

    /// Switches the front end to the band of `freq_hz`; the repeater must be on.
    fn set_mux_raw<H: HardwareInterface>(&mut self, hw: &mut H, freq_hz: u64) -> (res: Result<()>)
        ensures
            (Session { chip: *final(self), hw: *final(hw), res }) == mux_set(
                *old(self),
                *old(hw),
                freq_hz,
            ),
    {
        let range = rafael::find_band(freq_hz);
        let open_d: u8 = if self.in_notch {
            0x00
        } else {
            range.open_d
        };
        let cap: u8 = XTAL_CAP_SEL[range.xtal_cap_sel as usize];
        self.write_reg_mask_raw(hw, 0x17, 0xa0, 0x30)?;
        self.write_reg_mask_raw(hw, 0x17, open_d, 0x08)?;
        self.write_reg_mask_raw(hw, 0x1a, range.rf_mux_ploy, 0xc3)?;
        self.write_reg_mask_raw(hw, 0x1b, range.tf_c, 0xff)?;
        self.write_reg_mask_raw(hw, 0x10, cap, 0x0b)?;
        self.write_reg_mask_raw(hw, 0x08, 0x00, 0x3f)?;
        self.write_reg_mask_raw(hw, 0x09, 0x00, 0x3f)?;
        self.write_reg_mask_raw(hw, 0x1d, 0x18, 0x38)?;
        self.write_reg_mask_raw(hw, 0x1c, 0x24, 0x04)?;
        self.write_reg_mask_raw(hw, 0x1e, 14, 0x1f)?;
        self.write_reg_mask_raw(hw, 0x1a, 0x20, 0x30)?;
        Ok(())
    }

    /// Writes bits of a register.
    fn write_reg_mask<H: HardwareInterface>(
        &mut self,
        hw: &mut H,
        reg: u8,
        val: u8,
        mask: u8,
    ) -> (res: Result<()>)
        requires
            reg >= REG_SHADOW_START,
        ensures
            (Session { chip: *final(self), hw: *final(hw), res }) == tuner::bridged(
                *old(self),
                *old(hw),
                |c: R82xx, h: H| Session::begin(c, h).mask(reg, val, mask),
            ),
    {
        hw.set_i2c_repeater(true)?;
        let res = self.write_reg_mask_raw(hw, reg, val, mask);
        let _ = hw.set_i2c_repeater(false);
        res
    }

    fn if_filter_raw<H: HardwareInterface>(&mut self, hw: &mut H, if_hz: u64) -> (res: Result<()>)
        ensures
            (Session { chip: *final(self), hw: *final(hw), res }) == if_filter_set(
                *old(self),
                *old(hw),
                if_hz,
            ),
    {
        let (reg_0a, reg_0b): (u8, u8) = if if_hz >= 3_500_000 {
            (0x10, 0x6b)
        } else {
            (0x00, 0x80)
        };
        self.write_reg_mask_raw(hw, 0x0a, reg_0a, 0x70)?;
        self.write_reg_mask_raw(hw, 0x0b, reg_0b, 0xef)
    }

    /// Sets the IF filter for an intermediate frequency.
    fn set_if_bandwidth<H: HardwareInterface>(&mut self, hw: &mut H, if_hz: u64) -> (res: Result<
        (),
    >)
        ensures
            (Session { chip: *final(self), hw: *final(hw), res }) == tuner::bridged(
                *old(self),
                *old(hw),
                |c: R82xx, h: H| if_filter_set(c, h, if_hz),
            ),
    {
        hw.set_i2c_repeater(true)?;
        let res = self.if_filter_raw(hw, if_hz);
        let _ = hw.set_i2c_repeater(false);
        res
    }

    fn finish_init_raw<H: HardwareInterface>(&mut self, hw: &mut H) -> (res: Result<()>)
        ensures
            (Session { chip: *final(self), hw: *final(hw), res }) == init_finished(
                *old(self),
                *old(hw),
            ),
    {
        self.write_reg_mask_raw(hw, 0x1a, 0x00, 0x0c)?;
        self.write_reg_mask_raw(hw, 0x12, 0x06, 0xff)?;
        self.write_reg_mask_raw(hw, 0x0c, 0x00, 0x0f)?;
        self.write_reg_mask_raw(hw, 0x13, 0x01, 0x3f)
    }

    fn set_amplifiers_raw<H: HardwareInterface>(&mut self, hw: &mut H, idx: usize) -> (res: Result<
        (),
    >)
        requires
            idx < 29,
        ensures
            (Session { chip: *final(self), hw: *final(hw), res }) == amplifiers_set(
                *old(self),
                *old(hw),
                idx as int,
            ),
    {
        let (lna, mix, vga) = GAIN_TABLE[idx];
        self.write_reg_mask_raw(hw, 0x05, 0x10, 0x10)?;
        self.write_reg_mask_raw(hw, 0x07, 0x00, 0x10)?;
        // Bits 5 and 6 of register 0x05 select the antenna: they stay.
        self.write_reg_mask_raw(hw, 0x05, lna, 0x0f)?;
        self.write_reg_mask_raw(hw, 0x07, mix, 0x0f)?;
        self.write_reg_mask_raw(hw, 0x0c, vga, 0x0f)
    }

    /// Sets and remembers a gain step.
    fn set_step<H: HardwareInterface>(&mut self, hw: &mut H, idx: usize) -> (res: Result<Gain>)
        requires
            idx < 29,
        ensures
            (Session { chip: *final(self), hw: *final(hw), res }) == step_set(
                *old(self),
                *old(hw),
                idx as int,
            ),
    {
        hw.set_i2c_repeater(true)?;
        let res = self.set_amplifiers_raw(hw, idx);
        let _ = hw.set_i2c_repeater(false);
        res?;
        let actual = Gain::Tenths(GAIN_STEPS[idx]);
        self.current_gain = actual;
        Ok(actual)
    }

    fn switch_input_raw<H: HardwareInterface>(&mut self, hw: &mut H, path: InputPath) -> (res:
        Result<()>)
        ensures
            (Session { chip: *final(self), hw: *final(hw), res }) == input_switched(
                *old(self),
                *old(hw),
                path,
            ),
    {
        match path {
            InputPath::Hf => {
                self.write_reg_mask_raw(hw, 0x06, 0x08, 0x08)?;
                self.write_reg_mask_raw(hw, 0x05, 0x00, 0x60)
            },
            InputPath::Vhf => {
                self.write_reg_mask_raw(hw, 0x05, 0x40, 0x60)?;
                self.write_reg_mask_raw(hw, 0x06, 0x00, 0x08)
            },
            InputPath::Uhf => {
                self.write_reg_mask_raw(hw, 0x05, 0x20, 0x60)?;
                self.write_reg_mask_raw(hw, 0x06, 0x00, 0x08)
            },
        }
    }
}

impl<H: HardwareInterface> Tuner<H> for R82xx {
    open spec fn initialized(self, hw: H) -> Session<Self, H, ()> {
        let addr = self.i2c_addr;
        Session::begin(self, hw).exchange(
            |h: H| device::tuner_write(h, addr, 0x05, INIT_ARRAY@.subrange(0, 16)),
        ).exchange(
            |h: H| device::tuner_write(h, addr, 0x15, INIT_ARRAY@.subrange(16, 27)),
        ).chain(
            |c: R82xx, h: H| tuner::bridged(c, h, |d: R82xx, g: H| init_finished(d, g)),
        ).chain(
            |c: R82xx, h: H|
                tuner::bridged(c, h, |d: R82xx, g: H| if_filter_set(d, g, IF_FREQ_NARROW)),
        )
    }

    open spec fn can_tune(self, hz: u64) -> bool {
        hz != 0 ==> {
            &&& hz + self.current_if <= u64::MAX
            &&& rafael::can_set_pll(
                hz + self.current_if,
                self.xtal_freq as int,
                power_ref(self.tuner_type),
            )
        }
    }

    open spec fn tuned(self, hw: H, hz: u64) -> Session<Self, H, u64> {
        if hz == 0 {
            Session { chip: self, hw, res: Err(Error::InvalidFrequency(hz)) }
        } else {
            let lo_hz = (hz + self.current_if) as u64;
            tuner::bridged(
                self,
                hw,
                |c: R82xx, h: H|
                    mux_set(c, h, hz).chain(|d: R82xx, g: H| pll_set(d, g, lo_hz)),
            ).chain(|c: R82xx, h: H| Session { chip: c, hw: h, res: Ok(hz) })
        }
    }

    open spec fn can_set_gain(self, gain: GainSetting) -> bool {
        tuner::distances_fit(GAIN_STEPS@, gain.tenths)
    }

    open spec fn gained(self, hw: H, gain: GainSetting) -> Session<
        Self,
        H,
        Gain,
    > {
        step_set(self, hw, tuner::nearest(GAIN_STEPS@, gain.tenths))
    }

    open spec fn gain(self) -> Gain {
        self.current_gain
    }

    open spec fn filters(self) -> Seq<FilterRange> {
        seq![full_range()]
    }

    open spec fn if_set(self, hw: H, hz: u64) -> Session<Self, H, ()> {
        tuner::bridged(
            R82xx { current_if: hz, ..self },
            hw,
            |c: R82xx, h: H| if_filter_set(c, h, hz),
        )
    }

    open spec fn if_hz(self) -> u64 {
        self.current_if
    }

    open spec fn bandwidth_set(self, hw: H, hz: u32) -> Session<
        Self,
        H,
        (),
    > {
        tuner::bridged(
            self,
            hw,
            |c: R82xx, h: H| Session::begin(c, h).mask(0x0a, filter_code(hz), 0x0f),
        )
    }

    open spec fn can_set_ppm(self, ppm: i32) -> bool {
        tuner::can_correct_xtal(self.nominal_xtal as int, ppm as int)
    }

    open spec fn with_ppm(self, ppm: i32) -> Self {
        R82xx {
            xtal_freq: (self.nominal_xtal + tuner::ppm_offset(
                self.nominal_xtal as int,
                ppm as int,
            )) as u64,
            ..self
        }
    }

    open spec fn path_set(self, hw: H, path: InputPath) -> Session<
        Self,
        H,
        (),
    > {
        if self.tuner_type == TunerType::R820T {
            Session::begin(self, hw)
        } else {
            tuner::bridged(self, hw, |c: R82xx, h: H| input_switched(c, h, path))
        }
    }

    open spec fn with_notch(self, in_notch_band: bool) -> Self {
        R82xx { in_notch: in_notch_band, ..self }
    }

    open spec fn steps(self) -> Seq<i32> {
        GAIN_STEPS@
    }

    open spec fn gained_by_index(self, hw: H, idx: usize) -> Session<
        Self,
        H,
        Gain,
    > {
        step_set(
            self,
            hw,
            if idx < 29 {
                idx as int
            } else {
                28
            },
        )
    }

    proof fn lemma_notch_keeps_range(self, in_notch_band: bool, hz: u64) {
    }

    fn initialize(&mut self, hw: &mut H) -> (res: Result<()>) {
        let init: [u8; 27] = INIT_ARRAY;
        hw.i2c_write_tuner(self.i2c_addr, REG_SHADOW_START, &init[0..16])?;
        hw.i2c_write_tuner(self.i2c_addr, REG_SHADOW_START + 16, &init[16..27])?;
        hw.set_i2c_repeater(true)?;
        let res = self.finish_init_raw(hw);
        let _ = hw.set_i2c_repeater(false);
        res?;
        self.set_if_bandwidth(hw, IF_FREQ_NARROW)?;
        Ok(())
    }

    fn is_tunable(&self, hz: u64) -> (b: bool) {
        if hz == 0 {
            return true;
        }
        let power: u8 = match self.tuner_type {
            TunerType::R820T => 2,
            _ => 1,
        };
        hz <= u64::MAX - self.current_if && rafael::is_pll_settable(
            hz + self.current_if,
            self.xtal_freq,
            power,
        )
    }

    fn set_frequency(&mut self, hw: &mut H, hz: u64) -> (res: Result<u64>) {
        if hz == 0 {
            return Err(Error::InvalidFrequency(hz));
        }
        let lo_freq: u64 = hz + self.current_if;
        hw.set_i2c_repeater(true)?;
        let res = match self.set_mux_raw(hw, hz) {
            Ok(_) => self.set_pll_raw(hw, lo_freq),
            Err(e) => Err(e),
        };
        let _ = hw.set_i2c_repeater(false);
        res?;
        Ok(hz)
    }

    fn is_gain_settable(&self, gain: GainSetting) -> (b: bool) {
        rafael::is_gain_settable(gain.tenths)
    }

    fn set_gain(&mut self, hw: &mut H, gain: GainSetting) -> (res: Result<
        Gain,
    >) {
        let steps: [i32; 29] = GAIN_STEPS;
        let idx: usize = tuner::nearest_step(&steps, gain.tenths);
        self.set_step(hw, idx)
    }

    fn get_gain(&self) -> (res: Result<Gain>) {
        Ok(self.current_gain)
    }

    fn get_filters(&self) -> (ranges: Vec<FilterRange>) {
        // The full chip range. What the inputs of a board cover is the board's
        // business.
        let mut ranges: Vec<FilterRange> = Vec::new();
        ranges.push(FilterRange { start_hz: 0, end_hz: 1_766_000_000 });
        ranges
    }

    fn set_if_freq(&mut self, hw: &mut H, hz: u64) -> (res: Result<()>) {
        self.current_if = hz;
        self.set_if_bandwidth(hw, hz)?;
        Ok(())
    }

    fn get_if_freq(&self) -> (hz: u64) {
        self.current_if
    }

    fn set_bandwidth(&mut self, hw: &mut H, hz: u32) -> (res: Result<()>) {
        let val: u8 = if hz <= 6_000_000 {
            0x08
        } else if hz <= 7_000_000 {
            0x06
        } else {
            0x00
        };
        self.write_reg_mask(hw, 0x0a, val, 0x0f)
    }

    fn is_ppm_settable(&self, ppm: i32) -> (b: bool) {
        tuner::is_correctable(self.nominal_xtal, ppm)
    }

    fn set_ppm(&mut self, ppm: i32) -> (res: Result<()>) {
        self.xtal_freq = tuner::correct_xtal(self.nominal_xtal, ppm);
        Ok(())
    }

    fn set_input_path(&mut self, hw: &mut H, path: InputPath) -> (res: Result<
        (),
    >) {
        // The R820T has a single input.
        if self.tuner_type == TunerType::R820T {
            return Ok(());
        }
        hw.set_i2c_repeater(true)?;
        let res = self.switch_input_raw(hw, path);
        let _ = hw.set_i2c_repeater(false);
        res
    }

    fn apply_notch(&mut self, in_notch_band: bool) -> (res: Result<()>) {
        self.in_notch = in_notch_band;
        Ok(())
    }

    fn set_gain_by_index(&mut self, hw: &mut H, idx: usize) -> (res: Result<
        Gain,
    >) {
        let clamped: usize = if idx < 29 {
            idx
        } else {
            28
        };
        self.set_step(hw, clamped)
    }

    fn get_gain_table(&self) -> (steps: Vec<i32>) {
        let table: [i32; 29] = GAIN_STEPS;
        let mut steps: Vec<i32> = Vec::new();
        steps.extend_from_slice(&table);
        assert(steps@ =~= GAIN_STEPS@);
        steps
    }
}

// ── Laws ────────────────────────────────────────────────────────────────────
/// Setting the gain leaves the antenna selection alone, which shares register 0x05
/// with it.
pub proof fn lemma_gain_keeps_antenna<H: HardwareInterface>(chip: R82xx, hw: H, idx: int)
    requires
        0 <= idx < 29,
    ensures
        step_set(chip, hw, idx).chip.regs[0] & 0x60 == chip.regs[0] & 0x60,
{
    let (lna, mix, vga) = GAIN_TABLE[idx];
    let first = chip.regs[0];
    let second = rafael::masked(first, 0x10, 0x10);
    let third = rafael::masked(second, lna, 0x0f);
    assert(second & 0x60 == first & 0x60 && third & 0x60 == first & 0x60) by (bit_vector)
        requires
            second == (first & !0x10u8) | (0x10u8 & 0x10u8),
            third == (second & !0x0fu8) | (lna & 0x0fu8),
    ;
}

/// An R828D on a V4 reaches everything up to 1.766 GHz: with its crystal uncorrected
/// and either intermediate frequency, the PLL has a setting for whatever the board asks
/// the chip for.
pub proof fn lemma_v4_coverage(hz: u64, if_hz: u64)
    requires
        hz <= 1_766_000_000,
        if_hz <= 3_570_000,
    ensures
        ({
            let lo_hz = tuner::v4_plan(hz).tuner_hz + if_hz;
            &&& rafael::can_set_pll(lo_hz, 28_800_000, power_ref(TunerType::R828D))
            &&& rafael::divider_code(lo_hz) matches Some(code) && rafael::synthesis(
                lo_hz * rafael::mix_div(code as int),
                28_800_000,
                power_ref(TunerType::R828D),
            ) is Some
        }),
{
    let lo_hz = tuner::v4_plan(hz).tuner_hz + if_hz;
    rafael::lemma_oscillator_range(lo_hz);
    let code = rafael::divider_code(lo_hz)->0;
    let vco = lo_hz * rafael::mix_div(code as int);
    assert(rafael::in_vco_range(vco));
    assert(13 <= vco / 57_600_000 <= 127);
}

/// Waiting for the lock changes no register of the chip but 0x12, and nothing that the
/// driver knows but that register and whether there is a lock.
proof fn lemma_waiting_keeps<H: HardwareInterface>(
    chip: R82xx,
    hw: H,
    i: nat,
    retries: nat,
    held: spec_fn(H, Place) -> int,
    reg: int,
)
    requires
        record::is_memory(held),
        reg != 0x12,
    ensures
        ({
            let s = lock_awaited(chip, hw, i, retries);
            let place = Place::Chip { chip: chip.i2c_addr, reg };
            &&& held(s.hw, place) == held(hw, place)
            &&& s.chip == (R82xx { regs: s.chip.regs, has_lock: s.chip.has_lock, ..chip })
            &&& forall|j: int| 0 <= j < 27 && j != 13 ==> #[trigger] s.chip.regs[j] == chip.regs[j]
        }),
    decreases retries - i,
{
    if i < retries {
        let look = status_read(chip, hw, 3);
        if look.res is Ok && !rafael::is_locked(look.res->Ok_0) {
            let adjusted = if i == 0 {
                Session::begin(look.chip, look.hw).mask(0x12, 0x06, 0xff)
            } else {
                Session::begin(look.chip, look.hw)
            };
            let waited = adjusted.sleep(1);
            if waited.res is Ok {
                lemma_waiting_keeps(waited.chip, waited.hw, i + 1, retries, held, reg);
            }
        }
    }
}

/// Once the PLL has been set, the registers hold what makes the local oscillator run at
/// `lo_hz`.
proof fn lemma_pll_registers<H: HardwareInterface>(
    chip: R82xx,
    hw: H,
    lo_hz: u64,
    held: spec_fn(H, Place) -> int,
    status: u8,
)
    requires
        record::is_memory(held),
        rafael::can_set_pll(lo_hz as int, chip.xtal_freq as int, power_ref(chip.tuner_type)),
        pll_set(chip, hw, lo_hz).res is Ok,
        record::answers_byte::<H>(chip.i2c_addr, 4, status),
    ensures
        ({
            let s = pll_set(chip, hw, lo_hz).chip;
            s == (R82xx { regs: s.regs, has_lock: s.has_lock, ..chip })
        }),
        rafael::holds_oscillator(
            |reg: int|
                held(
                    pll_set(chip, hw, lo_hz).hw,
                    Place::Chip { chip: chip.i2c_addr, reg },
                ),
            lo_hz as int,
            chip.xtal_freq as int,
            if chip.tuner_type == TunerType::R820T {
                2
            } else {
                1
            },
            status,
        ),
{
    let addr = chip.i2c_addr;
    let code = rafael::divider_code(lo_hz as int)->0;
    rafael::lemma_divider_is_power_of_two(lo_hz as int);
    let vco = lo_hz * pow2((code + 1) as nat);
    rafael::lemma_synthesis_accuracy(vco, chip.xtal_freq as int, power_ref(chip.tuner_type));
    let syn = rafael::synthesis(vco, chip.xtal_freq as int, power_ref(chip.tuner_type))->0;
    let written = pll_written(chip, hw, code, syn);
    let look = status_read(written.chip, written.hw, 5);
    let raw = look.res->Ok_0;
    rafael::lemma_fine_tuning_bits(status);
    assert(raw[4] == rafael::reversed(status));
    let fine_tune = (raw[4] & 0x30) >> 4;
    let power = power_ref(chip.tuner_type);
    let moved = rafael::adjusted_code(code, fine_tune, power);
    let start = Session::begin(look.chip, look.hw);
    let corrected = if fine_tune == power {
        start
    } else {
        start.mask(0x10, moved << 5, 0xe0)
    };
    assert(corrected.res is Ok);
    lemma_waiting_keeps(corrected.chip, corrected.hw, 0, 10, held, 0x10);
    lemma_waiting_keeps(corrected.chip, corrected.hw, 0, 10, held, 0x14);
    lemma_waiting_keeps(corrected.chip, corrected.hw, 0, 10, held, 0x15);
    lemma_waiting_keeps(corrected.chip, corrected.hw, 0, 10, held, 0x16);
    let o1 = chip.regs[11];
    let o2 = look.chip.regs[11];
    assert(((o1 & !0xe0u8) | ((code << 5) & 0xe0u8)) / 32 == code && ((o2 & !0xe0u8) | ((moved
        << 5) & 0xe0u8)) / 32 == moved) by (bit_vector)
        requires
            code < 8,
            moved < 8,
    ;
    let (ni, si) = (syn.ni, syn.si);
    assert((ni | (si << 6)) % 64 == ni && (ni | (si << 6)) / 64 == si) by (bit_vector)
        requires
            ni < 64,
            si < 4,
    ;
    let after = pll_set(chip, hw, lo_hz).hw;
    let at = |reg: int| held(after, Place::Chip { chip: addr, reg });
    assert(at(0x14) == syn.ni | (syn.si << 6));
    assert(256 * at(0x16) + at(0x15) == syn.sdm);
    assert(at(0x10) / 32 == moved);
    assert(rafael::is_oscillator(
        at,
        lo_hz as int,
        chip.xtal_freq as int,
        power as int,
        status,
        code as int,
    ));
}

/// After a tuning that succeeded, the chip's registers make its local oscillator run above
/// the frequency that was asked for by the intermediate frequency that the driver reports.
/// `status` is the chip's last status byte.
pub proof fn lemma_oscillator_tuned<H: HardwareInterface>(
    chip: R82xx,
    hw: H,
    hz: u64,
    held: spec_fn(H, Place) -> int,
    status: u8,
)
    requires
        record::is_memory(held),
        Tuner::<H>::can_tune(chip, hz),
        Tuner::<H>::tuned(chip, hw, hz).res is Ok,
        record::answers_byte::<H>(chip.i2c_addr, 4, status),
    ensures
        Tuner::<H>::tuned(chip, hw, hz).res == Result::<u64>::Ok(hz),
        Tuner::<H>::if_hz(Tuner::<H>::tuned(chip, hw, hz).chip) == Tuner::<H>::if_hz(chip),
        rafael::holds_oscillator(
            |reg: int|
                held(
                    Tuner::<H>::tuned(chip, hw, hz).hw,
                    Place::Chip { chip: chip.i2c_addr, reg },
                ),
            hz + Tuner::<H>::if_hz(chip),
            chip.xtal_freq as int,
            if chip.tuner_type == TunerType::R820T {
                2
            } else {
                1
            },
            status,
        ),
{
    let on = hw.after(device::repeater_op(true));
    let mux = mux_set(chip, on, hz);
    let lo_hz = (hz + chip.current_if) as u64;
    lemma_pll_registers(mux.chip, mux.hw, lo_hz, held, status);
    let pll = pll_set(mux.chip, mux.hw, lo_hz);
    let at = |reg: int| held(pll.hw, Place::Chip { chip: chip.i2c_addr, reg });
    let after = |reg: int|
        held(
            Tuner::<H>::tuned(chip, hw, hz).hw,
            Place::Chip { chip: chip.i2c_addr, reg },
        );
    let power = power_ref(chip.tuner_type) as int;
    let code = choose|code: int|
        #[trigger] rafael::is_oscillator(at, lo_hz as int, chip.xtal_freq as int, power, status, code);
    assert(rafael::is_oscillator(
        after,
        lo_hz as int,
        chip.xtal_freq as int,
        power,
        status,
        code,
    ));
}

/// Tuning changes nothing that the driver knows of the chip but its registers and the lock.
pub proof fn lemma_tuned_keeps<H: HardwareInterface>(chip: R82xx, hw: H, hz: u64)
    ensures
        ({
            let after = Tuner::<H>::tuned(chip, hw, hz).chip;
            after == (R82xx { regs: after.regs, has_lock: after.has_lock, ..chip })
        }),
{
    let on = hw.after(device::repeater_op(true));
    let mux = mux_set(chip, on, hz);
    let lo_hz = (hz + chip.current_if) as u64;
    let code = rafael::divider_code(lo_hz as int)->0;
    let syn = rafael::synthesis(
        lo_hz * rafael::mix_div(code as int),
        chip.xtal_freq as int,
        power_ref(chip.tuner_type),
    )->0;
    let written = pll_written(mux.chip, mux.hw, code, syn);
    let look = status_read(written.chip, written.hw, 5);
    let fine_tune = (look.res->Ok_0[4] & 0x30) >> 4;
    let power = power_ref(chip.tuner_type);
    let start = Session::begin(look.chip, look.hw);
    let corrected = if fine_tune == power {
        start
    } else {
        start.mask(0x10, rafael::adjusted_code(code, fine_tune, power) << 5, 0xe0)
    };
    lemma_waiting_keeps_driver(corrected.chip, corrected.hw, 0, 10);
}

/// Waiting for the lock changes nothing that the driver knows but registers and the lock.
proof fn lemma_waiting_keeps_driver<H: HardwareInterface>(
    chip: R82xx,
    hw: H,
    i: nat,
    retries: nat,
)
    ensures
        ({
            let after = lock_awaited(chip, hw, i, retries).chip;
            after == (R82xx { regs: after.regs, has_lock: after.has_lock, ..chip })
        }),
    decreases retries - i,
{
    if i < retries {
        let look = status_read(chip, hw, 3);
        if look.res is Ok && !rafael::is_locked(look.res->Ok_0) {
            let adjusted = if i == 0 {
                Session::begin(look.chip, look.hw).mask(0x12, 0x06, 0xff)
            } else {
                Session::begin(look.chip, look.hw)
            };
            let waited = adjusted.sleep(1);
            if waited.res is Ok {
                lemma_waiting_keeps_driver(waited.chip, waited.hw, i + 1, retries);
            }
        }
    }
}

/// After a tuning that succeeded the front end serves the frequency: the tracking filter and
/// the mixer's input are those of its band, and the low-pass filter's drain is open below
/// 75 MHz, but not within a notch band of the board.
pub proof fn lemma_front_end_tuned<H: HardwareInterface>(
    chip: R82xx,
    hw: H,
    hz: u64,
    held: spec_fn(H, Place) -> int,
)
    requires
        record::is_memory(held),
        Tuner::<H>::tuned(chip, hw, hz).res is Ok,
    ensures
        ({
            let after = Tuner::<H>::tuned(chip, hw, hz).hw;
            let at = |reg: int| held(after, Place::Chip { chip: chip.i2c_addr, reg });
            let range = rafael::band_of(hz);
            &&& at(0x1b) == range.tf_c
            &&& rafael::bits(at(0x1a), 0xc3) == range.rf_mux_ploy
            &&& rafael::bits(at(0x17), 0x08) == if chip.in_notch || hz >= 75_000_000 {
                0x00u8
            } else {
                0x08
            }
            &&& rafael::bits(at(0x10), 0x0b) == 0x0b
            &&& rafael::bits(at(0x1a), 0x30) == 0x20
        }),
{
    rafael::lemma_front_end_by_frequency(hz);
    let range = rafael::band_of(hz);
    let on = hw.after(device::repeater_op(true));
    let mux = mux_set(chip, on, hz);
    let lo_hz = (hz + chip.current_if) as u64;
    let code = rafael::divider_code(lo_hz as int)->0;
    let syn = rafael::synthesis(
        lo_hz * rafael::mix_div(code as int),
        chip.xtal_freq as int,
        power_ref(chip.tuner_type),
    )->0;
    let written = pll_written(mux.chip, mux.hw, code, syn);
    let look = status_read(written.chip, written.hw, 5);
    let fine_tune = (look.res->Ok_0[4] & 0x30) >> 4;
    let power = power_ref(chip.tuner_type);
    let start = Session::begin(look.chip, look.hw);
    let corrected = if fine_tune == power {
        start
    } else {
        start.mask(0x10, rafael::adjusted_code(code, fine_tune, power) << 5, 0xe0)
    };
    lemma_waiting_keeps(corrected.chip, corrected.hw, 0, 10, held, 0x10);
    lemma_waiting_keeps(corrected.chip, corrected.hw, 0, 10, held, 0x17);
    lemma_waiting_keeps(corrected.chip, corrected.hw, 0, 10, held, 0x1a);
    lemma_waiting_keeps(corrected.chip, corrected.hw, 0, 10, held, 0x1b);
    let (r10, r17, r1a, r1b) = (chip.regs[11], chip.regs[18], chip.regs[21], chip.regs[22]);
    let (open_d, ploy, tf_c) = (
        if chip.in_notch {
            0x00u8
        } else {
            range.open_d
        },
        range.rf_mux_ploy,
        range.tf_c,
    );
    let (low, high) = (code << 5, rafael::adjusted_code(code, fine_tune, power) << 5);
    let a10 = rafael::masked(r10, 0x0b, 0x0b);
    let b10 = rafael::masked(a10, low, 0xe0);
    let c10 = rafael::masked(b10, high, 0xe0);
    let a17 = rafael::masked(r17, 0xa0, 0x30);
    let b17 = rafael::masked(a17, open_d, 0x08);
    let a1a = rafael::masked(r1a, ploy, 0xc3);
    let b1a = rafael::masked(a1a, 0x20, 0x30);
    let c1a = rafael::masked(b1a, 0x08, 0x08);
    let b1b = rafael::masked(r1b, tf_c, 0xff);
    assert(b10 & 0x0b == 0x0b && c10 & 0x0b == 0x0b && b17 & 0x08 == open_d & 0x08 && b1a & 0xc3
        == ploy & 0xc3 && c1a & 0xc3 == ploy & 0xc3 && b1a & 0x30 == 0x20 && c1a & 0x30 == 0x20
        && b1b == tf_c) by (bit_vector)
        requires
            a10 == (r10 & !0x0bu8) | (0x0bu8 & 0x0bu8),
            b10 == (a10 & !0xe0u8) | (low & 0xe0u8),
            c10 == (b10 & !0xe0u8) | (high & 0xe0u8),
            a17 == (r17 & !0x30u8) | (0xa0u8 & 0x30u8),
            b17 == (a17 & !0x08u8) | (open_d & 0x08u8),
            a1a == (r1a & !0xc3u8) | (ploy & 0xc3u8),
            b1a == (a1a & !0x30u8) | (0x20u8 & 0x30u8),
            c1a == (b1a & !0x08u8) | (0x08u8 & 0x08u8),
            b1b == (r1b & !0xffu8) | (tf_c & 0xffu8),
    ;
    assert(0x02u8 & 0xc3 == 0x02 && 0x41u8 & 0xc3 == 0x41 && 0x40u8 & 0xc3 == 0x40 && 0x08u8 & 0x08
        == 0x08 && 0x00u8 & 0x08 == 0x00) by (bit_vector);
    let after = Tuner::<H>::tuned(chip, hw, hz).hw;
    let at = |reg: int| held(after, Place::Chip { chip: chip.i2c_addr, reg });
    assert(at(0x10) == b10 || at(0x10) == c10);
    assert(at(0x17) == b17);
    assert(at(0x1a) == b1a || at(0x1a) == c1a);
    assert(at(0x1b) == b1b);
}

/// After a tuning that succeeded, the driver reports a lock where bit 1 of the chip's third
/// status byte is set, and only there.
pub proof fn lemma_lock_is_status<H: HardwareInterface>(chip: R82xx, hw: H, hz: u64, status: u8)
    requires
        record::answers_byte::<H>(chip.i2c_addr, 2, status),
        Tuner::<H>::tuned(chip, hw, hz).res is Ok,
    ensures
        Tuner::<H>::tuned(chip, hw, hz).chip.has_lock == (status & 0x02 != 0),
{
    let on = hw.after(device::repeater_op(true));
    let mux = mux_set(chip, on, hz);
    let lo_hz = (hz + chip.current_if) as u64;
    let code = rafael::divider_code(lo_hz as int)->0;
    let syn = rafael::synthesis(
        lo_hz * rafael::mix_div(code as int),
        chip.xtal_freq as int,
        power_ref(chip.tuner_type),
    )->0;
    let written = pll_written(mux.chip, mux.hw, code, syn);
    let look = status_read(written.chip, written.hw, 5);
    let fine_tune = (look.res->Ok_0[4] & 0x30) >> 4;
    let power = power_ref(chip.tuner_type);
    let start = Session::begin(look.chip, look.hw);
    let corrected = if fine_tune == power {
        start
    } else {
        start.mask(0x10, rafael::adjusted_code(code, fine_tune, power) << 5, 0xe0)
    };
    lemma_lock_reported(corrected.chip, corrected.hw, 0, 10, status);
}

/// Whether there is a lock is what bit 1 of the chip's third status byte says.
proof fn lemma_lock_reported<H: HardwareInterface>(
    chip: R82xx,
    hw: H,
    i: nat,
    retries: nat,
    status: u8,
)
    requires
        i < retries,
        record::answers_byte::<H>(chip.i2c_addr, 2, status),
        lock_awaited(chip, hw, i, retries).res is Ok,
    ensures
        lock_awaited(chip, hw, i, retries).res->Ok_0 == (status & 0x02 != 0),
        lock_awaited(chip, hw, i, retries).chip.has_lock == (status & 0x02 != 0),
    decreases retries - i,
{
    rafael::lemma_reversed_bits(status);
    reveal_with_fuel(lock_awaited, 2);
    let look = status_read(chip, hw, 3);
    assert(look.res->Ok_0[2] == rafael::reversed(status));
    if !rafael::is_locked(look.res->Ok_0) && i + 1 < retries {
        let adjusted = if i == 0 {
            Session::begin(look.chip, look.hw).mask(0x12, 0x06, 0xff)
        } else {
            Session::begin(look.chip, look.hw)
        };
        let waited = adjusted.sleep(1);
        lemma_lock_reported(waited.chip, waited.hw, i + 1, retries, status);
    }
}

/// After a gain step has been set, the three amplifiers hold the step's settings, in the low
/// four bits of registers 0x05, 0x07 and 0x0c, and are set by hand: bit 4 of register 0x05
/// is set and that of 0x07 is not. The driver's copies say the same, and the gain that it
/// reports is the step's.
pub proof fn lemma_gain_reaches_amplifiers<H: HardwareInterface>(
    chip: R82xx,
    hw: H,
    idx: int,
    held: spec_fn(H, Place) -> int,
)
    requires
        record::is_memory(held),
        0 <= idx < 29,
        step_set(chip, hw, idx).res is Ok,
    ensures
        ({
            let s = step_set(chip, hw, idx);
            let at = |reg: int| held(s.hw, Place::Chip { chip: chip.i2c_addr, reg });
            let (lna, mix, vga) = GAIN_TABLE[idx];
            &&& at(0x05) == s.chip.regs[0]
            &&& at(0x07) == s.chip.regs[2]
            &&& at(0x0c) == s.chip.regs[7]
            &&& s.chip.regs[0] % 16 == lna
            &&& s.chip.regs[2] % 16 == mix
            &&& s.chip.regs[7] % 16 == vga
            &&& s.chip.regs[0] / 16 % 2 == 1
            &&& s.chip.regs[2] / 16 % 2 == 0
            &&& s.res == Result::<Gain>::Ok(Gain::Tenths(GAIN_STEPS[idx]))
            &&& s.chip.current_gain == Gain::Tenths(GAIN_STEPS[idx])
        }),
{
    rafael::lemma_amplifier_bits(chip.regs, idx);
}

/// A gain that is asked for gets the step nearest to it: no other is nearer. A step that is
/// asked for by its number is that step, and the last where there are fewer.
pub proof fn lemma_nearest_gain_set<H: HardwareInterface>(
    chip: R82xx,
    hw: H,
    gain: GainSetting,
    idx: usize,
)
    requires
        Tuner::<H>::can_set_gain(chip, gain),
        Tuner::<H>::gained(chip, hw, gain).res is Ok,
        Tuner::<H>::gained_by_index(chip, hw, idx).res is Ok,
    ensures
        Tuner::<H>::gained(chip, hw, gain).res->Ok_0 matches Gain::Tenths(t) && forall|j: int|
            0 <= j < 29 ==> {
                let step = #[trigger] GAIN_STEPS@[j];
                &&& t - gain.tenths <= step - gain.tenths || t - gain.tenths <= gain.tenths - step
                &&& gain.tenths - t <= step - gain.tenths || gain.tenths - t <= gain.tenths - step
            },
        Tuner::<H>::gained_by_index(chip, hw, idx).res->Ok_0 == Gain::Tenths(
            GAIN_STEPS@[if idx < 29 {
                idx as int
            } else {
                28
            }],
        ),
        Tuner::<H>::gain(Tuner::<H>::gained(chip, hw, gain).chip) == Tuner::<H>::gained(
            chip,
            hw,
            gain,
        ).res->Ok_0,
{
    let steps: Seq<i32> = GAIN_STEPS@;
    tuner::lemma_nearest_exists(steps, gain.tenths);
    let n = tuner::nearest(steps, gain.tenths);
    assert(tuner::is_nearest_step(steps, gain.tenths, n));
    assert(forall|j: int|
        0 <= j < 29 ==> tuner::distance(steps[n], gain.tenths) <= tuner::distance(
            #[trigger] steps[j],
            gain.tenths,
        ));
}

/// The chip's inputs: HF comes in by cable 2 alone, VHF by cable 1, and UHF through the
/// air. Bit 3 of register 0x06 is cable 2, bit 6 of register 0x05 cable 1 and bit 5 the air
/// input.
pub proof fn lemma_inputs_switched<H: HardwareInterface>(
    chip: R82xx,
    hw: H,
    path: InputPath,
    held: spec_fn(H, Place) -> int,
)
    requires
        record::is_memory(held),
        chip.tuner_type != TunerType::R820T,
        Tuner::<H>::path_set(chip, hw, path).res is Ok,
    ensures
        ({
            let after = Tuner::<H>::path_set(chip, hw, path).hw;
            let at = |reg: int| held(after, Place::Chip { chip: chip.i2c_addr, reg });
            &&& rafael::bits(at(0x06), 0x08) == (if path == InputPath::Hf {
                0x08u8
            } else {
                0
            })
            &&& rafael::bits(at(0x05), 0x40) == (if path == InputPath::Vhf {
                0x40u8
            } else {
                0
            })
            &&& rafael::bits(at(0x05), 0x20) == (if path == InputPath::Uhf {
                0x20u8
            } else {
                0
            })
        }),
{
    let (a, b) = (chip.regs[0], chip.regs[1]);
    assert(((a & !0x60u8) | (0x00u8 & 0x60u8)) & 0x60 == 0 && ((a & !0x60u8) | (0x40u8 & 0x60u8))
        & 0x40 == 0x40 && ((a & !0x60u8) | (0x40u8 & 0x60u8)) & 0x20 == 0 && ((a & !0x60u8) | (
    0x20u8 & 0x60u8)) & 0x40 == 0 && ((a & !0x60u8) | (0x20u8 & 0x60u8)) & 0x20 == 0x20 && ((a
        & !0x60u8) | (0x00u8 & 0x60u8)) & 0x40 == 0 && ((a & !0x60u8) | (0x00u8 & 0x60u8)) & 0x20
        == 0 && ((b & !0x08u8) | (0x08u8 & 0x08u8)) & 0x08 == 0x08 && ((b & !0x08u8) | (0x00u8
        & 0x08u8)) & 0x08 == 0) by (bit_vector);
}

/// The intermediate frequency that is set is the one that the driver reports, and by which
/// it tunes. The filter is wide for 3.5 MHz and above and narrow below.
pub proof fn lemma_if_is_set<H: HardwareInterface>(
    chip: R82xx,
    hw: H,
    hz: u64,
    held: spec_fn(H, Place) -> int,
)
    requires
        record::is_memory(held),
        Tuner::<H>::if_set(chip, hw, hz).res is Ok,
    ensures
        ({
            let s = Tuner::<H>::if_set(chip, hw, hz);
            let at = |reg: int| held(s.hw, Place::Chip { chip: chip.i2c_addr, reg });
            &&& Tuner::<H>::if_hz(s.chip) == hz
            &&& s.chip == (R82xx { current_if: hz, regs: s.chip.regs, ..chip })
            &&& rafael::bits(at(0x0a), 0x70) == (if hz >= 3_500_000 {
                0x10u8
            } else {
                0
            })
            &&& rafael::bits(at(0x0b), 0xef) == (if hz >= 3_500_000 {
                0x6bu8
            } else {
                0x80
            })
        }),
{
    let (a, b) = (chip.regs[5], chip.regs[6]);
    assert(((a & !0x70u8) | (0x10u8 & 0x70u8)) & 0x70 == 0x10 && ((a & !0x70u8) | (0x00u8
        & 0x70u8)) & 0x70 == 0 && ((b & !0xefu8) | (0x6bu8 & 0xefu8)) & 0xef == 0x6b && ((b
        & !0xefu8) | (0x80u8 & 0xefu8)) & 0xef == 0x80) by (bit_vector);
}

/// The driver's crystal is corrected by `ppm` millionths, to within a Hertz.
pub proof fn lemma_ppm_corrects_chip<H: HardwareInterface>(chip: R82xx, ppm: i32)
    requires
        Tuner::<H>::can_set_ppm(chip, ppm),
        ppm >= -1_000_000,
    ensures
        ({
            let after = Tuner::<H>::with_ppm(chip, ppm);
            &&& -1_000_000 < 1_000_000 * after.xtal_freq - chip.nominal_xtal * (1_000_000 + ppm)
                < 1_000_000
            &&& after == (R82xx { xtal_freq: after.xtal_freq, ..chip })
        }),
{
    tuner::lemma_offset_is_ppm(chip.nominal_xtal, ppm);
}

/// After a chip that nothing has been done with has been initialized, each of its registers
/// from 0x05 on holds what the driver believes, and that is the initial content.
#[verifier::rlimit(40)]
pub proof fn lemma_initial_registers<H: HardwareInterface>(
    tuner_type: TunerType,
    i2c_addr: u8,
    xtal_hz: u64,
    hw: H,
    held: spec_fn(H, Place) -> int,
    i: int,
)
    requires
        record::is_memory(held),
        0 <= i < 27,
        Tuner::<H>::initialized(R82xx::fresh(tuner_type, i2c_addr, xtal_hz), hw).res is Ok,
    ensures
        ({
            let s = Tuner::<H>::initialized(R82xx::fresh(tuner_type, i2c_addr, xtal_hz), hw);
            &&& s.chip.regs[i] == rafael::initial_registers()[i]
            &&& held(s.hw, Place::Chip { chip: i2c_addr, reg: 5 + i }) == s.chip.regs[i]
        }),
{
    let chip = R82xx::fresh(tuner_type, i2c_addr, xtal_hz);
    let (low, high) = (INIT_ARRAY@.subrange(0, 16), INIT_ARRAY@.subrange(16, 27));
    let first = device::tuner_write(hw, i2c_addr, 0x05, low);
    let second = device::tuner_write(first.hw, i2c_addr, 0x15, high);
    device::lemma_tuner_write_held(hw, i2c_addr, 0x05, low, held);
    device::lemma_tuner_write_held(first.hw, i2c_addr, 0x15, high, held);
    rafael::lemma_initial_fields();
    let place = Place::Chip { chip: i2c_addr, reg: 5 + i };
    if i < 16 {
        assert(held(first.hw, Place::Chip { chip: i2c_addr, reg: 0x05 + i }) == low[i]);
        assert(held(second.hw, place) == held(first.hw, place));
    } else {
        assert(held(second.hw, Place::Chip { chip: i2c_addr, reg: 0x15 + (i - 16) }) == high[i
            - 16]);
    }
    assert(held(second.hw, place) == INIT_ARRAY@[i]);
}

/// Once the front end has been switched to the band of any frequency, the fields that do not
/// depend on the frequency hold the same: nothing in the low six bits of registers 0x08 and
/// 0x09, and fixed values in registers 0x1c, 0x1d and 0x1e.
pub proof fn lemma_front_end_fixed<H: HardwareInterface>(
    chip: R82xx,
    hw: H,
    hz: u64,
    held: spec_fn(H, Place) -> int,
)
    requires
        record::is_memory(held),
        mux_set(chip, hw, hz).res is Ok,
    ensures
        ({
            let after = mux_set(chip, hw, hz).hw;
            let at = |reg: int| held(after, Place::Chip { chip: chip.i2c_addr, reg });
            &&& rafael::bits(at(0x08), 0x3f) == 0x00
            &&& rafael::bits(at(0x09), 0x3f) == 0x00
            &&& rafael::bits(at(0x1d), 0x38) == 0x18
            &&& rafael::bits(at(0x1c), 0x04) == 0x04
            &&& rafael::bits(at(0x1e), 0x1f) == 14
        }),
{
    rafael::lemma_fixed_fields();
    rafael::lemma_masked(chip.regs[3], 0x00, 0x3f);
    rafael::lemma_masked(chip.regs[4], 0x00, 0x3f);
    rafael::lemma_masked(chip.regs[24], 0x18, 0x38);
    rafael::lemma_masked(chip.regs[23], 0x24, 0x04);
    rafael::lemma_masked(chip.regs[25], 14, 0x1f);
}

/// The analog filter goes by the bandwidth: 0x08 in the low four bits of register 0x0a up to
/// 6 MHz, 0x06 up to 7 MHz, and 0x00 above.
pub proof fn lemma_bandwidth_filtered<H: HardwareInterface>(
    chip: R82xx,
    hw: H,
    hz: u32,
    held: spec_fn(H, Place) -> int,
)
    requires
        record::is_memory(held),
        Tuner::<H>::bandwidth_set(chip, hw, hz).res is Ok,
    ensures
        ({
            let s = Tuner::<H>::bandwidth_set(chip, hw, hz);
            let r0a = held(s.hw, Place::Chip { chip: chip.i2c_addr, reg: 0x0a });
            &&& rafael::bits(r0a, 0x0f) == if hz <= 6_000_000 {
                0x08u8
            } else if hz <= 7_000_000 {
                0x06
            } else {
                0x00
            }
            &&& rafael::bits(r0a, !0x0fu8) == chip.regs[5] & !0x0fu8
        }),
{
    rafael::lemma_fixed_fields();
    rafael::lemma_masked(chip.regs[5], 0x08, 0x0f);
    rafael::lemma_masked(chip.regs[5], 0x06, 0x0f);
    rafael::lemma_masked(chip.regs[5], 0x00, 0x0f);
}

/// An R820T has one input, and nothing happens where one is to be selected.
pub proof fn lemma_single_input<H: HardwareInterface>(chip: R82xx, hw: H, path: InputPath)
    requires
        chip.tuner_type == TunerType::R820T,
    ensures
        ({
            let s = Tuner::<H>::path_set(chip, hw, path);
            s.res is Ok && s.chip == chip && s.hw == hw
        }),
{
}

/// Where the hardware performs everything, a chip with a crystal of 28.8 MHz can be tuned
/// to every frequency from 25.36 MHz to 1.766 GHz, with either intermediate frequency; to
/// no frequency at all, it cannot.
#[verifier::rlimit(40)]
pub proof fn lemma_tuning_succeeds<H: HardwareInterface>(chip: R82xx, hw: H, hz: u64)
    requires
        record::is_willing::<H>(),
        chip.xtal_freq == 28_800_000,
        chip.current_if == 2_300_000 || chip.current_if == 3_570_000,
    ensures
        Tuner::<H>::can_tune(chip, hz) && 25_360_000 <= hz <= 1_766_000_000 ==> Tuner::<H>::tuned(
            chip,
            hw,
            hz,
        ).res == Result::<u64>::Ok(hz),
        25_360_000 <= hz <= 1_766_000_000 ==> Tuner::<H>::can_tune(chip, hz),
        hz == 0 ==> Tuner::<H>::tuned(chip, hw, hz).res == Result::<u64>::Err(
            Error::InvalidFrequency(0),
        ),
{
    if 25_360_000 <= hz <= 1_766_000_000 {
        let lo_hz = (hz + chip.current_if) as u64;
        rafael::lemma_oscillator_range(lo_hz as int);
        let code = rafael::divider_code(lo_hz as int)->0;
        let vco = lo_hz * rafael::mix_div(code as int);
        let power = power_ref(chip.tuner_type);
        assert(rafael::in_vco_range(vco));
        assert(30 <= vco / 57_600_000 <= 62);
        let syn = rafael::synthesis(vco, 28_800_000, power)->0;
        let on = hw.after(device::repeater_op(true));
        let mux = mux_set(chip, on, hz);
        assert(mux.res is Ok);
        let written = pll_written(mux.chip, mux.hw, code, syn);
        assert(written.res is Ok);
        let look = status_read(written.chip, written.hw, 5);
        let fine_tune = (look.res->Ok_0[4] & 0x30) >> 4;
        let start = Session::begin(look.chip, look.hw);
        let corrected = if fine_tune == power {
            start
        } else {
            start.mask(0x10, rafael::adjusted_code(code, fine_tune, power) << 5, 0xe0)
        };
        assert(corrected.res is Ok);
        lemma_waiting_succeeds(corrected.chip, corrected.hw, 0, 10);
    }
}

proof fn lemma_waiting_succeeds<H: HardwareInterface>(chip: R82xx, hw: H, i: nat, retries: nat)
    requires
        record::is_willing::<H>(),
    ensures
        lock_awaited(chip, hw, i, retries).res is Ok,
    decreases retries - i,
{
    if i < retries {
        let look = status_read(chip, hw, 3);
        let adjusted = if i == 0 {
            Session::begin(look.chip, look.hw).mask(0x12, 0x06, 0xff)
        } else {
            Session::begin(look.chip, look.hw)
        };
        let waited = adjusted.sleep(1);
        lemma_waiting_succeeds(waited.chip, waited.hw, i + 1, retries);
    }
}

/// Where the hardware performs everything, so does the driver: every gain within reach, every
/// gain step, every intermediate frequency and bandwidth, and every input can be set.
pub proof fn lemma_settings_succeed<H: HardwareInterface>(
    chip: R82xx,
    hw: H,
    gain: GainSetting,
    idx: usize,
    if_hz: u64,
    bandwidth_hz: u32,
    path: InputPath,
)
    requires
        record::is_willing::<H>(),
    ensures
        Tuner::<H>::can_set_gain(chip, gain) ==> Tuner::<H>::gained(chip, hw, gain).res is Ok,
        gain.tenths >= -1_000_000_000 ==> Tuner::<H>::can_set_gain(chip, gain),
        Tuner::<H>::gained_by_index(chip, hw, idx).res is Ok,
        Tuner::<H>::if_set(chip, hw, if_hz).res is Ok,
        Tuner::<H>::bandwidth_set(chip, hw, bandwidth_hz).res is Ok,
        Tuner::<H>::path_set(chip, hw, path).res is Ok,
{
    assert(forall|j: int| 0 <= j < 29 ==> 0 <= #[trigger] GAIN_STEPS@[j] <= 496);
}

/// Where the chip reports its lock at the first look, the sigma-delta modulator is powered
/// down, by bit 3 of register 0x12, exactly if the VCO is within a kHz above a multiple of
/// twice the crystal frequency, and bit 3 of register 0x1a is set.
#[verifier::rlimit(40)]
pub proof fn lemma_locked_at_once<H: HardwareInterface>(
    chip: R82xx,
    hw: H,
    lo_hz: u64,
    held: spec_fn(H, Place) -> int,
    status: u8,
)
    requires
        record::is_memory(held),
        record::answers_byte::<H>(chip.i2c_addr, 2, status),
        status & 0x02 != 0,
        rafael::can_set_pll(lo_hz as int, chip.xtal_freq as int, power_ref(chip.tuner_type)),
        pll_set(chip, hw, lo_hz).res is Ok,
    ensures
        ({
            let after = pll_set(chip, hw, lo_hz).hw;
            let at = |reg: int| held(after, Place::Chip { chip: chip.i2c_addr, reg });
            let code = rafael::divider_code(lo_hz as int)->0;
            let vco = lo_hz * pow2((code + 1) as nat);
            &&& rafael::bits(at(0x12), 0x08) == if vco % (2 * chip.xtal_freq) < 1000 {
                0x08u8
            } else {
                0
            }
            &&& rafael::bits(at(0x1a), 0x08) == 0x08
        }),
{
    let code = rafael::divider_code(lo_hz as int)->0;
    rafael::lemma_divider_is_power_of_two(lo_hz as int);
    let vco = lo_hz * pow2((code + 1) as nat);
    let power = power_ref(chip.tuner_type);
    let syn = rafael::synthesis(vco, chip.xtal_freq as int, power)->0;
    let written = pll_written(chip, hw, code, syn);
    let look = status_read(written.chip, written.hw, 5);
    let fine_tune = (look.res->Ok_0[4] & 0x30) >> 4;
    let start = Session::begin(look.chip, look.hw);
    let corrected = if fine_tune == power {
        start
    } else {
        start.mask(0x10, rafael::adjusted_code(code, fine_tune, power) << 5, 0xe0)
    };
    rafael::lemma_reversed_bits(status);
    let third = status_read(corrected.chip, corrected.hw, 3);
    assert(third.res->Ok_0[2] == rafael::reversed(status));
    vstd::arithmetic::div_mod::lemma_mod_bound(vco, 2 * chip.xtal_freq);
    rafael::lemma_fixed_fields();
    rafael::lemma_masked(chip.regs[13], 0x08, 0x08);
    rafael::lemma_masked(chip.regs[13], 0x00, 0x08);
    rafael::lemma_masked(chip.regs[21], 0x08, 0x08);
}

/// The chip covers everything up to 1.766 GHz, and its gain steps are the table's.
pub proof fn lemma_reach<H: HardwareInterface>(chip: R82xx)
    ensures
        Tuner::<H>::filters(chip) == seq![FilterRange { start_hz: 0, end_hz: 1_766_000_000 }],
        Tuner::<H>::steps(chip) == GAIN_STEPS@,
{
}

/// Where the chip never reports a lock, setting the PLL gives up after ten looks, without an
/// error: it writes the PLL's registers, waits two milliseconds, reads the status, moves the
/// divider where that says so, and then reads the status ten times with a millisecond after
/// each, raising the VCO's current after the first.
#[verifier::rlimit(40)]
pub proof fn lemma_gives_up_after_ten<H: HardwareInterface>(
    chip: R82xx,
    hw: H,
    lo_hz: u64,
    done: spec_fn(H) -> Seq<BusOp>,
    status: u8,
    tuning: u8,
)
    requires
        record::is_willing::<H>(),
        record::is_record(done),
        record::answers_byte::<H>(chip.i2c_addr, 2, status),
        record::answers_byte::<H>(chip.i2c_addr, 4, tuning),
        status & 0x02 == 0,
        rafael::divider_code(lo_hz as int) is Some,
        rafael::synthesis(
            lo_hz * rafael::mix_div(rafael::divider_code(lo_hz as int)->0 as int),
            chip.xtal_freq as int,
            power_ref(chip.tuner_type),
        ) is Some,
    ensures
        ({
            let s = pll_set(chip, hw, lo_hz);
            let fine_tune = (if tuning & 0x04 != 0 {
                2int
            } else {
                0
            }) + (if tuning & 0x08 != 0 {
                1int
            } else {
                0
            });
            let expected = if chip.tuner_type == TunerType::R820T {
                2int
            } else {
                1
            };
            &&& s.res is Ok
            &&& !s.chip.has_lock
            &&& done(s.hw).len() == done(hw).len() + 39 + if fine_tune == expected {
                0int
            } else {
                1
            }
            &&& done(s.hw)[done(hw).len() as int + 5] == BusOp::Sleep { ms: 2 }
            &&& done(s.hw).last() == BusOp::Sleep { ms: 1 }
        }),
{
    let code = rafael::divider_code(lo_hz as int)->0;
    let power = power_ref(chip.tuner_type);
    let syn = rafael::synthesis(
        lo_hz * rafael::mix_div(code as int),
        chip.xtal_freq as int,
        power,
    )->0;
    let written = pll_written(chip, hw, code, syn);
    assert(done(written.hw).len() == done(hw).len() + 6);
    assert(done(written.hw).last() == BusOp::Sleep { ms: 2 });
    let look = status_read(written.chip, written.hw, 5);
    rafael::lemma_fine_tuning_bits(tuning);
    assert(look.res->Ok_0[4] == rafael::reversed(tuning));
    let fine_tune = (look.res->Ok_0[4] & 0x30) >> 4;
    let start = Session::begin(look.chip, look.hw);
    let corrected = if fine_tune == power {
        start
    } else {
        start.mask(0x10, rafael::adjusted_code(code, fine_tune, power) << 5, 0xe0)
    };
    lemma_looks_counted(corrected.chip, corrected.hw, 0, 10, done, status);
    let n = done(hw).len() as int;
    assert(done(written.hw)[n + 5] == BusOp::Sleep { ms: 2 });
    assert(done(corrected.hw)[n + 5] == done(written.hw)[n + 5]);
    let wait = lock_awaited(corrected.chip, corrected.hw, 0, 10);
    assert(done(wait.hw)[n + 5] == done(wait.hw).take(done(corrected.hw).len() as int)[n + 5]);
    assert(pll_set(chip, hw, lo_hz).hw == wait.hw);
}

proof fn lemma_looks_counted<H: HardwareInterface>(
    chip: R82xx,
    hw: H,
    i: nat,
    retries: nat,
    done: spec_fn(H) -> Seq<BusOp>,
    status: u8,
)
    requires
        i < retries,
        record::is_willing::<H>(),
        record::is_record(done),
        record::answers_byte::<H>(chip.i2c_addr, 2, status),
        status & 0x02 == 0,
    ensures
        ({
            let s = lock_awaited(chip, hw, i, retries);
            &&& s.res == Result::<bool>::Ok(false)
            &&& !s.chip.has_lock
            &&& done(s.hw).len() == done(hw).len() + 3 * (retries - i) + if i == 0 {
                1int
            } else {
                0
            }
            &&& done(hw) == done(s.hw).take(done(hw).len() as int)
            &&& done(s.hw).last() == BusOp::Sleep { ms: 1 }
        }),
    decreases retries - i,
{
    rafael::lemma_reversed_bits(status);
    reveal_with_fuel(lock_awaited, 2);
    let look = status_read(chip, hw, 3);
    assert(look.res->Ok_0[2] == rafael::reversed(status));
    let adjusted = if i == 0 {
        Session::begin(look.chip, look.hw).mask(0x12, 0x06, 0xff)
    } else {
        Session::begin(look.chip, look.hw)
    };
    let waited = adjusted.sleep(1);
    assert(done(hw) =~= done(waited.hw).take(done(hw).len() as int));
    if i + 1 < retries {
        lemma_looks_counted(waited.chip, waited.hw, i + 1, retries, done, status);
        let s = lock_awaited(chip, hw, i, retries);
        assert(done(hw) =~= done(s.hw).take(done(hw).len() as int));
    }
}

/// A frequency whose local oscillator would be below 27.65625 MHz, or at 1.8 GHz or above,
/// is refused, whatever the chip says, with an error that names the local oscillator.
pub proof fn lemma_unreachable_refused<H: HardwareInterface>(chip: R82xx, hw: H, hz: u64)
    requires
        forall|h: H, op: BusOp| (#[trigger] h.ack(op)) is Ok,
        hz > 0,
        hz + chip.current_if <= u64::MAX,
        hz + chip.current_if < 27_656_250 || hz + chip.current_if >= 1_800_000_000,
    ensures
        Tuner::<H>::tuned(chip, hw, hz).res == Result::<u64>::Err(
            Error::InvalidFrequency((hz + chip.current_if) as u64),
        ),
{
    let lo_hz = (hz + chip.current_if) as u64;
    rafael::lemma_oscillator_range(lo_hz as int);
    let mux = mux_set(chip, hw.after(device::repeater_op(true)), hz);
    assert(mux.res is Ok);
}

/// Where the chip does not report its lock at the first look, the VCO gets its highest
/// current: 0x06 in register 0x12.
pub proof fn lemma_current_raised<H: HardwareInterface>(
    chip: R82xx,
    hw: H,
    held: spec_fn(H, Place) -> int,
    status: u8,
)
    requires
        record::is_memory(held),
        record::answers_byte::<H>(chip.i2c_addr, 2, status),
        status & 0x02 == 0,
        lock_awaited(chip, hw, 0, 10).res is Ok,
    ensures
        held(lock_awaited(chip, hw, 0, 10).hw, Place::Chip { chip: chip.i2c_addr, reg: 0x12 })
            == 0x06,
{
    rafael::lemma_reversed_bits(status);
    reveal_with_fuel(lock_awaited, 2);
    let look = status_read(chip, hw, 3);
    assert(look.res->Ok_0[2] == rafael::reversed(status));
    let adjusted = Session::begin(look.chip, look.hw).mask(0x12, 0x06, 0xff);
    rafael::lemma_whole_register(chip.regs[13], 0x06);
    let waited = adjusted.sleep(1);
    lemma_later_looks_keep(waited.chip, waited.hw, 1, 10, held, 0x12);
}

/// After the first look, waiting for the lock changes no register of the chip.
proof fn lemma_later_looks_keep<H: HardwareInterface>(
    chip: R82xx,
    hw: H,
    i: nat,
    retries: nat,
    held: spec_fn(H, Place) -> int,
    reg: int,
)
    requires
        record::is_memory(held),
        i > 0,
    ensures
        held(lock_awaited(chip, hw, i, retries).hw, Place::Chip { chip: chip.i2c_addr, reg })
            == held(hw, Place::Chip { chip: chip.i2c_addr, reg }),
    decreases retries - i,
{
    if i < retries {
        let look = status_read(chip, hw, 3);
        if look.res is Ok && !rafael::is_locked(look.res->Ok_0) {
            let waited = Session::begin(look.chip, look.hw).sleep(1);
            lemma_later_looks_keep(waited.chip, waited.hw, i + 1, retries, held, reg);
        }
    }
}

/// Where the hardware performs everything, the chip can be initialized, and its driver
/// remembers what it remembered.
pub proof fn lemma_initialization_succeeds<H: HardwareInterface>(chip: R82xx, hw: H)
    requires
        record::is_willing::<H>(),
    ensures
        ({
            let s = Tuner::<H>::initialized(chip, hw);
            s.res is Ok && s.chip == (R82xx { regs: s.chip.regs, ..chip })
        }),
{
    device::lemma_tuner_writes_performed::<H>(chip.i2c_addr);
}

/// Setting the gain changes nothing but registers 0x05, 0x07 and 0x0c of the chip and the
/// switch of the I2C repeater; the other settings change only the registers of their own:
/// the intermediate frequency 0x0a and 0x0b, the bandwidth 0x0a, and the inputs 0x05 and
/// 0x06.
pub proof fn lemma_settings_change_only<H: HardwareInterface>(
    chip: R82xx,
    hw: H,
    idx: int,
    if_hz: u64,
    bandwidth_hz: u32,
    path: InputPath,
    held: spec_fn(H, Place) -> int,
    place: Place,
)
    requires
        record::is_memory(held),
        place != (Place::Demod { page: 1, addr: 0x01 }),
    ensures
        ({
            let at = |reg: int| place == (Place::Chip { chip: chip.i2c_addr, reg });
            let before = held(hw, place);
            &&& !at(0x05) && !at(0x07) && !at(0x0c) ==> held(step_set(chip, hw, idx).hw, place)
                == before
            &&& !at(0x0a) && !at(0x0b) ==> held(Tuner::<H>::if_set(chip, hw, if_hz).hw, place)
                == before
            &&& !at(0x0a) ==> held(Tuner::<H>::bandwidth_set(chip, hw, bandwidth_hz).hw, place)
                == before
            &&& !at(0x05) && !at(0x06) ==> held(Tuner::<H>::path_set(chip, hw, path).hw, place)
                == before
        }),
{
}

/// Tuning changes nothing but registers 0x08, 0x09, 0x10, 0x12, 0x14 to 0x17 and 0x1a to
/// 0x1e of the chip and the switch of the I2C repeater.
pub proof fn lemma_tuning_changes_only<H: HardwareInterface>(
    chip: R82xx,
    hw: H,
    hz: u64,
    held: spec_fn(H, Place) -> int,
    place: Place,
)
    requires
        record::is_memory(held),
        place != (Place::Demod { page: 1, addr: 0x01 }),
        place matches Place::Chip { chip: c, reg } ==> c != chip.i2c_addr || reg < 0x08 || 0x0a
            <= reg <= 0x0f || reg == 0x11 || reg == 0x13 || reg == 0x18 || reg == 0x19 || reg
            >= 0x1f,
    ensures
        held(Tuner::<H>::tuned(chip, hw, hz).hw, place) == held(hw, place),
{
    let on = hw.after(device::repeater_op(true));
    let mux = mux_set(chip, on, hz);
    assert(held(mux.hw, place) == held(hw, place));
    let lo_hz = (hz + chip.current_if) as u64;
    let code = rafael::divider_code(lo_hz as int)->0;
    let syn = rafael::synthesis(
        lo_hz * rafael::mix_div(code as int),
        chip.xtal_freq as int,
        power_ref(chip.tuner_type),
    )->0;
    let written = pll_written(mux.chip, mux.hw, code, syn);
    assert(held(written.hw, place) == held(mux.hw, place));
    let look = status_read(written.chip, written.hw, 5);
    let fine_tune = (look.res->Ok_0[4] & 0x30) >> 4;
    let power = power_ref(chip.tuner_type);
    let start = Session::begin(look.chip, look.hw);
    let corrected = if fine_tune == power {
        start
    } else {
        start.mask(0x10, rafael::adjusted_code(code, fine_tune, power) << 5, 0xe0)
    };
    assert(held(corrected.hw, place) == held(written.hw, place));
    lemma_waiting_keeps_driver(corrected.chip, corrected.hw, 0, 10);
    lemma_waiting_changes_only(corrected.chip, corrected.hw, 0, 10, held, place);
}

proof fn lemma_waiting_changes_only<H: HardwareInterface>(
    chip: R82xx,
    hw: H,
    i: nat,
    retries: nat,
    held: spec_fn(H, Place) -> int,
    place: Place,
)
    requires
        record::is_memory(held),
        place != (Place::Chip { chip: chip.i2c_addr, reg: 0x12 }),
    ensures
        held(lock_awaited(chip, hw, i, retries).hw, place) == held(hw, place),
    decreases retries - i,
{
    if i < retries {
        let look = status_read(chip, hw, 3);
        if look.res is Ok && !rafael::is_locked(look.res->Ok_0) {
            let adjusted = if i == 0 {
                Session::begin(look.chip, look.hw).mask(0x12, 0x06, 0xff)
            } else {
                Session::begin(look.chip, look.hw)
            };
            let waited = adjusted.sleep(1);
            if waited.res is Ok {
                lemma_waiting_changes_only(waited.chip, waited.hw, i + 1, retries, held, place);
            }
        }
    }
}

} // verus!
