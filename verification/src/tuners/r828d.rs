//! R828D chip driver that knows the RTL-SDR Blog V4: it switches the inputs of
//! the V4 itself, and goes through the I2C repeater for every register.
use crate::device::{self, Exchange, HardwareInterface, HardwareRoutines};
use crate::error::{Error, Result, TunerFault};
use crate::record::{self, Place};
use crate::registers::tuner_ids;
use crate::tuner::{
    self, FilterRange, Gain, GainSetting, InputPath, Session, Tuner, UHF_START_HZ, UPCONVERTER_HZ,
};
use crate::tuners::rafael::{
    self, GAIN_STEPS, GAIN_TABLE, IF_FREQ_NARROW, INIT_ARRAY, NUM_REGS, REG_SHADOW_START,
    XTAL_CAP_SEL,
};
use vstd::arithmetic::power2::pow2;
use vstd::prelude::*;

verus! {

/// The chip's I2C address.
pub const I2C_ADDR: u8 = tuner_ids::R828D_I2C_ADDR;

/// The driver of one chip.
pub struct R828D {
    /// What the registers from 0x05 on hold.
    pub regs: [u8; 27],
    pub xtal_freq: u64,
    pub is_v4: bool,
    pub has_lock: bool,
    pub current_gain: Gain,
    pub current_if: u64,
}

/// The crystal of a V4, and that of other boards, in Hz.
pub open spec fn nominal_xtal(is_v4: bool) -> u64 {
    if is_v4 {
        28_800_000
    } else {
        16_000_000
    }
}

/// The VCO power reference.
pub open spec fn power_ref(is_v4: bool) -> u8 {
    if is_v4 {
        1
    } else {
        2
    }
}

impl R828D {
    /// The driver with `val` in the shadow of register `reg`.
    pub open spec fn with_reg(self, reg: u8, val: u8) -> R828D {
        R828D {
            regs: vstd::array::spec_array_update(self.regs, reg - REG_SHADOW_START, val),
            ..self
        }
    }

    pub open spec fn with_lock(self, has_lock: bool) -> R828D {
        R828D { has_lock, ..self }
    }

    pub fn new(is_v4: bool) -> (chip: Self)
        ensures
            chip == (R828D {
                regs: INIT_ARRAY,
                xtal_freq: nominal_xtal(is_v4),
                is_v4,
                has_lock: false,
                current_gain: Gain::Tenths(0),
                current_if: IF_FREQ_NARROW,
            }),
    {
        let xtal: u64 = if is_v4 {
            28_800_000
        } else {
            16_000_000
        };
        R828D {
            regs: INIT_ARRAY,
            xtal_freq: xtal,
            is_v4,
            has_lock: false,
            current_gain: Gain::Tenths(0),
            current_if: IF_FREQ_NARROW,
        }
    }
}

impl<H: HardwareInterface> Session<R828D, H, ()> {
    /// Followed by a write of `val` to register `reg`.
    pub open spec fn write(self, reg: u8, val: u8) -> Self {
        self.exchange(|h: H| device::tuner_write(h, I2C_ADDR, reg, seq![val]))
    }

    /// Followed by a write of the bits of `mask` in register `reg`; the shadow
    /// supplies the other bits.
    pub open spec fn mask(self, reg: u8, val: u8, mask: u8) -> Self {
        if self.res is Ok {
            let idx = reg - REG_SHADOW_START;
            if idx >= NUM_REGS {
                Session {
                    chip: self.chip,
                    hw: self.hw,
                    res: Err(Error::Tuner(TunerFault::RegisterOutOfRange { reg })),
                }
            } else {
                let new = rafael::masked(self.chip.regs[idx], val, mask);
                Session { chip: self.chip.with_reg(reg, new), hw: self.hw, res: Ok(()) }.write(
                    reg,
                    new,
                )
            }
        } else {
            self
        }
    }

    /// Followed by GPIO pin 5 being made an output and driven.
    pub open spec fn gpio5(self, value: bool) -> Self {
        self.exchange(
            |h: H| device::gpio_output(h, 5).chain(|g: H| device::gpio_bit(g, 5, value)),
        )
    }
}

/// The first `len` status bytes, their bits in the usual order.
pub open spec fn status_read<H: HardwareInterface>(hw: H, len: nat) -> Exchange<H, Seq<u8>> {
    device::tuner_write(hw, I2C_ADDR, 0x00, Seq::<u8>::empty()).chain(
        |h: H|
            {
                let read = device::direct_read(h, I2C_ADDR, len);
                Exchange {
                    hw: read.hw,
                    res: match read.res {
                        Ok(data) => if data.len() < len {
                            Err(Error::I2c { addr: I2C_ADDR })
                        } else {
                            Ok(data.map_values(|b: u8| rafael::reversed(b)))
                        },
                        Err(e) => Err(e),
                    },
                }
            },
    )
}

/// Waits until the PLL is locked, for at most `retries` looks at the status, of
/// which `i` are over. After the first look in vain the VCO current is set to
/// its maximum; after each a millisecond passes.
pub open spec fn lock_awaited<H: HardwareInterface>(
    chip: R828D,
    hw: H,
    i: nat,
    retries: nat,
) -> Session<R828D, H, bool>
    decreases retries - i,
{
    if i >= retries {
        Session { chip: chip.with_lock(false), hw, res: Ok(false) }
    } else {
        let look = status_read(hw, 3);
        match look.res {
            Err(e) => Session { chip, hw: look.hw, res: Err(e) },
            Ok(status) => if rafael::is_locked(status) {
                Session { chip: chip.with_lock(true), hw: look.hw, res: Ok(true) }
            } else {
                let adjusted = if i == 0 {
                    Session::begin(chip, look.hw).mask(0x12, 0x06, 0xff)
                } else {
                    Session::begin(chip, look.hw)
                };
                let waited = adjusted.sleep(1);
                match waited.res {
                    Err(e) => Session { chip: waited.chip, hw: waited.hw, res: Err(e) },
                    Ok(_) => lock_awaited(waited.chip, waited.hw, i + 1, retries),
                }
            },
        }
    }
}

/// The feedback divider written, then the wait for the lock.
pub open spec fn pll_locked<H: HardwareInterface>(
    chip: R828D,
    hw: H,
    s: rafael::Synthesis,
) -> Session<R828D, H, ()> {
    Session::begin(chip, hw).write(0x14, s.ni | (s.si << 6)).mask(
        0x12,
        if s.integer {
            0x08
        } else {
            0x00
        },
        0x08,
    ).write(0x16, (s.sdm / 256) as u8).write(0x15, (s.sdm % 256) as u8).chain(
        |c: R828D, h: H|
            {
                let wait = lock_awaited(c, h, 0, 10);
                match wait.res {
                    Err(e) => Session { chip: wait.chip, hw: wait.hw, res: Err(e) },
                    Ok(locked) => if locked {
                        Session::begin(wait.chip, wait.hw).mask(0x1a, 0x08, 0x08)
                    } else {
                        Session::begin(wait.chip, wait.hw)
                    },
                }
            },
    )
}

/// What setting the PLL to a local oscillator frequency does. The divider is
/// corrected by what the status said of the VCO before.
pub open spec fn pll_set<H: HardwareInterface>(chip: R828D, hw: H, lo_hz: u64) -> Session<
    R828D,
    H,
    (),
> {
    match rafael::divider_code(lo_hz as int) {
        None => Session { chip, hw, res: Err(Error::InvalidFrequency(lo_hz)) },
        Some(code) => {
            let look = status_read(hw, 5);
            match look.res {
                Err(e) => Session { chip, hw: look.hw, res: Err(e) },
                Ok(status) => {
                    let fine_tune = (status[4] & 0x30) >> 4;
                    let power = power_ref(chip.is_v4);
                    Session::begin(chip, look.hw).mask(
                        0x10,
                        rafael::adjusted_code(code, fine_tune, power) << 5,
                        0xe0,
                    ).chain(
                        |c: R828D, h: H|
                            match rafael::synthesis(
                                lo_hz * rafael::mix_div(code as int),
                                chip.xtal_freq as int,
                                power,
                            ) {
                                None => Session {
                                    chip: c,
                                    hw: h,
                                    res: Err(Error::InvalidFrequency(lo_hz)),
                                },
                                Some(s) => pll_locked(c, h, s),
                            },
                    )
                },
            }
        },
    }
}

/// Whether the V4 switches its notch filters off at `freq_hz`: within the bands
/// that they cover.
pub open spec fn notch_off(freq_hz: u64) -> bool {
    ||| freq_hz <= 2_200_000
    ||| 85_000_000 <= freq_hz <= 112_000_000
    ||| 172_000_000 <= freq_hz <= 242_000_000
}

/// The front end switched to the band of `freq_hz`.
pub open spec fn mux_set<H: HardwareInterface>(chip: R828D, hw: H, freq_hz: u64) -> Session<
    R828D,
    H,
    (),
> {
    let range = rafael::band_of(freq_hz);
    let open_d = if chip.is_v4 {
        if notch_off(freq_hz) {
            0x00
        } else {
            0x08
        }
    } else {
        range.open_d
    };
    Session::begin(chip, hw).mask(0x17, 0xa0, 0x30).mask(0x17, open_d, 0x08).mask(
        0x1a,
        range.rf_mux_ploy,
        0xc3,
    ).mask(0x1b, range.tf_c, 0xff).mask(
        0x10,
        XTAL_CAP_SEL[range.xtal_cap_sel as int],
        0x0b,
    ).mask(0x08, 0x00, 0x3f).mask(0x09, 0x00, 0x3f).mask(0x1d, 0x18, 0x38).mask(
        0x1c,
        0x24,
        0x04,
    ).mask(0x1e, 14, 0x1f).mask(0x1a, 0x20, 0x30)
}

/// The inputs of the V4 switched to the one that serves `freq_hz`.
pub open spec fn v4_input_set<H: HardwareInterface>(chip: R828D, hw: H, freq_hz: u64) -> Session<
    R828D,
    H,
    (),
> {
    match tuner::v4_input(freq_hz) {
        // Cable 2 on, upconverter on; cable 1 and the air input off.
        InputPath::Hf => Session::begin(chip, hw).mask(0x06, 0x08, 0x08).gpio5(false).mask(
            0x05,
            0x00,
            0x40,
        ).mask(0x05, 0x20, 0x20),
        // Cable 1 on; cable 2, the upconverter and the air input off.
        InputPath::Vhf => Session::begin(chip, hw).mask(0x06, 0x00, 0x08).gpio5(true).mask(
            0x05,
            0x40,
            0x40,
        ).mask(0x05, 0x20, 0x20),
        // Air input on; both cables and the upconverter off.
        InputPath::Uhf => Session::begin(chip, hw).mask(0x06, 0x00, 0x08).gpio5(true).mask(
            0x05,
            0x00,
            0x40,
        ).mask(0x05, 0x00, 0x20),
    }
}

/// The IF filter set for an intermediate frequency.
pub open spec fn if_filter_set<H: HardwareInterface>(chip: R828D, hw: H, if_hz: u64) -> Session<
    R828D,
    H,
    (),
> {
    let wide = if_hz >= 3_500_000;
    Session::begin(chip, hw).mask(
        0x0a,
        if wide {
            0x10
        } else {
            0x00
        },
        0x70,
    ).mask(
        0x0b,
        if wide {
            0x6b
        } else {
            0x80
        },
        0xef,
    )
}

/// The local oscillator for a frequency: above it by the intermediate frequency
/// and, on the V4's HF input, by the upconverter's offset.
pub open spec fn lo_of(chip: R828D, hz: u64) -> int {
    hz + chip.current_if + if chip.is_v4 && hz < UPCONVERTER_HZ {
        UPCONVERTER_HZ as int
    } else {
        0
    }
}

/// The three amplifiers set to gain step `idx`, by hand instead of by the chip.
pub open spec fn step_set<H: HardwareInterface>(chip: R828D, hw: H, idx: int) -> Session<
    R828D,
    H,
    Gain,
> {
    let (lna, mix, vga) = GAIN_TABLE[idx];
    Session::begin(chip, hw).mask(0x05, 0x10, 0x10).mask(0x07, 0x00, 0x10).mask(
        0x05,
        lna,
        0x0f,
    ).mask(0x07, mix, 0x0f).mask(0x0c, vga, 0x0f).chain(
        |c: R828D, h: H|
            {
                let gain = Gain::Tenths(GAIN_STEPS[idx]);
                Session { chip: R828D { current_gain: gain, ..c }, hw: h, res: Ok(gain) }
            },
    )
}

impl R828D {
    /// Writes a register.
    fn write_reg<H: HardwareInterface>(&self, hw: &mut H, reg: u8, val: u8) -> (res: Result<()>)
        requires
            reg < 255,
        ensures
            (Session { chip: *self, hw: *final(hw), res }) == Session::begin(
                *self,
                *old(hw),
            ).write(reg, val),
    {
        let data: [u8; 1] = [val];
        assert(data@ =~= seq![val]);
        hw.i2c_write_tuner(I2C_ADDR, reg, &data)
    }

    /// Writes bits of a register.
    fn write_reg_mask<H: HardwareInterface>(
        &mut self,
        hw: &mut H,
        reg: u8,
        val: u8,
        mask: u8,
    ) -> (res: Result<()>)
        requires
            reg >= REG_SHADOW_START,
        ensures
            (Session { chip: *final(self), hw: *final(hw), res }) == Session::begin(
                *old(self),
                *old(hw),
            ).mask(reg, val, mask),
            *final(self) == (R828D { regs: final(self).regs, ..*old(self) }),
    {
        let idx: usize = (reg - REG_SHADOW_START) as usize;
        if idx >= NUM_REGS {
            return Err(Error::Tuner(TunerFault::RegisterOutOfRange { reg }));
        }
        let new: u8 = (self.regs[idx] & !mask) | (val & mask);
        self.regs[idx] = new;
        self.write_reg(hw, reg, new)
    }

    /// Reads `len` status bytes.
    fn read_status<H: HardwareInterface>(&self, hw: &mut H, len: usize) -> (res: Result<Vec<u8>>)
        ensures
            ({
                let look = status_read(*old(hw), len as nat);
                &&& *final(hw) == look.hw
                &&& match res {
                    Ok(status) => look.res == Result::<Seq<u8>>::Ok(status@) && status@.len()
                        >= len,
                    Err(e) => look.res == Result::<Seq<u8>>::Err(e),
                }
            }),
    {
        let nothing: [u8; 0] = [];
        assert(nothing@ =~= Seq::<u8>::empty());
        hw.i2c_write_tuner(I2C_ADDR, 0x00, &nothing)?;
        let data: Vec<u8> = hw.i2c_read_direct(I2C_ADDR, len)?;
        if data.len() < len {
            return Err(Error::I2c { addr: I2C_ADDR });
        }
        Ok(rafael::reverse_all(&data))
    }

    /// Waits for the PLL to lock.
    fn wait_pll_lock<H: HardwareInterface>(&mut self, hw: &mut H, retries: u32) -> (res: Result<
        bool,
    >)
        ensures
            (Session { chip: *final(self), hw: *final(hw), res }) == lock_awaited(
                *old(self),
                *old(hw),
                0,
                retries as nat,
            ),
    {
        let ghost all = lock_awaited(*self, *hw, 0, retries as nat);
        let mut i: u32 = 0;
        while i < retries
            invariant
                i <= retries,
                all == lock_awaited(*self, *hw, i as nat, retries as nat),
                all == lock_awaited(*old(self), *old(hw), 0, retries as nat),
            decreases retries - i,
        {
            let status: Vec<u8> = self.read_status(hw, 3)?;
            if status[2] & 0x40 != 0 {
                self.has_lock = true;
                return Ok(true);
            }
            if i == 0 {
                self.write_reg_mask(hw, 0x12, 0x06, 0xff)?;
            }
            hw.sleep_ms(1);
            i = i + 1;
        }
        self.has_lock = false;
        Ok(false)
    }

    /// Sets the PLL to a local oscillator frequency.
    fn set_pll<H: HardwareInterface>(&mut self, hw: &mut H, lo_freq_hz: u64) -> (res: Result<()>)
        requires
            rafael::can_set_pll(
                lo_freq_hz as int,
                old(self).xtal_freq as int,
                power_ref(old(self).is_v4),
            ),
        ensures
            (Session { chip: *final(self), hw: *final(hw), res }) == pll_set(
                *old(self),
                *old(hw),
                lo_freq_hz,
            ),
    {
        let (code, vco_freq) = match rafael::select_divider(lo_freq_hz) {
            Some(divider) => divider,
            None => {
                return Err(Error::InvalidFrequency(lo_freq_hz));
            },
        };
        let status: Vec<u8> = self.read_status(hw, 5)?;
        let fine_tune: u8 = (status[4] & 0x30) >> 4;
        let power: u8 = if self.is_v4 {
            1
        } else {
            2
        };
        let code: u8 = rafael::adjust_code(code, fine_tune, power);
        self.write_reg_mask(hw, 0x10, code << 5, 0xe0)?;

        let s = match rafael::synthesize(vco_freq, self.xtal_freq, power) {
            Some(s) => s,
            None => {
                return Err(Error::InvalidFrequency(lo_freq_hz));
            },
        };
        self.write_reg(hw, 0x14, s.ni | (s.si << 6))?;
        let pw_sdm: u8 = if s.integer {
            0x08
        } else {
            0x00
        };
        self.write_reg_mask(hw, 0x12, pw_sdm, 0x08)?;
        self.write_reg(hw, 0x16, (s.sdm / 256) as u8)?;
        self.write_reg(hw, 0x15, (s.sdm % 256) as u8)?;
        if self.wait_pll_lock(hw, 10)? {
            self.write_reg_mask(hw, 0x1a, 0x08, 0x08)?;
        }
        Ok(())
    }

    /// Sets the IF filter for an intermediate frequency.
    fn set_if_bandwidth<H: HardwareInterface>(&mut self, hw: &mut H, if_hz: u64) -> (res: Result<
        (),
    >)
        ensures
            (Session { chip: *final(self), hw: *final(hw), res }) == if_filter_set(
                *old(self),
                *old(hw),
                if_hz,
            ),
    {
        let (reg_0a, reg_0b): (u8, u8) = if if_hz >= 3_500_000 {
            (0x10, 0x6b)
        } else {
            (0x00, 0x80)
        };
        self.write_reg_mask(hw, 0x0a, reg_0a, 0x70)?;
        self.write_reg_mask(hw, 0x0b, reg_0b, 0xef)?;
        Ok(())
    }

    /// Switches the front end to the band of `freq_hz`.
    fn set_mux<H: HardwareInterface>(&mut self, hw: &mut H, freq_hz: u64) -> (res: Result<()>)
        ensures
            (Session { chip: *final(self), hw: *final(hw), res }) == mux_set(
                *old(self),
                *old(hw),
                freq_hz,
            ),
            *final(self) == (R828D { regs: final(self).regs, ..*old(self) }),
    {
        let range = rafael::find_band(freq_hz);
        self.write_reg_mask(hw, 0x17, 0xa0, 0x30)?;
        if self.is_v4 {
            let open_d: u8 = if freq_hz <= 2_200_000 || (freq_hz >= 85_000_000 && freq_hz
                <= 112_000_000) || (freq_hz >= 172_000_000 && freq_hz <= 242_000_000) {
                0x00
            } else {
                0x08
            };
            self.write_reg_mask(hw, 0x17, open_d, 0x08)?;
        } else {
            self.write_reg_mask(hw, 0x17, range.open_d, 0x08)?;
        }
        let cap: u8 = XTAL_CAP_SEL[range.xtal_cap_sel as usize];
        self.write_reg_mask(hw, 0x1a, range.rf_mux_ploy, 0xc3)?;
        self.write_reg_mask(hw, 0x1b, range.tf_c, 0xff)?;
        self.write_reg_mask(hw, 0x10, cap, 0x0b)?;
        self.write_reg_mask(hw, 0x08, 0x00, 0x3f)?;
        self.write_reg_mask(hw, 0x09, 0x00, 0x3f)?;
        self.write_reg_mask(hw, 0x1d, 0x18, 0x38)?;
        self.write_reg_mask(hw, 0x1c, 0x24, 0x04)?;
        self.write_reg_mask(hw, 0x1e, 14, 0x1f)?;
        self.write_reg_mask(hw, 0x1a, 0x20, 0x30)?;
        Ok(())
    }

    /// Switches the inputs of the V4 to the one that serves `freq_hz`.
    pub(crate) fn set_v4_input<H: HardwareInterface>(&mut self, hw: &mut H, freq_hz: u64) -> (res:
        Result<()>)
        ensures
            (Session { chip: *final(self), hw: *final(hw), res }) == v4_input_set(
                *old(self),
                *old(hw),
                freq_hz,
            ),
            *final(self) == (R828D { regs: final(self).regs, ..*old(self) }),
    {
        if freq_hz < UPCONVERTER_HZ {
            self.write_reg_mask(hw, 0x06, 0x08, 0x08)?;
            hw.set_gpio_output(5)?;
            hw.set_gpio_bit(5, false)?;
            self.write_reg_mask(hw, 0x05, 0x00, 0x40)?;
            self.write_reg_mask(hw, 0x05, 0x20, 0x20)?;
        } else if freq_hz < UHF_START_HZ {
            self.write_reg_mask(hw, 0x06, 0x00, 0x08)?;
            hw.set_gpio_output(5)?;
            hw.set_gpio_bit(5, true)?;
            self.write_reg_mask(hw, 0x05, 0x40, 0x40)?;
            self.write_reg_mask(hw, 0x05, 0x20, 0x20)?;
        } else {
            self.write_reg_mask(hw, 0x06, 0x00, 0x08)?;
            hw.set_gpio_output(5)?;
            hw.set_gpio_bit(5, true)?;
            self.write_reg_mask(hw, 0x05, 0x00, 0x40)?;
            self.write_reg_mask(hw, 0x05, 0x00, 0x20)?;
        }
        Ok(())
    }

    /// Sets and remembers a gain step.
    fn set_step<H: HardwareInterface>(&mut self, hw: &mut H, idx: usize) -> (res: Result<Gain>)
        requires
            idx < 29,
        ensures
            (Session { chip: *final(self), hw: *final(hw), res }) == step_set(
                *old(self),
                *old(hw),
                idx as int,
            ),
    {
        let (lna, mix, vga) = GAIN_TABLE[idx];
        self.write_reg_mask(hw, 0x05, 0x10, 0x10)?;
        self.write_reg_mask(hw, 0x07, 0x00, 0x10)?;
        self.write_reg_mask(hw, 0x05, lna, 0x0f)?;
        self.write_reg_mask(hw, 0x07, mix, 0x0f)?;
        self.write_reg_mask(hw, 0x0c, vga, 0x0f)?;
        let actual = Gain::Tenths(GAIN_STEPS[idx]);
        self.current_gain = actual;
        Ok(actual)
    }
}

impl<H: HardwareInterface> Tuner<H> for R828D {
    open spec fn initialized(self, hw: H) -> Session<Self, H, ()> {
        Session::begin(self, hw).exchange(
            |h: H| device::tuner_write(h, I2C_ADDR, 0x05, INIT_ARRAY@.subrange(0, 16)),
        ).exchange(
            |h: H| device::tuner_write(h, I2C_ADDR, 0x15, INIT_ARRAY@.subrange(16, 27)),
        ).mask(0x1a, 0x00, 0x0c).mask(0x12, 0x06, 0xff).mask(0x0c, 0x00, 0x0f).mask(
            0x13,
            0x01,
            0x3f,
        ).chain(|c: R828D, h: H| if_filter_set(c, h, IF_FREQ_NARROW))
    }

    open spec fn can_tune(self, hz: u64) -> bool {
        hz != 0 ==> {
            &&& lo_of(self, hz) <= u64::MAX
            &&& rafael::can_set_pll(
                lo_of(self, hz),
                self.xtal_freq as int,
                power_ref(self.is_v4),
            )
        }
    }

    open spec fn tuned(self, hw: H, hz: u64) -> Session<Self, H, u64> {
        if hz == 0 {
            Session { chip: self, hw, res: Err(Error::InvalidFrequency(hz)) }
        } else {
            let lo_hz = lo_of(self, hz) as u64;
            mux_set(self, hw, hz).chain(
                |c: R828D, h: H|
                    if self.is_v4 {
                        v4_input_set(c, h, hz)
                    } else {
                        Session::begin(c, h)
                    },
            ).chain(|c: R828D, h: H| pll_set(c, h, lo_hz)).chain(
                |c: R828D, h: H| Session { chip: c, hw: h, res: Ok(hz) },
            )
        }
    }

    open spec fn can_set_gain(self, gain: GainSetting) -> bool {
        tuner::distances_fit(GAIN_STEPS@, gain.tenths)
    }

    open spec fn gained(self, hw: H, gain: GainSetting) -> Session<Self, H, Gain> {
        step_set(self, hw, tuner::nearest(GAIN_STEPS@, gain.tenths))
    }

    open spec fn gain(self) -> Gain {
        self.current_gain
    }

    open spec fn filters(self) -> Seq<FilterRange> {
        if self.is_v4 {
            seq![
                FilterRange { start_hz: 0, end_hz: 28_799_999 },
                FilterRange { start_hz: 28_800_000, end_hz: 249_999_999 },
                FilterRange { start_hz: 250_000_000, end_hz: 1_766_000_000 },
            ]
        } else {
            seq![FilterRange { start_hz: 0, end_hz: 1_766_000_000 }]
        }
    }

    open spec fn if_set(self, hw: H, hz: u64) -> Session<Self, H, ()> {
        if_filter_set(R828D { current_if: hz, ..self }, hw, hz)
    }

    open spec fn if_hz(self) -> u64 {
        self.current_if
    }

    open spec fn bandwidth_set(self, hw: H, hz: u32) -> Session<Self, H, ()> {
        Session::begin(self, hw)
    }

    open spec fn can_set_ppm(self, ppm: i32) -> bool {
        true
    }

    open spec fn with_ppm(self, ppm: i32) -> Self {
        let nominal = nominal_xtal(self.is_v4);
        R828D {
            xtal_freq: (nominal + tuner::ppm_offset(nominal as int, ppm as int)) as u64,
            ..self
        }
    }

    open spec fn path_set(self, hw: H, path: InputPath) -> Session<Self, H, ()> {
        Session::begin(self, hw)
    }

    open spec fn with_notch(self, in_notch_band: bool) -> Self {
        self
    }

    open spec fn steps(self) -> Seq<i32> {
        Seq::empty()
    }

    open spec fn gained_by_index(self, hw: H, idx: usize) -> Session<Self, H, Gain> {
        Session { chip: self, hw, res: Ok(self.current_gain) }
    }

    proof fn lemma_notch_keeps_range(self, in_notch_band: bool, hz: u64) {
    }

    fn initialize(&mut self, hw: &mut H) -> (res: Result<()>) {
        let init: [u8; 27] = INIT_ARRAY;
        hw.i2c_write_tuner(I2C_ADDR, REG_SHADOW_START, &init[0..16])?;
        hw.i2c_write_tuner(I2C_ADDR, REG_SHADOW_START + 16, &init[16..27])?;
        self.write_reg_mask(hw, 0x1a, 0x00, 0x0c)?;
        self.write_reg_mask(hw, 0x12, 0x06, 0xff)?;
        self.write_reg_mask(hw, 0x0c, 0x00, 0x0f)?;
        self.write_reg_mask(hw, 0x13, 0x01, 0x3f)?;
        self.set_if_bandwidth(hw, IF_FREQ_NARROW)?;
        Ok(())
    }

    fn is_tunable(&self, hz: u64) -> (b: bool) {
        if hz == 0 {
            return true;
        }
        let up: u64 = if self.is_v4 && hz < UPCONVERTER_HZ {
            UPCONVERTER_HZ
        } else {
            0
        };
        let power: u8 = if self.is_v4 {
            1
        } else {
            2
        };
        hz <= u64::MAX - self.current_if && up <= u64::MAX - self.current_if - hz
            && rafael::is_pll_settable(hz + self.current_if + up, self.xtal_freq, power)
    }

    fn set_frequency(&mut self, hw: &mut H, hz: u64) -> (res: Result<u64>) {
        if hz == 0 {
            return Err(Error::InvalidFrequency(hz));
        }
        let mut lo_freq: u64 = hz + self.current_if;
        if self.is_v4 && hz < UPCONVERTER_HZ {
            lo_freq = lo_freq + UPCONVERTER_HZ;
        }
        self.set_mux(hw, hz)?;
        if self.is_v4 {
            self.set_v4_input(hw, hz)?;
        }
        self.set_pll(hw, lo_freq)?;
        Ok(hz)
    }

    fn is_gain_settable(&self, gain: GainSetting) -> (b: bool) {
        rafael::is_gain_settable(gain.tenths)
    }

    fn set_gain(&mut self, hw: &mut H, gain: GainSetting) -> (res: Result<Gain>) {
        let steps: [i32; 29] = GAIN_STEPS;
        let idx: usize = tuner::nearest_step(&steps, gain.tenths);
        self.set_step(hw, idx)
    }

    fn get_gain(&self) -> (res: Result<Gain>) {
        Ok(self.current_gain)
    }

    fn get_filters(&self) -> (ranges: Vec<FilterRange>) {
        let mut ranges: Vec<FilterRange> = Vec::new();
        if self.is_v4 {
            ranges.push(FilterRange { start_hz: 0, end_hz: 28_799_999 });
            ranges.push(FilterRange { start_hz: 28_800_000, end_hz: 249_999_999 });
            ranges.push(FilterRange { start_hz: 250_000_000, end_hz: 1_766_000_000 });
        } else {
            ranges.push(FilterRange { start_hz: 0, end_hz: 1_766_000_000 });
        }
        assert(ranges@ =~= Tuner::<H>::filters(*self));
        ranges
    }

    fn set_if_freq(&mut self, hw: &mut H, hz: u64) -> (res: Result<()>) {
        self.current_if = hz;
        self.set_if_bandwidth(hw, hz)?;
        Ok(())
    }

    fn get_if_freq(&self) -> (hz: u64) {
        self.current_if
    }

    fn set_bandwidth(&mut self, hw: &mut H, hz: u32) -> (res: Result<()>) {
        Ok(())
    }

    fn is_ppm_settable(&self, ppm: i32) -> (b: bool) {
        true
    }

    fn set_ppm(&mut self, ppm: i32) -> (res: Result<()>) {
        let nominal: u64 = if self.is_v4 {
            28_800_000
        } else {
            16_000_000
        };
        self.xtal_freq = tuner::correct_xtal(nominal, ppm);
        Ok(())
    }

    fn set_input_path(&mut self, hw: &mut H, path: InputPath) -> (res: Result<()>) {
        Ok(())
    }

    fn apply_notch(&mut self, in_notch_band: bool) -> (res: Result<()>) {
        Ok(())
    }

    fn set_gain_by_index(&mut self, hw: &mut H, idx: usize) -> (res: Result<Gain>) {
        Ok(self.current_gain)
    }

    fn get_gain_table(&self) -> (steps: Vec<i32>) {
        Vec::new()
    }
}

// ── Laws ────────────────────────────────────────────────────────────────────
/// The filter ranges of a V4 are what its inputs serve: a frequency lies in the first,
/// second or third range as the HF, VHF or UHF input serves it.
pub proof fn lemma_v4_filters_follow_inputs<H: HardwareInterface>(chip: R828D, hz: u64, i: int)
    requires
        chip.is_v4,
        hz <= 1_766_000_000,
        0 <= i < 3,
    ensures
        ({
            let range = Tuner::<H>::filters(chip)[i];
            range.start_hz <= hz <= range.end_hz <==> i == match tuner::v4_input(hz) {
                InputPath::Hf => 0int,
                InputPath::Vhf => 1,
                InputPath::Uhf => 2,
            }
        }),
{
}

/// Waiting for the lock changes no register of the chip but 0x12.
proof fn lemma_waiting_keeps<H: HardwareInterface>(
    chip: R828D,
    hw: H,
    i: nat,
    retries: nat,
    held: spec_fn(H, Place) -> int,
    reg: int,
)
    requires
        record::is_memory(held),
        reg != 0x12,
    ensures
        held(lock_awaited(chip, hw, i, retries).hw, Place::Chip { chip: 0x74, reg }) == held(
            hw,
            Place::Chip { chip: 0x74, reg },
        ),
    decreases retries - i,
{
    if i < retries {
        device::lemma_byte_held::<H>(0x74, held);
        lemma_status_keeps(hw, 3, held, reg);
        let look = status_read(hw, 3);
        if look.res is Ok && !rafael::is_locked(look.res->Ok_0) {
            let adjusted = if i == 0 {
                Session::begin(chip, look.hw).mask(0x12, 0x06, 0xff)
            } else {
                Session::begin(chip, look.hw)
            };
            let waited = adjusted.sleep(1);
            if waited.res is Ok {
                lemma_waiting_keeps(waited.chip, waited.hw, i + 1, retries, held, reg);
            }
        }
    }
}

/// Reading the status changes no register of the chip.
proof fn lemma_status_keeps<H: HardwareInterface>(
    hw: H,
    len: nat,
    held: spec_fn(H, Place) -> int,
    reg: int,
)
    requires
        record::is_memory(held),
    ensures
        held(status_read(hw, len).hw, Place::Chip { chip: 0x74, reg }) == held(
            hw,
            Place::Chip { chip: 0x74, reg },
        ),
{
    device::lemma_tuner_write_held(hw, 0x74, 0x00, Seq::empty(), held);
}

/// Once the PLL has been set, the registers hold what makes the local oscillator run at
/// `lo_hz`. `status` is the chip's last status byte.
pub proof fn lemma_pll_registers<H: HardwareInterface>(
    chip: R828D,
    hw: H,
    lo_hz: u64,
    held: spec_fn(H, Place) -> int,
    status: u8,
)
    requires
        record::is_memory(held),
        rafael::can_set_pll(lo_hz as int, chip.xtal_freq as int, power_ref(chip.is_v4)),
        pll_set(chip, hw, lo_hz).res is Ok,
        record::answers_byte::<H>(0x74, 4, status),
    ensures
        rafael::holds_oscillator(
            |reg: int| held(pll_set(chip, hw, lo_hz).hw, Place::Chip { chip: 0x74, reg }),
            lo_hz as int,
            chip.xtal_freq as int,
            if chip.is_v4 {
                1
            } else {
                2
            },
            status,
        ),
{
    device::lemma_byte_held::<H>(0x74, held);
    let code = rafael::divider_code(lo_hz as int)->0;
    rafael::lemma_divider_is_power_of_two(lo_hz as int);
    let vco = lo_hz * pow2((code + 1) as nat);
    let power = power_ref(chip.is_v4);
    rafael::lemma_synthesis_accuracy(vco, chip.xtal_freq as int, power);
    let syn = rafael::synthesis(vco, chip.xtal_freq as int, power)->0;
    let look = status_read(hw, 5);
    let raw = look.res->Ok_0;
    assert(raw[4] == rafael::reversed(status));
    rafael::lemma_fine_tuning_bits(status);
    let fine_tune = (raw[4] & 0x30) >> 4;
    let moved = rafael::adjusted_code(code, fine_tune, power);
    let s1 = Session::begin(chip, look.hw).mask(0x10, moved << 5, 0xe0);
    let s2 = Session::begin(s1.chip, s1.hw).write(0x14, syn.ni | (syn.si << 6));
    let s3 = s2.mask(
        0x12,
        if syn.integer {
            0x08
        } else {
            0x00
        },
        0x08,
    );
    let s4 = s3.write(0x16, (syn.sdm / 256) as u8);
    let s5 = s4.write(0x15, (syn.sdm % 256) as u8);
    lemma_waiting_keeps(s5.chip, s5.hw, 0, 10, held, 0x10);
    lemma_waiting_keeps(s5.chip, s5.hw, 0, 10, held, 0x14);
    lemma_waiting_keeps(s5.chip, s5.hw, 0, 10, held, 0x15);
    lemma_waiting_keeps(s5.chip, s5.hw, 0, 10, held, 0x16);
    let old = chip.regs[11];
    assert(((old & !0xe0u8) | ((moved << 5) & 0xe0u8)) / 32 == moved) by (bit_vector)
        requires
            moved < 8,
    ;
    let (ni, si) = (syn.ni, syn.si);
    assert((ni | (si << 6)) % 64 == ni && (ni | (si << 6)) / 64 == si) by (bit_vector)
        requires
            ni < 64,
            si < 4,
    ;
    let after = pll_set(chip, hw, lo_hz).hw;
    let at = |reg: int| held(after, Place::Chip { chip: 0x74, reg });
    assert(at(0x14) == syn.ni | (syn.si << 6));
    assert(256 * at(0x16) + at(0x15) == syn.sdm);
    assert(at(0x10) / 32 == moved);
    assert(rafael::is_oscillator(
        at,
        lo_hz as int,
        chip.xtal_freq as int,
        power as int,
        status,
        code as int,
    ));
}

/// After a tuning that succeeded, the local oscillator runs above what was asked for by the
/// intermediate frequency that the driver reports, and on a V4 below 28.8 MHz by 28.8 MHz
/// more. `status` is the chip's last status byte.
pub proof fn lemma_oscillator_tuned<H: HardwareInterface>(
    chip: R828D,
    hw: H,
    hz: u64,
    held: spec_fn(H, Place) -> int,
    status: u8,
)
    requires
        record::is_memory(held),
        Tuner::<H>::can_tune(chip, hz),
        Tuner::<H>::tuned(chip, hw, hz).res is Ok,
        record::answers_byte::<H>(0x74, 4, status),
    ensures
        Tuner::<H>::tuned(chip, hw, hz).res == Result::<u64>::Ok(hz),
        rafael::holds_oscillator(
            |reg: int|
                held(
                    Tuner::<H>::tuned(chip, hw, hz).hw,
                    Place::Chip { chip: 0x74, reg },
                ),
            hz + Tuner::<H>::if_hz(chip) + if chip.is_v4 && hz < 28_800_000 {
                28_800_000int
            } else {
                0
            },
            chip.xtal_freq as int,
            if chip.is_v4 {
                1
            } else {
                2
            },
            status,
        ),
{
    let mux = mux_set(chip, hw, hz);
    let switched = if chip.is_v4 {
        v4_input_set(mux.chip, mux.hw, hz)
    } else {
        mux
    };
    let lo_hz = lo_of(chip, hz) as u64;
    lemma_pll_registers(switched.chip, switched.hw, lo_hz, held, status);
}

/// After a gain step has been set, the three amplifiers hold the step's settings, in the low
/// four bits of registers 0x05, 0x07 and 0x0c, and are set by hand. The driver's copies say
/// the same, and the gain that it reports is the step's.
pub proof fn lemma_gain_reaches_amplifiers<H: HardwareInterface>(
    chip: R828D,
    hw: H,
    idx: int,
    held: spec_fn(H, Place) -> int,
)
    requires
        record::is_memory(held),
        0 <= idx < 29,
        step_set(chip, hw, idx).res is Ok,
    ensures
        ({
            let s = step_set(chip, hw, idx);
            let at = |reg: int| held(s.hw, Place::Chip { chip: 0x74, reg });
            let (lna, mix, vga) = GAIN_TABLE[idx];
            &&& at(0x05) == s.chip.regs[0]
            &&& at(0x07) == s.chip.regs[2]
            &&& at(0x0c) == s.chip.regs[7]
            &&& s.chip.regs[0] % 16 == lna
            &&& s.chip.regs[2] % 16 == mix
            &&& s.chip.regs[7] % 16 == vga
            &&& s.chip.regs[0] / 16 % 2 == 1
            &&& s.chip.regs[2] / 16 % 2 == 0
            &&& s.res == Result::<Gain>::Ok(Gain::Tenths(GAIN_STEPS[idx]))
            &&& s.chip.current_gain == Gain::Tenths(GAIN_STEPS[idx])
        }),
{
    device::lemma_byte_held::<H>(0x74, held);
    rafael::lemma_amplifier_bits(chip.regs, idx);
}

/// Setting the PLL changes no register of the chip but 0x10, 0x12, 0x14 to 0x16 and 0x1a,
/// and no register of a block.
proof fn lemma_pll_keeps<H: HardwareInterface>(
    chip: R828D,
    hw: H,
    lo_hz: u64,
    held: spec_fn(H, Place) -> int,
    place: Place,
)
    requires
        record::is_memory(held),
        match place {
            Place::Chip { chip: c, reg } => c == 0x74 && reg != 0x10 && reg != 0x12 && reg != 0x14
                && reg != 0x15 && reg != 0x16 && reg != 0x1a,
            Place::Block { .. } => true,
            Place::Demod { .. } => false,
        },
    ensures
        held(pll_set(chip, hw, lo_hz).hw, place) == held(hw, place),
{
    device::lemma_byte_keeps::<H>(0x74, held, place);
    device::lemma_tuner_write_held(hw, 0x74, 0x00, Seq::empty(), held);
    let code = rafael::divider_code(lo_hz as int)->0;
    let look = status_read(hw, 5);
    let power = power_ref(chip.is_v4);
    let fine_tune = (look.res->Ok_0[4] & 0x30) >> 4;
    let s1 = Session::begin(chip, look.hw).mask(
        0x10,
        rafael::adjusted_code(code, fine_tune, power) << 5,
        0xe0,
    );
    let syn = rafael::synthesis(
        lo_hz * rafael::mix_div(code as int),
        chip.xtal_freq as int,
        power,
    )->0;
    let s2 = Session::begin(s1.chip, s1.hw).write(0x14, syn.ni | (syn.si << 6)).mask(
        0x12,
        if syn.integer {
            0x08
        } else {
            0x00
        },
        0x08,
    ).write(0x16, (syn.sdm / 256) as u8).write(0x15, (syn.sdm % 256) as u8);
    assert(held(look.hw, place) == held(hw, place));
    assert(held(s1.hw, place) == held(look.hw, place));
    assert(held(s2.hw, place) == held(s1.hw, place));
    lemma_waiting_keeps_place(s2.chip, s2.hw, 0, 10, held, place);
}

proof fn lemma_waiting_keeps_place<H: HardwareInterface>(
    chip: R828D,
    hw: H,
    i: nat,
    retries: nat,
    held: spec_fn(H, Place) -> int,
    place: Place,
)
    requires
        record::is_memory(held),
        match place {
            Place::Chip { chip: c, reg } => c == 0x74 && reg != 0x12,
            Place::Block { .. } => true,
            Place::Demod { .. } => false,
        },
    ensures
        held(lock_awaited(chip, hw, i, retries).hw, place) == held(hw, place),
    decreases retries - i,
{
    if i < retries {
        device::lemma_byte_keeps::<H>(0x74, held, place);
        device::lemma_tuner_write_held(hw, 0x74, 0x00, Seq::empty(), held);
        let look = status_read(hw, 3);
        if look.res is Ok && !rafael::is_locked(look.res->Ok_0) {
            let adjusted = if i == 0 {
                Session::begin(chip, look.hw).mask(0x12, 0x06, 0xff)
            } else {
                Session::begin(chip, look.hw)
            };
            let waited = adjusted.sleep(1);
            if waited.res is Ok {
                lemma_waiting_keeps_place(waited.chip, waited.hw, i + 1, retries, held, place);
            }
        }
    }
}

/// Switching the inputs of a V4 changes no register of the chip but 0x05 and 0x06.
proof fn lemma_input_keeps<H: HardwareInterface>(
    chip: R828D,
    hw: H,
    hz: u64,
    held: spec_fn(H, Place) -> int,
    reg: int,
)
    requires
        record::is_memory(held),
        reg != 0x05,
        reg != 0x06,
    ensures
        held(v4_input_set(chip, hw, hz).hw, Place::Chip { chip: 0x74, reg }) == held(
            hw,
            Place::Chip { chip: 0x74, reg },
        ),
{
    device::lemma_byte_keeps::<H>(0x74, held, Place::Chip { chip: 0x74, reg });
}

/// What the band's settings left in a register of the front end is there after tuning.
proof fn lemma_band_stays<H: HardwareInterface>(
    chip: R828D,
    hw: H,
    hz: u64,
    held: spec_fn(H, Place) -> int,
    reg: int,
)
    requires
        record::is_memory(held),
        Tuner::<H>::tuned(chip, hw, hz).res is Ok,
        reg == 0x08 || reg == 0x09 || reg == 0x17 || 0x1b <= reg <= 0x1e,
    ensures
        mux_set(chip, hw, hz).res is Ok,
        held(Tuner::<H>::tuned(chip, hw, hz).hw, Place::Chip { chip: 0x74, reg }) == held(
            mux_set(chip, hw, hz).hw,
            Place::Chip { chip: 0x74, reg },
        ),
{
    let mux = mux_set(chip, hw, hz);
    let switched = if chip.is_v4 {
        v4_input_set(mux.chip, mux.hw, hz)
    } else {
        mux
    };
    let lo_hz = lo_of(chip, hz) as u64;
    lemma_input_keeps(mux.chip, mux.hw, hz, held, reg);
    lemma_pll_keeps(switched.chip, switched.hw, lo_hz, held, Place::Chip { chip: 0x74, reg });
}

/// After a tuning that succeeded the front end serves the frequency: the tracking filter is
/// that of its band. On a V4 the notch filters, by bit 3 of register 0x17, are off up to
/// 2.2 MHz, from 85 to 112 MHz and from 172 to 242 MHz, and on elsewhere; on another board
/// the bit is set below 75 MHz.
pub proof fn lemma_front_end_tuned<H: HardwareInterface>(
    chip: R828D,
    hw: H,
    hz: u64,
    held: spec_fn(H, Place) -> int,
)
    requires
        record::is_memory(held),
        Tuner::<H>::tuned(chip, hw, hz).res is Ok,
    ensures
        ({
            let after = Tuner::<H>::tuned(chip, hw, hz).hw;
            let at = |reg: int| held(after, Place::Chip { chip: 0x74, reg });
            &&& at(0x1b) == rafael::band_of(hz).tf_c
            &&& rafael::bits(at(0x17), 0x08) == if chip.is_v4 {
                if hz <= 2_200_000 || 85_000_000 <= hz <= 112_000_000 || 172_000_000 <= hz
                    <= 242_000_000 {
                    0x00u8
                } else {
                    0x08
                }
            } else if hz < 75_000_000 {
                0x08
            } else {
                0x00
            }
            &&& rafael::bits(at(0x08), 0x3f) == 0x00
            &&& rafael::bits(at(0x09), 0x3f) == 0x00
            &&& rafael::bits(at(0x1d), 0x38) == 0x18
            &&& rafael::bits(at(0x1c), 0x04) == 0x04
            &&& rafael::bits(at(0x1e), 0x1f) == 14
        }),
{
    device::lemma_byte_held::<H>(0x74, held);
    lemma_band_stays(chip, hw, hz, held, 0x08);
    lemma_band_stays(chip, hw, hz, held, 0x09);
    lemma_band_stays(chip, hw, hz, held, 0x17);
    lemma_band_stays(chip, hw, hz, held, 0x1b);
    lemma_band_stays(chip, hw, hz, held, 0x1c);
    lemma_band_stays(chip, hw, hz, held, 0x1d);
    lemma_band_stays(chip, hw, hz, held, 0x1e);
    rafael::lemma_front_end_by_frequency(hz);
    rafael::lemma_fixed_fields();
    let range = rafael::band_of(hz);
    let r17 = rafael::masked(chip.regs[18], 0xa0, 0x30);
    rafael::lemma_masked(r17, 0x08, 0x08);
    rafael::lemma_masked(r17, 0x00, 0x08);
    rafael::lemma_masked(chip.regs[3], 0x00, 0x3f);
    rafael::lemma_masked(chip.regs[4], 0x00, 0x3f);
    rafael::lemma_masked(chip.regs[24], 0x18, 0x38);
    rafael::lemma_masked(chip.regs[23], 0x24, 0x04);
    rafael::lemma_masked(chip.regs[25], 14, 0x1f);
    rafael::lemma_whole_register(chip.regs[22], range.tf_c);
}

/// A V4 that has been tuned has its upconverter's switch, GPIO 5, low below 28.8 MHz and
/// high above. Bit 3 of register 0x06, cable 2, is set below 28.8 MHz only, bit 6 of register
/// 0x05, cable 1, from there up to 250 MHz only, and bit 5, which closes the air input, up to
/// 250 MHz.
pub proof fn lemma_v4_inputs_tuned<H: HardwareInterface>(
    chip: R828D,
    hw: H,
    hz: u64,
    held: spec_fn(H, Place) -> int,
)
    requires
        record::is_memory(held),
        record::reads_back(held),
        chip.is_v4,
        Tuner::<H>::tuned(chip, hw, hz).res is Ok,
    ensures
        ({
            let after = Tuner::<H>::tuned(chip, hw, hz).hw;
            let r05 = held(after, Place::Chip { chip: 0x74, reg: 0x05 });
            let r06 = held(after, Place::Chip { chip: 0x74, reg: 0x06 });
            let gpo = held(after, Place::Block { blk: 2, addr: 0x3001 });
            &&& (((gpo as u8) >> 5) & 1 == 1) == (hz >= 28_800_000)
            &&& rafael::bits(r06, 0x08) == (if hz < 28_800_000 {
                0x08u8
            } else {
                0
            })
            &&& rafael::bits(r05, 0x40) == (if 28_800_000 <= hz < 250_000_000 {
                0x40u8
            } else {
                0
            })
            &&& rafael::bits(r05, 0x20) == (if hz < 250_000_000 {
                0x20u8
            } else {
                0
            })
        }),
{
    let mux = mux_set(chip, hw, hz);
    let switched = v4_input_set(mux.chip, mux.hw, hz);
    let lo_hz = lo_of(chip, hz) as u64;
    lemma_inputs_switched(mux.chip, mux.hw, hz, held);
    lemma_pll_keeps(switched.chip, switched.hw, lo_hz, held, Place::Chip { chip: 0x74, reg: 0x05 });
    lemma_pll_keeps(switched.chip, switched.hw, lo_hz, held, Place::Chip { chip: 0x74, reg: 0x06 });
    lemma_pll_keeps(
        switched.chip,
        switched.hw,
        lo_hz,
        held,
        Place::Block { blk: 2, addr: 0x3001 },
    );
}

/// What switching the inputs of a V4 leaves in the registers.
proof fn lemma_inputs_switched<H: HardwareInterface>(
    chip: R828D,
    hw: H,
    hz: u64,
    held: spec_fn(H, Place) -> int,
)
    requires
        record::is_memory(held),
        record::reads_back(held),
        v4_input_set(chip, hw, hz).res is Ok,
    ensures
        ({
            let after = v4_input_set(chip, hw, hz).hw;
            let r05 = held(after, Place::Chip { chip: 0x74, reg: 0x05 });
            let r06 = held(after, Place::Chip { chip: 0x74, reg: 0x06 });
            let gpo = held(after, Place::Block { blk: 2, addr: 0x3001 });
            &&& (((gpo as u8) >> 5) & 1 == 1) == (hz >= 28_800_000)
            &&& rafael::bits(r06, 0x08) == (if hz < 28_800_000 {
                0x08u8
            } else {
                0
            })
            &&& rafael::bits(r05, 0x40) == (if 28_800_000 <= hz < 250_000_000 {
                0x40u8
            } else {
                0
            })
            &&& rafael::bits(r05, 0x20) == (if hz < 250_000_000 {
                0x20u8
            } else {
                0
            })
        }),
{
    let gpo = Place::Block { blk: 2, addr: 0x3001 };
    device::lemma_byte_held::<H>(0x74, held);
    device::lemma_byte_keeps::<H>(0x74, held, gpo);
    let hf = hz < 28_800_000;
    let cable2 = Session::begin(chip, hw).mask(
        0x06,
        if hf {
            0x08
        } else {
            0x00
        },
        0x08,
    );
    let out = device::gpio_output(cable2.hw, 5);
    let driven = device::gpio_bit(out.hw, 5, !hf);
    device::lemma_pin_driven(out.hw, 5, !hf, 5, held);
    let after = v4_input_set(chip, hw, hz);
    assert(held(after.hw, gpo) == held(driven.hw, gpo));
    let (a, b) = (chip.regs[0], chip.regs[1]);
    rafael::lemma_fixed_fields();
    rafael::lemma_masked(b, 0x08, 0x08);
    rafael::lemma_masked(b, 0x00, 0x08);
    rafael::lemma_two_fields(a, 0x00, 0x40, 0x20, 0x20);
    rafael::lemma_two_fields(a, 0x40, 0x40, 0x20, 0x20);
    rafael::lemma_two_fields(a, 0x00, 0x40, 0x00, 0x20);
}

/// The intermediate frequency that is set is the one that the driver reports, and by which
/// it tunes. The filter is wide for 3.5 MHz and above and narrow below.
pub proof fn lemma_if_is_set<H: HardwareInterface>(
    chip: R828D,
    hw: H,
    hz: u64,
    held: spec_fn(H, Place) -> int,
)
    requires
        record::is_memory(held),
        Tuner::<H>::if_set(chip, hw, hz).res is Ok,
    ensures
        ({
            let s = Tuner::<H>::if_set(chip, hw, hz);
            let at = |reg: int| held(s.hw, Place::Chip { chip: 0x74, reg });
            &&& Tuner::<H>::if_hz(s.chip) == hz
            &&& s.chip == (R828D { current_if: hz, regs: s.chip.regs, ..chip })
            &&& rafael::bits(at(0x0a), 0x70) == (if hz >= 3_500_000 {
                0x10u8
            } else {
                0
            })
            &&& rafael::bits(at(0x0b), 0xef) == (if hz >= 3_500_000 {
                0x6bu8
            } else {
                0x80
            })
        }),
{
    device::lemma_byte_held::<H>(0x74, held);
    rafael::lemma_fixed_fields();
    rafael::lemma_masked(chip.regs[5], 0x10, 0x70);
    rafael::lemma_masked(chip.regs[5], 0x00, 0x70);
    rafael::lemma_masked(chip.regs[6], 0x6b, 0xef);
    rafael::lemma_masked(chip.regs[6], 0x80, 0xef);
}

/// The driver's crystal, 28.8 MHz on a V4 and 16 MHz elsewhere, is corrected by `ppm`
/// millionths, to within a Hertz.
pub proof fn lemma_ppm_corrects_chip<H: HardwareInterface>(chip: R828D, ppm: i32)
    requires
        ppm >= -1_000_000,
    ensures
        ({
            let after = Tuner::<H>::with_ppm(chip, ppm);
            let nominal = if chip.is_v4 {
                28_800_000int
            } else {
                16_000_000
            };
            &&& -1_000_000 < 1_000_000 * after.xtal_freq - nominal * (1_000_000 + ppm) < 1_000_000
            &&& after == (R828D { xtal_freq: after.xtal_freq, ..chip })
        }),
{
    tuner::lemma_offset_is_ppm(nominal_xtal(chip.is_v4), ppm);
}

/// A gain that is asked for gets the step nearest to it. Steps cannot be chosen by number:
/// the gain stays as it is.
pub proof fn lemma_nearest_gain_set<H: HardwareInterface>(
    chip: R828D,
    hw: H,
    gain: GainSetting,
    idx: usize,
)
    requires
        Tuner::<H>::can_set_gain(chip, gain),
        Tuner::<H>::gained(chip, hw, gain).res is Ok,
    ensures
        Tuner::<H>::gained(chip, hw, gain).res->Ok_0 matches Gain::Tenths(t) && forall|j: int|
            0 <= j < 29 ==> {
                let step = #[trigger] GAIN_STEPS@[j];
                &&& t - gain.tenths <= step - gain.tenths || t - gain.tenths <= gain.tenths - step
                &&& gain.tenths - t <= step - gain.tenths || gain.tenths - t <= gain.tenths - step
            },
        Tuner::<H>::gain(Tuner::<H>::gained(chip, hw, gain).chip) == Tuner::<H>::gained(
            chip,
            hw,
            gain,
        ).res->Ok_0,
        Tuner::<H>::gained_by_index(chip, hw, idx).hw == hw,
        Tuner::<H>::gained_by_index(chip, hw, idx).res == Result::<Gain>::Ok(
            Tuner::<H>::gain(chip),
        ),
        Tuner::<H>::gained_by_index(chip, hw, idx).chip == chip,
{
    let steps: Seq<i32> = GAIN_STEPS@;
    tuner::lemma_nearest_exists(steps, gain.tenths);
    let n = tuner::nearest(steps, gain.tenths);
    assert(forall|j: int|
        0 <= j < 29 ==> tuner::distance(steps[n], gain.tenths) <= tuner::distance(
            #[trigger] steps[j],
            gain.tenths,
        ));
}

/// After a chip that nothing has been done with has been initialized, each of its registers
/// from 0x05 on holds what the driver believes, and that is the initial content.
#[verifier::rlimit(40)]
pub proof fn lemma_initial_registers<H: HardwareInterface>(
    chip: R828D,
    hw: H,
    held: spec_fn(H, Place) -> int,
    i: int,
)
    requires
        record::is_memory(held),
        0 <= i < 27,
        chip.regs == INIT_ARRAY,
        Tuner::<H>::initialized(chip, hw).res is Ok,
    ensures
        ({
            let s = Tuner::<H>::initialized(chip, hw);
            &&& s.chip.regs[i] == rafael::initial_registers()[i]
            &&& held(s.hw, Place::Chip { chip: 0x74, reg: 5 + i }) == s.chip.regs[i]
        }),
{
    device::lemma_byte_held::<H>(0x74, held);
    let (low, high) = (INIT_ARRAY@.subrange(0, 16), INIT_ARRAY@.subrange(16, 27));
    let first = device::tuner_write(hw, 0x74, 0x05, low);
    let second = device::tuner_write(first.hw, 0x74, 0x15, high);
    device::lemma_tuner_write_held(hw, 0x74, 0x05, low, held);
    device::lemma_tuner_write_held(first.hw, 0x74, 0x15, high, held);
    rafael::lemma_initial_fields();
    let place = Place::Chip { chip: 0x74, reg: 5 + i };
    if i < 16 {
        assert(held(first.hw, Place::Chip { chip: 0x74, reg: 0x05 + i }) == low[i]);
        assert(held(second.hw, place) == held(first.hw, place));
    } else {
        assert(held(second.hw, Place::Chip { chip: 0x74, reg: 0x15 + (i - 16) }) == high[i - 16]);
    }
    assert(held(second.hw, place) == INIT_ARRAY@[i]);
}

/// After a tuning that succeeded, the driver reports a lock where bit 1 of the chip's third
/// status byte is set, and only there.
pub proof fn lemma_lock_is_status<H: HardwareInterface>(chip: R828D, hw: H, hz: u64, status: u8)
    requires
        record::answers_byte::<H>(0x74, 2, status),
        Tuner::<H>::tuned(chip, hw, hz).res is Ok,
    ensures
        Tuner::<H>::tuned(chip, hw, hz).chip.has_lock == (status & 0x02 != 0),
{
    let mux = mux_set(chip, hw, hz);
    let switched = if chip.is_v4 {
        v4_input_set(mux.chip, mux.hw, hz)
    } else {
        mux
    };
    let lo_hz = lo_of(chip, hz) as u64;
    let code = rafael::divider_code(lo_hz as int)->0;
    let look = status_read(switched.hw, 5);
    let power = power_ref(switched.chip.is_v4);
    let fine_tune = (look.res->Ok_0[4] & 0x30) >> 4;
    let s1 = Session::begin(switched.chip, look.hw).mask(
        0x10,
        rafael::adjusted_code(code, fine_tune, power) << 5,
        0xe0,
    );
    let syn = rafael::synthesis(
        lo_hz * rafael::mix_div(code as int),
        switched.chip.xtal_freq as int,
        power,
    )->0;
    let s2 = Session::begin(s1.chip, s1.hw).write(0x14, syn.ni | (syn.si << 6)).mask(
        0x12,
        if syn.integer {
            0x08
        } else {
            0x00
        },
        0x08,
    ).write(0x16, (syn.sdm / 256) as u8).write(0x15, (syn.sdm % 256) as u8);
    assert(s2.res is Ok);
    lemma_lock_reported(s2.chip, s2.hw, 0, 10, status);
}

/// Whether there is a lock is what bit 1 of the chip's third status byte says.
proof fn lemma_lock_reported<H: HardwareInterface>(
    chip: R828D,
    hw: H,
    i: nat,
    retries: nat,
    status: u8,
)
    requires
        i < retries,
        record::answers_byte::<H>(0x74, 2, status),
        lock_awaited(chip, hw, i, retries).res is Ok,
    ensures
        lock_awaited(chip, hw, i, retries).res->Ok_0 == (status & 0x02 != 0),
        lock_awaited(chip, hw, i, retries).chip.has_lock == (status & 0x02 != 0),
    decreases retries - i,
{
    rafael::lemma_reversed_bits(status);
    reveal_with_fuel(lock_awaited, 2);
    let look = status_read(hw, 3);
    assert(look.res->Ok_0[2] == rafael::reversed(status));
    if !rafael::is_locked(look.res->Ok_0) && i + 1 < retries {
        let adjusted = if i == 0 {
            Session::begin(chip, look.hw).mask(0x12, 0x06, 0xff)
        } else {
            Session::begin(chip, look.hw)
        };
        let waited = adjusted.sleep(1);
        lemma_lock_reported(waited.chip, waited.hw, i + 1, retries, status);
    }
}

/// Where the chip reports its lock at the first look, the sigma-delta modulator is powered
/// down, by bit 3 of register 0x12, exactly if the VCO is within a kHz above a multiple of
/// twice the crystal frequency, and bit 3 of register 0x1a is set.
#[verifier::rlimit(30)]
pub proof fn lemma_locked_at_once<H: HardwareInterface>(
    chip: R828D,
    hw: H,
    lo_hz: u64,
    held: spec_fn(H, Place) -> int,
    status: u8,
)
    requires
        record::is_memory(held),
        record::answers_byte::<H>(0x74, 2, status),
        status & 0x02 != 0,
        rafael::can_set_pll(lo_hz as int, chip.xtal_freq as int, power_ref(chip.is_v4)),
        pll_set(chip, hw, lo_hz).res is Ok,
    ensures
        ({
            let after = pll_set(chip, hw, lo_hz).hw;
            let at = |reg: int| held(after, Place::Chip { chip: 0x74, reg });
            let code = rafael::divider_code(lo_hz as int)->0;
            let vco = lo_hz * pow2((code + 1) as nat);
            &&& rafael::bits(at(0x12), 0x08) == if vco % (2 * chip.xtal_freq) < 1000 {
                0x08u8
            } else {
                0
            }
            &&& rafael::bits(at(0x1a), 0x08) == 0x08
        }),
{
    device::lemma_byte_held::<H>(0x74, held);
    let code = rafael::divider_code(lo_hz as int)->0;
    rafael::lemma_divider_is_power_of_two(lo_hz as int);
    let vco = lo_hz * pow2((code + 1) as nat);
    let power = power_ref(chip.is_v4);
    let look = status_read(hw, 5);
    let fine_tune = (look.res->Ok_0[4] & 0x30) >> 4;
    let s1 = Session::begin(chip, look.hw).mask(
        0x10,
        rafael::adjusted_code(code, fine_tune, power) << 5,
        0xe0,
    );
    let syn = rafael::synthesis(vco, chip.xtal_freq as int, power)->0;
    let s2 = Session::begin(s1.chip, s1.hw).write(0x14, syn.ni | (syn.si << 6)).mask(
        0x12,
        if syn.integer {
            0x08
        } else {
            0x00
        },
        0x08,
    );
    let s3 = s2.write(0x16, (syn.sdm / 256) as u8).write(0x15, (syn.sdm % 256) as u8);
    assert(s3.res is Ok);
    let third = status_read(s3.hw, 3);
    lemma_status_keeps(s3.hw, 3, held, 0x12);
    rafael::lemma_reversed_bits(status);
    assert(third.res->Ok_0[2] == rafael::reversed(status));
    vstd::arithmetic::div_mod::lemma_mod_bound(vco, 2 * chip.xtal_freq);
    rafael::lemma_fixed_fields();
    rafael::lemma_masked(chip.regs[13], 0x08, 0x08);
    rafael::lemma_masked(chip.regs[13], 0x00, 0x08);
    rafael::lemma_masked(chip.regs[21], 0x08, 0x08);
}

/// Where the hardware performs everything, a chip on a V4 can be tuned to every frequency up
/// to 1.766 GHz but zero, with either intermediate frequency.
#[verifier::rlimit(40)]
pub proof fn lemma_tuning_succeeds<H: HardwareInterface>(chip: R828D, hw: H, hz: u64)
    requires
        record::is_willing::<H>(),
        chip.is_v4,
        chip.xtal_freq == 28_800_000,
        chip.current_if == 2_300_000 || chip.current_if == 3_570_000,
        0 < hz <= 1_766_000_000,
    ensures
        Tuner::<H>::can_tune(chip, hz),
        Tuner::<H>::tuned(chip, hw, hz).res == Result::<u64>::Ok(hz),
{
    device::lemma_tuner_writes_performed::<H>(0x74);
    let lo_hz = lo_of(chip, hz) as u64;
    rafael::lemma_oscillator_range(lo_hz as int);
    let code = rafael::divider_code(lo_hz as int)->0;
    let vco = lo_hz * rafael::mix_div(code as int);
    assert(rafael::in_vco_range(vco));
    assert(30 <= vco / 57_600_000 <= 62);
    let mux = mux_set(chip, hw, hz);
    assert(mux.res is Ok);
    let switched = v4_input_set(mux.chip, mux.hw, hz);
    assert(switched.res is Ok);
    let look = status_read(switched.hw, 5);
    let fine_tune = (look.res->Ok_0[4] & 0x30) >> 4;
    let s1 = Session::begin(switched.chip, look.hw).mask(
        0x10,
        rafael::adjusted_code(code, fine_tune, 1) << 5,
        0xe0,
    );
    let syn = rafael::synthesis(vco, 28_800_000, 1)->0;
    let s2 = Session::begin(s1.chip, s1.hw).write(0x14, syn.ni | (syn.si << 6)).mask(
        0x12,
        if syn.integer {
            0x08
        } else {
            0x00
        },
        0x08,
    ).write(0x16, (syn.sdm / 256) as u8).write(0x15, (syn.sdm % 256) as u8);
    assert(s2.res is Ok);
    lemma_waiting_succeeds(s2.chip, s2.hw, 0, 10);
}

proof fn lemma_waiting_succeeds<H: HardwareInterface>(chip: R828D, hw: H, i: nat, retries: nat)
    requires
        record::is_willing::<H>(),
    ensures
        lock_awaited(chip, hw, i, retries).res is Ok,
    decreases retries - i,
{
    device::lemma_tuner_writes_performed::<H>(0x74);
    if i < retries {
        let look = status_read(hw, 3);
        let adjusted = if i == 0 {
            Session::begin(chip, look.hw).mask(0x12, 0x06, 0xff)
        } else {
            Session::begin(chip, look.hw)
        };
        let waited = adjusted.sleep(1);
        lemma_waiting_succeeds(waited.chip, waited.hw, i + 1, retries);
    }
}

/// Where the hardware performs everything, every gain within reach and every intermediate
/// frequency can be set, and the chip can be initialized.
pub proof fn lemma_settings_succeed<H: HardwareInterface>(
    chip: R828D,
    hw: H,
    gain: GainSetting,
    if_hz: u64,
)
    requires
        record::is_willing::<H>(),
    ensures
        Tuner::<H>::gained(chip, hw, gain).res is Ok,
        gain.tenths >= -1_000_000_000 ==> Tuner::<H>::can_set_gain(chip, gain),
        Tuner::<H>::if_set(chip, hw, if_hz).res is Ok,
        Tuner::<H>::initialized(chip, hw).res is Ok,
{
    device::lemma_tuner_writes_performed::<H>(0x74);
    assert(forall|j: int| 0 <= j < 29 ==> 0 <= #[trigger] GAIN_STEPS@[j] <= 496);
}

/// Setting the gain changes nothing but registers 0x05, 0x07 and 0x0c of the chip and the
/// switch of the I2C repeater, and the intermediate frequency nothing but 0x0a and 0x0b.
pub proof fn lemma_settings_change_only<H: HardwareInterface>(
    chip: R828D,
    hw: H,
    idx: int,
    if_hz: u64,
    held: spec_fn(H, Place) -> int,
    place: Place,
)
    requires
        record::is_memory(held),
        place != (Place::Demod { page: 1, addr: 0x01 }),
    ensures
        ({
            let at = |reg: int| place == (Place::Chip { chip: 0x74, reg });
            let before = held(hw, place);
            &&& !at(0x05) && !at(0x07) && !at(0x0c) ==> held(step_set(chip, hw, idx).hw, place)
                == before
            &&& !at(0x0a) && !at(0x0b) ==> held(Tuner::<H>::if_set(chip, hw, if_hz).hw, place)
                == before
        }),
{
    device::lemma_byte_keeps::<H>(0x74, held, place);
}

} // verus!
