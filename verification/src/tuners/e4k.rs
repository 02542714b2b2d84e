//! Elonics E4000 chip driver.
//!
//! The E4000 is a Zero-IF tuner known for its wide frequency range
//! (typically 52 MHz to 2.2 GHz) and low power consumption.
use crate::device::{self, Exchange, HardwareInterface, HardwareRoutines};
use crate::error::{Error, Result};
use crate::record::{self, Place};
use crate::registers::tuner_ids;
use crate::tuner::{self, FilterRange, Gain, GainSetting, InputPath, Session, Tuner};
use vstd::arithmetic::power2::{lemma2_to64, pow2};
use vstd::prelude::*;

verus! {

pub const E4K_I2C_ADDR: u8 = tuner_ids::E4000_I2C_ADDR;

pub const E4K_REG_MASTER1: u8 = 0x00;

pub const E4K_REG_CLK_INP: u8 = 0x05;

pub const E4K_REG_REF_CLK: u8 = 0x06;

pub const E4K_REG_SYNTH1: u8 = 0x07;

pub const E4K_REG_SYNTH3: u8 = 0x09;

pub const E4K_REG_SYNTH4: u8 = 0x0a;

pub const E4K_REG_SYNTH5: u8 = 0x0b;

pub const E4K_REG_SYNTH7: u8 = 0x0d;

pub const E4K_REG_FILT1: u8 = 0x10;

pub const E4K_REG_FILT2: u8 = 0x11;

pub const E4K_REG_FILT3: u8 = 0x12;

pub const E4K_REG_GAIN1: u8 = 0x14;

pub const E4K_REG_GAIN2: u8 = 0x15;

pub const E4K_REG_GAIN3: u8 = 0x16;

pub const E4K_REG_GAIN4: u8 = 0x17;

pub const E4K_REG_DC1: u8 = 0x1e;

/// The range of the VCO, in Hz, both ends included.
pub const E4K_VCO_MIN: u64 = 2_600_000_000;

pub const E4K_VCO_MAX: u64 = 3_900_000_000;

/// The gain steps, in tenths of a decibel.
pub const E4K_GAIN_STEPS: [i32; 18] = [
    -10, 15, 40, 65, 90, 115, 140, 165, 190, 215, 240, 290, 340, 420, 430, 450, 470, 490,
];

/// Of each divider the frequency it is listed under, in Hz, its value and its code. The
/// last row stands for a frequency that no divider serves.
pub const PLL_VARS: [(u64, u8, u8); 9] = [
    (724_000_000, 4, 0x00),
    (482_000_000, 6, 0x01),
    (362_000_000, 8, 0x02),
    (241_000_000, 12, 0x03),
    (181_000_000, 16, 0x04),
    (120_000_000, 24, 0x05),
    (90_000_000, 32, 0x06),
    (60_000_000, 48, 0x07),
    (0, 48, 0x07),
];

/// The gain after initialization: 20 dB.
pub const DEFAULT_GAIN_TENTHS: i32 = 200;

/// The driver of one chip.
pub struct E4k {
    pub nominal_xtal: u64,
    pub xtal_freq: u64,
    pub current_gain: Gain,
}

// ── Tuning ──────────────────────────────────────────────────────────────────
/// Whether the VCO can run at `vco_hz`.
pub open spec fn in_vco_range(vco_hz: int) -> bool {
    E4K_VCO_MIN <= vco_hz <= E4K_VCO_MAX
}

/// Whether divider `i` serves `hz`: the first that puts the VCO into its range, or the
/// last row where none does.
pub open spec fn is_divider(hz: u64, i: int) -> bool {
    &&& 0 <= i < 9
    &&& i < 8 ==> in_vco_range(hz * PLL_VARS[i].1)
    &&& forall|j: int| 0 <= j < i ==> !in_vco_range(hz * (#[trigger] PLL_VARS[j]).1)
}

/// The divider that serves `hz`, and its code.
pub open spec fn divider_of(hz: u64) -> (u8, u8) {
    let row = PLL_VARS[choose|i: int| is_divider(hz, i)];
    (row.1, row.2)
}

fn find_divider(hz: u64) -> (r: (u8, u8))
    ensures
        r == divider_of(hz),
        r.0 <= 48,
{
    let mut i: usize = 0;
    while i < 8
        invariant_except_break
            i <= 8,
            forall|j: int| 0 <= j < i ==> !in_vco_range(hz * (#[trigger] PLL_VARS[j]).1),
        ensures
            is_divider(hz, i as int),
        decreases 8 - i,
    {
        let vco: u128 = product(hz, PLL_VARS[i].1);
        if E4K_VCO_MIN as u128 <= vco && vco <= E4K_VCO_MAX as u128 {
            break;
        }
        i = i + 1;
    }
    proof {
        lemma_one_divider(hz, i as int, choose|k: int| is_divider(hz, k));
    }
    let row = PLL_VARS[i];
    (row.1, row.2)
}

fn product(hz: u64, div: u8) -> (vco: u128)
    ensures
        vco == hz * div,
{
    assert(0 <= hz * div <= u64::MAX * 255) by (nonlinear_arith)
        requires
            0 <= hz <= u64::MAX,
            0 <= div <= 255,
    ;
    hz as u128 * div as u128
}

/// No frequency is served by two dividers.
pub proof fn lemma_one_divider(hz: u64, a: int, b: int)
    requires
        is_divider(hz, a),
        is_divider(hz, b),
    ensures
        a == b,
{
    if a < b {
        assert(!in_vco_range(hz * PLL_VARS[a].1));
    } else if b < a {
        assert(!in_vco_range(hz * PLL_VARS[b].1));
    }
}

/// The dividers cover, without a gap, every frequency from 54.166667 MHz to 975 MHz, and
/// no other.
pub proof fn lemma_coverage(hz: u64)
    ensures
        in_vco_range(vco_of(hz)) <==> 54_166_667 <= hz <= 975_000_000,
{
    let i = if in_vco_range(hz * 4) {
        0int
    } else if in_vco_range(hz * 6) {
        1
    } else if in_vco_range(hz * 8) {
        2
    } else if in_vco_range(hz * 12) {
        3
    } else if in_vco_range(hz * 16) {
        4
    } else if in_vco_range(hz * 24) {
        5
    } else if in_vco_range(hz * 32) {
        6
    } else if in_vco_range(hz * 48) {
        7
    } else {
        8
    };
    assert(is_divider(hz, i));
    lemma_one_divider(hz, i, choose|k: int| is_divider(hz, k));
}

/// The RF filter bank for a frequency.
pub open spec fn band_of(hz: u64) -> u8 {
    if hz <= 140_000_000 {
        0
    } else if hz <= 350_000_000 {
        1
    } else if hz <= 467_000_000 {
        2
    } else if hz <= 657_000_000 {
        3
    } else if hz <= 930_000_000 {
        4
    } else if hz <= 1_260_000_000 {
        5
    } else if hz <= 1_610_000_000 {
        6
    } else {
        7
    }
}

/// The frequency that the VCO has to run at.
pub open spec fn vco_of(hz: u64) -> int {
    hz * divider_of(hz).0
}

/// The fractional part of the VCO frequency over the crystal frequency, in units
/// of 1/65536, cut off.
pub open spec fn fraction_of(vco_hz: int, xtal_hz: int) -> int {
    vco_hz % xtal_hz * 65536 / xtal_hz
}

/// The integer part and the fraction give the VCO frequency to within 1/65536 of
/// the crystal frequency.
pub proof fn lemma_synthesis_accuracy(vco_hz: int, xtal_hz: int)
    requires
        0 <= vco_hz,
        0 < xtal_hz,
    ensures
        ({
            let units = 65536 * (vco_hz / xtal_hz) + fraction_of(vco_hz, xtal_hz);
            xtal_hz * units <= 65536 * vco_hz < xtal_hz * (units + 1)
        }),
{
    let z = vco_hz / xtal_hz;
    let rest = vco_hz % xtal_hz;
    let x = rest * 65536 / xtal_hz;
    let rest2 = rest * 65536 % xtal_hz;
    vstd::arithmetic::div_mod::lemma_fundamental_div_mod(vco_hz, xtal_hz);
    vstd::arithmetic::div_mod::lemma_fundamental_div_mod(rest * 65536, xtal_hz);
    vstd::arithmetic::div_mod::lemma_mod_bound(rest * 65536, xtal_hz);
    assert(xtal_hz * (65536 * z + x) == 65536 * (xtal_hz * z) + xtal_hz * x) by (nonlinear_arith);
    assert(xtal_hz * (65536 * z + x + 1) == xtal_hz * (65536 * z + x) + xtal_hz)
        by (nonlinear_arith);
}

// ── Gain ────────────────────────────────────────────────────────────────────
/// The code of the low-noise amplifier's gain.
pub open spec fn lna_code(db: int) -> u8 {
    if db < 5 {
        0
    } else if db < 10 {
        1
    } else if db < 15 {
        2
    } else if db < 20 {
        3
    } else if db < 25 {
        4
    } else if db < 30 {
        5
    } else {
        6
    }
}

pub open spec fn smaller(a: int, b: int) -> int {
    if a < b {
        a
    } else {
        b
    }
}

pub open spec fn clamped(v: int, low: int, high: int) -> int {
    if v < low {
        low
    } else if v > high {
        high
    } else {
        v
    }
}

/// `a / b` cut off towards zero.
pub open spec fn quotient(a: int, b: int) -> int {
    if a >= 0 {
        a / b
    } else {
        -(-a / b)
    }
}

/// The whole decibels of a gain step.
pub open spec fn whole_db(tenths: int) -> int {
    quotient(tenths, 10)
}

/// What is left of `total` decibels for the IF stages after `stage` of them: 30
/// go to the low-noise amplifier, 12 to the mixer, and at most 3 to each stage.
pub open spec fn left_after(total: int, stage: nat) -> int
    decreases stage,
{
    if stage == 0 {
        total - 42
    } else {
        let left = left_after(total, (stage - 1) as nat);
        left - smaller(left, 3)
    }
}

/// The gain of IF stage `stage`.
pub open spec fn stage_db(total: int, stage: nat) -> int {
    smaller(left_after(total, (stage - 1) as nat), 3)
}

/// The register of an IF stage, the bits that are the stage's, how far they are
/// shifted, and their value for a gain.
pub open spec fn stage_field(stage: u8, db: int) -> (u8, u8, u8, u8) {
    if stage == 1 {
        (E4K_REG_GAIN3, 0x01, 0, clamped(quotient(db, 6), 0, 1) as u8)
    } else if stage == 2 {
        (E4K_REG_GAIN3, 0x06, 1, clamped(quotient(db, 3), 0, 3) as u8)
    } else if stage == 3 {
        (E4K_REG_GAIN3, 0x18, 3, clamped(quotient(db, 3), 0, 3) as u8)
    } else if stage == 4 {
        (E4K_REG_GAIN3, 0x60, 5, clamped(db, 0, 3) as u8)
    } else if stage == 5 {
        (E4K_REG_GAIN4, 0x07, 0, clamped(quotient(db, 3), 0, 7) as u8)
    } else {
        (E4K_REG_GAIN4, 0x38, 3, clamped(quotient(db, 3), 0, 7) as u8)
    }
}

impl<H: HardwareInterface> Session<E4k, H, ()> {
    /// Followed by a write of `val` to register `reg`.
    pub open spec fn write(self, reg: u8, val: u8) -> Self {
        self.exchange(|h: H| device::tuner_write(h, E4K_I2C_ADDR, reg, seq![val]))
    }

    /// Followed by IF stage `stage` being set to `db`: the stage's bits replace
    /// those that its register holds.
    pub open spec fn stage(self, stage: u8, db: int) -> Self {
        if self.res is Ok && 1 <= stage <= 6 {
            let (reg, mask, shift, val) = stage_field(stage, db);
            let read = device::tuner_read(self.hw, E4K_I2C_ADDR, reg, 1);
            match read.res {
                Ok(data) => if data.len() == 0 {
                    Session {
                        chip: self.chip,
                        hw: read.hw,
                        res: Err(Error::I2c { addr: E4K_I2C_ADDR }),
                    }
                } else {
                    Session { chip: self.chip, hw: read.hw, res: Ok(()) }.write(
                        reg,
                        (data[0] & !mask) | (val << shift),
                    )
                },
                Err(e) => Session { chip: self.chip, hw: read.hw, res: Err(e) },
            }
        } else {
            self
        }
    }

    /// Followed by the first `n` IF stages being set to their shares of `total`
    /// decibels.
    pub open spec fn stages(self, total: int, n: nat) -> Self
        decreases n,
    {
        if n == 0 {
            self
        } else {
            self.stages(total, (n - 1) as nat).stage(n as u8, stage_db(total, n))
        }
    }
}

/// Once a stage could not be set, the stages after it are left alone.
proof fn lemma_failed_stages_stay<H: HardwareInterface>(
    start: Session<E4k, H, ()>,
    total: int,
    n: nat,
    m: nat,
)
    requires
        n <= m,
        start.stages(total, n).res is Err,
    ensures
        start.stages(total, m) == start.stages(total, n),
    decreases m - n,
{
    if n < m {
        lemma_failed_stages_stay(start, total, n, (m - 1) as nat);
    }
}

/// The low-noise amplifier and the mixer set for a gain of `total` decibels.
pub open spec fn front_set<H: HardwareInterface>(chip: E4k, hw: H, total: int) -> Session<
    E4k,
    H,
    (),
> {
    Session::begin(chip, hw).write(E4K_REG_GAIN1, lna_code(smaller(total, 30))).write(
        E4K_REG_GAIN2,
        if smaller(total - 30, 12) < 8 {
            0
        } else {
            1
        },
    )
}

/// The amplifiers set for a gain of `total` decibels.
pub open spec fn amplifiers_set<H: HardwareInterface>(chip: E4k, hw: H, total: int) -> Session<
    E4k,
    H,
    (),
> {
    front_set(chip, hw, total).stages(total, 6)
}

impl E4k {
    /// A driver of a chip that nothing has been done with yet.
    pub open spec fn fresh(xtal_hz: u64) -> E4k {
        E4k { nominal_xtal: xtal_hz, xtal_freq: xtal_hz, current_gain: Gain::Tenths(0) }
    }

    pub fn new(xtal_hz: u64) -> (chip: Self)
        ensures
            chip == E4k::fresh(xtal_hz),
    {
        E4k { nominal_xtal: xtal_hz, xtal_freq: xtal_hz, current_gain: Gain::Tenths(0) }
    }

    fn write_reg<H: HardwareInterface>(&self, hw: &mut H, reg: u8, val: u8) -> (res: Result<()>)
        requires
            reg < 255,
        ensures
            (Session { chip: *self, hw: *final(hw), res }) == Session::begin(
                *self,
                *old(hw),
            ).write(reg, val),
    {
        let data: [u8; 1] = [val];
        assert(data@ =~= seq![val]);
        hw.i2c_write_tuner(E4K_I2C_ADDR, reg, &data)
    }

    fn set_lna_gain<H: HardwareInterface>(&self, hw: &mut H, db: i32) -> (res: Result<()>)
        ensures
            (Session { chip: *self, hw: *final(hw), res }) == Session::begin(
                *self,
                *old(hw),
            ).write(E4K_REG_GAIN1, lna_code(db as int)),
    {
        let val: u8 = if db < 5 {
            0
        } else if db < 10 {
            1
        } else if db < 15 {
            2
        } else if db < 20 {
            3
        } else if db < 25 {
            4
        } else if db < 30 {
            5
        } else {
            6
        };
        self.write_reg(hw, E4K_REG_GAIN1, val)
    }

    fn set_mixer_gain<H: HardwareInterface>(&self, hw: &mut H, db: i32) -> (res: Result<()>)
        ensures
            (Session { chip: *self, hw: *final(hw), res }) == Session::begin(
                *self,
                *old(hw),
            ).write(
                E4K_REG_GAIN2,
                if db < 8 {
                    0
                } else {
                    1
                },
            ),
    {
        let val: u8 = if db < 8 {
            0
        } else {
            1
        };
        self.write_reg(hw, E4K_REG_GAIN2, val)
    }

    /// The IF stages differ in the width of their bits and in their step size.
    fn set_if_gain<H: HardwareInterface>(&self, hw: &mut H, stage: u8, db: i32) -> (res: Result<()>)
        ensures
            (Session { chip: *self, hw: *final(hw), res }) == Session::begin(
                *self,
                *old(hw),
            ).stage(stage, db as int),
    {
        if stage < 1 || stage > 6 {
            return Ok(());
        }
        let reg: u8 = if stage <= 4 {
            E4K_REG_GAIN3
        } else {
            E4K_REG_GAIN4
        };
        let data: Vec<u8> = hw.i2c_read_tuner(E4K_I2C_ADDR, reg, 1)?;
        if data.len() == 0 {
            return Err(Error::I2c { addr: E4K_I2C_ADDR });
        }
        let current: u8 = data[0];
        let (mask, shift, val): (u8, u8, u8) = if stage == 1 {
            (0x01, 0, clamp(db / 6, 0, 1))
        } else if stage == 2 {
            (0x06, 1, clamp(db / 3, 0, 3))
        } else if stage == 3 {
            (0x18, 3, clamp(db / 3, 0, 3))
        } else if stage == 4 {
            (0x60, 5, clamp(db, 0, 3))
        } else if stage == 5 {
            (0x07, 0, clamp(db / 3, 0, 7))
        } else {
            (0x38, 3, clamp(db / 3, 0, 7))
        };
        self.write_reg(hw, reg, (current & !mask) | (val << shift))
    }

    fn set_front<H: HardwareInterface>(&self, hw: &mut H, total_db: i32) -> (res: Result<()>)
        requires
            -100 <= total_db <= 100,
        ensures
            (Session { chip: *self, hw: *final(hw), res }) == front_set(
                *self,
                *old(hw),
                total_db as int,
            ),
    {
        let lna: i32 = if total_db < 30 {
            total_db
        } else {
            30
        };
        self.set_lna_gain(hw, lna)?;
        let left: i32 = total_db - 30;
        let mixer: i32 = if left < 12 {
            left
        } else {
            12
        };
        self.set_mixer_gain(hw, mixer)
    }

    /// Distributes a gain over the amplifiers.
    fn set_amplifiers<H: HardwareInterface>(&self, hw: &mut H, total_db: i32) -> (res: Result<()>)
        requires
            -100 <= total_db <= 100,
        ensures
            (Session { chip: *self, hw: *final(hw), res }) == amplifiers_set(
                *self,
                *old(hw),
                total_db as int,
            ),
    {
        let ghost start = front_set(*self, *hw, total_db as int);
        let res = self.set_front(hw, total_db);
        proof {
            if res is Err {
                lemma_failed_stages_stay(start, total_db as int, 0, 6);
            }
        }
        res?;
        let mut left: i32 = total_db - 42;
        let mut stage: u8 = 1;
        while stage <= 6
            invariant
                1 <= stage <= 7,
                -200 <= left <= 100,
                left == left_after(total_db as int, (stage - 1) as nat),
                (Session { chip: *self, hw: *hw, res: Result::<()>::Ok(()) }) == start.stages(
                    total_db as int,
                    (stage - 1) as nat,
                ),
                start.stages(total_db as int, 6) == amplifiers_set(
                    *self,
                    *old(hw),
                    total_db as int,
                ),
            decreases 7 - stage,
        {
            let stage_gain: i32 = if left < 3 {
                left
            } else {
                3
            };
            let res = self.set_if_gain(hw, stage, stage_gain);
            proof {
                if res is Err {
                    lemma_failed_stages_stay(start, total_db as int, stage as nat, 6);
                }
            }
            res?;
            left = left - stage_gain;
            stage = stage + 1;
        }
        Ok(())
    }
}

fn clamp(v: i32, low: u8, high: u8) -> (r: u8)
    requires
        low <= high,
    ensures
        r == clamped(v as int, low as int, high as int),
{
    if v < low as i32 {
        low
    } else if v > high as i32 {
        high
    } else {
        v as u8
    }
}

/// The registers written before the gain is set for the first time.
pub open spec fn reset_and_filters<H: HardwareInterface>(chip: E4k, hw: H) -> Session<E4k, H, ()> {
    Session::begin(chip, hw).write(E4K_REG_MASTER1, 0x01).write(E4K_REG_CLK_INP, 0x00).write(
        E4K_REG_REF_CLK,
        0x00,
    ).write(0x7e, 0x01).write(0x7f, 0xfe).write(0x82, 0x00).write(0x86, 0x50).write(
        0x87,
        0x2c,
    ).write(0x88, 0x01).write(0x9f, 0x7f).write(0xa0, 0x07).write(E4K_REG_FILT1, 0x03).write(
        E4K_REG_FILT2,
        0x04,
    ).write(E4K_REG_FILT3, 0x01)
}

/// The step nearest to `tenths`, set and remembered.
pub open spec fn step_set<H: HardwareInterface>(chip: E4k, hw: H, tenths: i32) -> Session<
    E4k,
    H,
    Gain,
> {
    let actual = E4K_GAIN_STEPS@[tuner::nearest(E4K_GAIN_STEPS@, tenths)];
    amplifiers_set(chip, hw, whole_db(actual as int)).chain(
        |c: E4k, h: H|
            {
                let gain = Gain::Tenths(actual);
                Session { chip: E4k { current_gain: gain, ..c }, hw: h, res: Ok(gain) }
            },
    )
}

/// The synthesizer set to `hz`, once the RF filter bank has been selected.
pub open spec fn synth_set<H: HardwareInterface>(chip: E4k, hw: H, hz: u64) -> Session<
    E4k,
    H,
    u64,
> {
    let vco = vco_of(hz);
    let xtal = chip.xtal_freq as int;
    let fraction = fraction_of(vco, xtal);
    let code = divider_of(hz).1;
    if vco / xtal > 255 {
        Session { chip, hw, res: Err(Error::InvalidFrequency(hz)) }
    } else {
        Session::begin(chip, hw).write(E4K_REG_SYNTH3, (vco / xtal) as u8).write(
            E4K_REG_SYNTH4,
            (fraction % 256) as u8,
        ).write(E4K_REG_SYNTH5, (fraction / 256) as u8).write(
            E4K_REG_SYNTH7,
            if hz < 350_000_000 {
                code | 0x08
            } else {
                code
            },
        ).chain(|c: E4k, h: H| Session { chip: c, hw: h, res: Ok(hz) })
    }
}

impl E4k {
    fn reset<H: HardwareInterface>(&self, hw: &mut H) -> (res: Result<()>)
        ensures
            (Session { chip: *self, hw: *final(hw), res }) == reset_and_filters(*self, *old(hw)),
    {
        self.write_reg(hw, E4K_REG_MASTER1, 0x01)?;
        // The reference clock is used directly.
        self.write_reg(hw, E4K_REG_CLK_INP, 0x00)?;
        self.write_reg(hw, E4K_REG_REF_CLK, 0x00)?;
        self.write_reg(hw, 0x7e, 0x01)?;
        self.write_reg(hw, 0x7f, 0xfe)?;
        self.write_reg(hw, 0x82, 0x00)?;
        self.write_reg(hw, 0x86, 0x50)?;
        self.write_reg(hw, 0x87, 0x2c)?;
        self.write_reg(hw, 0x88, 0x01)?;
        self.write_reg(hw, 0x9f, 0x7f)?;
        self.write_reg(hw, 0xa0, 0x07)?;
        // Default RF and mixer filters; the channel filter is enabled.
        self.write_reg(hw, E4K_REG_FILT1, 0x03)?;
        self.write_reg(hw, E4K_REG_FILT2, 0x04)?;
        self.write_reg(hw, E4K_REG_FILT3, 0x01)
    }

    fn set_step<H: HardwareInterface>(&mut self, hw: &mut H, tenths: i32) -> (res: Result<Gain>)
        requires
            tuner::distances_fit(E4K_GAIN_STEPS@, tenths),
        ensures
            (Session { chip: *final(self), hw: *final(hw), res }) == step_set(
                *old(self),
                *old(hw),
                tenths,
            ),
    {
        let steps: [i32; 18] = E4K_GAIN_STEPS;
        let idx: usize = tuner::nearest_step(&steps, tenths);
        let actual: i32 = steps[idx];
        assert(-10 <= actual <= 490) by {
            assert(forall|j: int| 0 <= j < 18 ==> -10 <= #[trigger] E4K_GAIN_STEPS@[j] <= 490);
        }
        self.set_amplifiers(hw, actual / 10)?;
        self.current_gain = Gain::Tenths(actual);
        Ok(Gain::Tenths(actual))
    }

    fn set_synth<H: HardwareInterface>(
        &self,
        hw: &mut H,
        hz: u64,
        f_vco: u64,
        code: u8,
    ) -> (res: Result<u64>)
        requires
            self.xtal_freq > 0,
            f_vco == vco_of(hz),
            f_vco <= E4K_VCO_MAX,
            code == divider_of(hz).1,
        ensures
            (Session { chip: *self, hw: *final(hw), res }) == synth_set(*self, *old(hw), hz),
    {
        let f_osc: u64 = self.xtal_freq;
        let z: u64 = f_vco / f_osc;
        let rest: u64 = f_vco % f_osc;
        proof {
            vstd::arithmetic::div_mod::lemma_mod_bound(f_vco as int, f_osc as int);
            vstd::arithmetic::div_mod::lemma_mod_decreases(f_vco as nat, f_osc as nat);
            assert(rest * 65536 / f_osc as int <= 65535) by (nonlinear_arith)
                requires
                    0 <= rest < f_osc,
            ;
            assert(rest * 65536 / f_osc as int >= 0) by (nonlinear_arith)
                requires
                    0 <= rest < f_osc,
            ;
        }
        let x: u64 = rest * 65536 / f_osc;
        if z > 255 {
            return Err(Error::InvalidFrequency(hz));
        }
        self.write_reg(hw, E4K_REG_SYNTH3, z as u8)?;
        self.write_reg(hw, E4K_REG_SYNTH4, (x % 256) as u8)?;
        self.write_reg(hw, E4K_REG_SYNTH5, (x / 256) as u8)?;
        // Below 350 MHz the mixer works with three phases.
        let synth7: u8 = if hz < 350_000_000 {
            code | 0x08
        } else {
            code
        };
        self.write_reg(hw, E4K_REG_SYNTH7, synth7)?;
        Ok(hz)
    }
}

impl<H: HardwareInterface> Tuner<H> for E4k {
    open spec fn initialized(self, hw: H) -> Session<Self, H, ()> {
        let ready = reset_and_filters(self, hw).chain(
            |c: E4k, h: H| step_set(c, h, DEFAULT_GAIN_TENTHS),
        );
        match ready.res {
            // Then the DC offset calibration is started.
            Ok(_) => Session::begin(ready.chip, ready.hw).write(E4K_REG_DC1, 0x01),
            Err(e) => Session { chip: ready.chip, hw: ready.hw, res: Err(e) },
        }
    }

    open spec fn can_tune(self, hz: u64) -> bool {
        &&& vco_of(hz) <= u64::MAX
        &&& in_vco_range(vco_of(hz)) ==> self.xtal_freq > 0
    }

    open spec fn tuned(self, hw: H, hz: u64) -> Session<Self, H, u64> {
        if in_vco_range(vco_of(hz)) {
            Session::begin(self, hw).write(E4K_REG_SYNTH1, (2 * band_of(hz)) as u8).chain(
                |c: E4k, h: H| synth_set(c, h, hz),
            )
        } else {
            Session { chip: self, hw, res: Err(Error::InvalidFrequency(hz)) }
        }
    }

    open spec fn can_set_gain(self, gain: GainSetting) -> bool {
        tuner::distances_fit(E4K_GAIN_STEPS@, gain.tenths)
    }

    open spec fn gained(self, hw: H, gain: GainSetting) -> Session<Self, H, Gain> {
        step_set(self, hw, gain.tenths)
    }

    open spec fn gain(self) -> Gain {
        self.current_gain
    }

    /// What the chip is specified for. The dividers reach up to 975 MHz, and frequencies
    /// above that are refused, see [`lemma_coverage`].
    open spec fn filters(self) -> Seq<FilterRange> {
        seq![FilterRange { start_hz: 64_000_000, end_hz: 1_700_000_000 }]
    }

    open spec fn if_set(self, hw: H, hz: u64) -> Session<Self, H, ()> {
        Session::begin(self, hw)
    }

    open spec fn if_hz(self) -> u64 {
        0
    }

    open spec fn bandwidth_set(self, hw: H, hz: u32) -> Session<Self, H, ()> {
        Session::begin(self, hw)
    }

    open spec fn can_set_ppm(self, ppm: i32) -> bool {
        tuner::can_correct_xtal(self.nominal_xtal as int, ppm as int)
    }

    open spec fn with_ppm(self, ppm: i32) -> Self {
        E4k {
            xtal_freq: (self.nominal_xtal + tuner::ppm_offset(
                self.nominal_xtal as int,
                ppm as int,
            )) as u64,
            ..self
        }
    }

    open spec fn path_set(self, hw: H, path: InputPath) -> Session<Self, H, ()> {
        Session::begin(self, hw)
    }

    open spec fn with_notch(self, in_notch_band: bool) -> Self {
        self
    }

    open spec fn steps(self) -> Seq<i32> {
        Seq::empty()
    }

    open spec fn gained_by_index(self, hw: H, idx: usize) -> Session<Self, H, Gain> {
        Session { chip: self, hw, res: Ok(self.current_gain) }
    }

    proof fn lemma_notch_keeps_range(self, in_notch_band: bool, hz: u64) {
    }

    fn initialize(&mut self, hw: &mut H) -> (res: Result<()>) {
        self.reset(hw)?;
        proof {
            assert(forall|j: int| 0 <= j < 18 ==> -10 <= #[trigger] E4K_GAIN_STEPS@[j] <= 490);
        }
        self.set_step(hw, DEFAULT_GAIN_TENTHS)?;
        self.write_reg(hw, E4K_REG_DC1, 0x01)?;
        Ok(())
    }

    fn is_tunable(&self, hz: u64) -> (b: bool) {
        let (div, _) = find_divider(hz);
        let vco: u128 = product(hz, div);
        vco <= u64::MAX as u128 && (vco < E4K_VCO_MIN as u128 || vco > E4K_VCO_MAX as u128
            || self.xtal_freq > 0)
    }

    fn set_frequency(&mut self, hw: &mut H, hz: u64) -> (res: Result<u64>) {
        let (div, code) = find_divider(hz);
        let f_vco: u64 = hz * div as u64;
        if f_vco < E4K_VCO_MIN || f_vco > E4K_VCO_MAX {
            return Err(Error::InvalidFrequency(hz));
        }
        let band: u8 = if hz <= 140_000_000 {
            0
        } else if hz <= 350_000_000 {
            1
        } else if hz <= 467_000_000 {
            2
        } else if hz <= 657_000_000 {
            3
        } else if hz <= 930_000_000 {
            4
        } else if hz <= 1_260_000_000 {
            5
        } else if hz <= 1_610_000_000 {
            6
        } else {
            7
        };
        self.write_reg(hw, E4K_REG_SYNTH1, 2 * band)?;
        self.set_synth(hw, hz, f_vco, code)
    }

    fn is_gain_settable(&self, gain: GainSetting) -> (b: bool) {
        let b = gain.tenths >= 490 - i32::MAX && gain.tenths <= i32::MAX - 10;
        assert(b == tuner::distances_fit(E4K_GAIN_STEPS@, gain.tenths)) by {
            assert(E4K_GAIN_STEPS@[0] == -10 && E4K_GAIN_STEPS@[17] == 490);
            assert(forall|j: int| 0 <= j < 18 ==> -10 <= #[trigger] E4K_GAIN_STEPS@[j] <= 490);
        }
        b
    }

    fn set_gain(&mut self, hw: &mut H, gain: GainSetting) -> (res: Result<Gain>) {
        self.set_step(hw, gain.tenths)
    }

    fn get_gain(&self) -> (res: Result<Gain>) {
        Ok(self.current_gain)
    }

    fn get_filters(&self) -> (ranges: Vec<FilterRange>) {
        let mut ranges: Vec<FilterRange> = Vec::new();
        ranges.push(FilterRange { start_hz: 64_000_000, end_hz: 1_700_000_000 });
        ranges
    }

    fn set_if_freq(&mut self, hw: &mut H, hz: u64) -> (res: Result<()>) {
        // A Zero-IF tuner has no intermediate frequency.
        Ok(())
    }

    fn get_if_freq(&self) -> (hz: u64) {
        0
    }

    fn set_bandwidth(&mut self, hw: &mut H, hz: u32) -> (res: Result<()>) {
        Ok(())
    }

    fn is_ppm_settable(&self, ppm: i32) -> (b: bool) {
        tuner::is_correctable(self.nominal_xtal, ppm)
    }

    fn set_ppm(&mut self, ppm: i32) -> (res: Result<()>) {
        self.xtal_freq = tuner::correct_xtal(self.nominal_xtal, ppm);
        Ok(())
    }

    fn set_input_path(&mut self, hw: &mut H, path: InputPath) -> (res: Result<()>) {
        Ok(())
    }

    fn apply_notch(&mut self, in_notch_band: bool) -> (res: Result<()>) {
        Ok(())
    }

    fn set_gain_by_index(&mut self, hw: &mut H, idx: usize) -> (res: Result<Gain>) {
        Ok(self.current_gain)
    }

    fn get_gain_table(&self) -> (steps: Vec<i32>) {
        Vec::new()
    }
}

// ── Laws ────────────────────────────────────────────────────────────────────
/// With a crystal of at least 15.3 MHz, and on hardware that performs every write, the
/// chip is tuned to every frequency that its dividers cover.
pub proof fn lemma_covered_frequencies_accepted<H: HardwareInterface>(chip: E4k, hw: H, hz: u64)
    requires
        54_166_667 <= hz <= 975_000_000,
        chip.xtal_freq >= 15_300_000,
        forall|h: H, op: device::BusOp| (#[trigger] h.ack(op)) is Ok,
    ensures
        Tuner::<H>::can_tune(chip, hz),
        Tuner::<H>::tuned(chip, hw, hz).res == Result::<u64>::Ok(hz),
{
    lemma_coverage(hz);
    let vco = vco_of(hz);
    let xtal = chip.xtal_freq as int;
    assert(vco / xtal <= 255) by (nonlinear_arith)
        requires
            0 <= vco <= 3_900_000_000,
            xtal >= 15_300_000,
    ;
    assert forall|h: H, reg: u8, val: u8| (#[trigger] device::tuner_write(
        h,
        E4K_I2C_ADDR,
        reg,
        seq![val],
    )).res is Ok by {
        device::lemma_ops_performed(
            Exchange::begin(h.after(device::repeater_op(true))),
            device::chunk_ops(E4K_I2C_ADDR, reg, seq![val]),
        );
    }
}

/// The divider that serves a frequency has a code from 0 to 7: 4 for 0, 6 for 1, and twice
/// that for each 2 more.
proof fn lemma_divider_of_code(hz: u64)
    requires
        in_vco_range(vco_of(hz)),
    ensures
        ({
            let (div, code) = divider_of(hz);
            &&& 0 <= code < 8
            &&& div == (if code % 2 == 0 {
                4int
            } else {
                6
            }) * pow2((code / 2) as nat)
        }),
{
    lemma2_to64();
    let i = if in_vco_range(hz * 4) {
        0int
    } else if in_vco_range(hz * 6) {
        1
    } else if in_vco_range(hz * 8) {
        2
    } else if in_vco_range(hz * 12) {
        3
    } else if in_vco_range(hz * 16) {
        4
    } else if in_vco_range(hz * 24) {
        5
    } else if in_vco_range(hz * 32) {
        6
    } else if in_vco_range(hz * 48) {
        7
    } else {
        8
    };
    assert(is_divider(hz, i));
    lemma_one_divider(hz, i, choose|k: int| is_divider(hz, k));
}

/// After a tuning that succeeded, the synthesizer's registers make the VCO run between
/// 2.6 GHz and 3.9 GHz, at the frequency that was asked for times the divider: the crystal
/// frequency times the integer part in register 0x09 and the fraction, in units of 1/65536,
/// in 0x0a and 0x0b, the lower byte first. The low three bits of register 0x0d are the
/// divider's code, 4 for 0, 6 for 1, and twice that for each 2 more; bit 3 is set below
/// 350 MHz. Register 0x07 holds twice the number of the filter bank.
pub proof fn lemma_synthesizer_tuned<H: HardwareInterface>(
    chip: E4k,
    hw: H,
    hz: u64,
    held: spec_fn(H, Place) -> int,
)
    requires
        record::is_memory(held),
        Tuner::<H>::can_tune(chip, hz),
        Tuner::<H>::tuned(chip, hw, hz).res is Ok,
    ensures
        ({
            let after = Tuner::<H>::tuned(chip, hw, hz).hw;
            let at = |reg: int| held(after, Place::Chip { chip: 0xc8, reg });
            let units = 65536 * at(0x09) + 256 * at(0x0b) + at(0x0a);
            let code = at(0x0d) % 8;
            let vco = hz * ((if code % 2 == 0 {
                4int
            } else {
                6
            }) * pow2((code / 2) as nat));
            &&& Tuner::<H>::tuned(chip, hw, hz).res->Ok_0 == hz
            &&& 2_600_000_000 <= vco <= 3_900_000_000
            &&& chip.xtal_freq * units <= 65536 * vco < chip.xtal_freq * (units + 1)
            &&& at(0x0d) / 8 == if hz < 350_000_000 {
                1int
            } else {
                0
            }
            &&& at(0x07) == if hz <= 140_000_000 {
                0int
            } else if hz <= 350_000_000 {
                2
            } else if hz <= 467_000_000 {
                4
            } else if hz <= 657_000_000 {
                6
            } else if hz <= 930_000_000 {
                8
            } else {
                10
            }
        }),
{
    device::lemma_byte_held::<H>(0xc8, held);
    lemma_divider_of_code(hz);
    lemma_coverage(hz);
    let vco = vco_of(hz);
    let xtal = chip.xtal_freq as int;
    lemma_synthesis_accuracy(vco, xtal);
    let fraction = fraction_of(vco, xtal);
    vstd::arithmetic::div_mod::lemma_mod_bound(vco, xtal);
    assert(0 <= fraction < 65536) by (nonlinear_arith)
        requires
            fraction == vco % xtal * 65536 / xtal,
            0 <= vco % xtal < xtal,
    ;
    vstd::arithmetic::div_mod::lemma_div_pos_is_pos(vco, xtal);
    let code = divider_of(hz).1;
    assert((code | 0x08) % 8 == code && (code | 0x08) / 8 == 1) by (bit_vector)
        requires
            code < 8,
    ;
    let s0 = Session::begin(chip, hw).write(E4K_REG_SYNTH1, (2 * band_of(hz)) as u8);
    let s1 = Session::begin(s0.chip, s0.hw).write(E4K_REG_SYNTH3, (vco / xtal) as u8);
    let s2 = s1.write(E4K_REG_SYNTH4, (fraction % 256) as u8);
    let s3 = s2.write(E4K_REG_SYNTH5, (fraction / 256) as u8);
    let s4 = s3.write(
        E4K_REG_SYNTH7,
        if hz < 350_000_000 {
            code | 0x08
        } else {
            code
        },
    );
    assert(Tuner::<H>::tuned(chip, hw, hz).hw == s4.hw);
}

/// After a gain has been set, the low-noise amplifier's setting, in register 0x14, goes up
/// by one for each 5 dB to at most 6, and the mixer's, in register 0x15, is 1 from 38 dB
/// on. The gain that the driver reports is the step nearest to what was asked for.
pub proof fn lemma_front_gain_set<H: HardwareInterface>(
    chip: E4k,
    hw: H,
    gain: GainSetting,
    held: spec_fn(H, Place) -> int,
)
    requires
        record::is_memory(held),
        Tuner::<H>::can_set_gain(chip, gain),
        Tuner::<H>::gained(chip, hw, gain).res is Ok,
    ensures
        ({
            let s = Tuner::<H>::gained(chip, hw, gain);
            let at = |reg: int| held(s.hw, Place::Chip { chip: 0xc8, reg });
            &&& s.res->Ok_0 == s.chip.current_gain
            &&& s.res->Ok_0 matches Gain::Tenths(t) && {
                &&& -10 <= t <= 490
                &&& at(0x14) == if t < 50 {
                    0
                } else if t < 300 {
                    t as int / 50
                } else {
                    6
                }
                &&& at(0x15) == if t < 380 {
                    0int
                } else {
                    1
                }
                &&& forall|j: int|
                    0 <= j < 18 ==> {
                        let step = #[trigger] E4K_GAIN_STEPS@[j];
                        &&& t - gain.tenths <= step - gain.tenths || t - gain.tenths <= gain.tenths
                            - step
                        &&& gain.tenths - t <= step - gain.tenths || gain.tenths - t <= gain.tenths
                            - step
                    }
            }
        }),
{
    device::lemma_byte_held::<H>(0xc8, held);
    let steps: Seq<i32> = E4K_GAIN_STEPS@;
    tuner::lemma_nearest_exists(steps, gain.tenths);
    let n = tuner::nearest(steps, gain.tenths);
    assert(forall|j: int| 0 <= j < 18 ==> -10 <= #[trigger] E4K_GAIN_STEPS@[j] <= 490);
    let total = whole_db(steps[n] as int);
    let front = front_set(chip, hw, total);
    lemma_stages_keep(front, total, 6, held);
    assert(forall|j: int|
        0 <= j < 18 ==> tuner::distance(steps[n], gain.tenths) <= tuner::distance(
            #[trigger] steps[j],
            gain.tenths,
        ));
}

/// What remains above 42 dB goes to the IF stages, 3 dB to each. The first has no step that
/// small, so the second is the first that is switched on, from 48 dB, in bits 1 and 2 of
/// register 0x16; there is never more. What else registers 0x16 and 0x17 hold is cleared,
/// but for bit 7 of the one and bits 6 and 7 of the other, which are not the stages'.
pub proof fn lemma_if_gain_set<H: HardwareInterface>(
    chip: E4k,
    hw: H,
    gain: GainSetting,
    held: spec_fn(H, Place) -> int,
)
    requires
        record::is_memory(held),
        device::chip_reads_back(0xc8, held),
        Tuner::<H>::can_set_gain(chip, gain),
        Tuner::<H>::gained(chip, hw, gain).res is Ok,
    ensures
        ({
            let s = Tuner::<H>::gained(chip, hw, gain);
            let at = |reg: int| held(s.hw, Place::Chip { chip: 0xc8, reg });
            let before = |reg: int| held(hw, Place::Chip { chip: 0xc8, reg }) % 256;
            &&& s.res->Ok_0 matches Gain::Tenths(t) && at(0x16) == before(0x16) / 128 * 128 + if t
                >= 480 {
                2int
            } else {
                0
            }
            &&& at(0x17) == before(0x17) / 64 * 64
        }),
{
    device::lemma_byte_held::<H>(0xc8, held);
    let steps: Seq<i32> = E4K_GAIN_STEPS@;
    tuner::lemma_nearest_exists(steps, gain.tenths);
    let n = tuner::nearest(steps, gain.tenths);
    assert(forall|j: int| 0 <= j < 18 ==> -10 <= #[trigger] E4K_GAIN_STEPS@[j] <= 490);
    let total = whole_db(steps[n] as int);
    reveal_with_fuel(Session::stages, 7);
    reveal_with_fuel(left_after, 7);
    let front = front_set(chip, hw, total);
    let s1 = front.stage(1, stage_db(total, 1));
    let s2 = s1.stage(2, stage_db(total, 2));
    let s3 = s2.stage(3, stage_db(total, 3));
    let s4 = s3.stage(4, stage_db(total, 4));
    let s5 = s4.stage(5, stage_db(total, 5));
    let s6 = s5.stage(6, stage_db(total, 6));
    assert(amplifiers_set(chip, hw, total) == s6);
    let two: u8 = if total >= 48 {
        1
    } else {
        0
    };
    assert(stage_field(1, stage_db(total, 1)).3 == 0);
    assert(stage_field(2, stage_db(total, 2)).3 == two);
    assert(stage_field(3, stage_db(total, 3)).3 == 0);
    assert(stage_field(4, stage_db(total, 4)).3 == 0);
    assert(stage_field(5, stage_db(total, 5)).3 == 0);
    assert(stage_field(6, stage_db(total, 6)).3 == 0);
    let p16 = Place::Chip { chip: 0xc8, reg: 0x16 };
    let p17 = Place::Chip { chip: 0xc8, reg: 0x17 };
    let a = (held(hw, p16) % 256) as u8;
    let b = (held(hw, p17) % 256) as u8;
    assert(held(front.hw, p16) == held(hw, p16) && held(front.hw, p17) == held(hw, p17));
    let a1 = (a & !0x01u8) | (0u8 << 0u8);
    let a2 = (a1 & !0x06u8) | (two << 1u8);
    let a3 = (a2 & !0x18u8) | (0u8 << 3u8);
    let a4 = (a3 & !0x60u8) | (0u8 << 5u8);
    let b1 = (b & !0x07u8) | (0u8 << 0u8);
    let b2 = (b1 & !0x38u8) | (0u8 << 3u8);
    assert(held(s1.hw, p16) == a1 && held(s1.hw, p17) == held(hw, p17));
    assert(held(s2.hw, p16) == a2 && held(s2.hw, p17) == held(hw, p17));
    assert(held(s3.hw, p16) == a3 && held(s3.hw, p17) == held(hw, p17));
    assert(held(s4.hw, p16) == a4 && held(s4.hw, p17) == held(hw, p17));
    assert(held(s5.hw, p16) == a4 && held(s5.hw, p17) == b1);
    assert(held(s6.hw, p16) == a4 && held(s6.hw, p17) == b2);
    assert(a4 == a / 128 * 128 + two * 2 && b2 == b / 64 * 64) by (bit_vector)
        requires
            two < 2,
            a1 == (a & !0x01u8) | (0u8 << 0u8),
            a2 == (a1 & !0x06u8) | (two << 1u8),
            a3 == (a2 & !0x18u8) | (0u8 << 3u8),
            a4 == (a3 & !0x60u8) | (0u8 << 5u8),
            b1 == (b & !0x07u8) | (0u8 << 0u8),
            b2 == (b1 & !0x38u8) | (0u8 << 3u8),
    ;
}

/// Setting the IF stages leaves the low-noise amplifier and the mixer alone.
proof fn lemma_stages_keep<H: HardwareInterface>(
    start: Session<E4k, H, ()>,
    total: int,
    n: nat,
    held: spec_fn(H, Place) -> int,
)
    requires
        record::is_memory(held),
        n <= 6,
    ensures
        ({
            let s = start.stages(total, n);
            &&& s.res is Ok ==> start.res is Ok
            &&& s.chip == start.chip
            &&& forall|reg: int|
                #![trigger held(s.hw, Place::Chip { chip: 0xc8, reg })]
                reg != 0x16 && reg != 0x17 ==> held(s.hw, Place::Chip { chip: 0xc8, reg }) == held(
                    start.hw,
                    Place::Chip { chip: 0xc8, reg },
                )
        }),
    decreases n,
{
    if n > 0 {
        device::lemma_byte_held::<H>(0xc8, held);
        lemma_stages_keep(start, total, (n - 1) as nat, held);
        let before = start.stages(total, (n - 1) as nat);
        let s = start.stages(total, n);
        assert forall|reg: int|
            #![trigger held(s.hw, Place::Chip { chip: 0xc8, reg })]
            reg != 0x16 && reg != 0x17 implies held(s.hw, Place::Chip { chip: 0xc8, reg }) == held(
            start.hw,
            Place::Chip { chip: 0xc8, reg },
        ) by {
            assert(held(before.hw, Place::Chip { chip: 0xc8, reg }) == held(
                start.hw,
                Place::Chip { chip: 0xc8, reg },
            ));
        }
    }
}

/// The gain steps rise from -1 dB to 49 dB.
pub proof fn lemma_steps_rise(a: int, b: int)
    requires
        0 <= a < b < 18,
    ensures
        E4K_GAIN_STEPS@[0] == -10,
        E4K_GAIN_STEPS@[17] == 490,
        E4K_GAIN_STEPS@[a] < E4K_GAIN_STEPS@[b],
{
    let steps = E4K_GAIN_STEPS@;
    assert(forall|i: int, j: int| 0 <= i < j < 18 ==> steps[i] < steps[j]);
}

/// After the chip has been initialized, it has been reset, runs from the reference clock
/// without a divider, its filters are set, the calibration of its DC offsets has been
/// started, and its gain is 19 dB, the step nearest to 20 dB.
#[verifier::rlimit(30)]
pub proof fn lemma_initial_registers<H: HardwareInterface>(
    chip: E4k,
    hw: H,
    held: spec_fn(H, Place) -> int,
)
    requires
        record::is_memory(held),
        Tuner::<H>::initialized(chip, hw).res is Ok,
    ensures
        ({
            let s = Tuner::<H>::initialized(chip, hw);
            let at = |reg: int| held(s.hw, Place::Chip { chip: 0xc8, reg });
            &&& at(0x00) == 0x01 && at(0x05) == 0x00 && at(0x06) == 0x00
            &&& at(0x7e) == 0x01 && at(0x7f) == 0xfe && at(0x82) == 0x00 && at(0x86) == 0x50
            &&& at(0x87) == 0x2c && at(0x88) == 0x01 && at(0x9f) == 0x7f && at(0xa0) == 0x07
            &&& at(0x10) == 0x03 && at(0x11) == 0x04 && at(0x12) == 0x01
            &&& at(0x14) == 3 && at(0x15) == 0
            &&& at(0x1e) == 0x01
            &&& Tuner::<H>::gain(s.chip) == Gain::Tenths(190)
        }),
{
    device::lemma_byte_held::<H>(0xc8, held);
    let ready = reset_and_filters(chip, hw);
    let steps: Seq<i32> = E4K_GAIN_STEPS@;
    assert(steps[8] == 190);
    assert(forall|j: int| 0 <= j < 18 && j != 8 ==> tuner::distance(#[trigger] steps[j], 200) > 10);
    assert(tuner::is_nearest_step(steps, 200, 8));
    tuner::lemma_nearest_step_unique(steps, 200, 8, tuner::nearest(steps, 200));
    let front = front_set(ready.chip, ready.hw, 19);
    lemma_stages_keep(front, 19, 6, held);
    assert(whole_db(190) == 19);
}

/// The driver's crystal is corrected by `ppm` millionths, to within a Hertz.
pub proof fn lemma_ppm_corrects_chip<H: HardwareInterface>(chip: E4k, ppm: i32)
    requires
        Tuner::<H>::can_set_ppm(chip, ppm),
        ppm >= -1_000_000,
    ensures
        ({
            let after = Tuner::<H>::with_ppm(chip, ppm);
            &&& -1_000_000 < 1_000_000 * after.xtal_freq - chip.nominal_xtal * (1_000_000 + ppm)
                < 1_000_000
            &&& after == (E4k { xtal_freq: after.xtal_freq, ..chip })
        }),
{
    tuner::lemma_offset_is_ppm(chip.nominal_xtal, ppm);
}

/// A Zero-IF chip takes no intermediate frequency and reports none; bandwidth, inputs and
/// gain steps by number change nothing either.
pub proof fn lemma_nothing_to_set<H: HardwareInterface>(
    chip: E4k,
    hw: H,
    if_hz: u64,
    bandwidth_hz: u32,
    path: InputPath,
    idx: usize,
)
    ensures
        Tuner::<H>::if_hz(chip) == 0,
        Tuner::<H>::if_set(chip, hw, if_hz) == Session::begin(chip, hw),
        Tuner::<H>::bandwidth_set(chip, hw, bandwidth_hz) == Session::begin(chip, hw),
        Tuner::<H>::path_set(chip, hw, path) == Session::begin(chip, hw),
        Tuner::<H>::gained_by_index(chip, hw, idx).hw == hw,
        Tuner::<H>::gained_by_index(chip, hw, idx).chip == chip,
        Tuner::<H>::gained_by_index(chip, hw, idx).res == Result::<Gain>::Ok(
            Tuner::<H>::gain(chip),
        ),
        Tuner::<H>::filters(chip) == seq![
            FilterRange { start_hz: 64_000_000, end_hz: 1_700_000_000 },
        ],
{
}

/// Of the dividers that would put the VCO into its range the smallest is taken: with any
/// smaller one the VCO would run too slow.
pub proof fn lemma_smallest_divider(hz: u64, c: int)
    requires
        54_166_667 <= hz <= 975_000_000,
        0 <= c < divider_of(hz).1,
    ensures
        hz * ((if c % 2 == 0 {
            4int
        } else {
            6
        }) * pow2((c / 2) as nat)) < 2_600_000_000,
        divider_of(hz).1 < 8,
{
    lemma_coverage(hz);
    lemma_divider_of_code(hz);
    lemma2_to64();
    let i = if in_vco_range(hz * 4) {
        0int
    } else if in_vco_range(hz * 6) {
        1
    } else if in_vco_range(hz * 8) {
        2
    } else if in_vco_range(hz * 12) {
        3
    } else if in_vco_range(hz * 16) {
        4
    } else if in_vco_range(hz * 24) {
        5
    } else if in_vco_range(hz * 32) {
        6
    } else {
        7
    };
    assert(is_divider(hz, i));
    lemma_one_divider(hz, i, choose|k: int| is_divider(hz, k));
    let d = (if c % 2 == 0 {
        4int
    } else {
        6
    }) * pow2((c / 2) as nat);
    assert(d == 4 || d == 6 || d == 8 || d == 12 || d == 16 || d == 24 || d == 32);
}

/// A frequency that no divider serves is refused, and nothing is written.
pub proof fn lemma_unreachable_refused<H: HardwareInterface>(chip: E4k, hw: H, hz: u64)
    requires
        hz < 54_166_667 || hz > 975_000_000,
    ensures
        Tuner::<H>::tuned(chip, hw, hz).res == Result::<u64>::Err(Error::InvalidFrequency(hz)),
        Tuner::<H>::tuned(chip, hw, hz).hw == hw,
{
    lemma_coverage(hz);
}

/// Where the hardware performs everything, every gain within reach can be set.
pub proof fn lemma_gain_succeeds<H: HardwareInterface>(chip: E4k, hw: H, gain: GainSetting)
    requires
        record::is_willing::<H>(),
    ensures
        Tuner::<H>::gained(chip, hw, gain).res is Ok,
        -1_000_000_000 <= gain.tenths <= 1_000_000_000 ==> Tuner::<H>::can_set_gain(chip, gain),
{
    device::lemma_tuner_writes_performed::<H>(0xc8);
    assert(forall|j: int| 0 <= j < 18 ==> -10 <= #[trigger] E4K_GAIN_STEPS@[j] <= 490);
    let total = whole_db(E4K_GAIN_STEPS@[tuner::nearest(E4K_GAIN_STEPS@, gain.tenths)] as int);
    lemma_stages_succeed(front_set(chip, hw, total), total, 6);
}

proof fn lemma_stages_succeed<H: HardwareInterface>(
    start: Session<E4k, H, ()>,
    total: int,
    n: nat,
)
    requires
        record::is_willing::<H>(),
        start.res is Ok,
        n <= 6,
    ensures
        start.stages(total, n).res is Ok,
    decreases n,
{
    device::lemma_tuner_writes_performed::<H>(0xc8);
    if n > 0 {
        lemma_stages_succeed(start, total, (n - 1) as nat);
    }
}

/// Where the hardware performs everything, the chip can be initialized.
pub proof fn lemma_initialization_succeeds<H: HardwareInterface>(chip: E4k, hw: H)
    requires
        record::is_willing::<H>(),
    ensures
        Tuner::<H>::initialized(chip, hw).res is Ok,
{
    device::lemma_tuner_writes_performed::<H>(0xc8);
    let ready = reset_and_filters(chip, hw);
    let total = whole_db(E4K_GAIN_STEPS@[tuner::nearest(E4K_GAIN_STEPS@, 200)] as int);
    lemma_stages_succeed(front_set(ready.chip, ready.hw, total), total, 6);
}

/// Tuning changes nothing but registers 0x07, 0x09 to 0x0b and 0x0d of the chip and the
/// switch of the I2C repeater.
pub proof fn lemma_tuning_changes_only<H: HardwareInterface>(
    chip: E4k,
    hw: H,
    hz: u64,
    held: spec_fn(H, Place) -> int,
    place: Place,
)
    requires
        record::is_memory(held),
        place != (Place::Demod { page: 1, addr: 0x01 }),
        place matches Place::Chip { chip: c, reg } ==> c != 0xc8 || reg < 0x07 || reg == 0x08 || reg
            == 0x0c || reg > 0x0d,
    ensures
        held(Tuner::<H>::tuned(chip, hw, hz).hw, place) == held(hw, place),
{
    device::lemma_byte_keeps::<H>(0xc8, held, place);
}

} // verus!
