//! FC0012 / FC0013 Fitipower tuner chip driver.
//!
//! These are older fractional-N PLL tuners often found in generic RTL-SDR dongles.
//! They use a multi-stage divider system to derive the LO from a 28.8 MHz crystal.
use crate::device::{self, HardwareInterface, HardwareRoutines};
use crate::error::{Error, Result, TunerFault};
use crate::record::{self, Place};
use crate::registers::tuner_ids::{FC0012_CHIP_ID, FC0013_CHIP_ID};
use crate::tuner::{FilterRange, Gain, GainSetting, InputPath, Session, Tuner, TunerType};
use vstd::prelude::*;

verus! {

/// The driver of one chip.
pub struct Fc001x {
    pub tuner_type: TunerType,
    pub i2c_addr: u8,
    pub xtal_freq: u64,
    pub current_gain: Gain,
    pub current_if: u64,
}

/// Registers and what they hold after initialization.
pub const INIT_REGS: [(u8, u8); 15] = [
    (0x07, 0x20),
    (0x08, 0xff),
    (0x09, 0x6e),
    (0x0a, 0xb8),
    (0x0b, 0x82),
    (0x0c, 0x50),
    (0x0d, 0x01),
    (0x0e, 0x00),
    (0x0f, 0x00),
    (0x10, 0x00),
    (0x11, 0x00),
    (0x12, 0x00),
    (0x13, 0x00),
    (0x14, 0x00),
    (0x15, 0x00),
];

// ── Dividers ────────────────────────────────────────────────────────────────
/// The factor between the local oscillator and the VCO, and the setting of
/// register 5 that goes with it.
pub open spec fn multiplier(tuner_type: TunerType, lo_hz: int) -> (u8, u8) {
    if lo_hz < 300_000_000 {
        (32, 0x08)
    } else if lo_hz < 862_000_000 {
        (16, 0x00)
    } else if tuner_type == TunerType::FC0012 {
        (4, 0x0a)
    } else if lo_hz < 948_600_000 {
        (4, 0x12)
    } else {
        (2, 0x0a)
    }
}

/// The VCO frequency for a local oscillator frequency.
pub open spec fn vco_of(tuner_type: TunerType, lo_hz: int) -> int {
    lo_hz * multiplier(tuner_type, lo_hz).0
}

/// How often half the crystal frequency goes into the VCO frequency, as a 16-bit
/// number, rounded to the nearest.
pub open spec fn xdiv_of(vco_hz: int, half_xtal: int) -> int {
    let q = vco_hz / half_xtal % 65536;
    if vco_hz - q * half_xtal >= half_xtal / 2 {
        q + 1
    } else {
        q
    }
}

/// The swallow and main counters: `xdiv` is `8 * pm + am`, with `am` at least 2.
pub open spec fn counters(xdiv: int) -> (int, int) {
    let pm = xdiv / 8 % 256;
    let am = xdiv % 8;
    if am < 2 {
        (
            am + 8,
            if pm == 0 {
                0
            } else {
                pm - 1
            },
        )
    } else {
        (am, pm)
    }
}

/// What registers 1 and 2 are to hold: the main counter goes up to 31, and what
/// is above that is counted by the swallow counter.
pub open spec fn counter_regs(xdiv: int) -> (int, int) {
    let (am, pm) = counters(xdiv);
    if pm > 31 {
        (am + 8 * (pm - 31), 31)
    } else {
        (am, pm)
    }
}

/// The main counter may not be smaller.
pub const MIN_MAIN_COUNT: u8 = 0x0b;

/// The swallow counter may not be larger, but in the middle band.
pub const MAX_SWALLOW_COUNT: u8 = 15;

/// Whether the local oscillator is in the middle band. The VCO runs so fast there that the
/// swallow counter has to count further.
pub open spec fn in_middle_band(lo_hz: int) -> bool {
    300_000_000 <= lo_hz < 862_000_000
}

/// Whether registers 1 and 2 may hold these counters.
pub open spec fn are_valid(lo_hz: int, reg1: int, reg2: int) -> bool {
    &&& reg2 >= MIN_MAIN_COUNT
    &&& reg1 <= MAX_SWALLOW_COUNT || in_middle_band(lo_hz)
}

/// From here on the high VCO is used, in Hz.
pub const HIGH_VCO_HZ: u64 = 3_060_000_000;

/// While the divider fits in its 16 bits, it brings the VCO to within half a step
/// of what was asked for.
pub proof fn lemma_xdiv_nearest(vco_hz: int, half_xtal: int)
    requires
        0 <= vco_hz,
        0 < half_xtal,
        vco_hz / half_xtal < 65535,
    ensures
        -half_xtal <= 2 * (xdiv_of(vco_hz, half_xtal) * half_xtal - vco_hz) <= half_xtal + 1,
{
    let q = vco_hz / half_xtal;
    vstd::arithmetic::div_mod::lemma_fundamental_div_mod(vco_hz, half_xtal);
    vstd::arithmetic::div_mod::lemma_mod_bound(vco_hz, half_xtal);
    vstd::arithmetic::div_mod::lemma_div_pos_is_pos(vco_hz, half_xtal);
    vstd::arithmetic::div_mod::lemma_small_mod(q as nat, 65536);
    assert(q * half_xtal == half_xtal * q) by (nonlinear_arith);
    assert((q + 1) * half_xtal == q * half_xtal + half_xtal) by (nonlinear_arith);
}

/// The two counters make up the divider: `8 * main + swallow` is `xdiv` again.
pub proof fn lemma_counters_make_divider(xdiv: int)
    requires
        10 <= xdiv < 2048,
    ensures
        8 * counter_regs(xdiv).1 + counter_regs(xdiv).0 == xdiv,
        counter_regs(xdiv).0 >= 2,
        counter_regs(xdiv).1 <= 31,
{
}

impl<H: HardwareInterface> Session<Fc001x, H, ()> {
    /// Followed by a write of `val` to register `reg`.
    pub open spec fn write(self, reg: u8, val: u8) -> Self {
        self.exchange(|h: H| device::tuner_write(h, self.chip.i2c_addr, reg, seq![val]))
    }

    /// Followed by the first `n` of the initial registers being written.
    pub open spec fn init_regs(self, n: nat) -> Self
        decreases n,
    {
        if n == 0 {
            self
        } else {
            let (reg, val) = INIT_REGS[n - 1];
            self.init_regs((n - 1) as nat).write(reg, val)
        }
    }
}

/// Once a register could not be written, the registers after it are left alone.
proof fn lemma_failed_regs_stay<H: HardwareInterface>(
    start: Session<Fc001x, H, ()>,
    n: nat,
    m: nat,
)
    requires
        n <= m,
        start.init_regs(n).res is Err,
    ensures
        start.init_regs(m) == start.init_regs(n),
    decreases m - n,
{
    if n < m {
        lemma_failed_regs_stay(start, n, (m - 1) as nat);
    }
}

/// Whether a chip of this type may carry the identity `id`.
pub open spec fn is_identity(tuner_type: TunerType, id: u8) -> bool {
    match tuner_type {
        TunerType::FC0012 => id == FC0012_CHIP_ID,
        // Some FC0013 report the identity of the FC0012.
        TunerType::FC0013 => id == FC0013_CHIP_ID || id == FC0012_CHIP_ID,
        _ => true,
    }
}

/// The registers written once the chip has been identified.
pub open spec fn registers_set<H: HardwareInterface>(chip: Fc001x, hw: H) -> Session<
    Fc001x,
    H,
    (),
> {
    let done = Session::begin(chip, hw).init_regs(15);
    if chip.tuner_type == TunerType::FC0013 {
        done.write(0x16, 0x00)
    } else {
        done
    }
}

impl Fc001x {
    /// The local oscillator for a frequency.
    pub open spec fn lo_of(self, hz: u64) -> int {
        hz + self.current_if
    }

    /// The divider for a frequency.
    pub open spec fn xdiv_for(self, hz: u64) -> int {
        xdiv_of(vco_of(self.tuner_type, self.lo_of(hz)), self.xtal_freq as int / 2)
    }

    pub fn new(tuner_type: TunerType, i2c_addr: u8, xtal_hz: u64) -> (chip: Self)
        ensures
            chip == (Fc001x {
                tuner_type,
                i2c_addr,
                xtal_freq: xtal_hz,
                current_gain: Gain::Tenths(0),
                current_if: 0,
            }),
    {
        Fc001x {
            tuner_type,
            i2c_addr,
            xtal_freq: xtal_hz,
            current_gain: Gain::Tenths(0),
            current_if: 0,
        }
    }

    fn write_reg<H: HardwareInterface>(&self, hw: &mut H, reg: u8, val: u8) -> (res: Result<()>)
        requires
            reg < 255,
        ensures
            (Session { chip: *self, hw: *final(hw), res }) == Session::begin(
                *self,
                *old(hw),
            ).write(reg, val),
    {
        let data: [u8; 1] = [val];
        assert(data@ =~= seq![val]);
        hw.i2c_write_tuner(self.i2c_addr, reg, &data)
    }

    fn read_reg<H: HardwareInterface>(&self, hw: &mut H, reg: u8) -> (res: Result<u8>)
        ensures
            ({
                let read = device::tuner_read(*old(hw), self.i2c_addr, reg, 1);
                &&& *final(hw) == read.hw
                &&& res == match read.res {
                    Ok(data) => if data.len() == 0 {
                        Err(Error::I2c { addr: self.i2c_addr })
                    } else {
                        Ok(data[0])
                    },
                    Err(e) => Err(e),
                }
            }),
    {
        let data: Vec<u8> = hw.i2c_read_tuner(self.i2c_addr, reg, 1)?;
        if data.len() == 0 {
            return Err(Error::I2c { addr: self.i2c_addr });
        }
        Ok(data[0])
    }

    fn set_registers<H: HardwareInterface>(&self, hw: &mut H) -> (res: Result<()>)
        ensures
            (Session { chip: *self, hw: *final(hw), res }) == registers_set(*self, *old(hw)),
    {
        let ghost start = Session::begin(*self, *hw);
        let mut i: usize = 0;
        while i < 15
            invariant
                i <= 15,
                start == Session::begin(*self, *old(hw)),
                (Session { chip: *self, hw: *hw, res: Result::<()>::Ok(()) }) == start.init_regs(
                    i as nat,
                ),
            decreases 15 - i,
        {
            let (reg, val) = INIT_REGS[i];
            assert(reg < 255) by {
                assert(forall|j: int| 0 <= j < 15 ==> (#[trigger] INIT_REGS[j]).0 < 255);
            }
            let res = self.write_reg(hw, reg, val);
            proof {
                if res is Err {
                    lemma_failed_regs_stay(start, (i + 1) as nat, 15);
                }
            }
            res?;
            i = i + 1;
        }
        if self.tuner_type == TunerType::FC0013 {
            self.write_reg(hw, 0x16, 0x00)?;
        }
        Ok(())
    }

    /// The factor between the local oscillator and the VCO, and register 5.
    fn find_multiplier(&self, lo_hz: u64) -> (r: (u8, u8))
        ensures
            r == multiplier(self.tuner_type, lo_hz as int),
    {
        if lo_hz < 300_000_000 {
            (32, 0x08)
        } else if lo_hz < 862_000_000 {
            (16, 0x00)
        } else if self.tuner_type == TunerType::FC0012 {
            (4, 0x0a)
        } else if lo_hz < 948_600_000 {
            (4, 0x12)
        } else {
            (2, 0x0a)
        }
    }
}

/// Rounds the VCO frequency to a multiple of half the crystal frequency.
fn divide(vco_hz: u64, half_xtal: u64) -> (xdiv: u32)
    requires
        half_xtal > 0,
    ensures
        xdiv == xdiv_of(vco_hz as int, half_xtal as int),
        xdiv <= 65536,
{
    let q: u64 = vco_hz / half_xtal % 65536;
    proof {
        vstd::arithmetic::div_mod::lemma_fundamental_div_mod(vco_hz as int, half_xtal as int);
        vstd::arithmetic::div_mod::lemma_mod_bound(vco_hz as int, half_xtal as int);
        assert(0 <= q * half_xtal <= half_xtal * (vco_hz as int / half_xtal as int))
            by (nonlinear_arith)
            requires
                0 <= q <= vco_hz as int / half_xtal as int,
                half_xtal >= 0,
        ;
    }
    if vco_hz - q * half_xtal >= half_xtal / 2 {
        (q + 1) as u32
    } else {
        q as u32
    }
}

/// Splits the divider into what registers 1 and 2 are to hold.
fn split_counters(xdiv: u32) -> (regs: (u32, u32))
    ensures
        regs.0 == counter_regs(xdiv as int).0,
        regs.1 == counter_regs(xdiv as int).1,
{
    let mut pm: u32 = xdiv / 8 % 256;
    let mut am: u32 = xdiv % 8;
    if am < 2 {
        am = am + 8;
        if pm > 0 {
            pm = pm - 1;
        }
    }
    if pm > 31 {
        (am + 8 * (pm - 31), 31)
    } else {
        (am, pm)
    }
}

impl<H: HardwareInterface> Tuner<H> for Fc001x {
    open spec fn initialized(self, hw: H) -> Session<Self, H, ()> {
        let addr = self.i2c_addr;
        Session::begin(self, hw).write(0x00, 0x00).chain(
            |c: Fc001x, h: H|
                {
                    let read = device::tuner_read(h, addr, 0x00, 1);
                    match read.res {
                        Err(e) => Session { chip: c, hw: read.hw, res: Err(e) },
                        Ok(data) => if data.len() == 0 {
                            Session { chip: c, hw: read.hw, res: Err(Error::I2c { addr }) }
                        } else if !is_identity(self.tuner_type, data[0]) {
                            Session {
                                chip: c,
                                hw: read.hw,
                                res: Err(
                                    Error::Tuner(
                                        TunerFault::IdMismatch {
                                            expected: self.tuner_type,
                                            id: data[0],
                                        },
                                    ),
                                ),
                            }
                        } else {
                            registers_set(c, read.hw)
                        },
                    }
                },
        )
    }

    open spec fn can_tune(self, hz: u64) -> bool {
        &&& self.lo_of(hz) <= u64::MAX
        &&& vco_of(self.tuner_type, self.lo_of(hz)) <= u64::MAX
        &&& self.xtal_freq >= 2
        &&& self.xdiv_for(hz) <= 65535
        &&& counter_regs(self.xdiv_for(hz)).0 <= 255
    }

    open spec fn tuned(self, hw: H, hz: u64) -> Session<Self, H, u64> {
        let lo_hz = self.lo_of(hz);
        let reg5 = multiplier(self.tuner_type, lo_hz).1;
        let reg6 = if vco_of(self.tuner_type, lo_hz) >= HIGH_VCO_HZ {
            0x0a
        } else {
            0x02
        };
        let (reg1, reg2) = counter_regs(self.xdiv_for(hz));
        if !are_valid(lo_hz, reg1, reg2) {
            Session { chip: self, hw, res: Err(Error::InvalidFrequency(hz)) }
        } else {
            let set = Session::begin(self, hw).write(0x05, reg5).write(0x06, reg6).write(
                0x01,
                reg1 as u8,
            ).write(0x02, reg2 as u8);
            let done = if self.tuner_type == TunerType::FC0013 && hz > 862_000_000 {
                set.write(0x16, 0x0c)
            } else {
                set
            };
            done.chain(|c: Fc001x, h: H| Session { chip: c, hw: h, res: Ok(hz) })
        }
    }

    open spec fn can_set_gain(self, gain: GainSetting) -> bool {
        true
    }

    open spec fn gained(self, hw: H, gain: GainSetting) -> Session<Self, H, Gain> {
        // At 0 dB and below the chip chooses its gain itself.
        let auto_gain = gain.db.is_number() && (gain.db.is_negative() || gain.db.magnitude() == 0);
        Session::begin(self, hw).write(
            0x0d,
            if auto_gain {
                0x00
            } else {
                0x01
            },
        ).chain(
            |c: Fc001x, h: H|
                Session {
                    chip: Fc001x { current_gain: Gain::Exact(gain.db), ..c },
                    hw: h,
                    res: Ok(Gain::Exact(gain.db)),
                },
        )
    }

    open spec fn gain(self) -> Gain {
        self.current_gain
    }

    open spec fn filters(self) -> Seq<FilterRange> {
        seq![
            FilterRange {
                start_hz: 22_000_000,
                end_hz: if self.tuner_type == TunerType::FC0012 {
                    948_000_000
                } else {
                    1_100_000_000
                },
            },
        ]
    }

    open spec fn if_set(self, hw: H, hz: u64) -> Session<Self, H, ()> {
        Session::begin(Fc001x { current_if: hz, ..self }, hw)
    }

    open spec fn if_hz(self) -> u64 {
        self.current_if
    }

    open spec fn bandwidth_set(self, hw: H, hz: u32) -> Session<Self, H, ()> {
        Session::begin(self, hw)
    }

    open spec fn can_set_ppm(self, ppm: i32) -> bool {
        true
    }

    open spec fn with_ppm(self, ppm: i32) -> Self {
        self
    }

    open spec fn path_set(self, hw: H, path: InputPath) -> Session<Self, H, ()> {
        Session::begin(self, hw)
    }

    open spec fn with_notch(self, in_notch_band: bool) -> Self {
        self
    }

    open spec fn steps(self) -> Seq<i32> {
        Seq::empty()
    }

    open spec fn gained_by_index(self, hw: H, idx: usize) -> Session<Self, H, Gain> {
        Session { chip: self, hw, res: Ok(self.current_gain) }
    }

    proof fn lemma_notch_keeps_range(self, in_notch_band: bool, hz: u64) {
    }

    fn initialize(&mut self, hw: &mut H) -> (res: Result<()>) {
        self.write_reg(hw, 0x00, 0x00)?;
        let id: u8 = self.read_reg(hw, 0x00)?;
        let known = match self.tuner_type {
            TunerType::FC0012 => id == FC0012_CHIP_ID,
            TunerType::FC0013 => id == FC0013_CHIP_ID || id == FC0012_CHIP_ID,
            _ => true,
        };
        if !known {
            return Err(Error::Tuner(TunerFault::IdMismatch { expected: self.tuner_type, id }));
        }
        self.set_registers(hw)
    }

    fn is_tunable(&self, hz: u64) -> (b: bool) {
        if hz > u64::MAX - self.current_if || self.xtal_freq < 2 {
            return false;
        }
        let lo_hz: u64 = hz + self.current_if;
        let (multi, _) = self.find_multiplier(lo_hz);
        assert(0 <= lo_hz * multi <= u64::MAX * 32) by (nonlinear_arith)
            requires
                0 <= lo_hz <= u64::MAX,
                0 <= multi <= 32,
        ;
        let vco: u128 = lo_hz as u128 * multi as u128;
        if vco > u64::MAX as u128 {
            return false;
        }
        let xdiv: u32 = divide(vco as u64, self.xtal_freq / 2);
        let (reg1, _) = split_counters(xdiv);
        xdiv <= 65535 && reg1 <= 255
    }

    fn set_frequency(&mut self, hw: &mut H, hz: u64) -> (res: Result<u64>) {
        let lo_freq: u64 = hz + self.current_if;
        let (multi, reg5) = self.find_multiplier(lo_freq);

        // Register 6 selects the VCO and the fractional mode.
        let f_vco: u64 = lo_freq * multi as u64;
        let reg6: u8 = if f_vco >= HIGH_VCO_HZ {
            0x0a
        } else {
            0x02
        };

        let xdiv: u32 = divide(f_vco, self.xtal_freq / 2);
        let (reg1, reg2) = split_counters(xdiv);
        let in_middle = lo_freq >= 300_000_000 && lo_freq < 862_000_000;
        if reg2 < MIN_MAIN_COUNT as u32 || (reg1 > MAX_SWALLOW_COUNT as u32 && !in_middle) {
            return Err(Error::InvalidFrequency(hz));
        }
        self.write_reg(hw, 0x05, reg5)?;
        self.write_reg(hw, 0x06, reg6)?;
        self.write_reg(hw, 0x01, reg1 as u8)?;
        self.write_reg(hw, 0x02, reg2 as u8)?;
        if self.tuner_type == TunerType::FC0013 && hz > 862_000_000 {
            self.write_reg(hw, 0x16, 0x0c)?;
        }
        Ok(hz)
    }

    fn is_gain_settable(&self, gain: GainSetting) -> (b: bool) {
        true
    }

    fn set_gain(&mut self, hw: &mut H, gain: GainSetting) -> (res: Result<Gain>) {
        if gain.db.at_most_zero() {
            self.write_reg(hw, 0x0d, 0x00)?;
        } else {
            self.write_reg(hw, 0x0d, 0x01)?;
        }
        self.current_gain = Gain::Exact(gain.db);
        Ok(Gain::Exact(gain.db))
    }

    fn get_gain(&self) -> (res: Result<Gain>) {
        Ok(self.current_gain)
    }

    fn get_filters(&self) -> (ranges: Vec<FilterRange>) {
        let end_hz: u64 = if self.tuner_type == TunerType::FC0012 {
            948_000_000
        } else {
            1_100_000_000
        };
        let mut ranges: Vec<FilterRange> = Vec::new();
        ranges.push(FilterRange { start_hz: 22_000_000, end_hz });
        ranges
    }

    fn set_if_freq(&mut self, hw: &mut H, hz: u64) -> (res: Result<()>) {
        self.current_if = hz;
        Ok(())
    }

    fn get_if_freq(&self) -> (hz: u64) {
        self.current_if
    }

    fn set_bandwidth(&mut self, hw: &mut H, hz: u32) -> (res: Result<()>) {
        Ok(())
    }

    fn is_ppm_settable(&self, ppm: i32) -> (b: bool) {
        true
    }

    fn set_ppm(&mut self, ppm: i32) -> (res: Result<()>) {
        // The correction of these chips goes through the intermediate frequency.
        Ok(())
    }

    fn set_input_path(&mut self, hw: &mut H, path: InputPath) -> (res: Result<()>) {
        Ok(())
    }

    fn apply_notch(&mut self, in_notch_band: bool) -> (res: Result<()>) {
        Ok(())
    }

    fn set_gain_by_index(&mut self, hw: &mut H, idx: usize) -> (res: Result<Gain>) {
        Ok(self.current_gain)
    }

    fn get_gain_table(&self) -> (steps: Vec<i32>) {
        Vec::new()
    }
}

// ── Laws ────────────────────────────────────────────────────────────────────
/// After a tuning that succeeded, the counters in registers 0x01 and 0x02 make the VCO run
/// within half a step, which is half the crystal frequency, of the local oscillator's
/// frequency times the multiplier: 32 below 300 MHz, 16 below 862 MHz, 4 above that, and on
/// an FC0013 2 from 948.6 MHz on. The local oscillator runs above what was asked for by the
/// intermediate frequency that the driver reports. Registers 0x05 and 0x06 select the
/// multiplier and the VCO, of which the high one serves from 3.06 GHz on.
pub proof fn lemma_counters_tuned<H: HardwareInterface>(
    chip: Fc001x,
    hw: H,
    hz: u64,
    held: spec_fn(H, Place) -> int,
)
    requires
        record::is_memory(held),
        Tuner::<H>::can_tune(chip, hz),
        Tuner::<H>::tuned(chip, hw, hz).res is Ok,
        // The VCO is no more than 2046 steps up.
        32 * (hz + Tuner::<H>::if_hz(chip)) < 2046 * (chip.xtal_freq as int / 2),
    ensures
        ({
            let after = Tuner::<H>::tuned(chip, hw, hz).hw;
            let at = |reg: int| held(after, Place::Chip { chip: chip.i2c_addr, reg });
            let lo_hz = hz + Tuner::<H>::if_hz(chip);
            let half = chip.xtal_freq as int / 2;
            let fc0012 = chip.tuner_type == TunerType::FC0012;
            let vco = lo_hz * if lo_hz < 300_000_000 {
                32int
            } else if lo_hz < 862_000_000 {
                16
            } else if fc0012 || lo_hz < 948_600_000 {
                4
            } else {
                2
            };
            &&& Tuner::<H>::tuned(chip, hw, hz).res->Ok_0 == hz
            &&& -half <= 2 * ((8 * at(0x02) + at(0x01)) * half - vco) <= half + 1
            &&& 2 <= at(0x01)
            &&& 11 <= at(0x02) <= 31
            &&& at(0x01) <= 15 || 300_000_000 <= lo_hz < 862_000_000
            &&& at(0x05) == if lo_hz < 300_000_000 {
                0x08int
            } else if lo_hz < 862_000_000 {
                0x00
            } else if fc0012 || lo_hz >= 948_600_000 {
                0x0a
            } else {
                0x12
            }
            &&& at(0x06) == if vco >= 3_060_000_000 {
                0x0aint
            } else {
                0x02
            }
            &&& chip.tuner_type == TunerType::FC0013 && hz > 862_000_000 ==> at(0x16) == 0x0c
        }),
{
    device::lemma_byte_held::<H>(chip.i2c_addr, held);
    let lo_hz = chip.lo_of(hz);
    let half = chip.xtal_freq as int / 2;
    let vco = vco_of(chip.tuner_type, lo_hz);
    let m = multiplier(chip.tuner_type, lo_hz).0;
    assert(vco <= 32 * lo_hz) by (nonlinear_arith)
        requires
            vco == lo_hz * m,
            0 <= m <= 32,
            lo_hz >= 0,
    ;
    assert(vco / half < 2046) by (nonlinear_arith)
        requires
            vco < 2046 * half,
            half > 0,
    ;
    lemma_xdiv_nearest(vco, half);
    let xdiv = chip.xdiv_for(hz);
    let q = vco / half;
    vstd::arithmetic::div_mod::lemma_div_pos_is_pos(vco, half);
    vstd::arithmetic::div_mod::lemma_small_mod(q as nat, 65536);
    assert(0 <= xdiv <= 2046);
    let (reg1, reg2) = counter_regs(xdiv);
    assert(xdiv >= 10);
    lemma_counters_make_divider(xdiv);
    let reg5 = multiplier(chip.tuner_type, lo_hz).1;
    let reg6 = if vco >= HIGH_VCO_HZ {
        0x0au8
    } else {
        0x02
    };
    let s1 = Session::begin(chip, hw).write(0x05, reg5);
    let s2 = s1.write(0x06, reg6);
    let s3 = s2.write(0x01, reg1 as u8);
    let s4 = s3.write(0x02, reg2 as u8);
    let s5 = if chip.tuner_type == TunerType::FC0013 && hz > 862_000_000 {
        s4.write(0x16, 0x0c)
    } else {
        s4
    };
    assert(Tuner::<H>::tuned(chip, hw, hz).hw == s5.hw);
    assert(8 * reg2 + reg1 == xdiv);
}

/// A gain of at most zero leaves the gain to the chip, by 0 in register 0x0d; any other is
/// set by hand, by 1. The driver reports the level as it was asked for.
pub proof fn lemma_gain_by_hand_above_zero<H: HardwareInterface>(
    chip: Fc001x,
    hw: H,
    gain: GainSetting,
    held: spec_fn(H, Place) -> int,
)
    requires
        record::is_memory(held),
        Tuner::<H>::gained(chip, hw, gain).res is Ok,
    ensures
        ({
            let s = Tuner::<H>::gained(chip, hw, gain);
            let zero = crate::tuner::Decibels { bits: 0 };
            &&& held(s.hw, Place::Chip { chip: chip.i2c_addr, reg: 0x0d }) == if gain.db.is_number()
                && !zero.is_below(gain.db) {
                0int
            } else {
                1
            }
            &&& s.res->Ok_0 == Gain::Exact(gain.db)
            &&& Tuner::<H>::gain(s.chip) == Gain::Exact(gain.db)
        }),
{
    device::lemma_byte_held::<H>(chip.i2c_addr, held);
}

/// A chip is taken for what it is by its identity: an FC0012 by 0xa1, an FC0013 by 0x63 or,
/// as some report, 0xa1. Another identity is refused, before anything but register 0 has
/// been written; with the right one the initial registers are written.
#[verifier::rlimit(30)]
pub proof fn lemma_initial_registers<H: HardwareInterface>(
    chip: Fc001x,
    hw: H,
    held: spec_fn(H, Place) -> int,
    id: u8,
)
    requires
        record::is_memory(held),
        record::answers_byte::<H>(chip.i2c_addr, 0, id),
        chip.tuner_type == TunerType::FC0012 || chip.tuner_type == TunerType::FC0013,
    ensures
        ({
            let s = Tuner::<H>::initialized(chip, hw);
            let at = |reg: int| held(s.hw, Place::Chip { chip: chip.i2c_addr, reg });
            let known = id == 0xa1 || chip.tuner_type == TunerType::FC0013 && id == 0x63;
            &&& s.res is Ok ==> {
                &&& known
                &&& at(0x07) == 0x20 && at(0x08) == 0xff && at(0x09) == 0x6e && at(0x0a) == 0xb8
                &&& at(0x0b) == 0x82 && at(0x0c) == 0x50 && at(0x0d) == 0x01 && at(0x0e) == 0x00
                &&& at(0x0f) == 0x00 && at(0x10) == 0x00 && at(0x11) == 0x00 && at(0x12) == 0x00
                &&& at(0x13) == 0x00 && at(0x14) == 0x00 && at(0x15) == 0x00 && at(0x00) == 0x00
                &&& chip.tuner_type == TunerType::FC0013 ==> at(0x16) == 0x00
            }
            &&& !known ==> forall|reg: int|
                reg != 0 ==> #[trigger] held(
                    s.hw,
                    Place::Chip { chip: chip.i2c_addr, reg },
                ) == held(hw, Place::Chip { chip: chip.i2c_addr, reg })
        }),
{
    device::lemma_byte_held::<H>(chip.i2c_addr, held);
    let first = Session::begin(chip, hw).write(0x00, 0x00);
    let read = device::tuner_read(first.hw, chip.i2c_addr, 0x00, 1);
    let addr = chip.i2c_addr;
    assert forall|reg: int| true implies #[trigger] held(read.hw, Place::Chip { chip: addr, reg })
        == held(first.hw, Place::Chip { chip: addr, reg }) by {}
    if first.res is Ok && read.res is Ok && read.res->Ok_0.len() > 0 {
        assert(read.res->Ok_0[0] == id);
        reveal_with_fuel(Session::init_regs, 16);
    }
}

/// The intermediate frequency is only remembered, and what else can be asked of other chips
/// changes nothing. An FC0012 covers 22 to 948 MHz, an FC0013 22 MHz to 1.1 GHz.
pub proof fn lemma_nothing_to_set<H: HardwareInterface>(
    chip: Fc001x,
    hw: H,
    if_hz: u64,
    bandwidth_hz: u32,
    path: InputPath,
    ppm: i32,
    idx: usize,
)
    ensures
        Tuner::<H>::if_set(chip, hw, if_hz).hw == hw,
        Tuner::<H>::if_set(chip, hw, if_hz).res is Ok,
        Tuner::<H>::if_hz(Tuner::<H>::if_set(chip, hw, if_hz).chip) == if_hz,
        Tuner::<H>::bandwidth_set(chip, hw, bandwidth_hz) == Session::begin(chip, hw),
        Tuner::<H>::path_set(chip, hw, path) == Session::begin(chip, hw),
        Tuner::<H>::with_ppm(chip, ppm) == chip,
        Tuner::<H>::gained_by_index(chip, hw, idx).hw == hw,
        Tuner::<H>::gained_by_index(chip, hw, idx).res == Result::<Gain>::Ok(
            Tuner::<H>::gain(chip),
        ),
        Tuner::<H>::filters(chip) == seq![
            FilterRange {
                start_hz: 22_000_000,
                end_hz: if chip.tuner_type == TunerType::FC0012 {
                    948_000_000
                } else {
                    1_100_000_000
                },
            },
        ],
{
}

/// Where the hardware performs every write, a chip with a crystal of 28.8 MHz can be tuned
/// to every local oscillator frequency from 44 to 112 MHz.
pub proof fn lemma_tuning_succeeds<H: HardwareInterface>(chip: Fc001x, hw: H, hz: u64)
    requires
        forall|h: H, op: device::BusOp| (#[trigger] h.ack(op)) is Ok,
        chip.xtal_freq == 28_800_000,
        44_000_000 <= hz + chip.current_if <= 112_000_000,
    ensures
        Tuner::<H>::can_tune(chip, hz),
        Tuner::<H>::tuned(chip, hw, hz).res == Result::<u64>::Ok(hz),
{
    device::lemma_tuner_writes_performed::<H>(chip.i2c_addr);
    let vco = vco_of(chip.tuner_type, chip.lo_of(hz));
    assert(vco == 32 * chip.lo_of(hz));
    assert(97 <= vco / 14_400_000 <= 248);
}

/// A local oscillator below 40 MHz is refused, since the main counter would be too small,
/// and nothing is written.
pub proof fn lemma_low_frequencies_refused<H: HardwareInterface>(chip: Fc001x, hw: H, hz: u64)
    requires
        chip.xtal_freq == 28_800_000,
        hz + chip.current_if <= 40_000_000,
    ensures
        Tuner::<H>::tuned(chip, hw, hz).res == Result::<u64>::Err(Error::InvalidFrequency(hz)),
        Tuner::<H>::tuned(chip, hw, hz).hw == hw,
{
    let vco = vco_of(chip.tuner_type, chip.lo_of(hz));
    assert(vco == 32 * chip.lo_of(hz));
    assert(0 <= vco / 14_400_000 <= 88);
}

/// Tuning changes nothing but registers 0x01, 0x02, 0x05, 0x06 and 0x16 of the chip, and
/// setting the gain nothing but 0x0d, and both the switch of the I2C repeater.
pub proof fn lemma_nothing_else_changes<H: HardwareInterface>(
    chip: Fc001x,
    hw: H,
    hz: u64,
    gain: GainSetting,
    held: spec_fn(H, Place) -> int,
    place: Place,
)
    requires
        record::is_memory(held),
        place != (Place::Demod { page: 1, addr: 0x01 }),
    ensures
        ({
            let at = |reg: int| place == (Place::Chip { chip: chip.i2c_addr, reg });
            &&& !at(0x01) && !at(0x02) && !at(0x05) && !at(0x06) && !at(0x16) ==> held(
                Tuner::<H>::tuned(chip, hw, hz).hw,
                place,
            ) == held(hw, place)
            &&& !at(0x0d) ==> held(Tuner::<H>::gained(chip, hw, gain).hw, place) == held(hw, place)
        }),
{
    device::lemma_byte_keeps::<H>(chip.i2c_addr, held, place);
}

} // verus!
