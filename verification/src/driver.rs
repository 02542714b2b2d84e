//! The receiver as a whole: what its demodulator, its tuner chip and its board do
//! together.
use crate::demod::{self, DEFAULT_SAMPLE_RATE};
use crate::device::{self, BusOp, Exchange, HardwareInterface, HardwareRoutines};
use crate::error::{Error, Result, TunerFault};
use crate::record::{self, Place};
use crate::registers::{self, tuner_ids};
use crate::stream::StreamConfig;
use crate::transfer::DeviceInfo;
use crate::tuner::{
    self, BoardConfig, BoardOrchestrator, Gain, GainSetting, GenericOrchestrator, InputPath,
    Orchestrator, Session, Tuner, TunerType, V4Orchestrator,
};
use crate::tuners::e4k::{self, E4k};
use crate::tuners::r82xx::{self, R82xx};
use crate::tuners::{rafael, TunerChip};
use vstd::prelude::*;

verus! {

// ── Bringing the receiver up ────────────────────────────────────────────────
/// What [`start_baseband`] does.
pub open spec fn baseband_started<H: HardwareInterface>(hw: H) -> Exchange<H, ()> {
    demod::baseband_init(hw).sleep(100)
}

/// Initializes the RTL2832U's baseband and gives it time to settle.
pub fn start_baseband<H: HardwareInterface>(hw: &mut H) -> (res: Result<()>)
    ensures
        (Exchange { hw: *final(hw), res }) == baseband_started(*old(hw)),
{
    demod::power_on(hw)?;
    hw.sleep_ms(100);
    Ok(())
}

/// The V4's power-up: GPIO 4 and 5 are made outputs and driven high.
pub open spec fn v4_powered_up<H: HardwareInterface>(hw: H) -> Exchange<H, ()> {
    device::gpio_output(hw, 4).chain(|h: H| device::gpio_output(h, 5)).chain(
        |h: H| device::gpio_bit(h, 4, true),
    ).chain(|h: H| device::gpio_bit(h, 5, true)).sleep(250)
}

/// The crystal of a board: 28.8 MHz on a V4, and on any board with one of the
/// common chips.
pub open spec fn xtal_of(is_v4: bool, tuner_type: TunerType) -> u64 {
    if is_v4 || tuner_type == TunerType::R820T || tuner_type == TunerType::R828D || tuner_type
        == TunerType::E4000 {
        28_800_000
    } else {
        16_000_000
    }
}

/// The driver for a chip that was found. A V4 carries an R828D even where the chip
/// did not answer.
pub open spec fn chip_for(is_v4: bool, tuner_type: TunerType) -> Option<TunerChip> {
    let xtal_hz = xtal_of(is_v4, tuner_type);
    match tuner_type {
        TunerType::R820T => Some(
            TunerChip::R82xx(R82xx::fresh(TunerType::R820T, tuner_ids::R82XX_I2C_ADDR, xtal_hz)),
        ),
        TunerType::R828D => Some(
            TunerChip::R82xx(R82xx::fresh(TunerType::R828D, tuner_ids::R828D_I2C_ADDR, xtal_hz)),
        ),
        TunerType::E4000 => Some(TunerChip::E4k(E4k::fresh(xtal_hz))),
        TunerType::Unknown(_) => if is_v4 {
            Some(
                TunerChip::R82xx(
                    R82xx::fresh(TunerType::R828D, tuner_ids::R828D_I2C_ADDR, xtal_hz),
                ),
            )
        } else {
            None
        },
        _ => None,
    }
}

fn create_chip(is_v4: bool, tuner_type: TunerType) -> (chip: Option<TunerChip>)
    ensures
        chip == chip_for(is_v4, tuner_type),
{
    let xtal_hz: u64 = find_xtal(is_v4, tuner_type);
    match tuner_type {
        TunerType::R820T => Some(
            TunerChip::R82xx(R82xx::new(TunerType::R820T, tuner_ids::R82XX_I2C_ADDR, xtal_hz)),
        ),
        TunerType::R828D => Some(
            TunerChip::R82xx(R82xx::new(TunerType::R828D, tuner_ids::R828D_I2C_ADDR, xtal_hz)),
        ),
        TunerType::E4000 => Some(TunerChip::E4k(E4k::new(xtal_hz))),
        TunerType::Unknown(_) => if is_v4 {
            Some(
                TunerChip::R82xx(R82xx::new(TunerType::R828D, tuner_ids::R828D_I2C_ADDR, xtal_hz)),
            )
        } else {
            None
        },
        _ => None,
    }
}

fn find_xtal(is_v4: bool, tuner_type: TunerType) -> (hz: u64)
    ensures
        hz == xtal_of(is_v4, tuner_type),
{
    match tuner_type {
        TunerType::R820T | TunerType::R828D | TunerType::E4000 => 28_800_000,
        _ => if is_v4 {
            28_800_000
        } else {
            16_000_000
        },
    }
}

/// The intermediate frequency after bringing up: none with an E4000.
pub open spec fn initial_if(tuner_type: TunerType) -> u32 {
    if tuner_type == TunerType::E4000 {
        0
    } else {
        2_300_000
    }
}

/// The demodulator switched to the way the tuner delivers its signal.
pub open spec fn if_mode_set<H: HardwareInterface>(
    hw: H,
    is_v4: bool,
    tuner_type: TunerType,
) -> Exchange<H, ()> {
    if is_v4 || tuner_type == TunerType::R820T || tuner_type == TunerType::R828D {
        demod::low_if(hw).demod(registers::demod::P1_PAGE, 0x15, 0x01)
    } else if tuner_type == TunerType::E4000 {
        demod::zero_if(hw).demod(registers::demod::P1_PAGE, 0x15, 0x01)
    } else {
        Exchange::begin(hw)
    }
}

/// The demodulator set up for the first samples.
pub open spec fn demod_synced<H: HardwareInterface>(hw: H, if_hz: u32, xtal_hz: u32) -> Exchange<
    H,
    (),
> {
    demod::soft_reset(hw).chain(|h: H| demod::if_freq_set(h, if_hz, xtal_hz)).chain(
        |h: H| demod::sample_rate_set(h, DEFAULT_SAMPLE_RATE, xtal_hz),
    ).demod(registers::demod::P1_PAGE, 0x15, 0x01).chain(|h: H| demod::streaming_start(h))
}

/// The chip initialized and the demodulator adapted to it.
pub open spec fn chip_started<H: HardwareInterface>(
    chip: TunerChip,
    hw: H,
    is_v4: bool,
    tuner_type: TunerType,
) -> Session<TunerChip, H, ()> {
    let xtal_hz = xtal_of(is_v4, tuner_type) as u32;
    let if_hz = initial_if(tuner_type);
    Tuner::<H>::initialized(chip, hw).exchange(|h: H| if_mode_set(h, is_v4, tuner_type)).chain(
        |c: TunerChip, h: H| Tuner::<H>::if_set(c, h, if_hz as u64),
    ).exchange(|h: H| demod_synced(h, if_hz, xtal_hz))
}

/// What [`bring_up`] does with the hardware and what it returns: the chip's driver
/// and the frequency of the crystal.
pub open spec fn brought_up<H: HardwareInterface>(hw: H, is_v4: bool) -> Exchange<
    H,
    (TunerChip, u32),
> {
    let powered = if is_v4 {
        v4_powered_up(hw)
    } else {
        Exchange::begin(hw)
    };
    powered.chain(
        |h: H|
            {
                let found = device::probe(h);
                match found.res {
                    Err(e) => Exchange { hw: found.hw, res: Err(e) },
                    Ok(tuner_type) => match chip_for(is_v4, tuner_type) {
                        None => Exchange {
                            hw: found.hw,
                            res: Err(Error::UnsupportedTuner(tuner_type)),
                        },
                        Some(chip) => {
                            let s = chip_started(chip, found.hw, is_v4, tuner_type);
                            Exchange {
                                hw: s.hw,
                                res: match s.res {
                                    Ok(_) => Ok((s.chip, xtal_of(is_v4, tuner_type) as u32)),
                                    Err(e) => Err(e),
                                },
                            }
                        },
                    },
                }
            },
    )
}

fn power_up_v4<H: HardwareInterface>(hw: &mut H) -> (res: Result<()>)
    ensures
        (Exchange { hw: *final(hw), res }) == v4_powered_up(*old(hw)),
{
    hw.set_gpio_output(4)?;
    hw.set_gpio_output(5)?;
    hw.set_gpio_bit(4, true)?;
    hw.set_gpio_bit(5, true)?;
    hw.sleep_ms(250);
    Ok(())
}

fn set_if_mode<H: HardwareInterface>(hw: &mut H, is_v4: bool, tuner_type: TunerType) -> (res:
    Result<()>)
    ensures
        (Exchange { hw: *final(hw), res }) == if_mode_set(*old(hw), is_v4, tuner_type),
{
    if is_v4 || tuner_type == TunerType::R820T || tuner_type == TunerType::R828D {
        demod::set_tuner_low_if(hw)?;
        demod::write_reg_direct(hw, registers::demod::P1_PAGE, 0x15, 0x01)?;
    } else if tuner_type == TunerType::E4000 {
        demod::set_tuner_zero_if(hw)?;
        demod::write_reg_direct(hw, registers::demod::P1_PAGE, 0x15, 0x01)?;
    }
    Ok(())
}

fn sync_demod<H: HardwareInterface>(hw: &mut H, if_hz: u32, xtal_hz: u32) -> (res: Result<()>)
    requires
        xtal_hz != 0,
    ensures
        (Exchange { hw: *final(hw), res }) == demod_synced(*old(hw), if_hz, xtal_hz),
{
    demod::reset_demod(hw)?;
    demod::set_if_freq_xtal(hw, if_hz, xtal_hz)?;
    demod::set_sample_rate_xtal(hw, DEFAULT_SAMPLE_RATE, xtal_hz)?;
    demod::write_reg_direct(hw, registers::demod::P1_PAGE, 0x15, 0x01)?;
    demod::start_streaming(hw)
}

fn start_chip<H: HardwareInterface>(
    chip: &mut TunerChip,
    hw: &mut H,
    is_v4: bool,
    tuner_type: TunerType,
) -> (res: Result<()>)
    ensures
        (Session { chip: *final(chip), hw: *final(hw), res }) == chip_started(
            *old(chip),
            *old(hw),
            is_v4,
            tuner_type,
        ),
{
    let xtal_hz: u32 = find_xtal(is_v4, tuner_type) as u32;
    let if_hz: u32 = if tuner_type == TunerType::E4000 {
        0
    } else {
        2_300_000
    };
    chip.initialize(hw)?;
    set_if_mode(hw, is_v4, tuner_type)?;
    chip.set_if_freq(hw, if_hz as u64)?;
    sync_demod(hw, if_hz, xtal_hz)
}

/// Powers the board up, finds out which tuner chip it carries, and starts both.
/// The baseband must have been started.
pub fn bring_up<H: HardwareInterface>(hw: &mut H, is_v4: bool) -> (res: Result<(TunerChip, u32)>)
    ensures
        (Exchange { hw: *final(hw), res }) == brought_up(*old(hw), is_v4),
{
    if is_v4 {
        power_up_v4(hw)?;
    }
    let tuner_type = hw.probe_tuner()?;
    let mut chip = match create_chip(is_v4, tuner_type) {
        Some(chip) => chip,
        None => {
            return Err(Error::UnsupportedTuner(tuner_type));
        },
    };
    start_chip(&mut chip, hw, is_v4, tuner_type)?;
    Ok((chip, find_xtal(is_v4, tuner_type) as u32))
}

// ── The receiver ────────────────────────────────────────────────────────────
/// A receiver that is up and running.
pub struct Driver<H, T> {
    pub hw: H,
    pub info: DeviceInfo,
    pub tuner: T,
    pub orchestrator: Orchestrator,
    pub sample_rate: u32,
    pub frequency: u64,
    pub ppm: i32,
    pub nominal_xtal: u32,
    pub stream_config: StreamConfig,
    /// Whether streams are to be told to flush: what they hold was received before the
    /// receiver was tuned.
    pub flush_due: bool,
}

/// A receiver after an operation, and the operation's result.
pub struct Outcome<D, T> {
    pub driver: D,
    pub res: Result<T>,
}

impl<H: HardwareInterface> Driver<H, TunerChip> {
    /// Brings a receiver up whose baseband has been started.
    pub fn new(hw: H, info: DeviceInfo) -> (res: Result<Self>)
        ensures
            ({
                let up = brought_up(hw, info.is_v4);
                match up.res {
                    Ok((chip, xtal_hz)) => res == Result::<Self>::Ok(
                        Driver {
                            hw: up.hw,
                            info,
                            tuner: chip,
                            orchestrator: if info.is_v4 {
                                Orchestrator::V4(V4Orchestrator)
                            } else {
                                Orchestrator::Generic(GenericOrchestrator)
                            },
                            sample_rate: DEFAULT_SAMPLE_RATE,
                            frequency: 0,
                            ppm: 0,
                            nominal_xtal: xtal_hz,
                            stream_config: StreamConfig {
                                num_buffers: 16,
                                buffer_size: 262_144,
                            },
                            flush_due: false,
                        },
                    ),
                    Err(e) => res == Result::<Self>::Err(e),
                }
            }),
    {
        let mut hw = hw;
        let board = if info.is_v4 {
            BoardConfig::BlogV4
        } else {
            BoardConfig::Generic
        };
        let orchestrator = board.orchestrator();
        let (chip, xtal_hz) = bring_up(&mut hw, info.is_v4)?;
        Ok(
            Driver {
                hw,
                info,
                tuner: chip,
                orchestrator,
                sample_rate: DEFAULT_SAMPLE_RATE,
                frequency: 0,
                ppm: 0,
                nominal_xtal: xtal_hz,
                stream_config: StreamConfig::default(),
                flush_due: false,
            },
        )
    }
}

/// The board's switch and the chip's inputs set to `path`: GPIO 5 powers the
/// upconverter, which only the HF input needs, when it is low.
pub open spec fn path_applied<H: HardwareInterface, T: Tuner<H>>(
    chip: T,
    hw: H,
    path: InputPath,
) -> Session<T, H, ()> {
    Session::begin(chip, hw).exchange(|h: H| device::gpio_output(h, 5)).exchange(
        |h: H| device::gpio_bit(h, 5, path != InputPath::Hf),
    ).chain(|c: T, h: H| c.path_set(h, path))
}

/// The intermediate frequency that goes with a sample rate. A Zero-IF tuner keeps
/// having none.
pub open spec fn if_for_rate(current_if: u64, rate_hz: u32) -> u64 {
    if current_if == 0 {
        0
    } else if rate_hz < 2_500_000 {
        2_300_000
    } else {
        3_570_000
    }
}

/// The range of sample rates that the RTL2832U can deliver, in Hz, both ends included.
pub const MIN_SAMPLE_RATE: u32 = 225_000;

pub const MAX_SAMPLE_RATE: u32 = 3_200_000;

/// Whether the RTL2832U can deliver samples at `rate_hz`.
pub open spec fn is_deliverable(rate_hz: u32) -> bool {
    MIN_SAMPLE_RATE <= rate_hz <= MAX_SAMPLE_RATE
}

impl<H: HardwareInterface, T: Tuner<H>> Driver<H, T> {
    /// The frequency of the crystal, corrected.
    pub open spec fn xtal(self) -> u32 {
        (self.nominal_xtal + tuner::ppm_offset(self.nominal_xtal as int, self.ppm as int)) as u32
    }

    /// The receiver once an exchange with its chip has got to `s`.
    pub open spec fn at<R>(self, s: Session<T, H, R>) -> Self {
        Driver { tuner: s.chip, hw: s.hw, ..self }
    }

    /// Whether the arithmetic of tuning to `hz` is possible.
    pub open spec fn can_tune_to(self, hz: u64) -> bool {
        self.tuner.can_tune(self.orchestrator.plan(hz).tuner_hz) && self.xtal() != 0
    }

    /// What tuning to `hz` does before the demodulator follows: the chip is tuned,
    /// then the board's inputs are switched.
    pub open spec fn front_end_tuned(self, hz: u64) -> Session<T, H, u64> {
        let plan = self.orchestrator.plan(hz);
        let s = self.tuner.with_notch(plan.in_notch).tuned(self.hw, plan.tuner_hz);
        match (s.res, plan.input_path) {
            (Ok(actual), Some(path)) => path_applied(s.chip, s.hw, path).chain(
                |c: T, h: H| Session { chip: c, hw: h, res: Ok(actual) },
            ),
            _ => s,
        }
    }

    /// What [`Driver::set_frequency`] does. The demodulator's IF is set anew, and
    /// its spectrum is inverted where the board's path inverts it. On success streams
    /// are to flush.
    pub open spec fn tuned(self, hz: u64) -> Outcome<Self, u64> {
        let plan = self.orchestrator.plan(hz);
        let s = self.front_end_tuned(hz);
        match s.res {
            Err(e) => Outcome { driver: self.at(s), res: Err(e) },
            Ok(actual) => {
                let synced = demod::if_freq_set(s.hw, s.chip.if_hz() as u32, self.xtal()).demod(
                    registers::demod::P1_PAGE,
                    0x15,
                    if plan.spectral_inv {
                        0x05
                    } else {
                        0x01
                    },
                );
                match synced.res {
                    Err(e) => Outcome {
                        driver: Driver { hw: synced.hw, ..self.at(s) },
                        res: Err(e),
                    },
                    Ok(_) => Outcome {
                        driver: Driver {
                            hw: synced.hw,
                            frequency: hz,
                            flush_due: true,
                            ..self.at(s)
                        },
                        res: Ok(actual),
                    },
                }
            },
        }
    }

    /// What [`Driver::set_sample_rate`] does. A rate that the demodulator cannot deliver
    /// is refused, and nothing changes.
    pub open spec fn rate_set(self, rate_hz: u32) -> Outcome<Self, ()> {
        if is_deliverable(rate_hz) {
            self.deliverable_rate_set(rate_hz)
        } else {
            Outcome { driver: self, res: Err(Error::InvalidSampleRate(rate_hz)) }
        }
    }

    /// What setting a rate that the demodulator can deliver does.
    pub open spec fn deliverable_rate_set(self, rate_hz: u32) -> Outcome<Self, ()> {
        let if_hz = if_for_rate(self.tuner.if_hz(), rate_hz);
        let xtal_hz = self.xtal();
        let s = self.tuner.if_set(self.hw, if_hz).exchange(
            |h: H|
                demod::soft_reset(h).chain(
                    |g: H| demod::sample_rate_set(g, rate_hz, xtal_hz),
                ).chain(|g: H| demod::if_freq_set(g, if_hz as u32, xtal_hz)).demod(
                    registers::demod::P1_PAGE,
                    0x15,
                    0x01,
                ),
        );
        Outcome {
            driver: Driver {
                sample_rate: if s.res is Ok {
                    rate_hz
                } else {
                    self.sample_rate
                },
                ..self.at(s)
            },
            res: s.res,
        }
    }

    /// The receiver once its crystal is known to be off by `ppm`.
    pub open spec fn corrected(self, ppm: i32) -> Self {
        Driver { ppm, tuner: self.tuner.with_ppm(ppm), ..self }
    }

    /// The receiver tuned again to where it is, if it is tuned and can be.
    pub open spec fn retuned(self) -> Self {
        if self.frequency > 0 && self.can_tune_to(self.frequency) {
            self.tuned(self.frequency).driver
        } else {
            self
        }
    }

    /// The receiver with its sample rate set again, if that is possible.
    pub open spec fn resampled(self) -> Self {
        if self.xtal() != 0 {
            self.rate_set(self.sample_rate).driver
        } else {
            self
        }
    }

    fn corrected_xtal_hz(&self) -> (hz: u32)
        ensures
            hz == self.xtal(),
    {
        let nominal: i64 = self.nominal_xtal as i64;
        assert(-0x8000_0000 * 0xffff_ffff <= nominal * self.ppm <= 0x8000_0000 * 0xffff_ffff)
            by (nonlinear_arith)
            requires
                0 <= nominal <= 0xffff_ffff,
                -0x8000_0000 <= self.ppm <= 0x7fff_ffff,
        ;
        let offset: i64 = (nominal * self.ppm as i64) / 1_000_000;
        (nominal + offset) as u32
    }

    /// Whether [`Driver::set_frequency`] may be called with `hz`.
    pub fn is_tunable(&self, hz: u64) -> (b: bool)
        ensures
            b == self.can_tune_to(hz),
    {
        let plan = self.orchestrator.plan_tuning(hz);
        self.tuner.is_tunable(plan.tuner_hz) && self.corrected_xtal_hz() != 0
    }

    /// Tunes the receiver; returns the frequency that the chip was tuned to.
    pub fn set_frequency(&mut self, hz: u64) -> (res: Result<u64>)
        requires
            old(self).can_tune_to(hz),
        ensures
            (Outcome { driver: *final(self), res }) == old(self).tuned(hz),
    {
        let plan = self.orchestrator.plan_tuning(hz);
        proof {
            self.tuner.lemma_notch_keeps_range(plan.in_notch, plan.tuner_hz);
        }
        let _ = self.tuner.apply_notch(plan.in_notch);
        let actual: u64 = self.tuner.set_frequency(&mut self.hw, plan.tuner_hz)?;
        if let Some(path) = plan.input_path {
            self.apply_input_path(path)?;
        }
        let xtal: u32 = self.corrected_xtal_hz();
        let if_hz: u64 = self.tuner.get_if_freq();
        demod::set_if_freq_xtal(&mut self.hw, if_hz as u32, xtal)?;
        let sync_val: u8 = if plan.spectral_inv {
            0x05
        } else {
            0x01
        };
        demod::write_reg_direct(&mut self.hw, registers::demod::P1_PAGE, 0x15, sync_val)?;
        self.frequency = hz;
        self.flush_due = true;
        Ok(actual)
    }

    fn apply_input_path(&mut self, path: InputPath) -> (res: Result<()>)
        ensures
            ({
                let s = path_applied(old(self).tuner, old(self).hw, path);
                *final(self) == old(self).at(s) && res == s.res
            }),
    {
        self.hw.set_gpio_output(5)?;
        match path {
            InputPath::Hf => {
                self.hw.set_gpio_bit(5, false)?;
            },
            InputPath::Vhf => {
                self.hw.set_gpio_bit(5, true)?;
            },
            InputPath::Uhf => {
                self.hw.set_gpio_bit(5, true)?;
            },
        }
        self.tuner.set_input_path(&mut self.hw, path)
    }

    /// Sets the sample rate, and the intermediate frequency that goes with it. Rates
    /// outside 225 kSPS to 3.2 MSPS are refused.
    pub fn set_sample_rate(&mut self, rate_hz: u32) -> (res: Result<()>)
        requires
            is_deliverable(rate_hz) ==> old(self).xtal() != 0,
        ensures
            (Outcome { driver: *final(self), res }) == old(self).rate_set(rate_hz),
    {
        if rate_hz < MIN_SAMPLE_RATE || rate_hz > MAX_SAMPLE_RATE {
            return Err(Error::InvalidSampleRate(rate_hz));
        }
        let xtal: u32 = self.corrected_xtal_hz();
        let current_if: u64 = self.tuner.get_if_freq();
        let if_hz: u64 = if current_if > 0 {
            if rate_hz < 2_500_000 {
                2_300_000
            } else {
                3_570_000
            }
        } else {
            0
        };
        self.tuner.set_if_freq(&mut self.hw, if_hz)?;

        // The reset loses the other settings, so they are made again.
        demod::reset_demod(&mut self.hw)?;
        demod::set_sample_rate_xtal(&mut self.hw, rate_hz, xtal)?;
        demod::set_if_freq_xtal(&mut self.hw, if_hz as u32, xtal)?;
        demod::write_reg_direct(&mut self.hw, registers::demod::P1_PAGE, 0x15, 0x01)?;
        self.sample_rate = rate_hz;
        Ok(())
    }

    /// Corrects the crystal by `ppm` in the tuner's PLL and in the demodulator.
    /// Whether the receiver could be tuned and its rate set again does not matter.
    pub fn set_ppm(&mut self, ppm: i32) -> (res: Result<()>)
        requires
            old(self).tuner.can_set_ppm(ppm),
        ensures
            *final(self) == old(self).corrected(ppm).retuned().resampled(),
            res == Result::<()>::Ok(()),
    {
        self.ppm = ppm;
        let _ = self.tuner.set_ppm(ppm);
        let freq: u64 = self.frequency;
        let rate: u32 = self.sample_rate;
        if freq > 0 && self.is_tunable(freq) {
            let _ = self.set_frequency(freq);
        }
        if self.corrected_xtal_hz() != 0 {
            let _ = self.set_sample_rate(rate);
        }
        Ok(())
    }

    /// What [`Driver::set_bias_t`] does.
    pub open spec fn bias_switched(self, on: bool) -> Outcome<Self, ()> {
        let e = device::gpio_output(self.hw, 0).chain(|h: H| device::gpio_bit(h, 0, on));
        Outcome { driver: Driver { hw: e.hw, ..self }, res: e.res }
    }

    /// Switches the supply of an antenna amplifier on or off, through GPIO 0.
    pub fn set_bias_t(&mut self, on: bool) -> (res: Result<()>)
        ensures
            (Outcome { driver: *final(self), res }) == old(self).bias_switched(on),
    {
        self.hw.set_gpio_output(0)?;
        self.hw.set_gpio_bit(0, on)
    }

    /// What [`Driver::set_agc`] does.
    pub open spec fn agc_switched(self, on: bool) -> Outcome<Self, ()> {
        let e = Exchange::begin(self.hw).demod(
            registers::demod::P0_PAGE,
            registers::demod::P0_AGC_CTL,
            if on {
                0x25
            } else {
                0x05
            },
        );
        Outcome { driver: Driver { hw: e.hw, ..self }, res: e.res }
    }

    /// Switches the demodulator's digital AGC on or off.
    pub fn set_agc(&mut self, on: bool) -> (res: Result<()>)
        ensures
            (Outcome { driver: *final(self), res }) == old(self).agc_switched(on),
    {
        let val: u8 = if on {
            0x25
        } else {
            0x05
        };
        demod::write_reg_direct(
            &mut self.hw,
            registers::demod::P0_PAGE,
            registers::demod::P0_AGC_CTL,
            val,
        )
    }

    /// Whether streams are to be told to flush. It is asked once for each time.
    pub fn take_flush(&mut self) -> (due: bool)
        ensures
            due == old(self).flush_due,
            *final(self) == (Driver { flush_due: false, ..*old(self) }),
    {
        let due = self.flush_due;
        self.flush_due = false;
        due
    }

    // ── Requests from outside ───────────────────────────────────────────────
    /// What [`Driver::try_set_frequency`] does.
    pub open spec fn tuned_if_possible(self, hz: u64) -> Outcome<Self, u64> {
        if self.can_tune_to(hz) {
            self.tuned(hz)
        } else {
            Outcome { driver: self, res: Err(Error::InvalidFrequency(hz)) }
        }
    }

    /// What [`Driver::try_set_sample_rate`] does.
    pub open spec fn rate_set_if_possible(self, rate_hz: u32) -> Outcome<Self, ()> {
        if is_deliverable(rate_hz) && self.xtal() != 0 {
            self.rate_set(rate_hz)
        } else {
            Outcome { driver: self, res: Err(Error::InvalidSampleRate(rate_hz)) }
        }
    }

    /// What [`Driver::try_set_gain`] does.
    pub open spec fn gained_if_possible(self, gain: GainSetting) -> Outcome<Self, Gain> {
        if self.tuner.can_set_gain(gain) {
            let s = self.tuner.gained(self.hw, gain);
            Outcome { driver: self.at(s), res: s.res }
        } else {
            Outcome { driver: self, res: Err(Error::InvalidGain(gain.tenths)) }
        }
    }

    /// What [`Driver::try_set_ppm`] does.
    pub open spec fn corrected_if_possible(self, ppm: i32) -> Outcome<Self, ()> {
        if self.tuner.can_set_ppm(ppm) {
            Outcome { driver: self.corrected(ppm).retuned().resampled(), res: Ok(()) }
        } else {
            Outcome { driver: self, res: Err(Error::Tuner(TunerFault::PpmOutOfRange { ppm })) }
        }
    }

    /// Tunes the receiver to any frequency that it can be asked for.
    pub fn try_set_frequency(&mut self, hz: u64) -> (res: Result<u64>)
        ensures
            (Outcome { driver: *final(self), res }) == old(self).tuned_if_possible(hz),
    {
        if self.is_tunable(hz) {
            self.set_frequency(hz)
        } else {
            Err(Error::InvalidFrequency(hz))
        }
    }

    /// Sets any sample rate that can be asked for.
    pub fn try_set_sample_rate(&mut self, rate_hz: u32) -> (res: Result<()>)
        ensures
            (Outcome { driver: *final(self), res }) == old(self).rate_set_if_possible(rate_hz),
    {
        if self.corrected_xtal_hz() != 0 {
            self.set_sample_rate(rate_hz)
        } else {
            Err(Error::InvalidSampleRate(rate_hz))
        }
    }

    /// Sets any gain that can be asked for; returns the gain that was set.
    pub fn try_set_gain(&mut self, gain: GainSetting) -> (res: Result<Gain>)
        ensures
            (Outcome { driver: *final(self), res }) == old(self).gained_if_possible(gain),
    {
        if self.tuner.is_gain_settable(gain) {
            self.tuner.set_gain(&mut self.hw, gain)
        } else {
            Err(Error::InvalidGain(gain.tenths))
        }
    }

    /// Sets a step of the gain table, the last one if there are fewer.
    pub fn set_gain_by_index(&mut self, idx: usize) -> (res: Result<Gain>)
        ensures
            ({
                let s = old(self).tuner.gained_by_index(old(self).hw, idx);
                *final(self) == old(self).at(s) && res == s.res
            }),
    {
        self.tuner.set_gain_by_index(&mut self.hw, idx)
    }

    /// Corrects the crystal by any `ppm` that can be asked for.
    pub fn try_set_ppm(&mut self, ppm: i32) -> (res: Result<()>)
        ensures
            (Outcome { driver: *final(self), res }) == old(self).corrected_if_possible(ppm),
    {
        if self.tuner.is_ppm_settable(ppm) {
            self.set_ppm(ppm)?;
            Ok(())
        } else {
            Err(Error::Tuner(TunerFault::PpmOutOfRange { ppm }))
        }
    }
}

// ── Laws ────────────────────────────────────────────────────────────────────
/// A receiver remembers the frequency it was tuned to; where tuning fails it remembers
/// the one before. Tuning changes no other setting.
pub proof fn lemma_frequency_remembered<H: HardwareInterface, T: Tuner<H>>(
    driver: Driver<H, T>,
    hz: u64,
)
    ensures
        ({
            let o = driver.tuned_if_possible(hz);
            &&& o.driver.frequency == if o.res is Ok {
                hz
            } else {
                driver.frequency
            }
            &&& o.driver.sample_rate == driver.sample_rate
            &&& o.driver.ppm == driver.ppm
            &&& o.driver.nominal_xtal == driver.nominal_xtal
        }),
{
}

/// Streams are told to flush after the receiver has been tuned, and only then: not when
/// tuning fails, and not when another setting changes.
pub proof fn lemma_flush_follows_tuning<H: HardwareInterface, T: Tuner<H>>(
    driver: Driver<H, T>,
    hz: u64,
    rate_hz: u32,
    gain: GainSetting,
    on: bool,
)
    ensures
        driver.tuned_if_possible(hz).driver.flush_due == (driver.tuned_if_possible(hz).res is Ok
            || driver.flush_due),
        driver.rate_set_if_possible(rate_hz).driver.flush_due == driver.flush_due,
        driver.gained_if_possible(gain).driver.flush_due == driver.flush_due,
        driver.bias_switched(on).driver.flush_due == driver.flush_due,
        driver.agc_switched(on).driver.flush_due == driver.flush_due,
{
}

/// Every sample rate from 225 kSPS to 3.2 MSPS is tried, and every other is refused
/// without touching the receiver.
pub proof fn lemma_undeliverable_rates_refused<H: HardwareInterface, T: Tuner<H>>(
    driver: Driver<H, T>,
    rate_hz: u32,
)
    requires
        driver.xtal() != 0,
    ensures
        driver.rate_set_if_possible(rate_hz) == if 225_000 <= rate_hz <= 3_200_000 {
            driver.deliverable_rate_set(rate_hz)
        } else {
            Outcome { driver, res: Err(Error::InvalidSampleRate(rate_hz)) }
        },
{
}

/// A receiver remembers the sample rate that was set; where setting it fails it
/// remembers the one before. Nothing else that it remembers changes.
pub proof fn lemma_sample_rate_remembered<H: HardwareInterface, T: Tuner<H>>(
    driver: Driver<H, T>,
    rate_hz: u32,
)
    ensures
        ({
            let o = driver.rate_set_if_possible(rate_hz);
            &&& o.driver.sample_rate == if o.res is Ok {
                rate_hz
            } else {
                driver.sample_rate
            }
            &&& o.driver.frequency == driver.frequency
            &&& o.driver.ppm == driver.ppm
            &&& o.driver.nominal_xtal == driver.nominal_xtal
        }),
{
}

/// A correction by `ppm` reaches the demodulator, which goes by the receiver's
/// corrected crystal from then on, and keeps the receiver's frequency and sample rate.
pub proof fn lemma_ppm_remembered<H: HardwareInterface, T: Tuner<H>>(
    driver: Driver<H, T>,
    ppm: i32,
)
    ensures
        ({
            let after = driver.corrected(ppm).retuned().resampled();
            &&& after.ppm == ppm
            &&& after.xtal() == driver.corrected(ppm).xtal()
            &&& after.frequency == driver.frequency
            &&& after.sample_rate == driver.sample_rate
        }),
{
    let corrected = driver.corrected(ppm);
    lemma_frequency_remembered(corrected, corrected.frequency);
    lemma_sample_rate_remembered(corrected.retuned(), corrected.retuned().sample_rate);
}

/// Without a correction the crystal has its nominal frequency.
pub proof fn lemma_uncorrected_xtal<H: HardwareInterface, T: Tuner<H>>(driver: Driver<H, T>)
    requires
        driver.ppm == 0,
    ensures
        driver.xtal() == driver.nominal_xtal,
{
    assert(driver.nominal_xtal * 0 == 0);
}

/// A receiver comes up with the crystal that its chip's driver goes by.
pub proof fn lemma_chip_and_demod_share_xtal(is_v4: bool, tuner_type: TunerType)
    ensures
        chip_for(is_v4, tuner_type) matches Some(chip) ==> match chip {
            TunerChip::R82xx(c) => c.xtal_freq == xtal_of(is_v4, tuner_type),
            TunerChip::E4k(c) => c.xtal_freq == xtal_of(is_v4, tuner_type),
        },
{
}

/// The corrected crystal is off its nominal frequency by `ppm` millionths of it, to within
/// a Hertz.
pub proof fn lemma_xtal_off_by_ppm<H: HardwareInterface, T: Tuner<H>>(driver: Driver<H, T>)
    requires
        0 <= driver.nominal_xtal * (1_000_000 + driver.ppm) <= 1_000_000 * u32::MAX,
    ensures
        -1_000_000 < 1_000_000 * driver.xtal() - driver.nominal_xtal * (1_000_000 + driver.ppm)
            < 1_000_000,
{
    let product = driver.nominal_xtal * driver.ppm;
    assert(driver.nominal_xtal * (1_000_000 + driver.ppm) == 1_000_000 * driver.nominal_xtal
        + product) by (nonlinear_arith)
        requires
            product == driver.nominal_xtal * driver.ppm,
    ;
}

/// After a tuning that succeeded, the demodulator takes back exactly the intermediate
/// frequency at which the chip delivers its signal, and turns the spectrum round where
/// the board has turned it: bit 2 of register 0x15 of page 1 is set, and bit 0 always.
pub proof fn lemma_demod_follows_chip<H: HardwareInterface, T: Tuner<H>>(
    driver: Driver<H, T>,
    hz: u64,
    held: spec_fn(H, Place) -> int,
)
    requires
        record::is_memory(held),
        driver.can_tune_to(hz),
        driver.tuned(hz).res is Ok,
        driver.tuned(hz).driver.tuner.if_hz() <= u32::MAX,
    ensures
        ({
            let after = driver.tuned(hz).driver;
            let word = 0x1_0000 * held(after.hw, Place::Demod { page: 1, addr: 0x19 }) + 0x100
                * held(after.hw, Place::Demod { page: 1, addr: 0x1a }) + held(
                after.hw,
                Place::Demod { page: 1, addr: 0x1b },
            );
            &&& 0 <= word < 0x40_0000
            &&& (word + after.tuner.if_hz() * 0x40_0000 / driver.xtal() as int) % 0x40_0000 == 0
            &&& held(after.hw, Place::Demod { page: 1, addr: 0x15 }) == if driver.orchestrator.plan(
                hz,
            ).spectral_inv {
                5int
            } else {
                1
            }
        }),
{
    let s = driver.front_end_tuned(hz);
    demod::lemma_if_undone(s.hw, s.chip.if_hz() as u32, driver.xtal(), held);
}

/// After a sample rate has been set, the demodulator's resampler holds the number of
/// crystal periods per sample of the rate that was asked for, its intermediate frequency
/// is that of the chip, and the driver remembers the rate. The rate decides between the
/// narrow and the wide intermediate frequency; a chip without one keeps having none.
pub proof fn lemma_rate_reaches_resampler<H: HardwareInterface, T: Tuner<H>>(
    driver: Driver<H, T>,
    rate_hz: u32,
    held: spec_fn(H, Place) -> int,
)
    requires
        record::is_memory(held),
        driver.xtal() != 0,
        driver.rate_set(rate_hz).res is Ok,
    ensures
        ({
            let after = driver.rate_set(rate_hz).driver;
            let word = 0x1_0000 * held(after.hw, Place::Demod { page: 1, addr: 0x9f }) + held(
                after.hw,
                Place::Demod { page: 1, addr: 0xa1 },
            );
            let periods = driver.xtal() * 0x40_0000 / rate_hz as int;
            let shift = 0x1_0000 * held(after.hw, Place::Demod { page: 1, addr: 0x19 }) + 0x100
                * held(after.hw, Place::Demod { page: 1, addr: 0x1a }) + held(
                after.hw,
                Place::Demod { page: 1, addr: 0x1b },
            );
            let if_hz = if driver.tuner.if_hz() == 0 {
                0int
            } else if rate_hz < 2_500_000 {
                2_300_000
            } else {
                3_570_000
            };
            &&& 225_000 <= rate_hz <= 3_200_000
            &&& after.sample_rate == rate_hz
            &&& 0 <= periods % 0x1000_0000 - word % 0x1000_0000 < 4
            &&& 0 <= shift < 0x40_0000
            &&& (shift + if_hz * 0x40_0000 / driver.xtal() as int) % 0x40_0000 == 0
            &&& after.tuner == driver.tuner.if_set(driver.hw, if_hz as u64).chip
            &&& held(after.hw, Place::Demod { page: 1, addr: 0x15 }) == 1
        }),
{
    let if_hz = if_for_rate(driver.tuner.if_hz(), rate_hz);
    let xtal_hz = driver.xtal();
    let set = driver.tuner.if_set(driver.hw, if_hz);
    let reset = demod::soft_reset(set.hw);
    let rated = demod::sample_rate_set(reset.hw, rate_hz, xtal_hz);
    demod::lemma_rate_held(reset.hw, rate_hz, xtal_hz, held);
    demod::lemma_if_undone(rated.hw, if_hz as u32, xtal_hz, held);
}

/// Switching the board's inputs changes no register of the chip but 0x05 and 0x06, and of
/// what the driver knows of the chip nothing but these.
proof fn lemma_path_keeps<H: HardwareInterface>(
    chip: R82xx,
    hw: H,
    path: InputPath,
    held: spec_fn(H, Place) -> int,
    reg: int,
)
    requires
        record::is_memory(held),
        reg != 0x05,
        reg != 0x06,
    ensures
        ({
            let s = path_applied(chip, hw, path);
            let place = Place::Chip { chip: chip.i2c_addr, reg };
            &&& held(s.hw, place) == held(hw, place)
            &&& s.chip == (R82xx { regs: s.chip.regs, ..chip })
        }),
{
}

/// After the front end has been tuned, only the demodulator's registers change.
proof fn lemma_front_end_stays<H: HardwareInterface, T: Tuner<H>>(
    driver: Driver<H, T>,
    hz: u64,
    held: spec_fn(H, Place) -> int,
    place: Place,
)
    requires
        record::is_memory(held),
        driver.tuned(hz).res is Ok,
        place is Chip,
    ensures
        ({
            let plan = driver.orchestrator.plan(hz);
            let s = driver.tuner.with_notch(plan.in_notch).tuned(driver.hw, plan.tuner_hz);
            let after = driver.tuned(hz).driver;
            &&& s.res is Ok
            &&& driver.tuned(hz).res == s.res
            &&& after.frequency == hz
            &&& match plan.input_path {
                Some(path) => {
                    let switched = path_applied(s.chip, s.hw, path);
                    switched.res is Ok && held(after.hw, place) == held(switched.hw, place)
                        && after.tuner == switched.chip
                },
                None => held(after.hw, place) == held(s.hw, place) && after.tuner == s.chip,
            }
        }),
{
}

/// What the chip was tuned with stays in its registers until the receiver is tuned.
proof fn lemma_chip_register_stays<H: HardwareInterface>(
    driver: Driver<H, R82xx>,
    hz: u64,
    held: spec_fn(H, Place) -> int,
    reg: int,
)
    requires
        record::is_memory(held),
        driver.tuned(hz).res is Ok,
        reg != 0x05,
        reg != 0x06,
    ensures
        ({
            let plan = driver.orchestrator.plan(hz);
            let chip = Tuner::<H>::with_notch(driver.tuner, plan.in_notch);
            let s = Tuner::<H>::tuned(chip, driver.hw, plan.tuner_hz);
            let after = driver.tuned(hz).driver;
            let place = Place::Chip { chip: driver.tuner.i2c_addr, reg };
            &&& s.res is Ok
            &&& driver.tuned(hz).res == s.res
            &&& after.frequency == hz
            &&& held(after.hw, place) == held(s.hw, place)
            &&& after.tuner.current_if == driver.tuner.current_if
        }),
{
    let plan = driver.orchestrator.plan(hz);
    let chip = Tuner::<H>::with_notch(driver.tuner, plan.in_notch);
    let s = Tuner::<H>::tuned(chip, driver.hw, plan.tuner_hz);
    r82xx::lemma_tuned_keeps(chip, driver.hw, plan.tuner_hz);
    lemma_front_end_stays(driver, hz, held, Place::Chip { chip: driver.tuner.i2c_addr, reg });
    if let Some(path) = plan.input_path {
        lemma_path_keeps(s.chip, s.hw, path, held, reg);
    }
}

/// A receiver with an R820T or R828D that has been tuned to `hz` has its local oscillator
/// above that by the intermediate frequency which the demodulator takes back, and on a V4
/// below 28.8 MHz by the upconverter's 28.8 MHz more. There, and only there, the
/// demodulator turns the spectrum round. `status` is the chip's last status byte.
#[verifier::rlimit(40)]
#[verifier::spinoff_prover]
pub proof fn lemma_receiver_tuned<H: HardwareInterface>(
    driver: Driver<H, R82xx>,
    hz: u64,
    held: spec_fn(H, Place) -> int,
    status: u8,
)
    requires
        record::is_memory(held),
        record::answers_byte::<H>(driver.tuner.i2c_addr, 4, status),
        driver.can_tune_to(hz),
        driver.tuned(hz).res is Ok,
        driver.tuner.current_if <= u32::MAX,
    ensures
        ({
            let after = driver.tuned(hz).driver;
            let up = if driver.orchestrator is V4 && hz < 28_800_000 {
                28_800_000int
            } else {
                0
            };
            let if_hz = Tuner::<H>::if_hz(driver.tuner);
            let shift = 0x1_0000 * held(after.hw, Place::Demod { page: 1, addr: 0x19 }) + 0x100
                * held(after.hw, Place::Demod { page: 1, addr: 0x1a }) + held(
                after.hw,
                Place::Demod { page: 1, addr: 0x1b },
            );
            &&& driver.tuned(hz).res->Ok_0 == hz + up
            &&& after.frequency == hz
            &&& rafael::holds_oscillator(
                |reg: int|
                    held(after.hw, Place::Chip { chip: driver.tuner.i2c_addr, reg }),
                hz + up + if_hz,
                driver.tuner.xtal_freq as int,
                if driver.tuner.tuner_type == TunerType::R820T {
                    2
                } else {
                    1
                },
                status,
            )
            &&& 0 <= shift < 0x40_0000
            &&& (shift + if_hz * 0x40_0000 / driver.xtal() as int) % 0x40_0000 == 0
            &&& held(after.hw, Place::Demod { page: 1, addr: 0x15 }) == if up > 0 {
                5int
            } else {
                1
            }
        }),
{
    let plan = driver.orchestrator.plan(hz);
    let chip = Tuner::<H>::with_notch(driver.tuner, plan.in_notch);
    let s = Tuner::<H>::tuned(chip, driver.hw, plan.tuner_hz);
    r82xx::lemma_oscillator_tuned(chip, driver.hw, plan.tuner_hz, held, status);
    let addr = driver.tuner.i2c_addr;
    let after = driver.tuned(hz).driver;
    lemma_chip_register_stays(driver, hz, held, 0x10);
    lemma_chip_register_stays(driver, hz, held, 0x14);
    lemma_chip_register_stays(driver, hz, held, 0x15);
    lemma_chip_register_stays(driver, hz, held, 0x16);
    lemma_demod_follows_chip(driver, hz, held);
    let lo_hz = plan.tuner_hz + driver.tuner.current_if;
    let xtal = driver.tuner.xtal_freq as int;
    let power = r82xx::power_ref(chip.tuner_type) as int;
    let before = |reg: int| held(s.hw, Place::Chip { chip: addr, reg });
    let at = |reg: int| held(after.hw, Place::Chip { chip: addr, reg });
    let code = choose|code: int|
        #[trigger] rafael::is_oscillator(before, lo_hz, xtal, power, status, code);
    assert(at(0x10) == before(0x10) && at(0x14) == before(0x14) && at(0x15) == before(0x15) && at(
        0x16,
    ) == before(0x16));
    assert(rafael::is_oscillator(at, lo_hz, xtal, power, status, code));
}

/// A V4 that has been tuned has the upconverter's switch, GPIO 5, low below 28.8 MHz and
/// high above, and the chip's input is that of the frequency: cable 2 (bit 3 of register
/// 0x06) below 28.8 MHz, cable 1 (bit 6 of register 0x05) up to 250 MHz, and the air input
/// (bit 5) above.
pub proof fn lemma_v4_inputs_tuned<H: HardwareInterface>(
    driver: Driver<H, R82xx>,
    hz: u64,
    held: spec_fn(H, Place) -> int,
)
    requires
        record::is_memory(held),
        record::reads_back(held),
        driver.orchestrator is V4,
        driver.tuner.tuner_type != TunerType::R820T,
        driver.can_tune_to(hz),
        driver.tuned(hz).res is Ok,
    ensures
        ({
            let after = driver.tuned(hz).driver.hw;
            let addr = driver.tuner.i2c_addr;
            let r05 = held(after, Place::Chip { chip: addr, reg: 0x05 });
            let r06 = held(after, Place::Chip { chip: addr, reg: 0x06 });
            let gpo = held(after, Place::Block { blk: 2, addr: 0x3001 });
            &&& (((gpo as u8) >> 5) & 1 == 1) == (hz >= 28_800_000)
            &&& rafael::bits(r06, 0x08) == (if hz < 28_800_000 {
                0x08u8
            } else {
                0
            })
            &&& rafael::bits(r05, 0x40) == (if 28_800_000 <= hz < 250_000_000 {
                0x40u8
            } else {
                0
            })
            &&& rafael::bits(r05, 0x20) == (if hz >= 250_000_000 {
                0x20u8
            } else {
                0
            })
        }),
{
    let plan = driver.orchestrator.plan(hz);
    let chip = Tuner::<H>::with_notch(driver.tuner, plan.in_notch);
    let s = Tuner::<H>::tuned(chip, driver.hw, plan.tuner_hz);
    let path = plan.input_path->0;
    r82xx::lemma_tuned_keeps(chip, driver.hw, plan.tuner_hz);
    let out = device::gpio_output(s.hw, 5);
    let driven = device::gpio_bit(out.hw, 5, path != InputPath::Hf);
    device::lemma_pin_driven(out.hw, 5, path != InputPath::Hf, 5, held);
    r82xx::lemma_inputs_switched(s.chip, driven.hw, path, held);
}

/// The chips that a receiver can drive: an R820T at address 0x34 and an R828D at 0x74 with
/// an intermediate frequency of 2.3 MHz, and an E4000, which has none. All run from a
/// crystal of 28.8 MHz. On a V4 the chip is an R828D even where none was found.
pub proof fn lemma_driven_chips<H: HardwareInterface>(is_v4: bool, tuner_type: TunerType)
    ensures
        ({
            let rafael = match tuner_type {
                TunerType::R820T => Some((TunerType::R820T, 0x34u8)),
                TunerType::R828D => Some((TunerType::R828D, 0x74u8)),
                TunerType::Unknown(_) => if is_v4 {
                    Some((TunerType::R828D, 0x74u8))
                } else {
                    None
                },
                _ => None,
            };
            match chip_for(is_v4, tuner_type) {
                Some(TunerChip::R82xx(c)) => {
                    &&& rafael == Some((c.tuner_type, c.i2c_addr))
                    &&& c.nominal_xtal == 28_800_000 && c.xtal_freq == 28_800_000
                    &&& Tuner::<H>::if_hz(c) == 2_300_000
                    &&& Tuner::<H>::gain(c) == Gain::Tenths(0)
                    &&& !c.in_notch && !c.has_lock
                    &&& xtal_of(is_v4, tuner_type) == 28_800_000
                },
                Some(TunerChip::E4k(c)) => {
                    &&& tuner_type == TunerType::E4000
                    &&& c.nominal_xtal == 28_800_000 && c.xtal_freq == 28_800_000
                    &&& Tuner::<H>::if_hz(c) == 0
                    &&& Tuner::<H>::gain(c) == Gain::Tenths(0)
                    &&& xtal_of(is_v4, tuner_type) == 28_800_000
                },
                None => rafael is None && tuner_type != TunerType::E4000,
            }
        }),
{
}

/// A V4 is powered up before its chip is looked for: GPIO pins 4 and 5 are outputs and high
/// then, and the board has had a quarter of a second.
pub proof fn lemma_v4_powered<H: HardwareInterface>(
    hw: H,
    held: spec_fn(H, Place) -> int,
    done: spec_fn(H) -> Seq<BusOp>,
)
    requires
        record::is_memory(held),
        record::reads_back(held),
        record::is_record(done),
        brought_up(hw, true).res is Ok,
    ensures
        ({
            let up = v4_powered_up(hw);
            let gpo = held(up.hw, Place::Block { blk: 2, addr: 0x3001 }) as u8;
            let gpoe = held(up.hw, Place::Block { blk: 2, addr: 0x3003 }) as u8;
            let gpd = held(up.hw, Place::Block { blk: 2, addr: 0x3004 }) as u8;
            &&& up.res is Ok
            &&& device::probe(up.hw).res is Ok
            &&& (gpo >> 4) & 1 == 1 && (gpo >> 5) & 1 == 1
            &&& (gpoe >> 4) & 1 == 1 && (gpoe >> 5) & 1 == 1
            &&& (gpd >> 4) & 1 == 0 && (gpd >> 5) & 1 == 0
            &&& done(up.hw).last() == BusOp::Sleep { ms: 250 }
        }),
{
    let out4 = device::gpio_output(hw, 4);
    let out5 = device::gpio_output(out4.hw, 5);
    let high4 = device::gpio_bit(out5.hw, 4, true);
    let high5 = device::gpio_bit(high4.hw, 5, true);
    assert(out4.res is Ok && out5.res is Ok && high4.res is Ok && high5.res is Ok);
    device::lemma_pin_is_output(hw, 4, 4, held);
    device::lemma_pin_is_output(out4.hw, 5, 4, held);
    device::lemma_pin_is_output(out4.hw, 5, 5, held);
    device::lemma_pin_driven(out5.hw, 4, true, 4, held);
    device::lemma_pin_driven(high4.hw, 5, true, 4, held);
    device::lemma_pin_driven(high4.hw, 5, true, 5, held);
    let gpd = held(out5.hw, Place::Block { blk: 2, addr: 0x3004 }) as u8;
    assert(((gpd >> 4) & 1 == 1 || (gpd >> 4) & 1 == 0) && ((gpd >> 5) & 1 == 1 || (gpd >> 5) & 1
        == 0)) by (bit_vector);
}

/// A receiver that has come up samples at 2.048 MSPS, by its crystal of 28.8 MHz. Its
/// demodulator takes back the intermediate frequency of the chip, samples the chip's signal
/// the way the chip delivers it, and its endpoint runs.
#[verifier::rlimit(40)]
#[verifier::spinoff_prover]
pub proof fn lemma_receiver_comes_up<H: HardwareInterface>(
    hw: H,
    is_v4: bool,
    held: spec_fn(H, Place) -> int,
)
    requires
        record::is_memory(held),
        brought_up(hw, is_v4).res is Ok,
    ensures
        ({
            let up = brought_up(hw, is_v4);
            let (chip, xtal_hz) = up.res->Ok_0;
            let p0 = |addr: u16| held(up.hw, Place::Demod { page: 0, addr });
            let p1 = |addr: u16| held(up.hw, Place::Demod { page: 1, addr });
            let rate = 0x1_0000 * p1(0x9f) + p1(0xa1);
            let shift = 0x1_0000 * p1(0x19) + 0x100 * p1(0x1a) + p1(0x1b);
            let if_hz = Tuner::<H>::if_hz(chip);
            let zero_if = chip is E4k && !is_v4;
            &&& xtal_hz == 28_800_000
            &&& if_hz == if chip is E4k {
                0u64
            } else {
                2_300_000
            }
            &&& rate == 28_800_000 * 0x40_0000 / 2_048_000
            &&& 0 <= shift < 0x40_0000
            &&& (shift + if_hz * 0x40_0000 / 28_800_000) % 0x40_0000 == 0
            &&& p1(0x15) == 1
            &&& p1(0xb1) == if zero_if {
                0x1bint
            } else {
                0x1a
            }
            &&& p0(0x08) == if zero_if {
                0xcdint
            } else {
                0x4d
            }
            &&& held(up.hw, Place::Block { blk: 1, addr: 0x2148 }) == 0
        }),
{
    let powered = if is_v4 {
        v4_powered_up(hw)
    } else {
        Exchange::begin(hw)
    };
    let found = device::probe(powered.hw);
    let tuner_type = found.res->Ok_0;
    let chip = chip_for(is_v4, tuner_type)->0;
    lemma_driven_chips::<H>(is_v4, tuner_type);
    let init = Tuner::<H>::initialized(chip, found.hw);
    let switched = if_mode_set(init.hw, is_v4, tuner_type);
    let if_hz = initial_if(tuner_type);
    let set = Tuner::<H>::if_set(init.chip, switched.hw, if_hz as u64);
    let synced = demod_synced(set.hw, if_hz, 28_800_000);
    lemma_chip_initialized_stays(chip, found.hw);
    assert(chip_started(chip, found.hw, is_v4, tuner_type).hw == synced.hw);
    demod::lemma_inputs_sampled(init.hw, held);
    lemma_if_set_keeps_demod(init.chip, switched.hw, if_hz as u64, held);
    let reset = demod::soft_reset(set.hw);
    let shifted = demod::if_freq_set(reset.hw, if_hz, 28_800_000);
    let rated = demod::sample_rate_set(shifted.hw, DEFAULT_SAMPLE_RATE, 28_800_000);
    demod::lemma_if_undone(reset.hw, if_hz, 28_800_000, held);
    demod::lemma_rate_held(shifted.hw, DEFAULT_SAMPLE_RATE, 28_800_000, held);
}

/// Initializing a chip does not turn it into another.
proof fn lemma_chip_initialized_stays<H: HardwareInterface>(chip: TunerChip, hw: H)
    ensures
        chip is E4k == Tuner::<H>::initialized(chip, hw).chip is E4k,
{
}

/// Setting the chip's intermediate frequency makes the chip report it, unless it has none,
/// and changes nothing in the demodulator but the switch of the I2C repeater.
proof fn lemma_if_set_keeps_demod<H: HardwareInterface>(
    chip: TunerChip,
    hw: H,
    if_hz: u64,
    held: spec_fn(H, Place) -> int,
)
    requires
        record::is_memory(held),
    ensures
        ({
            let s = Tuner::<H>::if_set(chip, hw, if_hz);
            &&& s.chip is E4k == chip is E4k
            &&& Tuner::<H>::if_hz(s.chip) == if chip is E4k {
                0
            } else {
                if_hz
            }
            &&& forall|page: u8, addr: u16|
                (page != 1 || addr != 1) ==> #[trigger] held(s.hw, Place::Demod { page, addr })
                    == held(hw, Place::Demod { page, addr })
        }),
{
}

/// A correction of the crystal is what tuning again and setting the rate again come to, once
/// the driver and the chip know of it. A receiver that is not tuned yet is not tuned.
pub proof fn lemma_correction_retunes<H: HardwareInterface, T: Tuner<H>>(
    driver: Driver<H, T>,
    ppm: i32,
)
    requires
        driver.tuner.can_set_ppm(ppm),
        225_000 <= driver.sample_rate <= 3_200_000,
    ensures
        ({
            let known = Driver { ppm, tuner: driver.tuner.with_ppm(ppm), ..driver };
            let tuned = if driver.frequency == 0 {
                known
            } else {
                known.tuned_if_possible(driver.frequency).driver
            };
            let o = driver.corrected_if_possible(ppm);
            &&& o.res is Ok
            &&& o.driver == tuned.rate_set_if_possible(driver.sample_rate).driver
        }),
{
}

/// After a correction whose last step succeeded, the demodulator's resampler goes by the
/// corrected crystal.
pub proof fn lemma_correction_reaches_resampler<H: HardwareInterface, T: Tuner<H>>(
    driver: Driver<H, T>,
    ppm: i32,
    held: spec_fn(H, Place) -> int,
)
    requires
        record::is_memory(held),
        driver.tuner.can_set_ppm(ppm),
        ({
            let d = driver.corrected(ppm).retuned();
            d.xtal() != 0 && d.rate_set(d.sample_rate).res is Ok
        }),
        0 <= driver.nominal_xtal * (1_000_000 + ppm) <= 1_000_000 * u32::MAX,
    ensures
        ({
            let after = driver.corrected_if_possible(ppm).driver;
            let word = 0x1_0000 * held(after.hw, Place::Demod { page: 1, addr: 0x9f }) + held(
                after.hw,
                Place::Demod { page: 1, addr: 0xa1 },
            );
            exists|xtal_hz: int|
                #![trigger xtal_hz * 0x40_0000]
                {
                    &&& -1_000_000 < 1_000_000 * xtal_hz - driver.nominal_xtal * (1_000_000 + ppm)
                        < 1_000_000
                    &&& 0 <= xtal_hz * 0x40_0000 / driver.sample_rate as int % 0x1000_0000 - word
                        % 0x1000_0000 < 4
                }
        }),
{
    let d = driver.corrected(ppm).retuned();
    lemma_ppm_remembered(driver, ppm);
    lemma_xtal_off_by_ppm(d);
    lemma_rate_reaches_resampler(d, d.sample_rate, held);
    assert(d.xtal() as int * 0x40_0000 == d.xtal() * 0x40_0000);
}

/// A gain that is asked for is handed to the chip as it is, and what the chip says of it is
/// the answer. Nothing of the receiver but the chip changes. A gain that no step can be
/// found for is refused.
pub proof fn lemma_gain_reaches_chip<H: HardwareInterface, T: Tuner<H>>(
    driver: Driver<H, T>,
    gain: GainSetting,
)
    ensures
        ({
            let o = driver.gained_if_possible(gain);
            let s = driver.tuner.gained(driver.hw, gain);
            if driver.tuner.can_set_gain(gain) {
                o.res == s.res && o.driver == (Driver { tuner: s.chip, hw: s.hw, ..driver })
            } else {
                o.res == Result::<Gain>::Err(Error::InvalidGain(gain.tenths)) && o.driver == driver
            }
        }),
{
}

/// Where the hardware performs everything and the chip can be tuned, so is the receiver, and
/// it remembers the frequency. A frequency that the arithmetic of tuning has no place for is
/// refused.
pub proof fn lemma_tuning_succeeds<H: HardwareInterface, T: Tuner<H>>(driver: Driver<H, T>, hz: u64)
    requires
        forall|h: H, op: BusOp| (#[trigger] h.ack(op)) is Ok,
        driver.orchestrator is Generic,
        driver.xtal() != 0,
    ensures
        ({
            let o = driver.tuned_if_possible(hz);
            let s = driver.tuner.with_notch(false).tuned(driver.hw, hz);
            if !driver.tuner.can_tune(hz) {
                o.res == Result::<u64>::Err(Error::InvalidFrequency(hz)) && o.driver == driver
            } else {
                &&& o.res == s.res
                &&& o.driver.tuner == s.chip
                &&& s.res is Ok ==> o.driver.frequency == hz && o.driver.flush_due
            }
        }),
{
}

/// Where the hardware performs everything and the chip takes the intermediate frequency,
/// every deliverable sample rate is set.
pub proof fn lemma_rate_succeeds<H: HardwareInterface, T: Tuner<H>>(
    driver: Driver<H, T>,
    rate_hz: u32,
)
    requires
        forall|h: H, op: BusOp| (#[trigger] h.ack(op)) is Ok,
        forall|if_hz: u64| (#[trigger] driver.tuner.if_set(driver.hw, if_hz)).res is Ok,
        driver.xtal() != 0,
    ensures
        driver.rate_set_if_possible(rate_hz).res is Ok <==> 225_000 <= rate_hz <= 3_200_000,
{
}

/// Setting the sample rate resets the demodulator, once the chip has taken its intermediate
/// frequency, and before anything else is told to the demodulator.
pub proof fn lemma_rate_resets_first<H: HardwareInterface, T: Tuner<H>>(
    driver: Driver<H, T>,
    rate_hz: u32,
    done: spec_fn(H) -> Seq<BusOp>,
)
    requires
        record::is_record(done),
        driver.xtal() != 0,
        driver.rate_set(rate_hz).res is Ok,
    ensures
        ({
            let if_hz = if driver.tuner.if_hz() == 0 {
                0u64
            } else if rate_hz < 2_500_000 {
                2_300_000
            } else {
                3_570_000
            };
            let before = done(driver.tuner.if_set(driver.hw, if_hz).hw);
            let after = done(driver.rate_set(rate_hz).driver.hw);
            &&& after.len() == before.len() + 10
            &&& after.take(before.len() as int + 2) == before + seq![
                BusOp::DemodWriteReg { page: 1, addr: 0x01, val: 0x14 },
                BusOp::DemodWriteReg { page: 1, addr: 0x01, val: 0x10 },
            ]
        }),
{
    let before = done(driver.tuner.if_set(driver.hw, if_for_rate(driver.tuner.if_hz(), rate_hz)).hw);
    let after = done(driver.rate_set(rate_hz).driver.hw);
    assert(after.take(before.len() as int + 2) =~= before + seq![
        BusOp::DemodWriteReg { page: 1, addr: 0x01, val: 0x14 },
        BusOp::DemodWriteReg { page: 1, addr: 0x01, val: 0x10 },
    ]);
}

/// A chip that is found but cannot be driven is an error that names it, and nothing has been
/// done with it.
pub proof fn lemma_other_chips_refused<H: HardwareInterface>(hw: H, tuner_type: TunerType)
    requires
        device::probe(hw).res == Result::<TunerType>::Ok(tuner_type),
        tuner_type == TunerType::FC0012 || tuner_type == TunerType::FC0013 || tuner_type is Unknown,
    ensures
        brought_up(hw, false).res == Result::<(TunerChip, u32)>::Err(
            Error::UnsupportedTuner(tuner_type),
        ),
        brought_up(hw, false).hw == device::probe(hw).hw,
{
}

/// Starting the baseband is what the demodulator does for it and a tenth of a second.
pub proof fn lemma_baseband_settles<H: HardwareInterface>(
    hw: H,
    held: spec_fn(H, Place) -> int,
    done: spec_fn(H) -> Seq<BusOp>,
)
    requires
        record::is_memory(held),
        record::is_record(done),
        baseband_started(hw).res is Ok,
    ensures
        ({
            let after = baseband_started(hw).hw;
            &&& demod::baseband_init(hw).res is Ok
            &&& done(after) == done(demod::baseband_init(hw).hw).push(BusOp::Sleep { ms: 100 })
            &&& held(after, Place::Block { blk: 2, addr: 0x3000 }) == 0xe8
        }),
{
    demod::lemma_baseband_started(hw, held);
}

/// The demodulator is set up for the first samples by twelve writes: it is reset first, and
/// the endpoint is started last.
pub proof fn lemma_sync_in_order<H: HardwareInterface>(
    hw: H,
    if_hz: u32,
    xtal_hz: u32,
    done: spec_fn(H) -> Seq<BusOp>,
)
    requires
        record::is_record(done),
        demod_synced(hw, if_hz, xtal_hz).res is Ok,
    ensures
        ({
            let before = done(hw);
            let after = done(demod_synced(hw, if_hz, xtal_hz).hw);
            let n = before.len() as int;
            &&& after.len() == n + 12
            &&& after.take(n + 2) == before + seq![
                BusOp::DemodWriteReg { page: 1, addr: 0x01, val: 0x14 },
                BusOp::DemodWriteReg { page: 1, addr: 0x01, val: 0x10 },
            ]
            &&& after[n + 9] == BusOp::DemodWriteReg { page: 1, addr: 0x15, val: 0x01 }
            &&& after[n + 10] == BusOp::WriteReg16 { blk: 1, addr: 0x2148, val16: 0x1002 }
            &&& after[n + 11] == BusOp::WriteReg16 { blk: 1, addr: 0x2148, val16: 0x0000 }
        }),
{
    let before = done(hw);
    let after = done(demod_synced(hw, if_hz, xtal_hz).hw);
    assert(after.take(before.len() as int + 2) =~= before + seq![
        BusOp::DemodWriteReg { page: 1, addr: 0x01, val: 0x14 },
        BusOp::DemodWriteReg { page: 1, addr: 0x01, val: 0x10 },
    ]);
}

/// Where the chip cannot be tuned, the demodulator is left alone, and the receiver stays
/// where it is.
pub proof fn lemma_failed_tuning_stops<H: HardwareInterface, T: Tuner<H>>(
    driver: Driver<H, T>,
    hz: u64,
)
    requires
        driver.can_tune_to(hz),
    ensures
        ({
            let plan = driver.orchestrator.plan(hz);
            let s = driver.tuner.with_notch(plan.in_notch).tuned(driver.hw, plan.tuner_hz);
            let o = driver.tuned(hz);
            s.res matches Err(e) ==> o.res == Result::<u64>::Err(e) && o.driver.hw == s.hw
                && o.driver.frequency == driver.frequency
        }),
{
}

/// Where the hardware performs everything, a receiver comes up exactly if it carries a chip
/// that can be driven.
pub proof fn lemma_coming_up_succeeds<H: HardwareInterface>(hw: H, is_v4: bool)
    requires
        record::is_willing::<H>(),
    ensures
        ({
            let ready = if is_v4 {
                v4_powered_up(hw).hw
            } else {
                hw
            };
            let found = device::probe(ready).res;
            &&& found is Ok
            &&& brought_up(hw, is_v4).res is Ok <==> match found->Ok_0 {
                TunerType::R820T | TunerType::R828D | TunerType::E4000 => true,
                TunerType::Unknown(_) => is_v4,
                _ => false,
            }
        }),
{
    let powered = if is_v4 {
        v4_powered_up(hw)
    } else {
        Exchange::begin(hw)
    };
    assert(powered.res is Ok);
    let found = device::probe(powered.hw);
    let tuner_type = found.res->Ok_0;
    if let Some(chip) = chip_for(is_v4, tuner_type) {
        match chip {
            TunerChip::R82xx(c) => {
                r82xx::lemma_initialization_succeeds(c, found.hw);
            },
            TunerChip::E4k(c) => {
                e4k::lemma_initialization_succeeds(c, found.hw);
            },
        }
        let init = Tuner::<H>::initialized(chip, found.hw);
        let switched = if_mode_set(init.hw, is_v4, tuner_type);
        assert(init.res is Ok && switched.res is Ok);
        let if_hz = initial_if(tuner_type);
        let set = Tuner::<H>::if_set(init.chip, switched.hw, if_hz as u64);
        assert(set.res is Ok);
        assert(demod_synced(set.hw, if_hz, xtal_of(is_v4, tuner_type) as u32).res is Ok);
    }
}

/// Where the hardware performs everything and the chip's inputs can be switched, a V4 is
/// tuned where its chip is, to what the board's plan asks the chip for.
pub proof fn lemma_v4_tuning_succeeds<H: HardwareInterface, T: Tuner<H>>(
    driver: Driver<H, T>,
    hz: u64,
)
    requires
        record::is_willing::<H>(),
        forall|c: T, h: H, path: InputPath| (#[trigger] c.path_set(h, path)).res is Ok,
        driver.orchestrator is V4,
        driver.xtal() != 0,
    ensures
        ({
            let o = driver.tuned_if_possible(hz);
            let asked = if hz < 28_800_000 {
                (hz + 28_800_000) as u64
            } else {
                hz
            };
            let notched = hz < 28_800_000 || 85_000_000 <= hz <= 112_000_000 || 172_000_000 <= hz
                <= 242_000_000;
            let s = driver.tuner.with_notch(notched).tuned(driver.hw, asked);
            if driver.tuner.can_tune(asked) {
                o.res == s.res
            } else {
                o.res == Result::<u64>::Err(Error::InvalidFrequency(hz)) && o.driver == driver
            }
        }),
{
}

/// What the arithmetic has no place for is refused, and the receiver stays as it is.
pub proof fn lemma_impossible_refused<H: HardwareInterface, T: Tuner<H>>(
    driver: Driver<H, T>,
    rate_hz: u32,
    ppm: i32,
)
    ensures
        driver.xtal() == 0 ==> driver.rate_set_if_possible(rate_hz).driver == driver
            && driver.rate_set_if_possible(rate_hz).res == Result::<()>::Err(
            Error::InvalidSampleRate(rate_hz),
        ),
        !driver.tuner.can_set_ppm(ppm) ==> driver.corrected_if_possible(ppm).driver == driver
            && driver.corrected_if_possible(ppm).res == Result::<()>::Err(
            Error::Tuner(TunerFault::PpmOutOfRange { ppm }),
        ),
{
}

/// Once the chip of a board without inputs to switch has been tuned, tuning the receiver
/// changes nothing but the registers of the intermediate frequency and of the spectrum's
/// inversion.
pub proof fn lemma_tuning_changes_only<H: HardwareInterface, T: Tuner<H>>(
    driver: Driver<H, T>,
    hz: u64,
    held: spec_fn(H, Place) -> int,
    place: Place,
)
    requires
        record::is_memory(held),
        driver.orchestrator is Generic,
        driver.can_tune_to(hz),
        place matches Place::Demod { page, addr } ==> page != 1 || addr != 0x15 && (addr < 0x19
            || addr > 0x1b),
    ensures
        held(driver.tuned(hz).driver.hw, place) == held(
            driver.tuner.with_notch(false).tuned(driver.hw, hz).hw,
            place,
        ),
{
}

/// Once the chip of a V4 has been tuned, tuning the receiver changes besides these registers
/// only the GPIO pins, and registers 0x05 and 0x06 of the chip.
pub proof fn lemma_v4_tuning_changes_only<H: HardwareInterface>(
    driver: Driver<H, R82xx>,
    hz: u64,
    held: spec_fn(H, Place) -> int,
    place: Place,
)
    requires
        record::is_memory(held),
        driver.orchestrator is V4,
        driver.can_tune_to(hz),
        match place {
            Place::Demod { page, addr } => page != 1 || addr != 0x01 && addr != 0x15 && (addr < 0x19
                || addr > 0x1b),
            Place::Block { blk, addr } => blk != 2 || addr != 0x3001 && addr != 0x3003 && addr
                != 0x3004,
            Place::Chip { chip, reg } => chip != driver.tuner.i2c_addr || reg != 0x05 && reg != 0x06,
        },
    ensures
        ({
            let plan = driver.orchestrator.plan(hz);
            let chip = Tuner::<H>::with_notch(driver.tuner, plan.in_notch);
            held(driver.tuned(hz).driver.hw, place) == held(
                Tuner::<H>::tuned(chip, driver.hw, plan.tuner_hz).hw,
                place,
            )
        }),
{
    let plan = driver.orchestrator.plan(hz);
    let chip = Tuner::<H>::with_notch(driver.tuner, plan.in_notch);
    let s = Tuner::<H>::tuned(chip, driver.hw, plan.tuner_hz);
    r82xx::lemma_tuned_keeps(chip, driver.hw, plan.tuner_hz);
    let path = plan.input_path->0;
    let switched = path_applied(s.chip, s.hw, path);
    assert(held(switched.hw, place) == held(s.hw, place));
}

/// Once the chip has taken its intermediate frequency, setting the sample rate changes
/// nothing but the demodulator's registers for the reset, the rate, the intermediate
/// frequency and the spectrum's inversion.
pub proof fn lemma_rate_changes_only<H: HardwareInterface, T: Tuner<H>>(
    driver: Driver<H, T>,
    rate_hz: u32,
    held: spec_fn(H, Place) -> int,
    place: Place,
)
    requires
        record::is_memory(held),
        225_000 <= rate_hz <= 3_200_000,
        place matches Place::Demod { page, addr } ==> page != 1 || addr != 0x01 && addr != 0x15
            && addr != 0x19 && addr != 0x1a && addr != 0x1b && addr != 0x3e && addr != 0x3f && addr
            != 0x9f && addr != 0xa1,
    ensures
        ({
            let if_hz = if driver.tuner.if_hz() == 0 {
                0u64
            } else if rate_hz < 2_500_000 {
                2_300_000
            } else {
                3_570_000
            };
            held(driver.rate_set(rate_hz).driver.hw, place) == held(
                driver.tuner.if_set(driver.hw, if_hz).hw,
                place,
            )
        }),
{
}

/// Switching the bias tee changes nothing but GPIO registers.
pub proof fn lemma_bias_changes_only<H: HardwareInterface, T: Tuner<H>>(
    driver: Driver<H, T>,
    on: bool,
    held: spec_fn(H, Place) -> int,
    place: Place,
)
    requires
        record::is_memory(held),
        place matches Place::Block { blk, addr } ==> blk != 2 || addr != 0x3001 && addr != 0x3003
            && addr != 0x3004,
    ensures
        held(driver.bias_switched(on).driver.hw, place) == held(driver.hw, place),
{
}

/// The demodulator is switched to the way the tuner delivers its signal by three writes, and
/// left alone where there is no tuner to drive.
pub proof fn lemma_mode_in_three_writes<H: HardwareInterface>(
    hw: H,
    is_v4: bool,
    tuner_type: TunerType,
    done: spec_fn(H) -> Seq<BusOp>,
)
    requires
        record::is_record(done),
        if_mode_set(hw, is_v4, tuner_type).res is Ok,
    ensures
        ({
            let after = done(if_mode_set(hw, is_v4, tuner_type).hw);
            let low = is_v4 || tuner_type == TunerType::R820T || tuner_type == TunerType::R828D;
            if low {
                after == done(hw) + seq![
                    BusOp::DemodWriteReg { page: 1, addr: 0xb1, val: 0x1a },
                    BusOp::DemodWriteReg { page: 0, addr: 0x08, val: 0x4d },
                    BusOp::DemodWriteReg { page: 1, addr: 0x15, val: 0x01 },
                ]
            } else if tuner_type == TunerType::E4000 {
                after == done(hw) + seq![
                    BusOp::DemodWriteReg { page: 1, addr: 0xb1, val: 0x1b },
                    BusOp::DemodWriteReg { page: 0, addr: 0x08, val: 0xcd },
                    BusOp::DemodWriteReg { page: 1, addr: 0x15, val: 0x01 },
                ]
            } else {
                after == done(hw)
            }
        }),
{
}

} // verus!
