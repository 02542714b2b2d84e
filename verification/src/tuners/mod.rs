//! The tuner chip drivers.
use crate::device::HardwareInterface;
use crate::error::Result;
use crate::tuner::{FilterRange, Gain, GainSetting, InputPath, Session, Tuner, TunerType};
use crate::tuners::e4k::E4k;
use crate::tuners::r82xx::R82xx;
use vstd::prelude::*;

pub mod e4k;
pub mod fc001x;
pub mod r828d;
pub mod r82xx;
pub mod rafael;

verus! {

// ── A tuner that does nothing ───────────────────────────────────────────────
/// A tuner that accepts everything and does nothing.
pub struct DummyTuner;

impl<H: HardwareInterface> Tuner<H> for DummyTuner {
    open spec fn initialized(self, hw: H) -> Session<Self, H, ()> {
        Session::begin(self, hw)
    }

    open spec fn can_tune(self, hz: u64) -> bool {
        true
    }

    open spec fn tuned(self, hw: H, hz: u64) -> Session<Self, H, u64> {
        Session { chip: self, hw, res: Ok(hz) }
    }

    open spec fn can_set_gain(self, gain: GainSetting) -> bool {
        true
    }

    open spec fn gained(self, hw: H, gain: GainSetting) -> Session<Self, H, Gain> {
        Session { chip: self, hw, res: Ok(Gain::Exact(gain.db)) }
    }

    open spec fn gain(self) -> Gain {
        Gain::Tenths(0)
    }

    open spec fn filters(self) -> Seq<FilterRange> {
        Seq::empty()
    }

    open spec fn if_set(self, hw: H, hz: u64) -> Session<Self, H, ()> {
        Session::begin(self, hw)
    }

    open spec fn if_hz(self) -> u64 {
        0
    }

    open spec fn bandwidth_set(self, hw: H, hz: u32) -> Session<Self, H, ()> {
        Session::begin(self, hw)
    }

    open spec fn can_set_ppm(self, ppm: i32) -> bool {
        true
    }

    open spec fn with_ppm(self, ppm: i32) -> Self {
        self
    }

    open spec fn path_set(self, hw: H, path: InputPath) -> Session<Self, H, ()> {
        Session::begin(self, hw)
    }

    open spec fn with_notch(self, in_notch_band: bool) -> Self {
        self
    }

    open spec fn steps(self) -> Seq<i32> {
        Seq::empty()
    }

    open spec fn gained_by_index(self, hw: H, idx: usize) -> Session<Self, H, Gain> {
        Session { chip: self, hw, res: Ok(Gain::Tenths(0)) }
    }

    proof fn lemma_notch_keeps_range(self, in_notch_band: bool, hz: u64) {
    }

    fn initialize(&mut self, hw: &mut H) -> (res: Result<()>) {
        Ok(())
    }

    fn is_tunable(&self, hz: u64) -> (b: bool) {
        true
    }

    fn set_frequency(&mut self, hw: &mut H, hz: u64) -> (res: Result<u64>) {
        Ok(hz)
    }

    fn is_gain_settable(&self, gain: GainSetting) -> (b: bool) {
        true
    }

    fn set_gain(&mut self, hw: &mut H, gain: GainSetting) -> (res: Result<Gain>) {
        Ok(Gain::Exact(gain.db))
    }

    fn get_gain(&self) -> (res: Result<Gain>) {
        Ok(Gain::Tenths(0))
    }

    fn get_filters(&self) -> (ranges: Vec<FilterRange>) {
        Vec::new()
    }

    fn set_if_freq(&mut self, hw: &mut H, hz: u64) -> (res: Result<()>) {
        Ok(())
    }

    fn get_if_freq(&self) -> (hz: u64) {
        0
    }

    fn set_bandwidth(&mut self, hw: &mut H, hz: u32) -> (res: Result<()>) {
        Ok(())
    }

    fn is_ppm_settable(&self, ppm: i32) -> (b: bool) {
        true
    }

    fn set_ppm(&mut self, ppm: i32) -> (res: Result<()>) {
        Ok(())
    }

    fn set_input_path(&mut self, hw: &mut H, path: InputPath) -> (res: Result<()>) {
        Ok(())
    }

    fn apply_notch(&mut self, in_notch_band: bool) -> (res: Result<()>) {
        Ok(())
    }

    fn set_gain_by_index(&mut self, hw: &mut H, idx: usize) -> (res: Result<Gain>) {
        Ok(Gain::Tenths(0))
    }

    fn get_gain_table(&self) -> (steps: Vec<i32>) {
        Vec::new()
    }
}

// ── The chip found on a board ───────────────────────────────────────────────
/// The driver of whichever chip a board turned out to carry.
pub enum TunerChip {
    R82xx(R82xx),
    E4k(E4k),
}

/// A session of an R820T or R828D as a session of the chip found on a board.
pub open spec fn r82xx_session<H, T>(s: Session<R82xx, H, T>) -> Session<TunerChip, H, T> {
    Session { chip: TunerChip::R82xx(s.chip), hw: s.hw, res: s.res }
}

/// A session of an E4000 as a session of the chip found on a board.
pub open spec fn e4k_session<H, T>(s: Session<E4k, H, T>) -> Session<TunerChip, H, T> {
    Session { chip: TunerChip::E4k(s.chip), hw: s.hw, res: s.res }
}

impl TunerChip {
    /// Which chip it is.
    pub fn tuner_type(&self) -> (tuner_type: TunerType)
        ensures
            tuner_type == match *self {
                TunerChip::R82xx(chip) => chip.tuner_type,
                TunerChip::E4k(_) => TunerType::E4000,
            },
    {
        match self {
            TunerChip::R82xx(chip) => chip.tuner_type,
            TunerChip::E4k(_) => TunerType::E4000,
        }
    }
}

impl<H: HardwareInterface> Tuner<H> for TunerChip {
    open spec fn initialized(self, hw: H) -> Session<Self, H, ()> {
        match self {
            TunerChip::R82xx(chip) => r82xx_session(Tuner::<H>::initialized(chip, hw)),
            TunerChip::E4k(chip) => e4k_session(Tuner::<H>::initialized(chip, hw)),
        }
    }

    open spec fn can_tune(self, hz: u64) -> bool {
        match self {
            TunerChip::R82xx(chip) => Tuner::<H>::can_tune(chip, hz),
            TunerChip::E4k(chip) => Tuner::<H>::can_tune(chip, hz),
        }
    }

    open spec fn tuned(self, hw: H, hz: u64) -> Session<Self, H, u64> {
        match self {
            TunerChip::R82xx(chip) => r82xx_session(Tuner::<H>::tuned(chip, hw, hz)),
            TunerChip::E4k(chip) => e4k_session(Tuner::<H>::tuned(chip, hw, hz)),
        }
    }

    open spec fn can_set_gain(self, gain: GainSetting) -> bool {
        match self {
            TunerChip::R82xx(chip) => Tuner::<H>::can_set_gain(chip, gain),
            TunerChip::E4k(chip) => Tuner::<H>::can_set_gain(chip, gain),
        }
    }

    open spec fn gained(self, hw: H, gain: GainSetting) -> Session<Self, H, Gain> {
        match self {
            TunerChip::R82xx(chip) => r82xx_session(Tuner::<H>::gained(chip, hw, gain)),
            TunerChip::E4k(chip) => e4k_session(Tuner::<H>::gained(chip, hw, gain)),
        }
    }

    open spec fn gain(self) -> Gain {
        match self {
            TunerChip::R82xx(chip) => Tuner::<H>::gain(chip),
            TunerChip::E4k(chip) => Tuner::<H>::gain(chip),
        }
    }

    open spec fn filters(self) -> Seq<FilterRange> {
        match self {
            TunerChip::R82xx(chip) => Tuner::<H>::filters(chip),
            TunerChip::E4k(chip) => Tuner::<H>::filters(chip),
        }
    }

    open spec fn if_set(self, hw: H, hz: u64) -> Session<Self, H, ()> {
        match self {
            TunerChip::R82xx(chip) => r82xx_session(Tuner::<H>::if_set(chip, hw, hz)),
            TunerChip::E4k(chip) => e4k_session(Tuner::<H>::if_set(chip, hw, hz)),
        }
    }

    open spec fn if_hz(self) -> u64 {
        match self {
            TunerChip::R82xx(chip) => Tuner::<H>::if_hz(chip),
            TunerChip::E4k(chip) => Tuner::<H>::if_hz(chip),
        }
    }

    open spec fn bandwidth_set(self, hw: H, hz: u32) -> Session<Self, H, ()> {
        match self {
            TunerChip::R82xx(chip) => r82xx_session(Tuner::<H>::bandwidth_set(chip, hw, hz)),
            TunerChip::E4k(chip) => e4k_session(Tuner::<H>::bandwidth_set(chip, hw, hz)),
        }
    }

    open spec fn can_set_ppm(self, ppm: i32) -> bool {
        match self {
            TunerChip::R82xx(chip) => Tuner::<H>::can_set_ppm(chip, ppm),
            TunerChip::E4k(chip) => Tuner::<H>::can_set_ppm(chip, ppm),
        }
    }

    open spec fn with_ppm(self, ppm: i32) -> Self {
        match self {
            TunerChip::R82xx(chip) => TunerChip::R82xx(Tuner::<H>::with_ppm(chip, ppm)),
            TunerChip::E4k(chip) => TunerChip::E4k(Tuner::<H>::with_ppm(chip, ppm)),
        }
    }

    open spec fn path_set(self, hw: H, path: InputPath) -> Session<Self, H, ()> {
        match self {
            TunerChip::R82xx(chip) => r82xx_session(Tuner::<H>::path_set(chip, hw, path)),
            TunerChip::E4k(chip) => e4k_session(Tuner::<H>::path_set(chip, hw, path)),
        }
    }

    open spec fn with_notch(self, in_notch_band: bool) -> Self {
        match self {
            TunerChip::R82xx(chip) => TunerChip::R82xx(Tuner::<H>::with_notch(chip, in_notch_band)),
            TunerChip::E4k(chip) => TunerChip::E4k(Tuner::<H>::with_notch(chip, in_notch_band)),
        }
    }

    open spec fn steps(self) -> Seq<i32> {
        match self {
            TunerChip::R82xx(chip) => Tuner::<H>::steps(chip),
            TunerChip::E4k(chip) => Tuner::<H>::steps(chip),
        }
    }

    open spec fn gained_by_index(self, hw: H, idx: usize) -> Session<Self, H, Gain> {
        match self {
            TunerChip::R82xx(chip) => r82xx_session(Tuner::<H>::gained_by_index(chip, hw, idx)),
            TunerChip::E4k(chip) => e4k_session(Tuner::<H>::gained_by_index(chip, hw, idx)),
        }
    }

    proof fn lemma_notch_keeps_range(self, in_notch_band: bool, hz: u64) {
    }

    fn initialize(&mut self, hw: &mut H) -> (res: Result<()>) {
        match self {
            TunerChip::R82xx(chip) => Tuner::<H>::initialize(chip, hw),
            TunerChip::E4k(chip) => Tuner::<H>::initialize(chip, hw),
        }
    }

    fn is_tunable(&self, hz: u64) -> (b: bool) {
        match self {
            TunerChip::R82xx(chip) => Tuner::<H>::is_tunable(chip, hz),
            TunerChip::E4k(chip) => Tuner::<H>::is_tunable(chip, hz),
        }
    }

    fn set_frequency(&mut self, hw: &mut H, hz: u64) -> (res: Result<u64>) {
        match self {
            TunerChip::R82xx(chip) => Tuner::<H>::set_frequency(chip, hw, hz),
            TunerChip::E4k(chip) => Tuner::<H>::set_frequency(chip, hw, hz),
        }
    }

    fn is_gain_settable(&self, gain: GainSetting) -> (b: bool) {
        match self {
            TunerChip::R82xx(chip) => Tuner::<H>::is_gain_settable(chip, gain),
            TunerChip::E4k(chip) => Tuner::<H>::is_gain_settable(chip, gain),
        }
    }

    fn set_gain(&mut self, hw: &mut H, gain: GainSetting) -> (res: Result<Gain>) {
        match self {
            TunerChip::R82xx(chip) => Tuner::<H>::set_gain(chip, hw, gain),
            TunerChip::E4k(chip) => Tuner::<H>::set_gain(chip, hw, gain),
        }
    }

    fn get_gain(&self) -> (res: Result<Gain>) {
        match self {
            TunerChip::R82xx(chip) => Tuner::<H>::get_gain(chip),
            TunerChip::E4k(chip) => Tuner::<H>::get_gain(chip),
        }
    }

    fn get_filters(&self) -> (ranges: Vec<FilterRange>) {
        match self {
            TunerChip::R82xx(chip) => Tuner::<H>::get_filters(chip),
            TunerChip::E4k(chip) => Tuner::<H>::get_filters(chip),
        }
    }

    fn set_if_freq(&mut self, hw: &mut H, hz: u64) -> (res: Result<()>) {
        match self {
            TunerChip::R82xx(chip) => Tuner::<H>::set_if_freq(chip, hw, hz),
            TunerChip::E4k(chip) => Tuner::<H>::set_if_freq(chip, hw, hz),
        }
    }

    fn get_if_freq(&self) -> (hz: u64) {
        match self {
            TunerChip::R82xx(chip) => Tuner::<H>::get_if_freq(chip),
            TunerChip::E4k(chip) => Tuner::<H>::get_if_freq(chip),
        }
    }

    fn set_bandwidth(&mut self, hw: &mut H, hz: u32) -> (res: Result<()>) {
        match self {
            TunerChip::R82xx(chip) => Tuner::<H>::set_bandwidth(chip, hw, hz),
            TunerChip::E4k(chip) => Tuner::<H>::set_bandwidth(chip, hw, hz),
        }
    }

    fn is_ppm_settable(&self, ppm: i32) -> (b: bool) {
        match self {
            TunerChip::R82xx(chip) => Tuner::<H>::is_ppm_settable(chip, ppm),
            TunerChip::E4k(chip) => Tuner::<H>::is_ppm_settable(chip, ppm),
        }
    }

    fn set_ppm(&mut self, ppm: i32) -> (res: Result<()>) {
        match self {
            TunerChip::R82xx(chip) => Tuner::<H>::set_ppm(chip, ppm),
            TunerChip::E4k(chip) => Tuner::<H>::set_ppm(chip, ppm),
        }
    }

    fn set_input_path(&mut self, hw: &mut H, path: InputPath) -> (res: Result<()>) {
        match self {
            TunerChip::R82xx(chip) => Tuner::<H>::set_input_path(chip, hw, path),
            TunerChip::E4k(chip) => Tuner::<H>::set_input_path(chip, hw, path),
        }
    }

    fn apply_notch(&mut self, in_notch_band: bool) -> (res: Result<()>) {
        match self {
            TunerChip::R82xx(chip) => Tuner::<H>::apply_notch(chip, in_notch_band),
            TunerChip::E4k(chip) => Tuner::<H>::apply_notch(chip, in_notch_band),
        }
    }

    fn set_gain_by_index(&mut self, hw: &mut H, idx: usize) -> (res: Result<Gain>) {
        match self {
            TunerChip::R82xx(chip) => Tuner::<H>::set_gain_by_index(chip, hw, idx),
            TunerChip::E4k(chip) => Tuner::<H>::set_gain_by_index(chip, hw, idx),
        }
    }

    fn get_gain_table(&self) -> (steps: Vec<i32>) {
        match self {
            TunerChip::R82xx(chip) => Tuner::<H>::get_gain_table(chip),
            TunerChip::E4k(chip) => Tuner::<H>::get_gain_table(chip),
        }
    }
}

// ── Laws ────────────────────────────────────────────────────────────────────
/// The chip found on a board is driven as its own driver drives it: whatever is asked of an
/// R820T or R828D has the result and the effects that it has there.
pub proof fn lemma_driven_as_r82xx<H: HardwareInterface>(
    chip: R82xx,
    hw: H,
    hz: u64,
    bandwidth_hz: u32,
    gain: GainSetting,
    idx: usize,
    ppm: i32,
    path: InputPath,
    in_notch_band: bool,
)
    ensures
        ({
            let found = TunerChip::R82xx(chip);
            let init = Tuner::<H>::initialized(chip, hw);
            let tuned = Tuner::<H>::tuned(chip, hw, hz);
            let gained = Tuner::<H>::gained(chip, hw, gain);
            let stepped = Tuner::<H>::gained_by_index(chip, hw, idx);
            let shifted = Tuner::<H>::if_set(chip, hw, hz);
            let filtered = Tuner::<H>::bandwidth_set(chip, hw, bandwidth_hz);
            let switched = Tuner::<H>::path_set(chip, hw, path);
            &&& Tuner::<H>::initialized(found, hw).res == init.res
            &&& Tuner::<H>::initialized(found, hw).hw == init.hw
            &&& Tuner::<H>::initialized(found, hw).chip == TunerChip::R82xx(init.chip)
            &&& Tuner::<H>::tuned(found, hw, hz).res == tuned.res
            &&& Tuner::<H>::tuned(found, hw, hz).hw == tuned.hw
            &&& Tuner::<H>::tuned(found, hw, hz).chip == TunerChip::R82xx(tuned.chip)
            &&& Tuner::<H>::gained(found, hw, gain).res == gained.res
            &&& Tuner::<H>::gained(found, hw, gain).hw == gained.hw
            &&& Tuner::<H>::gained(found, hw, gain).chip == TunerChip::R82xx(gained.chip)
            &&& Tuner::<H>::gained_by_index(found, hw, idx).res == stepped.res
            &&& Tuner::<H>::gained_by_index(found, hw, idx).hw == stepped.hw
            &&& Tuner::<H>::gained_by_index(found, hw, idx).chip == TunerChip::R82xx(stepped.chip)
            &&& Tuner::<H>::if_set(found, hw, hz).res == shifted.res
            &&& Tuner::<H>::if_set(found, hw, hz).hw == shifted.hw
            &&& Tuner::<H>::if_set(found, hw, hz).chip == TunerChip::R82xx(shifted.chip)
            &&& Tuner::<H>::bandwidth_set(found, hw, bandwidth_hz).res == filtered.res
            &&& Tuner::<H>::bandwidth_set(found, hw, bandwidth_hz).hw == filtered.hw
            &&& Tuner::<H>::bandwidth_set(found, hw, bandwidth_hz).chip == TunerChip::R82xx(
                filtered.chip,
            )
            &&& Tuner::<H>::path_set(found, hw, path).res == switched.res
            &&& Tuner::<H>::path_set(found, hw, path).hw == switched.hw
            &&& Tuner::<H>::path_set(found, hw, path).chip == TunerChip::R82xx(switched.chip)
            &&& Tuner::<H>::with_ppm(found, ppm) == TunerChip::R82xx(
                Tuner::<H>::with_ppm(chip, ppm),
            )
            &&& Tuner::<H>::with_notch(found, in_notch_band) == TunerChip::R82xx(
                Tuner::<H>::with_notch(chip, in_notch_band),
            )
            &&& Tuner::<H>::can_tune(found, hz) == Tuner::<H>::can_tune(chip, hz)
            &&& Tuner::<H>::can_set_gain(found, gain) == Tuner::<H>::can_set_gain(chip, gain)
            &&& Tuner::<H>::can_set_ppm(found, ppm) == Tuner::<H>::can_set_ppm(chip, ppm)
            &&& Tuner::<H>::if_hz(found) == Tuner::<H>::if_hz(chip)
            &&& Tuner::<H>::gain(found) == Tuner::<H>::gain(chip)
            &&& Tuner::<H>::steps(found) == Tuner::<H>::steps(chip)
            &&& Tuner::<H>::filters(found) == Tuner::<H>::filters(chip)
        }),
{
}

/// Whatever is asked of an E4000 found on a board has the result and the effects that it has
/// with the chip's own driver.
pub proof fn lemma_driven_as_e4k<H: HardwareInterface>(
    chip: E4k,
    hw: H,
    hz: u64,
    gain: GainSetting,
    ppm: i32,
    bandwidth_hz: u32,
    path: InputPath,
    idx: usize,
)
    ensures
        ({
            let found = TunerChip::E4k(chip);
            let init = Tuner::<H>::initialized(chip, hw);
            let tuned = Tuner::<H>::tuned(chip, hw, hz);
            let gained = Tuner::<H>::gained(chip, hw, gain);
            &&& Tuner::<H>::initialized(found, hw).res == init.res
            &&& Tuner::<H>::initialized(found, hw).hw == init.hw
            &&& Tuner::<H>::initialized(found, hw).chip == TunerChip::E4k(init.chip)
            &&& Tuner::<H>::tuned(found, hw, hz).res == tuned.res
            &&& Tuner::<H>::tuned(found, hw, hz).hw == tuned.hw
            &&& Tuner::<H>::tuned(found, hw, hz).chip == TunerChip::E4k(tuned.chip)
            &&& Tuner::<H>::gained(found, hw, gain).res == gained.res
            &&& Tuner::<H>::gained(found, hw, gain).hw == gained.hw
            &&& Tuner::<H>::gained(found, hw, gain).chip == TunerChip::E4k(gained.chip)
            &&& Tuner::<H>::if_set(found, hw, hz).hw == hw
            &&& Tuner::<H>::if_set(found, hw, hz).chip == found
            &&& Tuner::<H>::if_set(found, hw, hz).res is Ok
            &&& Tuner::<H>::with_ppm(found, ppm) == TunerChip::E4k(Tuner::<H>::with_ppm(chip, ppm))
            &&& Tuner::<H>::can_tune(found, hz) == Tuner::<H>::can_tune(chip, hz)
            &&& Tuner::<H>::can_set_gain(found, gain) == Tuner::<H>::can_set_gain(chip, gain)
            &&& Tuner::<H>::can_set_ppm(found, ppm) == Tuner::<H>::can_set_ppm(chip, ppm)
            &&& Tuner::<H>::if_hz(found) == 0
            &&& Tuner::<H>::bandwidth_set(found, hw, bandwidth_hz).hw == hw
            &&& Tuner::<H>::path_set(found, hw, path).hw == hw
            &&& Tuner::<H>::gained_by_index(found, hw, idx).hw == hw
            &&& Tuner::<H>::gained_by_index(found, hw, idx).res == Result::<Gain>::Ok(
                Tuner::<H>::gain(chip),
            )
            &&& Tuner::<H>::with_notch(found, true) == found
            &&& Tuner::<H>::steps(found).len() == 0
            &&& Tuner::<H>::gain(found) == Tuner::<H>::gain(chip)
            &&& Tuner::<H>::filters(found) == Tuner::<H>::filters(chip)
        }),
{
}

/// A tuner that does nothing leaves the hardware alone and agrees with what is asked of it.
pub proof fn lemma_dummy_does_nothing<H: HardwareInterface>(
    hw: H,
    hz: u64,
    gain: GainSetting,
    bandwidth_hz: u32,
    path: InputPath,
)
    ensures
        Tuner::<H>::initialized(DummyTuner, hw).hw == hw,
        Tuner::<H>::tuned(DummyTuner, hw, hz).hw == hw,
        Tuner::<H>::tuned(DummyTuner, hw, hz).res == Result::<u64>::Ok(hz),
        Tuner::<H>::gained(DummyTuner, hw, gain).hw == hw,
        Tuner::<H>::gained(DummyTuner, hw, gain).res == Result::<Gain>::Ok(Gain::Exact(gain.db)),
        Tuner::<H>::if_set(DummyTuner, hw, hz).hw == hw,
        Tuner::<H>::bandwidth_set(DummyTuner, hw, bandwidth_hz).hw == hw,
        Tuner::<H>::path_set(DummyTuner, hw, path).hw == hw,
        Tuner::<H>::can_tune(DummyTuner, hz),
        Tuner::<H>::can_set_gain(DummyTuner, gain),
{
}

} // verus!
