//! What tuner chips have in common, and what boards add to them.
use crate::device::{self, BusOp, Exchange, HardwareInterface};
use crate::error::Result;
use vstd::prelude::*;

verus! {

/// The tuner chips found behind an RTL2832U.
#[derive(Debug, Clone, Copy, PartialEq, Eq, Structural)]
pub enum TunerType {
    R820T,
    R828D,
    E4000,
    FC0012,
    FC0013,
    Unknown(u8),
}

impl TunerType {
    /// The number by which rtl_tcp clients know the chip.
    pub fn id(&self) -> (id: u32)
        ensures
            id == match *self {
                TunerType::Unknown(_) => 0u32,
                TunerType::E4000 => 1,
                TunerType::FC0012 => 2,
                TunerType::FC0013 => 3,
                TunerType::R820T => 5,
                TunerType::R828D => 6,
            },
    {
        match self {
            TunerType::Unknown(_) => 0,
            TunerType::E4000 => 1,
            TunerType::FC0012 => 2,
            TunerType::FC0013 => 3,
            TunerType::R820T => 5,
            TunerType::R828D => 6,
        }
    }
}

/// A range of frequencies that one filter covers.
#[derive(Debug, Clone, Copy, PartialEq, Eq, Structural)]
pub struct FilterRange {
    pub start_hz: u64,
    pub end_hz: u64,
}

// ── Gain ────────────────────────────────────────────────────────────────────
/// A level in decibels, held as the bits of its IEEE 754 single-precision form.
#[derive(Debug, Clone, Copy, PartialEq, Eq, Structural)]
pub struct Decibels {
    pub bits: u32,
}

/// The bits of positive infinity; greater magnitudes are not numbers.
pub const INFINITY_BITS: u32 = 0x7f80_0000;

/// The bits of 1.0.
pub const ONE_BITS: u32 = 0x3f80_0000;

/// The sign bit.
pub const SIGN_BIT: u32 = 0x8000_0000;

impl Decibels {
    pub open spec fn is_negative(self) -> bool {
        self.bits >= SIGN_BIT
    }

    /// The bits without the sign: they order as the absolute values do.
    pub open spec fn magnitude(self) -> int {
        self.bits as int % SIGN_BIT as int
    }

    pub open spec fn is_number(self) -> bool {
        self.magnitude() <= INFINITY_BITS
    }

    /// A number that orders as the levels do.
    pub open spec fn rank(self) -> int {
        if self.is_negative() {
            -self.magnitude()
        } else {
            self.magnitude()
        }
    }

    /// Whether the level is below another.
    pub open spec fn is_below(self, other: Decibels) -> bool {
        self.is_number() && other.is_number() && self.rank() < other.rank()
    }

    /// Whether the level is below another. No order holds of what is no number.
    pub fn below(&self, other: &Decibels) -> (b: bool)
        ensures
            b == self.is_below(*other),
    {
        let here: u32 = self.bits % SIGN_BIT;
        let there: u32 = other.bits % SIGN_BIT;
        if here > INFINITY_BITS || there > INFINITY_BITS {
            return false;
        }
        match (self.bits >= SIGN_BIT, other.bits >= SIGN_BIT) {
            (false, false) => here < there,
            (true, true) => there < here,
            // Both zeros are the same level.
            (true, false) => here > 0 || there > 0,
            (false, true) => false,
        }
    }

    /// Whether the level is at most zero. No order holds of what is no number.
    pub fn at_most_zero(&self) -> (b: bool)
        ensures
            b == (self.is_number() && (self.is_negative() || self.magnitude() == 0)),
    {
        let magnitude: u32 = self.bits % SIGN_BIT;
        magnitude <= INFINITY_BITS && (self.bits >= SIGN_BIT || magnitude == 0)
    }

    /// Whether the level is below one decibel. No order holds of what is no
    /// number.
    pub fn below_one(&self) -> (b: bool)
        ensures
            b == (self.is_number() && (self.is_negative() || self.magnitude() < ONE_BITS)),
    {
        let magnitude: u32 = self.bits % SIGN_BIT;
        magnitude <= INFINITY_BITS && (self.bits >= SIGN_BIT || magnitude < ONE_BITS)
    }
}

/// A gain to be set: the level, and the level in tenths of a decibel with what
/// is left of a tenth cut off.
#[derive(Debug, Clone, Copy, PartialEq, Eq, Structural)]
pub struct GainSetting {
    pub db: Decibels,
    pub tenths: i32,
}

/// A gain that was set.
#[derive(Debug, Clone, Copy, PartialEq, Eq, Structural)]
pub enum Gain {
    /// One of the chip's steps, in tenths of a decibel.
    Tenths(i32),
    /// The level as it was asked for.
    Exact(Decibels),
}

/// Whether no step of `steps` is nearer to `target` than step `idx`, and none
/// before it is as near.
pub open spec fn is_nearest_step(steps: Seq<i32>, target: i32, idx: int) -> bool {
    &&& 0 <= idx < steps.len()
    &&& forall|j: int|
        0 <= j < steps.len() ==> distance(steps[idx], target) <= distance(
            #[trigger] steps[j],
            target,
        )
    &&& forall|j: int|
        0 <= j < idx ==> distance(steps[idx], target) < distance(#[trigger] steps[j], target)
}

pub open spec fn distance(step: i32, target: i32) -> int {
    if step >= target {
        step - target
    } else {
        target - step
    }
}

/// The position of the step nearest to `target`.
pub open spec fn nearest(steps: Seq<i32>, target: i32) -> int {
    choose|idx: int| is_nearest_step(steps, target, idx)
}

/// Whether the distance of every step to `target` can be written as an `i32`.
pub open spec fn distances_fit(steps: Seq<i32>, target: i32) -> bool {
    forall|j: int|
        0 <= j < steps.len() ==> -i32::MAX <= #[trigger] steps[j] - target <= i32::MAX
}

/// The position of the step nearest to `target`, the first of those that are
/// equally near.
pub fn nearest_step(steps: &[i32], target: i32) -> (idx: usize)
    requires
        steps@.len() > 0,
        distances_fit(steps@, target),
    ensures
        is_nearest_step(steps@, target, idx as int),
        idx == nearest(steps@, target),
{
    let mut idx: usize = 0;
    let mut i: usize = 1;
    while i < steps.len()
        invariant
            distances_fit(steps@, target),
            0 < i <= steps@.len(),
            idx < i,
            forall|j: int|
                0 <= j < i ==> distance(steps@[idx as int], target) <= distance(
                    #[trigger] steps@[j],
                    target,
                ),
            forall|j: int|
                0 <= j < idx ==> distance(steps@[idx as int], target) < distance(
                    #[trigger] steps@[j],
                    target,
                ),
        decreases steps@.len() - i,
    {
        assert(-i32::MAX <= steps@[i as int] - target <= i32::MAX);
        assert(-i32::MAX <= steps@[idx as int] - target <= i32::MAX);
        let here: i32 = steps[i] - target;
        let best: i32 = steps[idx] - target;
        let here_abs: i32 = if here >= 0 {
            here
        } else {
            -here
        };
        let best_abs: i32 = if best >= 0 {
            best
        } else {
            -best
        };
        if here_abs < best_abs {
            idx = i;
        }
        i = i + 1;
    }
    proof {
        lemma_nearest_step_unique(steps@, target, idx as int, nearest(steps@, target));
    }
    idx
}

/// Among some steps there is one that is nearest.
pub proof fn lemma_nearest_exists(steps: Seq<i32>, target: i32)
    requires
        steps.len() > 0,
    ensures
        is_nearest_step(steps, target, nearest(steps, target)),
{
    let idx = lemma_some_nearest(steps, target, steps.len());
    assert(is_nearest_step(steps, target, idx));
}

/// The nearest of the first `n` steps.
proof fn lemma_some_nearest(steps: Seq<i32>, target: i32, n: nat) -> (idx: int)
    requires
        0 < n <= steps.len(),
    ensures
        0 <= idx < n,
        forall|j: int|
            0 <= j < n ==> distance(steps[idx], target) <= distance(#[trigger] steps[j], target),
        forall|j: int|
            0 <= j < idx ==> distance(steps[idx], target) < distance(#[trigger] steps[j], target),
    decreases n,
{
    if n == 1 {
        0
    } else {
        let before = lemma_some_nearest(steps, target, (n - 1) as nat);
        if distance(steps[n - 1], target) < distance(steps[before], target) {
            n - 1
        } else {
            before
        }
    }
}

/// Two positions that are both nearest are the same.
pub proof fn lemma_nearest_step_unique(steps: Seq<i32>, target: i32, a: int, b: int)
    requires
        is_nearest_step(steps, target, a),
        is_nearest_step(steps, target, b),
    ensures
        a == b,
{
    assert(distance(steps[a], target) <= distance(steps[b], target));
    assert(distance(steps[b], target) <= distance(steps[a], target));
    if a < b {
        assert(distance(steps[b], target) < distance(steps[a], target));
    } else if b < a {
        assert(distance(steps[a], target) < distance(steps[b], target));
    }
}

// ── Boards ──────────────────────────────────────────────────────────────────
/// The antenna inputs of the RTL-SDR Blog V4.
#[derive(Debug, Clone, Copy, PartialEq, Eq, Structural)]
pub enum InputPath {
    Hf,
    Vhf,
    Uhf,
}

/// A calculated plan for tuning to a specific frequency on a specific board.
#[derive(Debug, Clone, Copy, PartialEq, Eq, Structural)]
pub struct TuningPlan {
    /// The actual frequency to request from the tuner chip.
    pub tuner_hz: u64,
    /// Whether the spectrum needs to be inverted (e.g., for V4 HF path).
    pub spectral_inv: bool,
    /// The triplexer input path to select (if any).
    pub input_path: Option<InputPath>,
    /// Whether the frequency falls within a board-level notch filter band.
    pub in_notch: bool,
}

/// Board-level configuration and logic.
#[derive(Debug, Clone, Copy, PartialEq, Eq, Structural)]
pub enum BoardConfig {
    /// Generic RTL-SDR dongle: no special GPIO or triplexer logic.
    Generic,
    /// RTL-SDR Blog V4: R828D chip, external triplexer on GPIO 5 and dynamic
    /// notch filters for the FM and AM bands.
    BlogV4,
}

/// Turns a requested frequency into what a board needs to receive it.
pub trait BoardOrchestrator {
    /// The plan for `hz`.
    spec fn plan(&self, hz: u64) -> TuningPlan;

    /// Calculate the tuning plan for a requested frequency.
    fn plan_tuning(&self, hz: u64) -> (plan: TuningPlan)
        ensures
            plan == self.plan(hz),
    ;
}

/// Tunes to what is asked for.
#[derive(Debug, Clone, Copy, PartialEq, Eq, Structural)]
pub struct GenericOrchestrator;

pub open spec fn generic_plan(hz: u64) -> TuningPlan {
    TuningPlan { tuner_hz: hz, spectral_inv: false, input_path: None, in_notch: false }
}

impl BoardOrchestrator for GenericOrchestrator {
    open spec fn plan(&self, hz: u64) -> TuningPlan {
        generic_plan(hz)
    }

    fn plan_tuning(&self, hz: u64) -> (plan: TuningPlan) {
        TuningPlan { tuner_hz: hz, spectral_inv: false, input_path: None, in_notch: false }
    }
}

/// By how much the V4's upconverter raises what is below it, in Hz.
pub const UPCONVERTER_HZ: u64 = 28_800_000;

/// Where the V4 switches from its VHF to its UHF input, in Hz.
pub const UHF_START_HZ: u64 = 250_000_000;

/// The input that serves `hz` on a V4.
pub open spec fn v4_input(hz: u64) -> InputPath {
    if hz < UPCONVERTER_HZ {
        InputPath::Hf
    } else if hz < UHF_START_HZ {
        InputPath::Vhf
    } else {
        InputPath::Uhf
    }
}

/// Whether `hz` lies in a notch band of the V4: all that goes through the
/// upconverter, FM broadcast, and VHF television.
pub open spec fn v4_in_notch(hz: u64) -> bool {
    ||| hz < UPCONVERTER_HZ
    ||| 85_000_000 <= hz <= 112_000_000
    ||| 172_000_000 <= hz <= 242_000_000
}

pub open spec fn v4_plan(hz: u64) -> TuningPlan {
    TuningPlan {
        tuner_hz: if hz < UPCONVERTER_HZ {
            (hz + UPCONVERTER_HZ) as u64
        } else {
            hz
        },
        spectral_inv: hz < UPCONVERTER_HZ,
        input_path: Some(v4_input(hz)),
        in_notch: v4_in_notch(hz),
    }
}

/// Handles the upconverter, triplexer and notch filters of the V4.
#[derive(Debug, Clone, Copy, PartialEq, Eq, Structural)]
pub struct V4Orchestrator;

impl BoardOrchestrator for V4Orchestrator {
    open spec fn plan(&self, hz: u64) -> TuningPlan {
        v4_plan(hz)
    }

    fn plan_tuning(&self, hz: u64) -> (plan: TuningPlan) {
        let mut tuner_hz: u64 = hz;
        let mut spectral_inv = false;

        // Below the upconverter's offset the signal arrives raised by it, with
        // its spectrum mirrored.
        if hz < UPCONVERTER_HZ {
            tuner_hz = tuner_hz + UPCONVERTER_HZ;
            spectral_inv = true;
        }
        let input_path = if hz < UPCONVERTER_HZ {
            Some(InputPath::Hf)
        } else if hz < UHF_START_HZ {
            Some(InputPath::Vhf)
        } else {
            Some(InputPath::Uhf)
        };

        let in_notch = hz < UPCONVERTER_HZ || (85_000_000 <= hz && hz <= 112_000_000) || (
        172_000_000 <= hz && hz <= 242_000_000);

        TuningPlan { tuner_hz, spectral_inv, input_path, in_notch }
    }
}

/// The orchestrator of either board.
#[derive(Debug, Clone, Copy, PartialEq, Eq, Structural)]
pub enum Orchestrator {
    Generic(GenericOrchestrator),
    V4(V4Orchestrator),
}

impl BoardOrchestrator for Orchestrator {
    open spec fn plan(&self, hz: u64) -> TuningPlan {
        match self {
            Orchestrator::Generic(o) => o.plan(hz),
            Orchestrator::V4(o) => o.plan(hz),
        }
    }

    fn plan_tuning(&self, hz: u64) -> (plan: TuningPlan) {
        match self {
            Orchestrator::Generic(o) => o.plan_tuning(hz),
            Orchestrator::V4(o) => o.plan_tuning(hz),
        }
    }
}

impl BoardConfig {
    /// The orchestrator that serves the board.
    pub fn orchestrator(&self) -> (orchestrator: Orchestrator)
        ensures
            forall|hz: u64| #[trigger]
                orchestrator.plan(hz) == match *self {
                    BoardConfig::Generic => generic_plan(hz),
                    BoardConfig::BlogV4 => v4_plan(hz),
                },
            orchestrator == match *self {
                BoardConfig::Generic => Orchestrator::Generic(GenericOrchestrator),
                BoardConfig::BlogV4 => Orchestrator::V4(V4Orchestrator),
            },
    {
        match self {
            BoardConfig::Generic => Orchestrator::Generic(GenericOrchestrator),
            BoardConfig::BlogV4 => Orchestrator::V4(V4Orchestrator),
        }
    }
}

/// On a V4 the upconverter, the mirrored spectrum and the HF input go together, and
/// what goes through the upconverter is in a notch band.
pub proof fn lemma_v4_hf_path(hz: u64)
    ensures
        ({
            let plan = v4_plan(hz);
            let hf = plan.input_path == Some(InputPath::Hf);
            &&& plan.spectral_inv == hf
            &&& plan.tuner_hz == if hf {
                hz + UPCONVERTER_HZ
            } else {
                hz as int
            }
            &&& hf ==> plan.in_notch
        }),
{
}

/// What the tuner of a V4 is asked for is never below the upconverter's offset, and
/// different frequencies on one input stay different.
pub proof fn lemma_v4_tuner_frequency(a: u64, b: u64)
    ensures
        v4_plan(a).tuner_hz >= UPCONVERTER_HZ,
        v4_plan(a).input_path == v4_plan(b).input_path && v4_plan(a).tuner_hz
            == v4_plan(b).tuner_hz ==> a == b,
{
}

// ── Crystals ────────────────────────────────────────────────────────────────
/// `ppm` millionths of `nominal_hz`, cut off towards zero.
pub open spec fn ppm_offset(nominal_hz: int, ppm: int) -> int {
    if nominal_hz * ppm >= 0 {
        nominal_hz * ppm / 1_000_000
    } else {
        -(-(nominal_hz * ppm) / 1_000_000)
    }
}

/// Whether the arithmetic of [`correct_xtal`] is possible.
pub open spec fn can_correct_xtal(nominal_hz: int, ppm: int) -> bool {
    &&& nominal_hz <= i64::MAX
    &&& i64::MIN <= nominal_hz * ppm <= i64::MAX
    &&& i64::MIN <= nominal_hz + ppm_offset(nominal_hz, ppm) <= i64::MAX
}

/// Whether a crystal of `nominal_hz` can be corrected by `ppm`.
pub fn is_correctable(nominal_hz: u64, ppm: i32) -> (b: bool)
    ensures
        b == can_correct_xtal(nominal_hz as int, ppm as int),
{
    let wide: i128 = nominal_hz as i128;
    proof {
        assert(-0x1_0000_0000_0000_0000_0000_0000 <= nominal_hz * ppm
            <= 0x1_0000_0000_0000_0000_0000_0000)
            by (nonlinear_arith)
            requires
                0 <= nominal_hz <= u64::MAX,
                i32::MIN <= ppm <= i32::MAX,
        ;
    }
    let product: i128 = wide * ppm as i128;
    let sum: i128 = wide + product / 1_000_000;
    wide <= i64::MAX as i128 && i64::MIN as i128 <= product && product <= i64::MAX as i128
        && i64::MIN as i128 <= sum && sum <= i64::MAX as i128
}

/// The frequency of a crystal that is off by `ppm`.
pub fn correct_xtal(nominal_hz: u64, ppm: i32) -> (hz: u64)
    requires
        can_correct_xtal(nominal_hz as int, ppm as int),
    ensures
        hz == (nominal_hz + ppm_offset(nominal_hz as int, ppm as int)) as u64,
{
    let offset: i64 = (nominal_hz as i64 * ppm as i64) / 1_000_000;
    (nominal_hz as i64 + offset) as u64
}

/// A crystal that is off by nothing keeps its frequency.
pub proof fn lemma_zero_ppm(nominal_hz: u64)
    ensures
        ppm_offset(nominal_hz as int, 0) == 0,
        (nominal_hz + ppm_offset(nominal_hz as int, 0)) as u64 == nominal_hz,
{
    assert(nominal_hz * 0 == 0);
}

/// A crystal that is off by `ppm` runs at its nominal frequency and `ppm` millionths of it
/// more, or less where `ppm` is negative, to within a Hertz.
pub proof fn lemma_offset_is_ppm(nominal_hz: u64, ppm: i32)
    requires
        can_correct_xtal(nominal_hz as int, ppm as int),
        ppm >= -1_000_000,
    ensures
        ({
            let hz = (nominal_hz + ppm_offset(nominal_hz as int, ppm as int)) as u64;
            -1_000_000 < 1_000_000 * hz - nominal_hz * (1_000_000 + ppm) < 1_000_000
        }),
{
    let product = nominal_hz * ppm;
    assert(nominal_hz * (1_000_000 + ppm) == 1_000_000 * nominal_hz + product)
        by (nonlinear_arith)
        requires
            product == nominal_hz * ppm,
    ;
    assert(product >= -1_000_000 * nominal_hz) by (nonlinear_arith)
        requires
            product == nominal_hz * ppm,
            ppm >= -1_000_000,
            nominal_hz >= 0,
    ;
}

// ── Chips ───────────────────────────────────────────────────────────────────
/// Where an exchange with a tuner chip has got to: the driver's own state, the
/// state of the hardware and the result so far.
pub struct Session<C, H, T> {
    pub chip: C,
    pub hw: H,
    pub res: Result<T>,
}

impl<C, H: HardwareInterface> Session<C, H, ()> {
    /// A session in which nothing has been performed yet.
    pub open spec fn begin(chip: C, hw: H) -> Self {
        Session { chip, hw, res: Ok(()) }
    }

    /// Followed by an exchange in which the driver's own state does not change.
    pub open spec fn exchange(self, next: spec_fn(H) -> Exchange<H, ()>) -> Self {
        if self.res is Ok {
            let e = next(self.hw);
            Session { chip: self.chip, hw: e.hw, res: e.res }
        } else {
            self
        }
    }

    /// Followed by a pause.
    pub open spec fn sleep(self, ms: nat) -> Self {
        if self.res is Ok {
            Session { chip: self.chip, hw: self.hw.after(BusOp::Sleep { ms }), res: Ok(()) }
        } else {
            self
        }
    }

    /// Followed by what `next` does with the driver and the hardware.
    pub open spec fn chain<T>(self, next: spec_fn(C, H) -> Session<C, H, T>) -> Session<C, H, T> {
        match self.res {
            Ok(_) => next(self.chip, self.hw),
            Err(e) => Session { chip: self.chip, hw: self.hw, res: Err(e) },
        }
    }
}

/// `body`, with the I2C repeater switched on before it and off after it. The
/// repeater is switched off whether or not `body` succeeds.
pub open spec fn bridged<C, H: HardwareInterface, T>(
    chip: C,
    hw: H,
    body: spec_fn(C, H) -> Session<C, H, T>,
) -> Session<C, H, T> {
    let on = device::repeater_op(true);
    match hw.ack(on) {
        Ok(_) => {
            let inner = body(chip, hw.after(on));
            Session {
                chip: inner.chip,
                hw: inner.hw.after(device::repeater_op(false)),
                res: inner.res,
            }
        },
        Err(e) => Session { chip, hw: hw.after(on), res: Err(e) },
    }
}

/// Once the repeater has been switched on for a chip, switching it off is the last thing
/// that happens, whatever comes of what happened in between; where it could not be
/// switched on, nothing else happens.
pub proof fn lemma_bridge_closed<C, H: HardwareInterface, T>(
    chip: C,
    hw: H,
    body: spec_fn(C, H) -> Session<C, H, T>,
)
    ensures
        ({
            let on = device::repeater_op(true);
            let inner = body(chip, hw.after(on));
            let whole = bridged(chip, hw, body);
            match hw.ack(on) {
                Ok(_) => whole.hw == inner.hw.after(device::repeater_op(false)) && whole.res
                    == inner.res && whole.chip == inner.chip,
                Err(e) => whole.hw == hw.after(on) && whole.res == Result::<T>::Err(e)
                    && whole.chip == chip,
            }
        }),
{
}

/// A tuner chip driver. The chip driver handles the chip only: no GPIO, no
/// board logic.
pub trait Tuner<H: HardwareInterface>: Sized {
    /// What [`Tuner::initialize`] does.
    spec fn initialized(self, hw: H) -> Session<Self, H, ()>;

    /// Whether the arithmetic of tuning to `hz` is possible in the present state.
    spec fn can_tune(self, hz: u64) -> bool;

    /// What [`Tuner::set_frequency`] does.
    spec fn tuned(self, hw: H, hz: u64) -> Session<Self, H, u64>;

    /// Whether the arithmetic of choosing a step for the gain is possible.
    spec fn can_set_gain(self, gain: GainSetting) -> bool;

    /// What [`Tuner::set_gain`] does.
    spec fn gained(self, hw: H, gain: GainSetting) -> Session<
        Self,
        H,
        Gain,
    >;

    /// The gain that was set last.
    spec fn gain(self) -> Gain;

    spec fn filters(self) -> Seq<FilterRange>;

    /// What [`Tuner::set_if_freq`] does.
    spec fn if_set(self, hw: H, hz: u64) -> Session<Self, H, ()>;

    /// The present intermediate frequency.
    spec fn if_hz(self) -> u64;

    /// What [`Tuner::set_bandwidth`] does.
    spec fn bandwidth_set(self, hw: H, hz: u32) -> Session<Self, H, ()>;

    /// Whether the arithmetic of the correction is possible.
    spec fn can_set_ppm(self, ppm: i32) -> bool;

    /// The driver once the crystal is known to be off by `ppm`.
    spec fn with_ppm(self, ppm: i32) -> Self;

    /// What [`Tuner::set_input_path`] does.
    spec fn path_set(self, hw: H, path: InputPath) -> Session<Self, H, ()>;

    /// The driver once it knows whether it tunes within a notch band.
    spec fn with_notch(self, in_notch_band: bool) -> Self;

    /// The gain steps, in tenths of a decibel.
    spec fn steps(self) -> Seq<i32>;

    /// What [`Tuner::set_gain_by_index`] does.
    spec fn gained_by_index(self, hw: H, idx: usize) -> Session<
        Self,
        H,
        Gain,
    >;

    /// Knowing of a notch band does not change what can be tuned to.
    proof fn lemma_notch_keeps_range(self, in_notch_band: bool, hz: u64)
        ensures
            self.with_notch(in_notch_band).can_tune(hz) == self.can_tune(hz),
    ;

    /// Initialize the tuner chip with default registers.
    fn initialize(&mut self, hw: &mut H) -> (res: Result<()>)
        ensures
            (Session { chip: *final(self), hw: *final(hw), res }) == old(self).initialized(
                *old(hw),
            ),
    ;

    /// Whether [`Tuner::set_frequency`] may be called with `hz`.
    fn is_tunable(&self, hz: u64) -> (b: bool)
        ensures
            b == self.can_tune(hz),
    ;

    /// Set the center frequency in Hz. Returns the actual frequency set.
    fn set_frequency(&mut self, hw: &mut H, hz: u64) -> (res: Result<u64>)
        requires
            old(self).can_tune(hz),
        ensures
            (Session { chip: *final(self), hw: *final(hw), res }) == old(self).tuned(
                *old(hw),
                hz,
            ),
    ;

    /// Whether [`Tuner::set_gain`] may be called with `gain`.
    fn is_gain_settable(&self, gain: GainSetting) -> (b: bool)
        ensures
            b == self.can_set_gain(gain),
    ;

    /// Set the gain. Returns the actual gain set.
    fn set_gain(&mut self, hw: &mut H, gain: GainSetting) -> (res: Result<
        Gain,
    >)
        requires
            old(self).can_set_gain(gain),
        ensures
            (Session { chip: *final(self), hw: *final(hw), res }) == old(self).gained(
                *old(hw),
                gain,
            ),
    ;

    /// Get the current gain.
    fn get_gain(&self) -> (res: Result<Gain>)
        ensures
            res == Result::<Gain>::Ok(self.gain()),
    ;

    /// Get the supported filter ranges.
    fn get_filters(&self) -> (ranges: Vec<FilterRange>)
        ensures
            ranges@ == self.filters(),
    ;

    /// Set the IF frequency in Hz.
    fn set_if_freq(&mut self, hw: &mut H, hz: u64) -> (res: Result<()>)
        ensures
            (Session { chip: *final(self), hw: *final(hw), res }) == old(self).if_set(
                *old(hw),
                hz,
            ),
    ;

    /// Get the current IF frequency in Hz.
    fn get_if_freq(&self) -> (hz: u64)
        ensures
            hz == self.if_hz(),
    ;

    /// Set the bandwidth of the analog filter in Hz.
    fn set_bandwidth(&mut self, hw: &mut H, hz: u32) -> (res: Result<()>)
        ensures
            (Session { chip: *final(self), hw: *final(hw), res }) == old(self).bandwidth_set(
                *old(hw),
                hz,
            ),
    ;

    /// Whether [`Tuner::set_ppm`] may be called with `ppm`.
    fn is_ppm_settable(&self, ppm: i32) -> (b: bool)
        ensures
            b == self.can_set_ppm(ppm),
    ;

    /// Set the crystal PPM correction.
    fn set_ppm(&mut self, ppm: i32) -> (res: Result<()>)
        requires
            old(self).can_set_ppm(ppm),
        ensures
            *final(self) == old(self).with_ppm(ppm),
            res is Ok,
    ;

    /// Set the internal input mux path (e.g. for V4 triplexer).
    fn set_input_path(&mut self, hw: &mut H, path: InputPath) -> (res: Result<
        (),
    >)
        ensures
            (Session { chip: *final(self), hw: *final(hw), res }) == old(self).path_set(
                *old(hw),
                path,
            ),
    ;

    /// Apply the board-level notch filter hint, so that the chip can take it into
    /// account on the next tune without knowing the board it is sitting on.
    fn apply_notch(&mut self, in_notch_band: bool) -> (res: Result<()>)
        ensures
            *final(self) == old(self).with_notch(in_notch_band),
            res is Ok,
    ;

    /// Set the gain to a step of the gain table, the last one if there are fewer.
    fn set_gain_by_index(&mut self, hw: &mut H, idx: usize) -> (res: Result<
        Gain,
    >)
        ensures
            (Session { chip: *final(self), hw: *final(hw), res }) == old(self).gained_by_index(
                *old(hw),
                idx,
            ),
    ;

    /// The gain steps, in tenths of a decibel.
    fn get_gain_table(&self) -> (steps: Vec<i32>)
        ensures
            steps@ == self.steps(),
    ;
}

// ── Levels ──────────────────────────────────────────────────────────────────
/// Levels are ordered: none is below itself, of two different ones one is below the other,
/// and what is below one that is below a third is below the third. Changing both signs
/// turns the order round, and the levels without a sign are ordered as their bits are. Both
/// zeros are one level, and no order holds of what is no number.
pub proof fn lemma_levels_ordered(a: Decibels, b: Decibels, c: Decibels)
    ensures
        !a.is_below(a),
        a.is_below(b) && b.is_below(c) ==> a.is_below(c),
        a.bits <= 0x7f80_0000 && b.bits <= 0x7f80_0000 ==> (a.is_below(b) <==> a.bits < b.bits),
        0x8000_0000 <= a.bits <= 0xff80_0000 && 0x8000_0000 <= b.bits <= 0xff80_0000 ==> (
        a.is_below(b) <==> b.bits < a.bits),
        0x8000_0000 < a.bits <= 0xff80_0000 && b.bits <= 0x7f80_0000 ==> a.is_below(b),
        a.bits <= 0x7f80_0000 && 0x8000_0000 <= b.bits ==> !a.is_below(b),
        !(Decibels { bits: 0x8000_0000 }).is_below(Decibels { bits: 0 }),
        0x7f80_0000 < a.bits < 0x8000_0000 || 0xff80_0000 < a.bits ==> !a.is_below(b)
            && !b.is_below(a),
{
}

/// A V4 has notch filters below 28.8 MHz, from 85 to 112 MHz and from 172 to 242 MHz. Its
/// inputs change at 28.8 and at 250 MHz. Another board tunes to what it is asked for, has
/// neither inputs nor notch filters to switch, and never turns the spectrum round.
pub proof fn lemma_plans(hz: u64)
    ensures
        ({
            let v4 = Orchestrator::V4(V4Orchestrator).plan(hz);
            let other = Orchestrator::Generic(GenericOrchestrator).plan(hz);
            &&& v4.in_notch <==> hz < 28_800_000 || 85_000_000 <= hz <= 112_000_000 || 172_000_000
                <= hz <= 242_000_000
            &&& v4.tuner_hz - hz == if hz < 28_800_000 {
                28_800_000int
            } else {
                0
            }
            &&& v4.spectral_inv <==> hz < 28_800_000
            &&& v4.input_path == Some(InputPath::Hf) <==> hz < 28_800_000
            &&& v4.input_path == Some(InputPath::Vhf) <==> 28_800_000 <= hz < 250_000_000
            &&& v4.input_path == Some(InputPath::Uhf) <==> hz >= 250_000_000
            &&& other.tuner_hz == hz
            &&& !other.spectral_inv && !other.in_notch && other.input_path is None
        }),
{
}

/// The step that is chosen for a gain is as near to it as any, and of several that are
/// equally near the first.
pub proof fn lemma_first_of_nearest(steps: Seq<i32>, target: i32, j: int)
    requires
        0 <= j < steps.len(),
    ensures
        ({
            let n = nearest(steps, target);
            let off = |k: int|
                if steps[k] < target {
                    target - steps[k]
                } else {
                    steps[k] - target
                };
            &&& 0 <= n < steps.len()
            &&& off(n) <= off(j)
            &&& off(n) == off(j) ==> n <= j
        }),
{
    lemma_nearest_exists(steps, target);
    let n = nearest(steps, target);
    assert(distance(steps[n], target) <= distance(steps[j], target));
    if j < n {
        assert(distance(steps[n], target) < distance(steps[j], target));
    }
}

/// A crystal of up to 4 GHz can be corrected by anything that can be asked for.
pub proof fn lemma_any_correction_possible(nominal_hz: u64, ppm: i32)
    requires
        nominal_hz <= u32::MAX,
    ensures
        can_correct_xtal(nominal_hz as int, ppm as int),
{
    assert(-0x8000_0000 * 0xffff_ffff <= nominal_hz * ppm <= 0x8000_0000 * 0xffff_ffff)
        by (nonlinear_arith)
        requires
            0 <= nominal_hz <= 0xffff_ffff,
            -0x8000_0000 <= ppm <= 0x7fff_ffff,
    ;
}

} // verus!
