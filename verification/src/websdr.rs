//! The WebSDR server: what its clients are told, what their commands do, and how
//! blocks of samples turn into frames for the browser.
use crate::config::THIRTY_BITS;
use crate::daemon::{self, HardwareBand, RetuneRequest};
use crate::device::HardwareInterface;
use crate::driver::{self, Driver};
use crate::dsp::{Decimator, IqDecimator};
use crate::error::{Error, Result};
use crate::tuner::{BoardOrchestrator, Decibels, Gain, GainSetting, Tuner};
use vstd::prelude::*;

verus! {

// ── Constants ───────────────────────────────────────────────────────────────
/// Hardware sample rate for the WebSDR pipeline.
/// 1_536_000 / 32 = 48_000 exactly: all decimation chains target 48 kHz audio.
pub const PIPELINE_SAMPLE_RATE: u32 = 1_536_000;

/// Audio sample rate delivered to browser clients.
pub const AUDIO_SAMPLE_RATE: u32 = 48_000;

/// How many points the spectrum of the waterfall has.
pub const FFT_SIZE: usize = 1024;

/// How many milliseconds pass between two lines of the waterfall.
pub const FRAME_INTERVAL_MS: u64 = 100;

/// Where a receiver that is not tuned yet is tuned to, in Hz.
pub const INITIAL_FREQUENCY_HZ: u64 = 101_100_000;

// ── Protocol ────────────────────────────────────────────────────────────────
#[derive(Debug, Clone, Copy, PartialEq, Eq, Structural)]
pub enum DemodMode {
    Wfm,
    Nfm,
    Am,
    Usb,
    Lsb,
    Off,
}

/// What a client asks for.
#[derive(Debug, Clone, Copy, PartialEq, Eq, Structural)]
pub enum Command {
    Frequency { hz: u64 },
    Gain { gain: GainSetting },
    Demod { mode: DemodMode },
    Bandwidth { hz: u32 },
    Squelch { db: Decibels },
}

/// What a client is told.
#[derive(Debug, Clone)]
pub enum WebEvent {
    HardwareInfo { manufacturer: String, product: String, is_v4: bool },
    AudioConfig { sample_rate: u32, fft_size: usize },
    FreqConfirm { requested: u64, actual: u64 },
    GainConfirm { actual: Gain },
    GainError { error: Error },
    DemodConfirm { mode: DemodMode },
    BandwidthConfirm { actual: u32 },
    SquelchConfirm { actual: Decibels },
}

/// Tells a new client about the receiver: what it is, how audio and spectrum come,
/// where it is tuned to and its gain.
pub fn greeting<H: HardwareInterface, T: Tuner<H>>(driver: &Driver<H, T>) -> (events: Vec<WebEvent>)
    ensures
        events@ == seq![
            WebEvent::HardwareInfo {
                manufacturer: driver.info.manufacturer,
                product: driver.info.product,
                is_v4: driver.info.is_v4,
            },
            WebEvent::AudioConfig { sample_rate: AUDIO_SAMPLE_RATE, fft_size: FFT_SIZE },
            WebEvent::FreqConfirm { requested: driver.frequency, actual: driver.frequency },
            WebEvent::GainConfirm { actual: driver.tuner.gain() },
        ],
{
    let gain = match driver.tuner.get_gain() {
        Ok(gain) => gain,
        Err(_) => Gain::Tenths(0),
    };
    let mut events: Vec<WebEvent> = Vec::new();
    events.push(
        WebEvent::HardwareInfo {
            manufacturer: driver.info.manufacturer.clone(),
            product: driver.info.product.clone(),
            is_v4: driver.info.is_v4,
        },
    );
    events.push(WebEvent::AudioConfig { sample_rate: AUDIO_SAMPLE_RATE, fft_size: FFT_SIZE });
    events.push(WebEvent::FreqConfirm { requested: driver.frequency, actual: driver.frequency });
    events.push(WebEvent::GainConfirm { actual: gain });
    events
}

/// What a command does besides changing the receiver: the request to move the
/// hardware's window, the changes to the client's pipeline, and the reply.
pub struct Effects {
    pub retune: Option<RetuneRequest>,
    pub frequency: Option<u64>,
    pub mode: Option<DemodMode>,
    pub bandwidth: Option<u32>,
    pub squelch: Option<Decibels>,
    pub reply: WebEvent,
}

/// The bandwidth that a client gets for one it asks for.
pub open spec fn clamped_bandwidth(hz: u32) -> u32 {
    if hz < 500 {
        500
    } else if hz > 380_000 {
        380_000
    } else {
        hz
    }
}

/// What comes of a gain command.
pub open spec fn gain_reply(res: Result<Gain>) -> WebEvent {
    match res {
        Ok(actual) => WebEvent::GainConfirm { actual },
        Err(error) => WebEvent::GainError { error },
    }
}

/// What a command of a client does. The hardware's window is moved only where it
/// does not cover the frequency that is asked for.
pub open spec fn effects_of<H: HardwareInterface, T: Tuner<H>>(
    driver: Driver<H, T>,
    band: HardwareBand,
    command: Command,
) -> Effects {
    match command {
        Command::Frequency { hz } => Effects {
            retune: if band.covers(hz) {
                None
            } else {
                Some(RetuneRequest { center_hz: hz })
            },
            frequency: Some(hz),
            mode: None,
            bandwidth: None,
            squelch: None,
            reply: WebEvent::FreqConfirm { requested: hz, actual: hz },
        },
        Command::Gain { gain } => Effects {
            retune: None,
            frequency: None,
            mode: None,
            bandwidth: None,
            squelch: None,
            reply: gain_reply(driver.gained_if_possible(gain).res),
        },
        Command::Demod { mode } => Effects {
            retune: None,
            frequency: None,
            mode: Some(mode),
            bandwidth: None,
            squelch: None,
            reply: WebEvent::DemodConfirm { mode },
        },
        Command::Bandwidth { hz } => Effects {
            retune: None,
            frequency: None,
            mode: None,
            bandwidth: Some(clamped_bandwidth(hz)),
            squelch: None,
            reply: WebEvent::BandwidthConfirm { actual: clamped_bandwidth(hz) },
        },
        Command::Squelch { db } => Effects {
            retune: None,
            frequency: None,
            mode: None,
            bandwidth: None,
            squelch: Some(db),
            reply: WebEvent::SquelchConfirm { actual: db },
        },
    }
}

/// Performs a command of a client. Only a gain command changes the receiver itself.
pub fn perform<H: HardwareInterface, T: Tuner<H>>(
    driver: &mut Driver<H, T>,
    band: &HardwareBand,
    command: Command,
) -> (effects: Effects)
    requires
        command is Frequency ==> band.wf(),
    ensures
        effects == effects_of(*old(driver), *band, command),
        *final(driver) == match command {
            Command::Gain { gain } => old(driver).gained_if_possible(gain).driver,
            _ => *old(driver),
        },
{
    let mut effects = Effects {
        retune: None,
        frequency: None,
        mode: None,
        bandwidth: None,
        squelch: None,
        reply: WebEvent::AudioConfig { sample_rate: AUDIO_SAMPLE_RATE, fft_size: FFT_SIZE },
    };
    match command {
        Command::Frequency { hz } => {
            if !band.contains(hz) {
                effects.retune = Some(RetuneRequest { center_hz: hz });
            }
            effects.frequency = Some(hz);
            effects.reply = WebEvent::FreqConfirm { requested: hz, actual: hz };
        },
        Command::Gain { gain } => {
            effects.reply = match driver.try_set_gain(gain) {
                Ok(actual) => WebEvent::GainConfirm { actual },
                Err(error) => WebEvent::GainError { error },
            };
        },
        Command::Demod { mode } => {
            effects.mode = Some(mode);
            effects.reply = WebEvent::DemodConfirm { mode };
        },
        Command::Bandwidth { hz } => {
            let actual: u32 = if hz < 500 {
                500
            } else if hz > 380_000 {
                380_000
            } else {
                hz
            };
            effects.bandwidth = Some(actual);
            effects.reply = WebEvent::BandwidthConfirm { actual };
        },
        Command::Squelch { db } => {
            effects.squelch = Some(db);
            effects.reply = WebEvent::SquelchConfirm { actual: db };
        },
    }
    effects
}

/// Every frequency that a client asks for is covered, if not by the present window,
/// then by the one that is asked for.
pub proof fn lemma_frequency_gets_covered<H: HardwareInterface, T: Tuner<H>>(
    driver: Driver<H, T>,
    band: HardwareBand,
    hz: u64,
)
    ensures
        match effects_of(driver, band, Command::Frequency { hz }).retune {
            None => band.covers(hz),
            Some(req) => daemon::window(driver, req.center_hz, band.span_hz).covers(hz),
        },
{
}

// ── Standalone server ───────────────────────────────────────────────────────
/// The gain that goes with the initial frequency: 30 dB.
pub open spec fn initial_gain() -> GainSetting {
    GainSetting { db: Decibels { bits: THIRTY_BITS }, tenths: 300 }
}

/// What [`prepare`] does with the receiver. Failures are tolerated.
pub open spec fn prepared<H: HardwareInterface, T: Tuner<H>>(driver: Driver<H, T>) -> Driver<H, T> {
    let rated = driver.rate_set_if_possible(PIPELINE_SAMPLE_RATE).driver;
    if rated.frequency == 0 {
        rated.tuned_if_possible(INITIAL_FREQUENCY_HZ).driver.gained_if_possible(
            initial_gain(),
        ).driver
    } else {
        rated
    }
}

/// Prepares a receiver that serves the WebSDR alone; returns the window that it
/// digitises and whether the sample rate could be set.
pub fn prepare<H: HardwareInterface, T: Tuner<H>>(driver: &mut Driver<H, T>) -> (r: (
    HardwareBand,
    Result<()>,
))
    ensures
        *final(driver) == prepared(*old(driver)),
        r.0 == daemon::window(*final(driver), final(driver).frequency, PIPELINE_SAMPLE_RATE),
        r.1 == old(driver).rate_set_if_possible(PIPELINE_SAMPLE_RATE).res,
{
    let rate_res = driver.try_set_sample_rate(PIPELINE_SAMPLE_RATE);
    if driver.frequency == 0 {
        let _ = driver.try_set_frequency(INITIAL_FREQUENCY_HZ);
        let _ = driver.try_set_gain(
            GainSetting { db: Decibels { bits: THIRTY_BITS }, tenths: 300 },
        );
    }
    let plan = driver.orchestrator.plan_tuning(driver.frequency);
    let band = HardwareBand {
        center_hz: driver.frequency,
        span_hz: PIPELINE_SAMPLE_RATE,
        spectral_inv: plan.spectral_inv,
    };
    (band, rate_res)
}

// ── Pipeline ────────────────────────────────────────────────────────────────
/// The factors by which a mode reduces the sample rate, before and after
/// demodulation.
pub open spec fn decimation_of(mode: DemodMode) -> (usize, usize) {
    if mode == DemodMode::Wfm {
        (8, 4)
    } else {
        (32, 1)
    }
}

/// The factors by which a mode reduces the sample rate.
pub fn decimation(mode: DemodMode) -> (factors: (usize, usize))
    ensures
        factors == decimation_of(mode),
{
    match mode {
        DemodMode::Wfm => (8, 4),
        _ => (32, 1),
    }
}

/// Every mode ends at the audio sample rate.
pub proof fn lemma_all_modes_reach_audio_rate(mode: DemodMode)
    ensures
        ({
            let (pre, post) = decimation_of(mode);
            PIPELINE_SAMPLE_RATE == AUDIO_SAMPLE_RATE * (pre * post)
        }),
{
}

/// What a client's pipeline keeps between two blocks, besides its filters.
#[derive(Debug, Clone, Copy, PartialEq, Eq, Structural)]
pub struct PipelineState {
    pub mode: DemodMode,
    pub client_freq: u64,
    pub last_confirmed: u64,
}

impl PipelineState {
    /// A new client listens to wideband FM at the receiver's frequency.
    pub fn new(initial_freq: u64) -> (state: Self)
        ensures
            state == (PipelineState {
                mode: DemodMode::Wfm,
                client_freq: initial_freq,
                last_confirmed: initial_freq,
            }),
    {
        PipelineState {
            mode: DemodMode::Wfm,
            client_freq: initial_freq,
            last_confirmed: initial_freq,
        }
    }

    /// The confirmation that is due, if the frequency changed since the last one; it
    /// names the center of the hardware's window.
    pub fn confirm(&mut self, hw_center: u64) -> (event: Option<(u64, u64)>)
        ensures
            event == if old(self).client_freq != old(self).last_confirmed {
                Some((old(self).client_freq, hw_center))
            } else {
                None
            },
            *final(self) == (PipelineState {
                last_confirmed: old(self).client_freq,
                ..*old(self)
            }),
    {
        if self.client_freq != self.last_confirmed {
            self.last_confirmed = self.client_freq;
            Some((self.client_freq, hw_center))
        } else {
            None
        }
    }
}

/// The newest of some updates, or what stood before where there are none.
pub fn latest<A: Copy>(updates: &[A], current: A) -> (newest: A)
    ensures
        newest == if updates@.len() > 0 {
            updates@.last()
        } else {
            current
        },
{
    if updates.len() > 0 {
        updates[updates.len() - 1]
    } else {
        current
    }
}

/// Whether a pipeline waits for the next block: one that is switched off throws away
/// what has come and looks for commands again.
pub fn waits_for_samples(mode: DemodMode) -> (b: bool)
    ensures
        b == (mode != DemodMode::Off),
{
    mode != DemodMode::Off
}

/// Whether the receiver's DC offset is removed: not for AM, whose carrier it would
/// take away.
pub fn removes_dc(mode: DemodMode) -> (b: bool)
    ensures
        b == (mode != DemodMode::Am),
{
    mode != DemodMode::Am
}

/// What reaches a pipeline in place of, or as, the next block.
#[derive(Debug, Clone, Copy, PartialEq, Eq, Structural)]
pub enum PipelineEvent {
    /// A block of this many bytes.
    Block { len: usize },
    /// Blocks were lost.
    Lagged,
    Closed,
}

#[derive(Debug, Clone, Copy, PartialEq, Eq, Structural)]
pub enum PipelineAction {
    /// Process this many I/Q pairs.
    Process { pairs: usize },
    /// Forget the filters' history: what comes next does not follow on it.
    Reset,
    Stop,
}

/// What a pipeline does with what reached it. A block without a single pair is the signal
/// to flush.
pub open spec fn action_for(event: PipelineEvent) -> PipelineAction {
    match event {
        PipelineEvent::Block { len } => if len / 2 == 0 {
            PipelineAction::Reset
        } else {
            PipelineAction::Process { pairs: len / 2 }
        },
        PipelineEvent::Lagged => PipelineAction::Reset,
        PipelineEvent::Closed => PipelineAction::Stop,
    }
}

/// Decides what a pipeline does with what reached it.
pub fn pipeline_action(event: PipelineEvent) -> (action: PipelineAction)
    ensures
        action == action_for(event),
{
    match event {
        PipelineEvent::Block { len } => if len / 2 == 0 {
            PipelineAction::Reset
        } else {
            PipelineAction::Process { pairs: len / 2 }
        },
        PipelineEvent::Lagged => PipelineAction::Reset,
        PipelineEvent::Closed => PipelineAction::Stop,
    }
}

/// The filters of a client's pipeline: those before demodulation of each mode, and the one
/// after wideband FM demodulation.
pub struct Filters<A> {
    pub wfm: IqDecimator<A>,
    pub post_wfm: Decimator<A>,
    pub nfm: IqDecimator<A>,
    pub am: IqDecimator<A>,
    pub ssb: IqDecimator<A>,
}

impl<A: Copy> Filters<A> {
    pub open spec fn wf(self) -> bool {
        &&& self.wfm.wf()
        &&& self.post_wfm.wf()
        &&& self.nfm.wf()
        &&& self.am.wf()
        &&& self.ssb.wf()
    }

    /// Whether all filters have seen nothing but silence.
    pub open spec fn is_fresh(self, silence: A) -> bool {
        &&& self.wfm.is_fresh(silence)
        &&& self.post_wfm.is_fresh(silence)
        &&& self.nfm.is_fresh(silence)
        &&& self.am.is_fresh(silence)
        &&& self.ssb.is_fresh(silence)
    }

    /// Whether all filters have the taps and factors that they have in `other`.
    pub open spec fn has_filters_of(self, other: Self) -> bool {
        &&& self.wfm.has_filter_of(other.wfm)
        &&& self.post_wfm.taps@ == other.post_wfm.taps@
        &&& self.post_wfm.factor == other.post_wfm.factor
        &&& self.nfm.has_filter_of(other.nfm)
        &&& self.am.has_filter_of(other.am)
        &&& self.ssb.has_filter_of(other.ssb)
    }

    /// Whether the filters are `next` after what reached the pipeline: where that does not
    /// follow on what they have seen, they have forgotten it.
    pub open spec fn follows(self, event: PipelineEvent, silence: A, next: Self) -> bool {
        if action_for(event) is Reset {
            next.is_fresh(silence) && next.has_filters_of(self)
        } else {
            next == self
        }
    }

    /// Forgets every filter's history.
    pub fn reset(&mut self, silence: A)
        requires
            old(self).wf(),
        ensures
            final(self).wf(),
            final(self).is_fresh(silence),
            final(self).has_filters_of(*old(self)),
    {
        self.wfm.reset(silence);
        self.post_wfm.reset(silence);
        self.nfm.reset(silence);
        self.am.reset(silence);
        self.ssb.reset(silence);
    }

    /// Decides what the pipeline does with what reached it, and makes the filters follow.
    pub fn take_event(&mut self, event: PipelineEvent, silence: A) -> (action: PipelineAction)
        requires
            old(self).wf(),
        ensures
            action == action_for(event),
            final(self).wf(),
            old(self).follows(event, silence, *final(self)),
    {
        let action = pipeline_action(event);
        match action {
            PipelineAction::Reset => {
                self.reset(silence);
            },
            _ => {},
        }
        action
    }
}

/// Whether a line of the waterfall is due: enough time has passed since the last, and
/// the block is long enough.
pub fn waterfall_due(elapsed_ms: u64, pairs: usize) -> (b: bool)
    ensures
        b == (elapsed_ms >= FRAME_INTERVAL_MS && pairs >= FFT_SIZE),
        b == (elapsed_ms >= 100 && pairs >= 1024),
{
    elapsed_ms >= FRAME_INTERVAL_MS && pairs >= FFT_SIZE
}

// ── Frames ──────────────────────────────────────────────────────────────────
/// The point of the spectrum that a column of the waterfall shows: the center
/// frequency in the middle, and the columns turned round where the spectrum is
/// inverted.
pub open spec fn bin_of(column: int, inverted: bool) -> int {
    if inverted {
        (FFT_SIZE - column + FFT_SIZE / 2) % (FFT_SIZE as int)
    } else {
        (column + FFT_SIZE / 2) % (FFT_SIZE as int)
    }
}

/// The point of the spectrum that a column of the waterfall shows.
pub fn waterfall_bin(column: usize, inverted: bool) -> (bin: usize)
    requires
        column < FFT_SIZE,
    ensures
        bin == bin_of(column as int, inverted),
        bin < FFT_SIZE,
{
    if inverted {
        (FFT_SIZE - column + FFT_SIZE / 2) % FFT_SIZE
    } else {
        (column + FFT_SIZE / 2) % FFT_SIZE
    }
}

/// The samples that a line of the waterfall is made from: the last of a block.
pub fn newest_samples<A: Copy>(block: &[A]) -> (samples: Vec<A>)
    requires
        block@.len() >= FFT_SIZE,
    ensures
        samples@ == block@.subrange(block@.len() - FFT_SIZE, block@.len() as int),
{
    let start: usize = block.len() - FFT_SIZE;
    let mut samples: Vec<A> = Vec::with_capacity(FFT_SIZE);
    let mut k: usize = 0;
    while k < FFT_SIZE
        invariant
            k <= FFT_SIZE,
            start + FFT_SIZE == block@.len(),
            block@.len() <= usize::MAX,
            samples@ == block@.subrange(start as int, start + k),
        decreases FFT_SIZE - k,
    {
        samples.push(block[start + k]);
        k = k + 1;
        assert(samples@ =~= block@.subrange(start as int, start + k));
    }
    samples
}

/// The points of a spectrum in the order of the waterfall's columns.
pub fn waterfall_line<A: Copy>(spectrum: &[A], inverted: bool) -> (line: Vec<A>)
    requires
        spectrum@.len() == FFT_SIZE,
    ensures
        line@ == Seq::new(FFT_SIZE as nat, |c: int| spectrum@[bin_of(c, inverted)]),
{
    let mut line: Vec<A> = Vec::with_capacity(FFT_SIZE);
    let mut column: usize = 0;
    while column < FFT_SIZE
        invariant
            column <= FFT_SIZE,
            spectrum@.len() == FFT_SIZE,
            line@.len() == column,
            forall|c: int|
                0 <= c < column ==> #[trigger] line@[c] == spectrum@[bin_of(c, inverted)],
        decreases FFT_SIZE - column,
    {
        line.push(spectrum[waterfall_bin(column, inverted)]);
        column = column + 1;
    }
    assert(line@ =~= Seq::new(FFT_SIZE as nat, |c: int| spectrum@[bin_of(c, inverted)]));
    line
}

/// Every point of the spectrum is shown, in exactly one column.
pub proof fn lemma_waterfall_shows_all(bin: int, inverted: bool)
    requires
        0 <= bin < FFT_SIZE,
    ensures
        exists|column: int|
            0 <= column < FFT_SIZE && #[trigger] bin_of(column, inverted) == bin,
        forall|a: int, b: int|
            0 <= a < FFT_SIZE && 0 <= b < FFT_SIZE && #[trigger] bin_of(a, inverted)
                == #[trigger] bin_of(b, inverted) ==> a == b,
{
    let column = if inverted {
        (1024 + 512 - bin) % 1024
    } else {
        (bin + 512) % 1024
    };
    assert(bin_of(column, inverted) == bin);
}

/// The inverted waterfall is the mirror image of the other about its middle column.
pub proof fn lemma_waterfall_mirrors(column: int)
    requires
        0 < column < FFT_SIZE,
    ensures
        bin_of(column, true) == bin_of(FFT_SIZE - column, false),
{
}

/// A line of the waterfall on the wire: a `W`, then the magnitudes.
pub open spec fn waterfall_bytes(magnitudes: Seq<u8>) -> Seq<u8> {
    seq![0x57u8] + magnitudes
}

/// Builds the frame of a line of the waterfall, which has a magnitude for every column.
pub fn waterfall_frame(magnitudes: &[u8]) -> (frame: Vec<u8>)
    requires
        magnitudes@.len() == FFT_SIZE,
    ensures
        frame@ == waterfall_bytes(magnitudes@),
{
    let mut frame: Vec<u8> = Vec::new();
    frame.push(0x57);
    frame.extend_from_slice(magnitudes);
    assert(frame@ =~= seq![0x57u8] + magnitudes@);
    frame
}

/// The four bytes of a sample's bits, the lowest first.
pub open spec fn le_bytes(bits: u32) -> Seq<u8> {
    seq![
        (bits % 256) as u8,
        (bits / 0x100 % 256) as u8,
        (bits / 0x1_0000 % 256) as u8,
        (bits / 0x100_0000) as u8,
    ]
}

/// Samples on the wire.
pub open spec fn sample_bytes(samples: Seq<u32>) -> Seq<u8>
    decreases samples.len(),
{
    if samples.len() == 0 {
        Seq::empty()
    } else {
        sample_bytes(samples.drop_last()) + le_bytes(samples.last())
    }
}

/// A block of audio on the wire: an `A` and three zeros, then the bits of each
/// sample, so that the samples are aligned to four bytes.
pub open spec fn audio_bytes(samples: Seq<u32>) -> Seq<u8> {
    seq![0x41u8, 0, 0, 0] + sample_bytes(samples)
}

/// Builds the frame of a block of audio. Without a sample there is none.
pub fn audio_frame(samples: &[u32]) -> (frame: Vec<u8>)
    requires
        samples@.len() > 0,
    ensures
        frame@ == audio_bytes(samples@),
{
    let mut frame: Vec<u8> = Vec::new();
    frame.push(0x41);
    frame.push(0);
    frame.push(0);
    frame.push(0);
    let ghost head = frame@;
    assert(head =~= seq![0x41u8, 0, 0, 0]);
    assert(samples@.take(0) =~= Seq::empty());
    let mut i: usize = 0;
    while i < samples.len()
        invariant
            i <= samples@.len(),
            frame@ == head + sample_bytes(samples@.take(i as int)),
        decreases samples@.len() - i,
    {
        let bits: u32 = samples[i];
        frame.push((bits % 256) as u8);
        frame.push((bits / 0x100 % 256) as u8);
        frame.push((bits / 0x1_0000 % 256) as u8);
        frame.push((bits / 0x100_0000) as u8);
        proof {
            let next = samples@.take(i + 1);
            assert(next.drop_last() =~= samples@.take(i as int));
            assert(frame@ =~= head + sample_bytes(next));
        }
        i = i + 1;
    }
    assert(samples@.take(i as int) =~= samples@);
    frame
}

// ── Messages ────────────────────────────────────────────────────────────────
/// Whether audio is silenced: its smoothed power is below the client's threshold.
pub fn is_squelched(power: Decibels, threshold: Decibels) -> (b: bool)
    ensures
        b == power.is_below(threshold),
{
    power.below(&threshold)
}

/// As many samples of silence.
pub open spec fn silence(len: nat) -> Seq<u32> {
    Seq::new(len, |i: int| 0u32)
}

/// The messages that a block sends: a line of the waterfall, where one is due, and the
/// audio, if there is any, silenced where it is squelched.
pub open spec fn messages_of(line: Option<Seq<u8>>, audio: Seq<u32>, squelched: bool) -> Seq<
    Seq<u8>,
> {
    (match line {
        Some(magnitudes) => seq![waterfall_bytes(magnitudes)],
        None => Seq::empty(),
    }) + if audio.len() == 0 {
        Seq::empty()
    } else if squelched {
        seq![audio_bytes(silence(audio.len()))]
    } else {
        seq![audio_bytes(audio)]
    }
}

/// The magnitudes of a line as a sequence.
pub open spec fn line_view(line: Option<Vec<u8>>) -> Option<Seq<u8>> {
    match line {
        Some(magnitudes) => Some(magnitudes@),
        None => None,
    }
}

/// Builds the messages that a block sends.
pub fn block_messages(
    line: Option<Vec<u8>>,
    audio: &[u32],
    power: Decibels,
    threshold: Decibels,
) -> (messages: Vec<Vec<u8>>)
    requires
        line matches Some(magnitudes) ==> magnitudes@.len() == FFT_SIZE,
    ensures
        messages@.map_values(|m: Vec<u8>| m@) == messages_of(
            line_view(line),
            audio@,
            power.is_below(threshold),
        ),
{
    let ghost shown = line_view(line);
    let mut messages: Vec<Vec<u8>> = Vec::new();
    if let Some(magnitudes) = line {
        messages.push(waterfall_frame(magnitudes.as_slice()));
    }
    if audio.len() > 0 {
        if is_squelched(power, threshold) {
            let quiet: Vec<u32> = silent_samples(audio.len());
            messages.push(audio_frame(quiet.as_slice()));
        } else {
            messages.push(audio_frame(audio));
        }
    }
    assert(messages@.map_values(|m: Vec<u8>| m@) =~= messages_of(
        shown,
        audio@,
        power.is_below(threshold),
    ));
    messages
}

fn silent_samples(len: usize) -> (samples: Vec<u32>)
    ensures
        samples@ == silence(len as nat),
{
    let mut samples: Vec<u32> = Vec::with_capacity(len);
    let mut i: usize = 0;
    while i < len
        invariant
            i <= len,
            samples@ == silence(i as nat),
        decreases len - i,
    {
        samples.push(0);
        i = i + 1;
        assert(samples@ =~= silence(i as nat));
    }
    samples
}

/// What a pipeline goes through at a time: what reached it, and, where that is a block
/// with samples, the line and the audio made from it, the audio's smoothed power and the
/// threshold of the squelch.
pub struct Turn {
    pub event: PipelineEvent,
    pub line: Option<Seq<u8>>,
    pub audio: Seq<u32>,
    pub power: Decibels,
    pub threshold: Decibels,
}

impl Turn {
    /// Whether the line, if there is one, has a magnitude for every column.
    pub open spec fn wf(self) -> bool {
        self.line matches Some(magnitudes) ==> magnitudes.len() == FFT_SIZE
    }

    /// The messages that are sent: none but for a block with samples.
    pub open spec fn messages(self) -> Seq<Seq<u8>> {
        if action_for(self.event) is Process {
            messages_of(self.line, self.audio, self.power.is_below(self.threshold))
        } else {
            Seq::empty()
        }
    }
}

/// The messages that a pipeline sends.
pub open spec fn sent(turns: Seq<Turn>) -> Seq<Seq<u8>>
    decreases turns.len(),
{
    if turns.len() == 0 {
        Seq::empty()
    } else {
        sent(turns.drop_last()) + turns.last().messages()
    }
}

/// Whether a message is a line of the waterfall: a `W` and 1024 bytes.
pub open spec fn is_waterfall_message(message: Seq<u8>) -> bool {
    message.len() == 1025 && message[0] == 0x57
}

/// Whether a message is audio: an `A`, three zeros and at least one sample.
pub open spec fn is_audio_message(message: Seq<u8>) -> bool {
    exists|samples: Seq<u32>| samples.len() >= 1 && message == #[trigger] audio_bytes(samples)
}

/// Whatever reaches a pipeline, every message that it sends is a line of the waterfall or
/// audio.
pub proof fn lemma_messages_well_formed(turns: Seq<Turn>, k: int)
    requires
        forall|i: int| 0 <= i < turns.len() ==> (#[trigger] turns[i]).wf(),
        0 <= k < sent(turns).len(),
    ensures
        is_waterfall_message(sent(turns)[k]) || is_audio_message(sent(turns)[k]),
    decreases turns.len(),
{
    let before = turns.drop_last();
    let last = turns.last();
    assert(turns[turns.len() - 1].wf());
    if k < sent(before).len() {
        assert forall|i: int| 0 <= i < before.len() implies (#[trigger] before[i]).wf() by {
            assert(turns[i].wf());
        }
        lemma_messages_well_formed(before, k);
        assert(sent(turns)[k] == sent(before)[k]);
    } else {
        let message = last.messages()[k - sent(before).len()];
        assert(sent(turns)[k] == message);
        if !is_waterfall_message(message) {
            let samples = if last.power.is_below(last.threshold) {
                silence(last.audio.len())
            } else {
                last.audio
            };
            assert(message == audio_bytes(samples));
        }
    }
}

/// While the power is below the threshold the audio is silent: after the `A` there is
/// nothing but zeros, in as many bytes as the audio would have taken.
pub proof fn lemma_squelched_audio_silent(turn: Turn, k: int)
    requires
        turn.wf(),
        turn.power.is_below(turn.threshold),
        0 <= k < turn.messages().len(),
        !is_waterfall_message(turn.messages()[k]),
    ensures
        turn.messages()[k].len() == 4 + 4 * turn.audio.len(),
        turn.messages()[k][0] == 0x41,
        forall|b: int| 0 < b < turn.messages()[k].len() ==> #[trigger] turn.messages()[k][b] == 0,
{
    lemma_silence_on_the_wire(turn.audio.len());
    assert(turn.messages()[k] == audio_bytes(silence(turn.audio.len())));
}

proof fn lemma_silence_on_the_wire(len: nat)
    ensures
        sample_bytes(silence(len)).len() == 4 * len,
        forall|b: int| 0 <= b < 4 * len ==> #[trigger] sample_bytes(silence(len))[b] == 0,
    decreases len,
{
    if len > 0 {
        lemma_silence_on_the_wire((len - 1) as nat);
        assert(silence(len).drop_last() =~= silence((len - 1) as nat));
    }
}

/// A block without a pair and a lag send nothing, and every filter forgets what it has
/// seen, but keeps its taps.
pub proof fn lemma_gaps_send_nothing<A: Copy>(
    turn: Turn,
    filters: Filters<A>,
    silence: A,
    next: Filters<A>,
)
    requires
        turn.event == PipelineEvent::Lagged || (turn.event matches PipelineEvent::Block { len }
            && len < 2),
        filters.follows(turn.event, silence, next),
    ensures
        turn.messages() == Seq::<Seq<u8>>::empty(),
        next.is_fresh(silence),
        next.has_filters_of(filters),
{
}

// ── Laws ────────────────────────────────────────────────────────────────────
/// The bandwidth that a client gets lies between 500 Hz and 380 kHz, and none in there is
/// nearer to what it asks for.
pub proof fn lemma_bandwidth_nearest(hz: u32, other: u32)
    requires
        500 <= other <= 380_000,
    ensures
        ({
            let got = clamped_bandwidth(hz);
            &&& 500 <= got <= 380_000
            &&& hz <= got ==> got - hz <= other - hz || other < hz
            &&& hz >= got ==> hz - got <= hz - other || other > hz
            &&& 500 <= hz <= 380_000 ==> got == hz
        }),
{
}

/// Wideband FM is demodulated at 192 kHz, everything else at 48 kHz, and all of it becomes
/// audio at 48 kHz.
pub proof fn lemma_mode_rates(mode: DemodMode)
    ensures
        ({
            let (pre, post) = decimation_of(mode);
            let demodulated = if mode == DemodMode::Wfm {
                192_000int
            } else {
                48_000
            };
            &&& demodulated * pre == 1_536_000
            &&& demodulated == 48_000 * post
            &&& AUDIO_SAMPLE_RATE == 48_000
            &&& PIPELINE_SAMPLE_RATE == 1_536_000
        }),
{
}

/// Every whole pair of a block is processed; a block without one and a gap make the
/// pipeline forget, and the end stops it.
pub proof fn lemma_pairs_processed(len: usize)
    ensures
        match action_for(PipelineEvent::Block { len }) {
            PipelineAction::Process { pairs } => pairs > 0 && 2 * pairs <= len < 2 * pairs + 2,
            PipelineAction::Reset => len < 2,
            PipelineAction::Stop => false,
        },
        action_for(PipelineEvent::Lagged) is Reset,
        action_for(PipelineEvent::Closed) is Stop,
{
}

/// The middle column of the waterfall shows the center frequency. A column to the right of
/// it shows what is as many points above the center, or below it where the spectrum is
/// inverted; points below the center stand at the upper end of the spectrum.
pub proof fn lemma_column_shows_offset(column: int, inverted: bool)
    requires
        0 <= column < 1024,
    ensures
        ({
            let offset = if inverted {
                512 - column
            } else {
                column - 512
            };
            let bin = bin_of(column, inverted);
            &&& 0 <= bin < 1024
            &&& (bin - offset) % 1024 == 0
            &&& column == 512 ==> bin == 0
        }),
{
}

/// A line on the wire is a `W` and the magnitudes, one byte each, in their order.
pub proof fn lemma_line_on_the_wire(magnitudes: Seq<u8>)
    ensures
        waterfall_bytes(magnitudes).len() == 1 + magnitudes.len(),
        waterfall_bytes(magnitudes)[0] == 'W' as u8,
        forall|c: int|
            0 <= c < magnitudes.len() ==> waterfall_bytes(magnitudes)[1 + c]
                == #[trigger] magnitudes[c],
{
}

/// Audio on the wire is an `A`, three zeros, and four bytes for each sample, from which the
/// sample's bits are had by taking the first byte as the lowest.
pub proof fn lemma_audio_on_the_wire(samples: Seq<u32>, i: int)
    requires
        0 <= i < samples.len(),
    ensures
        ({
            let wire = audio_bytes(samples);
            &&& wire.len() == 4 + 4 * samples.len()
            &&& wire[0] == 'A' as u8 && wire[1] == 0 && wire[2] == 0 && wire[3] == 0
            &&& wire[4 + 4 * i] + 0x100 * wire[5 + 4 * i] + 0x1_0000 * wire[6 + 4 * i] + 0x100_0000
                * wire[7 + 4 * i] == samples[i]
        }),
{
    lemma_samples_on_the_wire(samples, i);
    let data = sample_bytes(samples);
    let wire = audio_bytes(samples);
    assert(wire[4 + 4 * i] == data[4 * i] && wire[5 + 4 * i] == data[4 * i + 1] && wire[6 + 4 * i]
        == data[4 * i + 2] && wire[7 + 4 * i] == data[4 * i + 3]);
}

proof fn lemma_samples_on_the_wire(samples: Seq<u32>, i: int)
    requires
        0 <= i < samples.len(),
    ensures
        ({
            let data = sample_bytes(samples);
            &&& data.len() == 4 * samples.len()
            &&& data[4 * i] + 0x100 * data[4 * i + 1] + 0x1_0000 * data[4 * i + 2] + 0x100_0000
                * data[4 * i + 3] == samples[i]
        }),
    decreases samples.len(),
{
    let before = samples.drop_last();
    if samples.len() == 1 {
        assert(sample_bytes(before) =~= Seq::empty());
    } else {
        lemma_samples_on_the_wire(before, if i < before.len() {
            i
        } else {
            0
        });
    }
}

/// A block with samples sends its line, if it has one, and then its audio, if it has any.
/// Audio that is not below the threshold goes out as it is.
pub proof fn lemma_block_sends(turn: Turn)
    requires
        turn.event matches PipelineEvent::Block { len } && len >= 2,
    ensures
        ({
            let lines = if turn.line is Some {
                1int
            } else {
                0
            };
            let sent = turn.messages();
            &&& sent.len() == lines + if turn.audio.len() > 0 {
                1int
            } else {
                0
            }
            &&& turn.line matches Some(magnitudes) ==> sent[0] == waterfall_bytes(magnitudes)
            &&& turn.audio.len() > 0 && !turn.power.is_below(turn.threshold) ==> sent[lines]
                == audio_bytes(turn.audio)
        }),
{
}

/// A command has the effect that it names and no other, and the reply says what was done:
/// a frequency is the client's own, and moves the window only where the window does not
/// cover it; a mode and a threshold are taken as they are.
pub proof fn lemma_commands_do_one_thing<H: HardwareInterface, T: Tuner<H>>(
    driver: Driver<H, T>,
    band: HardwareBand,
    command: Command,
)
    ensures
        ({
            let e = effects_of(driver, band, command);
            &&& e.frequency is Some <==> command is Frequency
            &&& e.mode is Some <==> command is Demod
            &&& e.bandwidth is Some <==> command is Bandwidth
            &&& e.squelch is Some <==> command is Squelch
            &&& e.retune is Some ==> command is Frequency
            &&& match command {
                Command::Frequency { hz } => {
                    &&& e.frequency == Some(hz)
                    &&& e.retune is Some <==> !band.covers(hz)
                    &&& e.retune matches Some(req) ==> req.center_hz == hz
                    &&& e.reply == (WebEvent::FreqConfirm { requested: hz, actual: hz })
                },
                Command::Gain { gain } => match driver.gained_if_possible(gain).res {
                    Ok(g) => e.reply == (WebEvent::GainConfirm { actual: g }),
                    Err(fault) => e.reply == (WebEvent::GainError { error: fault }),
                },
                Command::Demod { mode } => {
                    &&& e.mode == Some(mode)
                    &&& e.reply == (WebEvent::DemodConfirm { mode })
                },
                Command::Bandwidth { hz } => {
                    &&& e.bandwidth matches Some(got) && (500 <= hz <= 380_000 ==> got == hz)
                    &&& e.reply == (WebEvent::BandwidthConfirm { actual: e.bandwidth->0 })
                },
                Command::Squelch { db } => {
                    &&& e.squelch == Some(db)
                    &&& e.reply == (WebEvent::SquelchConfirm { actual: db })
                },
            }
        }),
{
}

/// Preparing a receiver sets the rate of 1.536 MSPS. A receiver that is not tuned yet is
/// then tuned to 101.1 MHz and gets a gain of 30 dB; one that is stays where it is.
pub proof fn lemma_prepared_for_listening<H: HardwareInterface, T: Tuner<H>>(driver: Driver<H, T>)
    ensures
        ({
            let rated = driver.rate_set_if_possible(1_536_000).driver;
            let tuned = rated.tuned_if_possible(101_100_000);
            let gain = GainSetting { db: Decibels { bits: 0x41f0_0000 }, tenths: 300 };
            let after = prepared(driver);
            &&& driver.frequency != 0 ==> after == rated
            &&& driver.frequency == 0 ==> after == tuned.driver.gained_if_possible(gain).driver
            &&& driver.frequency == 0 && tuned.res is Ok ==> after.frequency == 101_100_000
            &&& driver.rate_set_if_possible(1_536_000).res is Ok ==> after.sample_rate == 1_536_000
        }),
{
    driver::lemma_sample_rate_remembered(driver, 1_536_000);
}

/// Filters that have forgotten what they have seen hold nothing but silence, and give their
/// next output for the next sample.
pub proof fn lemma_fresh_filters_silent<A: Copy>(filters: Filters<A>, silence: A, k: int)
    requires
        filters.wf(),
        filters.is_fresh(silence),
        0 <= k,
    ensures
        ({
            let quiet = |d: Decimator<A>|
                d.phase == 0 && d.history@.len() == d.taps@.len() - 1 && (k < d.history@.len()
                    ==> d.history@[k] == silence);
            &&& quiet(filters.wfm.i) && quiet(filters.wfm.q)
            &&& quiet(filters.post_wfm)
            &&& quiet(filters.nfm.i) && quiet(filters.nfm.q)
            &&& quiet(filters.am.i) && quiet(filters.am.q)
            &&& quiet(filters.ssb.i) && quiet(filters.ssb.q)
        }),
{
}

/// Whatever reaches a pipeline, its filters keep their taps and factors; a block with samples
/// and the end leave them as they are.
pub proof fn lemma_filters_keep_taps<A: Copy>(
    filters: Filters<A>,
    event: PipelineEvent,
    silence: A,
    next: Filters<A>,
)
    requires
        filters.follows(event, silence, next),
    ensures
        ({
            let same = |d: Decimator<A>, e: Decimator<A>| d.taps@ == e.taps@ && d.factor == e.factor;
            &&& same(filters.wfm.i, next.wfm.i) && same(filters.wfm.q, next.wfm.q)
            &&& same(filters.post_wfm, next.post_wfm)
            &&& same(filters.nfm.i, next.nfm.i) && same(filters.nfm.q, next.nfm.q)
            &&& same(filters.am.i, next.am.i) && same(filters.am.q, next.am.q)
            &&& same(filters.ssb.i, next.ssb.i) && same(filters.ssb.q, next.ssb.q)
            &&& event == PipelineEvent::Closed ==> next == filters
            &&& (event matches PipelineEvent::Block { len } && len >= 2) ==> next == filters
        }),
{
}

} // verus!
