//! What the daemon decides: how the receiver is configured, when it is tuned anew,
//! and which servers are started.
use crate::config::{self, DaemonConfig};
use crate::device::HardwareInterface;
use crate::driver::{self, Driver, Outcome};
use crate::error::Result;
use crate::stream::StreamConfig;
use crate::tuner::{BoardOrchestrator, GainSetting, Tuner};
use vstd::prelude::*;

verus! {

// ── HardwareBand ────────────────────────────────────────────────────────────
/// Describes the frequency range currently being digitised by the hardware.
#[derive(Debug, Clone, Copy, PartialEq, Eq, Structural)]
pub struct HardwareBand {
    pub center_hz: u64,
    pub span_hz: u32,
    pub spectral_inv: bool,
}

impl HardwareBand {
    /// Whether `freq_hz` is at most half the span away from the center.
    pub open spec fn covers(self, freq_hz: u64) -> bool {
        self.center_hz - self.span_hz as int / 2 <= freq_hz <= self.center_hz + self.span_hz as int
            / 2
    }

    /// Whether the upper end of the window is a frequency.
    pub open spec fn wf(self) -> bool {
        self.center_hz + self.span_hz as int / 2 <= u64::MAX
    }

    /// Returns `true` if `freq_hz` falls within the current hardware window.
    pub fn contains(&self, freq_hz: u64) -> (b: bool)
        requires
            self.wf(),
        ensures
            b == self.covers(freq_hz),
    {
        let half: u64 = self.span_hz as u64 / 2;
        let low: u64 = if self.center_hz >= half {
            self.center_hz - half
        } else {
            0
        };
        freq_hz >= low && freq_hz <= self.center_hz + half
    }

    /// The distance of `freq_hz` from the center, turned round where the spectrum is.
    pub open spec fn offset(self, freq_hz: u64) -> int {
        let diff = (freq_hz as i64) - (self.center_hz as i64);
        if self.spectral_inv {
            -diff
        } else {
            diff
        }
    }

    /// Signed offset in Hz from the hardware center to the requested frequency.
    pub fn offset_hz(&self, freq_hz: u64) -> (hz: i64)
        requires
            self.has_offset(freq_hz),
        ensures
            hz == self.offset(freq_hz),
    {
        let diff: i64 = freq_hz as i64 - self.center_hz as i64;
        // In an inverted spectrum what is higher in the air is lower in baseband.
        if self.spectral_inv {
            -diff
        } else {
            diff
        }
    }

    /// Whether the offset of a frequency is an `i64`.
    pub open spec fn has_offset(self, freq_hz: u64) -> bool {
        &&& i64::MIN <= (freq_hz as i64) - (self.center_hz as i64) <= i64::MAX
        &&& self.spectral_inv ==> (freq_hz as i64) - (self.center_hz as i64) > i64::MIN
    }

    /// The offset where there is one; nothing otherwise.
    pub fn checked_offset_hz(&self, freq_hz: u64) -> (hz: Option<i64>)
        ensures
            hz is Some == self.has_offset(freq_hz),
            hz matches Some(v) ==> v == self.offset(freq_hz),
    {
        let diff: i128 = freq_hz as i64 as i128 - self.center_hz as i64 as i128;
        if diff < i64::MIN as i128 || diff > i64::MAX as i128 || (self.spectral_inv && diff
            == i64::MIN as i128) {
            None
        } else {
            Some(self.offset_hz(freq_hz))
        }
    }
}

/// A window covers its center, and the frequencies it covers are those whose offset
/// is at most half the span, inverted or not.
pub proof fn lemma_window_is_symmetric(band: HardwareBand, freq_hz: u64)
    requires
        freq_hz <= i64::MAX,
        band.center_hz <= i64::MAX,
    ensures
        band.covers(band.center_hz),
        band.covers(freq_hz) <==> -(band.span_hz as int / 2) <= band.offset(freq_hz)
            <= band.span_hz as int / 2,
{
}

/// Inverting the spectrum turns every offset round.
pub proof fn lemma_inversion_negates(band: HardwareBand, freq_hz: u64)
    ensures
        (HardwareBand { spectral_inv: !band.spectral_inv, ..band }).offset(freq_hz)
            == -band.offset(freq_hz),
{
}

// ── Starting ────────────────────────────────────────────────────────────────
/// The request to move the hardware's window.
#[derive(Debug, Clone, Copy, PartialEq, Eq, Structural)]
pub struct RetuneRequest {
    pub center_hz: u64,
}

/// The window of a receiver that was asked for `hz`.
pub open spec fn window<H: HardwareInterface, T: Tuner<H>>(
    driver: Driver<H, T>,
    hz: u64,
    span_hz: u32,
) -> HardwareBand {
    HardwareBand {
        center_hz: hz,
        span_hz,
        spectral_inv: driver.orchestrator.plan(hz).spectral_inv,
    }
}

/// The receiver with the sample rate, the frequency and the gain of the
/// configuration, set in this order until one cannot be.
pub open spec fn rate_frequency_gain_set<H: HardwareInterface, T: Tuner<H>>(
    driver: Driver<H, T>,
    hardware: config::HardwareConfig,
    gain: GainSetting,
) -> Outcome<Driver<H, T>, ()> {
    let rated = driver.rate_set_if_possible(hardware.sample_rate);
    let tuned = rated.driver.tuned_if_possible(hardware.initial_freq);
    let gained = tuned.driver.gained_if_possible(gain);
    match rated.res {
        Err(e) => Outcome { driver: rated.driver, res: Err(e) },
        Ok(_) => match tuned.res {
            Err(e) => Outcome { driver: tuned.driver, res: Err(e) },
            Ok(_) => match gained.res {
                Err(e) => Outcome { driver: gained.driver, res: Err(e) },
                Ok(_) => Outcome { driver: gained.driver, res: Ok(()) },
            },
        },
    }
}

/// The crystal corrected, where the configuration says so.
pub open spec fn ppm_set<H: HardwareInterface, T: Tuner<H>>(
    driver: Driver<H, T>,
    ppm: i32,
) -> Outcome<Driver<H, T>, ()> {
    if ppm != 0 {
        driver.corrected_if_possible(ppm)
    } else {
        Outcome { driver, res: Ok(()) }
    }
}

/// The bias tee switched on, where the configuration says so.
pub open spec fn bias_set<H: HardwareInterface, T: Tuner<H>>(
    driver: Driver<H, T>,
    bias_t: bool,
) -> Outcome<Driver<H, T>, ()> {
    if bias_t {
        driver.bias_switched(true)
    } else {
        Outcome { driver, res: Ok(()) }
    }
}

/// What [`configure`] does with the receiver.
pub open spec fn configured<H: HardwareInterface, T: Tuner<H>>(
    driver: Driver<H, T>,
    cfg: DaemonConfig,
    gain: GainSetting,
) -> Outcome<Driver<H, T>, ()> {
    let first = rate_frequency_gain_set(driver, cfg.hardware, gain);
    let second = ppm_set(first.driver, cfg.hardware.ppm);
    let third = bias_set(second.driver, cfg.hardware.bias_t);
    if first.res is Err {
        first
    } else if second.res is Err {
        second
    } else if third.res is Err {
        third
    } else {
        Outcome {
            driver: Driver { stream_config: cfg.stream.into_stream_config(), ..third.driver },
            res: Ok(()),
        }
    }
}

fn set_rate_frequency_gain<H: HardwareInterface, T: Tuner<H>>(
    driver: &mut Driver<H, T>,
    hardware: &config::HardwareConfig,
    gain: GainSetting,
) -> (res: Result<()>)
    ensures
        (Outcome { driver: *final(driver), res }) == rate_frequency_gain_set(
            *old(driver),
            *hardware,
            gain,
        ),
{
    driver.try_set_sample_rate(hardware.sample_rate)?;
    driver.try_set_frequency(hardware.initial_freq)?;
    driver.try_set_gain(gain)?;
    Ok(())
}

/// Configures the receiver; returns the window that it digitises then. `gain` is
/// the configured gain as it is to be set.
pub fn configure<H: HardwareInterface, T: Tuner<H>>(
    driver: &mut Driver<H, T>,
    cfg: &DaemonConfig,
    gain: GainSetting,
) -> (res: Result<HardwareBand>)
    ensures
        ({
            let o = configured(*old(driver), *cfg, gain);
            &&& *final(driver) == o.driver
            &&& res == match o.res {
                Ok(_) => Ok(
                    window(*final(driver), cfg.hardware.initial_freq, cfg.hardware.sample_rate),
                ),
                Err(e) => Err(e),
            }
        }),
{
    set_rate_frequency_gain(driver, &cfg.hardware, gain)?;
    if cfg.hardware.ppm != 0 {
        driver.try_set_ppm(cfg.hardware.ppm)?;
    }
    if cfg.hardware.bias_t {
        driver.set_bias_t(true)?;
    }
    driver.stream_config = StreamConfig::from(cfg.stream);
    let plan = driver.orchestrator.plan_tuning(cfg.hardware.initial_freq);
    Ok(
        HardwareBand {
            center_hz: cfg.hardware.initial_freq,
            span_hz: cfg.hardware.sample_rate,
            spectral_inv: plan.spectral_inv,
        },
    )
}

// ── Pumping ─────────────────────────────────────────────────────────────────
/// What happens to the pump that carries samples from the stream to the servers.
#[derive(Debug, Clone, Copy, PartialEq, Eq, Structural)]
pub enum PumpEvent {
    Cancelled,
    RetuneAsked(RetuneRequest),
    Samples,
    StreamFailed,
    StreamEnded,
}

/// What the pump does about it.
#[derive(Debug, Clone, Copy, PartialEq, Eq, Structural)]
pub enum PumpAction {
    Stop,
    /// Nothing is to be done.
    Wait,
    /// Tune the receiver, see [`retune`].
    Retune(RetuneRequest),
    /// Hand the samples to all servers.
    Forward,
}

/// Decides what the pump does. A request for the present center asks for nothing.
pub fn pump_action(band: &HardwareBand, event: PumpEvent) -> (action: PumpAction)
    ensures
        action == match event {
            PumpEvent::Cancelled => PumpAction::Stop,
            PumpEvent::RetuneAsked(req) => if req.center_hz == band.center_hz {
                PumpAction::Wait
            } else {
                PumpAction::Retune(req)
            },
            PumpEvent::Samples => PumpAction::Forward,
            PumpEvent::StreamFailed => PumpAction::Stop,
            PumpEvent::StreamEnded => PumpAction::Stop,
        },
{
    match event {
        PumpEvent::Cancelled => PumpAction::Stop,
        PumpEvent::RetuneAsked(req) => if req.center_hz == band.center_hz {
            PumpAction::Wait
        } else {
            PumpAction::Retune(req)
        },
        PumpEvent::Samples => PumpAction::Forward,
        PumpEvent::StreamFailed => PumpAction::Stop,
        PumpEvent::StreamEnded => PumpAction::Stop,
    }
}

/// Moves the hardware's window. On success, samples taken before are stale: the
/// servers' pipelines are to be flushed, by an empty block, and the stream is to be
/// opened anew.
pub fn retune<H: HardwareInterface, T: Tuner<H>>(
    driver: &mut Driver<H, T>,
    band: &mut HardwareBand,
    req: RetuneRequest,
) -> (res: Result<()>)
    ensures
        ({
            let o = old(driver).tuned_if_possible(req.center_hz);
            &&& *final(driver) == o.driver
            &&& match o.res {
                Ok(_) => res == Result::<()>::Ok(()) && *final(band) == window(
                    *old(driver),
                    req.center_hz,
                    old(band).span_hz,
                ),
                Err(e) => res == Result::<()>::Err(e) && *final(band) == *old(band),
            }
        }),
{
    let plan = driver.orchestrator.plan_tuning(req.center_hz);
    driver.try_set_frequency(req.center_hz)?;
    *band = HardwareBand {
        center_hz: req.center_hz,
        span_hz: band.span_hz,
        spectral_inv: plan.spectral_inv,
    };
    Ok(())
}

/// After the window has been moved, it covers what was asked for, in its middle.
pub proof fn lemma_retuned_window_covers<H: HardwareInterface, T: Tuner<H>>(
    driver: Driver<H, T>,
    hz: u64,
    span_hz: u32,
)
    ensures
        window(driver, hz, span_hz).covers(hz),
        window(driver, hz, span_hz).offset(hz) == 0,
{
}

// ── Servers ─────────────────────────────────────────────────────────────────
/// A server that is to be started.
pub enum Launch {
    RtlTcp { addr: String },
    WebSdr { addr: String, tls: Option<(String, String)>, sample_rate: u32 },
    UnixSocket { path: String },
}

/// The servers that a configuration asks for.
pub open spec fn launches_of(cfg: DaemonConfig) -> Seq<Launch> {
    let rtl_tcp = match cfg.servers.rtl_tcp {
        Some(addr) => seq![Launch::RtlTcp { addr }],
        None => Seq::empty(),
    };
    let websdr = match cfg.servers.websdr {
        Some(addr) => seq![
            Launch::WebSdr {
                addr,
                tls: match (cfg.tls.cert, cfg.tls.key) {
                    (Some(c), Some(k)) => Some((c, k)),
                    _ => None,
                },
                sample_rate: cfg.hardware.sample_rate,
            },
        ],
        None => Seq::empty(),
    };
    let unix_socket = match cfg.servers.unix_socket {
        Some(path) => seq![Launch::UnixSocket { path }],
        None => Seq::empty(),
    };
    rtl_tcp + websdr + unix_socket
}

/// Lists the servers that a configuration asks for.
pub fn launches(cfg: &DaemonConfig) -> (list: Vec<Launch>)
    ensures
        list@ == launches_of(*cfg),
{
    let mut list: Vec<Launch> = Vec::new();
    if let Some(addr) = &cfg.servers.rtl_tcp {
        list.push(Launch::RtlTcp { addr: addr.clone() });
    }
    if let Some(addr) = &cfg.servers.websdr {
        list.push(
            Launch::WebSdr {
                addr: addr.clone(),
                tls: cfg.tls.pair(),
                sample_rate: cfg.hardware.sample_rate,
            },
        );
    }
    if let Some(path) = &cfg.servers.unix_socket {
        list.push(Launch::UnixSocket { path: path.clone() });
    }
    assert(list@ =~= launches_of(*cfg));
    list
}

/// A configuration without a fault asks for at least one server.
pub proof fn lemma_something_to_launch(cfg: DaemonConfig)
    requires
        cfg.fault() is None,
    ensures
        launches_of(cfg).len() > 0,
{
}

// ── Laws ────────────────────────────────────────────────────────────────────
/// A frequency is covered if twice its distance from the center is at most the span. Its
/// offset is what has to be added to the center to get to it, or taken from it where the
/// spectrum is inverted.
pub proof fn lemma_distance_from_center(band: HardwareBand, freq_hz: u64)
    requires
        freq_hz <= i64::MAX,
        band.center_hz <= i64::MAX,
    ensures
        band.covers(freq_hz) <==> 2 * (freq_hz - band.center_hz) <= band.span_hz && 2 * (
        band.center_hz - freq_hz) <= band.span_hz,
        !band.spectral_inv ==> band.center_hz + band.offset(freq_hz) == freq_hz,
        band.spectral_inv ==> band.center_hz - band.offset(freq_hz) == freq_hz,
{
}

/// The window of a receiver lies about the frequency that was asked for, is as wide as the
/// sample rate, and is inverted below 28.8 MHz on a V4 and nowhere else.
pub proof fn lemma_window_of_receiver<H: HardwareInterface, T: Tuner<H>>(
    driver: Driver<H, T>,
    hz: u64,
    span_hz: u32,
)
    ensures
        ({
            let band = window(driver, hz, span_hz);
            &&& band.center_hz == hz
            &&& band.span_hz == span_hz
            &&& band.spectral_inv <==> driver.orchestrator is V4 && hz < 28_800_000
        }),
{
}

/// Configuring a receiver is setting the configured rate, then tuning to the configured
/// frequency, then setting the gain, then correcting the crystal if the correction is not
/// zero, and then switching the bias tee on if it is to be. It succeeds if all of these do,
/// and the receiver then remembers the configuration's values.
pub proof fn lemma_configuration_applied<H: HardwareInterface, T: Tuner<H>>(
    driver: Driver<H, T>,
    cfg: DaemonConfig,
    gain: GainSetting,
)
    ensures
        ({
            let rated = driver.rate_set_if_possible(cfg.hardware.sample_rate);
            let tuned = rated.driver.tuned_if_possible(cfg.hardware.initial_freq);
            let gained = tuned.driver.gained_if_possible(gain);
            let corrected = gained.driver.corrected_if_possible(cfg.hardware.ppm);
            let ppm_zero = cfg.hardware.ppm == 0;
            let before_bias = if ppm_zero {
                gained.driver
            } else {
                corrected.driver
            };
            let biased = before_bias.bias_switched(true);
            let o = configured(driver, cfg, gain);
            let all_set = rated.res is Ok && tuned.res is Ok && gained.res is Ok && (ppm_zero
                || corrected.res is Ok) && (!cfg.hardware.bias_t || biased.res is Ok);
            &&& o.res is Ok <==> all_set
            &&& all_set ==> {
                &&& o.driver.hw == if cfg.hardware.bias_t {
                    biased.driver.hw
                } else {
                    before_bias.hw
                }
                &&& o.driver.tuner == before_bias.tuner
                &&& o.driver.sample_rate == cfg.hardware.sample_rate
                &&& o.driver.frequency == cfg.hardware.initial_freq
                &&& o.driver.ppm == if ppm_zero {
                    driver.ppm
                } else {
                    cfg.hardware.ppm
                }
                &&& o.driver.stream_config.num_buffers == cfg.stream.num_buffers
                &&& o.driver.stream_config.buffer_size == cfg.stream.buffer_size
            }
            &&& rated.res matches Err(e) ==> o.res == Result::<()>::Err(e)
        }),
{
    let rated = driver.rate_set_if_possible(cfg.hardware.sample_rate);
    let tuned = rated.driver.tuned_if_possible(cfg.hardware.initial_freq);
    let gained = tuned.driver.gained_if_possible(gain);
    driver::lemma_sample_rate_remembered(driver, cfg.hardware.sample_rate);
    driver::lemma_frequency_remembered(rated.driver, cfg.hardware.initial_freq);
    driver::lemma_ppm_remembered(gained.driver, cfg.hardware.ppm);
}

/// A server is started exactly if the configuration has an address for it, at that address.
/// The WebSDR runs at the configured rate, and has a certificate and its key only if both
/// are given. There is no other server.
pub proof fn lemma_servers_started(cfg: DaemonConfig)
    ensures
        ({
            let list = launches_of(cfg);
            let count = |server: Option<String>|
                if server is Some {
                    1int
                } else {
                    0
                };
            &&& list.len() == count(cfg.servers.rtl_tcp) + count(cfg.servers.websdr) + count(
                cfg.servers.unix_socket,
            )
            &&& cfg.servers.rtl_tcp matches Some(a) ==> list[0] == (Launch::RtlTcp { addr: a })
            &&& cfg.servers.unix_socket matches Some(p) ==> list.last() == (Launch::UnixSocket {
                path: p,
            })
            &&& cfg.servers.websdr matches Some(a) ==> {
                let web = list[count(cfg.servers.rtl_tcp)];
                &&& web matches Launch::WebSdr { addr, tls, sample_rate }
                &&& addr == a
                &&& sample_rate == cfg.hardware.sample_rate
                &&& tls is Some <==> cfg.tls.cert is Some && cfg.tls.key is Some
                &&& tls matches Some(pair) ==> cfg.tls.cert == Some(pair.0) && cfg.tls.key == Some(
                    pair.1,
                )
            }
        }),
{
}

/// Frequencies that a receiver can have are in order: their offsets are numbers, and the
/// upper end of their windows is a frequency.
pub proof fn lemma_ordinary_frequencies(band: HardwareBand, freq_hz: u64)
    requires
        freq_hz <= i64::MAX,
        band.center_hz <= i64::MAX,
    ensures
        band.has_offset(freq_hz),
        band.wf(),
{
}

} // verus!
