//! Daemon configuration: schema, defaults, and the merge with the command line.
//!
//! # Layering order (lowest to highest priority)
//! 1. The defaults
//! 2. The user's configuration file
//! 3. Command-line overrides (any `Some` field in [`CliOverrides`] wins)
use crate::stream::StreamConfig;
use crate::tuner::Decibels;
use vstd::prelude::*;
use vstd::std_specs::convert::FromSpecImpl;

verus! {

/// The defaults in the form that a configuration file has. No server is enabled.
pub const DEFAULT_TOML: &'static str =
    "[hardware]
device_index = 0
sample_rate = 1_536_000
initial_freq = 101_100_000
initial_gain = 30.0
ppm = 0
bias_t = false

[stream]
num_buffers = 16
buffer_size = 262_144
";

// ── Sections ────────────────────────────────────────────────────────────────
#[derive(Debug, Clone)]
pub struct DaemonConfig {
    pub hardware: HardwareConfig,
    pub stream: StreamCfg,
    pub servers: ServersConfig,
    pub tls: TlsConfig,
}

#[derive(Debug, Clone, Copy, PartialEq, Eq, Structural)]
pub struct HardwareConfig {
    pub device_index: u32,
    pub sample_rate: u32,
    pub initial_freq: u64,
    pub initial_gain: Decibels,
    pub ppm: i32,
    pub bias_t: bool,
}

/// The bits of 30.0.
pub const THIRTY_BITS: u32 = 0x41f0_0000;

impl HardwareConfig {
    pub open spec fn defaults() -> HardwareConfig {
        HardwareConfig {
            device_index: 0,
            sample_rate: 1_536_000,
            initial_freq: 101_100_000,
            initial_gain: Decibels { bits: THIRTY_BITS },
            ppm: 0,
            bias_t: false,
        }
    }
}

impl Default for HardwareConfig {
    fn default() -> (config: Self)
        ensures
            config == HardwareConfig::defaults(),
    {
        HardwareConfig {
            device_index: 0,
            sample_rate: 1_536_000,
            initial_freq: 101_100_000,
            initial_gain: Decibels { bits: THIRTY_BITS },
            ppm: 0,
            bias_t: false,
        }
    }
}

/// The configuration of the sample stream.
#[derive(Debug, Clone, Copy, PartialEq, Eq, Structural)]
pub struct StreamCfg {
    pub num_buffers: usize,
    pub buffer_size: usize,
}

impl StreamCfg {
    pub open spec fn defaults() -> StreamCfg {
        StreamCfg { num_buffers: 16, buffer_size: 262_144 }
    }
}

impl Default for StreamCfg {
    fn default() -> (config: Self)
        ensures
            config == StreamCfg::defaults(),
    {
        StreamCfg { num_buffers: 16, buffer_size: 262_144 }
    }
}

impl StreamCfg {
    pub open spec fn into_stream_config(self) -> StreamConfig {
        StreamConfig { num_buffers: self.num_buffers, buffer_size: self.buffer_size }
    }
}

impl FromSpecImpl<StreamCfg> for StreamConfig {
    open spec fn obeys_from_spec() -> bool {
        true
    }

    open spec fn from_spec(c: StreamCfg) -> StreamConfig {
        c.into_stream_config()
    }
}

impl From<StreamCfg> for StreamConfig {
    fn from(c: StreamCfg) -> (config: Self) {
        StreamConfig { num_buffers: c.num_buffers, buffer_size: c.buffer_size }
    }
}

/// The addresses that servers listen at; a server without one is not started.
#[derive(Debug, Clone)]
pub struct ServersConfig {
    pub rtl_tcp: Option<String>,
    pub websdr: Option<String>,
    pub unix_socket: Option<String>,
}

impl Default for ServersConfig {
    fn default() -> (config: Self)
        ensures
            config == (ServersConfig { rtl_tcp: None, websdr: None, unix_socket: None }),
    {
        ServersConfig { rtl_tcp: None, websdr: None, unix_socket: None }
    }
}

/// The paths of a certificate and its private key.
#[derive(Debug, Clone)]
pub struct TlsConfig {
    pub cert: Option<String>,
    pub key: Option<String>,
}

impl Default for TlsConfig {
    fn default() -> (config: Self)
        ensures
            config == (TlsConfig { cert: None, key: None }),
    {
        TlsConfig { cert: None, key: None }
    }
}

impl TlsConfig {
    /// Returns `Some((cert, key))` only when both are present, `None` otherwise.
    pub fn pair(&self) -> (pair: Option<(String, String)>)
        ensures
            pair == match (self.cert, self.key) {
                (Some(c), Some(k)) => Some((c, k)),
                _ => None,
            },
    {
        match (&self.cert, &self.key) {
            (Some(c), Some(k)) => Some((c.clone(), k.clone())),
            _ => None,
        }
    }
}

/// The command-line flags that can override what a configuration file says. `None`
/// means that the flag was not given.
#[derive(Debug)]
pub struct CliOverrides {
    pub device_index: Option<u32>,
    pub sample_rate: Option<u32>,
    pub initial_freq: Option<u64>,
    pub initial_gain: Option<Decibels>,
    pub ppm: Option<i32>,
    pub bias_t: Option<bool>,
    pub num_buffers: Option<usize>,
    pub buffer_size: Option<usize>,
    pub rtl_tcp: Option<String>,
    pub websdr: Option<String>,
    pub unix_socket: Option<String>,
    pub cert: Option<String>,
    pub key: Option<String>,
}

impl Default for CliOverrides {
    fn default() -> (overrides: Self)
        ensures
            overrides == CliOverrides::none(),
    {
        CliOverrides {
            device_index: None,
            sample_rate: None,
            initial_freq: None,
            initial_gain: None,
            ppm: None,
            bias_t: None,
            num_buffers: None,
            buffer_size: None,
            rtl_tcp: None,
            websdr: None,
            unix_socket: None,
            cert: None,
            key: None,
        }
    }
}

impl CliOverrides {
    /// No flag given.
    pub open spec fn none() -> CliOverrides {
        CliOverrides {
            device_index: None,
            sample_rate: None,
            initial_freq: None,
            initial_gain: None,
            ppm: None,
            bias_t: None,
            num_buffers: None,
            buffer_size: None,
            rtl_tcp: None,
            websdr: None,
            unix_socket: None,
            cert: None,
            key: None,
        }
    }
}

/// What is wrong with a configuration.
#[derive(Debug, Clone, Copy, PartialEq, Eq, Structural)]
pub enum ConfigError {
    /// `hardware.sample_rate` is outside 225_000 to 3_200_000.
    SampleRate(u32),
    /// `hardware.initial_freq` is zero.
    ZeroFrequency,
    /// `stream.num_buffers` is zero.
    NoBuffers,
    /// `stream.buffer_size` is not a multiple of 512, the USB packet size.
    UnalignedBuffer(usize),
    /// `tls.cert` is set but `tls.key` is missing.
    MissingKey,
    /// `tls.key` is set but `tls.cert` is missing.
    MissingCert,
    /// No server is enabled, so there would be nothing to do.
    NoServers,
}

// ── Layers ──────────────────────────────────────────────────────────────────
/// `over` where it is given, `base` otherwise.
pub open spec fn overriding<A>(over: Option<A>, base: A) -> A {
    match over {
        Some(a) => a,
        None => base,
    }
}

/// `over` where it is given, `base`, which may be nothing, otherwise.
pub open spec fn preferring<A>(over: Option<A>, base: Option<A>) -> Option<A> {
    if over is Some {
        over
    } else {
        base
    }
}

fn prefer_copy(over: &Option<String>, base: &Option<String>) -> (r: Option<String>)
    ensures
        r == preferring(*over, *base),
{
    match over {
        Some(a) => Some(a.clone()),
        None => match base {
            Some(b) => Some(b.clone()),
            None => None,
        },
    }
}

impl Default for DaemonConfig {
    fn default() -> (config: Self)
        ensures
            config == DaemonConfig::defaults(),
    {
        DaemonConfig {
            hardware: HardwareConfig::default(),
            stream: StreamCfg::default(),
            servers: ServersConfig::default(),
            tls: TlsConfig::default(),
        }
    }
}

impl DaemonConfig {
    pub open spec fn defaults() -> DaemonConfig {
        DaemonConfig {
            hardware: HardwareConfig::defaults(),
            stream: StreamCfg::defaults(),
            servers: ServersConfig { rtl_tcp: None, websdr: None, unix_socket: None },
            tls: TlsConfig { cert: None, key: None },
        }
    }

    /// `other` on top of this configuration: a section of plain values replaces the
    /// section here as a whole, unless it says nothing but the defaults; of the
    /// other sections each given value replaces the value here.
    pub open spec fn merged(self, other: DaemonConfig) -> DaemonConfig {
        DaemonConfig {
            hardware: if other.hardware == HardwareConfig::defaults() {
                self.hardware
            } else {
                other.hardware
            },
            stream: if other.stream == StreamCfg::defaults() {
                self.stream
            } else {
                other.stream
            },
            servers: ServersConfig {
                rtl_tcp: preferring(other.servers.rtl_tcp, self.servers.rtl_tcp),
                websdr: preferring(other.servers.websdr, self.servers.websdr),
                unix_socket: preferring(other.servers.unix_socket, self.servers.unix_socket),
            },
            tls: TlsConfig {
                cert: preferring(other.tls.cert, self.tls.cert),
                key: preferring(other.tls.key, self.tls.key),
            },
        }
    }

    /// This configuration with the given flags in place of its values.
    pub open spec fn overridden(self, o: CliOverrides) -> DaemonConfig {
        DaemonConfig {
            hardware: HardwareConfig {
                device_index: overriding(o.device_index, self.hardware.device_index),
                sample_rate: overriding(o.sample_rate, self.hardware.sample_rate),
                initial_freq: overriding(o.initial_freq, self.hardware.initial_freq),
                initial_gain: overriding(o.initial_gain, self.hardware.initial_gain),
                ppm: overriding(o.ppm, self.hardware.ppm),
                bias_t: overriding(o.bias_t, self.hardware.bias_t),
            },
            stream: StreamCfg {
                num_buffers: overriding(o.num_buffers, self.stream.num_buffers),
                buffer_size: overriding(o.buffer_size, self.stream.buffer_size),
            },
            servers: ServersConfig {
                rtl_tcp: preferring(o.rtl_tcp, self.servers.rtl_tcp),
                websdr: preferring(o.websdr, self.servers.websdr),
                unix_socket: preferring(o.unix_socket, self.servers.unix_socket),
            },
            tls: TlsConfig {
                cert: preferring(o.cert, self.tls.cert),
                key: preferring(o.key, self.tls.key),
            },
        }
    }

    /// The first thing that is wrong with this configuration, if anything is.
    pub open spec fn fault(self) -> Option<ConfigError> {
        if !(225_000 <= self.hardware.sample_rate <= 3_200_000) {
            Some(ConfigError::SampleRate(self.hardware.sample_rate))
        } else if self.hardware.initial_freq == 0 {
            Some(ConfigError::ZeroFrequency)
        } else if self.stream.num_buffers == 0 {
            Some(ConfigError::NoBuffers)
        } else if self.stream.buffer_size % 512 != 0 {
            Some(ConfigError::UnalignedBuffer(self.stream.buffer_size))
        } else if self.tls.cert is Some && self.tls.key is None {
            Some(ConfigError::MissingKey)
        } else if self.tls.cert is None && self.tls.key is Some {
            Some(ConfigError::MissingCert)
        } else if self.servers.rtl_tcp is None && self.servers.websdr is None
            && self.servers.unix_socket is None {
            Some(ConfigError::NoServers)
        } else {
            None
        }
    }

    /// The layers put together.
    pub open spec fn layered(user: Option<DaemonConfig>, o: CliOverrides) -> DaemonConfig {
        let base = DaemonConfig::defaults();
        (match user {
            Some(u) => base.merged(u),
            None => base,
        }).overridden(o)
    }

    /// Puts the layers together and validates the result. `user` is what the user's
    /// configuration file says; sections that it leaves out hold the defaults.
    pub fn load(user: Option<DaemonConfig>, overrides: &CliOverrides) -> (res: core::result::Result<
        DaemonConfig,
        ConfigError,
    >)
        ensures
            match DaemonConfig::layered(user, *overrides).fault() {
                Some(e) => res == core::result::Result::<DaemonConfig, ConfigError>::Err(e),
                None => res == core::result::Result::<DaemonConfig, ConfigError>::Ok(
                    DaemonConfig::layered(user, *overrides),
                ),
            },
    {
        let mut cfg = DaemonConfig::default();
        if let Some(u) = user {
            cfg.merge_from(u);
        }
        cfg.apply_overrides(overrides);
        match cfg.validate() {
            Ok(_) => Ok(cfg),
            Err(e) => Err(e),
        }
    }

    /// Merges `other` on top of this configuration.
    pub fn merge_from(&mut self, other: DaemonConfig)
        ensures
            *final(self) == old(self).merged(other),
    {
        let servers = ServersConfig {
            rtl_tcp: prefer_copy(&other.servers.rtl_tcp, &self.servers.rtl_tcp),
            websdr: prefer_copy(&other.servers.websdr, &self.servers.websdr),
            unix_socket: prefer_copy(&other.servers.unix_socket, &self.servers.unix_socket),
        };
        let tls = TlsConfig {
            cert: prefer_copy(&other.tls.cert, &self.tls.cert),
            key: prefer_copy(&other.tls.key, &self.tls.key),
        };
        if other.hardware != HardwareConfig::default() {
            self.hardware = other.hardware;
        }
        if other.stream != StreamCfg::default() {
            self.stream = other.stream;
        }
        self.servers = servers;
        self.tls = tls;
    }

    /// Applies the command line: any given flag wins.
    pub fn apply_overrides(&mut self, o: &CliOverrides)
        ensures
            *final(self) == old(self).overridden(*o),
    {
        if let Some(v) = o.device_index {
            self.hardware.device_index = v;
        }
        if let Some(v) = o.sample_rate {
            self.hardware.sample_rate = v;
        }
        if let Some(v) = o.initial_freq {
            self.hardware.initial_freq = v;
        }
        if let Some(v) = o.initial_gain {
            self.hardware.initial_gain = v;
        }
        if let Some(v) = o.ppm {
            self.hardware.ppm = v;
        }
        if let Some(v) = o.bias_t {
            self.hardware.bias_t = v;
        }
        if let Some(v) = o.num_buffers {
            self.stream.num_buffers = v;
        }
        if let Some(v) = o.buffer_size {
            self.stream.buffer_size = v;
        }
        let servers = ServersConfig {
            rtl_tcp: prefer_copy(&o.rtl_tcp, &self.servers.rtl_tcp),
            websdr: prefer_copy(&o.websdr, &self.servers.websdr),
            unix_socket: prefer_copy(&o.unix_socket, &self.servers.unix_socket),
        };
        let tls = TlsConfig {
            cert: prefer_copy(&o.cert, &self.tls.cert),
            key: prefer_copy(&o.key, &self.tls.key),
        };
        self.servers = servers;
        self.tls = tls;
    }

    /// Checks the merged configuration.
    pub fn validate(&self) -> (res: core::result::Result<(), ConfigError>)
        ensures
            match self.fault() {
                Some(e) => res == core::result::Result::<(), ConfigError>::Err(e),
                None => res is Ok,
            },
    {
        let rate: u32 = self.hardware.sample_rate;
        if rate < 225_000 || rate > 3_200_000 {
            return Err(ConfigError::SampleRate(rate));
        }
        if self.hardware.initial_freq == 0 {
            return Err(ConfigError::ZeroFrequency);
        }
        if self.stream.num_buffers == 0 {
            return Err(ConfigError::NoBuffers);
        }
        if self.stream.buffer_size % 512 != 0 {
            return Err(ConfigError::UnalignedBuffer(self.stream.buffer_size));
        }
        // The certificate and the key come together or not at all.
        match (&self.tls.cert, &self.tls.key) {
            (Some(_), None) => {
                return Err(ConfigError::MissingKey);
            },
            (None, Some(_)) => {
                return Err(ConfigError::MissingCert);
            },
            _ => {},
        }
        if self.servers.rtl_tcp.is_none() && self.servers.websdr.is_none()
            && self.servers.unix_socket.is_none() {
            return Err(ConfigError::NoServers);
        }
        Ok(())
    }
}

// ── Laws ────────────────────────────────────────────────────────────────────
/// A flag that is given has the last word, whatever the user's file says.
pub proof fn lemma_given_flags_win(user: Option<DaemonConfig>, o: CliOverrides)
    ensures
        ({
            let cfg = DaemonConfig::layered(user, o);
            &&& o.device_index matches Some(v) ==> cfg.hardware.device_index == v
            &&& o.sample_rate matches Some(v) ==> cfg.hardware.sample_rate == v
            &&& o.initial_freq matches Some(v) ==> cfg.hardware.initial_freq == v
            &&& o.initial_gain matches Some(v) ==> cfg.hardware.initial_gain == v
            &&& o.ppm matches Some(v) ==> cfg.hardware.ppm == v
            &&& o.bias_t matches Some(v) ==> cfg.hardware.bias_t == v
            &&& o.num_buffers matches Some(v) ==> cfg.stream.num_buffers == v
            &&& o.buffer_size matches Some(v) ==> cfg.stream.buffer_size == v
            &&& o.rtl_tcp is Some ==> cfg.servers.rtl_tcp == o.rtl_tcp
            &&& o.websdr is Some ==> cfg.servers.websdr == o.websdr
            &&& o.unix_socket is Some ==> cfg.servers.unix_socket == o.unix_socket
            &&& o.cert is Some ==> cfg.tls.cert == o.cert
            &&& o.key is Some ==> cfg.tls.key == o.key
        }),
{
}

/// Without flags the user's file has the last word, and without a file the
/// defaults stand.
pub proof fn lemma_layers_without_flags(user: DaemonConfig)
    ensures
        DaemonConfig::layered(Some(user), CliOverrides::none()) == user,
        DaemonConfig::layered(None, CliOverrides::none()) == DaemonConfig::defaults(),
{
}

/// A file that leaves a section out does not change that section.
pub proof fn lemma_missing_section_keeps(base: DaemonConfig, user: DaemonConfig)
    ensures
        user.hardware == HardwareConfig::defaults() ==> base.merged(user).hardware
            == base.hardware,
        user.stream == StreamCfg::defaults() ==> base.merged(user).stream == base.stream,
        user.servers.rtl_tcp is None ==> base.merged(user).servers.rtl_tcp
            == base.servers.rtl_tcp,
        user.servers.websdr is None ==> base.merged(user).servers.websdr == base.servers.websdr,
        user.servers.unix_socket is None ==> base.merged(user).servers.unix_socket
            == base.servers.unix_socket,
        user.tls.cert is None ==> base.merged(user).tls.cert == base.tls.cert,
        user.tls.key is None ==> base.merged(user).tls.key == base.tls.key,
{
}

/// A configuration has no fault exactly if its sample rate lies between 225 kSPS and
/// 3.2 MSPS, its frequency is not zero, there is a buffer, buffers are whole USB packets of
/// 512 bytes, a certificate and a key come together, and there is a server. A fault that is
/// reported is there.
pub proof fn lemma_faults(cfg: DaemonConfig)
    ensures
        ({
            let rate = cfg.hardware.sample_rate;
            let size = cfg.stream.buffer_size;
            let (cert, key) = (cfg.tls.cert is Some, cfg.tls.key is Some);
            let server = cfg.servers.rtl_tcp is Some || cfg.servers.websdr is Some
                || cfg.servers.unix_socket is Some;
            &&& cfg.fault() is None <==> rate >= 225_000 && rate <= 3_200_000
                && cfg.hardware.initial_freq > 0 && cfg.stream.num_buffers > 0 && size % 512 == 0
                && cert == key && server
            &&& match cfg.fault() {
                Some(ConfigError::SampleRate(r)) => r == rate && (r < 225_000 || r > 3_200_000),
                Some(ConfigError::ZeroFrequency) => cfg.hardware.initial_freq == 0,
                Some(ConfigError::NoBuffers) => cfg.stream.num_buffers == 0,
                Some(ConfigError::UnalignedBuffer(n)) => n == size && n % 512 > 0,
                Some(ConfigError::MissingKey) => cert && !key,
                Some(ConfigError::MissingCert) => key && !cert,
                Some(ConfigError::NoServers) => !server,
                None => true,
            }
        }),
{
}

/// What is neither given as a flag nor said in the file is as it is by default: the first
/// device at 1.536 MSPS, tuned to 101.1 MHz with 30 dB of gain, no correction, no bias tee,
/// sixteen buffers of 256 KiB, and no server.
pub proof fn lemma_defaults_stand(o: CliOverrides)
    ensures
        ({
            let cfg = DaemonConfig::layered(None, o);
            &&& o.device_index is None ==> cfg.hardware.device_index == 0
            &&& o.sample_rate is None ==> cfg.hardware.sample_rate == 1_536_000
            &&& o.initial_freq is None ==> cfg.hardware.initial_freq == 101_100_000
            &&& o.initial_gain is None ==> cfg.hardware.initial_gain.bits == 0x41f0_0000
            &&& o.ppm is None ==> cfg.hardware.ppm == 0
            &&& o.bias_t is None ==> !cfg.hardware.bias_t
            &&& o.num_buffers is None ==> cfg.stream.num_buffers == 16
            &&& o.buffer_size is None ==> cfg.stream.buffer_size == 256 * 1024
            &&& o.rtl_tcp is None ==> cfg.servers.rtl_tcp is None
            &&& o.websdr is None ==> cfg.servers.websdr is None
            &&& o.unix_socket is None ==> cfg.servers.unix_socket is None
            &&& o.cert is None ==> cfg.tls.cert is None
            &&& o.key is None ==> cfg.tls.key is None
        }),
{
}

/// A flag that is not given leaves what the file says.
pub proof fn lemma_file_stands_without_flag(user: DaemonConfig, o: CliOverrides)
    ensures
        ({
            let cfg = DaemonConfig::layered(Some(user), o);
            &&& o.device_index is None ==> cfg.hardware.device_index == user.hardware.device_index
            &&& o.sample_rate is None ==> cfg.hardware.sample_rate == user.hardware.sample_rate
            &&& o.initial_freq is None ==> cfg.hardware.initial_freq == user.hardware.initial_freq
            &&& o.initial_gain is None ==> cfg.hardware.initial_gain == user.hardware.initial_gain
            &&& o.ppm is None ==> cfg.hardware.ppm == user.hardware.ppm
            &&& o.bias_t is None ==> cfg.hardware.bias_t == user.hardware.bias_t
            &&& o.num_buffers is None ==> cfg.stream.num_buffers == user.stream.num_buffers
            &&& o.buffer_size is None ==> cfg.stream.buffer_size == user.stream.buffer_size
            &&& o.rtl_tcp is None ==> cfg.servers.rtl_tcp == user.servers.rtl_tcp
            &&& o.websdr is None ==> cfg.servers.websdr == user.servers.websdr
            &&& o.unix_socket is None ==> cfg.servers.unix_socket == user.servers.unix_socket
            &&& o.cert is None ==> cfg.tls.cert == user.tls.cert
            &&& o.key is None ==> cfg.tls.key == user.tls.key
        }),
{
}

/// A section that a file changes replaces the one below as a whole, and a server or a path
/// that it gives replaces the one below.
pub proof fn lemma_file_replaces(base: DaemonConfig, user: DaemonConfig)
    ensures
        user.hardware != HardwareConfig::defaults() ==> base.merged(user).hardware
            == user.hardware,
        user.stream != StreamCfg::defaults() ==> base.merged(user).stream == user.stream,
        user.servers.rtl_tcp is Some ==> base.merged(user).servers.rtl_tcp
            == user.servers.rtl_tcp,
        user.servers.websdr is Some ==> base.merged(user).servers.websdr == user.servers.websdr,
        user.servers.unix_socket is Some ==> base.merged(user).servers.unix_socket
            == user.servers.unix_socket,
        user.tls.cert is Some ==> base.merged(user).tls.cert == user.tls.cert,
        user.tls.key is Some ==> base.merged(user).tls.key == user.tls.key,
{
}

} // verus!
