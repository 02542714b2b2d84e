use rtlsdr_next::config::{
    CliOverrides, ConfigError, DaemonConfig, HardwareConfig, ServersConfig, StreamCfg, TlsConfig,
    DEFAULT_TOML,
};
use rtlsdr_next::daemon::{launches, Launch};
use rtlsdr_next::stream::StreamConfig;
use rtlsdr_next::tuner::Decibels;
use toml::Value;

fn db(level: f32) -> Decibels {
    Decibels { bits: level.to_bits() }
}

fn level(db: Decibels) -> f32 {
    f32::from_bits(db.bits)
}

fn no_overrides() -> CliOverrides {
    CliOverrides::default()
}

fn text(v: Option<&Value>, key: &str) -> Option<String> {
    v.and_then(|t| t.get(key)).and_then(|s| s.as_str()).map(|s| s.to_string())
}

/// Reads a configuration file; sections that are missing hold the defaults.
fn parse(raw: &str) -> DaemonConfig {
    let v: Value = toml::from_str(raw).expect("default TOML must parse");
    let hardware = match v.get("hardware") {
        None => HardwareConfig::default(),
        Some(h) => HardwareConfig {
            device_index: h["device_index"].as_integer().unwrap() as u32,
            sample_rate: h["sample_rate"].as_integer().unwrap() as u32,
            initial_freq: h["initial_freq"].as_integer().unwrap() as u64,
            initial_gain: db(h["initial_gain"].as_float().unwrap() as f32),
            ppm: h["ppm"].as_integer().unwrap() as i32,
            bias_t: h["bias_t"].as_bool().unwrap(),
        },
    };
    let stream = match v.get("stream") {
        None => StreamCfg::default(),
        Some(s) => StreamCfg {
            num_buffers: s["num_buffers"].as_integer().unwrap() as usize,
            buffer_size: s["buffer_size"].as_integer().unwrap() as usize,
        },
    };
    let servers = v.get("servers");
    let tls = v.get("tls");
    DaemonConfig {
        hardware,
        stream,
        servers: ServersConfig {
            rtl_tcp: text(servers, "rtl_tcp"),
            websdr: text(servers, "websdr"),
            unix_socket: text(servers, "unix_socket"),
        },
        tls: TlsConfig { cert: text(tls, "cert"), key: text(tls, "key") },
    }
}

#[test]
fn test_defaults_parse() {
    // The default TOML must parse cleanly on its own.
    // We inject a minimal servers section so validation doesn't reject it.
    let toml = format!("{}\n[servers]\nrtl_tcp = \"0.0.0.0:1234\"\n", DEFAULT_TOML);
    let cfg = parse(&toml);
    assert_eq!(cfg.hardware.device_index, 0);
    assert_eq!(cfg.hardware.sample_rate, 1_536_000);
    assert_eq!(cfg.hardware.initial_freq, 101_100_000);
    assert!((level(cfg.hardware.initial_gain) - 30.0).abs() < f32::EPSILON);
    assert_eq!(cfg.hardware.ppm, 0);
    assert!(!cfg.hardware.bias_t);
    assert_eq!(cfg.stream.num_buffers, 16);
    assert_eq!(cfg.stream.buffer_size, 262_144);
    assert!(cfg.validate().is_ok());
}

#[test]
fn the_default_text_says_what_the_defaults_are() {
    let cfg = parse(DEFAULT_TOML);
    assert_eq!(cfg.hardware, HardwareConfig::default());
    assert_eq!(cfg.stream, StreamCfg::default());
    assert_eq!(cfg.validate(), Err(ConfigError::NoServers));
}

#[test]
fn test_cli_override_wins() {
    let overrides = CliOverrides {
        initial_gain: Some(db(20.0)),
        rtl_tcp: Some("127.0.0.1:9999".to_string()),
        ..Default::default()
    };
    let cfg = DaemonConfig::load(None, &overrides).unwrap();
    assert!((level(cfg.hardware.initial_gain) - 20.0).abs() < f32::EPSILON);
    assert_eq!(cfg.servers.rtl_tcp.as_deref(), Some("127.0.0.1:9999"));
    // Everything else stays at the default.
    assert_eq!(cfg.hardware.sample_rate, 1_536_000);
}

#[test]
fn test_validation_rejects_bad_sample_rate() {
    let overrides = CliOverrides {
        sample_rate: Some(100), // below 225 kHz minimum
        rtl_tcp: Some("0.0.0.0:1234".to_string()),
        ..Default::default()
    };
    assert!(DaemonConfig::load(None, &overrides).is_err());
    assert_eq!(
        DaemonConfig::load(None, &overrides).err(),
        Some(ConfigError::SampleRate(100))
    );
}

#[test]
fn test_validation_rejects_unaligned_buffer() {
    let overrides = CliOverrides {
        buffer_size: Some(1000), // not a multiple of 512
        rtl_tcp: Some("0.0.0.0:1234".to_string()),
        ..Default::default()
    };
    assert!(DaemonConfig::load(None, &overrides).is_err());
    assert_eq!(
        DaemonConfig::load(None, &overrides).err(),
        Some(ConfigError::UnalignedBuffer(1000))
    );
}

#[test]
fn test_validation_rejects_partial_tls() {
    let overrides = CliOverrides {
        cert: Some("/tmp/cert.pem".to_string()),
        // key deliberately absent
        websdr: Some("0.0.0.0:8080".to_string()),
        ..Default::default()
    };
    assert!(DaemonConfig::load(None, &overrides).is_err());
    assert_eq!(DaemonConfig::load(None, &overrides).err(), Some(ConfigError::MissingKey));
    let overrides = CliOverrides {
        key: Some("/tmp/key.pem".to_string()),
        websdr: Some("0.0.0.0:8080".to_string()),
        ..Default::default()
    };
    assert_eq!(DaemonConfig::load(None, &overrides).err(), Some(ConfigError::MissingCert));
}

#[test]
fn test_validation_rejects_no_servers() {
    // No server enabled anywhere — must fail.
    let overrides = no_overrides();
    assert!(DaemonConfig::load(None, &overrides).is_err());
    assert_eq!(DaemonConfig::load(None, &overrides).err(), Some(ConfigError::NoServers));
}

#[test]
fn test_tls_pair() {
    let tls = TlsConfig {
        cert: Some("/tmp/cert.pem".to_string()),
        key: Some("/tmp/key.pem".to_string()),
    };
    assert!(tls.pair().is_some());
    assert_eq!(
        tls.pair(),
        Some(("/tmp/cert.pem".to_string(), "/tmp/key.pem".to_string()))
    );

    let tls_empty = TlsConfig::default();
    assert!(tls_empty.pair().is_none());
}

#[test]
fn test_partial_toml_merge() {
    // A user file that only sets [hardware] should not wipe out stream defaults.
    let user_toml = r#"
[hardware]
initial_gain = 15.0
sample_rate = 1_536_000
device_index = 0
initial_freq = 101_100_000
ppm = 0
bias_t = false

[servers]
rtl_tcp = "0.0.0.0:1234"
"#;
    let user = parse(user_toml);
    let mut base = DaemonConfig::load(
        None,
        &CliOverrides { rtl_tcp: Some("0.0.0.0:1234".to_string()), ..Default::default() },
    )
    .unwrap();
    base.merge_from(user);

    assert!((level(base.hardware.initial_gain) - 15.0).abs() < f32::EPSILON);
    // Stream section untouched — should still be default.
    assert_eq!(base.stream.num_buffers, 16);
}

#[test]
fn merging_keeps_what_the_file_leaves_out() {
    let mut base = DaemonConfig::default();
    base.stream.num_buffers = 4;
    base.hardware.ppm = 7;
    base.servers.websdr = Some("a".to_string());
    let mut user = DaemonConfig::default();
    user.hardware.ppm = 9;
    user.servers.rtl_tcp = Some("b".to_string());
    base.merge_from(user);
    assert_eq!(base.stream.num_buffers, 4);
    assert_eq!(base.hardware.ppm, 9);
    assert_eq!(base.servers.websdr.as_deref(), Some("a"));
    assert_eq!(base.servers.rtl_tcp.as_deref(), Some("b"));
}

#[test]
fn flags_beat_the_file_and_the_file_beats_the_defaults() {
    let mut user = DaemonConfig::default();
    user.hardware.ppm = 5;
    user.hardware.sample_rate = 2_400_000;
    user.servers.unix_socket = Some("/tmp/rtlsdr.sock".to_string());
    let overrides = CliOverrides {
        device_index: Some(1),
        initial_freq: Some(7_000_000),
        ppm: Some(-3),
        bias_t: Some(true),
        num_buffers: Some(8),
        ..Default::default()
    };
    let cfg = DaemonConfig::load(Some(user), &overrides).unwrap();
    assert_eq!(cfg.hardware.device_index, 1);
    assert_eq!(cfg.hardware.initial_freq, 7_000_000);
    assert_eq!(cfg.hardware.ppm, -3);
    assert!(cfg.hardware.bias_t);
    assert_eq!(cfg.hardware.sample_rate, 2_400_000);
    assert_eq!(cfg.stream.num_buffers, 8);
    assert_eq!(cfg.stream.buffer_size, 262_144);
    assert_eq!(cfg.servers.unix_socket.as_deref(), Some("/tmp/rtlsdr.sock"));
}

#[test]
fn validation_limits() {
    let with = |f: fn(&mut DaemonConfig)| {
        let mut cfg = DaemonConfig::default();
        cfg.servers.rtl_tcp = Some("x".to_string());
        f(&mut cfg);
        cfg.validate()
    };
    assert_eq!(with(|_| {}), Ok(()));
    assert_eq!(with(|c| c.hardware.sample_rate = 225_000), Ok(()));
    assert_eq!(with(|c| c.hardware.sample_rate = 3_200_000), Ok(()));
    assert_eq!(
        with(|c| c.hardware.sample_rate = 3_200_001),
        Err(ConfigError::SampleRate(3_200_001))
    );
    assert_eq!(with(|c| c.hardware.initial_freq = 0), Err(ConfigError::ZeroFrequency));
    assert_eq!(with(|c| c.stream.num_buffers = 0), Err(ConfigError::NoBuffers));
}

#[test]
fn stream_section_becomes_the_stream_configuration() {
    let config: StreamConfig = StreamCfg { num_buffers: 3, buffer_size: 1024 }.into();
    assert_eq!(config, StreamConfig { num_buffers: 3, buffer_size: 1024 });
    assert_eq!(
        StreamConfig::default(),
        StreamConfig { num_buffers: 16, buffer_size: 262_144 }
    );
}

#[test]
fn servers_are_launched_as_configured() {
    let mut cfg = DaemonConfig::default();
    assert!(launches(&cfg).is_empty());
    cfg.servers.unix_socket = Some("/tmp/s".to_string());
    cfg.servers.websdr = Some("0.0.0.0:8080".to_string());
    cfg.tls.cert = Some("c".to_string());
    cfg.tls.key = Some("k".to_string());
    let list = launches(&cfg);
    assert_eq!(list.len(), 2);
    match &list[0] {
        Launch::WebSdr { addr, tls, sample_rate } => {
            assert_eq!(addr, "0.0.0.0:8080");
            assert_eq!(*tls, Some(("c".to_string(), "k".to_string())));
            assert_eq!(*sample_rate, 1_536_000);
        }
        _ => panic!("the WebSDR comes first"),
    }
    assert!(matches!(&list[1], Launch::UnixSocket { path } if path == "/tmp/s"));
}
