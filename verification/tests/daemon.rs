use rtlsdr_next::config::DaemonConfig;
use rtlsdr_next::daemon::{
    configure, pump_action, retune, HardwareBand, PumpAction, PumpEvent, RetuneRequest,
};
use rtlsdr_next::device::{DeviceInfo, MockHardware};
use rtlsdr_next::driver::Driver;
use rtlsdr_next::error::Error;
use rtlsdr_next::tuner::{
    BoardConfig, Decibels, Gain, GainSetting, Tuner, TunerType,
};
use rtlsdr_next::tuners::fc001x::Fc001x;
use rtlsdr_next::tuners::r82xx::R82xx;
use rtlsdr_next::StreamConfig;

fn band() -> HardwareBand {
    HardwareBand { center_hz: 100_000_000, span_hz: 1_536_000, spectral_inv: false }
}

/// A receiver with a chip that needs no answers from the hardware.
fn receiver(board: BoardConfig) -> Driver<MockHardware, Fc001x> {
    Driver {
        hw: MockHardware,
        info: DeviceInfo::from_strings(None, None),
        tuner: Fc001x::new(TunerType::FC0012, 0xc2, 28_800_000),
        orchestrator: board.orchestrator(),
        sample_rate: 2_048_000,
        frequency: 0,
        ppm: 0,
        nominal_xtal: 28_800_000,
        stream_config: StreamConfig::default(),
        flush_due: false,
    }
}

fn gain(db: f32) -> GainSetting {
    GainSetting { db: Decibels { bits: db.to_bits() }, tenths: (db * 10.0) as i32 }
}

#[test]
fn test_contains_center() {
    let b = HardwareBand { center_hz: 100_000_000, span_hz: 1_536_000, spectral_inv: false };
    assert!(b.contains(100_000_000));
}

#[test]
fn test_contains_edge() {
    let b = HardwareBand { center_hz: 100_000_000, span_hz: 1_536_000, spectral_inv: false };
    assert!(b.contains(100_768_000));
    assert!(b.contains(99_232_000));
}

#[test]
fn test_excludes_outside() {
    let b = HardwareBand { center_hz: 100_000_000, span_hz: 1_536_000, spectral_inv: false };
    assert!(!b.contains(101_000_000));
    assert!(!b.contains(99_000_000));
}

#[test]
fn test_offset_positive() {
    let b = HardwareBand { center_hz: 100_000_000, span_hz: 1_536_000, spectral_inv: false };
    assert_eq!(b.offset_hz(100_500_000), 500_000);
}

#[test]
fn test_offset_negative() {
    let b = HardwareBand { center_hz: 100_000_000, span_hz: 1_536_000, spectral_inv: false };
    assert_eq!(b.offset_hz(99_800_000), -200_000);
}

#[test]
fn test_offset_zero() {
    let b = HardwareBand { center_hz: 101_100_000, span_hz: 1_536_000, spectral_inv: false };
    assert_eq!(b.offset_hz(101_100_000), 0);
}

#[test]
fn an_inverted_spectrum_turns_offsets_round() {
    let b = HardwareBand { spectral_inv: true, ..band() };
    assert_eq!(b.offset_hz(100_500_000), -500_000);
    assert_eq!(b.checked_offset_hz(99_800_000), Some(200_000));
    assert_eq!(b.checked_offset_hz(u64::MAX), Some(100_000_001));
    let far = HardwareBand { center_hz: 1 << 63, ..band() };
    assert_eq!(far.checked_offset_hz(1), None);
}

#[test]
fn a_window_at_the_bottom_starts_at_zero() {
    let b = HardwareBand { center_hz: 100_000, span_hz: 1_536_000, spectral_inv: false };
    assert!(b.contains(0));
    assert!(b.contains(868_000));
    assert!(!b.contains(868_001));
}

#[test]
fn the_pump_acts_on_events() {
    let b = band();
    let req = |hz: u64| PumpEvent::RetuneAsked(RetuneRequest { center_hz: hz });
    assert_eq!(pump_action(&b, PumpEvent::Cancelled), PumpAction::Stop);
    assert_eq!(pump_action(&b, req(100_000_000)), PumpAction::Wait);
    assert_eq!(
        pump_action(&b, req(7_000_000)),
        PumpAction::Retune(RetuneRequest { center_hz: 7_000_000 })
    );
    assert_eq!(pump_action(&b, PumpEvent::Samples), PumpAction::Forward);
    assert_eq!(pump_action(&b, PumpEvent::StreamFailed), PumpAction::Stop);
    assert_eq!(pump_action(&b, PumpEvent::StreamEnded), PumpAction::Stop);
}

#[test]
fn retuning_moves_the_window() {
    let mut d = receiver(BoardConfig::BlogV4);
    let mut b = band();
    assert_eq!(retune(&mut d, &mut b, RetuneRequest { center_hz: 27_000_000 }), Ok(()));
    assert_eq!(
        b,
        HardwareBand { center_hz: 27_000_000, span_hz: 1_536_000, spectral_inv: true }
    );
    assert!(b.contains(27_000_000));
    assert_eq!(d.frequency, 27_000_000);
}

#[test]
fn a_failed_retune_keeps_the_window() {
    let mut d = receiver(BoardConfig::Generic);
    let mut b = band();
    assert_eq!(
        retune(&mut d, &mut b, RetuneRequest { center_hz: 10_000_000 }),
        Err(Error::InvalidFrequency(10_000_000))
    );
    assert_eq!(b, band());
    assert_eq!(d.frequency, 0);
}

#[test]
fn configuring_sets_everything() {
    let mut d = receiver(BoardConfig::Generic);
    let mut cfg = DaemonConfig::default();
    cfg.hardware.ppm = 10;
    cfg.hardware.bias_t = true;
    cfg.stream.num_buffers = 4;
    let b = configure(&mut d, &cfg, gain(30.0)).unwrap();
    assert_eq!(
        b,
        HardwareBand { center_hz: 101_100_000, span_hz: 1_536_000, spectral_inv: false }
    );
    assert_eq!(d.frequency, 101_100_000);
    assert_eq!(d.sample_rate, 1_536_000);
    assert_eq!(d.ppm, 10);
    assert_eq!(d.stream_config.num_buffers, 4);
    assert_eq!(
        Tuner::<MockHardware>::get_gain(&d.tuner),
        Ok(Gain::Exact(gain(30.0).db))
    );
}

#[test]
fn configuring_stops_at_the_first_failure() {
    let mut d = receiver(BoardConfig::Generic);
    let mut cfg = DaemonConfig::default();
    cfg.hardware.initial_freq = 10_000_000;
    assert_eq!(
        configure(&mut d, &cfg, gain(30.0)),
        Err(Error::InvalidFrequency(10_000_000))
    );
    assert_eq!(d.sample_rate, 1_536_000);
    assert_eq!(Tuner::<MockHardware>::get_gain(&d.tuner), Ok(Gain::Tenths(0)));
    // A chip whose status is short cannot be tuned at all.
    let mut d = Driver {
        tuner: R82xx::new(TunerType::R828D, 0x74, 28_800_000),
        hw: MockHardware,
        info: DeviceInfo::from_strings(None, None),
        orchestrator: BoardConfig::Generic.orchestrator(),
        sample_rate: 2_048_000,
        frequency: 0,
        ppm: 0,
        nominal_xtal: 28_800_000,
        stream_config: StreamConfig::default(),
        flush_due: false,
    };
    assert_eq!(
        configure(&mut d, &DaemonConfig::default(), gain(30.0)),
        Err(Error::I2c { addr: 0x74 })
    );
}
