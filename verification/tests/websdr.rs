use rtlsdr_next::daemon::{HardwareBand, RetuneRequest};
use rtlsdr_next::device::{DeviceInfo, MockHardware};
use rtlsdr_next::driver::Driver;
use rtlsdr_next::dsp::{join_iq, split_iq, Decimator, IqDecimator};
use rtlsdr_next::error::Error;
use rtlsdr_next::tuner::{BoardConfig, Decibels, Gain, GainSetting, TunerType};
use rtlsdr_next::tuners::fc001x::Fc001x;
use rtlsdr_next::tuners::r82xx::R82xx;
use rtlsdr_next::websdr::{
    self, audio_frame, block_messages, decimation, greeting, is_squelched, newest_samples,
    pipeline_action, prepare, waterfall_bin, waterfall_due, waterfall_frame, waterfall_line,
    Command, DemodMode, Filters, PipelineAction, PipelineEvent, PipelineState, WebEvent,
    AUDIO_SAMPLE_RATE, FFT_SIZE, PIPELINE_SAMPLE_RATE,
};
use rtlsdr_next::StreamConfig;

fn receiver<T>(tuner: T) -> Driver<MockHardware, T> {
    Driver {
        hw: MockHardware,
        info: DeviceInfo::from_strings(Some("Realtek".to_string()), Some("Dongle".to_string())),
        tuner,
        orchestrator: BoardConfig::Generic.orchestrator(),
        sample_rate: 2_048_000,
        frequency: 0,
        ppm: 0,
        nominal_xtal: 28_800_000,
        stream_config: StreamConfig::default(),
        flush_due: false,
    }
}

fn fc0012() -> Fc001x {
    Fc001x::new(TunerType::FC0012, 0xc2, 28_800_000)
}

fn band() -> HardwareBand {
    HardwareBand { center_hz: 100_000_000, span_hz: 1_536_000, spectral_inv: false }
}

fn gain(db: f32) -> GainSetting {
    GainSetting { db: Decibels { bits: db.to_bits() }, tenths: (db * 10.0) as i32 }
}

#[test]
fn clients_are_greeted() {
    let mut d = receiver(fc0012());
    d.frequency = 101_100_000;
    let events = greeting(&d);
    assert_eq!(events.len(), 4);
    match &events[0] {
        WebEvent::HardwareInfo { manufacturer, product, is_v4 } => {
            assert_eq!(manufacturer, "Realtek");
            assert_eq!(product, "Dongle");
            assert!(!is_v4);
        }
        _ => panic!("hardware comes first"),
    }
    assert!(matches!(
        events[1],
        WebEvent::AudioConfig { sample_rate: 48_000, fft_size: 1024 }
    ));
    assert!(matches!(
        events[2],
        WebEvent::FreqConfirm { requested: 101_100_000, actual: 101_100_000 }
    ));
    assert!(matches!(events[3], WebEvent::GainConfirm { actual: Gain::Tenths(0) }));
}

#[test]
fn frequencies_within_the_window_need_no_retune() {
    let mut d = receiver(fc0012());
    let e = websdr::perform(&mut d, &band(), Command::Frequency { hz: 100_768_000 });
    assert_eq!(e.retune, None);
    assert_eq!(e.frequency, Some(100_768_000));
    let e = websdr::perform(&mut d, &band(), Command::Frequency { hz: 100_768_001 });
    assert_eq!(e.retune, Some(RetuneRequest { center_hz: 100_768_001 }));
    assert_eq!(e.frequency, Some(100_768_001));
    assert!(matches!(
        e.reply,
        WebEvent::FreqConfirm { requested: 100_768_001, actual: 100_768_001 }
    ));
    // The receiver itself is left to whoever serves the requests.
    assert_eq!(d.frequency, 0);
}

#[test]
fn gain_commands_are_answered() {
    let mut d = receiver(fc0012());
    let e = websdr::perform(&mut d, &band(), Command::Gain { gain: gain(12.0) });
    assert!(matches!(e.reply, WebEvent::GainConfirm { actual: Gain::Exact(_) }));
    assert_eq!(d.tuner.current_gain, Gain::Exact(gain(12.0).db));
    let mut d = receiver(R82xx::new(TunerType::R828D, 0x74, 28_800_000));
    let absurd = GainSetting { db: Decibels { bits: 0 }, tenths: i32::MIN };
    let e = websdr::perform(&mut d, &band(), Command::Gain { gain: absurd });
    assert!(matches!(
        e.reply,
        WebEvent::GainError { error: Error::InvalidGain(i32::MIN) }
    ));
}

#[test]
fn bandwidths_are_clamped() {
    let mut d = receiver(fc0012());
    for (asked, given) in [(0, 500), (500, 500), (6_000, 6_000), (380_000, 380_000), (1_000_000, 380_000)]
    {
        let e = websdr::perform(&mut d, &band(), Command::Bandwidth { hz: asked });
        assert_eq!(e.bandwidth, Some(given));
        assert!(matches!(e.reply, WebEvent::BandwidthConfirm { actual } if actual == given));
    }
}

#[test]
fn modes_and_squelch_are_passed_on() {
    let mut d = receiver(fc0012());
    let e = websdr::perform(&mut d, &band(), Command::Demod { mode: DemodMode::Usb });
    assert_eq!(e.mode, Some(DemodMode::Usb));
    assert!(matches!(e.reply, WebEvent::DemodConfirm { mode: DemodMode::Usb }));
    let db = gain(-60.0).db;
    let e = websdr::perform(&mut d, &band(), Command::Squelch { db });
    assert_eq!(e.squelch, Some(db));
    assert!(matches!(e.reply, WebEvent::SquelchConfirm { actual } if actual == db));
}

#[test]
fn a_fresh_receiver_is_prepared() {
    let mut d = receiver(fc0012());
    let (b, res) = prepare(&mut d);
    assert_eq!(res, Ok(()));
    assert_eq!(d.sample_rate, PIPELINE_SAMPLE_RATE);
    assert_eq!(d.frequency, 101_100_000);
    assert_eq!(d.tuner.current_gain, Gain::Exact(gain(30.0).db));
    assert_eq!(
        b,
        HardwareBand { center_hz: 101_100_000, span_hz: 1_536_000, spectral_inv: false }
    );
    // A receiver that is tuned stays where it is.
    d.try_set_frequency(90_000_000).unwrap();
    let (b, _) = prepare(&mut d);
    assert_eq!(b.center_hz, 90_000_000);
}

#[test]
fn every_mode_ends_at_48_khz() {
    for mode in [
        DemodMode::Wfm,
        DemodMode::Nfm,
        DemodMode::Am,
        DemodMode::Usb,
        DemodMode::Lsb,
        DemodMode::Off,
    ] {
        let (pre, post) = decimation(mode);
        assert_eq!(PIPELINE_SAMPLE_RATE as usize / (pre * post), AUDIO_SAMPLE_RATE as usize);
    }
    assert_eq!(decimation(DemodMode::Wfm), (8, 4));
}

#[test]
fn frequencies_are_confirmed_once() {
    let mut state = PipelineState::new(100_000_000);
    assert_eq!(state.mode, DemodMode::Wfm);
    assert_eq!(state.confirm(100_000_000), None);
    state.client_freq = 100_200_000;
    assert_eq!(state.confirm(100_000_000), Some((100_200_000, 100_000_000)));
    assert_eq!(state.confirm(100_000_000), None);
}

#[test]
fn the_newest_update_counts() {
    assert_eq!(websdr::latest(&[1, 2, 3], 0), 3);
    assert_eq!(websdr::latest(&[], 7), 7);
    assert!(websdr::waits_for_samples(DemodMode::Am));
    assert!(!websdr::waits_for_samples(DemodMode::Off));
    assert!(!websdr::removes_dc(DemodMode::Am));
    assert!(websdr::removes_dc(DemodMode::Nfm));
}

#[test]
fn empty_and_lost_blocks_reset_the_pipeline() {
    assert_eq!(
        pipeline_action(PipelineEvent::Block { len: 2048 }),
        PipelineAction::Process { pairs: 1024 }
    );
    assert_eq!(pipeline_action(PipelineEvent::Block { len: 0 }), PipelineAction::Reset);
    assert_eq!(pipeline_action(PipelineEvent::Block { len: 1 }), PipelineAction::Reset);
    assert_eq!(pipeline_action(PipelineEvent::Lagged), PipelineAction::Reset);
    assert_eq!(pipeline_action(PipelineEvent::Closed), PipelineAction::Stop);
}

#[test]
fn waterfall_lines_are_due_ten_times_a_second() {
    assert!(waterfall_due(100, 1024));
    assert!(!waterfall_due(99, 1024));
    assert!(!waterfall_due(100, 1023));
}

#[test]
fn interleaving_round_trips() {
    let iq = [1.0f32, -1.0, 2.0, -2.0, 3.0, -3.0];
    let (i, q) = split_iq(&iq);
    assert_eq!(i, vec![1.0, 2.0, 3.0]);
    assert_eq!(q, vec![-1.0, -2.0, -3.0]);
    assert_eq!(join_iq(&i, &q), iq.to_vec());
    assert_eq!(join_iq(&[1, 2, 3], &[4, 5]), vec![1, 4, 2, 5]);
    assert_eq!(split_iq(&[7, 8, 9]), (vec![7], vec![8]));
}

#[test]
fn the_waterfall_shows_every_bin_once() {
    for inverted in [false, true] {
        let mut seen = vec![false; FFT_SIZE];
        for column in 0..FFT_SIZE {
            let bin = waterfall_bin(column, inverted);
            assert!(!seen[bin]);
            seen[bin] = true;
        }
    }
    assert_eq!(waterfall_bin(512, false), 0);
    assert_eq!(waterfall_bin(512, true), 0);
    assert_eq!(waterfall_bin(0, false), 512);
    assert_eq!(waterfall_bin(513, false), 1);
    assert_eq!(waterfall_bin(513, true), 1023);
}

#[test]
fn frames_on_the_wire() {
    let magnitudes: Vec<u8> = (0..FFT_SIZE).map(|k| (k % 251) as u8).collect();
    let frame = waterfall_frame(&magnitudes);
    assert_eq!(frame[0], b'W');
    assert_eq!(&frame[1..], &magnitudes[..]);
    let bits: Vec<u32> = [0.5f32, -1.0].iter().map(|s| s.to_bits()).collect();
    let mut expected = vec![b'A', 0, 0, 0];
    expected.extend_from_slice(&0.5f32.to_le_bytes());
    expected.extend_from_slice(&(-1.0f32).to_le_bytes());
    assert_eq!(audio_frame(&bits), expected);
}

#[test]
fn lines_show_the_spectrum_around_its_center() {
    let spectrum: Vec<usize> = (0..FFT_SIZE).collect();
    let line = waterfall_line(&spectrum, false);
    assert_eq!(line.len(), 1024);
    assert_eq!((line[0], line[511], line[512], line[1023]), (512, 1023, 0, 511));
    let line = waterfall_line(&spectrum, true);
    assert_eq!(line.len(), 1024);
    assert_eq!((line[0], line[511], line[512], line[1023]), (512, 1, 0, 513));
}

#[test]
fn lines_are_made_from_the_last_samples() {
    let block: Vec<usize> = (0..1500).collect();
    assert_eq!(newest_samples(&block), (476..1500).collect::<Vec<usize>>());
    assert_eq!(newest_samples(&block[..1024]), (0..1024).collect::<Vec<usize>>());
}

fn db(level: f32) -> Decibels {
    Decibels { bits: level.to_bits() }
}

#[test]
fn levels_order_as_numbers() {
    let levels = [
        f32::NEG_INFINITY,
        -100.0,
        -80.0,
        -1e-40,
        -0.0,
        0.0,
        1e-40,
        0.5,
        30.0,
        f32::INFINITY,
        f32::NAN,
    ];
    for a in levels {
        for b in levels {
            assert_eq!(db(a).below(&db(b)), a < b, "{} and {}", a, b);
        }
    }
    assert!(is_squelched(db(-80.5), db(-80.0)));
    assert!(!is_squelched(db(-80.0), db(-80.0)));
    assert!(!is_squelched(db(-20.0), db(-80.0)));
}

#[test]
fn a_block_sends_its_line_and_its_audio() {
    let magnitudes = vec![7u8; FFT_SIZE];
    let bits: Vec<u32> = [0.5f32, -1.0].iter().map(|s| s.to_bits()).collect();
    let both = block_messages(Some(magnitudes.clone()), &bits, db(-20.0), db(-80.0));
    assert_eq!(both, vec![waterfall_frame(&magnitudes), audio_frame(&bits)]);
    let quiet = block_messages(None, &bits, db(-90.0), db(-80.0));
    assert_eq!(quiet, vec![vec![b'A', 0, 0, 0, 0, 0, 0, 0, 0, 0, 0, 0]]);
    let line = block_messages(Some(magnitudes), &[], db(-90.0), db(-80.0));
    assert_eq!(line.len(), 1);
    assert_eq!((line[0].len(), line[0][0]), (1025, b'W'));
    assert!(block_messages(None, &[], db(-20.0), db(-80.0)).is_empty());
}

fn filters() -> Filters<i64> {
    let pair = |factor: usize| IqDecimator::new(factor, vec![1i64, 10, 100], 0);
    Filters {
        wfm: pair(8),
        post_wfm: Decimator::new(4, vec![1i64, 10, 100], 0),
        nfm: pair(32),
        am: pair(32),
        ssb: pair(32),
    }
}

#[test]
fn gaps_make_the_filters_forget() {
    let sum = |w: &[i64], t: &[i64]| w.iter().zip(t).map(|(a, b)| a * b).sum::<i64>();
    let block: Vec<i64> = (1..=50).collect();
    for event in [PipelineEvent::Lagged, PipelineEvent::Block { len: 0 }] {
        let mut used = filters();
        let mut fresh = filters();
        let _ = used.wfm.process(&block, sum);
        let _ = used.post_wfm.process(&block, sum);
        let _ = used.nfm.process(&block, sum);
        let _ = used.am.process(&block, sum);
        let _ = used.ssb.process(&block, sum);
        assert_eq!(used.take_event(event, 0), PipelineAction::Reset);
        assert_eq!(used.wfm.process(&block, sum), fresh.wfm.process(&block, sum));
        assert_eq!(used.post_wfm.process(&block, sum), fresh.post_wfm.process(&block, sum));
        assert_eq!(used.nfm.process(&block, sum), fresh.nfm.process(&block, sum));
        assert_eq!(used.am.process(&block, sum), fresh.am.process(&block, sum));
        assert_eq!(used.ssb.process(&block, sum), fresh.ssb.process(&block, sum));
    }
    let mut used = filters();
    let _ = used.ssb.process(&block, sum);
    let history = used.ssb.i.history.clone();
    assert_eq!(
        used.take_event(PipelineEvent::Block { len: 100 }, 0),
        PipelineAction::Process { pairs: 50 }
    );
    assert_eq!(used.take_event(PipelineEvent::Closed, 0), PipelineAction::Stop);
    assert_eq!(used.ssb.i.history, history);
}

#[test]
fn only_frequencies_need_a_window() {
    let mut d = receiver(fc0012());
    let endless = HardwareBand { center_hz: u64::MAX, ..band() };
    let effects = websdr::perform(&mut d, &endless, Command::Bandwidth { hz: 100 });
    assert!(matches!(effects.reply, WebEvent::BandwidthConfirm { actual: 500 }));
}
