use rtlsdr_next::device::{DeviceInfo, MockHardware};
use rtlsdr_next::driver::Driver;
use rtlsdr_next::error::{Error, UsbError};
use rtlsdr_next::rtl_tcp::{
    self, decode, handshake, keeps_feeding, source_action, standalone_band, FeedEvent, Offer,
    SourceAction, SourceEvent, TcpCommand,
};
use rtlsdr_next::server::{
    keeps_relaying, keeps_serving, listen_action, ListenAction, ListenEvent, ShareEvent,
};
use rtlsdr_next::stream::{after_read, decimated_len, stages, ReadAction, Stage};
use rtlsdr_next::transfer;
use rtlsdr_next::tuner::{BoardConfig, Decibels, Gain, GainSetting, Tuner, TunerType};
use rtlsdr_next::tuners::fc001x::Fc001x;
use rtlsdr_next::StreamConfig;

fn receiver() -> Driver<MockHardware, Fc001x> {
    Driver {
        hw: MockHardware,
        info: DeviceInfo::from_strings(None, None),
        tuner: Fc001x::new(TunerType::FC0012, 0xc2, 28_800_000),
        orchestrator: BoardConfig::Generic.orchestrator(),
        sample_rate: 2_048_000,
        frequency: 0,
        ppm: 0,
        nominal_xtal: 28_800_000,
        stream_config: StreamConfig::default(),
        flush_due: false,
    }
}

fn level(db: f32) -> GainSetting {
    GainSetting { db: Decibels { bits: db.to_bits() }, tenths: (db * 10.0) as i32 }
}

fn frame(code: u8, arg: u32) -> [u8; 5] {
    let b = arg.to_be_bytes();
    [code, b[0], b[1], b[2], b[3]]
}

fn current_gain(d: &Driver<MockHardware, Fc001x>) -> Gain {
    Tuner::<MockHardware>::get_gain(&d.tuner).unwrap()
}

// ── rtl_tcp ─────────────────────────────────────────────────────────────────

#[test]
fn the_handshake_lists_the_gains() {
    assert_eq!(
        handshake(6, &[0, 9, -10]),
        vec![
            b'R', b'T', b'L', b'0', 0, 0, 0, 6, 0, 0, 0, 3, 0, 0, 0, 0, 0, 0, 0, 9, 0xff, 0xff,
            0xff, 0xf6,
        ]
    );
    assert_eq!(handshake(0x0102_0304, &[]), b"RTL0\x01\x02\x03\x04\0\0\0\0".to_vec());
}

#[test]
fn commands_are_decoded() {
    assert_eq!(
        decode(&[0x01, 0x05, 0xf5, 0xe1, 0x00]),
        TcpCommand::Frequency { hz: 100_000_000 }
    );
    assert_eq!(
        decode(&frame(0x01, 0xffff_ffff)),
        TcpCommand::Frequency { hz: 0xffff_ffff }
    );
    assert_eq!(
        decode(&frame(0x02, 2_400_000)),
        TcpCommand::SampleRate { rate_hz: 2_400_000 }
    );
    assert_eq!(decode(&frame(0x03, 0)), TcpCommand::GainMode { manual: false });
    assert_eq!(decode(&frame(0x03, 1)), TcpCommand::GainMode { manual: true });
    assert_eq!(decode(&frame(0x04, 297)), TcpCommand::Gain { tenths: 297 });
    assert_eq!(decode(&frame(0x05, (-20i32) as u32)), TcpCommand::Ppm { ppm: -20 });
    assert_eq!(decode(&frame(0x08, 1)), TcpCommand::Agc { on: true });
    assert_eq!(decode(&frame(0x09, 1)), TcpCommand::Accepted { code: 0x09 });
    assert_eq!(decode(&frame(0x0a, 1)), TcpCommand::Accepted { code: 0x0a });
    assert_eq!(decode(&frame(0x0d, 1)), TcpCommand::Accepted { code: 0x0d });
    assert_eq!(decode(&frame(0x0e, 0)), TcpCommand::BiasT { on: false });
    assert_eq!(decode(&frame(0x13, 12)), TcpCommand::GainIndex { index: 12 });
    assert_eq!(decode(&frame(0x06, 0)), TcpCommand::Unsupported { code: 0x06 });
}

#[test]
fn commands_change_the_receiver() {
    let mut d = receiver();
    rtl_tcp::perform(&mut d, TcpCommand::Frequency { hz: 100_000_000 }, false, level(0.0));
    assert_eq!(d.frequency, 100_000_000);
    rtl_tcp::perform(&mut d, TcpCommand::SampleRate { rate_hz: 2_400_000 }, false, level(0.0));
    assert_eq!(d.sample_rate, 2_400_000);
    rtl_tcp::perform(&mut d, TcpCommand::SampleRate { rate_hz: 1_024_000 }, true, level(0.0));
    assert_eq!(d.sample_rate, 2_400_000);
    rtl_tcp::perform(&mut d, TcpCommand::Ppm { ppm: 12 }, false, level(0.0));
    assert_eq!(d.ppm, 12);
    rtl_tcp::perform(&mut d, TcpCommand::Gain { tenths: 125 }, false, level(12.5));
    assert_eq!(current_gain(&d), Gain::Exact(level(12.5).db));
    // What cannot be done is passed over.
    rtl_tcp::perform(&mut d, TcpCommand::Frequency { hz: 1 }, false, level(0.0));
    assert_eq!(d.frequency, 100_000_000);
    rtl_tcp::perform(&mut d, TcpCommand::SampleRate { rate_hz: 0 }, false, level(0.0));
    assert_eq!(d.sample_rate, 2_400_000);
}

#[test]
fn manual_gain_starts_at_a_sensible_level() {
    let mut d = receiver();
    rtl_tcp::perform(&mut d, TcpCommand::GainMode { manual: true }, false, level(0.0));
    assert_eq!(current_gain(&d), Gain::Exact(level(30.0).db));
    // A gain that was set stays.
    rtl_tcp::perform(&mut d, TcpCommand::Gain { tenths: 77 }, false, level(7.7));
    rtl_tcp::perform(&mut d, TcpCommand::GainMode { manual: true }, false, level(0.0));
    assert_eq!(current_gain(&d), Gain::Exact(level(7.7).db));
    rtl_tcp::perform(&mut d, TcpCommand::GainMode { manual: false }, false, level(0.0));
    assert_eq!(current_gain(&d), Gain::Exact(level(7.7).db));
}

#[test]
fn slow_clients_lose_blocks_but_stay() {
    assert!(keeps_feeding(FeedEvent::Block, Offer::Taken));
    assert!(keeps_feeding(FeedEvent::Block, Offer::Full));
    assert!(!keeps_feeding(FeedEvent::Block, Offer::Closed));
    assert!(keeps_feeding(FeedEvent::Lagged, Offer::Taken));
    assert!(!keeps_feeding(FeedEvent::Closed, Offer::Taken));
}

#[test]
fn standalone_window() {
    let b = standalone_band(100_000_000);
    assert_eq!(b.center_hz, 100_000_000);
    assert_eq!(b.span_hz, 2_048_000);
    assert!(!b.spectral_inv);
}

// ── Sharing ─────────────────────────────────────────────────────────────────

#[test]
fn sharing_decisions() {
    assert_eq!(listen_action(ListenEvent::Connected), ListenAction::Serve);
    assert_eq!(listen_action(ListenEvent::Cancelled), ListenAction::Close);
    assert_eq!(listen_action(ListenEvent::AcceptFailed), ListenAction::Close);
    assert!(keeps_serving(ShareEvent::Samples { passed: true }));
    assert!(!keeps_serving(ShareEvent::Samples { passed: false }));
    assert!(!keeps_serving(ShareEvent::Ended));
    assert!(keeps_relaying(ShareEvent::Samples { passed: false }));
    assert!(!keeps_relaying(ShareEvent::Cancelled));
}

// ── Streams ─────────────────────────────────────────────────────────────────

#[test]
fn reads_without_samples_are_no_errors() {
    assert_eq!(after_read(Ok(512)), ReadAction::Deliver);
    assert_eq!(after_read(Ok(0)), ReadAction::Recycle);
    assert_eq!(after_read(Err(Error::Usb(UsbError::Timeout))), ReadAction::Recycle);
    assert_eq!(
        after_read(Err(Error::Usb(UsbError::NoDevice))),
        ReadAction::Report(Error::Usb(UsbError::NoDevice))
    );
}

#[test]
fn filtered_streams_go_through_their_stages() {
    assert_eq!(stages(false, false, 1), vec![Stage::Convert]);
    assert_eq!(
        stages(true, true, 8),
        vec![Stage::Convert, Stage::RemoveDc, Stage::Agc, Stage::Decimate]
    );
    assert_eq!(stages(false, true, 0), vec![Stage::Convert, Stage::Agc]);
    assert_eq!(decimated_len(262_144, 8), 32_784);
}

// ── USB ─────────────────────────────────────────────────────────────────────

#[test]
fn register_transfers() {
    let t = transfer::register_write(2, 0x3001, 0x55);
    assert_eq!((t.value, t.index, t.data), (0x3001, 0x0210, vec![0x55]));
    let t = transfer::register_write16(1, 0x2148, 0x1002);
    assert_eq!((t.value, t.index, t.data), (0x2148, 0x0110, vec![0x10, 0x02]));
    let t = transfer::register_read(2, 0x3003);
    assert_eq!((t.value, t.index, t.len), (0x3003, 0x0200, 1));
}

#[test]
fn demodulator_transfers() {
    let t = transfer::demod_write(1, 0x15, 0x05);
    assert_eq!((t.value, t.index, t.data), (0x1520, 0x11, vec![0x05]));
    let t = transfer::demod_write16(1, 0x9f, 0x0384);
    assert_eq!((t.value, t.index, t.data), (0x9f20, 0x11, vec![0x03, 0x84]));
    let t = transfer::demod_read(1, 0x15);
    assert_eq!((t.value, t.index, t.len), (0x1520, 0x01, 1));
    let t = transfer::demod_sync();
    assert_eq!((t.value, t.index, t.len), (0x0120, 0x0a, 1));
}

#[test]
fn i2c_transfers() {
    let t = transfer::i2c_write(0x74, &[0x05, 0x83]);
    assert_eq!((t.value, t.index, t.data), (0x74, 0x0610, vec![0x05, 0x83]));
    let t = transfer::i2c_read(0x34, 5);
    assert_eq!((t.value, t.index, t.len), (0x34, 0x0600, 5));
}

#[test]
fn supported_devices() {
    assert!(transfer::is_supported(0x0bda, 0x2838));
    assert!(transfer::is_supported(0x0bda, 0x2832));
    assert!(!transfer::is_supported(0x0bda, 0x2831));
    assert!(!transfer::is_supported(0x0bdb, 0x2838));
}

#[test]
fn a_broken_stream_is_opened_anew() {
    assert_eq!(source_action(SourceEvent::Samples), SourceAction::Forward);
    assert_eq!(source_action(SourceEvent::Failed), SourceAction::Reopen);
    assert_eq!(source_action(SourceEvent::Ended), SourceAction::Reopen);
    assert_eq!(source_action(SourceEvent::Cancelled), SourceAction::Stop);
    assert_eq!(rtl_tcp::REOPEN_PAUSE_MS, 1000);
}

#[test]
fn devices_are_numbered() {
    let devices = [(0x1d6b, 2), (0x0bda, 0x2838), (0x0bda, 0x8153), (0x0bda, 0x2832)];
    assert_eq!(transfer::select_device(&devices, 0), Some(1));
    assert_eq!(transfer::select_device(&devices, 1), Some(3));
    assert_eq!(transfer::select_device(&devices, 2), None);
    assert_eq!(transfer::select_device(&[], 0), None);
}

#[test]
fn a_v4_is_known_by_both_names() {
    let info = |m: &str, p: &str| {
        DeviceInfo::from_strings(Some(m.to_string()), Some(p.to_string())).is_v4
    };
    assert!(info("RTLSDRBlog", "Blog V4"));
    assert!(info("the RTLSDRBlog maker", "V4L"));
    assert!(!info("RTLSDRBlog", "Blog V3"));
    assert!(!info("Realtek", "Blog V4"));
    assert!(!info("RTLSDRBlo", "V4"));
    let unread = DeviceInfo::from_strings(None, Some("V4".to_string()));
    assert!(!unread.is_v4);
    assert_eq!(unread.manufacturer, "");
    assert_eq!(unread.product, "V4");
}
