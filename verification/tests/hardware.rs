use rtlsdr_next::demod;
use rtlsdr_next::device::{DeviceInfo, HardwareInterface, HardwareRoutines, MockHardware};
use rtlsdr_next::driver::{self, Driver};
use rtlsdr_next::error::{Error, Result, TunerFault, UsbError};
use rtlsdr_next::registers;
use rtlsdr_next::tuner::{
    Decibels, FilterRange, Gain, GainSetting, InputPath, Orchestrator, Tuner, TunerType,
};
use rtlsdr_next::tuners::e4k::E4k;
use rtlsdr_next::tuners::fc001x::Fc001x;
use rtlsdr_next::tuners::r828d::R828D;
use rtlsdr_next::tuners::r82xx::R82xx;
use rtlsdr_next::tuners::{rafael, DummyTuner, TunerChip};

#[derive(Debug, Clone, PartialEq)]
enum Op {
    Reg(u16, u16, u8),
    Reg16(u16, u16, u16),
    Read(u16, u16),
    Demod(u8, u16, u8),
    Demod16(u8, u16, u16),
    I2c(u8, Vec<u8>),
    I2cRead(u8, usize),
    Sleep(u64),
}

/// A board that writes down what is done with it. One tuner chip answers at `chip`; its
/// register `id_reg` holds `id`.
struct Board {
    ops: Vec<Op>,
    chip: u8,
    id_reg: u8,
    id: u8,
    status: [u8; 5],
    selected: u8,
    register: u8,
    /// How many operations succeed before all fail.
    good_for: usize,
}

impl Board {
    fn with_chip(chip: u8, id_reg: u8, id: u8) -> Board {
        Board {
            ops: Vec::new(),
            chip,
            id_reg,
            id,
            // Locked, with a VCO fine tuning of 1; bits are sent lowest first.
            status: [0, 0, 0x02, 0, 0x08],
            selected: 0,
            register: 0,
            good_for: usize::MAX,
        }
    }

    fn r828d() -> Board {
        Board::with_chip(0x74, 0x00, 0x69)
    }

    fn note(&mut self, op: Op) -> Result<()> {
        self.ops.push(op);
        if self.ops.len() > self.good_for {
            Err(Error::Usb(UsbError::Pipe))
        } else {
            Ok(())
        }
    }
}

impl HardwareInterface for Board {
    fn write_reg(&mut self, blk: u16, addr: u16, val: u8) -> Result<()> {
        self.note(Op::Reg(blk, addr, val))
    }

    fn write_reg16(&mut self, blk: u16, addr: u16, val: u16) -> Result<()> {
        self.note(Op::Reg16(blk, addr, val))
    }

    fn read_reg(&mut self, blk: u16, addr: u16) -> Result<u8> {
        self.note(Op::Read(blk, addr))?;
        Ok(self.register)
    }

    fn demod_write_reg(&mut self, page: u8, addr: u16, val: u8) -> Result<()> {
        self.note(Op::Demod(page, addr, val))
    }

    fn demod_write_reg16(&mut self, page: u8, addr: u16, val: u16) -> Result<()> {
        self.note(Op::Demod16(page, addr, val))
    }

    fn demod_read_reg(&mut self, _page: u8, _addr: u16) -> Result<u8> {
        Ok(0)
    }

    fn i2c_write_raw(&mut self, addr: u8, data: &[u8]) -> Result<()> {
        self.note(Op::I2c(addr, data.to_vec()))?;
        if addr != self.chip {
            return Err(Error::Usb(UsbError::Pipe));
        }
        self.selected = data[0];
        Ok(())
    }

    fn i2c_read_raw(&mut self, addr: u8, len: usize) -> Result<Vec<u8>> {
        self.note(Op::I2cRead(addr, len))?;
        if addr != self.chip {
            return Err(Error::Usb(UsbError::Pipe));
        }
        if len == 1 {
            return Ok(vec![if self.selected == self.id_reg { self.id } else { 0 }]);
        }
        Ok(self.status[..len].to_vec())
    }

    fn sleep_ms(&mut self, ms: u64) {
        self.ops.push(Op::Sleep(ms));
    }
}

const ON: Op = Op::Demod(1, 0x01, 0x18);
const OFF: Op = Op::Demod(1, 0x01, 0x10);

fn setting(db: f32) -> GainSetting {
    GainSetting { db: Decibels { bits: db.to_bits() }, tenths: (db * 10.0) as i32 }
}

// ── Routines ────────────────────────────────────────────────────────────────

#[test]
fn long_writes_to_the_tuner_go_out_in_chunks() {
    let mut hw = Board::r828d();
    let data: Vec<u8> = (100..116).collect();
    hw.i2c_write_tuner(0x74, 0x05, &data).unwrap();
    assert_eq!(
        hw.ops,
        vec![
            ON,
            Op::I2c(0x74, vec![0x05, 100, 101, 102, 103, 104, 105, 106]),
            Op::I2c(0x74, vec![0x0c, 107, 108, 109, 110, 111, 112, 113]),
            Op::I2c(0x74, vec![0x13, 114, 115]),
            OFF,
        ]
    );
}

#[test]
fn an_empty_write_selects_the_register() {
    let mut hw = Board::r828d();
    hw.i2c_write_tuner(0x74, 0x00, &[]).unwrap();
    assert_eq!(hw.ops, vec![ON, Op::I2c(0x74, vec![0x00]), OFF]);
}

#[test]
fn the_repeater_is_switched_off_after_a_failure() {
    let mut hw = Board::r828d();
    // No chip at this address.
    assert_eq!(hw.i2c_write_tuner(0x34, 0x05, &[1; 9]), Err(Error::Usb(UsbError::Pipe)));
    assert_eq!(hw.ops, vec![ON, Op::I2c(0x34, vec![0x05, 1, 1, 1, 1, 1, 1, 1]), OFF]);
    hw.ops.clear();
    assert_eq!(hw.i2c_read_tuner(0x34, 0x00, 1), Err(Error::Usb(UsbError::Pipe)));
    assert_eq!(hw.ops, vec![ON, Op::I2c(0x34, vec![0x00]), OFF]);
}

#[test]
fn gpio_pins_are_changed_one_at_a_time() {
    let mut hw = Board::r828d();
    hw.register = 0b1010_0001;
    hw.set_gpio_bit(4, true).unwrap();
    hw.set_gpio_bit(5, false).unwrap();
    hw.set_gpio_output(0).unwrap();
    assert_eq!(
        hw.ops,
        vec![
            Op::Read(2, 0x3001),
            Op::Reg(2, 0x3001, 0b1011_0001),
            Op::Read(2, 0x3001),
            Op::Reg(2, 0x3001, 0b1000_0001),
            Op::Read(2, 0x3003),
            Op::Reg(2, 0x3003, 0b1010_0001),
            Op::Read(2, 0x3004),
            Op::Reg(2, 0x3004, 0b1010_0000),
        ]
    );
}

#[test]
fn probing_finds_every_chip() {
    let found = |addr: u8, reg: u8, id: u8| {
        let mut hw = Board::with_chip(addr, reg, id);
        let found = hw.probe_tuner().unwrap();
        assert_eq!(hw.ops.first(), Some(&ON));
        assert_eq!(hw.ops.last(), Some(&OFF));
        found
    };
    assert_eq!(found(0x34, 0x00, 0x69), TunerType::R820T);
    assert_eq!(found(0x74, 0x00, 0x69), TunerType::R828D);
    assert_eq!(found(0xc8, 0x02, 0x40), TunerType::E4000);
    assert_eq!(found(0xc2, 0x00, 0xa1), TunerType::FC0012);
    assert_eq!(found(0xc6, 0x00, 0x63), TunerType::FC0013);
    assert_eq!(found(0xc6, 0x00, 0xa1), TunerType::FC0013);
    assert_eq!(found(0x74, 0x00, 0x42), TunerType::Unknown(0));
}

#[test]
fn probing_resets_the_tuner_only_where_no_rafael_chip_answers() {
    let mut hw = Board::r828d();
    hw.probe_tuner().unwrap();
    assert!(!hw.ops.contains(&Op::Reg(2, 0x3001, 0x10)));
    let mut hw = Board::with_chip(0xc8, 0x02, 0x40);
    hw.probe_tuner().unwrap();
    assert!(hw.ops.contains(&Op::Reg(2, 0x3001, 0x10)));
}

#[test]
fn the_mock_carries_an_r828d() {
    let mut hw = MockHardware;
    assert_eq!(hw.probe_tuner(), Ok(TunerType::R828D));
    assert_eq!(hw.read_reg(1, 2), Ok(0));
    assert_eq!(hw.i2c_read_raw(0x34, 5), Ok(vec![0]));
}

// ── Demodulator ─────────────────────────────────────────────────────────────

#[test]
fn fir_coefficients_are_packed() {
    assert_eq!(
        demod::pack_fir(),
        [
            0xca, 0xdc, 0xd7, 0xd8, 0xe0, 0xf2, 0x0e, 0x35, 0x06, 0x50, 0x9c, 0x0d, 0x71, 0x11,
            0x14, 0x71, 0x74, 0x19, 0x41, 0xa5,
        ]
    );
}

#[test]
fn fir_coefficients_are_written_in_order() {
    let mut hw = Board::r828d();
    demod::set_fir(&mut hw).unwrap();
    let fir = demod::pack_fir();
    let expected: Vec<Op> =
        (0..20).map(|i| Op::Demod(1, 0x1c + i as u16, fir[i as usize])).collect();
    assert_eq!(hw.ops, expected);
}

#[test]
fn if_frequency_word_is_negative() {
    let mut hw = Board::r828d();
    demod::set_if_freq_xtal(&mut hw, 2_300_000, 28_800_000).unwrap();
    assert_eq!(
        hw.ops,
        vec![Op::Demod(1, 0x19, 0x3a), Op::Demod(1, 0x1a, 0xe3), Op::Demod(1, 0x1b, 0x8f)]
    );
    hw.ops.clear();
    demod::set_if_freq_xtal(&mut hw, 0, 28_800_000).unwrap();
    assert_eq!(
        hw.ops,
        vec![Op::Demod(1, 0x19, 0), Op::Demod(1, 0x1a, 0), Op::Demod(1, 0x1b, 0)]
    );
}

#[test]
fn sample_rate_word() {
    let mut hw = Board::r828d();
    demod::set_sample_rate_xtal(&mut hw, 2_048_000, 28_800_000).unwrap();
    assert_eq!(
        hw.ops,
        vec![
            Op::Demod16(1, 0x9f, 0x0384),
            Op::Demod16(1, 0xa1, 0x0000),
            Op::Demod(1, 0x3f, 0x00),
            Op::Demod(1, 0x3e, 0x00),
        ]
    );
    hw.ops.clear();
    // 28.8 MHz over 300 kHz needs bit 27, which is copied.
    demod::set_sample_rate_xtal(&mut hw, 900_000, 28_800_000).unwrap();
    assert_eq!(hw.ops[0], Op::Demod16(1, 0x9f, 0x1800));
}

#[test]
fn baseband_is_started_with_a_pause() {
    let mut hw = Board::r828d();
    demod::power_on(&mut hw).unwrap();
    assert_eq!(hw.ops[0], Op::Reg(1, 0x2000, 0x09));
    assert_eq!(hw.ops[5], Op::Sleep(100));
    assert_eq!(hw.ops.last(), Some(&Op::Demod(0, 0x0d, 0x83)));
    let mut hw = Board::r828d();
    hw.good_for = 2;
    assert_eq!(demod::init_baseband(&mut hw), Err(Error::Usb(UsbError::Pipe)));
    assert_eq!(hw.ops.len(), 3);
}

#[test]
fn demodulator_modes_reset_and_streaming() {
    let mut hw = Board::r828d();
    demod::set_tuner_low_if(&mut hw).unwrap();
    demod::set_tuner_zero_if(&mut hw).unwrap();
    demod::reset_demod(&mut hw).unwrap();
    demod::write_reg_direct(&mut hw, 1, 0x15, 0x05).unwrap();
    demod::start_streaming(&mut hw).unwrap();
    demod::stop_streaming(&mut hw).unwrap();
    assert_eq!(
        hw.ops,
        vec![
            Op::Demod(1, 0xb1, 0x1a),
            Op::Demod(0, 0x08, 0x4d),
            Op::Demod(1, 0xb1, 0x1b),
            Op::Demod(0, 0x08, 0xcd),
            Op::Demod(1, 0x01, 0x14),
            Op::Demod(1, 0x01, 0x10),
            Op::Demod(1, 0x15, 0x05),
            Op::Reg16(1, 0x2148, 0x1002),
            Op::Reg16(1, 0x2148, 0x0000),
            Op::Reg16(1, 0x2148, 0x1002),
            Op::Reg(2, 0x3000, 0x20),
        ]
    );
}

#[test]
fn register_helpers() {
    assert_eq!(registers::if_freq_regs(3_570_000, 28_800_000), [0x07, 0xee, 0xee]);
    assert_eq!(registers::resample_regs(2_048_000, 28_800_000), [0x03, 0x84, 0x00, 0x00]);
}

// ── Rafael Micro chips ──────────────────────────────────────────────────────

#[test]
fn pll_arithmetic() {
    assert_eq!(rafael::select_divider(102_300_000), Some((4, 3_273_600_000)));
    assert_eq!(rafael::select_divider(27_656_250), Some((5, 1_770_000_000)));
    assert_eq!(rafael::select_divider(27_656_249), None);
    assert_eq!(rafael::select_divider(1_799_999_999), Some((0, 3_599_999_998)));
    assert_eq!(rafael::select_divider(1_800_000_000), None);
    let s = rafael::synthesize(3_273_600_000, 28_800_000, 1).unwrap();
    assert_eq!((s.ni, s.si, s.sdm, s.integer), (10, 3, 0xd556, false));
    let s = rafael::synthesize(1_843_200_000, 28_800_000, 1).unwrap();
    assert_eq!((s.ni, s.si, s.sdm, s.integer), (4, 3, 0, true));
    // An integer part of 112 is within the limit of 127, but not within that of 63.
    assert!(rafael::synthesize(3_584_000_000, 16_000_000, 1).is_some());
    assert!(rafael::synthesize(3_584_000_000, 16_000_000, 2).is_none());
    assert!(rafael::is_pll_settable(102_300_000, 28_800_000, 1));
    assert!(!rafael::is_pll_settable(102_300_000, 0, 1));
    assert!(!rafael::is_pll_settable(u64::MAX, 28_800_000, 1));
}

#[test]
fn status_bytes_come_lowest_bit_first() {
    assert_eq!(rafael::bit_reverse(0x69), 0x96);
    assert_eq!(rafael::bit_reverse(0x02), 0x40);
    for b in 0..=255u8 {
        assert_eq!(rafael::bit_reverse(b), b.reverse_bits());
        assert_eq!(rafael::bit_reverse(rafael::bit_reverse(b)), b);
    }
}

#[test]
fn front_end_bands() {
    assert_eq!(rafael::find_band(0).tf_c, 0xdf);
    assert_eq!(rafael::find_band(49_999_999).tf_c, 0xdf);
    assert_eq!(rafael::find_band(50_000_000).tf_c, 0xbe);
    assert_eq!(rafael::find_band(100_000_000).open_d, 0x00);
    assert_eq!(rafael::find_band(310_000_000).rf_mux_ploy, 0x41);
    assert_eq!(rafael::find_band(u64::MAX).rf_mux_ploy, 0x40);
}

#[test]
fn r82xx_initialization() {
    let mut hw = Board::r828d();
    let mut chip = R82xx::new(TunerType::R828D, 0x74, 28_800_000);
    chip.initialize(&mut hw).unwrap();
    assert_eq!(hw.ops[1], Op::I2c(0x74, vec![0x05, 0x83, 0x30, 0x75, 0xc0, 0x40, 0xd6, 0x6c]));
    // The second half starts at register 0x15.
    assert!(hw.ops.contains(&Op::I2c(
        0x74,
        vec![0x15, 0x00, 0xc0, 0x30, 0x48, 0xcc, 0x60, 0x00]
    )));
    assert!(hw.ops.contains(&Op::I2c(0x74, vec![0x13, 0x01])));
    // The narrow IF filter comes last.
    let n = hw.ops.len();
    assert_eq!(
        hw.ops[n - 4..],
        [ON, Op::I2c(0x74, vec![0x0a, 0x86]), Op::I2c(0x74, vec![0x0b, 0x80]), OFF]
    );
}

#[test]
fn r82xx_tuning_programs_the_pll() {
    let mut hw = Board::r828d();
    let mut chip = R82xx::new(TunerType::R828D, 0x74, 28_800_000);
    assert_eq!(chip.set_frequency(&mut hw, 100_000_000), Ok(100_000_000));
    assert_eq!(hw.ops.first(), Some(&ON));
    assert_eq!(hw.ops.last(), Some(&OFF));
    let at = hw.ops.iter().position(|op| *op == Op::I2c(0x74, vec![0x14, 0xca])).unwrap();
    assert_eq!(hw.ops[at - 1], Op::I2c(0x74, vec![0x10, 0x8f]));
    assert_eq!(hw.ops[at + 1], Op::I2c(0x74, vec![0x16, 0xd5]));
    assert_eq!(hw.ops[at + 2], Op::I2c(0x74, vec![0x15, 0x56]));
    assert_eq!(hw.ops[at + 3], Op::I2c(0x74, vec![0x12, 0x80]));
    assert_eq!(hw.ops[at + 4], Op::Sleep(2));
    assert!(chip.has_lock);
}

#[test]
fn r82xx_corrects_the_divider() {
    // The VCO's fine tuning is 2 or 0 where 1 is expected.
    for (raw, code) in [(0x04u8, 3u8), (0x00, 5)] {
        let mut hw = Board::r828d();
        hw.status[4] = raw;
        let mut chip = R82xx::new(TunerType::R828D, 0x74, 28_800_000);
        chip.set_frequency(&mut hw, 100_000_000).unwrap();
        assert!(hw.ops.contains(&Op::I2c(0x74, vec![0x10, (code << 5) | 0x0f])));
    }
}

#[test]
fn r82xx_without_lock_goes_on() {
    let mut hw = Board::r828d();
    hw.status[2] = 0;
    let mut chip = R82xx::new(TunerType::R828D, 0x74, 28_800_000);
    assert_eq!(chip.set_frequency(&mut hw, 100_000_000), Ok(100_000_000));
    assert!(!chip.has_lock);
    assert_eq!(hw.ops.iter().filter(|op| **op == Op::Sleep(1)).count(), 10);
    // The VCO current is raised once.
    assert_eq!(hw.ops.iter().filter(|op| **op == Op::I2c(0x74, vec![0x12, 0x06])).count(), 1);
}

#[test]
fn r82xx_refuses_what_it_cannot_reach() {
    let mut hw = Board::r828d();
    let mut chip = R82xx::new(TunerType::R828D, 0x74, 28_800_000);
    assert_eq!(chip.set_frequency(&mut hw, 0), Err(Error::InvalidFrequency(0)));
    assert!(hw.ops.is_empty());
    // The local oscillator is 2.3 MHz above.
    assert_eq!(chip.set_frequency(&mut hw, 20_000_000), Err(Error::InvalidFrequency(22_300_000)));
    assert_eq!(hw.ops.last(), Some(&OFF));
    assert_eq!(
        chip.set_frequency(&mut hw, 1_800_000_000),
        Err(Error::InvalidFrequency(1_802_300_000))
    );
}

#[test]
fn r82xx_reports_a_short_status() {
    struct Short(Board);
    impl HardwareInterface for Short {
        fn write_reg(&mut self, blk: u16, addr: u16, val: u8) -> Result<()> {
            self.0.write_reg(blk, addr, val)
        }
        fn write_reg16(&mut self, blk: u16, addr: u16, val: u16) -> Result<()> {
            self.0.write_reg16(blk, addr, val)
        }
        fn read_reg(&mut self, blk: u16, addr: u16) -> Result<u8> {
            self.0.read_reg(blk, addr)
        }
        fn demod_write_reg(&mut self, page: u8, addr: u16, val: u8) -> Result<()> {
            self.0.demod_write_reg(page, addr, val)
        }
        fn demod_write_reg16(&mut self, page: u8, addr: u16, val: u16) -> Result<()> {
            self.0.demod_write_reg16(page, addr, val)
        }
        fn demod_read_reg(&mut self, page: u8, addr: u16) -> Result<u8> {
            self.0.demod_read_reg(page, addr)
        }
        fn i2c_write_raw(&mut self, addr: u8, data: &[u8]) -> Result<()> {
            self.0.i2c_write_raw(addr, data)
        }
        fn i2c_read_raw(&mut self, _addr: u8, _len: usize) -> Result<Vec<u8>> {
            Ok(vec![0; 2])
        }
        fn sleep_ms(&mut self, ms: u64) {
            self.0.sleep_ms(ms)
        }
    }
    let mut hw = Short(Board::r828d());
    let mut chip = R82xx::new(TunerType::R828D, 0x74, 28_800_000);
    assert_eq!(chip.set_frequency(&mut hw, 100_000_000), Err(Error::I2c { addr: 0x74 }));
    assert_eq!(hw.0.ops.last(), Some(&OFF));
}

#[test]
fn r82xx_gain_snaps_to_the_nearest_step() {
    let mut hw = Board::r828d();
    let mut chip = R82xx::new(TunerType::R828D, 0x74, 28_800_000);
    // The V4's VHF input is selected.
    chip.set_input_path(&mut hw, InputPath::Vhf).unwrap();
    assert_eq!(chip.regs[0] & 0x60, 0x40);
    hw.ops.clear();
    assert_eq!(chip.set_gain(&mut hw, setting(30.0)), Ok(Gain::Tenths(297)));
    assert_eq!(Tuner::<Board>::get_gain(&chip), Ok(Gain::Tenths(297)));
    assert_eq!(
        hw.ops,
        vec![
            ON,
            Op::I2c(0x74, vec![0x05, 0xd3]),
            Op::I2c(0x74, vec![0x07, 0x65]),
            Op::I2c(0x74, vec![0x05, 0xdf]),
            Op::I2c(0x74, vec![0x07, 0x67]),
            Op::I2c(0x74, vec![0x0c, 0xf9]),
            OFF,
        ]
    );
    assert_eq!(chip.regs[0] & 0x60, 0x40);
    assert_eq!(chip.set_gain(&mut hw, setting(1000.0)), Ok(Gain::Tenths(496)));
    assert_eq!(chip.set_gain(&mut hw, setting(-5.0)), Ok(Gain::Tenths(0)));
}

#[test]
fn r82xx_gain_by_index() {
    let mut hw = Board::r828d();
    let mut chip = R82xx::new(TunerType::R820T, 0x74, 28_800_000);
    let table = Tuner::<Board>::get_gain_table(&chip);
    assert_eq!(table.len(), 29);
    for (i, step) in table.iter().enumerate() {
        assert_eq!(chip.set_gain_by_index(&mut hw, i), Ok(Gain::Tenths(*step)));
        assert_eq!(
            chip.set_gain(&mut hw, setting(*step as f32 / 10.0)),
            Ok(Gain::Tenths(*step))
        );
    }
    assert_eq!(chip.set_gain_by_index(&mut hw, 1000), Ok(Gain::Tenths(496)));
}

#[test]
fn r82xx_inputs_bandwidth_and_if() {
    let mut hw = Board::r828d();
    let mut chip = R82xx::new(TunerType::R828D, 0x74, 28_800_000);
    chip.set_input_path(&mut hw, InputPath::Hf).unwrap();
    assert_eq!(
        hw.ops,
        vec![ON, Op::I2c(0x74, vec![0x06, 0x38]), Op::I2c(0x74, vec![0x05, 0x83]), OFF]
    );
    hw.ops.clear();
    chip.set_input_path(&mut hw, InputPath::Uhf).unwrap();
    assert_eq!(
        hw.ops,
        vec![ON, Op::I2c(0x74, vec![0x05, 0xa3]), Op::I2c(0x74, vec![0x06, 0x30]), OFF]
    );
    hw.ops.clear();
    chip.set_bandwidth(&mut hw, 7_000_000).unwrap();
    assert_eq!(hw.ops, vec![ON, Op::I2c(0x74, vec![0x0a, 0xd6]), OFF]);
    hw.ops.clear();
    chip.set_if_freq(&mut hw, 3_570_000).unwrap();
    assert_eq!(Tuner::<Board>::get_if_freq(&chip), 3_570_000);
    assert_eq!(
        hw.ops,
        vec![ON, Op::I2c(0x74, vec![0x0a, 0x96]), Op::I2c(0x74, vec![0x0b, 0x6b]), OFF]
    );
    // An R820T has a single input.
    let mut chip = R82xx::new(TunerType::R820T, 0x74, 28_800_000);
    hw.ops.clear();
    chip.set_input_path(&mut hw, InputPath::Hf).unwrap();
    assert!(hw.ops.is_empty());
    assert_eq!(
        Tuner::<Board>::get_filters(&chip),
        vec![FilterRange { start_hz: 0, end_hz: 1_766_000_000 }]
    );
}

#[test]
fn r82xx_notch_keeps_open_d_off() {
    for (notch, expected) in [(false, 0x28u8), (true, 0x20)] {
        let mut hw = Board::r828d();
        let mut chip = R82xx::new(TunerType::R828D, 0x74, 28_800_000);
        Tuner::<Board>::apply_notch(&mut chip, notch).unwrap();
        chip.set_frequency(&mut hw, 40_000_000).unwrap();
        // The first write leaves bit 3 of register 0x17 as it is after start-up.
        assert_eq!(hw.ops[1], Op::I2c(0x74, vec![0x17, 0x20]));
        assert_eq!(hw.ops[2], Op::I2c(0x74, vec![0x17, expected]));
    }
}

#[test]
fn r828d_tunes_the_v4() {
    let mut hw = Board::r828d();
    let mut chip = R828D::new(true);
    assert_eq!(chip.set_frequency(&mut hw, 7_000_000), Ok(7_000_000));
    // 7 MHz + 2.3 MHz + 28.8 MHz.
    assert!(hw.ops.contains(&Op::I2c(0x74, vec![0x14, 0x47])));
    assert!(hw.ops.contains(&Op::I2c(0x74, vec![0x16, 0x55])));
    assert!(hw.ops.contains(&Op::I2c(0x74, vec![0x15, 0x56])));
    // The upconverter's switch.
    assert!(hw.ops.contains(&Op::Reg(2, 0x3001, 0x00)));
    assert!(chip.has_lock);
    assert_eq!(Tuner::<Board>::get_filters(&chip).len(), 3);
    assert_eq!(Tuner::<Board>::get_filters(&R828D::new(false)).len(), 1);
    assert_eq!(chip.set_frequency(&mut hw, 0), Err(Error::InvalidFrequency(0)));
    assert_eq!(chip.set_gain(&mut hw, setting(20.0)), Ok(Gain::Tenths(197)));
}

// ── Other chips ─────────────────────────────────────────────────────────────

#[test]
fn e4k_tunes_within_its_vco_range() {
    let mut hw = Board::with_chip(0xc8, 0x02, 0x40);
    let mut chip = E4k::new(28_800_000);
    assert_eq!(chip.set_frequency(&mut hw, 700_000_000), Ok(700_000_000));
    let writes: Vec<&Op> =
        hw.ops.iter().filter(|op| matches!(op, Op::I2c(_, _))).collect();
    assert_eq!(
        writes,
        vec![
            &Op::I2c(0xc8, vec![0x07, 0x08]),
            &Op::I2c(0xc8, vec![0x09, 97]),
            &Op::I2c(0xc8, vec![0x0a, 0xe3]),
            &Op::I2c(0xc8, vec![0x0b, 0x38]),
            &Op::I2c(0xc8, vec![0x0d, 0x00]),
        ]
    );
    // Both make the VCO run at 3.2 GHz, 100 MHz by a divider of 32, 800 MHz by one of 4.
    for (hz, synth1, synth7) in [(100_000_000, 0x00, 0x0e), (800_000_000, 0x08, 0x00)] {
        hw.ops.clear();
        assert_eq!(chip.set_frequency(&mut hw, hz), Ok(hz));
        let writes: Vec<&Op> =
            hw.ops.iter().filter(|op| matches!(op, Op::I2c(_, _))).collect();
        assert_eq!(
            writes,
            vec![
                &Op::I2c(0xc8, vec![0x07, synth1]),
                &Op::I2c(0xc8, vec![0x09, 111]),
                &Op::I2c(0xc8, vec![0x0a, 0x71]),
                &Op::I2c(0xc8, vec![0x0b, 0x1c]),
                &Op::I2c(0xc8, vec![0x0d, synth7]),
            ]
        );
    }
    for hz in [54_166_667, 64_000_000, 240_000_000, 433_920_000, 975_000_000] {
        assert_eq!(chip.set_frequency(&mut hw, hz), Ok(hz));
    }
    hw.ops.clear();
    for hz in [0, 54_166_666, 975_000_001, 1_700_000_000, u64::MAX] {
        assert_eq!(chip.set_frequency(&mut hw, hz), Err(Error::InvalidFrequency(hz)));
    }
    assert!(hw.ops.is_empty());
    // With a slow crystal the integer part does not fit.
    let mut slow = E4k::new(1_000_000);
    assert_eq!(
        slow.set_frequency(&mut hw, 700_000_000),
        Err(Error::InvalidFrequency(700_000_000))
    );
    assert_eq!(Tuner::<Board>::get_if_freq(&chip), 0);
}

#[test]
fn e4k_distributes_its_gain() {
    let mut hw = Board::with_chip(0xc8, 0x02, 0x40);
    let mut chip = E4k::new(28_800_000);
    assert_eq!(chip.set_gain(&mut hw, setting(49.0)), Ok(Gain::Tenths(490)));
    let writes: Vec<&Op> = hw
        .ops
        .iter()
        .filter(|op| matches!(op, Op::I2c(_, data) if data.len() == 2))
        .collect();
    // 30 dB, 12 dB, then 3, 3, 1, 0, 0, 0 dB.
    assert_eq!(
        writes,
        vec![
            &Op::I2c(0xc8, vec![0x14, 6]),
            &Op::I2c(0xc8, vec![0x15, 1]),
            &Op::I2c(0xc8, vec![0x16, 0x00]),
            &Op::I2c(0xc8, vec![0x16, 0x02]),
            &Op::I2c(0xc8, vec![0x16, 0x00]),
            &Op::I2c(0xc8, vec![0x16, 0x00]),
            &Op::I2c(0xc8, vec![0x17, 0x00]),
            &Op::I2c(0xc8, vec![0x17, 0x00]),
        ]
    );
    assert_eq!(chip.set_gain(&mut hw, setting(-1.0)), Ok(Gain::Tenths(-10)));
    hw.ops.clear();
    chip.initialize(&mut hw).unwrap();
    assert_eq!(chip.current_gain, Gain::Tenths(190));
    assert!(hw.ops.contains(&Op::I2c(0xc8, vec![0x1e, 0x01])));
}

#[test]
fn test_fc0012_vhf() {
    let mut dev = MockHardware;
    let mut tuner = Fc001x::new(TunerType::FC0012, 0xc2, 28_800_000);
    // 100 MHz FM: multi=32, f_vco=3.2GHz, xdiv=3200M/14.4M=222
    // pm=27, am=6 — valid (am>=2, pm<=31)
    let res = tuner.set_frequency(&mut dev, 100_000_000);
    assert!(res.is_ok());
    assert_eq!(res.unwrap(), 100_000_000);
}

#[test]
fn test_fc0012_uhf() {
    let mut dev = MockHardware;
    let mut tuner = Fc001x::new(TunerType::FC0012, 0xc2, 28_800_000);
    // 434 MHz: multi=16, f_vco=6.944GHz — should be ok
    let res = tuner.set_frequency(&mut dev, 434_000_000);
    assert!(res.is_ok());
}

#[test]
fn test_fc0013_high_uhf() {
    let mut dev = MockHardware;
    let mut tuner = Fc001x::new(TunerType::FC0013, 0xc6, 28_800_000);
    // 900 MHz: FC0013-specific path
    let res = tuner.set_frequency(&mut dev, 900_000_000);
    assert!(res.is_ok());
}

#[test]
fn fc0013_writes_its_counters() {
    let mut hw = Board::with_chip(0xc6, 0x00, 0x63);
    let mut chip = Fc001x::new(TunerType::FC0013, 0xc6, 28_800_000);
    chip.set_frequency(&mut hw, 900_000_000).unwrap();
    let writes: Vec<&Op> =
        hw.ops.iter().filter(|op| matches!(op, Op::I2c(_, _))).collect();
    // 3.6 GHz / 14.4 MHz = 250 = 8 * 31 + 2.
    assert_eq!(
        writes,
        vec![
            &Op::I2c(0xc6, vec![0x05, 0x12]),
            &Op::I2c(0xc6, vec![0x06, 0x0a]),
            &Op::I2c(0xc6, vec![0x01, 2]),
            &Op::I2c(0xc6, vec![0x02, 31]),
            &Op::I2c(0xc6, vec![0x16, 0x0c]),
        ]
    );
    // 30 MHz: the main counter would be too small.
    assert_eq!(
        chip.set_frequency(&mut hw, 30_000_000),
        Err(Error::InvalidFrequency(30_000_000))
    );
    assert!(!Tuner::<Board>::is_tunable(&chip, u64::MAX));
    assert!(Tuner::<Board>::is_tunable(&chip, 100_000_000));
}

#[test]
fn fc001x_swallow_counter_is_limited_outside_the_middle_band() {
    let mut hw = Board::with_chip(0xc2, 0x00, 0xa1);
    let mut chip = Fc001x::new(TunerType::FC0012, 0xc2, 28_800_000);
    // 120 MHz asks for 19, 150 MHz for 85, 950 MHz for 16.
    for hz in [120_000_000, 150_000_000, 950_000_000] {
        assert_eq!(chip.set_frequency(&mut hw, hz), Err(Error::InvalidFrequency(hz)));
    }
    assert!(hw.ops.is_empty());
    // 948 MHz asks for 15.
    assert_eq!(chip.set_frequency(&mut hw, 948_000_000), Ok(948_000_000));
    assert!(hw.ops.contains(&Op::I2c(0xc2, vec![0x01, 15])));
    assert!(hw.ops.contains(&Op::I2c(0xc2, vec![0x02, 31])));
    // 434 MHz: 6.944 GHz / 14.4 MHz = 482 = 8 * 31 + 234.
    hw.ops.clear();
    assert_eq!(chip.set_frequency(&mut hw, 434_000_000), Ok(434_000_000));
    assert!(hw.ops.contains(&Op::I2c(0xc2, vec![0x01, 234])));
    assert!(hw.ops.contains(&Op::I2c(0xc2, vec![0x02, 31])));
    assert_eq!(chip.set_frequency(&mut hw, 300_000_000), Ok(300_000_000));
    assert_eq!(chip.set_frequency(&mut hw, 862_000_000), Ok(862_000_000));
}

#[test]
fn fc001x_identities() {
    let mut hw = Board::with_chip(0xc6, 0x00, 0xa1);
    assert_eq!(Fc001x::new(TunerType::FC0013, 0xc6, 28_800_000).initialize(&mut hw), Ok(()));
    assert!(hw.ops.contains(&Op::I2c(0xc6, vec![0x16, 0x00])));
    let mut hw = Board::with_chip(0xc6, 0x00, 0x12);
    assert_eq!(
        Fc001x::new(TunerType::FC0013, 0xc6, 28_800_000).initialize(&mut hw),
        Err(Error::Tuner(TunerFault::IdMismatch { expected: TunerType::FC0013, id: 0x12 }))
    );
    let mut hw = Board::with_chip(0xc2, 0x00, 0x63);
    assert_eq!(
        Fc001x::new(TunerType::FC0012, 0xc2, 28_800_000).initialize(&mut hw),
        Err(Error::Tuner(TunerFault::IdMismatch { expected: TunerType::FC0012, id: 0x63 }))
    );
}

#[test]
fn fc001x_gain_is_automatic_at_zero_and_below() {
    let mut hw = Board::with_chip(0xc2, 0x00, 0xa1);
    let mut chip = Fc001x::new(TunerType::FC0012, 0xc2, 28_800_000);
    assert_eq!(chip.set_gain(&mut hw, setting(0.0)), Ok(Gain::Exact(setting(0.0).db)));
    assert_eq!(hw.ops[1], Op::I2c(0xc2, vec![0x0d, 0x00]));
    hw.ops.clear();
    chip.set_gain(&mut hw, setting(12.5)).unwrap();
    assert_eq!(hw.ops[1], Op::I2c(0xc2, vec![0x0d, 0x01]));
    assert_eq!(Tuner::<Board>::get_gain(&chip), Ok(Gain::Exact(setting(12.5).db)));
}

#[test]
fn the_dummy_accepts_everything() {
    let mut hw = Board::r828d();
    let mut chip = DummyTuner;
    chip.initialize(&mut hw).unwrap();
    assert_eq!(chip.set_frequency(&mut hw, 0), Ok(0));
    assert_eq!(chip.set_gain(&mut hw, setting(7.0)), Ok(Gain::Exact(setting(7.0).db)));
    assert!(Tuner::<Board>::get_filters(&chip).is_empty());
    assert!(hw.ops.is_empty());
}

// ── Receiver ────────────────────────────────────────────────────────────────

fn v4() -> DeviceInfo {
    DeviceInfo::from_strings(Some("RTLSDRBlog".to_string()), Some("Blog V4".to_string()))
}

fn generic() -> DeviceInfo {
    DeviceInfo::from_strings(Some("Realtek".to_string()), Some("RTL2838UHIDIR".to_string()))
}

#[test]
fn starting_the_baseband_waits() {
    let mut hw = Board::r828d();
    driver::start_baseband(&mut hw).unwrap();
    assert_eq!(hw.ops.last(), Some(&Op::Sleep(100)));
}

#[test]
fn a_v4_comes_up() {
    let d = Driver::new(Board::r828d(), v4()).ok().unwrap();
    assert!(matches!(d.orchestrator, Orchestrator::V4(_)));
    assert_eq!(d.sample_rate, 2_048_000);
    assert_eq!(d.frequency, 0);
    assert_eq!(d.nominal_xtal, 28_800_000);
    assert_eq!(d.tuner.tuner_type(), TunerType::R828D);
    // Power-up comes first: GPIO 4 and 5, then a pause.
    assert_eq!(d.hw.ops[1], Op::Reg(2, 0x3003, 0x10));
    assert_eq!(d.hw.ops[5], Op::Reg(2, 0x3003, 0x20));
    assert_eq!(d.hw.ops[9], Op::Reg(2, 0x3001, 0x10));
    assert_eq!(d.hw.ops[11], Op::Reg(2, 0x3001, 0x20));
    assert_eq!(d.hw.ops[12], Op::Sleep(250));
    // Streaming is started last.
    assert_eq!(d.hw.ops.last(), Some(&Op::Reg16(1, 0x2148, 0x0000)));
}

#[test]
fn a_v4_whose_chip_does_not_answer_is_taken_for_an_r828d() {
    // The chip answers, but not with the identity that probing looks for.
    let d = Driver::new(Board::with_chip(0x74, 0x00, 0x00), v4()).ok().unwrap();
    assert_eq!(d.tuner.tuner_type(), TunerType::R828D);
}

#[test]
fn unsupported_chips_are_refused() {
    let up = Driver::new(Board::with_chip(0x74, 0x00, 0x00), generic());
    assert_eq!(up.err(), Some(Error::UnsupportedTuner(TunerType::Unknown(0))));
    let up = Driver::new(Board::with_chip(0xc2, 0x00, 0xa1), generic());
    assert_eq!(up.err(), Some(Error::UnsupportedTuner(TunerType::FC0012)));
}

#[test]
fn an_e4000_comes_up_without_an_if() {
    let d = Driver::new(Board::with_chip(0xc8, 0x02, 0x40), generic()).ok().unwrap();
    assert!(matches!(d.tuner, TunerChip::E4k(_)));
    assert!(d.hw.ops.contains(&Op::Demod(0, 0x08, 0xcd)));
    assert!(d.hw.ops.contains(&Op::Demod(1, 0x19, 0x00)));
    assert!(matches!(d.orchestrator, Orchestrator::Generic(_)));
}

#[test]
fn tuning_a_v4_to_hf_inverts_the_spectrum() {
    let mut d = Driver::new(Board::r828d(), v4()).ok().unwrap();
    d.hw.ops.clear();
    assert!(d.is_tunable(7_000_000));
    assert_eq!(d.set_frequency(7_000_000), Ok(35_800_000));
    assert_eq!(d.frequency, 7_000_000);
    assert_eq!(d.hw.ops.last(), Some(&Op::Demod(1, 0x15, 0x05)));
    // The upconverter's switch goes low.
    assert!(d.hw.ops.contains(&Op::Reg(2, 0x3001, 0x00)));
    assert_eq!(d.set_frequency(100_000_000), Ok(100_000_000));
    assert_eq!(d.hw.ops.last(), Some(&Op::Demod(1, 0x15, 0x01)));
}

#[test]
fn a_failed_tuning_is_not_remembered() {
    let mut d = Driver::new(Board::r828d(), generic()).ok().unwrap();
    d.try_set_frequency(100_000_000).unwrap();
    assert_eq!(
        d.try_set_frequency(2_000_000_000),
        Err(Error::InvalidFrequency(2_002_300_000))
    );
    assert_eq!(d.frequency, 100_000_000);
    assert_eq!(d.try_set_frequency(u64::MAX), Err(Error::InvalidFrequency(u64::MAX)));
    assert_eq!(d.frequency, 100_000_000);
}

#[test]
fn every_frequency_of_a_v4_has_a_pll_setting() {
    let mut d = Driver::new(Board::r828d(), v4()).ok().unwrap();
    for hz in [0u64, 1, 500_000, 28_799_999, 28_800_000, 433_920_000, 1_766_000_000] {
        assert!(d.try_set_frequency(hz).is_ok());
    }
}

#[test]
fn the_if_follows_the_sample_rate() {
    let mut d = Driver::new(Board::r828d(), generic()).ok().unwrap();
    d.try_set_sample_rate(2_499_999).unwrap();
    assert_eq!(Tuner::<Board>::get_if_freq(&d.tuner), 2_300_000);
    d.try_set_sample_rate(2_500_000).unwrap();
    assert_eq!(Tuner::<Board>::get_if_freq(&d.tuner), 3_570_000);
    assert_eq!(d.sample_rate, 2_500_000);
    assert_eq!(d.try_set_sample_rate(0), Err(Error::InvalidSampleRate(0)));
    assert_eq!(d.sample_rate, 2_500_000);
}

#[test]
fn rates_outside_the_range_are_refused() {
    let mut d = Driver::new(Board::r828d(), generic()).ok().unwrap();
    d.hw.ops.clear();
    for rate in [224_999, 3_200_001, u32::MAX] {
        assert_eq!(d.try_set_sample_rate(rate), Err(Error::InvalidSampleRate(rate)));
        assert_eq!(d.set_sample_rate(rate), Err(Error::InvalidSampleRate(rate)));
    }
    assert!(d.hw.ops.is_empty());
    assert_eq!(d.sample_rate, 2_048_000);
    for rate in [225_000, 3_200_000] {
        assert_eq!(d.try_set_sample_rate(rate), Ok(()));
        assert_eq!(d.sample_rate, rate);
    }
}

#[test]
fn streams_flush_after_tuning_and_only_then() {
    let mut d = Driver::new(Board::r828d(), generic()).ok().unwrap();
    assert!(!d.take_flush());
    d.try_set_frequency(100_000_000).unwrap();
    assert!(d.take_flush());
    assert!(!d.take_flush());
    assert!(d.try_set_frequency(2_000_000_000).is_err());
    assert!(!d.take_flush());
    d.try_set_sample_rate(2_400_000).unwrap();
    d.try_set_gain(setting(20.0)).unwrap();
    d.set_bias_t(true).unwrap();
    d.set_agc(true).unwrap();
    assert!(!d.take_flush());
    // A correction tunes the receiver again.
    d.try_set_ppm(50).unwrap();
    assert!(d.take_flush());
    // A tuning that fails half-way leaves the streams alone.
    d.hw.good_for = d.hw.ops.len() + 5;
    assert!(d.try_set_frequency(101_000_000).is_err());
    assert!(!d.take_flush());
}

#[test]
fn ppm_reaches_the_tuner_and_the_demodulator() {
    let mut d = Driver::new(Board::r828d(), generic()).ok().unwrap();
    d.try_set_frequency(100_000_000).unwrap();
    d.try_set_ppm(100).unwrap();
    assert_eq!(d.ppm, 100);
    match &d.tuner {
        TunerChip::R82xx(chip) => assert_eq!(chip.xtal_freq, 28_802_880),
        TunerChip::E4k(_) => unreachable!(),
    }
    assert_eq!(d.frequency, 100_000_000);
    // The resampler goes by 28_802_880 Hz.
    let word = ((28_802_880u64 << 22) / 2_048_000) as u32 & 0x0fff_fffc;
    assert!(d.hw.ops.contains(&Op::Demod16(1, 0xa1, (word & 0xffff) as u16)));
}

#[test]
fn bias_tee_and_agc() {
    let mut d = Driver::new(Board::r828d(), generic()).ok().unwrap();
    d.hw.ops.clear();
    d.set_bias_t(true).unwrap();
    assert_eq!(d.hw.ops.last(), Some(&Op::Reg(2, 0x3001, 0x01)));
    d.set_agc(true).unwrap();
    assert_eq!(d.hw.ops.last(), Some(&Op::Demod(0, 0x19, 0x25)));
    d.set_agc(false).unwrap();
    assert_eq!(d.hw.ops.last(), Some(&Op::Demod(0, 0x19, 0x05)));
}

#[test]
fn gains_outside_any_table_are_refused() {
    let mut d = Driver::new(Board::r828d(), generic()).ok().unwrap();
    let absurd = GainSetting { db: Decibels { bits: 0xff80_0000 }, tenths: i32::MIN };
    assert_eq!(d.try_set_gain(absurd), Err(Error::InvalidGain(i32::MIN)));
    assert_eq!(d.try_set_gain(setting(49.6)), Ok(Gain::Tenths(496)));
}

#[test]
fn a_lost_device_stops_the_bring_up() {
    let mut board = Board::r828d();
    board.good_for = 20;
    assert_eq!(Driver::new(board, v4()).err(), Some(Error::Usb(UsbError::Pipe)));
}
