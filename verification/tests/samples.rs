use rtlsdr_next::converter::{convert, convert_inverted, Converter, ScalarConverter};
use rtlsdr_next::dsp::{
    split_iq, Decimator, DelayLine, GainStep, HangTimer, IqDecimator, Loudness,
};
use rtlsdr_next::stream::{decimated_len, drops};

const EPS: f32 = 1e-6;

fn values(levels: &[i16]) -> Vec<f32> {
    levels.iter().map(|&l| l as f32 / 255.0).collect()
}

fn check(input: &[u8], expected: &[f32]) {
    let mut levels = vec![0i16; input.len()];
    ScalarConverter.convert(input, &mut levels);
    let output = values(&levels);
    for (i, (&a, &e)) in output.iter().zip(expected.iter()).enumerate() {
        assert!((a - e).abs() < EPS, "at index {}: got {}, expected {}", i, a, e);
    }
}

#[test]
fn test_center_value() {
    // With 127.5, 127 is slightly negative, 128 is slightly positive.
    let mut levels = vec![0i16; 2];
    ScalarConverter.convert(&[127, 128], &mut levels);
    let output = values(&levels);
    assert!(output[0] < 0.0);
    assert!(output[1] > 0.0);
    assert!((output[0] + output[1]).abs() < EPS);
}

#[test]
fn test_max_value() {
    check(&[255], &[1.0]);
}

#[test]
fn test_min_value() {
    check(&[0], &[-1.0]);
}

#[test]
fn test_batch_boundary_values() {
    check(&[255, 0, 127], &[1.0, -1.0, (127.0 - 127.5) / 127.5]);
}

#[test]
fn test_batch_patterns() {
    let input: Vec<u8> = (0u8..=255).collect();
    let expected: Vec<f32> = input.iter().map(|&v| (v as f32 - 127.5) / 127.5).collect();
    check(&input, &expected);
}

#[test]
fn levels_divide_to_exactly_the_documented_values() {
    let input: Vec<u8> = (0u8..=255).collect();
    let mut levels = vec![0i16; 256];
    convert(&input, &mut levels);
    for (s, v) in input.iter().zip(values(&levels)) {
        assert_eq!(v, (*s as f32 - 127.5) / 127.5);
    }
}

#[test]
fn test_convert_inverted() {
    let input = vec![255u8, 0];
    // Standard: [1.0, -1.0]
    // Inverted: [1.0, 1.0]
    let expected = [1.0, 1.0];
    let mut levels = vec![0i16; input.len()];
    convert_inverted(&input, &mut levels);
    let output = values(&levels);
    for (i, (&a, &e)) in output.iter().zip(expected.iter()).enumerate() {
        assert!((a - e).abs() < EPS, "inverted[{}]: got {}, expected {}", i, a, e);
    }
    let mut levels = vec![0i16; 4];
    ScalarConverter.convert_inverted(&[0, 0, 200, 200], &mut levels);
    assert_eq!(levels, vec![-255, 255, 145, -145]);
}

// ── Decimator ───────────────────────────────────────────────────────────────

/// A windowed-sinc low-pass filter.
fn lowpass(num_taps: usize, cutoff: f32) -> Vec<f32> {
    let m = (num_taps - 1) as f32;
    let mut taps: Vec<f32> = (0..num_taps)
        .map(|i| {
            let n = i as f32 - m / 2.0;
            let sinc = if n == 0.0 {
                2.0 * cutoff
            } else {
                (2.0 * std::f32::consts::PI * cutoff * n).sin() / (std::f32::consts::PI * n)
            };
            let window = 0.54 - 0.46 * (2.0 * std::f32::consts::PI * i as f32 / m).cos();
            sinc * window
        })
        .collect();
    let sum: f32 = taps.iter().sum();
    taps.iter_mut().for_each(|t| *t /= sum);
    taps
}

fn dot(window: &[f32], taps: &[f32]) -> f32 {
    window.iter().zip(taps.iter()).map(|(s, t)| s * t).sum()
}

fn decimator(factor: usize, cutoff: f32, num_taps: usize) -> Decimator<f32> {
    Decimator::new(factor, lowpass(num_taps, cutoff), 0.0)
}

#[test]
fn test_dc_passthrough() {
    let mut dec = decimator(4, 0.1, 17);
    let input = vec![1.0f32; 128];
    let output = dec.process(&input, dot);
    assert_eq!(output.len(), 128 / 4);
    let skip = (17 / (2 * 4)) + 2;
    for &v in &output[skip..] {
        assert!((v - 1.0).abs() < 0.01, "DC passthrough failed: {}", v);
    }
}

#[test]
fn test_output_length() {
    let mut dec = decimator(8, 0.8 / 8.0, 12 * 8 + 1);
    let input = vec![0.0f32; 256];
    let out = dec.process(&input, dot);
    assert_eq!(out.len(), 256 / 8);
}

#[test]
fn test_nyquist_rejection() {
    let mut dec = decimator(4, 0.1, 63);
    let input: Vec<f32> = (0..512).map(|i| if i % 2 == 0 { 1.0 } else { -1.0 }).collect();
    let output = dec.process(&input, dot);
    let skip = (63 / (2 * 4)) + 2;
    for &v in &output[skip..] {
        assert!(v.abs() < 0.1, "Nyquist not rejected: {}", v);
    }
}

#[test]
fn test_block_boundary_continuity() {
    let signal: Vec<f32> =
        (0..512).map(|i| (i as f32 * 0.01 * std::f32::consts::PI).sin()).collect();

    let mut dec_one = decimator(4, 0.1, 17);
    let out_one = dec_one.process(&signal, dot);

    let mut dec_two = decimator(4, 0.1, 17);
    let mut out_two = dec_two.process(&signal[..256], dot);
    out_two.extend(dec_two.process(&signal[256..], dot));

    assert_eq!(out_one.len(), out_two.len());

    let skip = (17 / 2 / 4) + 1;
    for i in skip..out_one.len() {
        assert!(
            (out_one[i] - out_two[i]).abs() < 1e-5,
            "Block boundary mismatch at output[{}]: {} vs {}",
            i,
            out_one[i],
            out_two[i]
        );
    }
}

#[test]
fn uneven_blocks_give_the_same_outputs() {
    let signal: Vec<i64> = (1..100).collect();
    let sum = |w: &[i64], t: &[i64]| w.iter().zip(t).map(|(a, b)| a * b).sum::<i64>();
    let mut whole = Decimator::new(3, vec![1i64, 10, 100, 1000], 0);
    let expected = whole.process(&signal, sum);
    let mut pieces = Decimator::new(3, vec![1i64, 10, 100, 1000], 0);
    let mut got = Vec::new();
    for block in [&signal[..1], &signal[1..3], &signal[3..3], &signal[3..50], &signal[50..]] {
        got.extend(pieces.process(block, sum));
    }
    assert_eq!(got, expected);
    assert_eq!(pieces.phase, whole.phase);
    assert_eq!(pieces.history, whole.history);
    // The first outputs see the silent history.
    assert_eq!(expected[0], 1000);
    assert_eq!(expected[1], 1 + 20 + 300 + 4000);
}

#[test]
fn test_reset_clears_state() {
    let mut dec = decimator(4, 0.1, 17);
    let signal = vec![1.0f32; 64];
    let _ = dec.process(&signal, dot);
    dec.reset(0.0);

    let mut dec2 = decimator(4, 0.1, 17);
    let out1 = dec.process(&signal, dot);
    let out2 = dec2.process(&signal, dot);

    for (a, b) in out1.iter().zip(out2.iter()) {
        assert!((a - b).abs() < 1e-5, "Post-reset mismatch: {} vs {}", a, b);
    }
}

#[test]
fn test_decimator_update_cutoff() {
    let mut dec = decimator(4, 0.1, 17);
    let taps_orig = dec.taps.clone();
    let history = dec.history.clone();
    dec.set_taps(lowpass(17, 0.2));
    assert_ne!(dec.taps, taps_orig);
    assert_eq!(dec.taps.len(), 17);
    assert_eq!(dec.history, history);
}

#[test]
fn outputs_replace_what_was_there() {
    let mut dec = Decimator::new(2, vec![1i64], 0);
    let mut out = vec![9, 9, 9];
    dec.process_into(&[5, 6, 7], &mut out, |w: &[i64], t: &[i64]| w[0] * t[0]);
    assert_eq!(out, vec![5, 7]);
    assert_eq!(dec.phase, 1);
}

#[test]
fn i_and_q_are_decimated_apart() {
    let sum = |w: &[i64], t: &[i64]| w.iter().zip(t).map(|(a, b)| a * b).sum::<i64>();
    let mut dec = IqDecimator::new(2, vec![1i64], 0);
    assert_eq!(dec.process(&[1, 10, 2, 20, 3, 30], sum), vec![1, 10, 3, 30]);
    // The phase goes on in the next block.
    assert_eq!(dec.process_split(&[4, 5], &[40, 50], sum), vec![5, 50]);
    dec.set_taps(vec![3]);
    assert_eq!(dec.process(&[6, 60, 7, 70], sum), vec![21, 210]);
    dec.reset(0);
    assert_eq!(dec.process(&[6, 60, 7, 70], sum), vec![18, 180]);
}

#[test]
fn a_reset_filter_goes_on_as_a_new_one() {
    let sum = |w: &[i64], t: &[i64]| w.iter().zip(t).map(|(a, b)| a * b).sum::<i64>();
    let mut used = Decimator::new(3, vec![1i64, 10, 100], 0);
    let _ = used.process(&[9, 8, 7, 6, 5], sum);
    used.reset(0);
    let mut new = Decimator::new(3, vec![1i64, 10, 100], 0);
    for block in [&[1i64, 2][..], &[3, 4, 5, 6, 7], &[], &[8]] {
        assert_eq!(used.process(block, sum), new.process(block, sum));
    }
}

#[test]
fn flushing_drops_samples_but_no_errors() {
    assert!(drops(true, true));
    assert!(!drops(true, false));
    assert!(!drops(false, true));
    assert!(!drops(false, false));
}

#[test]
fn decimated_blocks_fit_their_buffers() {
    assert_eq!(decimated_len(262_144, 8), 32_784);
    let keep = |w: &[i64], _: &[i64]| w[0];
    for factor in [2, 3, 8] {
        let mut dec = IqDecimator::new(factor, vec![1i64], 0);
        let block = vec![0i64; 64];
        assert!(dec.process(&block, keep).len() <= decimated_len(64, factor));
    }
}

#[test]
fn delay_lines_delay() {
    let mut line = DelayLine::new(3, 0);
    assert_eq!(line.process(&[1, 2]), vec![0, 0]);
    assert_eq!(line.process(&[3, 4, 5, 6]), vec![0, 1, 2, 3]);
    assert_eq!(line.process(&[]), Vec::<i32>::new());
    assert_eq!(line.process(&[7]), vec![4]);
}

#[test]
fn the_gain_is_held_for_the_hang_time() {
    let mut timer = HangTimer::new(3);
    assert_eq!(timer.step(Loudness::Quieter), GainStep::Decay);
    assert_eq!(timer.step(Loudness::Louder), GainStep::Attack);
    assert_eq!(timer.step(Loudness::Quieter), GainStep::Hold);
    assert_eq!(timer.step(Loudness::DeadAir), GainStep::Freeze);
    assert_eq!(timer.step(Loudness::Quieter), GainStep::Hold);
    assert_eq!(timer.step(Loudness::Quieter), GainStep::Decay);
    assert_eq!(timer.step(Loudness::DeadAir), GainStep::Freeze);
}

/// An audio AGC around the timer.
struct AudioAgc {
    gain: f32,
    target: f32,
    attack: f32,
    decay: f32,
    min_magnitude: f32,
    envelope: f32,
    timer: HangTimer,
}

impl AudioAgc {
    fn process(&mut self, data: &mut [f32]) {
        for val in data.iter_mut() {
            let mag = val.abs();
            self.envelope =
                if mag > self.envelope { mag } else { 0.999 * self.envelope + 0.001 * mag };
            let error = self.target / (self.envelope + 1e-6);
            let loudness = if self.envelope < self.min_magnitude {
                Loudness::DeadAir
            } else if error < self.gain {
                Loudness::Louder
            } else {
                Loudness::Quieter
            };
            match self.timer.step(loudness) {
                GainStep::Freeze | GainStep::Hold => {}
                GainStep::Attack => {
                    self.gain = (1.0 - self.attack) * self.gain + self.attack * error;
                }
                GainStep::Decay => {
                    self.gain = (1.0 - self.decay) * self.gain + self.decay * error;
                }
            }
            *val *= self.gain;
        }
    }
}

#[test]
fn test_audio_agc_hang_time() {
    let mut agc = AudioAgc {
        gain: 1.0,
        target: 1.0,
        attack: 1.0,
        decay: 0.01,
        min_magnitude: 0.01,
        envelope: 0.0,
        timer: HangTimer::new((10.0 * 1000.0 / 1000.0) as usize),
    };

    let mut data = vec![1.0f32; 1];
    agc.process(&mut data);
    assert!((data[0] - 1.0).abs() < 0.1);

    let mut silence = vec![0.0f32; 5];
    agc.process(&mut silence);
    assert!((agc.gain - 1.0).abs() < 1e-5);

    let mut noise = vec![0.02f32; 20];
    agc.process(&mut noise);
    assert!(agc.gain > 1.0);
}

/// The coefficients of a filter that shifts the phase by 90 degrees.
fn hilbert(num_taps: usize) -> Vec<f32> {
    let pi = std::f32::consts::PI;
    let span = (num_taps - 1) as f32;
    (0..num_taps)
        .map(|i| {
            let n = i as i32 - (num_taps / 2) as i32;
            if n % 2 == 0 {
                return 0.0;
            }
            let w = 0.35875 - 0.48829 * (2.0 * pi * i as f32 / span).cos()
                + 0.14128 * (4.0 * pi * i as f32 / span).cos()
                - 0.01168 * (6.0 * pi * i as f32 / span).cos();
            2.0 / (pi * n as f32) * w
        })
        .collect()
}

/// The phasing method: the delayed I with the shifted Q added or subtracted.
fn sideband(input: &[f32], upper: bool) -> Vec<f32> {
    let mut filter = Decimator::new(1, hilbert(65), 0.0);
    let mut delay = DelayLine::new(32, 0.0);
    let (i_branch, q_branch) = split_iq(input);
    let q_shifted = filter.process(&q_branch, dot);
    let i_delayed = delay.process(&i_branch);
    i_delayed.iter().zip(q_shifted).map(|(i, q)| if upper { i + q } else { i - q }).collect()
}

#[test]
fn test_ssb_demod_suppression() {
    let fs = 48000.0;
    let f = 1000.0;
    let mut input = Vec::new();
    for i in 0..1000 {
        let t = i as f32 / fs;
        let i_val = (2.0 * std::f32::consts::PI * f * t).cos();
        let q_val = (2.0 * std::f32::consts::PI * f * t).sin();
        input.push(i_val);
        input.push(q_val);
    }

    let out_usb = sideband(&input, true);
    let out_lsb = sideband(&input, false);

    let start = 100;
    let mut usb_energy = 0.0;
    let mut lsb_energy = 0.0;
    for i in start..900 {
        usb_energy += out_usb[i] * out_usb[i];
        lsb_energy += out_lsb[i] * out_lsb[i];
    }

    assert!(
        usb_energy > 10.0 * lsb_energy,
        "LSB should be suppressed in USB mode. USB: {}, LSB: {}",
        usb_energy,
        lsb_energy
    );
}
