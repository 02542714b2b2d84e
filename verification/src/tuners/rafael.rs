//! What the Rafael Micro tuners R820T and R828D share: register defaults, gain
//! and band tables, and the arithmetic of their fractional-N PLL.
use crate::tuner;
use vstd::arithmetic::power2::{lemma2_to64, pow2};
use vstd::prelude::*;

verus! {

/// Number of registers that a driver keeps a shadow of.
pub const NUM_REGS: usize = 27;

/// The first of these registers.
pub const REG_SHADOW_START: u8 = 0x05;

/// The range of the VCO, in Hz: the upper end is outside it.
pub const VCO_MIN: u64 = 1_770_000_000;

pub const VCO_MAX: u64 = 3_600_000_000;

/// The intermediate frequency for sample rates below 2.5 MSPS, in Hz.
pub const IF_FREQ_NARROW: u64 = 2_300_000;

/// The gain steps, in tenths of a decibel.
pub const GAIN_STEPS: [i32; 29] = [
    0, 9, 14, 27, 37, 77, 87, 125, 144, 157, 166, 197, 207, 229, 254, 280, 297, 328, 338, 364, 372,
    386, 402, 421, 434, 439, 445, 480, 496,
];

/// The settings of the low-noise amplifier, the mixer and the variable-gain
/// amplifier at each gain step.
pub const GAIN_TABLE: [(u8, u8, u8); 29] = [
    (0, 0, 0),
    (1, 0, 2),
    (2, 0, 2),
    (3, 0, 2),
    (4, 1, 3),
    (5, 1, 3),
    (6, 2, 4),
    (7, 2, 4),
    (8, 3, 5),
    (9, 3, 5),
    (10, 4, 6),
    (11, 4, 6),
    (12, 5, 7),
    (13, 5, 7),
    (14, 6, 8),
    (15, 6, 8),
    (15, 7, 9),
    (15, 7, 9),
    (15, 8, 10),
    (15, 8, 10),
    (15, 9, 11),
    (15, 9, 11),
    (15, 10, 12),
    (15, 10, 12),
    (15, 11, 13),
    (15, 11, 13),
    (15, 12, 14),
    (15, 12, 14),
    (15, 13, 15),
];

/// Register contents after initialization.
pub const INIT_ARRAY: [u8; 27] = [
    0x83, 0x30, 0x75, 0xc0, 0x40, 0xd6, 0x6c, 0xf5, 0x63, 0x75, 0x68, 0x6c, 0x83, 0x80, 0x00, 0x0f,
    0x00, 0xc0, 0x30, 0x48, 0xcc, 0x60, 0x00, 0x54, 0xae, 0x4a, 0xc0,
];

/// The front-end settings of the band that starts at `freq_hz`.
#[derive(Debug, Clone, Copy, PartialEq, Eq, Structural)]
pub struct FreqRange {
    pub freq_hz: u64,
    pub open_d: u8,
    pub rf_mux_ploy: u8,
    pub tf_c: u8,
    pub xtal_cap_sel: u8,
}

/// Of each band the lowest frequency, `open_d`, `rf_mux_ploy`, `tf_c` and
/// `xtal_cap_sel`.
pub const FREQ_RANGES: [(u64, u8, u8, u8, u8); 21] = [
    (0, 0x08, 0x02, 0xdf, 0),
    (50_000_000, 0x08, 0x02, 0xbe, 0),
    (55_000_000, 0x08, 0x02, 0x8b, 0),
    (60_000_000, 0x08, 0x02, 0x7b, 0),
    (65_000_000, 0x08, 0x02, 0x69, 0),
    (70_000_000, 0x08, 0x02, 0x58, 0),
    (75_000_000, 0x00, 0x02, 0x44, 0),
    (80_000_000, 0x00, 0x02, 0x44, 0),
    (90_000_000, 0x00, 0x02, 0x34, 0),
    (100_000_000, 0x00, 0x02, 0x34, 0),
    (110_000_000, 0x00, 0x02, 0x24, 0),
    (120_000_000, 0x00, 0x02, 0x24, 0),
    (140_000_000, 0x00, 0x02, 0x14, 0),
    (180_000_000, 0x00, 0x02, 0x13, 0),
    (220_000_000, 0x00, 0x02, 0x13, 0),
    (250_000_000, 0x00, 0x02, 0x11, 0),
    (280_000_000, 0x00, 0x02, 0x00, 0),
    (310_000_000, 0x00, 0x41, 0x00, 0),
    (450_000_000, 0x00, 0x41, 0x00, 0),
    (588_000_000, 0x00, 0x40, 0x00, 0),
    (650_000_000, 0x00, 0x40, 0x00, 0),
];

/// The crystal load capacitor settings.
pub const XTAL_CAP_SEL: [u8; 5] = [0x0b, 0x0b, 0x0b, 0x0b, 0x00];

// ── Gain ────────────────────────────────────────────────────────────────────
/// Whether a gain step can be chosen for `tenths`.
pub fn is_gain_settable(tenths: i32) -> (b: bool)
    ensures
        b == tuner::distances_fit(GAIN_STEPS@, tenths),
{
    let b = tenths >= 496 - i32::MAX;
    assert(b == tuner::distances_fit(GAIN_STEPS@, tenths)) by {
        assert(GAIN_STEPS@[28] == 496);
        assert(forall|j: int| 0 <= j < 29 ==> 0 <= #[trigger] GAIN_STEPS@[j] <= 496);
    }
    b
}

/// Every gain step is the step nearest to itself, so choosing a step by its
/// number and by its gain come to the same.
pub proof fn lemma_step_nearest_itself(idx: int)
    requires
        0 <= idx < 29,
    ensures
        tuner::nearest(GAIN_STEPS@, GAIN_STEPS@[idx]) == idx,
{
    let steps = GAIN_STEPS@;
    assert(forall|i: int, j: int| 0 <= i < j < 29 ==> steps[i] < steps[j]);
    assert(tuner::is_nearest_step(steps, steps[idx], idx));
    tuner::lemma_nearest_step_unique(
        steps,
        steps[idx],
        idx,
        tuner::nearest(steps, steps[idx]),
    );
}

/// The gain steps rise from 0 dB to 49.6 dB.
pub proof fn lemma_steps_rise(a: int, b: int)
    requires
        0 <= a < b < 29,
    ensures
        GAIN_STEPS@.len() == 29,
        GAIN_STEPS@[0] == 0,
        GAIN_STEPS@[28] == 496,
        GAIN_STEPS@[a] < GAIN_STEPS@[b],
{
    let steps = GAIN_STEPS@;
    assert(forall|i: int, j: int| 0 <= i < j < 29 ==> steps[i] < steps[j]);
}

/// How a gain step is made up: each step adds one to the low-noise amplifier's setting until
/// that is at its highest, 15; every second step, from the fourth on, adds one to the
/// mixer's and to the variable-gain amplifier's, which start from 0 and from 2.
pub proof fn lemma_gain_made_up(idx: int)
    requires
        0 <= idx < 29,
    ensures
        ({
            let (lna, mix, vga) = GAIN_TABLE[idx];
            &&& lna == if idx < 15 {
                idx
            } else {
                15
            }
            &&& mix == if idx < 4 {
                0
            } else {
                idx / 2 - 1
            }
            &&& vga == if idx == 0 {
                0
            } else if idx < 4 {
                2
            } else {
                idx / 2 + 1
            }
        }),
{
    assert(forall|i: int|
        0 <= i < 29 ==> {
            let (lna, mix, vga) = #[trigger] GAIN_TABLE[i];
            lna == (if i < 15 {
                i
            } else {
                15
            }) && mix == (if i < 4 {
                0
            } else {
                i / 2 - 1
            }) && vga == (if i == 0 {
                0
            } else if i < 4 {
                2
            } else {
                i / 2 + 1
            })
        });
}

// ── Registers ───────────────────────────────────────────────────────────────
/// What a register holds once the bits of `mask` have been replaced by those of
/// `val`.
pub open spec fn masked(old_val: u8, val: u8, mask: u8) -> u8 {
    (old_val & !mask) | (val & mask)
}

/// A masked write replaces the bits of `mask` and leaves the others as they are.
pub proof fn lemma_masked(old_val: u8, val: u8, mask: u8)
    ensures
        masked(old_val, val, mask) & mask == val & mask,
        masked(old_val, val, mask) & !mask == old_val & !mask,
{
    assert(((old_val & !mask) | (val & mask)) & mask == val & mask && ((old_val & !mask) | (val
        & mask)) & !mask == old_val & !mask) by (bit_vector);
}

// ── Bands ───────────────────────────────────────────────────────────────────
/// Whether band `i` is the one that `freq_hz` lies in: the last that starts at
/// or below it.
pub open spec fn is_band(freq_hz: u64, i: int) -> bool {
    &&& 0 <= i < 21
    &&& FREQ_RANGES[i].0 <= freq_hz
    &&& forall|j: int| i < j < 21 ==> freq_hz < (#[trigger] FREQ_RANGES[j]).0
}

/// The settings of the band that `freq_hz` lies in.
pub open spec fn band_of(freq_hz: u64) -> FreqRange {
    let row = FREQ_RANGES[choose|i: int| is_band(freq_hz, i)];
    FreqRange {
        freq_hz: row.0,
        open_d: row.1,
        rf_mux_ploy: row.2,
        tf_c: row.3,
        xtal_cap_sel: row.4,
    }
}

/// Looks up the band that `freq_hz` lies in.
pub fn find_band(freq_hz: u64) -> (range: FreqRange)
    ensures
        range == band_of(freq_hz),
        range.xtal_cap_sel == 0,
{
    let mut i: usize = 20;
    while i > 0 && freq_hz < FREQ_RANGES[i].0
        invariant
            i <= 20,
            forall|j: int| i < j < 21 ==> freq_hz < (#[trigger] FREQ_RANGES[j]).0,
        decreases i,
    {
        i = i - 1;
    }
    let row = FREQ_RANGES[i];
    proof {
        assert(FREQ_RANGES[0].0 == 0);
        assert(is_band(freq_hz, i as int));
        lemma_one_band(freq_hz, i as int, choose|k: int| is_band(freq_hz, k));
    }
    FreqRange {
        freq_hz: row.0,
        open_d: row.1,
        rf_mux_ploy: row.2,
        tf_c: row.3,
        xtal_cap_sel: row.4,
    }
}

/// No frequency lies in two bands.
pub proof fn lemma_one_band(freq_hz: u64, a: int, b: int)
    requires
        is_band(freq_hz, a),
        is_band(freq_hz, b),
    ensures
        a == b,
{
    if a < b {
        assert(freq_hz < FREQ_RANGES[b].0);
    } else if b < a {
        assert(freq_hz < FREQ_RANGES[a].0);
    }
}

/// The front end by frequency: below 310 MHz, from there, and from 588 MHz on the mixer has
/// inputs of its own; up to 75 MHz the low-pass filter's drain is open; and the tracking
/// filter's capacitors are taken away as the frequency rises, until none is left at
/// 280 MHz.
pub proof fn lemma_front_end_by_frequency(freq_hz: u64)
    ensures
        ({
            let range = band_of(freq_hz);
            let mhz = freq_hz / 1_000_000;
            &&& range.open_d == if mhz < 75 {
                0x08int
            } else {
                0
            }
            &&& range.rf_mux_ploy == if mhz < 310 {
                0x02int
            } else if mhz < 588 {
                0x41
            } else {
                0x40
            }
            &&& range.tf_c == if mhz < 50 {
                0xdfint
            } else if mhz < 55 {
                0xbe
            } else if mhz < 60 {
                0x8b
            } else if mhz < 65 {
                0x7b
            } else if mhz < 70 {
                0x69
            } else if mhz < 75 {
                0x58
            } else if mhz < 90 {
                0x44
            } else if mhz < 110 {
                0x34
            } else if mhz < 140 {
                0x24
            } else if mhz < 180 {
                0x14
            } else if mhz < 250 {
                0x13
            } else if mhz < 280 {
                0x11
            } else {
                0
            }
            &&& range.xtal_cap_sel == 0
            &&& range.freq_hz <= freq_hz
        }),
{
    let i = if freq_hz >= 650_000_000 {
        20int
    } else if freq_hz >= 588_000_000 {
        19
    } else if freq_hz >= 450_000_000 {
        18
    } else if freq_hz >= 310_000_000 {
        17
    } else if freq_hz >= 280_000_000 {
        16
    } else if freq_hz >= 250_000_000 {
        15
    } else if freq_hz >= 220_000_000 {
        14
    } else if freq_hz >= 180_000_000 {
        13
    } else if freq_hz >= 140_000_000 {
        12
    } else if freq_hz >= 120_000_000 {
        11
    } else if freq_hz >= 110_000_000 {
        10
    } else if freq_hz >= 100_000_000 {
        9
    } else if freq_hz >= 90_000_000 {
        8
    } else if freq_hz >= 80_000_000 {
        7
    } else if freq_hz >= 75_000_000 {
        6
    } else if freq_hz >= 70_000_000 {
        5
    } else if freq_hz >= 65_000_000 {
        4
    } else if freq_hz >= 60_000_000 {
        3
    } else if freq_hz >= 55_000_000 {
        2
    } else if freq_hz >= 50_000_000 {
        1
    } else {
        0
    };
    assert(is_band(freq_hz, i));
    lemma_one_band(freq_hz, i, choose|k: int| is_band(freq_hz, k));
}

/// A higher frequency never gets more of the tracking filter's capacitors.
pub proof fn lemma_tracking_filter_falls(a: u64, b: u64)
    requires
        a <= b,
    ensures
        band_of(b).tf_c <= band_of(a).tf_c,
{
    lemma_front_end_by_frequency(a);
    lemma_front_end_by_frequency(b);
}

// ── PLL ─────────────────────────────────────────────────────────────────────
pub open spec fn in_vco_range(vco: int) -> bool {
    VCO_MIN <= vco < VCO_MAX
}

/// The mixer divider with the code `code`: 2 for 0, 4 for 1, up to 64 for 5.
pub open spec fn mix_div(code: int) -> int {
    if code <= 0 {
        2
    } else if code == 1 {
        4
    } else if code == 2 {
        8
    } else if code == 3 {
        16
    } else if code == 4 {
        32
    } else {
        64
    }
}

/// The code of the smallest mixer divider that puts the VCO into its range when
/// the local oscillator runs at `lo_hz`, if there is one.
pub open spec fn divider_code(lo_hz: int) -> Option<u8> {
    if in_vco_range(lo_hz * 2) {
        Some(0u8)
    } else if in_vco_range(lo_hz * 4) {
        Some(1u8)
    } else if in_vco_range(lo_hz * 8) {
        Some(2u8)
    } else if in_vco_range(lo_hz * 16) {
        Some(3u8)
    } else if in_vco_range(lo_hz * 32) {
        Some(4u8)
    } else if in_vco_range(lo_hz * 64) {
        Some(5u8)
    } else {
        None
    }
}

/// The local oscillator can run at every frequency from 27.65625 MHz up to, but
/// not including, 1.8 GHz, and at no other.
pub proof fn lemma_oscillator_range(lo_hz: int)
    ensures
        divider_code(lo_hz) is Some <==> 27_656_250 <= lo_hz < 1_800_000_000,
{
}

/// The code is that of the smallest power of two, from 2 for code 0 to 64 for code 5, that
/// puts the VCO between 1.77 GHz and 3.6 GHz: with half of it the VCO would run too slow.
pub proof fn lemma_divider_is_power_of_two(lo_hz: int)
    ensures
        divider_code(lo_hz) matches Some(code) ==> {
            let vco = lo_hz * pow2((code + 1) as nat);
            &&& code <= 5
            &&& 1_770_000_000 <= vco < 3_600_000_000
            &&& code > 0 ==> vco < 2 * 1_770_000_000
            &&& vco == lo_hz * mix_div(code as int)
        },
{
    lemma2_to64();
}

/// Chooses the mixer divider: its code and the VCO frequency that goes with it.
pub fn select_divider(lo_hz: u64) -> (r: Option<(u8, u64)>)
    requires
        lo_hz * 64 <= u64::MAX,
    ensures
        match divider_code(lo_hz as int) {
            Some(code) => r == Some((code, (lo_hz * mix_div(code as int)) as u64)) && code <= 5
                && in_vco_range(lo_hz * mix_div(code as int)),
            None => r is None,
        },
        r matches Some((code, vco)) ==> code <= 5 && vco == lo_hz * pow2((code + 1) as nat)
            && 1_770_000_000 <= vco < 3_600_000_000,
{
    let mut div: u64 = 2;
    let mut code: u8 = 0;
    while code < 6
        invariant
            lo_hz * 64 <= u64::MAX,
            code <= 6,
            code < 6 ==> div == mix_div(code as int),
            1 <= code ==> !in_vco_range(lo_hz * 2),
            2 <= code ==> !in_vco_range(lo_hz * 4),
            3 <= code ==> !in_vco_range(lo_hz * 8),
            4 <= code ==> !in_vco_range(lo_hz * 16),
            5 <= code ==> !in_vco_range(lo_hz * 32),
            6 <= code ==> !in_vco_range(lo_hz * 64),
        decreases 6 - code,
    {
        assert(div == 2 || div == 4 || div == 8 || div == 16 || div == 32 || div == 64);
        assert(lo_hz * div <= lo_hz * 64) by (nonlinear_arith)
            requires
                div <= 64,
        ;
        let vco: u64 = lo_hz * div;
        if VCO_MIN <= vco && vco < VCO_MAX {
            proof {
                lemma2_to64();
            }
            return Some((code, vco));
        }
        if code < 5 {
            div = div * 2;
        }
        code = code + 1;
    }
    None
}

/// The settings of the PLL's feedback divider: the integer part is
/// `4 * ni + si + 13`, and `sdm` is the fraction in units of 1/65536.
#[derive(Debug, Clone, Copy, PartialEq, Eq, Structural)]
pub struct Synthesis {
    pub ni: u8,
    pub si: u8,
    pub sdm: u16,
    /// Whether there is no fractional part, so that the sigma-delta modulator
    /// can be powered down.
    pub integer: bool,
}

/// The greatest integer part of the feedback divider.
pub open spec fn nint_limit(vco_power_ref: u8) -> int {
    128int / vco_power_ref as int - 1
}

/// The integer part of the feedback divider.
pub open spec fn nint(vco_hz: int, pll_ref_hz: int) -> int {
    vco_hz / (2 * pll_ref_hz)
}

/// By how much the VCO is above the integer part's multiple of twice the
/// reference, in kHz.
pub open spec fn fraction_khz(vco_hz: int, pll_ref_hz: int) -> int {
    vco_hz % (2 * pll_ref_hz) / 1000
}

/// What the weights `2 * ref_khz / n`, `2 * ref_khz / 2n`, ... (rounded down)
/// make up of `left_khz`, each taken when it is less than what is left; taking
/// `2 * ref_khz / n` counts `65536 / n`. The series ends when at most 1 kHz is
/// left, or with the first weight taken from `n = 0x8000` on.
pub open spec fn sdm_series(left_khz: int, ref_khz: int, n: int) -> int
    decreases
            (if ref_khz < 0x8000 {
                0x1_0000
            } else {
                2 * ref_khz
            }) - n,
    when n > 0
{
    if left_khz <= 1 {
        0
    } else if left_khz > 2 * ref_khz / n {
        if n >= 0x8000 {
            32768int / (n / 2)
        } else {
            32768int / (n / 2) + sdm_series(left_khz - 2 * ref_khz / n, ref_khz, 2 * n)
        }
    } else {
        proof {
            lemma_small_divisor(left_khz, ref_khz, n);
        }
        sdm_series(left_khz, ref_khz, 2 * n)
    }
}

/// A weight of at least 2 kHz has a divisor of at most `ref_khz`.
pub proof fn lemma_small_divisor(left_khz: int, ref_khz: int, n: int)
    requires
        n > 0,
        2 <= left_khz <= 2 * ref_khz / n,
    ensures
        n <= ref_khz,
{
    assert(n <= ref_khz) by (nonlinear_arith)
        requires
            n > 0,
            2 <= 2 * ref_khz / n,
    ;
}

/// The settings that put the VCO at `vco_hz`, if the feedback divider can have
/// that integer part.
pub open spec fn synthesis(vco_hz: int, pll_ref_hz: int, vco_power_ref: u8) -> Option<Synthesis> {
    let int_part = nint(vco_hz, pll_ref_hz);
    let fraction = fraction_khz(vco_hz, pll_ref_hz);
    if int_part > nint_limit(vco_power_ref) {
        None
    } else {
        Some(
            Synthesis {
                ni: ((int_part - 13) / 4) as u8,
                si: ((int_part - 13) % 4) as u8,
                sdm: sdm_series(fraction, pll_ref_hz / 1000, 2) as u16,
                integer: fraction == 0,
            },
        )
    }
}

/// Whether the arithmetic of [`synthesize`] is possible: the integer part is at
/// least 13 unless it is over the limit.
pub open spec fn can_synthesize(vco_hz: int, pll_ref_hz: int, vco_power_ref: u8) -> bool {
    &&& 0 < pll_ref_hz
    &&& 2 * pll_ref_hz <= u64::MAX
    &&& nint(vco_hz, pll_ref_hz) <= nint_limit(vco_power_ref) ==> nint(vco_hz, pll_ref_hz) >= 13
}

/// What taking the weight with divisor `n` counts: `65536 / n` for the powers of
/// two from 2 to 0x10000.
spec fn is_count(n: int, count: int) -> bool {
    ||| n == 2 && count == 0x8000
    ||| n == 4 && count == 0x4000
    ||| n == 8 && count == 0x2000
    ||| n == 0x10 && count == 0x1000
    ||| n == 0x20 && count == 0x800
    ||| n == 0x40 && count == 0x400
    ||| n == 0x80 && count == 0x200
    ||| n == 0x100 && count == 0x100
    ||| n == 0x200 && count == 0x80
    ||| n == 0x400 && count == 0x40
    ||| n == 0x800 && count == 0x20
    ||| n == 0x1000 && count == 0x10
    ||| n == 0x2000 && count == 8
    ||| n == 0x4000 && count == 4
    ||| n == 0x8000 && count == 2
    ||| n == 0x1_0000 && count == 1
}

proof fn lemma_count(n: int, count: int)
    requires
        is_count(n, count) || (n >= 0x2_0000 && count == 0),
    ensures
        32768int / (n / 2) == count,
{
    let h = n / 2;
    if count == 0 {
        vstd::arithmetic::div_mod::lemma_basic_div(32768, h);
    } else {
        assert(h * count == 32768);
        vstd::arithmetic::div_mod::lemma_div_multiples_vanish(count, h);
    }
}

/// The fraction of the feedback divider, in units of 1/65536.
fn sdm_fraction(fraction_khz: u64, ref_khz: u64) -> (sdm: u16)
    requires
        ref_khz <= 0x1000_0000,
    ensures
        sdm == sdm_series(fraction_khz as int, ref_khz as int, 2),
{
    let mut left: u64 = fraction_khz;
    let mut sdm: u32 = 0;
    let mut n: u32 = 2;
    let ghost total = sdm_series(fraction_khz as int, ref_khz as int, 2);
    let ghost mut count: int = 0x8000;
    while left > 1
        invariant_except_break
            sdm + sdm_series(left as int, ref_khz as int, n as int) == total,
            n <= 0x2000_0000,
            is_count(n as int, count) || (n >= 0x2_0000 && count == 0),
            sdm + 2 * count <= 65536,
            sdm <= 65535,
        invariant
            ref_khz <= 0x1000_0000,
        ensures
            sdm == total,
            sdm <= 65535,
        decreases 0x4000_0000 - n,
    {
        let weight: u64 = 2 * ref_khz / n as u64;
        proof {
            lemma_count(n as int, count);
        }
        if left > weight {
            sdm = sdm + 32768 / (n / 2);
            left = left - weight;
            if n >= 0x8000 {
                break;
            }
        } else {
            proof {
                lemma_small_divisor(left as int, ref_khz as int, n as int);
            }
        }
        n = n * 2;
        proof {
            count = count / 2;
        }
    }
    sdm as u16
}

/// Splits the VCO frequency into the settings of the feedback divider.
pub fn synthesize(vco_hz: u64, pll_ref_hz: u64, vco_power_ref: u8) -> (r: Option<Synthesis>)
    requires
        in_vco_range(vco_hz as int),
        vco_power_ref == 1 || vco_power_ref == 2,
        can_synthesize(vco_hz as int, pll_ref_hz as int, vco_power_ref),
    ensures
        r == synthesis(vco_hz as int, pll_ref_hz as int, vco_power_ref),
        r matches Some(s) ==> s.ni <= 28 && s.si <= 3,
{
    let step: u64 = 2 * pll_ref_hz;
    let int_part: u64 = vco_hz / step;
    let fraction: u64 = vco_hz % step / 1000;
    let limit: u64 = 128 / vco_power_ref as u64 - 1;
    if int_part > limit {
        return None;
    }
    proof {
        assert(step <= vco_hz) by (nonlinear_arith)
            requires
                vco_hz / step >= 13,
                step > 0,
        ;
    }
    let ni: u8 = ((int_part - 13) / 4) as u8;
    let si: u8 = ((int_part - 13) % 4) as u8;
    let sdm: u16 = sdm_fraction(fraction, pll_ref_hz / 1000);
    Some(Synthesis { ni, si, sdm, integer: fraction == 0 })
}

/// Whether the arithmetic of setting the PLL is possible.
pub open spec fn can_set_pll(lo_hz: int, pll_ref_hz: int, vco_power_ref: u8) -> bool {
    &&& lo_hz * 64 <= u64::MAX
    &&& divider_code(lo_hz) matches Some(code) ==> can_synthesize(
        lo_hz * mix_div(code as int),
        pll_ref_hz,
        vco_power_ref,
    )
}

/// Whether the PLL can be asked to run at `lo_hz`.
pub fn is_pll_settable(lo_hz: u64, pll_ref_hz: u64, vco_power_ref: u8) -> (b: bool)
    requires
        vco_power_ref == 1 || vco_power_ref == 2,
    ensures
        b == can_set_pll(lo_hz as int, pll_ref_hz as int, vco_power_ref),
{
    if lo_hz > u64::MAX / 64 {
        return false;
    }
    match select_divider(lo_hz) {
        None => true,
        Some((_, vco_hz)) => {
            if pll_ref_hz == 0 || pll_ref_hz > u64::MAX / 2 {
                return false;
            }
            let int_part: u64 = vco_hz / (2 * pll_ref_hz);
            int_part > 128 / vco_power_ref as u64 - 1 || int_part >= 13
        },
    }
}

/// The divider code once the VCO's own fine tuning is known.
pub open spec fn adjusted_code(code: u8, fine_tune: u8, power: u8) -> u8 {
    if fine_tune > power && code > 0 {
        (code - 1) as u8
    } else if fine_tune < power {
        (code + 1) as u8
    } else {
        code
    }
}

/// Corrects the divider code by the VCO's own fine tuning.
pub fn adjust_code(code: u8, fine_tune: u8, power: u8) -> (r: u8)
    requires
        code <= 5,
    ensures
        r == adjusted_code(code, fine_tune, power),
        r <= 6,
{
    if fine_tune > power && code > 0 {
        code - 1
    } else if fine_tune < power {
        code + 1
    } else {
        code
    }
}

// ── Accuracy ────────────────────────────────────────────────────────────────
/// How far the series from `n` on can be off, when `steps` doublings lead from
/// `n` to 0x8000 and at most twice the weight and `slack` are left.
proof fn lemma_series_error(
    left: int,
    ref_khz: int,
    n: int,
    count: int,
    steps: int,
    slack: int,
)
    requires
        ref_khz >= 0,
        is_count(n, count) || (n >= 0x2_0000 && count == 0),
        0 <= steps,
        n < 0x8000 ==> steps >= 1 && steps + slack <= 15,
        n == 0x8000 ==> steps == 0 && slack <= 15,
        n > 0x8000 ==> steps == 0 && slack <= 1,
        1 <= slack,
        0 <= left <= 2 * (2 * ref_khz / n) + slack,
        // `steps` counts the doublings: 2^steps * n == 0x8000.
        n == 0x4000 ==> steps == 1,
        n == 0x2000 ==> steps == 2,
        n == 0x1000 ==> steps == 3,
        n == 0x800 ==> steps == 4,
        n == 0x400 ==> steps == 5,
        n == 0x200 ==> steps == 6,
        n == 0x100 ==> steps == 7,
        n == 0x80 ==> steps == 8,
        n == 0x40 ==> steps == 9,
        n == 0x20 ==> steps == 10,
        n == 0x10 ==> steps == 11,
        n == 8 ==> steps == 12,
        n == 4 ==> steps == 13,
        n == 2 ==> steps == 14,
    ensures
        -65536 * (steps + 1) <= 65536 * left - 2 * ref_khz * sdm_series(left, ref_khz, n)
            <= 65536 * (2 * ref_khz / 0x8000 + 15),
    decreases
            (if ref_khz < 0x8000 {
                0x1_0000
            } else {
                2 * ref_khz
            }) - n,
{
    let twice = 2 * ref_khz;
    let w = twice / n;
    vstd::arithmetic::div_mod::lemma_fundamental_div_mod(twice, n);
    vstd::arithmetic::div_mod::lemma_mod_bound(twice, n);
    vstd::arithmetic::div_mod::lemma_div_pos_is_pos(twice, n);
    let rest = twice % n;
    assert(count * twice == (count * n) * w + count * rest) by (nonlinear_arith)
        requires
            twice == n * w + rest,
    ;
    assert(0 <= count * rest <= count * n) by (nonlinear_arith)
        requires
            0 <= rest < n,
            0 <= count,
    ;
    assert(twice * count == count * twice) by (nonlinear_arith);
    if count > 0 {
        assert(count * n == 65536);
        assert((count * n) * w == 65536 * w);
    } else {
        assert(count * twice == 0);
    }
    if n >= 0x8000 {
        assert(w <= twice / 0x8000) by (nonlinear_arith)
            requires
                n >= 0x8000,
                w >= 0,
                twice >= n * w,
        ;
        if count == 0 {
            assert(2 * w <= twice / 0x8000) by (nonlinear_arith)
                requires
                    n >= 0x2_0000,
                    w >= 0,
                    twice >= n * w,
            ;
        }
    }
    let half = twice / (2 * n);
    assert(w <= 2 * half + 1) by {
        vstd::arithmetic::div_mod::lemma_div_denominator(twice, n, 2);
        assert(n * 2 == 2 * n);
    }
    lemma_count(n, count);
    if left <= 1 {
    } else if left > w {
        if n < 0x8000 {
            let series = sdm_series(left - w, ref_khz, 2 * n);
            lemma_series_error(left - w, ref_khz, 2 * n, count / 2, steps - 1, slack + 1);
            assert(twice * (count + series) == twice * count + twice * series) by (nonlinear_arith);
        }
    } else {
        lemma_small_divisor(left, ref_khz, n);
        lemma_series_error(
            left,
            ref_khz,
            2 * n,
            count / 2,
            if steps > 0 {
                steps - 1
            } else {
                0
            },
            1,
        );
    }
}

/// The fraction makes up for what the integer part leaves of the VCO frequency
/// to within 15 kHz below and, with a crystal of less than 16.384 MHz, 15 kHz
/// above it; each further 16.384 MHz of the crystal adds 1 kHz to that.
pub proof fn lemma_fraction_accuracy(vco_hz: int, pll_ref_hz: int)
    requires
        0 <= vco_hz,
        0 < pll_ref_hz,
    ensures
        ({
            let ref_khz = pll_ref_hz / 1000;
            let left = fraction_khz(vco_hz, pll_ref_hz);
            -65536 * 15 <= 65536 * left - 2 * ref_khz * sdm_series(left, ref_khz, 2) <= 65536 * (2
                * ref_khz / 0x8000 + 15)
        }),
{
    let ref_khz = pll_ref_hz / 1000;
    let left = fraction_khz(vco_hz, pll_ref_hz);
    vstd::arithmetic::div_mod::lemma_mod_bound(vco_hz, 2 * pll_ref_hz);
    assert(left <= 2 * ref_khz + 1);
    lemma_series_error(left, ref_khz, 2, 0x8000, 14, 1);
}

/// How much of the fraction the series from `n` on can make up.
proof fn lemma_series_bound(left: int, ref_khz: int, n: int, count: int)
    requires
        ref_khz >= 0,
        is_count(n, count) || (n >= 0x2_0000 && count == 0),
    ensures
        0 <= sdm_series(left, ref_khz, n),
        count > 0 ==> sdm_series(left, ref_khz, n) < 2 * count,
        count == 0 ==> sdm_series(left, ref_khz, n) == 0,
    decreases
            (if ref_khz < 0x8000 {
                0x1_0000
            } else {
                2 * ref_khz
            }) - n,
{
    lemma_count(n, count);
    if left <= 1 {
    } else if left > 2 * ref_khz / n {
        if n < 0x8000 {
            lemma_series_bound(left - 2 * ref_khz / n, ref_khz, 2 * n, count / 2);
        }
    } else {
        lemma_small_divisor(left, ref_khz, n);
        lemma_series_bound(left, ref_khz, 2 * n, count / 2);
    }
}

/// The feedback divider brings the VCO to within 17 kHz of what was asked for, and each
/// 16.384 MHz of the crystal adds at most 1 kHz to that: twice the reference, times the
/// integer part `4 * ni + si + 13` and the fraction `sdm / 65536`, is the VCO frequency.
pub proof fn lemma_synthesis_accuracy(vco_hz: int, pll_ref_hz: int, vco_power_ref: u8)
    requires
        0 <= vco_hz,
        vco_power_ref == 1 || vco_power_ref == 2,
        can_synthesize(vco_hz, pll_ref_hz, vco_power_ref),
    ensures
        synthesis(vco_hz, pll_ref_hz, vco_power_ref) matches Some(s) ==> {
            let units = 65536 * (4 * s.ni + s.si + 13) + s.sdm;
            let slack = 65536 * (17_000 + 1000 * (2 * pll_ref_hz / 32_768_000));
            &&& s.ni <= 28
            &&& s.si <= 3
            &&& -slack <= 65536 * vco_hz - 2 * pll_ref_hz * units <= slack
            &&& s.integer <==> vco_hz % (2 * pll_ref_hz) < 1000
            &&& 13 <= 4 * s.ni + s.si + 13 <= 127
        },
{
    if synthesis(vco_hz, pll_ref_hz, vco_power_ref) is Some {
        let s = synthesis(vco_hz, pll_ref_hz, vco_power_ref)->0;
        let step = 2 * pll_ref_hz;
        let n = nint(vco_hz, pll_ref_hz);
        let rest = vco_hz % step;
        let left = fraction_khz(vco_hz, pll_ref_hz);
        let ref_khz = pll_ref_hz / 1000;
        let series = sdm_series(left, ref_khz, 2);
        vstd::arithmetic::div_mod::lemma_fundamental_div_mod(vco_hz, step);
        vstd::arithmetic::div_mod::lemma_mod_bound(vco_hz, step);
        lemma_series_bound(left, ref_khz, 2, 0x8000);
        lemma_fraction_accuracy(vco_hz, pll_ref_hz);
        assert(n <= 127);
        assert(4 * s.ni + s.si + 13 == n);
        assert(s.sdm == series);
        assert(step * (65536 * n + series) == 65536 * (step * n) + step * series)
            by (nonlinear_arith);
        assert(step * series == 2000 * (ref_khz * series) + (step - 2000 * ref_khz) * series)
            by (nonlinear_arith);
        assert(0 <= (step - 2000 * ref_khz) * series <= 2000 * 65536) by (nonlinear_arith)
            requires
                0 <= step - 2000 * ref_khz < 2000,
                0 <= series < 65536,
        ;
        assert(2 * ref_khz * series == 2 * (ref_khz * series)) by (nonlinear_arith);
        assert(2 * ref_khz / 0x8000 <= 2 * pll_ref_hz / 32_768_000);
    }
}

/// A VCO whose fine tuning is above the reference gets the next smaller divider, unless
/// there is none, and one whose fine tuning is below it the next larger.
pub proof fn lemma_fine_tuning_moves_divider(code: u8, fine_tune: u8, power: u8)
    requires
        code <= 5,
    ensures
        ({
            let moved = adjusted_code(code, fine_tune, power);
            &&& fine_tune == power ==> moved == code
            &&& fine_tune > power ==> moved == if code == 0 {
                0int
            } else {
                code - 1
            }
            &&& fine_tune < power ==> moved == code + 1
        }),
{
}

// ── Status ──────────────────────────────────────────────────────────────────
/// The byte with its bits in the opposite order.
pub open spec fn reversed(b: u8) -> u8 {
    (b & 0x01) << 7 | (b & 0x02) << 5 | (b & 0x04) << 3 | (b & 0x08) << 1 | (b & 0x10) >> 1 | (b
        & 0x20) >> 3 | (b & 0x40) >> 5 | (b & 0x80) >> 7
}

/// Reverses the bits of a byte: the chips send them lowest bit first.
pub fn bit_reverse(b: u8) -> (r: u8)
    ensures
        r == reversed(b),
{
    let nibbles: u8 = (b & 0xf0) >> 4 | (b & 0x0f) << 4;
    let pairs: u8 = (nibbles & 0xcc) >> 2 | (nibbles & 0x33) << 2;
    let bits: u8 = (pairs & 0xaa) >> 1 | (pairs & 0x55) << 1;
    proof {
        assert(bits == reversed(b)) by (bit_vector)
            requires
                nibbles == (b & 0xf0) >> 4 | (b & 0x0f) << 4,
                pairs == (nibbles & 0xcc) >> 2 | (nibbles & 0x33) << 2,
                bits == (pairs & 0xaa) >> 1 | (pairs & 0x55) << 1,
        ;
    }
    bits
}

/// Reverses the bits of every byte.
pub fn reverse_all(data: &Vec<u8>) -> (status: Vec<u8>)
    ensures
        status@ == data@.map_values(|b: u8| reversed(b)),
{
    let mut status: Vec<u8> = Vec::new();
    let mut i: usize = 0;
    while i < data.len()
        invariant
            i <= data@.len(),
            status@.len() == i,
            forall|j: int| 0 <= j < i ==> #[trigger] status@[j] == reversed(data@[j]),
        decreases data@.len() - i,
    {
        status.push(bit_reverse(data[i]));
        i = i + 1;
    }
    assert(status@ =~= data@.map_values(|b: u8| reversed(b)));
    status
}

/// The bit of the third status byte that says that the PLL is locked.
pub open spec fn is_locked(status: Seq<u8>) -> bool {
    status[2] & 0x40 != 0
}

/// The lowest bit comes out highest, and so on to the highest, which comes out lowest.
pub proof fn lemma_reversed_bits(b: u8)
    ensures
        b & 0x01 != 0 <==> reversed(b) & 0x80 != 0,
        b & 0x02 != 0 <==> reversed(b) & 0x40 != 0,
        b & 0x04 != 0 <==> reversed(b) & 0x20 != 0,
        b & 0x08 != 0 <==> reversed(b) & 0x10 != 0,
        b & 0x10 != 0 <==> reversed(b) & 0x08 != 0,
        b & 0x20 != 0 <==> reversed(b) & 0x04 != 0,
        b & 0x40 != 0 <==> reversed(b) & 0x02 != 0,
        b & 0x80 != 0 <==> reversed(b) & 0x01 != 0,
{
    assert((b & 0x01 != 0 <==> reversed(b) & 0x80 != 0) && (b & 0x02 != 0 <==> reversed(b) & 0x40
        != 0) && (b & 0x04 != 0 <==> reversed(b) & 0x20 != 0) && (b & 0x08 != 0 <==> reversed(b)
        & 0x10 != 0) && (b & 0x10 != 0 <==> reversed(b) & 0x08 != 0) && (b & 0x20 != 0
        <==> reversed(b) & 0x04 != 0) && (b & 0x40 != 0 <==> reversed(b) & 0x02 != 0) && (b & 0x80
        != 0 <==> reversed(b) & 0x01 != 0)) by (bit_vector);
}

/// Reversing the bits twice gives the byte back.
pub proof fn lemma_reversed_twice(b: u8)
    ensures
        reversed(reversed(b)) == b,
{
    assert(reversed(reversed(b)) == b) by (bit_vector);
}

// ── Oscillator ──────────────────────────────────────────────────────────────
/// Whether registers make the local oscillator run at `lo_hz` when the mixer divider has
/// the code `code` before it is corrected: the VCO runs at twice the crystal frequency,
/// times the integer part `4 * ni + si + 13` and the fraction in units of 1/65536, and
/// that is `lo_hz` times 2^(code + 1), to within 17 kHz and 1 kHz for each 16.384 MHz of
/// the crystal. Bits 2 and 3 of the chip's last status byte are the VCO's fine tuning, the
/// higher one last; where it is above `power` the divider is halved, if it can be, and
/// where it is below it is doubled.
pub open spec fn is_oscillator(
    at: spec_fn(int) -> int,
    lo_hz: int,
    xtal_hz: int,
    power: int,
    status: u8,
    code: int,
) -> bool {
    let units = 65536 * (4 * (at(0x14) % 64) + at(0x14) / 64 + 13) + 256 * at(0x16) + at(0x15);
    let slack = 65536 * (17_000 + 1000 * (2 * xtal_hz / 32_768_000));
    let fine_tune = (if status & 0x04 != 0 {
        2int
    } else {
        0
    }) + (if status & 0x08 != 0 {
        1int
    } else {
        0
    });
    &&& 0 <= code <= 5
    &&& -slack <= 65536 * (lo_hz * pow2((code + 1) as nat)) - 2 * xtal_hz * units <= slack
    &&& at(0x10) / 32 == if fine_tune > power && code > 0 {
        code - 1
    } else if fine_tune < power {
        code + 1
    } else {
        code
    }
}

/// Whether registers make the local oscillator run at `lo_hz`.
pub open spec fn holds_oscillator(
    at: spec_fn(int) -> int,
    lo_hz: int,
    xtal_hz: int,
    power: int,
    status: u8,
) -> bool {
    exists|code: int| #[trigger] is_oscillator(at, lo_hz, xtal_hz, power, status, code)
}

/// The bits of a register: what `at` says of register `reg`, as far as `mask` goes.
pub open spec fn bits(at: int, mask: u8) -> u8 {
    (at as u8) & mask
}

/// The VCO's fine tuning is in bits 2 and 3 of the last status byte as the chip sends it.
pub(crate) proof fn lemma_fine_tuning_bits(status: u8)
    ensures
        (reversed(status) & 0x30) >> 4 == (if status & 0x04 != 0 {
            2int
        } else {
            0
        }) + (if status & 0x08 != 0 {
            1int
        } else {
            0
        }),
{
    lemma_reversed_bits(status);
    let b = reversed(status);
    assert((b & 0x30) >> 4 == if b & 0x20 != 0 {
        if b & 0x10 != 0 {
            3u8
        } else {
            2u8
        }
    } else if b & 0x10 != 0 {
        1u8
    } else {
        0u8
    }) by (bit_vector);
}

/// The amplifiers' registers once a gain step has been written to them.
pub(crate) proof fn lemma_amplifier_bits(regs: [u8; 27], idx: int)
    requires
        0 <= idx < 29,
    ensures
        ({
            let (lna, mix, vga) = GAIN_TABLE[idx];
            let a = masked(masked(regs[0], 0x10, 0x10), lna, 0x0f);
            let b = masked(masked(regs[2], 0x00, 0x10), mix, 0x0f);
            let c = masked(regs[7], vga, 0x0f);
            &&& a % 16 == lna && a / 16 % 2 == 1
            &&& b % 16 == mix && b / 16 % 2 == 0
            &&& c % 16 == vga
        }),
{
    lemma_gain_made_up(idx);
    let (lna, mix, vga) = GAIN_TABLE[idx];
    let (a, b, c) = (regs[0], regs[2], regs[7]);
    let a1 = masked(a, 0x10, 0x10);
    let b1 = masked(b, 0x00, 0x10);
    assert(((a1 & !0x0fu8) | (lna & 0x0fu8)) % 16 == lna && ((a1 & !0x0fu8) | (lna & 0x0fu8)) / 16
        % 2 == 1 && ((b1 & !0x0fu8) | (mix & 0x0fu8)) % 16 == mix && ((b1 & !0x0fu8) | (mix
        & 0x0fu8)) / 16 % 2 == 0 && ((c & !0x0fu8) | (vga & 0x0fu8)) % 16 == vga) by (bit_vector)
        requires
            lna < 16,
            mix < 16,
            vga < 16,
            a1 == (a & !0x10u8) | (0x10u8 & 0x10u8),
            b1 == (b & !0x10u8) | (0x00u8 & 0x10u8),
    ;
}

/// The registers as they are once a driver has initialized the chip: the initial contents,
/// but for the fields that are set by hand after them.
pub open spec fn initial_registers() -> Seq<u8> {
    seq![
        0x83, 0x30, 0x75, 0xc0, 0x40, 0x86, 0x80, 0xf0, 0x63, 0x75, 0x68, 0x6c, 0x83, 0x06, 0x01,
        0x0f, 0x00, 0xc0, 0x30, 0x48, 0xcc, 0x60, 0x00, 0x54, 0xae, 0x4a, 0xc0,
    ]
}

/// What the fields set by hand make of the initial contents.
pub(crate) proof fn lemma_initial_fields()
    ensures
        masked(0x60, 0x00, 0x0c) == 0x60,
        masked(0x80, 0x06, 0xff) == 0x06,
        masked(0xf5, 0x00, 0x0f) == 0xf0,
        masked(0x00, 0x01, 0x3f) == 0x01,
        masked(0xd6, 0x00, 0x70) == 0x86,
        masked(0x6c, 0x80, 0xef) == 0x80,
{
    assert((0x60u8 & !0x0cu8) | (0x00u8 & 0x0cu8) == 0x60u8 && (0x80u8 & !0xffu8) | (0x06u8
        & 0xffu8) == 0x06u8 && (0xf5u8 & !0x0fu8) | (0x00u8 & 0x0fu8) == 0xf0u8 && (0x00u8
        & !0x3fu8) | (0x01u8 & 0x3fu8) == 0x01u8 && (0xd6u8 & !0x70u8) | (0x00u8 & 0x70u8)
        == 0x86u8 && (0x6cu8 & !0xefu8) | (0x80u8 & 0xefu8) == 0x80u8) by (bit_vector);
}

/// The fields of the front end that do not depend on the frequency, and those of the
/// bandwidth.
pub(crate) proof fn lemma_fixed_fields()
    ensures
        0xa0u8 & 0x30 == 0x20,
        0x00u8 & 0x3f == 0x00,
        0x18u8 & 0x38 == 0x18,
        0x24u8 & 0x04 == 0x04,
        14u8 & 0x1f == 14,
        0x08u8 & 0x0f == 0x08,
        0x06u8 & 0x0f == 0x06,
        0x00u8 & 0x0f == 0x00,
        0x08u8 & 0x08 == 0x08,
        0x00u8 & 0x08 == 0x00,
        0x40u8 & 0x40 == 0x40,
        0x00u8 & 0x40 == 0x00,
        0x20u8 & 0x20 == 0x20,
        0x00u8 & 0x20 == 0x00,
        0x10u8 & 0x70 == 0x10,
        0x00u8 & 0x70 == 0x00,
        0x6bu8 & 0xef == 0x6b,
        0x80u8 & 0xef == 0x80,
{
    assert(0xa0u8 & 0x30 == 0x20 && 0x00u8 & 0x3f == 0x00 && 0x18u8 & 0x38 == 0x18 && 0x24u8 & 0x04
        == 0x04 && 14u8 & 0x1f == 14 && 0x08u8 & 0x0f == 0x08 && 0x06u8 & 0x0f == 0x06 && 0x00u8
        & 0x0f == 0x00 && 0x08u8 & 0x08 == 0x08 && 0x00u8 & 0x08 == 0x00 && 0x40u8 & 0x40 == 0x40
        && 0x00u8 & 0x40 == 0x00 && 0x20u8 & 0x20 == 0x20 && 0x00u8 & 0x20 == 0x00 && 0x10u8 & 0x70
        == 0x10 && 0x00u8 & 0x70 == 0x00 && 0x6bu8 & 0xef == 0x6b && 0x80u8 & 0xef == 0x80)
        by (bit_vector);
}

/// A write of all bits of a register leaves nothing of what it held.
pub(crate) proof fn lemma_whole_register(old_val: u8, val: u8)
    ensures
        masked(old_val, val, 0xff) == val,
{
    assert((old_val & !0xffu8) | (val & 0xffu8) == val) by (bit_vector);
}

/// Of two writes to fields that do not overlap each is there.
pub(crate) proof fn lemma_two_fields(old_val: u8, first: u8, a: u8, second: u8, b: u8)
    requires
        a == 0x40,
        b == 0x20,
    ensures
        masked(masked(old_val, first, a), second, b) & a == first & a,
        masked(masked(old_val, first, a), second, b) & b == second & b,
{
    assert(((((old_val & !a) | (first & a)) & !b) | (second & b)) & a == first & a && (((((old_val
        & !a) | (first & a)) & !b) | (second & b)) & b == second & b)) by (bit_vector)
        requires
            a == 0x40,
            b == 0x20,
    ;
}

/// Setting the PLL can be asked for wherever the arithmetic of the dividers has a place for
/// the frequency, and no divider serves it.
pub proof fn lemma_unserved_may_be_asked_for(lo_hz: int, pll_ref_hz: int, power: u8)
    requires
        0 <= lo_hz < 27_656_250 || 1_800_000_000 <= lo_hz <= 0x3ff_ffff_ffff_ffff,
    ensures
        can_set_pll(lo_hz, pll_ref_hz, power),
{
}

} // verus!
