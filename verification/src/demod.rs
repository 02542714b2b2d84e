//! RTL2832U baseband and demodulator set-up.
use crate::device::{self, BusOp, Exchange, HardwareInterface};
use crate::error::Result;
use crate::record::{self, Place};
use crate::registers::{self, block, demod, sys, usb};
use vstd::prelude::*;

verus! {

/// The sample rate that a receiver starts with, in Hz.
pub const DEFAULT_SAMPLE_RATE: u32 = 2_048_000;

/// The default coefficients of the demodulator's FIR filter. The first eight
/// are eight bits wide, the others twelve.
pub const FIR_DEFAULT: [i32; 16] = [
    -54,
    -36,
    -41,
    -40,
    -32,
    -14,
    14,
    53,
    101,
    156,
    215,
    273,
    327,
    372,
    404,
    421,
];

/// Byte `i` of the packed filter: first the eight narrow coefficients in two's
/// complement, then four big-endian 24-bit words of two wide ones each.
pub open spec fn fir_byte(i: int) -> int {
    if i < 8 {
        FIR_DEFAULT[i] as int % 256
    } else {
        let pair = (i - 8) / 3;
        let word = FIR_DEFAULT[8 + 2 * pair] as int % 4096 * 4096 + FIR_DEFAULT[9 + 2 * pair] as int
            % 4096;
        if (i - 8) % 3 == 0 {
            word / 65536
        } else if (i - 8) % 3 == 1 {
            word / 256 % 256
        } else {
            word % 256
        }
    }
}

proof fn lemma_narrow_coefficient(v: i32)
    requires
        -128 <= v < 128,
    ensures
        v as i8 as u8 == v as int % 256,
{
    assert((v >= 0 ==> v as i8 as u8 == v) && (v < 0 ==> v as i8 as u8 == v + 256)) by (bit_vector)
        requires
            -128 <= v < 128,
    ;
}

proof fn lemma_wide_pair(a: i32, b: i32)
    requires
        0 <= a < 4096,
        0 <= b < 4096,
    ensures
        (a >> 4) as u8 == (a * 4096 + b) / 65536,
        (((a & 0x0f) << 4) | ((b >> 8) & 0x0f)) as u8 == (a * 4096 + b) / 256 % 256,
        (b & 0xff) as u8 == (a * 4096 + b) % 256,
{
    assert((a >> 4) as u8 == a / 16 && (((a & 0x0f) << 4) | ((b >> 8) & 0x0f)) as u8 == a % 16 * 16
        + b / 256 && (b & 0xff) as u8 == b % 256) by (bit_vector)
        requires
            0 <= a < 4096,
            0 <= b < 4096,
    ;
}

/// Packs the filter coefficients the way the demodulator stores them.
pub fn pack_fir() -> (fir: [u8; 20])
    ensures
        forall|i: int| 0 <= i < 20 ==> #[trigger] fir[i] == fir_byte(i),
{
    let mut fir: [u8; 20] = [0u8; 20];
    let mut i: usize = 0;
    while i < 8
        invariant
            i <= 8,
            forall|j: int| 0 <= j < i ==> #[trigger] fir[j] == fir_byte(j),
        decreases 8 - i,
    {
        proof {
            lemma_narrow_coefficient(FIR_DEFAULT[i as int]);
        }
        fir[i] = FIR_DEFAULT[i] as i8 as u8;
        i = i + 1;
    }
    let mut pair: usize = 0;
    while pair < 4
        invariant
            pair <= 4,
            forall|j: int| 0 <= j < 8 + 3 * pair ==> #[trigger] fir[j] == fir_byte(j),
        decreases 4 - pair,
    {
        let val0: i32 = FIR_DEFAULT[8 + 2 * pair];
        let val1: i32 = FIR_DEFAULT[8 + 2 * pair + 1];
        proof {
            lemma_wide_pair(val0, val1);
        }
        fir[8 + 3 * pair] = (val0 >> 4) as u8;
        fir[8 + 3 * pair + 1] = (((val0 & 0x0f) << 4) | ((val1 >> 8) & 0x0f)) as u8;
        fir[8 + 3 * pair + 2] = (val1 & 0xff) as u8;
        pair = pair + 1;
    }
    fir
}

/// The writes that load the filter, one register per byte.
pub open spec fn fir_ops() -> Seq<BusOp> {
    Seq::new(
        20,
        |i: int|
            BusOp::DemodWriteReg {
                page: demod::P1_PAGE,
                addr: (0x1c + i) as u16,
                val: fir_byte(i) as u8,
            },
    )
}

/// Loads the default filter coefficients.
pub fn set_fir<H: HardwareInterface>(hw: &mut H) -> (res: Result<()>)
    ensures
        (Exchange { hw: *final(hw), res }) == Exchange::begin(*old(hw)).ops(fir_ops()),
{
    let fir: [u8; 20] = pack_fir();
    let ghost start = *hw;
    let mut i: usize = 0;
    assert(fir_ops().take(0) =~= Seq::empty());
    while i < 20
        invariant
            i <= 20,
            forall|j: int| 0 <= j < 20 ==> #[trigger] fir[j] == fir_byte(j),
            start == *old(hw),
            Exchange::begin(start).ops(fir_ops().take(i as int)) == Exchange::begin(*hw),
        decreases 20 - i,
    {
        assert(fir_ops().take(i + 1).drop_last() =~= fir_ops().take(i as int));
        assert(fir_ops().take(i + 1).last() == BusOp::DemodWriteReg {
            page: demod::P1_PAGE,
            addr: (0x1c + i) as u16,
            val: fir[i as int],
        });
        let res = hw.demod_write_reg(demod::P1_PAGE, 0x1c + i as u16, fir[i]);
        proof {
            if res is Err {
                device::lemma_failed_ops_stay(Exchange::begin(start), fir_ops(), i + 1);
            }
        }
        res?;
        i = i + 1;
    }
    assert(fir_ops().take(20) =~= fir_ops());
    Ok(())
}

/// The writes that clear the six registers from 0x16 on.
pub open spec fn clear_ops() -> Seq<BusOp> {
    Seq::new(
        6,
        |i: int|
            BusOp::DemodWriteReg { page: demod::P1_PAGE, addr: (0x16 + i) as u16, val: 0x00 },
    )
}

fn clear_spectrum_regs<H: HardwareInterface>(hw: &mut H) -> (res: Result<()>)
    ensures
        (Exchange { hw: *final(hw), res }) == Exchange::begin(*old(hw)).ops(clear_ops()),
{
    let ghost start = *hw;
    let mut i: u16 = 0;
    assert(clear_ops().take(0) =~= Seq::empty());
    while i < 6
        invariant
            i <= 6,
            start == *old(hw),
            Exchange::begin(start).ops(clear_ops().take(i as int)) == Exchange::begin(*hw),
        decreases 6 - i,
    {
        assert(clear_ops().take(i + 1).drop_last() =~= clear_ops().take(i as int));
        assert(clear_ops().take(i + 1).last() == BusOp::DemodWriteReg {
            page: demod::P1_PAGE,
            addr: (0x16 + i) as u16,
            val: 0x00,
        });
        let res = hw.demod_write_reg(demod::P1_PAGE, 0x16 + i, 0x00);
        proof {
            if res is Err {
                device::lemma_failed_ops_stay(Exchange::begin(start), clear_ops(), i + 1);
            }
        }
        res?;
        i = i + 1;
    }
    assert(clear_ops().take(6) =~= clear_ops());
    Ok(())
}

/// Powers the demodulator up and configures it for raw sampling.
pub open spec fn baseband_init<H: HardwareInterface>(hw: H) -> Exchange<H, ()> {
    Exchange::begin(hw)
        .reg(block::USB, usb::SYSCTL, 0x09)
        .reg16(block::USB, usb::EPA_MAXPKT, 0x0002)
        .reg16(block::USB, usb::EPA_CTL, 0x1002)
        .reg(block::SYS, sys::DEMOD_CTL1, 0x22)
        .reg(block::SYS, sys::DEMOD_CTL, sys::DEMOD_CTL_POWER_ON)
        .sleep(100)
        .demod(demod::P1_PAGE, demod::P1_SOFT_RESET, demod::P1_SOFT_RESET_ON)
        .demod(demod::P1_PAGE, demod::P1_SOFT_RESET, demod::P1_SOFT_RESET_OFF)
        .demod(demod::P1_PAGE, 0x15, 0x00)
        .demod16(demod::P1_PAGE, 0x16, 0x0000)
        .chain(|h: H| Exchange::begin(h).ops(clear_ops()))
        .chain(|h: H| Exchange::begin(h).ops(fir_ops()))
        .demod(demod::P0_PAGE, 0x19, 0x05)
        .demod(demod::P1_PAGE, 0x93, 0xf0)
        .demod(demod::P1_PAGE, 0x94, 0x0f)
        .demod(demod::P1_PAGE, 0x11, 0x00)
        .demod(demod::P1_PAGE, 0x04, 0x00)
        .demod(demod::P0_PAGE, 0x61, 0x60)
        .demod(demod::P0_PAGE, 0x06, 0x80)
        .demod(demod::P1_PAGE, 0xb1, 0x1b)
        .demod(demod::P0_PAGE, 0x0d, 0x83)
}

/// Powers the demodulator up and configures it for raw sampling.
pub fn init_baseband<H: HardwareInterface>(hw: &mut H) -> (res: Result<()>)
    ensures
        (Exchange { hw: *final(hw), res }) == baseband_init(*old(hw)),
{
    hw.write_reg(block::USB, usb::SYSCTL, 0x09)?;
    hw.write_reg16(block::USB, usb::EPA_MAXPKT, 0x0002)?;
    hw.write_reg16(block::USB, usb::EPA_CTL, 0x1002)?;

    hw.write_reg(block::SYS, sys::DEMOD_CTL1, 0x22)?;
    hw.write_reg(block::SYS, sys::DEMOD_CTL, sys::DEMOD_CTL_POWER_ON)?;

    hw.sleep_ms(100);

    hw.demod_write_reg(demod::P1_PAGE, demod::P1_SOFT_RESET, demod::P1_SOFT_RESET_ON)?;
    hw.demod_write_reg(demod::P1_PAGE, demod::P1_SOFT_RESET, demod::P1_SOFT_RESET_OFF)?;

    hw.demod_write_reg(demod::P1_PAGE, 0x15, 0x00)?;
    hw.demod_write_reg16(demod::P1_PAGE, 0x16, 0x0000)?;

    clear_spectrum_regs(hw)?;
    set_fir(hw)?;

    hw.demod_write_reg(demod::P0_PAGE, 0x19, 0x05)?;
    hw.demod_write_reg(demod::P1_PAGE, 0x93, 0xf0)?;
    hw.demod_write_reg(demod::P1_PAGE, 0x94, 0x0f)?;
    hw.demod_write_reg(demod::P1_PAGE, 0x11, 0x00)?;
    hw.demod_write_reg(demod::P1_PAGE, 0x04, 0x00)?;
    hw.demod_write_reg(demod::P0_PAGE, 0x61, 0x60)?;
    hw.demod_write_reg(demod::P0_PAGE, 0x06, 0x80)?;
    hw.demod_write_reg(demod::P1_PAGE, 0xb1, 0x1b)?;
    hw.demod_write_reg(demod::P0_PAGE, 0x0d, 0x83)?;
    Ok(())
}

pub open spec fn low_if<H: HardwareInterface>(hw: H) -> Exchange<H, ()> {
    Exchange::begin(hw).demod(demod::P1_PAGE, 0xb1, 0x1a).demod(demod::P0_PAGE, 0x08, 0x4d)
}

/// Configures the demodulator for a tuner with an intermediate frequency:
/// Zero-IF mode off, in-phase ADC input on.
pub fn set_tuner_low_if<H: HardwareInterface>(hw: &mut H) -> (res: Result<()>)
    ensures
        (Exchange { hw: *final(hw), res }) == low_if(*old(hw)),
{
    hw.demod_write_reg(demod::P1_PAGE, 0xb1, 0x1a)?;
    hw.demod_write_reg(demod::P0_PAGE, 0x08, 0x4d)?;
    Ok(())
}

pub open spec fn zero_if<H: HardwareInterface>(hw: H) -> Exchange<H, ()> {
    Exchange::begin(hw).demod(demod::P1_PAGE, 0xb1, 0x1b).demod(demod::P0_PAGE, 0x08, 0xcd)
}

/// Configures the demodulator for a tuner without an intermediate frequency:
/// Zero-IF mode on, both ADC inputs on.
pub fn set_tuner_zero_if<H: HardwareInterface>(hw: &mut H) -> (res: Result<()>)
    ensures
        (Exchange { hw: *final(hw), res }) == zero_if(*old(hw)),
{
    hw.demod_write_reg(demod::P1_PAGE, 0xb1, 0x1b)?;
    hw.demod_write_reg(demod::P0_PAGE, 0x08, 0xcd)?;
    Ok(())
}

/// Powers the demodulator up.
pub fn power_on<H: HardwareInterface>(hw: &mut H) -> (res: Result<()>)
    ensures
        (Exchange { hw: *final(hw), res }) == baseband_init(*old(hw)),
{
    init_baseband(hw)
}

pub open spec fn soft_reset<H: HardwareInterface>(hw: H) -> Exchange<H, ()> {
    Exchange::begin(hw)
        .demod(demod::P1_PAGE, demod::P1_SOFT_RESET, demod::P1_SOFT_RESET_ON)
        .demod(demod::P1_PAGE, demod::P1_SOFT_RESET, demod::P1_SOFT_RESET_OFF)
}

/// Pulses the demodulator's soft reset.
pub fn reset_demod<H: HardwareInterface>(hw: &mut H) -> (res: Result<()>)
    ensures
        (Exchange { hw: *final(hw), res }) == soft_reset(*old(hw)),
{
    hw.demod_write_reg(demod::P1_PAGE, demod::P1_SOFT_RESET, demod::P1_SOFT_RESET_ON)?;
    hw.demod_write_reg(demod::P1_PAGE, demod::P1_SOFT_RESET, demod::P1_SOFT_RESET_OFF)?;
    Ok(())
}

/// Writes one demodulator register.
pub fn write_reg_direct<H: HardwareInterface>(hw: &mut H, page: u8, addr: u16, val: u8) -> (res:
    Result<()>)
    ensures
        (Exchange { hw: *final(hw), res }) == Exchange::begin(*old(hw)).demod(page, addr, val),
{
    hw.demod_write_reg(page, addr, val)
}

/// The 22-bit word that shifts a signal at `if_hz` down to zero: the negative of
/// the ratio of `if_hz` to `xtal_hz`, in two's complement.
pub open spec fn if_word(if_hz: int, xtal_hz: int) -> int {
    (-registers::ratio_q22(if_hz, xtal_hz)) % 0x40_0000
}

pub open spec fn if_freq_set<H: HardwareInterface>(hw: H, if_hz: u32, xtal_hz: u32) -> Exchange<
    H,
    (),
> {
    let word = if_word(if_hz as int, xtal_hz as int);
    Exchange::begin(hw)
        .demod(demod::P1_PAGE, demod::P1_IF_FREQ_H, (word / 0x1_0000) as u8)
        .demod(demod::P1_PAGE, demod::P1_IF_FREQ_M, (word / 0x100 % 256) as u8)
        .demod(demod::P1_PAGE, demod::P1_IF_FREQ_L, (word % 256) as u8)
}

/// Tells the demodulator at which intermediate frequency the tuner delivers its
/// signal.
pub fn set_if_freq_xtal<H: HardwareInterface>(hw: &mut H, if_hz: u32, xtal_hz: u32) -> (res: Result<
    (),
>)
    requires
        xtal_hz != 0,
    ensures
        (Exchange { hw: *final(hw), res }) == if_freq_set(*old(hw), if_hz, xtal_hz),
{
    assert(1i64 << 22 == 0x40_0000i64) by (bit_vector);
    let ratio: i64 = (if_hz as i64 * (1i64 << 22)) / xtal_hz as i64;
    proof {
        let scaled: int = if_hz as int * 0x40_0000;
        vstd::arithmetic::div_mod::lemma_div_pos_is_pos(scaled, xtal_hz as int);
        vstd::arithmetic::div_mod::lemma_div_nonincreasing(scaled, xtal_hz as int);
        assert(ratio == registers::ratio_q22(if_hz as int, xtal_hz as int));
        assert(0 <= ratio <= scaled);
        assert(scaled <= 0x40_0000_0000_0000);
    }
    let if_freq: i64 = -ratio;
    let val: u32 = (if_freq & 0x3fffff) as u32;
    assert(val == if_word(if_hz as int, xtal_hz as int)) by {
        let high: i64 = if_freq >> 22;
        assert((if_freq & 0x3fffff) as u32 == if_freq - high * 0x40_0000 && 0 <= if_freq & 0x3fffff
            < 0x40_0000) by (bit_vector)
            requires
                high == if_freq >> 22,
                -0x80_0000_0000_0000 < if_freq <= 0,
        ;
        vstd::arithmetic::div_mod::lemma_fundamental_div_mod_converse(
            if_freq as int,
            0x40_0000,
            high as int,
            val as int,
        );
    }
    assert(((val >> 16) & 0x3f) as u8 == val / 0x1_0000 && ((val >> 8) & 0xff) as u8 == val / 0x100
        % 256 && (val & 0xff) as u8 == val % 256) by (bit_vector)
        requires
            val < 0x40_0000,
    ;
    hw.demod_write_reg(demod::P1_PAGE, demod::P1_IF_FREQ_H, ((val >> 16) & 0x3f) as u8)?;
    hw.demod_write_reg(demod::P1_PAGE, demod::P1_IF_FREQ_M, ((val >> 8) & 0xff) as u8)?;
    hw.demod_write_reg(demod::P1_PAGE, demod::P1_IF_FREQ_L, (val & 0xff) as u8)?;
    Ok(())
}

/// The resampling ratio as the demodulator stores it: the low 28 bits of the
/// ratio of `xtal_hz` to `rate_hz` with 22 fractional bits, rounded down to a
/// multiple of four, with bit 27 copied into bit 28.
pub open spec fn resample_word(rate_hz: int, xtal_hz: int) -> int {
    let low = registers::ratio_q22(xtal_hz, rate_hz) % 0x1000_0000 / 4 * 4;
    if low >= 0x0800_0000 {
        low + 0x1000_0000
    } else {
        low
    }
}

pub open spec fn sample_rate_set<H: HardwareInterface>(
    hw: H,
    rate_hz: u32,
    xtal_hz: u32,
) -> Exchange<H, ()> {
    let word = resample_word(rate_hz as int, xtal_hz as int);
    Exchange::begin(hw)
        .demod16(demod::P1_PAGE, 0x9f, (word / 0x1_0000) as u16)
        .demod16(demod::P1_PAGE, 0xa1, (word % 0x1_0000) as u16)
        .demod(demod::P1_PAGE, 0x3f, 0x00)
        .demod(demod::P1_PAGE, 0x3e, 0x00)
}

/// Sets the rate at which samples are delivered.
pub fn set_sample_rate_xtal<H: HardwareInterface>(hw: &mut H, rate_hz: u32, xtal_hz: u32) -> (res:
    Result<()>)
    requires
        rate_hz != 0,
    ensures
        (Exchange { hw: *final(hw), res }) == sample_rate_set(*old(hw), rate_hz, xtal_hz),
{
    assert(1u64 << 22 == 0x40_0000u64) by (bit_vector);
    assert(xtal_hz as int * 0x40_0000 <= u64::MAX);
    let ratio: u64 = (xtal_hz as u64) * (1u64 << 22) / rate_hz as u64;
    let low: u32 = ratio as u32 & 0x0ffffffc;
    assert(ratio as u32 & 0x0ffffffc == ratio % 0x1000_0000 / 4 * 4) by (bit_vector);
    let word: u32 = low | ((low & 0x08000000) << 1);
    assert(word == if low >= 0x0800_0000 {
        low + 0x1000_0000
    } else {
        low as int
    }) by (bit_vector)
        requires
            low < 0x1000_0000,
            word == low | ((low & 0x08000000) << 1),
    ;
    assert((word >> 16) as u16 == word / 0x1_0000 && (word & 0xffff) as u16 == word % 0x1_0000)
        by (bit_vector);
    hw.demod_write_reg16(demod::P1_PAGE, 0x9f, (word >> 16) as u16)?;
    hw.demod_write_reg16(demod::P1_PAGE, 0xa1, (word & 0xffff) as u16)?;
    hw.demod_write_reg(demod::P1_PAGE, 0x3f, 0x00)?;
    hw.demod_write_reg(demod::P1_PAGE, 0x3e, 0x00)?;
    Ok(())
}

pub open spec fn streaming_start<H: HardwareInterface>(hw: H) -> Exchange<H, ()> {
    Exchange::begin(hw).reg16(block::USB, usb::EPA_CTL, 0x1002).reg16(block::USB, usb::EPA_CTL, 0x0000)
}

/// Stalls and flushes the sample endpoint, then lets it run.
pub fn start_streaming<H: HardwareInterface>(hw: &mut H) -> (res: Result<()>)
    ensures
        (Exchange { hw: *final(hw), res }) == streaming_start(*old(hw)),
{
    hw.write_reg16(block::USB, usb::EPA_CTL, 0x1002)?;
    hw.write_reg16(block::USB, usb::EPA_CTL, 0x0000)?;
    Ok(())
}

pub open spec fn streaming_stop<H: HardwareInterface>(hw: H) -> Exchange<H, ()> {
    Exchange::begin(hw)
        .reg16(block::USB, usb::EPA_CTL, 0x1002)
        .reg(block::SYS, sys::DEMOD_CTL, sys::DEMOD_CTL_POWER_OFF)
}

/// Stalls the sample endpoint and powers the demodulator down.
pub fn stop_streaming<H: HardwareInterface>(hw: &mut H) -> (res: Result<()>)
    ensures
        (Exchange { hw: *final(hw), res }) == streaming_stop(*old(hw)),
{
    hw.write_reg16(block::USB, usb::EPA_CTL, 0x1002)?;
    hw.write_reg(block::SYS, sys::DEMOD_CTL, sys::DEMOD_CTL_POWER_OFF)?;
    Ok(())
}

// ── Laws ────────────────────────────────────────────────────────────────────
/// The IF word undoes the intermediate frequency: together with the ratio of the
/// frequencies it comes to nothing, modulo its 22 bits.
pub proof fn lemma_if_word_negates(if_hz: int, xtal_hz: int)
    ensures
        0 <= if_word(if_hz, xtal_hz) < 0x40_0000,
        (if_word(if_hz, xtal_hz) + registers::ratio_q22(if_hz, xtal_hz)) % 0x40_0000 == 0,
{
}

/// As long as the resampling ratio fits in its 28 bits, the word holds it to within
/// less than four units, whatever its sign bit.
pub proof fn lemma_resample_word_holds_ratio(rate_hz: int, xtal_hz: int)
    requires
        0 <= registers::ratio_q22(xtal_hz, rate_hz) < 0x1000_0000,
    ensures
        ({
            let ratio = registers::ratio_q22(xtal_hz, rate_hz);
            let held = resample_word(rate_hz, xtal_hz) % 0x1000_0000;
            held <= ratio < held + 4
        }),
{
}

/// Without an intermediate frequency the IF word is zero.
pub proof fn lemma_zero_if_word(xtal_hz: int)
    requires
        0 < xtal_hz,
    ensures
        if_word(0, xtal_hz) == 0,
{
    vstd::arithmetic::div_mod::lemma_div_basics(xtal_hz);
}

/// Once the demodulator has been told an intermediate frequency, its registers 0x19 to
/// 0x1b of page 1 hold a number of 22 bits that takes that frequency back: added to
/// 2^22 times the ratio of the frequency to the crystal's, it comes to nothing.
pub proof fn lemma_if_undone<H: HardwareInterface>(
    hw: H,
    if_hz: u32,
    xtal_hz: u32,
    held: spec_fn(H, Place) -> int,
)
    requires
        record::is_memory(held),
        xtal_hz != 0,
        if_freq_set(hw, if_hz, xtal_hz).res is Ok,
    ensures
        ({
            let after = if_freq_set(hw, if_hz, xtal_hz).hw;
            let word = 0x1_0000 * held(after, Place::Demod { page: 1, addr: 0x19 }) + 0x100 * held(
                after,
                Place::Demod { page: 1, addr: 0x1a },
            ) + held(after, Place::Demod { page: 1, addr: 0x1b });
            &&& 0 <= word < 0x40_0000
            &&& (word + if_hz * 0x40_0000 / xtal_hz as int) % 0x40_0000 == 0
        }),
{
}

/// Once the sample rate has been set, registers 0x9f and 0xa1 of page 1 hold the number of
/// crystal periods per sample, in units of 2^-22, to within four units: of its bits the 28
/// lowest, and the highest of these once more.
pub proof fn lemma_rate_held<H: HardwareInterface>(
    hw: H,
    rate_hz: u32,
    xtal_hz: u32,
    held: spec_fn(H, Place) -> int,
)
    requires
        record::is_memory(held),
        rate_hz != 0,
        sample_rate_set(hw, rate_hz, xtal_hz).res is Ok,
    ensures
        ({
            let after = sample_rate_set(hw, rate_hz, xtal_hz).hw;
            let word = 0x1_0000 * held(after, Place::Demod { page: 1, addr: 0x9f }) + held(
                after,
                Place::Demod { page: 1, addr: 0xa1 },
            );
            let periods = xtal_hz * 0x40_0000 / rate_hz as int;
            &&& 0 <= periods % 0x1000_0000 - word % 0x1000_0000 < 4
            &&& 0 <= word < 0x2000_0000
            &&& word / 0x1000_0000 == word / 0x0800_0000 % 2
        }),
{
}

/// The packed filter holds the coefficients: the first eight in a byte each, the others in
/// twelve bits each, the higher of a pair first. Negative ones are in two's complement.
pub proof fn lemma_fir_unpacked(k: int)
    requires
        0 <= k < 4,
    ensures
        ({
            let (a, b, c) = (fir_byte(8 + 3 * k), fir_byte(9 + 3 * k), fir_byte(10 + 3 * k));
            &&& 0 <= a < 256 && 0 <= b < 256 && 0 <= c < 256
            &&& 16 * a + b / 16 == FIR_DEFAULT[8 + 2 * k]
            &&& b % 16 * 256 + c == FIR_DEFAULT[9 + 2 * k]
        }),
        forall|i: int|
            0 <= i < 8 ==> 0 <= #[trigger] fir_byte(i) < 256 && (fir_byte(i) == FIR_DEFAULT[i]
                || fir_byte(i) == FIR_DEFAULT[i] + 256),
        FIR_DEFAULT@.map_values(|v: i32| v as int) == seq![
            -54int, -36, -41, -40, -32, -14, 14, 53, 101, 156, 215, 273, 327, 372, 404, 421,
        ],
{
    assert(FIR_DEFAULT@.map_values(|v: i32| v as int) =~= seq![
        -54int, -36, -41, -40, -32, -14, 14, 53, 101, 156, 215, 273, 327, 372, 404, 421,
    ]);
}

/// What writes of the demodulator's registers leave in them.
proof fn lemma_demod_ops_held<H: HardwareInterface>(
    start: Exchange<H, ()>,
    ops: Seq<BusOp>,
    n: nat,
    first: u16,
    vals: spec_fn(int) -> u8,
    held: spec_fn(H, Place) -> int,
)
    requires
        record::is_memory(held),
        n <= ops.len(),
        first + n <= 0xffff,
        forall|i: int|
            0 <= i < n ==> #[trigger] ops[i] == (BusOp::DemodWriteReg {
                page: 1,
                addr: (first + i) as u16,
                val: vals(i),
            }),
        start.ops(ops.take(n as int)).res is Ok,
    ensures
        start.res is Ok,
        forall|i: int|
            0 <= i < n ==> held(
                start.ops(ops.take(n as int)).hw,
                Place::Demod { page: 1, addr: (first + i) as u16 },
            ) == #[trigger] vals(i),
        forall|place: Place|
            (place matches Place::Demod { page, addr } ==> page != 1 || addr < first || addr >= first
                + n) ==> #[trigger] held(start.ops(ops.take(n as int)).hw, place) == held(
                start.hw,
                place,
            ),
    decreases n,
{
    if n > 0 {
        let shorter = ops.take(n - 1);
        assert(ops.take(n as int).drop_last() =~= shorter);
        assert(ops.take(n as int).last() == ops[n - 1]);
        lemma_demod_ops_held(start, ops, (n - 1) as nat, first, vals, held);
    } else {
        assert(ops.take(0) =~= Seq::empty());
    }
}

/// After the baseband has been started, the demodulator is powered, its filter is loaded
/// into registers 0x1c to 0x2f of page 1, and its AGC, its DVB-T functions and its spectrum
/// registers are set for raw samples.
#[verifier::rlimit(30)]
pub proof fn lemma_baseband_started<H: HardwareInterface>(hw: H, held: spec_fn(H, Place) -> int)
    requires
        record::is_memory(held),
        baseband_init(hw).res is Ok,
    ensures
        ({
            let after = baseband_init(hw).hw;
            let p0 = |addr: u16| held(after, Place::Demod { page: 0, addr });
            let p1 = |addr: u16| held(after, Place::Demod { page: 1, addr });
            let usb = |addr: u16| held(after, Place::Block { blk: 1, addr });
            let sys = |addr: u16| held(after, Place::Block { blk: 2, addr });
            &&& usb(0x2000) == 0x09 && usb(0x2158) == 0x0002 && usb(0x2148) == 0x1002
            &&& sys(0x300b) == 0x22 && sys(0x3000) == 0xe8
            &&& p1(0x01) == 0x10 && p1(0x15) == 0x00
            &&& forall|i: int| 0 <= i < 6 ==> #[trigger] p1((0x16 + i) as u16) == 0
            &&& forall|i: int| 0 <= i < 20 ==> p1((0x1c + i) as u16) == #[trigger] fir_byte(i)
            &&& p0(0x19) == 0x05 && p1(0x93) == 0xf0 && p1(0x94) == 0x0f
            &&& p1(0x11) == 0x00 && p1(0x04) == 0x00 && p0(0x61) == 0x60
            &&& p0(0x06) == 0x80 && p1(0xb1) == 0x1b && p0(0x0d) == 0x83
        }),
{
    let first = Exchange::begin(hw)
        .reg(block::USB, usb::SYSCTL, 0x09)
        .reg16(block::USB, usb::EPA_MAXPKT, 0x0002)
        .reg16(block::USB, usb::EPA_CTL, 0x1002)
        .reg(block::SYS, sys::DEMOD_CTL1, 0x22)
        .reg(block::SYS, sys::DEMOD_CTL, sys::DEMOD_CTL_POWER_ON)
        .sleep(100)
        .demod(demod::P1_PAGE, demod::P1_SOFT_RESET, demod::P1_SOFT_RESET_ON)
        .demod(demod::P1_PAGE, demod::P1_SOFT_RESET, demod::P1_SOFT_RESET_OFF)
        .demod(demod::P1_PAGE, 0x15, 0x00)
        .demod16(demod::P1_PAGE, 0x16, 0x0000);
    let cleared = Exchange::begin(first.hw).ops(clear_ops());
    let loaded = Exchange::begin(cleared.hw).ops(fir_ops());
    assert(first.res is Ok && cleared.res is Ok && loaded.res is Ok);
    assert(clear_ops().take(6) =~= clear_ops());
    assert(fir_ops().take(20) =~= fir_ops());
    let zero = |i: int| 0u8;
    let fir = |i: int| fir_byte(i) as u8;
    lemma_demod_ops_held(Exchange::begin(first.hw), clear_ops(), 6, 0x16, zero, held);
    lemma_demod_ops_held(Exchange::begin(cleared.hw), fir_ops(), 20, 0x1c, fir, held);
    let after = baseband_init(hw).hw;
    assert forall|i: int| 0 <= i < 6 implies #[trigger] held(
        after,
        Place::Demod { page: 1, addr: (0x16 + i) as u16 },
    ) == 0 by {
        assert(held(cleared.hw, Place::Demod { page: 1, addr: (0x16 + i) as u16 }) == zero(i));
        assert(held(loaded.hw, Place::Demod { page: 1, addr: (0x16 + i) as u16 }) == 0);
    }
    assert forall|i: int| 0 <= i < 20 implies held(
        after,
        Place::Demod { page: 1, addr: (0x1c + i) as u16 },
    ) == #[trigger] fir_byte(i) by {
        assert(held(loaded.hw, Place::Demod { page: 1, addr: (0x1c + i) as u16 }) == fir(i));
        lemma_fir_unpacked((i - 8) / 3 % 4);
        lemma_fir_byte_fits(i);
    }
    let b = |blk: u16, addr: u16|
        held(loaded.hw, Place::Block { blk, addr }) == held(first.hw, Place::Block { blk, addr });
    assert(b(1, 0x2000) && b(1, 0x2158) && b(1, 0x2148) && b(2, 0x300b) && b(2, 0x3000)) by {
        assert(held(cleared.hw, Place::Block { blk: 1, addr: 0x2000 }) == held(
            first.hw,
            Place::Block { blk: 1, addr: 0x2000 },
        ));
    }
    assert(held(loaded.hw, Place::Demod { page: 1, addr: 0x01 }) == held(
        cleared.hw,
        Place::Demod { page: 1, addr: 0x01 },
    ));
    assert(held(loaded.hw, Place::Demod { page: 1, addr: 0x15 }) == held(
        cleared.hw,
        Place::Demod { page: 1, addr: 0x15 },
    ));
}

proof fn lemma_fir_byte_fits(i: int)
    requires
        0 <= i < 20,
    ensures
        0 <= fir_byte(i) < 256,
{
    if i >= 8 {
        lemma_fir_unpacked((i - 8) / 3);
    } else {
        lemma_fir_unpacked(0);
    }
}

/// A tuner with an intermediate frequency is sampled in phase only, with Zero-IF mode off:
/// 0x1a in register 0xb1 of page 1 and 0x4d in register 0x08 of page 0. For one without,
/// both inputs are sampled and Zero-IF mode is on: 0x1b and 0xcd.
pub proof fn lemma_inputs_sampled<H: HardwareInterface>(hw: H, held: spec_fn(H, Place) -> int)
    requires
        record::is_memory(held),
    ensures
        ({
            let (mode, adc) = (
                Place::Demod { page: 1, addr: 0xb1 },
                Place::Demod { page: 0, addr: 0x08 },
            );
            let (low, zero) = (low_if(hw), zero_if(hw));
            &&& low.res is Ok ==> held(low.hw, mode) == 0x1a && held(low.hw, adc) == 0x4d
            &&& zero.res is Ok ==> held(zero.hw, mode) == 0x1b && held(zero.hw, adc) == 0xcd
        }),
{
}

/// The soft reset is a pulse: bit 2 of register 1 of page 1 goes up and down again. Starting
/// the stream stalls the endpoint, in register 0x2148 of the USB block, and lets it run;
/// stopping stalls it and takes the demodulator's power, in register 0x3000 of the system
/// block.
pub proof fn lemma_switches<H: HardwareInterface>(hw: H, done: spec_fn(H) -> Seq<BusOp>)
    requires
        record::is_record(done),
    ensures
        soft_reset(hw).res is Ok ==> done(soft_reset(hw).hw) == done(hw) + seq![
            BusOp::DemodWriteReg { page: 1, addr: 0x01, val: 0x14 },
            BusOp::DemodWriteReg { page: 1, addr: 0x01, val: 0x10 },
        ],
        streaming_start(hw).res is Ok ==> done(streaming_start(hw).hw) == done(hw) + seq![
            BusOp::WriteReg16 { blk: 1, addr: 0x2148, val16: 0x1002 },
            BusOp::WriteReg16 { blk: 1, addr: 0x2148, val16: 0x0000 },
        ],
        streaming_stop(hw).res is Ok ==> done(streaming_stop(hw).hw) == done(hw) + seq![
            BusOp::WriteReg16 { blk: 1, addr: 0x2148, val16: 0x1002 },
            BusOp::WriteReg { blk: 2, addr: 0x3000, val: 0x20 },
        ],
{
}


/// Where the hardware performs every write, so does the demodulator: it is started, reset,
/// and told every frequency and rate.
pub proof fn lemma_settings_succeed<H: HardwareInterface>(hw: H, hz: u32, xtal_hz: u32)
    requires
        forall|h: H, op: BusOp| (#[trigger] h.ack(op)) is Ok,
    ensures
        baseband_init(hw).res is Ok,
        soft_reset(hw).res is Ok,
        low_if(hw).res is Ok,
        zero_if(hw).res is Ok,
        if_freq_set(hw, hz, xtal_hz).res is Ok,
        sample_rate_set(hw, hz, xtal_hz).res is Ok,
        streaming_start(hw).res is Ok,
        streaming_stop(hw).res is Ok,
{
    let first = Exchange::begin(hw)
        .reg(block::USB, usb::SYSCTL, 0x09)
        .reg16(block::USB, usb::EPA_MAXPKT, 0x0002)
        .reg16(block::USB, usb::EPA_CTL, 0x1002)
        .reg(block::SYS, sys::DEMOD_CTL1, 0x22)
        .reg(block::SYS, sys::DEMOD_CTL, sys::DEMOD_CTL_POWER_ON)
        .sleep(100)
        .demod(demod::P1_PAGE, demod::P1_SOFT_RESET, demod::P1_SOFT_RESET_ON)
        .demod(demod::P1_PAGE, demod::P1_SOFT_RESET, demod::P1_SOFT_RESET_OFF)
        .demod(demod::P1_PAGE, 0x15, 0x00)
        .demod16(demod::P1_PAGE, 0x16, 0x0000);
    let cleared = Exchange::begin(first.hw).ops(clear_ops());
    device::lemma_ops_performed(Exchange::begin(first.hw), clear_ops());
    device::lemma_ops_performed(Exchange::begin(cleared.hw), fir_ops());
}

/// Telling the demodulator a frequency or a rate, resetting it and choosing its inputs change
/// no other registers than those that are named: 0x19 to 0x1b; 0x9f, 0xa1, 0x3e and 0x3f, of
/// which the last two are cleared; 0x01; and 0xb1 and, on page 0, 0x08.
pub proof fn lemma_nothing_else_changes<H: HardwareInterface>(
    hw: H,
    hz: u32,
    xtal_hz: u32,
    held: spec_fn(H, Place) -> int,
    place: Place,
)
    requires
        record::is_memory(held),
    ensures
        (place matches Place::Demod { page, addr } ==> page != 1 || addr < 0x19 || addr > 0x1b)
            ==> held(if_freq_set(hw, hz, xtal_hz).hw, place) == held(hw, place),
        (place matches Place::Demod { page, addr } ==> page != 1 || addr != 0x9f && addr != 0xa1
            && addr != 0x3e && addr != 0x3f) ==> held(sample_rate_set(hw, hz, xtal_hz).hw, place)
            == held(hw, place),
        sample_rate_set(hw, hz, xtal_hz).res is Ok && place == (Place::Demod { page: 1, addr: 0x3e })
            ==> held(sample_rate_set(hw, hz, xtal_hz).hw, place) == 0,
        sample_rate_set(hw, hz, xtal_hz).res is Ok && place == (Place::Demod { page: 1, addr: 0x3f })
            ==> held(sample_rate_set(hw, hz, xtal_hz).hw, place) == 0,
        place != (Place::Demod { page: 1, addr: 0x01 }) ==> held(soft_reset(hw).hw, place) == held(
            hw,
            place,
        ),
        place != (Place::Demod { page: 1, addr: 0xb1 }) && place != (Place::Demod {
            page: 0,
            addr: 0x08,
        }) ==> held(low_if(hw).hw, place) == held(hw, place) && held(zero_if(hw).hw, place) == held(
            hw,
            place,
        ),
{
}

} // verus!
