//! RTL2832U register addresses and block IDs, and the conversion of
//! frequencies into register contents.
use vstd::prelude::*;

pub mod block;
pub mod demod;
pub mod sys;
pub mod tuner_ids;
pub mod usb;

verus! {

/// `bRequest` of every control transfer.
pub const BREQUEST: u8 = 0;

/// The wide intermediate frequency, in Hz.
pub const IF_FREQ_HZ: u64 = 3_570_000;

/// The crystal of most receivers, in Hz.
pub const XTAL_FREQ_HZ: u32 = 28_800_000;

/// `num / den` as a fixed-point number with 22 fractional bits, rounded down.
pub open spec fn ratio_q22(num: int, den: int) -> int {
    num * 0x40_0000 / den
}

/// Byte `k` of `n` (byte 0 is the least significant).
pub open spec fn byte_of(n: int, k: nat) -> int {
    if k == 0 {
        n % 256
    } else if k == 1 {
        n / 0x100 % 256
    } else if k == 2 {
        n / 0x1_0000 % 256
    } else {
        n / 0x100_0000 % 256
    }
}

/// The contents of the three IF frequency registers, most significant first:
/// the ratio of `if_hz` to `xtal_hz` with 22 fractional bits. The top register
/// is six bits wide.
pub fn if_freq_regs(if_hz: u32, xtal_hz: u32) -> (regs: [u8; 3])
    requires
        xtal_hz != 0,
    ensures
        regs[0] == byte_of(ratio_q22(if_hz as int, xtal_hz as int), 2) % 64,
        regs[1] == byte_of(ratio_q22(if_hz as int, xtal_hz as int), 1),
        regs[2] == byte_of(ratio_q22(if_hz as int, xtal_hz as int), 0),
{
    assert(1u64 << 22 == 0x40_0000u64) by (bit_vector);
    assert(if_hz as int * 0x40_0000 <= u64::MAX);
    let ratio: u64 = (if_hz as u64) * (1u64 << 22) / xtal_hz as u64;
    assert(((ratio >> 16) & 0x3f) == ratio / 0x1_0000 % 256 % 64
        && ((ratio >> 8) & 0xff) == ratio / 0x100 % 256
        && (ratio & 0xff) == ratio % 256) by (bit_vector);
    [((ratio >> 16) & 0x3f) as u8, ((ratio >> 8) & 0xff) as u8, (ratio & 0xff) as u8]
}

/// The contents of the four resampler registers, most significant first: the
/// ratio of `xtal_hz` to `sample_rate_hz` with 22 fractional bits. The top
/// register is six bits wide.
pub fn resample_regs(sample_rate_hz: u32, xtal_hz: u32) -> (regs: [u8; 4])
    requires
        sample_rate_hz != 0,
    ensures
        regs[0] == byte_of(ratio_q22(xtal_hz as int, sample_rate_hz as int), 3) % 64,
        regs[1] == byte_of(ratio_q22(xtal_hz as int, sample_rate_hz as int), 2),
        regs[2] == byte_of(ratio_q22(xtal_hz as int, sample_rate_hz as int), 1),
        regs[3] == byte_of(ratio_q22(xtal_hz as int, sample_rate_hz as int), 0),
{
    assert(1u64 << 22 == 0x40_0000u64) by (bit_vector);
    assert(xtal_hz as int * 0x40_0000 <= u64::MAX);
    let ratio: u64 = (xtal_hz as u64) * (1u64 << 22) / sample_rate_hz as u64;
    assert(((ratio >> 24) & 0x3f) == ratio / 0x100_0000 % 256 % 64
        && ((ratio >> 16) & 0xff) == ratio / 0x1_0000 % 256
        && ((ratio >> 8) & 0xff) == ratio / 0x100 % 256
        && (ratio & 0xff) == ratio % 256) by (bit_vector);
    [
        ((ratio >> 24) & 0x3f) as u8,
        ((ratio >> 16) & 0xff) as u8,
        ((ratio >> 8) & 0xff) as u8,
        (ratio & 0xff) as u8,
    ]
}

/// The fixed-point ratio is the greatest number of steps of 2^-22 that does not exceed the
/// quotient, and its bytes put together, the lowest first, are its 32 lowest bits.
pub proof fn lemma_ratio(num: u32, den: u32)
    requires
        den != 0,
    ensures
        ({
            let ratio = ratio_q22(num as int, den as int);
            &&& ratio * den <= num * 0x40_0000 < (ratio + 1) * den
            &&& byte_of(ratio, 0) + 0x100 * byte_of(ratio, 1) + 0x1_0000 * byte_of(ratio, 2)
                + 0x100_0000 * byte_of(ratio, 3) == ratio % 0x1_0000_0000
        }),
{
    let scaled = num * 0x40_0000;
    let ratio = scaled / den as int;
    vstd::arithmetic::div_mod::lemma_fundamental_div_mod(scaled, den as int);
    vstd::arithmetic::div_mod::lemma_mod_bound(scaled, den as int);
    assert(ratio * den <= scaled < (ratio + 1) * den) by (nonlinear_arith)
        requires
            scaled == den * ratio + scaled % den as int,
            0 <= scaled % den as int,
            scaled % (den as int) < den,
    ;
    vstd::arithmetic::div_mod::lemma_div_pos_is_pos(scaled, den as int);
    lemma_bytes_add_up(ratio);
}

proof fn lemma_bytes_add_up(n: int)
    requires
        0 <= n,
    ensures
        byte_of(n, 0) + 0x100 * byte_of(n, 1) + 0x1_0000 * byte_of(n, 2) + 0x100_0000 * byte_of(
            n,
            3,
        ) == n % 0x1_0000_0000,
{
    assert(n / 0x1_0000 == n / 0x100 / 0x100);
    assert(n / 0x100_0000 == n / 0x1_0000 / 0x100);
    assert(n / 0x1_0000_0000 == n / 0x100_0000 / 0x100);
}

} // verus!
