//! Conversion of raw samples to levels.
//!
//! RTL-SDR samples are offset binary, interleaved I,Q,I,Q...: 0 stands for -1.0,
//! 127.5 for 0.0 and 255 for +1.0, so a sample `s` stands for (s - 127.5) / 127.5.
//! A level is this number in units of 1/255: the odd integer `2 * s - 255`.
use vstd::prelude::*;

verus! {

/// How many units a full-scale level has.
pub const FULL_SCALE: i16 = 255;

/// The level of a sample, in units of 1/255.
pub open spec fn level(s: u8) -> i16 {
    (2 * s - 255) as i16
}

/// The levels of samples.
pub open spec fn levels(src: Seq<u8>) -> Seq<i16> {
    Seq::new(src.len(), |i: int| level(src[i]))
}

/// The levels of samples with the spectrum inverted: every Q, at the odd positions,
/// has the opposite sign.
pub open spec fn levels_inverted(src: Seq<u8>) -> Seq<i16> {
    Seq::new(
        src.len(),
        |i: int|
            if i % 2 == 0 {
                level(src[i])
            } else {
                (-level(src[i])) as i16
            },
    )
}

pub trait Converter {
    /// Convert interleaved u8 samples to interleaved levels.
    fn convert(&self, src: &[u8], dst: &mut Vec<i16>)
        requires
            src@.len() == old(dst)@.len(),
        ensures
            final(dst)@ == levels(src@),
    ;

    /// Convert interleaved u8 samples to interleaved levels, inverting the spectrum
    /// (Q = -Q). This is commonly required for the RTL-SDR Blog V4 when using the HF
    /// upconverter.
    fn convert_inverted(&self, src: &[u8], dst: &mut Vec<i16>)
        requires
            src@.len() == old(dst)@.len(),
            src@.len() % 2 == 0,
        ensures
            final(dst)@ == levels_inverted(src@),
    ;
}

/// Converts sample by sample.
pub struct ScalarConverter;

impl Converter for ScalarConverter {
    fn convert(&self, src: &[u8], dst: &mut Vec<i16>) {
        convert(src, dst);
    }

    fn convert_inverted(&self, src: &[u8], dst: &mut Vec<i16>) {
        convert_inverted(src, dst);
    }
}

/// Convert RTL-SDR u8 offset-binary samples to levels.
pub fn convert(src: &[u8], dst: &mut Vec<i16>)
    requires
        src@.len() == old(dst)@.len(),
    ensures
        final(dst)@ == levels(src@),
{
    let mut i: usize = 0;
    while i < src.len()
        invariant
            i <= src@.len(),
            src@.len() == dst@.len(),
            forall|j: int| 0 <= j < i ==> #[trigger] dst@[j] == level(src@[j]),
        decreases src@.len() - i,
    {
        dst[i] = 2 * src[i] as i16 - FULL_SCALE;
        i = i + 1;
    }
    assert(dst@ =~= levels(src@));
}

/// Convert RTL-SDR u8 offset-binary samples to levels with spectral inversion
/// (Q = -Q).
pub fn convert_inverted(src: &[u8], dst: &mut Vec<i16>)
    requires
        src@.len() == old(dst)@.len(),
        src@.len() % 2 == 0,
    ensures
        final(dst)@ == levels_inverted(src@),
{
    let mut i: usize = 0;
    while i < src.len()
        invariant
            i <= src@.len(),
            i % 2 == 0,
            src@.len() % 2 == 0,
            src@.len() == dst@.len(),
            forall|j: int| 0 <= j < i ==> #[trigger] dst@[j] == levels_inverted(src@)[j],
        decreases src@.len() - i,
    {
        dst[i] = 2 * src[i] as i16 - FULL_SCALE;
        dst[i + 1] = FULL_SCALE - 2 * src[i + 1] as i16;
        i = i + 2;
    }
    assert(dst@ =~= levels_inverted(src@));
}

/// Levels lie within full scale, no two samples have the same level, and samples
/// that add up to 255 have opposite levels.
pub proof fn lemma_levels(s: u8, t: u8)
    ensures
        -255 <= level(s) <= 255,
        level(s) == level(t) ==> s == t,
        s + t == 255 ==> level(s) == -level(t),
{
}

/// Inversion changes the sign of every Q and nothing else.
pub proof fn lemma_inversion_conjugates(src: Seq<u8>, i: int)
    requires
        0 <= i < src.len(),
    ensures
        levels_inverted(src)[i] == if i % 2 == 0 {
            levels(src)[i] as int
        } else {
            -levels(src)[i]
        },
{
}

/// Levels rise by two units with every step of the samples, from the negative full scale,
/// and the levels of a block are those of its samples, one by one.
pub proof fn lemma_levels_rise(src: Seq<u8>, i: int)
    requires
        0 <= i < src.len(),
    ensures
        level(src[i]) + 255 == 2 * src[i],
        levels(src).len() == src.len(),
        levels(src)[i] + 255 == 2 * src[i],
        levels_inverted(src).len() == src.len(),
        i % 2 == 0 ==> levels_inverted(src)[i] + 255 == 2 * src[i],
        i % 2 == 1 ==> 255 - levels_inverted(src)[i] == 2 * src[i],
{
}

} // verus!
