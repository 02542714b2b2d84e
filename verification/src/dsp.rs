//! The parts of the DSP pipeline that do not depend on what a sample is: how I and Q are
//! told apart; which samples a decimating filter sees, across block boundaries; delay
//! lines; and when an audio AGC holds its gain.
//!
//! A naive decimator just discards N-1 of every N samples. That aliases
//! high-frequency content back into the baseband. A proper decimator runs a low-pass
//! FIR filter first, *then* picks every Nth output sample. [`Decimator`] keeps the
//! history that makes this correct across blocks; what the filter does with the
//! samples that it sees is left to a function.
use vstd::arithmetic::div_mod::{
    lemma_div_pos_is_pos, lemma_fundamental_div_mod, lemma_mod_bound,
};
use vstd::prelude::*;

verus! {

// ── Positions ───────────────────────────────────────────────────────────────
/// How many of the positions `phase`, `phase + factor`, ... are below `len`.
pub open spec fn count_below(phase: int, factor: int, len: int) -> int {
    if phase >= len {
        0
    } else {
        (len - phase - 1) / factor + 1
    }
}

/// The first of these positions that is not below `len`, counted from `len` on.
pub open spec fn phase_after(phase: int, factor: int, len: int) -> int {
    phase + count_below(phase, factor, len) * factor - len
}

/// The count is where the positions pass `len`.
pub proof fn lemma_count_below(phase: int, factor: int, len: int)
    requires
        0 <= phase,
        0 < factor,
        0 <= len,
    ensures
        0 <= count_below(phase, factor, len),
        len <= phase + count_below(phase, factor, len) * factor,
        forall|k: int|
            0 <= k < count_below(phase, factor, len) ==> phase + #[trigger] (k * factor) < len,
{
    let c = count_below(phase, factor, len);
    if phase < len {
        let n = len - phase - 1;
        lemma_fundamental_div_mod(n, factor);
        lemma_mod_bound(n, factor);
        lemma_div_pos_is_pos(n, factor);
        assert(c * factor == factor * (n / factor) + factor) by (nonlinear_arith)
            requires
                c == n / factor + 1,
        ;
        assert forall|k: int| 0 <= k < c implies phase + #[trigger] (k * factor) < len by {
            assert(k * factor <= factor * (n / factor)) by (nonlinear_arith)
                requires
                    0 <= k <= n / factor,
                    0 < factor,
            ;
        }
    }
}

/// Only the count is where the positions pass `len`.
pub proof fn lemma_count_below_unique(phase: int, factor: int, len: int, c: int)
    requires
        0 <= phase,
        0 < factor,
        0 <= len,
        0 <= c,
        len <= phase + c * factor,
        c > 0 ==> phase + (c - 1) * factor < len,
    ensures
        c == count_below(phase, factor, len),
{
    let d = count_below(phase, factor, len);
    lemma_count_below(phase, factor, len);
    if c < d {
        assert(phase + c * factor < len);
    } else if d < c {
        assert(d * factor <= (c - 1) * factor) by (nonlinear_arith)
            requires
                d <= c - 1,
                0 < factor,
        ;
    }
}

/// The positions in two blocks in a row are those in the two together.
pub proof fn lemma_count_below_splits(phase: int, factor: int, first: int, second: int)
    requires
        0 <= phase,
        0 < factor,
        0 <= first,
        0 <= second,
    ensures
        ({
            let c1 = count_below(phase, factor, first);
            let p1 = phase_after(phase, factor, first);
            let c2 = count_below(p1, factor, second);
            &&& 0 <= p1
            &&& count_below(phase, factor, first + second) == c1 + c2
            &&& phase_after(phase, factor, first + second) == phase_after(p1, factor, second)
        }),
{
    let c1 = count_below(phase, factor, first);
    let p1 = phase_after(phase, factor, first);
    lemma_count_below(phase, factor, first);
    let c2 = count_below(p1, factor, second);
    lemma_count_below(p1, factor, second);
    let c = c1 + c2;
    assert(c * factor == c1 * factor + c2 * factor) by (nonlinear_arith)
        requires
            c == c1 + c2,
    ;
    if c > 0 {
        if c2 > 0 {
            assert((c - 1) * factor == c1 * factor + (c2 - 1) * factor) by (nonlinear_arith)
                requires
                    c == c1 + c2,
            ;
            assert(p1 + (c2 - 1) * factor < second);
        } else {
            assert(phase + (c1 - 1) * factor < first);
        }
    }
    lemma_count_below_unique(phase, factor, first + second, c);
}

// ── Windows ─────────────────────────────────────────────────────────────────
/// What the filter sees for each output: `taps` samples of the history followed by
/// the input, from every `factor`-th position on.
pub open spec fn windows<A>(
    history: Seq<A>,
    input: Seq<A>,
    taps: int,
    factor: int,
    phase: int,
) -> Seq<Seq<A>> {
    Seq::new(
        count_below(phase, factor, input.len() as int) as nat,
        |k: int| window(history + input, taps, phase + k * factor),
    )
}

pub open spec fn window<A>(extended: Seq<A>, taps: int, start: int) -> Seq<A> {
    extended.subrange(start, start + taps)
}

/// The last samples of the history followed by the input, as many as the history
/// has.
pub open spec fn history_after<A>(history: Seq<A>, input: Seq<A>) -> Seq<A> {
    (history + input).subrange(input.len() as int, (history.len() + input.len()) as int)
}

/// Filtering a stream in blocks is filtering it in one piece: the same windows, and
/// the same history and phase at the end.
pub proof fn lemma_block_boundary_continuity<A>(
    history: Seq<A>,
    first: Seq<A>,
    second: Seq<A>,
    taps: int,
    factor: int,
    phase: int,
)
    requires
        history.len() == taps - 1,
        0 <= phase,
        0 < factor,
    ensures
        windows(history, first + second, taps, factor, phase) == windows(
            history,
            first,
            taps,
            factor,
            phase,
        ) + windows(
            history_after(history, first),
            second,
            taps,
            factor,
            phase_after(phase, factor, first.len() as int),
        ),
        history_after(history, first + second) == history_after(
            history_after(history, first),
            second,
        ),
        phase_after(phase, factor, (first + second).len() as int) == phase_after(
            phase_after(phase, factor, first.len() as int),
            factor,
            second.len() as int,
        ),
{
    let len1 = first.len() as int;
    let len2 = second.len() as int;
    let c1 = count_below(phase, factor, len1);
    let p1 = phase_after(phase, factor, len1);
    let whole = history + (first + second);
    let h1 = history_after(history, first);
    lemma_count_below_splits(phase, factor, len1, len2);
    lemma_count_below(phase, factor, len1);
    lemma_count_below(p1, factor, len2);
    assert((first + second).len() == len1 + len2);
    let all = windows(history, first + second, taps, factor, phase);
    let one = windows(history, first, taps, factor, phase);
    let two = windows(h1, second, taps, factor, p1);
    assert forall|k: int| 0 <= k < all.len() implies all[k] == (one + two)[k] by {
        if k < c1 {
            assert(phase + k * factor < len1);
            assert(0 <= k * factor) by (nonlinear_arith)
                requires
                    0 <= k,
                    0 < factor,
            ;
            assert(window(whole, taps, phase + k * factor) =~= window(
                history + first,
                taps,
                phase + k * factor,
            ));
        } else {
            let j = k - c1;
            assert(phase + k * factor == len1 + (p1 + j * factor)) by (nonlinear_arith)
                requires
                    p1 == phase + c1 * factor - len1,
                    j == k - c1,
            ;
            assert(p1 + j * factor < len2);
            assert(0 <= j * factor) by (nonlinear_arith)
                requires
                    0 <= j,
                    0 < factor,
            ;
            assert(window(whole, taps, phase + k * factor) =~= window(
                h1 + second,
                taps,
                p1 + j * factor,
            ));
        }
    }
    assert(all =~= one + two);
    assert(history_after(history, first + second) =~= history_after(h1, second));
}

/// Whether `dot` may answer `out` for a window and the taps.
pub open spec fn is_output<A, F: Fn(&[A], &[A]) -> A>(
    dot: F,
    win: Seq<A>,
    taps: Seq<A>,
    out: A,
) -> bool {
    exists|w: &[A], t: &[A]|
        w@ == win && t@ == taps && #[trigger] call_ensures(dot, (w, t), out)
}

// ── Decimator ───────────────────────────────────────────────────────────────
/// Stateful FIR decimator.
///
/// Keeps a history of `taps.len() - 1` samples so that the filter sees the right
/// samples across block boundaries: essential when processing a continuous stream.
pub struct Decimator<A> {
    /// FIR coefficients.
    pub taps: Vec<A>,
    /// The last `taps.len() - 1` input samples.
    pub history: Vec<A>,
    /// Keep every Nth filtered sample.
    pub factor: usize,
    /// Where in the next block the first filtered sample is.
    pub phase: usize,
}

impl<A: Copy> Decimator<A> {
    pub open spec fn wf(self) -> bool {
        &&& self.taps@.len() > 0
        &&& self.history@.len() == self.taps@.len() - 1
        &&& self.factor > 0
    }

    /// Whether a block of `len` samples can be processed.
    pub open spec fn accepts(self, len: nat) -> bool {
        &&& self.phase + self.factor <= usize::MAX
        &&& len + self.factor <= usize::MAX
        &&& self.history@.len() + len <= usize::MAX
    }

    /// The windows of the next block.
    pub open spec fn windows_of(self, input: Seq<A>) -> Seq<Seq<A>> {
        windows(
            self.history@,
            input,
            self.taps@.len() as int,
            self.factor as int,
            self.phase as int,
        )
    }

    /// Whether `output` is what filtering the next block gives: for each window what `dot`
    /// answers.
    pub open spec fn gives<F: Fn(&[A], &[A]) -> A>(
        self,
        input: Seq<A>,
        dot: F,
        output: Seq<A>,
    ) -> bool {
        &&& output.len() == self.windows_of(input).len()
        &&& forall|k: int|
            0 <= k < output.len() ==> is_output(
                dot,
                self.windows_of(input)[k],
                self.taps@,
                #[trigger] output[k],
            )
    }

    /// Whether filtering the next block leaves the decimator in the state `after`.
    pub open spec fn leads_to(self, input: Seq<A>, after: Self) -> bool {
        &&& after.taps@ == self.taps@
        &&& after.factor == self.factor
        &&& after.history@ == history_after(self.history@, input)
        &&& after.phase == phase_after(
            self.phase as int,
            self.factor as int,
            input.len() as int,
        )
    }

    /// Whether two decimators are in the same state.
    pub open spec fn is_like(self, other: Self) -> bool {
        &&& self.taps@ == other.taps@
        &&& self.factor == other.factor
        &&& self.history@ == other.history@
        &&& self.phase == other.phase
    }

    /// Whether the decimator has seen nothing but silence.
    pub open spec fn is_fresh(self, silence: A) -> bool {
        &&& self.phase == 0
        &&& self.history@ == Seq::new((self.taps@.len() - 1) as nat, |i: int| silence)
    }

    /// Creates a decimator with a silent history.
    pub fn new(factor: usize, taps: Vec<A>, silence: A) -> (dec: Self)
        requires
            factor > 0,
            taps@.len() > 0,
        ensures
            dec.wf(),
            dec.taps@ == taps@,
            dec.factor == factor,
            dec.is_fresh(silence),
    {
        let history = filled(taps.len() - 1, silence);
        Decimator { taps, history, factor, phase: 0 }
    }

    /// Filters a block; `dot` works out an output from a window and the taps. The
    /// outputs take the place of what `output` holds.
    pub fn process_into<F: Fn(&[A], &[A]) -> A>(
        &mut self,
        input: &[A],
        output: &mut Vec<A>,
        dot: F,
    )
        requires
            old(self).wf(),
            old(self).accepts(input@.len()),
            forall|w: &[A], t: &[A]|
                w@.len() == t@.len() ==> call_requires(dot, (w, t)),
        ensures
            final(self).wf(),
            old(self).leads_to(input@, *final(self)),
            old(self).gives(input@, dot, final(output)@),
    {
        let extended: Vec<A> = joined(self.history.as_slice(), input);
        let taps_len: usize = self.taps.len();
        let len: usize = input.len();
        let factor: usize = self.factor;
        output.clear();
        let mut i: usize = self.phase;
        let ghost phase = self.phase as int;
        let ghost wins = self.windows_of(input@);
        proof {
            lemma_count_below(phase, factor as int, len as int);
        }
        while i < len
            invariant
                self.wf(),
                *self == *old(self),
                len == input@.len(),
                taps_len == self.taps@.len(),
                factor == self.factor,
                phase == self.phase,
                len + factor <= usize::MAX,
                self.history@.len() + len <= usize::MAX,
                extended@ == self.history@ + input@,
                wins == self.windows_of(input@),
                0 <= phase,
                i == phase + output@.len() * factor,
                output@.len() > 0 ==> phase + (output@.len() - 1) * factor < len,
                forall|w: &[A], t: &[A]|
                    w@.len() == t@.len() ==> call_requires(dot, (w, t)),
                forall|k: int|
                    0 <= k < output@.len() ==> is_output(
                        dot,
                        window(extended@, taps_len as int, phase + k * factor),
                        self.taps@,
                        #[trigger] output@[k],
                    ),
            decreases len + factor - i,
        {
            let w: &[A] = &extended[i..i + taps_len];
            let t: &[A] = self.taps.as_slice();
            let acc = dot(w, t);
            let ghost before = output@;
            let ghost n = before.len() as int;
            output.push(acc);
            proof {
                assert(w@ == window(extended@, taps_len as int, phase + n * factor));
                assert((n + 1) * factor == n * factor + factor) by (nonlinear_arith);
                assert(is_output(dot, w@, t@, acc));
                assert forall|k: int| 0 <= k < output@.len() implies is_output(
                    dot,
                    window(extended@, taps_len as int, phase + k * factor),
                    self.taps@,
                    #[trigger] output@[k],
                ) by {
                    if k < n {
                        assert(output@[k] == before[k]);
                    }
                }
            }
            i = i + factor;
        }
        proof {
            lemma_count_below_unique(phase, factor as int, len as int, output@.len() as int);
        }
        self.history = copied(extended.as_slice(), len, extended.len());
        assert(self.history@ =~= history_after(old(self).history@, input@));
        self.phase = i - len;
        assert forall|k: int| 0 <= k < output@.len() implies is_output(
            dot,
            wins[k],
            old(self).taps@,
            #[trigger] output@[k],
        ) by {
            assert(wins[k] == window(extended@, taps_len as int, phase + k * factor));
        }
    }

    /// Filters a block; `dot` works out an output from a window and the taps.
    pub fn process<F: Fn(&[A], &[A]) -> A>(&mut self, input: &[A], dot: F) -> (output: Vec<A>)
        requires
            old(self).wf(),
            old(self).accepts(input@.len()),
            forall|w: &[A], t: &[A]|
                w@.len() == t@.len() ==> call_requires(dot, (w, t)),
        ensures
            final(self).wf(),
            old(self).leads_to(input@, *final(self)),
            old(self).gives(input@, dot, output@),
    {
        let mut output: Vec<A> = Vec::new();
        self.process_into(input, &mut output, dot);
        output
    }

    /// Forgets the history and the phase. Call between unrelated streams.
    pub fn reset(&mut self, silence: A)
        requires
            old(self).wf(),
        ensures
            final(self).wf(),
            final(self).taps@ == old(self).taps@,
            final(self).factor == old(self).factor,
            final(self).is_fresh(silence),
    {
        self.history = filled(self.history.len(), silence);
        self.phase = 0;
    }

    /// Replaces the coefficients by as many others, without touching the history.
    pub fn set_taps(&mut self, taps: Vec<A>)
        requires
            old(self).wf(),
            taps@.len() == old(self).taps@.len(),
        ensures
            final(self).wf(),
            final(self).taps@ == taps@,
            final(self).history@ == old(self).history@,
            final(self).factor == old(self).factor,
            final(self).phase == old(self).phase,
    {
        self.taps = taps;
    }
}

/// The elements of `s` from `from` up to `to`.
fn copied<A: Copy>(s: &[A], from: usize, to: usize) -> (v: Vec<A>)
    requires
        from <= to <= s@.len(),
    ensures
        v@ == s@.subrange(from as int, to as int),
{
    let mut v: Vec<A> = Vec::with_capacity(to - from);
    let mut i: usize = from;
    while i < to
        invariant
            from <= i <= to <= s@.len(),
            v@ == s@.subrange(from as int, i as int),
        decreases to - i,
    {
        v.push(s[i]);
        i = i + 1;
        assert(v@ =~= s@.subrange(from as int, i as int));
    }
    v
}

/// One sequence after the other.
fn joined<A: Copy>(a: &[A], b: &[A]) -> (v: Vec<A>)
    ensures
        v@ == a@ + b@,
{
    let mut v: Vec<A> = copied(a, 0, a.len());
    assert(v@ =~= a@ + b@.take(0));
    let mut i: usize = 0;
    while i < b.len()
        invariant
            i <= b@.len(),
            v@ == a@ + b@.take(i as int),
        decreases b@.len() - i,
    {
        v.push(b[i]);
        i = i + 1;
        assert(v@ =~= a@ + b@.take(i as int));
    }
    assert(b@.take(i as int) =~= b@);
    v
}

/// `n` times the same.
fn filled<A: Copy>(n: usize, value: A) -> (v: Vec<A>)
    ensures
        v@ == Seq::new(n as nat, |i: int| value),
{
    let mut v: Vec<A> = Vec::with_capacity(n);
    let mut i: usize = 0;
    while i < n
        invariant
            i <= n,
            v@ == Seq::new(i as nat, |j: int| value),
        decreases n - i,
    {
        v.push(value);
        i = i + 1;
        assert(v@ =~= Seq::new(i as nat, |j: int| value));
    }
    v
}

/// From phase zero, a block whose length is a multiple of the factor gives one output
/// for each multiple, and leaves the phase at zero.
pub proof fn lemma_output_length(factor: int, outputs: int)
    requires
        0 < factor,
        0 <= outputs,
    ensures
        count_below(0, factor, outputs * factor) == outputs,
        phase_after(0, factor, outputs * factor) == 0,
{
    assert(0 <= outputs * factor) by (nonlinear_arith)
        requires
            0 < factor,
            0 <= outputs,
    ;
    assert((outputs - 1) * factor == outputs * factor - factor) by (nonlinear_arith);
    lemma_count_below_unique(0, factor, outputs * factor, outputs);
}

/// The number of outputs is the number of samples over the factor, rounded up, where
/// the first output is that of the first sample.
pub proof fn lemma_output_count(factor: int, len: int)
    requires
        0 < factor,
        0 <= len,
    ensures
        count_below(0, factor, len) == (len + factor - 1) / factor,
{
    if len == 0 {
        vstd::arithmetic::div_mod::lemma_basic_div(factor - 1, factor);
    } else {
        vstd::arithmetic::div_mod::lemma_div_plus_one(len - 1, factor);
    }
}

/// Whether `dot` is a function of the window and the taps: it answers the same to the
/// same samples.
pub open spec fn is_function<A, F: Fn(&[A], &[A]) -> A>(dot: F) -> bool {
    forall|w1: &[A], t1: &[A], o1: A, w2: &[A], t2: &[A], o2: A|
        w1@ == w2@ && t1@ == t2@ && #[trigger] call_ensures(dot, (w1, t1), o1)
            && #[trigger] call_ensures(dot, (w2, t2), o2) ==> o1 == o2
}

/// Decimators in the same state give the same outputs for the same block, and are in the
/// same state again afterwards.
pub proof fn lemma_like_decimators_agree<A: Copy, F: Fn(&[A], &[A]) -> A>(
    one: Decimator<A>,
    one_after: Decimator<A>,
    one_output: Seq<A>,
    two: Decimator<A>,
    two_after: Decimator<A>,
    two_output: Seq<A>,
    input: Seq<A>,
    dot: F,
)
    requires
        is_function::<A, F>(dot),
        one.is_like(two),
        one.leads_to(input, one_after),
        two.leads_to(input, two_after),
        one.gives(input, dot, one_output),
        two.gives(input, dot, two_output),
    ensures
        one_output == two_output,
        one_after.is_like(two_after),
{
    assert forall|k: int| 0 <= k < one_output.len() implies one_output[k] == two_output[k] by {
        assert(is_output(dot, one.windows_of(input)[k], one.taps@, one_output[k]));
        assert(is_output(dot, two.windows_of(input)[k], two.taps@, two_output[k]));
    }
    assert(one_output =~= two_output);
}

/// Splitting a stream into blocks does not change its output: two decimators in the same
/// state, of which one is given `first` and `second` in one piece and the other one after
/// the other, give the same outputs. From the start on these are as many as the samples
/// over the factor, rounded up.
pub proof fn lemma_blocks_give_the_same<A: Copy, F: Fn(&[A], &[A]) -> A>(
    one: Decimator<A>,
    whole: Seq<A>,
    two: Decimator<A>,
    two_after: Decimator<A>,
    first_output: Seq<A>,
    second_output: Seq<A>,
    first: Seq<A>,
    second: Seq<A>,
    dot: F,
)
    requires
        is_function::<A, F>(dot),
        one.wf(),
        one.is_like(two),
        one.gives(first + second, dot, whole),
        two.gives(first, dot, first_output),
        two.leads_to(first, two_after),
        two_after.gives(second, dot, second_output),
    ensures
        whole == first_output + second_output,
        one.phase == 0 ==> whole.len() == (first.len() + second.len() + one.factor - 1)
            / one.factor as int,
{
    lemma_block_boundary_continuity(
        one.history@,
        first,
        second,
        one.taps@.len() as int,
        one.factor as int,
        one.phase as int,
    );
    let all = one.windows_of(first + second);
    let parts = first_output + second_output;
    assert(all == two.windows_of(first) + two_after.windows_of(second));
    assert forall|k: int| 0 <= k < whole.len() implies whole[k] == parts[k] by {
        assert(is_output(dot, all[k], one.taps@, whole[k]));
        if k < first_output.len() {
            assert(is_output(dot, two.windows_of(first)[k], two.taps@, first_output[k]));
        } else {
            let j = k - first_output.len();
            assert(is_output(dot, two_after.windows_of(second)[j], two.taps@, second_output[j]));
        }
    }
    assert(whole =~= parts);
    if one.phase == 0 {
        lemma_output_count(one.factor as int, (first.len() + second.len()) as int);
    }
    lemma_count_below(
        one.phase as int,
        one.factor as int,
        (first.len() + second.len()) as int,
    );
}

/// Whether `states` are the states that a decimator goes through, and `outputs` what it
/// gives, while it is given `blocks` one after the other.
pub open spec fn is_run<A: Copy, F: Fn(&[A], &[A]) -> A>(
    states: Seq<Decimator<A>>,
    blocks: Seq<Seq<A>>,
    outputs: Seq<Seq<A>>,
    dot: F,
) -> bool {
    &&& states.len() == blocks.len() + 1
    &&& outputs.len() == blocks.len()
    &&& forall|i: int| #![trigger blocks[i]]
        0 <= i < blocks.len() ==> states[i].leads_to(blocks[i], states[i + 1])
            && states[i].gives(blocks[i], dot, outputs[i])
}

/// A decimator that has been reset gives what a new one with the same taps and factor
/// gives, for every block and all later blocks.
pub proof fn lemma_reset_is_new<A: Copy, F: Fn(&[A], &[A]) -> A>(
    reset: Seq<Decimator<A>>,
    reset_outputs: Seq<Seq<A>>,
    new: Seq<Decimator<A>>,
    new_outputs: Seq<Seq<A>>,
    blocks: Seq<Seq<A>>,
    dot: F,
    silence: A,
)
    requires
        is_function::<A, F>(dot),
        is_run(reset, blocks, reset_outputs, dot),
        is_run(new, blocks, new_outputs, dot),
        reset[0].is_fresh(silence),
        new[0].is_fresh(silence),
        reset[0].taps@ == new[0].taps@,
        reset[0].factor == new[0].factor,
    ensures
        reset_outputs == new_outputs,
{
    assert(reset[0].is_like(new[0]));
    lemma_runs_agree(reset, reset_outputs, new, new_outputs, blocks, dot, blocks.len());
    assert(reset_outputs =~= new_outputs);
}

proof fn lemma_runs_agree<A: Copy, F: Fn(&[A], &[A]) -> A>(
    one: Seq<Decimator<A>>,
    one_outputs: Seq<Seq<A>>,
    two: Seq<Decimator<A>>,
    two_outputs: Seq<Seq<A>>,
    blocks: Seq<Seq<A>>,
    dot: F,
    n: nat,
)
    requires
        is_function::<A, F>(dot),
        is_run(one, blocks, one_outputs, dot),
        is_run(two, blocks, two_outputs, dot),
        one[0].is_like(two[0]),
        n <= blocks.len(),
    ensures
        one[n as int].is_like(two[n as int]),
        forall|i: int| 0 <= i < n ==> #[trigger] one_outputs[i] == two_outputs[i],
    decreases n,
{
    if n > 0 {
        let i = n - 1;
        lemma_runs_agree(one, one_outputs, two, two_outputs, blocks, dot, i as nat);
        lemma_like_decimators_agree(
            one[i],
            one[i + 1],
            one_outputs[i],
            two[i],
            two[i + 1],
            two_outputs[i],
            blocks[i],
            dot,
        );
    }
}

// ── Interleaving ────────────────────────────────────────────────────────────
/// The samples at the even positions.
pub open spec fn even_samples<A>(iq: Seq<A>) -> Seq<A> {
    Seq::new((iq.len() / 2) as nat, |k: int| iq[2 * k])
}

/// The samples at the odd positions.
pub open spec fn odd_samples<A>(iq: Seq<A>) -> Seq<A> {
    Seq::new((iq.len() / 2) as nat, |k: int| iq[2 * k + 1])
}

/// The samples of two sequences in turn, as far as both reach.
pub open spec fn interleaved<A>(i: Seq<A>, q: Seq<A>) -> Seq<A> {
    let n = if i.len() < q.len() {
        i.len()
    } else {
        q.len()
    };
    Seq::new(
        2 * n,
        |k: int|
            if k % 2 == 0 {
                i[k / 2]
            } else {
                q[k / 2]
            },
    )
}

/// Splits interleaved samples into I and Q.
pub fn split_iq<A: Copy>(iq: &[A]) -> (r: (Vec<A>, Vec<A>))
    ensures
        r.0@ == even_samples(iq@),
        r.1@ == odd_samples(iq@),
{
    let n: usize = iq.len() / 2;
    let mut i_buf: Vec<A> = Vec::with_capacity(n);
    let mut q_buf: Vec<A> = Vec::with_capacity(n);
    let mut k: usize = 0;
    while k < n
        invariant
            k <= n,
            n == iq@.len() / 2,
            iq@.len() <= usize::MAX,
            i_buf@ == even_samples(iq@).take(k as int),
            q_buf@ == odd_samples(iq@).take(k as int),
        decreases n - k,
    {
        i_buf.push(iq[k * 2]);
        q_buf.push(iq[k * 2 + 1]);
        k = k + 1;
        assert(i_buf@ =~= even_samples(iq@).take(k as int));
        assert(q_buf@ =~= odd_samples(iq@).take(k as int));
    }
    assert(i_buf@ =~= even_samples(iq@));
    assert(q_buf@ =~= odd_samples(iq@));
    (i_buf, q_buf)
}

/// Interleaves I and Q, as far as both reach.
pub fn join_iq<A: Copy>(i: &[A], q: &[A]) -> (iq: Vec<A>)
    ensures
        iq@ == interleaved(i@, q@),
{
    let n: usize = if i.len() < q.len() {
        i.len()
    } else {
        q.len()
    };
    let mut iq: Vec<A> = Vec::new();
    let mut k: usize = 0;
    while k < n
        invariant
            k <= n,
            n == if i@.len() < q@.len() {
                i@.len()
            } else {
                q@.len()
            },
            iq@ == interleaved(i@, q@).take(2 * k),
        decreases n - k,
    {
        iq.push(i[k]);
        iq.push(q[k]);
        k = k + 1;
        assert(iq@ =~= interleaved(i@, q@).take(2 * k));
    }
    assert(iq@ =~= interleaved(i@, q@));
    iq
}

/// Splitting and joining gives whole pairs back.
pub proof fn lemma_split_then_join<A>(iq: Seq<A>)
    requires
        iq.len() % 2 == 0,
    ensures
        interleaved(even_samples(iq), odd_samples(iq)) == iq,
{
    assert(interleaved(even_samples(iq), odd_samples(iq)) =~= iq);
}

/// Joining and splitting gives both parts back.
pub proof fn lemma_join_then_split<A>(i: Seq<A>, q: Seq<A>)
    requires
        i.len() == q.len(),
    ensures
        even_samples(interleaved(i, q)) == i,
        odd_samples(interleaved(i, q)) == q,
{
    assert(even_samples(interleaved(i, q)) =~= i);
    assert(odd_samples(interleaved(i, q)) =~= q);
}

// ── I and Q ─────────────────────────────────────────────────────────────────
/// A decimator for I and one for Q.
pub struct IqDecimator<A> {
    pub i: Decimator<A>,
    pub q: Decimator<A>,
}

impl<A: Copy> IqDecimator<A> {
    pub open spec fn wf(self) -> bool {
        self.i.wf() && self.q.wf() && self.i.taps@.len() == self.q.taps@.len()
    }

    /// Whether blocks of `len` samples of either kind can be processed.
    pub open spec fn accepts(self, len: nat) -> bool {
        self.i.accepts(len) && self.q.accepts(len)
    }

    /// Whether both decimators have seen nothing but silence.
    pub open spec fn is_fresh(self, silence: A) -> bool {
        self.i.is_fresh(silence) && self.q.is_fresh(silence)
    }

    /// Whether two have the same taps and factors.
    pub open spec fn has_filter_of(self, other: Self) -> bool {
        &&& self.i.taps@ == other.i.taps@
        &&& self.i.factor == other.i.factor
        &&& self.q.taps@ == other.q.taps@
        &&& self.q.factor == other.q.factor
    }

    /// Whether `output` is what filtering I and Q gives, interleaved.
    pub open spec fn gives<F: Fn(&[A], &[A]) -> A>(
        self,
        i: Seq<A>,
        q: Seq<A>,
        dot: F,
        output: Seq<A>,
    ) -> bool {
        exists|i_out: Seq<A>, q_out: Seq<A>|
            #[trigger] self.i.gives(i, dot, i_out) && #[trigger] self.q.gives(q, dot, q_out)
                && output == interleaved(i_out, q_out)
    }

    /// Creates two decimators with the same taps and silent histories.
    pub fn new(factor: usize, taps: Vec<A>, silence: A) -> (dec: Self)
        requires
            factor > 0,
            taps@.len() > 0,
        ensures
            dec.wf(),
            dec.i.taps@ == taps@,
            dec.q.taps@ == taps@,
            dec.i.factor == factor,
            dec.q.factor == factor,
            dec.is_fresh(silence),
    {
        let copy: Vec<A> = copied(taps.as_slice(), 0, taps.len());
        assert(copy@ =~= taps@);
        IqDecimator {
            i: Decimator::new(factor, copy, silence),
            q: Decimator::new(factor, taps, silence),
        }
    }

    /// Filters a block of I and one of Q; returns the outputs interleaved.
    pub fn process_split<F: Fn(&[A], &[A]) -> A + Copy>(&mut self, i: &[A], q: &[A], dot: F) -> (iq:
        Vec<A>)
        requires
            old(self).wf(),
            old(self).i.accepts(i@.len()),
            old(self).q.accepts(q@.len()),
            forall|w: &[A], t: &[A]|
                w@.len() == t@.len() ==> call_requires(dot, (w, t)),
        ensures
            final(self).wf(),
            old(self).i.leads_to(i@, final(self).i),
            old(self).q.leads_to(q@, final(self).q),
            old(self).gives(i@, q@, dot, iq@),
    {
        let i_out: Vec<A> = self.i.process(i, dot);
        let q_out: Vec<A> = self.q.process(q, dot);
        join_iq(i_out.as_slice(), q_out.as_slice())
    }

    /// Filters the I and the Q of interleaved samples, each for itself.
    pub fn process<F: Fn(&[A], &[A]) -> A + Copy>(&mut self, iq: &[A], dot: F) -> (output: Vec<A>)
        requires
            old(self).wf(),
            old(self).accepts((iq@.len() / 2) as nat),
            forall|w: &[A], t: &[A]|
                w@.len() == t@.len() ==> call_requires(dot, (w, t)),
        ensures
            final(self).wf(),
            old(self).i.leads_to(even_samples(iq@), final(self).i),
            old(self).q.leads_to(odd_samples(iq@), final(self).q),
            old(self).gives(even_samples(iq@), odd_samples(iq@), dot, output@),
    {
        let (i, q) = split_iq(iq);
        self.process_split(i.as_slice(), q.as_slice(), dot)
    }

    /// Forgets the histories and the phases.
    pub fn reset(&mut self, silence: A)
        requires
            old(self).wf(),
        ensures
            final(self).wf(),
            final(self).has_filter_of(*old(self)),
            final(self).is_fresh(silence),
    {
        self.i.reset(silence);
        self.q.reset(silence);
    }

    /// Replaces the coefficients by as many others, without touching the histories.
    pub fn set_taps(&mut self, taps: Vec<A>)
        requires
            old(self).wf(),
            taps@.len() == old(self).i.taps@.len(),
        ensures
            final(self).wf(),
            final(self).i.is_like(Decimator { taps: final(self).i.taps, ..old(self).i }),
            final(self).q.is_like(Decimator { taps: final(self).q.taps, ..old(self).q }),
            final(self).i.taps@ == taps@,
            final(self).q.taps@ == taps@,
    {
        let copy: Vec<A> = copied(taps.as_slice(), 0, taps.len());
        assert(copy@ =~= taps@);
        self.i.set_taps(copy);
        self.q.set_taps(taps);
    }
}

// ── Delay line ──────────────────────────────────────────────────────────────
/// Hands samples on after as many others as it holds.
pub struct DelayLine<A> {
    pub history: Vec<A>,
}

impl<A: Copy> DelayLine<A> {
    /// Creates a delay line that holds `delay` silent samples.
    pub fn new(delay: usize, silence: A) -> (line: Self)
        ensures
            line.history@ == Seq::new(delay as nat, |i: int| silence),
    {
        DelayLine { history: filled(delay, silence) }
    }

    /// Takes a block in and hands one of the same length out.
    pub fn process(&mut self, input: &[A]) -> (output: Vec<A>)
        ensures
            output@ == (old(self).history@ + input@).take(input@.len() as int),
            final(self).history@ == history_after(old(self).history@, input@),
    {
        let extended: Vec<A> = joined(self.history.as_slice(), input);
        let output: Vec<A> = copied(extended.as_slice(), 0, input.len());
        assert(output@ =~= (self.history@ + input@).take(input@.len() as int));
        self.history = copied(extended.as_slice(), input.len(), extended.len());
        assert(self.history@ =~= history_after(old(self).history@, input@));
        output
    }
}

/// Delaying a stream in blocks is delaying it in one piece.
pub proof fn lemma_delay_across_blocks<A>(history: Seq<A>, first: Seq<A>, second: Seq<A>)
    ensures
        (history + (first + second)).take((first + second).len() as int) == (history
            + first).take(first.len() as int) + (history_after(history, first) + second).take(
            second.len() as int,
        ),
        history_after(history, first + second) == history_after(
            history_after(history, first),
            second,
        ),
{
    assert((history + (first + second)).take((first + second).len() as int) =~= (history
        + first).take(first.len() as int) + (history_after(history, first) + second).take(
        second.len() as int,
    ));
    assert(history_after(history, first + second) =~= history_after(
        history_after(history, first),
        second,
    ));
}

// ── AGC hang time ───────────────────────────────────────────────────────────
/// How a sample compares to what the gain is set for.
#[derive(Debug, Clone, Copy, PartialEq, Eq, Structural)]
pub enum Loudness {
    /// Below the least level that counts as a signal.
    DeadAir,
    /// Louder than the gain is set for.
    Louder,
    /// Not louder.
    Quieter,
}

/// What becomes of the gain.
#[derive(Debug, Clone, Copy, PartialEq, Eq, Structural)]
pub enum GainStep {
    /// It stays, and the sample is not limited.
    Freeze,
    /// It goes down at once.
    Attack,
    /// It stays until the hang time is over.
    Hold,
    /// It goes up slowly.
    Decay,
}

/// Holds the gain steady for some samples after the signal was loud, so that bursts
/// do not make it pump.
#[derive(Debug, Clone, Copy, PartialEq, Eq, Structural)]
pub struct HangTimer {
    pub hang_samples: usize,
    pub counter: usize,
}

impl HangTimer {
    /// The timer and the gain's step after a sample.
    pub open spec fn stepped(self, loudness: Loudness) -> (HangTimer, GainStep) {
        let down = HangTimer {
            counter: if self.counter > 0 {
                (self.counter - 1) as usize
            } else {
                0
            },
            ..self
        };
        match loudness {
            Loudness::DeadAir => (down, GainStep::Freeze),
            Loudness::Louder => (
                HangTimer { counter: self.hang_samples, ..self },
                GainStep::Attack,
            ),
            Loudness::Quieter => (
                down,
                if self.counter > 0 {
                    GainStep::Hold
                } else {
                    GainStep::Decay
                },
            ),
        }
    }

    /// The timer after `n` samples that were not louder.
    pub open spec fn quiet_for(self, n: nat) -> HangTimer
        decreases n,
    {
        if n == 0 {
            self
        } else {
            self.quiet_for((n - 1) as nat).stepped(Loudness::Quieter).0
        }
    }

    pub fn new(hang_samples: usize) -> (timer: Self)
        ensures
            timer == (HangTimer { hang_samples, counter: 0 }),
    {
        HangTimer { hang_samples, counter: 0 }
    }

    /// Decides what becomes of the gain.
    pub fn step(&mut self, loudness: Loudness) -> (step: GainStep)
        ensures
            (*final(self), step) == old(self).stepped(loudness),
    {
        match loudness {
            Loudness::DeadAir => {
                if self.counter > 0 {
                    self.counter = self.counter - 1;
                }
                GainStep::Freeze
            },
            Loudness::Louder => {
                self.counter = self.hang_samples;
                GainStep::Attack
            },
            Loudness::Quieter => {
                if self.counter > 0 {
                    self.counter = self.counter - 1;
                    GainStep::Hold
                } else {
                    GainStep::Decay
                }
            },
        }
    }
}

/// After a loud sample the gain is held for exactly the hang time.
pub proof fn lemma_hang_time(timer: HangTimer, n: nat)
    ensures
        ({
            let loud = timer.stepped(Loudness::Louder).0;
            loud.quiet_for(n).stepped(Loudness::Quieter).1 == if n < timer.hang_samples {
                GainStep::Hold
            } else {
                GainStep::Decay
            }
        }),
{
    lemma_quiet_counts_down(timer.stepped(Loudness::Louder).0, n);
}

proof fn lemma_quiet_counts_down(timer: HangTimer, n: nat)
    ensures
        timer.quiet_for(n) == (HangTimer {
            counter: if n < timer.counter {
                (timer.counter - n) as usize
            } else {
                0
            },
            ..timer
        }),
    decreases n,
{
    if n > 0 {
        lemma_quiet_counts_down(timer, (n - 1) as nat);
    }
}

/// The filter sees, for each output, the sample at the output's position and those before
/// it, the newest last: positions are counted from the phase in steps of the factor, and
/// what came before the block is the history, whose last sample is the one just before.
pub proof fn lemma_filter_sees_the_past<A>(
    history: Seq<A>,
    input: Seq<A>,
    taps: int,
    factor: int,
    phase: int,
    k: int,
    back: int,
)
    requires
        history.len() == taps - 1,
        0 <= phase,
        0 < factor,
        0 <= k < windows(history, input, taps, factor, phase).len(),
        0 <= back < taps,
    ensures
        ({
            let seen = windows(history, input, taps, factor, phase)[k];
            let at = phase + k * factor;
            &&& at < input.len()
            &&& seen.len() == taps
            &&& seen[taps - 1 - back] == if back <= at {
                input[at - back]
            } else {
                history[history.len() + at - back]
            }
        }),
{
    lemma_count_below(phase, factor, input.len() as int);
    assert(0 <= k * factor) by (nonlinear_arith)
        requires
            0 <= k,
            0 < factor,
    ;
}

/// After a block the history is its last samples, preceded by the latest of the history
/// before where the block is shorter.
pub proof fn lemma_history_is_latest<A>(history: Seq<A>, input: Seq<A>, back: int)
    requires
        1 <= back <= history.len(),
    ensures
        history_after(history, input).len() == history.len(),
        history_after(history, input)[history.len() - back] == if back <= input.len() {
            input[input.len() - back]
        } else {
            history[history.len() + input.len() - back]
        },
{
}

/// I comes first in every pair and Q second.
pub proof fn lemma_pairs_are_i_then_q<A>(iq: Seq<A>, i: Seq<A>, q: Seq<A>, k: int)
    requires
        0 <= k,
    ensures
        2 * k + 1 < iq.len() ==> even_samples(iq)[k] == iq[2 * k] && odd_samples(iq)[k] == iq[2 * k
            + 1],
        2 * even_samples(iq).len() <= iq.len() < 2 * even_samples(iq).len() + 2,
        odd_samples(iq).len() == even_samples(iq).len(),
        k < i.len() && k < q.len() ==> interleaved(i, q)[2 * k] == i[k] && interleaved(i, q)[2 * k
            + 1] == q[k],
        interleaved(i, q).len() == 2 * i.len() || interleaved(i, q).len() == 2 * q.len(),
        interleaved(i, q).len() <= 2 * i.len() && interleaved(i, q).len() <= 2 * q.len(),
{
}

/// The gain goes down exactly at loud samples, and stays in dead air. Dead air uses the hang
/// time up as quiet samples do, and nothing changes how long it is.
pub proof fn lemma_gain_steps(timer: HangTimer, loudness: Loudness)
    ensures
        ({
            let (after, step) = timer.stepped(loudness);
            &&& step == GainStep::Attack <==> loudness == Loudness::Louder
            &&& step == GainStep::Freeze <==> loudness == Loudness::DeadAir
            &&& step == GainStep::Hold ==> timer.counter > 0
            &&& step == GainStep::Decay ==> timer.counter == 0
            &&& after.hang_samples == timer.hang_samples
            &&& loudness == Loudness::Louder ==> after.counter == timer.hang_samples
            &&& loudness != Loudness::Louder && timer.counter > 0 ==> after.counter
                == timer.counter - 1
            &&& loudness != Loudness::Louder && timer.counter == 0 ==> after.counter == 0
        }),
{
}

} // verus!
