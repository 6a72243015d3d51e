//! Precomputed one-period waveform tables with interpolating lookup.

use vstd::prelude::*;

verus! {

use vstd::arithmetic::div_mod::{
    lemma_mod_add_multiples_vanish,
    lemma_mod_bound,
    lemma_multiply_divide_lt,
};
use vstd::arithmetic::mul::{lemma_mul_inequality, lemma_mul_nonnegative};
use crate::math::{lerp, lerp_fp, wrap_phase, SAMPLE_MAX, TURN};
use crate::waveforms::{wave_sample, WaveForm};

/// One period of a periodic waveform, sampled at equally spaced phases.
///
/// The table is immutable once built; swapping waveforms means building a
/// fresh table.  Its view is the sample sequence.
#[derive(Clone, Debug)]
pub struct WaveTable {
    table: Vec<i64>,
    waveform: WaveForm,
}

/// The sample a table yields at a phase: the phase is reduced into one
/// cycle, mapped onto the table positions, and the two nearest entries are
/// interpolated linearly, wrapping around at the end of the period.
pub open spec fn table_lookup(s: Seq<i64>, phase: int) -> int
    recommends
        s.len() >= 2,
{
    let tn = TURN as int;
    let p = phase % tn;
    let pos = p * s.len();
    let i0 = pos / tn;
    let frac = pos % tn;
    let i1 = if i0 + 1 == s.len() {
        0
    } else {
        i0 + 1
    };
    lerp_fp(s[i0] as int, s[i1] as int, frac)
}

/// The table obtained by sampling one period of a generated shape at `n`
/// equally spaced phases.
pub open spec fn generated_table(wf: WaveForm, n: int) -> Seq<i64> {
    Seq::new(n as nat, |i: int| (wave_sample(wf, i * (TURN as int) / n)) as i64)
}

impl View for WaveTable {
    type V = Seq<i64>;

    closed spec fn view(&self) -> Seq<i64> {
        self.table@
    }
}

impl WaveTable {
    /// A table is well formed when it holds at least two samples, each
    /// within the representable sample range.
    pub open spec fn valid(&self) -> bool {
        2 <= self@.len() && forall|i: int|
            0 <= i < self@.len() ==> -SAMPLE_MAX <= #[trigger] self@[i] <= SAMPLE_MAX
    }

    /// The shape this table was built from.
    pub closed spec fn spec_waveform(&self) -> WaveForm {
        self.waveform
    }

    /// Build a table from an explicit sample sequence.
    pub fn new(table: Vec<i64>, waveform: WaveForm) -> (r: WaveTable)
        requires
            2 <= table@.len(),
            forall|i: int| 0 <= i < table@.len() ==> -SAMPLE_MAX <= #[trigger] table@[i] <= SAMPLE_MAX,
        ensures
            r@ == table@,
            r.valid(),
            r.spec_waveform() == waveform,
    {
        WaveTable { table, waveform }
    }

    /// Build a table by sampling one period of a generated shape at
    /// `length` equally spaced phases.
    pub fn from_waveform(waveform: WaveForm, length: usize) -> (r: WaveTable)
        requires
            waveform.has_generator(),
            2 <= length,
        ensures
            r.valid(),
            r@.len() == length,
            r@ == generated_table(waveform, length as int),
            forall|i: int|
                0 <= i < length ==> #[trigger] r@[i] == wave_sample(
                    waveform,
                    i * (TURN as int) / (length as int),
                ),
            r.spec_waveform() == waveform,
    {
        let mut table: Vec<i64> = Vec::new();
        for i in 0..length
            invariant
                table@.len() == i,
                2 <= length,
                waveform.has_generator(),
                forall|j: int|
                    0 <= j < i ==> #[trigger] table@[j] == wave_sample(
                        waveform,
                        j * (TURN as int) / (length as int),
                    ),
                forall|j: int|
                    0 <= j < i ==> -SAMPLE_MAX <= #[trigger] table@[j] <= SAMPLE_MAX,
        {
            let pos: u128 = (i as u128) * (TURN as u128);
            let phase: u32 = (pos / (length as u128)) as u32;
            proof {
                let tn = TURN as int;
                lemma_mul_nonnegative(i as int, tn);
                lemma_mul_inequality(i as int, length as int - 1, tn);
                assert((length as int - 1) * tn < (length as int) * tn) by (nonlinear_arith)
                    requires
                        2 <= length as int,
                        tn == TURN as int;
                assert((length as int) * tn == tn * (length as int)) by (nonlinear_arith);
                lemma_multiply_divide_lt(i as int * tn, length as int, tn);
            }
            let s: i64 = waveform.sample(phase);
            table.push(s);
        }
        proof {
            assert(table@ =~= generated_table(waveform, length as int));
        }
        WaveTable { table, waveform }
    }

    /// Build a table by sampling an arbitrary generator function at
    /// `length` equally spaced phases.  The generator must accept every
    /// phase and keep its samples within the representable range; each
    /// entry of the table is one of its results for the matching phase.
    pub fn from_fn<F: Fn(u32) -> i64>(function: F, length: usize) -> (r: WaveTable)
        requires
            2 <= length,
            forall|p: u32| call_requires(function, (p,)),
            forall|p: u32, s: i64|
                call_ensures(function, (p,), s) ==> -SAMPLE_MAX <= s <= SAMPLE_MAX,
        ensures
            r.valid(),
            r@.len() == length,
            forall|i: int|
                0 <= i < length ==> call_ensures(
                    function,
                    ((i * (TURN as int) / (length as int)) as u32,),
                    #[trigger] r@[i],
                ),
            r.spec_waveform() == WaveForm::Table,
    {
        let mut table: Vec<i64> = Vec::new();
        for i in 0..length
            invariant
                table@.len() == i,
                2 <= length,
                forall|p: u32| call_requires(function, (p,)),
                forall|p: u32, s: i64|
                    call_ensures(function, (p,), s) ==> -SAMPLE_MAX <= s <= SAMPLE_MAX,
                forall|j: int|
                    0 <= j < i ==> call_ensures(
                        function,
                        ((j * (TURN as int) / (length as int)) as u32,),
                        #[trigger] table@[j],
                    ),
                forall|j: int|
                    0 <= j < i ==> -SAMPLE_MAX <= #[trigger] table@[j] <= SAMPLE_MAX,
        {
            let pos: u128 = (i as u128) * (TURN as u128);
            let phase: u32 = (pos / (length as u128)) as u32;
            proof {
                let tn = TURN as int;
                lemma_mul_nonnegative(i as int, tn);
                lemma_mul_inequality(i as int, length as int - 1, tn);
                assert((length as int - 1) * tn < (length as int) * tn) by (nonlinear_arith)
                    requires
                        2 <= length as int,
                        tn == TURN as int;
                assert((length as int) * tn == tn * (length as int)) by (nonlinear_arith);
                lemma_multiply_divide_lt(i as int * tn, length as int, tn);
            }
            let s: i64 = function(phase);
            table.push(s);
        }
        WaveTable { table, waveform: WaveForm::Table }
    }

    /// Interpolated sample at an arbitrary signed phase; the phase is
    /// reduced modulo one cycle first, so every input is legal.
    pub fn lookup(&self, phase: i64) -> (r: i64)
        requires
            self.valid(),
        ensures
            r == table_lookup(self@, phase as int),
            -SAMPLE_MAX <= r <= SAMPLE_MAX,
    {
        let ph: u32 = wrap_phase(phase);
        let n: usize = self.table.len();
        proof {
            let tn = TURN as int;
            lemma_mul_nonnegative(ph as int, n as int);
            lemma_mul_inequality(ph as int, tn - 1, n as int);
            assert((tn - 1) * (n as int) < tn * (n as int)) by (nonlinear_arith)
                requires
                    2 <= n as int,
                    tn == TURN as int;
            lemma_multiply_divide_lt((ph as int) * (n as int), tn, n as int);
            lemma_mod_bound((ph as int) * (n as int), tn);
        }
        let pos: u128 = (ph as u128) * (n as u128);
        let i0: usize = (pos / (TURN as u128)) as usize;
        let frac: u32 = (pos % (TURN as u128)) as u32;
        let i1: usize = if i0 + 1 == n {
            0
        } else {
            i0 + 1
        };
        lerp(self.table[i0], self.table[i1], frac)
    }

    /// The shape this table was built from.
    pub fn get_waveform(&self) -> (r: WaveForm)
        ensures
            r == self.spec_waveform(),
    {
        self.waveform
    }

    /// Number of samples in one period.
    pub fn len(&self) -> (n: usize)
        ensures
            n == self@.len(),
    {
        self.table.len()
    }
}

/// A wavetable is periodic by construction: looking up a phase one full
/// cycle later yields exactly the same sample, whatever the table holds.
pub proof fn lemma_lookup_periodic(s: Seq<i64>, phase: int)
    ensures
        table_lookup(s, phase + TURN) == table_lookup(s, phase),
{
    let tn = TURN as int;
    lemma_mod_add_multiples_vanish(phase, tn);
    assert((phase + tn) % tn == phase % tn);
}

} // verus!
