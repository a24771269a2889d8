//! The additive-synthesis assembler: one looped waveform per key from the harmonic tables.
use vstd::prelude::*;
use crate::sine::{angle_step, angle_step_of, SineTable};
use crate::units::{clamp, clamp_i64, div_toward_zero, div_toward_zero_i128, CURVE_LIMIT, UNIT};

verus! {

/// Largest number of harmonics a table may hold.
pub const MAX_HARMONICS: usize = 1024;

/// Largest number of buckets a curve may hold.
pub const MAX_BUCKETS: usize = 4096;

/// Longest period, in samples, of a key's fundamental.
pub const MAX_PERIOD: usize = 65536;

/// The three inputs of synthesis: per-harmonic amplitude (already normalized) and phase
/// curves, one value per bucket, and the per-harmonic enable flags.
pub struct Harmonics {
    pub amplitude: Vec<Vec<i64>>,
    pub phase: Vec<Vec<i64>>,
    pub ampl_enabled: Vec<bool>,
    pub phase_enabled: Vec<bool>,
}

/// Number of harmonics of `h`.
pub open spec fn harmonic_count(h: Harmonics) -> int {
    h.amplitude@.len() as int
}

/// Number of buckets of `h` (every curve has this many).
pub open spec fn bucket_count(h: Harmonics) -> int {
    h.amplitude@[0]@.len() as int
}

/// `rows` is a table of `rows_n` curves of `cols` values each.
pub open spec fn table_shape(rows: Seq<Vec<i64>>, rows_n: int, cols: int) -> bool {
    &&& rows.len() == rows_n
    &&& forall|n: int| 0 <= n < rows_n ==> (#[trigger] rows[n])@.len() == cols
}

/// Every value of `rows` lies in `[lo, hi]`.
pub open spec fn table_within(rows: Seq<Vec<i64>>, lo: int, hi: int) -> bool {
    forall|n: int, b: int|
        0 <= n < rows.len() && 0 <= b < rows[n]@.len() ==> lo <= #[trigger] rows[n]@[b] <= hi
}

impl Harmonics {
    pub open spec fn wf(&self) -> bool {
        &&& 1 <= harmonic_count(*self) <= MAX_HARMONICS
        &&& 1 <= bucket_count(*self) <= MAX_BUCKETS
        &&& table_shape(self.amplitude@, harmonic_count(*self), bucket_count(*self))
        &&& table_shape(self.phase@, harmonic_count(*self), bucket_count(*self))
        &&& self.ampl_enabled@.len() == harmonic_count(*self)
        &&& self.phase_enabled@.len() == harmonic_count(*self)
        &&& table_within(self.amplitude@, 0, UNIT as int)
        &&& table_within(self.phase@, -4 * CURVE_LIMIT, 4 * CURVE_LIMIT)
    }
}

/// Number of harmonics a key of this period can carry below the Nyquist limit: harmonic
/// index `n` sounds at `(n + 1)` times the fundamental, which stays at or below half the
/// sample rate exactly when `2 (n + 1) <= period`.
pub open spec fn max_harmonic(period: int) -> int {
    period / 2
}

/// The harmonics that enter the sum: those below both the table size and the Nyquist limit.
pub open spec fn harmonic_limit(h: Harmonics, period: int) -> int {
    if harmonic_count(h) < max_harmonic(period) {
        harmonic_count(h)
    } else {
        max_harmonic(period)
    }
}

/// Phase of harmonic `n` in bucket `b`: its curve value when phase is enabled, else zero.
pub open spec fn phase_of(h: Harmonics, n: int, b: int) -> int {
    if h.phase_enabled@[n] {
        h.phase@[n]@[b] as int
    } else {
        0
    }
}

/// Contribution of harmonic `n` at offset `t` of bucket `b`, in units squared.
pub open spec fn term(h: Harmonics, sine: Seq<i64>, period: int, b: int, t: int, n: int) -> int {
    let a = h.amplitude@[n]@[b];
    if h.ampl_enabled@[n] && a != 0 {
        a * sine[angle_step(n, t, period, phase_of(h, n, b))]
    } else {
        0
    }
}

/// Sum of the contributions of harmonics `0..k`.
pub open spec fn partial_sum(h: Harmonics, sine: Seq<i64>, period: int, b: int, t: int, k: int) -> int
    decreases k,
{
    if k <= 0 {
        0
    } else {
        partial_sum(h, sine, period, b, t, k - 1) + term(h, sine, period, b, t, k - 1)
    }
}

/// Sample at offset `t` of bucket `b`, in units, clamped to `[-UNIT, UNIT]`.
pub open spec fn sample(h: Harmonics, sine: Seq<i64>, period: int, b: int, t: int) -> int {
    clamp(
        div_toward_zero(partial_sum(h, sine, period, b, t, harmonic_limit(h, period)), UNIT as int),
        -UNIT as int,
        UNIT as int,
    )
}

/// The samples of bucket `b`: one period.
pub open spec fn bucket_samples(h: Harmonics, sine: Seq<i64>, period: int, b: int) -> Seq<i64> {
    Seq::new(period as nat, |t: int| sample(h, sine, period, b, t) as i64)
}

/// The full looped waveform: every bucket in table order, one period each.
pub open spec fn synthesized(h: Harmonics, sine: Seq<i64>, period: int) -> Seq<i64> {
    Seq::new(
        (bucket_count(h) * period) as nat,
        |i: int| sample(h, sine, period, i / period, i % period) as i64,
    )
}

proof fn lemma_partial_sum_bound(h: Harmonics, sine: Seq<i64>, period: int, b: int, t: int, k: int)
    requires
        h.wf(),
        0 <= b < bucket_count(h),
        0 <= k <= harmonic_count(h),
        forall|i: int| 0 <= i < sine.len() ==> -UNIT <= #[trigger] sine[i] <= UNIT,
        sine.len() == crate::sine::SINE_STEPS,
    ensures
        -k * UNIT * UNIT <= partial_sum(h, sine, period, b, t, k) <= k * UNIT * UNIT,
    decreases k,
{
    if k > 0 {
        lemma_partial_sum_bound(h, sine, period, b, t, k - 1);
        let n = k - 1;
        let a = h.amplitude@[n]@[b];
        if h.ampl_enabled@[n] && a != 0 {
            let idx = angle_step(n, t, period, phase_of(h, n, b));
            let s = sine[idx];
            assert(0 <= a <= UNIT);
            assert(-UNIT <= s <= UNIT);
            assert(-UNIT * UNIT <= a * s <= UNIT * UNIT) by (nonlinear_arith)
                requires 0 <= a <= UNIT, -UNIT <= s <= UNIT;
        }
        assert(-k * UNIT * UNIT == -(k - 1) * UNIT * UNIT - UNIT * UNIT) by (nonlinear_arith);
        assert(k * UNIT * UNIT == (k - 1) * UNIT * UNIT + UNIT * UNIT) by (nonlinear_arith);
    }
}

/// Computes one bucket of the waveform: `period` samples.
pub fn assemble_bucket(h: &Harmonics, sine: &SineTable, period: usize, b: usize) -> (r: Vec<i64>)
    requires
        h.wf(),
        sine.wf(),
        1 <= period <= MAX_PERIOD,
        b < bucket_count(*h),
    ensures
        r@ == bucket_samples(*h, sine.values@, period as int, b as int),
{
    let hn = h.amplitude.len();
    let limit: usize = if hn < period / 2 {
        hn
    } else {
        period / 2
    };
    let ghost hh = *h;
    let ghost sv = sine.values@;
    let mut out: Vec<i64> = Vec::new();
    let mut t: usize = 0;
    while t < period
        invariant
            h.wf(),
            sine.wf(),
            hh == *h,
            sv == sine.values@,
            1 <= period <= MAX_PERIOD,
            b < bucket_count(hh),
            limit == harmonic_limit(hh, period as int),
            limit <= hn == harmonic_count(hh),
            t <= period,
            out@.len() == t,
            forall|i: int| 0 <= i < t ==> out@[i] == sample(hh, sv, period as int, b as int, i) as i64,
        decreases period - t,
    {
        let mut acc: i64 = 0;
        let mut n: usize = 0;
        while n < limit
            invariant
                h.wf(),
                sine.wf(),
                hh == *h,
                sv == sine.values@,
                1 <= period <= MAX_PERIOD,
                b < bucket_count(hh),
                t < period,
                limit <= hn == harmonic_count(hh),
                n <= limit,
                acc == partial_sum(hh, sv, period as int, b as int, t as int, n as int),
            decreases limit - n,
        {
            proof {
                lemma_partial_sum_bound(hh, sv, period as int, b as int, t as int, n as int);
                assert(n * UNIT * UNIT <= 1024 * UNIT * UNIT) by (nonlinear_arith)
                    requires n <= 1024;
            }
            let a = h.amplitude[n][b];
            if h.ampl_enabled[n] && a != 0 {
                let phi: i64 = if h.phase_enabled[n] {
                    h.phase[n][b]
                } else {
                    0
                };
                let k = angle_step_of(n, t, period, phi);
                let s = sine.values[k];
                assert(-UNIT * UNIT <= a * s <= UNIT * UNIT) by (nonlinear_arith)
                    requires 0 <= a <= UNIT, -UNIT <= s <= UNIT;
                acc = acc + a * s;
            }
            n = n + 1;
        }
        proof {
            lemma_partial_sum_bound(hh, sv, period as int, b as int, t as int, n as int);
            assert(n * UNIT * UNIT <= 1024 * UNIT * UNIT) by (nonlinear_arith)
                requires n <= 1024;
        }
        let q = div_toward_zero_i128(acc as i128, UNIT as i128);
        assert(-1024 * UNIT <= q <= 1024 * UNIT) by {
            let x = acc as int;
            assert(-1024 * UNIT * UNIT <= x <= 1024 * UNIT * UNIT);
            if x >= 0 {
                assert(x / (UNIT as int) <= 1024 * UNIT) by (nonlinear_arith)
                    requires 0 <= x <= 1024 * UNIT * UNIT;
            } else {
                assert((-x) / (UNIT as int) <= 1024 * UNIT) by (nonlinear_arith)
                    requires 0 <= -x <= 1024 * UNIT * UNIT;
            }
        }
        let s = clamp_i64(q as i64, -UNIT, UNIT);
        out.push(s);
        t = t + 1;
    }
    assert(out@ =~= bucket_samples(hh, sv, period as int, b as int));
    out
}

/// Computes the full looped waveform of a key with the given period: every bucket in table
/// order, `period` samples each.
pub fn assemble(h: &Harmonics, sine: &SineTable, period: usize) -> (r: Vec<i64>)
    requires
        h.wf(),
        sine.wf(),
        1 <= period <= MAX_PERIOD,
    ensures
        r@ == synthesized(*h, sine.values@, period as int),
        r@.len() == bucket_count(*h) * period,
{
    let buckets = h.amplitude[0].len();
    let ghost hh = *h;
    let ghost sv = sine.values@;
    let ghost p = period as int;
    let mut out: Vec<i64> = Vec::new();
    let mut b: usize = 0;
    while b < buckets
        invariant
            h.wf(),
            sine.wf(),
            hh == *h,
            sv == sine.values@,
            p == period,
            1 <= period <= MAX_PERIOD,
            buckets == bucket_count(hh),
            b <= buckets,
            out@.len() == b * p,
            forall|i: int| 0 <= i < b * p ==> out@[i] == sample(hh, sv, p, i / p, i % p) as i64,
        decreases buckets - b,
    {
        let chunk = assemble_bucket(h, sine, period, b);
        let mut t: usize = 0;
        while t < chunk.len()
            invariant
                chunk@ == bucket_samples(hh, sv, p, b as int),
                p == period,
                1 <= period <= MAX_PERIOD,
                b < buckets <= MAX_BUCKETS,
                t <= period,
                out@.len() == b * p + t,
                forall|i: int|
                    0 <= i < b * p + t ==> out@[i] == sample(hh, sv, p, i / p, i % p) as i64,
            decreases period - t,
        {
            proof {
                let i = b * p + t;
                vstd::arithmetic::div_mod::lemma_fundamental_div_mod_converse(i, p, b as int, t as int);
                assert(b * p + t < MAX_BUCKETS * MAX_PERIOD) by (nonlinear_arith)
                    requires b < MAX_BUCKETS, t < p, p <= MAX_PERIOD;
            }
            out.push(chunk[t]);
            t = t + 1;
        }
        assert((b + 1) * p == b * p + p) by (nonlinear_arith);
        b = b + 1;
    }
    assert(out@ =~= synthesized(hh, sv, p));
    out
}

/// Two harmonic sets that agree on every harmonic the Nyquist limit lets through give the
/// same waveform: no harmonic at or above `max_harmonic(period)` is ever summed.
pub proof fn lemma_harmonics_above_limit_ignored(
    h1: Harmonics,
    h2: Harmonics,
    sine: Seq<i64>,
    period: int,
)
    requires
        h1.wf(),
        h2.wf(),
        1 <= period,
        harmonic_count(h1) == harmonic_count(h2),
        bucket_count(h1) == bucket_count(h2),
        forall|n: int| #![trigger h1.amplitude@[n]]
            0 <= n < max_harmonic(period) && n < harmonic_count(h1) ==> {
                &&& h1.amplitude@[n]@ == h2.amplitude@[n]@
                &&& h1.phase@[n]@ == h2.phase@[n]@
                &&& h1.ampl_enabled@[n] == h2.ampl_enabled@[n]
                &&& h1.phase_enabled@[n] == h2.phase_enabled@[n]
            },
    ensures
        synthesized(h1, sine, period) == synthesized(h2, sine, period),
{
    let lim = harmonic_limit(h1, period);
    assert forall|b: int, t: int| 0 <= b < bucket_count(h1) implies #[trigger] sample(h1, sine, period, b, t)
        == sample(h2, sine, period, b, t) by {
        lemma_partial_sums_agree(h1, h2, sine, period, b, t, lim);
    }
    assert(synthesized(h1, sine, period) =~= synthesized(h2, sine, period)) by {
        assert forall|i: int| 0 <= i < bucket_count(h1) * period implies #[trigger] sample(h1, sine, period, i / period, i % period)
            == sample(h2, sine, period, i / period, i % period) by {
            vstd::arithmetic::div_mod::lemma_div_pos_is_pos(i, period);
            vstd::arithmetic::div_mod::lemma_fundamental_div_mod(i, period);
            vstd::arithmetic::div_mod::lemma_mod_pos_bound(i, period);
            let q = i / period;
            let bc = bucket_count(h1);
            assert(q < bc) by (nonlinear_arith)
                requires i == period * q + i % period, 0 <= i % period, i < bc * period, period >= 1;
        }
    }
}

proof fn lemma_partial_sums_agree(
    h1: Harmonics,
    h2: Harmonics,
    sine: Seq<i64>,
    period: int,
    b: int,
    t: int,
    k: int,
)
    requires
        h1.wf(),
        h2.wf(),
        1 <= period,
        0 <= b < bucket_count(h1),
        0 <= k <= harmonic_limit(h1, period),
        harmonic_count(h1) == harmonic_count(h2),
        bucket_count(h1) == bucket_count(h2),
        forall|n: int| #![trigger h1.amplitude@[n]]
            0 <= n < max_harmonic(period) && n < harmonic_count(h1) ==> {
                &&& h1.amplitude@[n]@ == h2.amplitude@[n]@
                &&& h1.phase@[n]@ == h2.phase@[n]@
                &&& h1.ampl_enabled@[n] == h2.ampl_enabled@[n]
                &&& h1.phase_enabled@[n] == h2.phase_enabled@[n]
            },
    ensures
        partial_sum(h1, sine, period, b, t, k) == partial_sum(h2, sine, period, b, t, k),
    decreases k,
{
    if k > 0 {
        lemma_partial_sums_agree(h1, h2, sine, period, b, t, k - 1);
        let n = k - 1;
        assert(h1.amplitude@[n]@ == h2.amplitude@[n]@);
    }
}

/// Every synthesized sample lies in `[-UNIT, UNIT]`.
pub proof fn lemma_synthesized_valid(h: Harmonics, sine: Seq<i64>, period: int)
    ensures
        crate::voice::samples_valid(synthesized(h, sine, period)),
{
}

} // verus!
