//! The normalizer: rescales harmonic amplitudes so that their peaks sum to at most one unit.
use vstd::prelude::*;
use crate::units::UNIT;

verus! {

/// The value model of a table of curves.
pub open spec fn rows_view(t: Seq<Vec<i64>>) -> Seq<Seq<i64>> {
    t.map_values(|r: Vec<i64>| r@)
}

/// Every value of the table is an amplitude: within `[0, UNIT]`.
pub open spec fn amplitudes_valid(t: Seq<Seq<i64>>) -> bool {
    forall|n: int, b: int| 0 <= n < t.len() && 0 <= b < t[n].len() ==> 0 <= #[trigger] t[n][b] <= UNIT
}

/// Largest value of a curve (zero for an empty one).
pub open spec fn peak(row: Seq<i64>) -> int
    decreases row.len(),
{
    if row.len() == 0 {
        0
    } else {
        let m = peak(row.drop_last());
        if row.last() > m {
            row.last() as int
        } else {
            m
        }
    }
}

/// Sum over harmonics of each harmonic's peak.
pub open spec fn peak_sum(t: Seq<Seq<i64>>) -> int
    decreases t.len(),
{
    if t.len() == 0 {
        0
    } else {
        peak_sum(t.drop_last()) + peak(t.last())
    }
}

/// A curve with every value multiplied by `UNIT / s`, rounded down.
pub open spec fn scaled_row(row: Seq<i64>, s: int) -> Seq<i64> {
    row.map_values(|x: i64| (x * UNIT / s) as i64)
}

/// The normalized table: when the peaks sum to more than one unit, every value is divided by
/// that sum; otherwise the table is unchanged.
pub open spec fn normalized(t: Seq<Seq<i64>>) -> Seq<Seq<i64>> {
    let s = peak_sum(t);
    if s > UNIT {
        t.map_values(|row: Seq<i64>| scaled_row(row, s))
    } else {
        t
    }
}

proof fn lemma_peak_bounds(row: Seq<i64>)
    requires
        forall|b: int| 0 <= b < row.len() ==> 0 <= #[trigger] row[b] <= UNIT,
    ensures
        0 <= peak(row) <= UNIT,
        forall|b: int| 0 <= b < row.len() ==> #[trigger] row[b] <= peak(row),
    decreases row.len(),
{
    if row.len() > 0 {
        let d = row.drop_last();
        assert forall|b: int| 0 <= b < d.len() implies 0 <= #[trigger] d[b] <= UNIT by {
            assert(d[b] == row[b]);
        }
        lemma_peak_bounds(d);
        assert forall|b: int| 0 <= b < row.len() implies #[trigger] row[b] <= peak(row) by {
            if b < row.len() - 1 {
                assert(d[b] == row[b]);
            }
        }
    }
}

proof fn lemma_peak_sum_bounds(t: Seq<Seq<i64>>)
    requires
        amplitudes_valid(t),
    ensures
        0 <= peak_sum(t) <= t.len() * UNIT,
        forall|n: int| 0 <= n < t.len() ==> peak(#[trigger] t[n]) <= peak_sum(t),
    decreases t.len(),
{
    if t.len() > 0 {
        let d = t.drop_last();
        assert(amplitudes_valid(d)) by {
            assert forall|n: int, b: int| 0 <= n < d.len() && 0 <= b < d[n].len() implies 0 <= #[trigger] d[n][b]
                <= UNIT by {
                assert(d[n] == t[n]);
            }
        }
        lemma_peak_sum_bounds(d);
        assert forall|b: int| 0 <= b < t.last().len() implies 0 <= #[trigger] t.last()[b] <= UNIT by {
            assert(t.last() == t[t.len() - 1]);
        }
        lemma_peak_bounds(t.last());
        assert forall|n: int| 0 <= n < t.len() implies peak(#[trigger] t[n]) <= peak_sum(t) by {
            if n < t.len() - 1 {
                assert(d[n] == t[n]);
            }
        }
        assert((t.len() - 1) * UNIT + UNIT == t.len() * UNIT) by (nonlinear_arith);
    }
}

proof fn lemma_peak_scaled(row: Seq<i64>, s: int)
    requires
        s > UNIT,
        forall|b: int| 0 <= b < row.len() ==> 0 <= #[trigger] row[b] <= peak(row),
        forall|b: int| 0 <= b < row.len() ==> 0 <= #[trigger] row[b] <= s,
    ensures
        peak(scaled_row(row, s)) * s <= peak(row) * UNIT,
        peak(row) >= 0,
    decreases row.len(),
{
    if row.len() > 0 {
        let d = row.drop_last();
        assert(scaled_row(row, s).drop_last() =~= scaled_row(d, s));
        assert forall|b: int| 0 <= b < d.len() implies 0 <= #[trigger] d[b] <= peak(d) by {
            lemma_peak_upper(d, b);
            assert(d[b] == row[b]);
        }
        assert forall|b: int| 0 <= b < d.len() implies 0 <= #[trigger] d[b] <= s by {
            assert(d[b] == row[b]);
        }
        lemma_peak_scaled(d, s);
        let x = row.last() as int;
        assert(0 <= x <= s);
        let q = x * UNIT / s;
        assert(q * s <= x * UNIT && 0 <= q <= UNIT) by (nonlinear_arith)
            requires q == x * UNIT / s, 0 <= x <= s, s > UNIT;
        assert(scaled_row(row, s).last() == q as i64);
        assert(peak(d) <= peak(row));
        assert(x <= peak(row));
        assert(peak(d) * UNIT <= peak(row) * UNIT) by (nonlinear_arith)
            requires peak(d) <= peak(row);
        assert(x * UNIT <= peak(row) * UNIT) by (nonlinear_arith)
            requires x <= peak(row);
    }
}

proof fn lemma_peak_upper(row: Seq<i64>, b: int)
    requires
        0 <= b < row.len(),
    ensures
        row[b] <= peak(row),
    decreases row.len(),
{
    if b < row.len() - 1 {
        let d = row.drop_last();
        assert(d[b] == row[b]);
        lemma_peak_upper(d, b);
    }
}

proof fn lemma_peak_sum_scaled(t: Seq<Seq<i64>>, s: int)
    requires
        s > UNIT,
        amplitudes_valid(t),
        peak_sum(t) <= s,
    ensures
        peak_sum(t.map_values(|row: Seq<i64>| scaled_row(row, s))) * s <= peak_sum(t) * UNIT,
    decreases t.len(),
{
    if t.len() > 0 {
        let d = t.drop_last();
        let m = t.map_values(|row: Seq<i64>| scaled_row(row, s));
        assert(m.drop_last() =~= d.map_values(|row: Seq<i64>| scaled_row(row, s)));
        assert(amplitudes_valid(d)) by {
            assert forall|n: int, b: int| 0 <= n < d.len() && 0 <= b < d[n].len() implies 0 <= #[trigger] d[n][b]
                <= UNIT by {
                assert(d[n] == t[n]);
            }
        }
        lemma_peak_sum_bounds(t);
        lemma_peak_sum_bounds(d);
        lemma_peak_sum_scaled(d, s);
        let last = t.last();
        assert(last == t[t.len() - 1]);
        assert(forall|b: int| 0 <= b < last.len() ==> 0 <= #[trigger] last[b] <= UNIT);
        lemma_peak_bounds(last);
        assert(peak(last) <= peak_sum(t));
        lemma_peak_scaled(last, s);
        assert(m.last() == scaled_row(last, s));
        let a = peak_sum(m.drop_last());
        let c = peak(scaled_row(last, s));
        assert(peak_sum(m) == a + c);
        assert(peak_sum(t) == peak_sum(d) + peak(last));
        assert((a + c) * s <= (peak_sum(d) + peak(last)) * UNIT) by (nonlinear_arith)
            requires a * s <= peak_sum(d) * UNIT, c * s <= peak(last) * UNIT;
    }
}

/// The normalized table never has peaks summing to more than one unit, and stays within
/// `[0, UNIT]`.
pub proof fn lemma_normalized_peak_sum(t: Seq<Seq<i64>>)
    requires
        amplitudes_valid(t),
    ensures
        peak_sum(normalized(t)) <= UNIT,
        amplitudes_valid(normalized(t)),
        normalized(t).len() == t.len(),
        forall|n: int| 0 <= n < t.len() ==> (#[trigger] normalized(t)[n]).len() == t[n].len(),
{
    let s = peak_sum(t);
    lemma_peak_sum_bounds(t);
    if s > UNIT {
        lemma_peak_sum_scaled(t, s);
        let p = peak_sum(normalized(t));
        assert(p <= UNIT) by (nonlinear_arith)
            requires p * s <= s * UNIT, s > UNIT;
        assert forall|n: int, b: int| 0 <= n < t.len() && 0 <= b < t[n].len() implies 0
            <= #[trigger] normalized(t)[n][b] <= UNIT by {
            lemma_peak_bounds(t[n]);
            let x = t[n][b] as int;
            assert(x <= s);
            let q = x * UNIT / s;
            assert(0 <= q <= UNIT) by (nonlinear_arith)
                requires q == x * UNIT / s, 0 <= x <= s, s > UNIT;
        }
    }
}

/// Normalizing twice gives the same table as normalizing once.
pub proof fn lemma_normalize_idempotent(t: Seq<Seq<i64>>)
    requires
        amplitudes_valid(t),
    ensures
        normalized(normalized(t)) == normalized(t),
{
    lemma_normalized_peak_sum(t);
}

fn row_peak(row: &Vec<i64>) -> (m: i64)
    requires
        forall|b: int| 0 <= b < row@.len() ==> 0 <= #[trigger] row@[b] <= UNIT,
    ensures
        m == peak(row@),
        0 <= m <= UNIT,
{
    let mut m: i64 = 0;
    let mut b: usize = 0;
    while b < row.len()
        invariant
            b <= row@.len(),
            forall|i: int| 0 <= i < row@.len() ==> 0 <= #[trigger] row@[i] <= UNIT,
            m == peak(row@.subrange(0, b as int)),
            0 <= m <= UNIT,
        decreases row@.len() - b,
    {
        assert(row@.subrange(0, b as int + 1).drop_last() =~= row@.subrange(0, b as int));
        if row[b] > m {
            m = row[b];
        }
        b = b + 1;
    }
    assert(row@.subrange(0, row@.len() as int) =~= row@);
    m
}

fn scale_row(row: &Vec<i64>, s: i64) -> (r: Vec<i64>)
    requires
        s > UNIT,
        forall|b: int| 0 <= b < row@.len() ==> 0 <= #[trigger] row@[b] <= s,
        s <= 1024 * UNIT,
    ensures
        r@ == scaled_row(row@, s as int),
{
    let mut out: Vec<i64> = Vec::new();
    let mut b: usize = 0;
    while b < row.len()
        invariant
            b <= row@.len(),
            s > UNIT,
            s <= 1024 * UNIT,
            forall|i: int| 0 <= i < row@.len() ==> 0 <= #[trigger] row@[i] <= s,
            out@ =~= scaled_row(row@, s as int).subrange(0, b as int),
        decreases row@.len() - b,
    {
        let x = row[b];
        assert(0 <= x * UNIT <= 1024 * UNIT * UNIT) by (nonlinear_arith)
            requires 0 <= x <= s, s <= 1024 * UNIT;
        let q = x * UNIT / s;
        out.push(q);
        b = b + 1;
    }
    out
}

pub fn copy_row(row: &Vec<i64>) -> (r: Vec<i64>)
    ensures
        r@ == row@,
{
    let mut out: Vec<i64> = Vec::new();
    let mut b: usize = 0;
    while b < row.len()
        invariant
            b <= row@.len(),
            out@ =~= row@.subrange(0, b as int),
        decreases row@.len() - b,
    {
        out.push(row[b]);
        b = b + 1;
    }
    out
}

/// Returns a copy of a table of curves.
pub fn copy_table(t: &Vec<Vec<i64>>) -> (r: Vec<Vec<i64>>)
    ensures
        rows_view(r@) == rows_view(t@),
{
    let mut out: Vec<Vec<i64>> = Vec::new();
    let mut n: usize = 0;
    while n < t.len()
        invariant
            n <= t@.len(),
            rows_view(out@) =~= rows_view(t@).subrange(0, n as int),
        decreases t@.len() - n,
    {
        let row = copy_row(&t[n]);
        let ghost before = out@;
        out.push(row);
        assert(rows_view(out@) =~= rows_view(before).push(t@[n as int]@));
        n = n + 1;
    }
    assert(rows_view(t@).subrange(0, t@.len() as int) =~= rows_view(t@));
    out
}

/// The normalizer: sums each harmonic's peak amplitude over all buckets; when that sum
/// exceeds one unit every value is divided by it, otherwise the table is copied unchanged.
pub fn normalize(t: &Vec<Vec<i64>>) -> (r: Vec<Vec<i64>>)
    requires
        t@.len() <= 1024,
        amplitudes_valid(rows_view(t@)),
    ensures
        rows_view(r@) == normalized(rows_view(t@)),
        peak_sum(rows_view(r@)) <= UNIT,
        amplitudes_valid(rows_view(r@)),
{
    let ghost tv = rows_view(t@);
    let mut sum: i64 = 0;
    let mut n: usize = 0;
    while n < t.len()
        invariant
            n <= t@.len() <= 1024,
            tv == rows_view(t@),
            amplitudes_valid(tv),
            sum == peak_sum(tv.subrange(0, n as int)),
            0 <= sum <= n * UNIT,
        decreases t@.len() - n,
    {
        assert(tv.subrange(0, n as int + 1).drop_last() =~= tv.subrange(0, n as int));
        assert(tv[n as int] == t@[n as int]@);
        let m = row_peak(&t[n]);
        sum = sum + m;
        n = n + 1;
    }
    assert(tv.subrange(0, t@.len() as int) =~= tv);
    proof {
        lemma_normalized_peak_sum(tv);
        lemma_peak_sum_bounds(tv);
    }
    let mut out: Vec<Vec<i64>> = Vec::new();
    let mut n: usize = 0;
    while n < t.len()
        invariant
            n <= t@.len() <= 1024,
            tv == rows_view(t@),
            amplitudes_valid(tv),
            sum == peak_sum(tv),
            0 <= sum <= 1024 * UNIT,
            forall|k: int| 0 <= k < tv.len() ==> peak(#[trigger] tv[k]) <= peak_sum(tv),
            rows_view(out@) =~= normalized(tv).subrange(0, n as int),
        decreases t@.len() - n,
    {
        assert(tv[n as int] == t@[n as int]@);
        if sum > UNIT {
            proof {
                lemma_peak_bounds(tv[n as int]);
            }
            let row = scale_row(&t[n], sum);
            let ghost before = out@;
            out.push(row);
            assert(rows_view(out@) =~= rows_view(before).push(normalized(tv)[n as int]));
        } else {
            let row = copy_row(&t[n]);
            let ghost before = out@;
            out.push(row);
            assert(rows_view(out@) =~= rows_view(before).push(normalized(tv)[n as int]));
        }
        n = n + 1;
    }
    assert(normalized(tv).subrange(0, t@.len() as int) =~= normalized(tv));
    out
}

} // verus!
