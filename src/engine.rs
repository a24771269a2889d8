//! The harmonic buffer store: curve tables, their normalized form, the per-key cache, and
//! the operations of the curve generator, the assembler and the background scheduler.
use vstd::prelude::*;
use crate::cache::{all_dirty, is_next_dirty, none_dirty, BufferState, KeyCache, MAX_KEYS, PREVIEW_KEY};
use crate::normalize::{amplitudes_valid, copy_table, normalize, normalized, rows_view};
use crate::sine::SineTable;
use crate::synthesis::{
    assemble, bucket_count, harmonic_count, synthesized, table_shape, table_within, Harmonics,
    MAX_BUCKETS, MAX_HARMONICS, MAX_PERIOD,
};
use crate::units::{clamp, clamp_i64, CURVE_LIMIT, UNIT};
use crate::voice::{plotted, samples_valid, VoiceTable};
use crate::params::CurveType;

verus! {

/// Which curve table an operation reads or writes.
#[derive(PartialEq, Eq, Structural, Clone, Copy, Debug)]
pub enum ChartType {
    Amp,
    Phase,
}

/// The stored value of a curve point: amplitudes are clamped to `[0, UNIT]`, phases are not.
pub open spec fn curve_value(chart: ChartType, x: int) -> int {
    match chart {
        ChartType::Amp => clamp(x, 0, UNIT as int),
        ChartType::Phase => x,
    }
}

/// The wobble term of bucket `b`: zero when there is no wobble.
pub open spec fn wobble_at(wobble: Option<Vec<i64>>, b: int) -> int {
    match wobble {
        Some(w) => w@[b] as int,
        None => 0,
    }
}

/// The sine-mode term of bucket `b`: zero for a constant curve.
pub open spec fn term_at(terms: Option<&Vec<i64>>, b: int) -> int {
    match terms {
        Some(t) => t@[b] as int,
        None => 0,
    }
}

/// A curve of `buckets` points: `offset`, plus the sine-mode and wobble terms, stored as
/// `chart` requires.
pub open spec fn curve_row(
    chart: ChartType,
    offset: int,
    terms: Option<&Vec<i64>>,
    wobble: Option<Vec<i64>>,
    buckets: int,
) -> Seq<i64> {
    Seq::new(
        buckets as nat,
        |b: int| curve_value(chart, offset + term_at(terms, b) + wobble_at(wobble, b)) as i64,
    )
}

/// A per-bucket modulation fits the curve: one term per bucket, each within the curve limit.
pub open spec fn modulation_fits(terms: Seq<i64>, buckets: int) -> bool {
    &&& terms.len() == buckets
    &&& forall|b: int| 0 <= b < buckets ==> -CURVE_LIMIT <= #[trigger] terms[b] <= CURVE_LIMIT
}

pub open spec fn wobble_fits(wobble: Option<Vec<i64>>, buckets: int) -> bool {
    match wobble {
        Some(w) => modulation_fits(w@, buckets),
        None => true,
    }
}

/// Number of playable keys of the standard layout (key 0 is a C).
pub const NUM_KEYS: usize = 96;

/// Number of harmonics of the standard layout.
pub const NUM_HARMONICS: usize = 16;

/// Number of buckets per curve of the standard layout.
pub const NUM_OF_BUCKETS_DEFAULT: usize = 64;

/// The key shown in the display mix while no voice sounds (middle C).
pub const DISPLAY_KEY: usize = 48;

/// What the background worker does next.
pub enum SchedulerAction {
    /// A cancellation was seen: clear the flag and pause briefly.
    Pause,
    /// No key is Dirty: idle before scanning again.
    Idle,
    /// Compute this job off the lock and hand the result to `finish_computation`.
    Compute(Job),
}

/// A key whose state is now Computing, with a private copy of what synthesis reads.
pub struct Job {
    pub key: usize,
    pub period: usize,
    pub harmonics: Harmonics,
}

/// The shared store of the synthesizer's state.
pub struct SynthComputeEngine {
    /// Raw amplitude curves, one per harmonic.
    pub amplitude: Vec<Vec<i64>>,
    /// Normalized amplitudes, phase curves and enable flags: what synthesis reads.
    pub harmonics: Harmonics,
    /// The raw amplitudes changed since `harmonics.amplitude` was last derived from them.
    pub normalization_needed: bool,
    /// Samples per fundamental cycle, per key.
    pub periods: Vec<usize>,
    pub sine: SineTable,
    pub cache: KeyCache,
}

impl SynthComputeEngine {
    pub open spec fn num_harmonics(&self) -> int {
        harmonic_count(self.harmonics)
    }

    pub open spec fn num_buckets(&self) -> int {
        bucket_count(self.harmonics)
    }

    pub open spec fn num_keys(&self) -> int {
        self.cache.len()
    }

    /// The table that `chart` selects.
    pub open spec fn table(&self, chart: ChartType) -> Seq<Vec<i64>> {
        match chart {
            ChartType::Amp => self.amplitude@,
            ChartType::Phase => self.harmonics.phase@,
        }
    }

    /// The period of `key`.
    pub open spec fn period(&self, key: int) -> int {
        self.periods@[key] as int
    }

    pub open spec fn wf(&self) -> bool {
        &&& self.harmonics.wf()
        &&& self.sine.wf()
        &&& self.cache.wf()
        &&& table_shape(self.amplitude@, self.num_harmonics(), self.num_buckets())
        &&& table_within(self.amplitude@, 0, UNIT as int)
        &&& self.periods@.len() == self.cache.len()
        &&& forall|k: int| 0 <= k < self.periods@.len() ==> 1 <= #[trigger] self.periods@[k] <= MAX_PERIOD
    }

    /// The normalized amplitudes that synthesis would use now: derived afresh when the raw
    /// table changed, else the current ones.
    pub open spec fn effective_amplitude(&self) -> Seq<Seq<i64>> {
        if self.normalization_needed {
            normalized(rows_view(self.amplitude@))
        } else {
            rows_view(self.harmonics.amplitude@)
        }
    }

    /// `self` is `before` after any pending normalization was carried out.
    pub open spec fn normalized_from(&self, before: &SynthComputeEngine) -> bool {
        &&& self.wf()
        &&& !self.normalization_needed
        &&& self.num_harmonics() == before.num_harmonics()
        &&& self.num_buckets() == before.num_buckets()
        &&& rows_view(self.harmonics.amplitude@) == before.effective_amplitude()
        &&& self.amplitude@ == before.amplitude@
        &&& self.harmonics.phase@ == before.harmonics.phase@
        &&& self.harmonics.ampl_enabled@ == before.harmonics.ampl_enabled@
        &&& self.harmonics.phase_enabled@ == before.harmonics.phase_enabled@
        &&& self.periods@ == before.periods@
        &&& self.sine == before.sine
    }

    /// An engine of `num_harmonics` harmonics with `buckets` buckets each, one key per entry
    /// of `periods`. All curves start at zero, every harmonic is enabled, and every key is
    /// Dirty without a buffer.
    pub fn new(num_harmonics: usize, buckets: usize, periods: Vec<usize>, sine: SineTable) -> (r: Self)
        requires
            1 <= num_harmonics <= MAX_HARMONICS,
            1 <= buckets <= MAX_BUCKETS,
            PREVIEW_KEY < periods@.len() <= MAX_KEYS,
            forall|k: int| 0 <= k < periods@.len() ==> 1 <= #[trigger] periods@[k] <= MAX_PERIOD,
            sine.wf(),
        ensures
            r.wf(),
            r.num_harmonics() == num_harmonics,
            r.num_buckets() == buckets,
            r.num_keys() == periods@.len(),
            r.periods@ == periods@,
            !r.normalization_needed,
            forall|n: int, b: int| 0 <= n < num_harmonics && 0 <= b < buckets ==> {
                &&& #[trigger] r.amplitude@[n]@[b] == 0
                &&& r.harmonics.amplitude@[n]@[b] == 0
                &&& r.harmonics.phase@[n]@[b] == 0
            },
            forall|n: int| 0 <= n < num_harmonics ==> #[trigger] r.harmonics.ampl_enabled@[n],
            forall|n: int| 0 <= n < num_harmonics ==> #[trigger] r.harmonics.phase_enabled@[n],
            r.cache.states@ == all_dirty(periods@.len() as int),
            forall|k: int| 0 <= k < periods@.len() ==> (#[trigger] r.cache.buffers@[k]).is_none(),
    {
        let amplitude = zero_table(num_harmonics, buckets);
        let normalized_amplitude = zero_table(num_harmonics, buckets);
        let phase = zero_table(num_harmonics, buckets);
        let mut ampl_enabled: Vec<bool> = Vec::new();
        let mut phase_enabled: Vec<bool> = Vec::new();
        let mut n: usize = 0;
        while n < num_harmonics
            invariant
                n <= num_harmonics,
                ampl_enabled@.len() == n,
                phase_enabled@.len() == n,
                forall|i: int| 0 <= i < n ==> #[trigger] ampl_enabled@[i],
                forall|i: int| 0 <= i < n ==> #[trigger] phase_enabled@[i],
            decreases num_harmonics - n,
        {
            ampl_enabled.push(true);
            phase_enabled.push(true);
            n = n + 1;
        }
        let cache = KeyCache::new(periods.len());
        let harmonics = Harmonics { amplitude: normalized_amplitude, phase, ampl_enabled, phase_enabled };
        SynthComputeEngine { amplitude, harmonics, normalization_needed: false, periods, sine, cache }
    }
}

/// A table of `rows` curves of `cols` zeros.
fn zero_table(rows: usize, cols: usize) -> (r: Vec<Vec<i64>>)
    ensures
        table_shape(r@, rows as int, cols as int),
        forall|n: int, b: int| 0 <= n < rows && 0 <= b < cols ==> #[trigger] r@[n]@[b] == 0,
{
    let mut out: Vec<Vec<i64>> = Vec::new();
    let mut n: usize = 0;
    while n < rows
        invariant
            n <= rows,
            table_shape(out@, n as int, cols as int),
            forall|i: int, b: int| 0 <= i < n && 0 <= b < cols ==> #[trigger] out@[i]@[b] == 0,
        decreases rows - n,
    {
        let mut row: Vec<i64> = Vec::new();
        let mut b: usize = 0;
        while b < cols
            invariant
                b <= cols,
                row@.len() == b,
                forall|j: int| 0 <= j < b ==> #[trigger] row@[j] == 0,
            decreases cols - b,
        {
            row.push(0);
            b = b + 1;
        }
        out.push(row);
        n = n + 1;
    }
    out
}

/// The row view of a table agrees with its rows, and its amplitude bounds are the same
/// statement in either form.
proof fn lemma_rows_view(t: Seq<Vec<i64>>)
    ensures
        rows_view(t).len() == t.len(),
        forall|n: int| 0 <= n < t.len() ==> #[trigger] rows_view(t)[n] == t[n]@,
        table_within(t, 0, UNIT as int) <==> amplitudes_valid(rows_view(t)),
{
    assert forall|n: int| 0 <= n < t.len() implies #[trigger] rows_view(t)[n] == t[n]@ by {}
    if table_within(t, 0, UNIT as int) {
        assert forall|n: int, b: int| 0 <= n < rows_view(t).len() && 0 <= b < rows_view(t)[n].len() implies 0
            <= #[trigger] rows_view(t)[n][b] <= UNIT by {
            assert(rows_view(t)[n] == t[n]@);
        }
    }
    if amplitudes_valid(rows_view(t)) {
        assert forall|n: int, b: int| 0 <= n < t.len() && 0 <= b < t[n]@.len() implies 0 <= #[trigger] t[n]@[b]
            <= UNIT by {
            assert(rows_view(t)[n] == t[n]@);
            assert(0 <= rows_view(t)[n][b] <= UNIT);
        }
    }
}

/// A table whose row view is `v`, with `v` shaped and bounded like `t`, has `t`'s shape
/// and bounds.
proof fn lemma_same_shape(r: Seq<Vec<i64>>, t: Seq<Vec<i64>>, rows: int, cols: int)
    requires
        table_shape(t, rows, cols),
        rows_view(r).len() == rows_view(t).len(),
        forall|n: int| 0 <= n < rows ==> (#[trigger] rows_view(r)[n]).len() == rows_view(t)[n].len(),
    ensures
        table_shape(r, rows, cols),
{
    lemma_rows_view(r);
    lemma_rows_view(t);
    assert forall|n: int| 0 <= n < rows implies (#[trigger] r[n])@.len() == cols by {
        assert(rows_view(r)[n] == r[n]@);
        assert(rows_view(t)[n] == t[n]@);
    }
}

fn copy_flags(v: &Vec<bool>) -> (r: Vec<bool>)
    ensures
        r@ == v@,
{
    let mut out: Vec<bool> = Vec::new();
    let mut i: usize = 0;
    while i < v.len()
        invariant
            i <= v@.len(),
            out@ =~= v@.subrange(0, i as int),
        decreases v@.len() - i,
    {
        out.push(v[i]);
        i = i + 1;
    }
    out
}

impl SynthComputeEngine {
    /// Derives the normalized amplitudes from the raw ones (see `normalize`).
    pub fn normalize_amplitude_data(&mut self)
        requires
            old(self).wf(),
        ensures
            final(self).wf(),
            rows_view(final(self).harmonics.amplitude@) == normalized(rows_view(old(self).amplitude@)),
            final(self).amplitude@ == old(self).amplitude@,
            final(self).harmonics.phase@ == old(self).harmonics.phase@,
            final(self).harmonics.ampl_enabled@ == old(self).harmonics.ampl_enabled@,
            final(self).harmonics.phase_enabled@ == old(self).harmonics.phase_enabled@,
            final(self).normalization_needed == old(self).normalization_needed,
            final(self).periods@ == old(self).periods@,
            final(self).sine == old(self).sine,
            final(self).cache == old(self).cache,
            final(self).num_harmonics() == old(self).num_harmonics(),
            final(self).num_buckets() == old(self).num_buckets(),
    {
        proof {
            lemma_rows_view(self.amplitude@);
        }
        let r = normalize(&self.amplitude);
        proof {
            let t = rows_view(self.amplitude@);
            crate::normalize::lemma_normalized_peak_sum(t);
            lemma_rows_view(r@);
            lemma_same_shape(r@, self.amplitude@, self.num_harmonics(), self.num_buckets());
            assert(r@[0]@.len() == self.num_buckets());
        }
        self.harmonics.amplitude = r;
    }

    /// Records whether the normalized amplitudes must be derived again before synthesis.
    pub fn set_normalization_needed(&mut self, normalization_needed: bool)
        requires
            old(self).wf(),
        ensures
            final(self).wf(),
            *final(self) == (SynthComputeEngine { normalization_needed, ..*old(self) }),
    {
        self.normalization_needed = normalization_needed;
    }

    /// Carries out a pending normalization and clears the flag.
    fn ensure_normalized(&mut self)
        requires
            old(self).wf(),
        ensures
            final(self).normalized_from(old(self)),
            final(self).cache == old(self).cache,
    {
        if self.normalization_needed {
            self.normalize_amplitude_data();
            self.normalization_needed = false;
        }
    }

    /// Synthesizes the full looped waveform of `key` from the current tables, normalizing
    /// first when the raw amplitudes changed.
    pub fn assemble_buffer_for_key(&mut self, key: usize) -> (r: Vec<i64>)
        requires
            old(self).wf(),
            key < old(self).num_keys(),
        ensures
            final(self).normalized_from(old(self)),
            final(self).cache == old(self).cache,
            r@ == synthesized(final(self).harmonics, final(self).sine.values@, final(self).period(key as int)),
            r@.len() == old(self).num_buckets() * old(self).period(key as int),
    {
        self.ensure_normalized();
        let period = self.periods[key];
        assemble(&self.harmonics, &self.sine, period)
    }

    /// Recomputes the preview key synchronously and publishes it: its buffer is replaced and
    /// it becomes Clean.
    pub fn update_assembled_chart_with_key24(&mut self)
        requires
            old(self).wf(),
        ensures
            final(self).normalized_from(old(self)),
            final(self).cache.wf(),
            final(self).cache.states@ == old(self).cache.states@.update(PREVIEW_KEY as int, BufferState::Clean),
            final(self).preview_published(old(self).cache.buffers@),
    {
        let buf = self.assemble_buffer_for_key(PREVIEW_KEY);
        proof {
            crate::synthesis::lemma_synthesized_valid(self.harmonics, self.sine.values@, self.period(PREVIEW_KEY as int));
        }
        self.cache.publish(PREVIEW_KEY, buf);
    }

    /// The preview key holds the waveform of the current tables; the other keys keep the
    /// buffers of `before`.
    pub open spec fn preview_published(&self, before: Seq<Option<Vec<i64>>>) -> bool {
        &&& self.cache.buffers@.len() == before.len()
        &&& self.cache.buffers@[PREVIEW_KEY as int].is_some()
        &&& self.cache.buffers@[PREVIEW_KEY as int].unwrap()@ == synthesized(
            self.harmonics,
            self.sine.values@,
            self.period(PREVIEW_KEY as int),
        )
        &&& forall|k: int| 0 <= k < before.len() && k != PREVIEW_KEY ==> #[trigger] self.cache.buffers@[k] == before[k]
    }
}

/// Builds a curve of `buckets` points (see `curve_row`).
fn build_curve_row(
    chart: ChartType,
    offset: i64,
    terms: Option<&Vec<i64>>,
    wobble: &Option<Vec<i64>>,
    buckets: usize,
) -> (r: Vec<i64>)
    requires
        -CURVE_LIMIT <= offset <= CURVE_LIMIT,
        match terms {
            Some(t) => modulation_fits(t@, buckets as int),
            None => true,
        },
        wobble_fits(*wobble, buckets as int),
    ensures
        r@ == curve_row(chart, offset as int, terms, *wobble, buckets as int),
{
    let mut out: Vec<i64> = Vec::new();
    let mut b: usize = 0;
    while b < buckets
        invariant
            b <= buckets,
            -CURVE_LIMIT <= offset <= CURVE_LIMIT,
            match terms {
                Some(t) => modulation_fits(t@, buckets as int),
                None => true,
            },
            wobble_fits(*wobble, buckets as int),
            out@ =~= curve_row(chart, offset as int, terms, *wobble, buckets as int).subrange(0, b as int),
        decreases buckets - b,
    {
        let term: i64 = match terms {
            Some(t) => t[b],
            None => 0,
        };
        let wob: i64 = match wobble {
            Some(w) => w[b],
            None => 0,
        };
        let x = offset + term + wob;
        let v = match chart {
            ChartType::Amp => clamp_i64(x, 0, UNIT),
            ChartType::Phase => x,
        };
        out.push(v);
        b = b + 1;
    }
    out
}

impl SynthComputeEngine {
    /// The state after curve `n` of the `chart` table of `before` was replaced by `row`:
    /// nothing else of the tables changed, the normalized amplitudes are derived afresh,
    /// every key is Dirty but the preview key, which holds the new waveform and is Clean.
    pub open spec fn edited(&self, before: &SynthComputeEngine, chart: ChartType, n: int, row: Seq<i64>) -> bool {
        &&& self.wf()
        &&& self.num_harmonics() == before.num_harmonics()
        &&& self.num_buckets() == before.num_buckets()
        &&& self.table(chart).len() == before.table(chart).len()
        &&& self.table(chart)[n]@ == row
        &&& forall|m: int| 0 <= m < before.num_harmonics() && m != n ==> #[trigger] self.table(chart)[m]
            == before.table(chart)[m]
        &&& match chart {
            ChartType::Amp => self.harmonics.phase@ == before.harmonics.phase@,
            ChartType::Phase => self.amplitude@ == before.amplitude@,
        }
        &&& self.harmonics.ampl_enabled@ == before.harmonics.ampl_enabled@
        &&& self.harmonics.phase_enabled@ == before.harmonics.phase_enabled@
        &&& !self.normalization_needed
        &&& rows_view(self.harmonics.amplitude@) == normalized(rows_view(self.amplitude@))
        &&& self.periods@ == before.periods@
        &&& self.sine == before.sine
        &&& self.cache.states@ == all_dirty(before.num_keys()).update(PREVIEW_KEY as int, BufferState::Clean)
        &&& self.preview_published(before.cache.buffers@)
    }

    /// Replaces curve `n` of the `chart` table by `row`, then invalidates the cache and
    /// republishes the preview key.
    fn apply_curve(&mut self, n: usize, chart: ChartType, row: Vec<i64>)
        requires
            old(self).wf(),
            n < old(self).num_harmonics(),
            row@.len() == old(self).num_buckets(),
            forall|b: int| 0 <= b < row@.len() ==> match chart {
                ChartType::Amp => 0 <= #[trigger] row@[b] <= UNIT,
                ChartType::Phase => -4 * CURVE_LIMIT <= row@[b] <= 4 * CURVE_LIMIT,
            },
        ensures
            final(self).edited(old(self), chart, n as int, row@),
    {
        let ghost row_v = row@;
        match chart {
            ChartType::Amp => {
                self.amplitude.set(n, row);
                assert(table_within(self.amplitude@, 0, UNIT as int)) by {
                    assert forall|m: int, b: int| 0 <= m < self.amplitude@.len() && 0 <= b < self.amplitude@[m]@.len()
                        implies 0 <= #[trigger] self.amplitude@[m]@[b] <= UNIT by {
                        if m != n {
                            assert(self.amplitude@[m] == old(self).amplitude@[m]);
                        } else {
                            assert(0 <= row_v[b] <= UNIT);
                        }
                    }
                }
            },
            ChartType::Phase => {
                self.harmonics.phase.set(n, row);
                assert(table_within(self.harmonics.phase@, -4 * CURVE_LIMIT, 4 * CURVE_LIMIT)) by {
                    assert forall|m: int, b: int|
                        0 <= m < self.harmonics.phase@.len() && 0 <= b < self.harmonics.phase@[m]@.len()
                        implies -4 * CURVE_LIMIT <= #[trigger] self.harmonics.phase@[m]@[b] <= 4 * CURVE_LIMIT by {
                        if m != n {
                            assert(self.harmonics.phase@[m] == old(self).harmonics.phase@[m]);
                        } else {
                            assert(-4 * CURVE_LIMIT <= row_v[b] <= 4 * CURVE_LIMIT);
                        }
                    }
                }
            },
        }
        assert(self.num_buckets() == old(self).num_buckets());
        self.normalization_needed = true;
        let ghost edited = *self;
        self.cache.mark_all_dirty();
        self.update_assembled_chart_with_key24();
        assert(self.table(chart)[n as int]@ == row_v) by {
            assert(edited.table(chart)[n as int]@ == row_v);
        }
    }

    /// Fills curve `n` of the `chart` table with the constant `value`, plus the wobble terms
    /// when there is a wobble (`None` when its amplitude is zero). Returns whether anything
    /// was written: when the curve already starts at `value` and there is no wobble, the
    /// call changes nothing.
    pub fn fill_constant_curve(
        &mut self,
        n: usize,
        value: i64,
        chart: ChartType,
        wobble: &Option<Vec<i64>>,
    ) -> (changed: bool)
        requires
            old(self).wf(),
            n < old(self).num_harmonics(),
            -CURVE_LIMIT <= value <= CURVE_LIMIT,
            wobble_fits(*wobble, old(self).num_buckets()),
        ensures
            changed == (old(self).table(chart)[n as int]@[0] != value || wobble.is_some()),
            changed ==> final(self).edited(
                old(self),
                chart,
                n as int,
                curve_row(chart, value as int, None, *wobble, old(self).num_buckets()),
            ),
            !changed ==> *final(self) == *old(self),
            // Without wobble, a fill that is carried out (or finds the curve already at that
            // constant) leaves every point at the stored form of `value`.
            wobble.is_none() && (old(self).table(chart)[n as int]@[0] != value || forall|b: int|
                0 <= b < old(self).num_buckets() ==> #[trigger] old(self).table(chart)[n as int]@[b]
                    == curve_value(chart, value as int)) ==> forall|b: int|
                0 <= b < final(self).num_buckets() ==> #[trigger] final(self).table(chart)[n as int]@[b]
                    == curve_value(chart, value as int),
    {
        let first = match chart {
            ChartType::Amp => self.amplitude[n][0],
            ChartType::Phase => self.harmonics.phase[n][0],
        };
        let changed = first != value || wobble.is_some();
        if changed {
            let buckets = self.harmonics.amplitude[0].len();
            let row = build_curve_row(chart, value, None, wobble, buckets);
            self.apply_curve(n, chart, row);
        }
        changed
    }

    /// Fills curve `n` of the `chart` table in sine mode: bucket `b` gets
    /// `offset + terms[b]` (where `terms[b]` is the sine term `a sin(f b)`), plus the wobble
    /// terms when there is a wobble.
    pub fn fill_sin_curve(
        &mut self,
        n: usize,
        offset: i64,
        terms: &Vec<i64>,
        chart: ChartType,
        wobble: &Option<Vec<i64>>,
    )
        requires
            old(self).wf(),
            n < old(self).num_harmonics(),
            -CURVE_LIMIT <= offset <= CURVE_LIMIT,
            modulation_fits(terms@, old(self).num_buckets()),
            wobble_fits(*wobble, old(self).num_buckets()),
        ensures
            final(self).edited(
                old(self),
                chart,
                n as int,
                curve_row(chart, offset as int, Some(terms), *wobble, old(self).num_buckets()),
            ),
    {
        let buckets = self.harmonics.amplitude[0].len();
        let row = build_curve_row(chart, offset, Some(terms), wobble, buckets);
        self.apply_curve(n, chart, row);
    }
}

/// After any curve edit, the preview key alone is Clean, holding the new waveform, and every
/// other key is Dirty.
pub proof fn lemma_cache_after_edit(
    after: SynthComputeEngine,
    before: SynthComputeEngine,
    chart: ChartType,
    n: int,
    row: Seq<i64>,
)
    requires
        before.wf(),
        after.edited(&before, chart, n, row),
    ensures
        after.cache.states@[PREVIEW_KEY as int] == BufferState::Clean,
        forall|k: int| 0 <= k < after.num_keys() && k != PREVIEW_KEY ==> #[trigger] after.cache.states@[k]
            == BufferState::Dirty,
        after.cache.buffers@[PREVIEW_KEY as int].unwrap()@ == synthesized(
            after.harmonics,
            after.sine.values@,
            after.period(PREVIEW_KEY as int),
        ),
{
}

impl SynthComputeEngine {
    /// The buffer to play for `key`: its cached buffer whatever its state (a stale one while
    /// Dirty or Computing), else a waveform synthesized on the spot, which is not stored.
    /// A key outside the range gives an empty buffer.
    pub fn get_buffer_for_key(&mut self, key: usize) -> (r: Vec<i64>)
        requires
            old(self).wf(),
        ensures
            samples_valid(r@),
            key >= old(self).num_keys() ==> r@.len() == 0 && *final(self) == *old(self),
            key < old(self).num_keys() && old(self).cache.buffers@[key as int].is_some() ==> {
                &&& r@ == old(self).cache.buffers@[key as int].unwrap()@
                &&& *final(self) == *old(self)
            },
            key < old(self).num_keys() && old(self).cache.buffers@[key as int].is_none() ==> {
                &&& final(self).normalized_from(old(self))
                &&& final(self).cache == old(self).cache
                &&& r@ == synthesized(final(self).harmonics, final(self).sine.values@, final(self).period(key as int))
            },
    {
        if key >= self.periods.len() {
            return Vec::new();
        }
        match &self.cache.buffers[key] {
            Some(buf) => {
                return crate::normalize::copy_row(buf);
            },
            None => {},
        }
        let r = self.assemble_buffer_for_key(key);
        proof {
            crate::synthesis::lemma_synthesized_valid(self.harmonics, self.sine.values@, self.period(key as int));
        }
        r
    }

    /// One decision of the background worker. A cancellation request pauses it; otherwise
    /// the next Dirty key (the preview key first, then the lowest) becomes Computing and is
    /// handed out with a private copy of the synthesis inputs; with no Dirty key it idles.
    pub fn scheduler_step(&mut self, cancel_requested: bool) -> (r: SchedulerAction)
        requires
            old(self).wf(),
        ensures
            final(self).wf(),
            cancel_requested ==> r is Pause && *final(self) == *old(self),
            !cancel_requested && none_dirty(old(self).cache.states@) ==> r is Idle && *final(self) == *old(self),
            !cancel_requested && !none_dirty(old(self).cache.states@) ==> (match r {
                SchedulerAction::Compute(job) => {
                    &&& is_next_dirty(old(self).cache.states@, job.key as int)
                    &&& final(self).normalized_from(old(self))
                    &&& final(self).cache.states@ == old(self).cache.states@.update(
                        job.key as int,
                        BufferState::Computing,
                    )
                    &&& final(self).cache.buffers@ == old(self).cache.buffers@
                    &&& job.period == final(self).period(job.key as int)
                    &&& job.harmonics.wf()
                    &&& synthesized(job.harmonics, final(self).sine.values@, job.period as int)
                        == synthesized(final(self).harmonics, final(self).sine.values@, job.period as int)
                },
                _ => false,
            }),
    {
        if cancel_requested {
            return SchedulerAction::Pause;
        }
        match self.cache.next_dirty_key() {
            None => SchedulerAction::Idle,
            Some(key) => {
                self.ensure_normalized();
                let started = self.cache.begin_computation(key);
                assert(started);
                let harmonics = self.snapshot();
                let period = self.periods[key];
                proof {
                    let h1 = harmonics;
                    let h2 = self.harmonics;
                    assert forall|n: int| 0 <= n < crate::synthesis::max_harmonic(period as int) && n < harmonic_count(h1)
                        implies {
                        &&& #[trigger] h1.amplitude@[n]@ == h2.amplitude@[n]@
                        &&& h1.phase@[n]@ == h2.phase@[n]@
                        &&& h1.ampl_enabled@[n] == h2.ampl_enabled@[n]
                        &&& h1.phase_enabled@[n] == h2.phase_enabled@[n]
                    } by {
                        assert(h1.amplitude@[n]@ == h2.amplitude@[n]@);
                    }
                    crate::synthesis::lemma_harmonics_above_limit_ignored(
                        harmonics,
                        self.harmonics,
                        self.sine.values@,
                        period as int,
                    );
                }
                SchedulerAction::Compute(Job { key, period, harmonics })
            },
        }
    }

    /// A private copy of the synthesis inputs.
    fn snapshot(&self) -> (r: Harmonics)
        requires
            self.wf(),
        ensures
            r.wf(),
            rows_view(r.amplitude@) == rows_view(self.harmonics.amplitude@),
            rows_view(r.phase@) == rows_view(self.harmonics.phase@),
            r.ampl_enabled@ == self.harmonics.ampl_enabled@,
            r.phase_enabled@ == self.harmonics.phase_enabled@,
            harmonic_count(r) == self.num_harmonics(),
            bucket_count(r) == self.num_buckets(),
            forall|n: int| 0 <= n < self.num_harmonics() ==> {
                &&& #[trigger] r.amplitude@[n]@ == self.harmonics.amplitude@[n]@
                &&& r.phase@[n]@ == self.harmonics.phase@[n]@
            },
    {
        let amplitude = copy_table(&self.harmonics.amplitude);
        let phase = copy_table(&self.harmonics.phase);
        let ampl_enabled = copy_flags(&self.harmonics.ampl_enabled);
        let phase_enabled = copy_flags(&self.harmonics.phase_enabled);
        proof {
            lemma_rows_view(amplitude@);
            lemma_rows_view(phase@);
            lemma_rows_view(self.harmonics.amplitude@);
            lemma_rows_view(self.harmonics.phase@);
            assert(rows_view(amplitude@)[0] == amplitude@[0]@);
        }
        let r = Harmonics { amplitude, phase, ampl_enabled, phase_enabled };
        proof {
            let h = self.harmonics;
            assert forall|n: int| 0 <= n < self.num_harmonics() implies {
                &&& #[trigger] r.amplitude@[n]@ == h.amplitude@[n]@
                &&& r.phase@[n]@ == h.phase@[n]@
            } by {
                assert(rows_view(r.amplitude@)[n] == r.amplitude@[n]@);
                assert(rows_view(h.amplitude@)[n] == h.amplitude@[n]@);
                assert(rows_view(r.phase@)[n] == r.phase@[n]@);
                assert(rows_view(h.phase@)[n] == h.phase@[n]@);
            }
            assert(table_within(r.amplitude@, 0, UNIT as int)) by {
                assert forall|n: int, b: int| 0 <= n < r.amplitude@.len() && 0 <= b < r.amplitude@[n]@.len() implies 0
                    <= #[trigger] r.amplitude@[n]@[b] <= UNIT by {
                    assert(r.amplitude@[n]@ == h.amplitude@[n]@);
                }
            }
            assert(r.phase@.len() == h.phase@.len());
            assert(table_within(r.phase@, -4 * CURVE_LIMIT, 4 * CURVE_LIMIT)) by {
                assert forall|n: int, b: int| 0 <= n < r.phase@.len() && 0 <= b < r.phase@[n]@.len() implies -4
                    * CURVE_LIMIT <= #[trigger] r.phase@[n]@[b] <= 4 * CURVE_LIMIT by {
                    assert(r.amplitude@[n]@ == h.amplitude@[n]@);
                    assert(r.phase@[n]@ == h.phase@[n]@);
                }
            }
            assert(table_shape(r.amplitude@, harmonic_count(h), bucket_count(h))) by {
                assert forall|n: int| 0 <= n < harmonic_count(h) implies (#[trigger] r.amplitude@[n])@.len()
                    == bucket_count(h) by {
                    assert(r.amplitude@[n]@ == h.amplitude@[n]@);
                }
            }
            assert(table_shape(r.phase@, harmonic_count(h), bucket_count(h))) by {
                assert forall|n: int| 0 <= n < harmonic_count(h) implies (#[trigger] r.phase@[n])@.len()
                    == bucket_count(h) by {
                    assert(r.amplitude@[n]@ == h.amplitude@[n]@);
                    assert(r.phase@[n]@ == h.phase@[n]@);
                }
            }
        }
        r
    }
}

impl SynthComputeEngine {
    /// The waveform to display: the mix of the sounding voices, or, when none has samples,
    /// the buffer of the display key (see `get_buffer_for_key`).
    pub fn update_plotted_mix(&mut self, voices: &VoiceTable) -> (r: Vec<i64>)
        requires
            old(self).wf(),
            voices.wf(),
        ensures
            plotted(voices.voices@).len() > 0 ==> r@ == plotted(voices.voices@) && *final(self) == *old(self),
            plotted(voices.voices@).len() == 0 && DISPLAY_KEY < old(self).num_keys() && old(self).cache.buffers@[DISPLAY_KEY as int].is_some()
                ==> r@ == old(self).cache.buffers@[DISPLAY_KEY as int].unwrap()@ && *final(self) == *old(self),
            plotted(voices.voices@).len() == 0 && DISPLAY_KEY < old(self).num_keys() && old(self).cache.buffers@[DISPLAY_KEY as int].is_none()
                ==> {
                &&& final(self).normalized_from(old(self))
                &&& final(self).cache == old(self).cache
                &&& r@ == synthesized(final(self).harmonics, final(self).sine.values@, final(self).period(DISPLAY_KEY as int))
            },
            plotted(voices.voices@).len() == 0 && DISPLAY_KEY >= old(self).num_keys() ==> r@.len() == 0
                && *final(self) == *old(self),
    {
        let mix = voices.plotted_mix();
        if mix.len() > 0 {
            return mix;
        }
        self.get_buffer_for_key(DISPLAY_KEY)
    }
}

impl SynthComputeEngine {
    /// Note-on: starts a voice for `key` with the buffer `get_buffer_for_key` gives. A key
    /// outside the range is ignored.
    pub fn start_note(&mut self, voices: &mut VoiceTable, key: usize)
        requires
            old(self).wf(),
            old(voices).wf(),
            old(voices).voices@.len() == old(self).num_keys(),
        ensures
            final(self).wf(),
            final(voices).wf(),
            final(voices).fade_duration == old(voices).fade_duration,
            key >= old(self).num_keys() ==> *final(self) == *old(self) && final(voices).voices@ == old(voices).voices@,
            key < old(self).num_keys() ==> {
                &&& final(voices).voices@.len() == old(voices).voices@.len()
                &&& final(voices).voices@[key as int].is_some()
                &&& forall|k: int| 0 <= k < old(voices).voices@.len() && k != key ==> #[trigger] final(voices).voices@[k]
                    == old(voices).voices@[k]
                &&& old(self).cache.buffers@[key as int].is_some() ==> final(voices).voices@[key as int].unwrap().buffer@
                    == old(self).cache.buffers@[key as int].unwrap()@
                &&& old(self).cache.buffers@[key as int].is_none() ==> final(voices).voices@[key as int].unwrap().buffer@
                    == synthesized(final(self).harmonics, final(self).sine.values@, final(self).period(key as int))
                &&& final(voices).voices@[key as int] == Some(
                    crate::voice::started_voice(final(voices).voices@[key as int].unwrap().buffer),
                )
            },
    {
        if key < self.periods.len() {
            let buf = self.get_buffer_for_key(key);
            voices.note_on(key, buf);
        }
    }
}

impl SynthComputeEngine {
    /// Regenerates curve `n` of the `chart` table in the given mode: a constant at `offset`,
    /// or `offset` plus the sine terms. Returns whether anything was written.
    pub fn fill_curve(
        &mut self,
        n: usize,
        curve: CurveType,
        offset: i64,
        terms: &Vec<i64>,
        chart: ChartType,
        wobble: &Option<Vec<i64>>,
    ) -> (changed: bool)
        requires
            old(self).wf(),
            n < old(self).num_harmonics(),
            -CURVE_LIMIT <= offset <= CURVE_LIMIT,
            curve == CurveType::Sine ==> modulation_fits(terms@, old(self).num_buckets()),
            wobble_fits(*wobble, old(self).num_buckets()),
        ensures
            curve == CurveType::Sine ==> changed && final(self).edited(
                old(self),
                chart,
                n as int,
                curve_row(chart, offset as int, Some(terms), *wobble, old(self).num_buckets()),
            ),
            curve == CurveType::Constant ==> changed == (old(self).table(chart)[n as int]@[0] != offset
                || wobble.is_some()),
            curve == CurveType::Constant && changed ==> final(self).edited(
                old(self),
                chart,
                n as int,
                curve_row(chart, offset as int, None, *wobble, old(self).num_buckets()),
            ),
            curve == CurveType::Constant && !changed ==> *final(self) == *old(self),
    {
        match curve {
            CurveType::Sine => {
                self.fill_sin_curve(n, offset, terms, chart, wobble);
                true
            },
            CurveType::Constant => self.fill_constant_curve(n, offset, chart, wobble),
        }
    }
}

} // verus!
