//! The real-time voice mixer: one voice per sounding key, with fade envelopes and loudness
//! compensation, summed into one mono sample per audio frame.
use vstd::prelude::*;
use crate::cache::MAX_KEYS;
use crate::units::{clamp, clamp_i64, div_toward_zero, div_toward_zero_i128, UNIT};

verus! {

/// Longest fade, in samples.
pub const MAX_FADE: usize = 1_048_576;

/// One sounding note: its waveform, playback cursor and fade envelopes.
pub struct Voice {
    pub buffer: Vec<i64>,
    pub idx: usize,
    pub fade_in_active: bool,
    pub fade_in_pos: usize,
    pub fade_out_active: bool,
    pub fade_out_pos: usize,
}

/// One voice slot per key, and the fade duration shared by all voices.
pub struct VoiceTable {
    pub voices: Vec<Option<Voice>>,
    pub fade_duration: usize,
}

/// Every sample lies in `[-UNIT, UNIT]`.
pub open spec fn samples_valid(s: Seq<i64>) -> bool {
    forall|i: int| 0 <= i < s.len() ==> -UNIT <= #[trigger] s[i] <= UNIT
}

impl Voice {
    pub open spec fn wf(&self, dur: int) -> bool {
        &&& samples_valid(self.buffer@)
        &&& self.fade_in_pos <= dur
        &&& self.fade_out_pos <= dur
    }
}

/// A fresh voice at the start of its waveform, fading in.
pub open spec fn started_voice(buffer: Vec<i64>) -> Voice {
    Voice {
        buffer,
        idx: 0,
        fade_in_active: true,
        fade_in_pos: 0,
        fade_out_active: false,
        fade_out_pos: 0,
    }
}

/// The fade-out of the voice has run its full duration: it is removed at its next frame.
pub open spec fn fade_finished(v: Voice, dur: int) -> bool {
    v.fade_out_active && v.fade_out_pos >= dur
}

/// Fade-in gain of this frame, as a multiple of `1 / dur`.
pub open spec fn fade_in_gain(v: Voice, dur: int) -> int {
    if v.fade_in_active && v.fade_in_pos < dur {
        v.fade_in_pos as int
    } else {
        dur
    }
}

/// Fade-out gain of this frame, as a multiple of `1 / dur`: falls linearly from one to zero.
pub open spec fn fade_out_gain(v: Voice, dur: int) -> int {
    if v.fade_out_active {
        dur - v.fade_out_pos
    } else {
        dur
    }
}

/// What the voice adds to this frame, in units times `dur * dur`, before the per-voice gain.
pub open spec fn contribution(v: Voice, dur: int) -> int {
    let len = v.buffer@.len();
    if len == 0 || fade_finished(v, dur) {
        0
    } else {
        v.buffer@[v.idx as int % len as int] * fade_in_gain(v, dur) * fade_out_gain(v, dur)
    }
}

/// The slot after one frame: the voice advances its cursor (wrapping) and its fades, or is
/// removed once its fade-out has finished. A voice without samples stays as it is.
pub open spec fn stepped(slot: Option<Voice>, dur: int) -> Option<Voice> {
    match slot {
        None => None,
        Some(v) => {
            let len = v.buffer@.len();
            if len == 0 {
                Some(v)
            } else if fade_finished(v, dur) {
                None
            } else {
                let fading_in = v.fade_in_active && v.fade_in_pos < dur;
                Some(
                    Voice {
                        idx: ((v.idx as int % len as int + 1) % len as int) as usize,
                        fade_in_active: fading_in,
                        fade_in_pos: if fading_in {
                            (v.fade_in_pos + 1) as usize
                        } else {
                            v.fade_in_pos
                        },
                        fade_out_pos: if v.fade_out_active {
                            (v.fade_out_pos + 1) as usize
                        } else {
                            v.fade_out_pos
                        },
                        ..v
                    },
                )
            }
        },
    }
}

/// Number of occupied slots.
pub open spec fn active_count(slots: Seq<Option<Voice>>) -> int
    decreases slots.len(),
{
    if slots.len() == 0 {
        0
    } else {
        active_count(slots.drop_last()) + if slots.last().is_some() {
            1int
        } else {
            0int
        }
    }
}

/// Sum of the contributions of all voices.
pub open spec fn contribution_sum(slots: Seq<Option<Voice>>, dur: int) -> int
    decreases slots.len(),
{
    if slots.len() == 0 {
        0
    } else {
        contribution_sum(slots.drop_last(), dur) + match slots.last() {
            Some(v) => contribution(v, dur),
            None => 0,
        }
    }
}

/// Loudness compensation for `n` voices, in tenths: 1, 1.5, 2, 2.4, 2.8, then 3.
pub open spec fn compensation_tenths(n: int) -> int {
    if n <= 1 {
        10
    } else if n == 2 {
        15
    } else if n == 3 {
        20
    } else if n == 4 {
        24
    } else if n == 5 {
        28
    } else {
        30
    }
}

/// The mixed sample of a frame: each voice scaled by `0.8 / n` and its fades, summed, times
/// the compensation for `n` voices, clamped to `[-UNIT, UNIT]`; zero with no voice.
pub open spec fn mixed_sample(slots: Seq<Option<Voice>>, dur: int) -> int {
    let n = active_count(slots);
    if n == 0 {
        0
    } else {
        clamp(
            div_toward_zero(contribution_sum(slots, dur) * 4 * compensation_tenths(n), 50 * n * dur * dur),
            -UNIT as int,
            UNIT as int,
        )
    }
}

pub fn compensation_of(n: usize) -> (r: i128)
    ensures
        r == compensation_tenths(n as int),
{
    if n <= 1 {
        10
    } else if n == 2 {
        15
    } else if n == 3 {
        20
    } else if n == 4 {
        24
    } else if n == 5 {
        28
    } else {
        30
    }
}

/// Advances one voice slot by a frame and returns its contribution.
fn step_slot(slot: &mut Option<Voice>, dur: usize) -> (c: i128)
    requires
        1 <= dur <= MAX_FADE,
        match *old(slot) {
            Some(v) => v.wf(dur as int),
            None => true,
        },
    ensures
        *final(slot) == stepped(*old(slot), dur as int),
        c == match *old(slot) {
            Some(v) => contribution(v, dur as int),
            None => 0,
        },
        -UNIT * MAX_FADE * MAX_FADE <= c <= UNIT * MAX_FADE * MAX_FADE,
        match *final(slot) {
            Some(v) => v.wf(dur as int),
            None => true,
        },
{
    let mut cur: Option<Voice> = None;
    core::mem::swap(slot, &mut cur);
    match cur {
        None => 0,
        Some(mut v) => {
            let len = v.buffer.len();
            if len == 0 {
                *slot = Some(v);
                0
            } else if v.fade_out_active && v.fade_out_pos >= dur {
                0
            } else {
                let ghost v0 = v;
                let pos = v.idx % len;
                let s = v.buffer[pos] as i128;
                let gin: i128 = if v.fade_in_active && v.fade_in_pos < dur {
                    v.fade_in_pos as i128
                } else {
                    dur as i128
                };
                let gout: i128 = if v.fade_out_active {
                    (dur - v.fade_out_pos) as i128
                } else {
                    dur as i128
                };
                assert(-UNIT * MAX_FADE <= s * gin <= UNIT * MAX_FADE) by (nonlinear_arith)
                    requires
                        -UNIT <= s <= UNIT,
                        0 <= gin <= MAX_FADE,
                ;
                assert(-UNIT * MAX_FADE * MAX_FADE <= (s * gin) * gout <= UNIT * MAX_FADE * MAX_FADE)
                    by (nonlinear_arith)
                    requires
                        -UNIT * MAX_FADE <= s * gin <= UNIT * MAX_FADE,
                        0 <= gout <= MAX_FADE,
                ;
                let c = s * gin * gout;
                if v.fade_in_active && v.fade_in_pos < dur {
                    v.fade_in_pos = v.fade_in_pos + 1;
                } else {
                    v.fade_in_active = false;
                }
                if v.fade_out_active {
                    v.fade_out_pos = v.fade_out_pos + 1;
                }
                proof {
                    vstd::arithmetic::div_mod::lemma_mod_bound(v0.idx as int, len as int);
                }
                v.idx = if pos + 1 == len {
                    0
                } else {
                    pos + 1
                };
                proof {
                    if pos + 1 == len {
                        vstd::arithmetic::div_mod::lemma_mod_self_0(len as int);
                    } else {
                        vstd::arithmetic::div_mod::lemma_small_mod((pos + 1) as nat, len as nat);
                    }
                }
                *slot = Some(v);
                c
            }
        },
    }
}

impl VoiceTable {
    pub open spec fn wf(&self) -> bool {
        &&& self.voices@.len() <= MAX_KEYS
        &&& 1 <= self.fade_duration <= MAX_FADE
        &&& forall|k: int| 0 <= k < self.voices@.len() ==> match #[trigger] self.voices@[k] {
            Some(v) => v.wf(self.fade_duration as int),
            None => true,
        }
    }

    /// A table of `num_keys` empty slots whose voices fade over `fade_duration` samples.
    pub fn new(num_keys: usize, fade_duration: usize) -> (r: VoiceTable)
        requires
            num_keys <= MAX_KEYS,
            1 <= fade_duration <= MAX_FADE,
        ensures
            r.wf(),
            r.fade_duration == fade_duration,
            r.voices@.len() == num_keys,
            forall|k: int| 0 <= k < num_keys ==> (#[trigger] r.voices@[k]).is_none(),
    {
        let mut voices: Vec<Option<Voice>> = Vec::new();
        let mut k: usize = 0;
        while k < num_keys
            invariant
                k <= num_keys,
                voices@.len() == k,
                forall|j: int| 0 <= j < k ==> (#[trigger] voices@[j]).is_none(),
            decreases num_keys - k,
        {
            voices.push(None);
            k = k + 1;
        }
        VoiceTable { voices, fade_duration }
    }

    /// Starts a voice for `key` with `buffer`, replacing any voice the key had. A key
    /// outside the table is ignored.
    pub fn note_on(&mut self, key: usize, buffer: Vec<i64>)
        requires
            old(self).wf(),
            samples_valid(buffer@),
        ensures
            final(self).wf(),
            final(self).fade_duration == old(self).fade_duration,
            key < old(self).voices@.len() ==> final(self).voices@ == old(self).voices@.update(
                key as int,
                Some(started_voice(buffer)),
            ),
            key >= old(self).voices@.len() ==> final(self).voices@ == old(self).voices@,
    {
        if key < self.voices.len() {
            let v = Voice {
                buffer,
                idx: 0,
                fade_in_active: true,
                fade_in_pos: 0,
                fade_out_active: false,
                fade_out_pos: 0,
            };
            self.voices.set(key, Some(v));
        }
    }

    /// Releases the voice of `key`: its fade-out starts over from full gain. A key without
    /// a voice, or outside the table, is ignored.
    pub fn note_off(&mut self, key: usize)
        requires
            old(self).wf(),
        ensures
            final(self).wf(),
            final(self).fade_duration == old(self).fade_duration,
            key < old(self).voices@.len() && old(self).voices@[key as int].is_some() ==> final(self).voices@
                == old(self).voices@.update(
                key as int,
                Some(
                    Voice {
                        fade_out_active: true,
                        fade_out_pos: 0,
                        ..old(self).voices@[key as int].unwrap()
                    },
                ),
            ),
            key >= old(self).voices@.len() || old(self).voices@[key as int].is_none() ==> final(self).voices@
                == old(self).voices@,
    {
        if key < self.voices.len() {
            let mut cur: Option<Voice> = None;
            core::mem::swap(&mut cur, &mut self.voices[key]);
            match cur {
                Some(mut v) => {
                    v.fade_out_active = true;
                    v.fade_out_pos = 0;
                    self.voices.set(key, Some(v));
                },
                None => {},
            }
            assert(self.voices@ =~= old(self).voices@.update(key as int, self.voices@[key as int]));
        }
    }

    /// Gives the voice of `key`, if there is one, a new waveform; its cursor and fades go on
    /// unchanged.
    pub fn refresh_buffer(&mut self, key: usize, buffer: Vec<i64>)
        requires
            old(self).wf(),
            samples_valid(buffer@),
        ensures
            final(self).wf(),
            final(self).fade_duration == old(self).fade_duration,
            key < old(self).voices@.len() && old(self).voices@[key as int].is_some() ==> final(self).voices@
                == old(self).voices@.update(
                key as int,
                Some(Voice { buffer, ..old(self).voices@[key as int].unwrap() }),
            ),
            key >= old(self).voices@.len() || old(self).voices@[key as int].is_none() ==> final(self).voices@
                == old(self).voices@,
    {
        if key < self.voices.len() {
            let mut cur: Option<Voice> = None;
            core::mem::swap(&mut cur, &mut self.voices[key]);
            match cur {
                Some(mut v) => {
                    v.buffer = buffer;
                    self.voices.set(key, Some(v));
                },
                None => {},
            }
            assert(self.voices@ =~= old(self).voices@.update(key as int, self.voices@[key as int]));
        }
    }

    /// Number of sounding voices.
    pub fn active_count(&self) -> (n: usize)
        requires
            self.wf(),
        ensures
            n == active_count(self.voices@),
    {
        let mut n: usize = 0;
        let mut k: usize = 0;
        while k < self.voices.len()
            invariant
                self.wf(),
                k <= self.voices@.len(),
                n == active_count(self.voices@.subrange(0, k as int)),
                n <= k,
            decreases self.voices@.len() - k,
        {
            assert(self.voices@.subrange(0, k as int + 1).drop_last() =~= self.voices@.subrange(0, k as int));
            if self.voices[k].is_some() {
                n = n + 1;
            }
            k = k + 1;
        }
        assert(self.voices@.subrange(0, self.voices@.len() as int) =~= self.voices@);
        n
    }

    /// The keys that have a voice, in ascending order.
    pub fn active_keys(&self) -> (r: Vec<usize>)
        requires
            self.wf(),
        ensures
            forall|i: int| 0 <= i < r@.len() ==> (#[trigger] r@[i]) < self.voices@.len() && self.voices@[r@[i] as int].is_some(),
            forall|k: int| 0 <= k < self.voices@.len() && (#[trigger] self.voices@[k]).is_some() ==> r@.contains(k as usize),
            forall|i: int, j: int| 0 <= i < j < r@.len() ==> r@[i] < r@[j],
    {
        let mut out: Vec<usize> = Vec::new();
        let mut k: usize = 0;
        while k < self.voices.len()
            invariant
                k <= self.voices@.len(),
                forall|i: int| 0 <= i < out@.len() ==> (#[trigger] out@[i]) < k && self.voices@[out@[i] as int].is_some(),
                forall|j: int| 0 <= j < k && (#[trigger] self.voices@[j]).is_some() ==> out@.contains(j as usize),
                forall|i: int, j: int| 0 <= i < j < out@.len() ==> out@[i] < out@[j],
            decreases self.voices@.len() - k,
        {
            let ghost prev = out@;
            if self.voices[k].is_some() {
                out.push(k);
                assert(out@[out@.len() - 1] == k);
            }
            assert forall|j: int| 0 <= j <= k && (#[trigger] self.voices@[j]).is_some() implies out@.contains(j as usize) by {
                if j < k {
                    assert(prev.contains(j as usize));
                    let i = choose|i: int| 0 <= i < prev.len() && prev[i] == j as usize;
                    assert(out@[i] == prev[i]);
                } else {
                    assert(out@[out@.len() - 1] == k);
                }
            }
            k = k + 1;
        }
        out
    }

    /// Mixes one audio frame: every voice is read at its cursor, scaled by `0.8 / n` for the
    /// `n` voices sounding at the start of the frame and by its fades, and summed; the sum
    /// gets the loudness compensation for `n` and is clamped to `[-UNIT, UNIT]`. Every voice
    /// then advances by one frame, and voices whose fade-out has finished are removed.
    pub fn mix_frame(&mut self) -> (r: i64)
        requires
            old(self).wf(),
        ensures
            final(self).wf(),
            final(self).fade_duration == old(self).fade_duration,
            final(self).voices@.len() == old(self).voices@.len(),
            forall|k: int| 0 <= k < old(self).voices@.len() ==> #[trigger] final(self).voices@[k] == stepped(
                old(self).voices@[k],
                old(self).fade_duration as int,
            ),
            r == mixed_sample(old(self).voices@, old(self).fade_duration as int),
            -UNIT <= r <= UNIT,
    {
        let n = self.active_count();
        let dur = self.fade_duration;
        let ghost before = self.voices@;
        let mut total: i128 = 0;
        let mut k: usize = 0;
        while k < self.voices.len()
            invariant
                1 <= dur <= MAX_FADE,
                dur == self.fade_duration,
                self.voices@.len() == before.len() <= MAX_KEYS,
                k <= before.len(),
                forall|j: int| 0 <= j < k ==> #[trigger] self.voices@[j] == stepped(before[j], dur as int),
                forall|j: int| k <= j < before.len() ==> #[trigger] self.voices@[j] == before[j],
                forall|j: int| 0 <= j < before.len() ==> match #[trigger] self.voices@[j] {
                    Some(v) => v.wf(dur as int),
                    None => true,
                },
                total == contribution_sum(before.subrange(0, k as int), dur as int),
                -k * (UNIT * MAX_FADE * MAX_FADE) <= total <= k * (UNIT * MAX_FADE * MAX_FADE),
            decreases before.len() - k,
        {
            assert(before.subrange(0, k as int + 1).drop_last() =~= before.subrange(0, k as int));
            assert(self.voices@[k as int] == before[k as int]);
            let ghost mid = self.voices@;
            let c = step_slot(&mut self.voices[k], dur);
            assert(self.voices@ =~= mid.update(k as int, self.voices@[k as int]));
            assert(-128 * (UNIT * MAX_FADE * MAX_FADE) <= total <= 128 * (UNIT * MAX_FADE * MAX_FADE)) by (nonlinear_arith)
                requires
                    -k * (UNIT * MAX_FADE * MAX_FADE) <= total <= k * (UNIT * MAX_FADE * MAX_FADE),
                    0 <= k <= 128,
            ;
            total = total + c;
            k = k + 1;
            assert(-k * (UNIT * MAX_FADE * MAX_FADE) == -(k - 1) * (UNIT * MAX_FADE * MAX_FADE) - UNIT * MAX_FADE * MAX_FADE) by (nonlinear_arith);
            assert(k * (UNIT * MAX_FADE * MAX_FADE) == (k - 1) * (UNIT * MAX_FADE * MAX_FADE) + UNIT * MAX_FADE * MAX_FADE) by (nonlinear_arith);
        }
        assert(before.subrange(0, before.len() as int) =~= before);
        if n == 0 {
            return 0;
        }
        assert(-128 * (UNIT * MAX_FADE * MAX_FADE) <= total <= 128 * (UNIT * MAX_FADE * MAX_FADE)) by (nonlinear_arith)
            requires
                -k * (UNIT * MAX_FADE * MAX_FADE) <= total <= k * (UNIT * MAX_FADE * MAX_FADE),
                0 <= k <= 128,
        ;
        let comp = compensation_of(n);
        assert(10 <= comp <= 30);
        assert(-128 * (UNIT * MAX_FADE * MAX_FADE) * 120 <= total * 4 * comp <= 128 * (UNIT * MAX_FADE * MAX_FADE) * 120)
            by (nonlinear_arith)
            requires
                -128 * (UNIT * MAX_FADE * MAX_FADE) <= total <= 128 * (UNIT * MAX_FADE * MAX_FADE),
                10 <= comp <= 30,
        ;
        assert(-128 * (UNIT * MAX_FADE * MAX_FADE) * 4 <= total * 4 <= 128 * (UNIT * MAX_FADE * MAX_FADE) * 4)
            by (nonlinear_arith)
            requires
                -128 * (UNIT * MAX_FADE * MAX_FADE) <= total <= 128 * (UNIT * MAX_FADE * MAX_FADE),
        ;
        let num = total * 4 * comp;
        assert(1 <= n <= 128) by {
            lemma_active_count_bound(before);
        }
        assert(1 <= (n as i128) * (dur as i128) <= 128 * MAX_FADE) by (nonlinear_arith)
            requires 1 <= n <= 128, 1 <= dur <= MAX_FADE;
        assert(1 <= (n as i128) * (dur as i128) * (dur as i128) <= 128 * MAX_FADE * MAX_FADE) by (nonlinear_arith)
            requires 1 <= (n as i128) * (dur as i128) <= 128 * MAX_FADE, 1 <= dur <= MAX_FADE;
        assert(50 * (n as i128) * (dur as i128) * (dur as i128) <= 50 * 128 * MAX_FADE * MAX_FADE) by (nonlinear_arith)
            requires 1 <= n <= 128, 1 <= dur <= MAX_FADE;
        assert(50 * (n as i128) * (dur as i128) <= 50 * 128 * MAX_FADE) by (nonlinear_arith)
            requires 1 <= n <= 128, 1 <= dur <= MAX_FADE;
        assert(50 * (n as i128) * (dur as i128) * (dur as i128) >= 1) by (nonlinear_arith)
            requires 1 <= n <= 128, 1 <= dur <= MAX_FADE;
        let den = 50 * (n as i128) * (dur as i128) * (dur as i128);
        let q = div_toward_zero_i128(num, den);
        let r: i64 = if q < -(UNIT as i128) {
            -UNIT
        } else if q > UNIT as i128 {
            UNIT
        } else {
            q as i64
        };
        r
    }
}

/// Length of the longest voice buffer (zero with no voice).
pub open spec fn longest_buffer(slots: Seq<Option<Voice>>) -> int
    decreases slots.len(),
{
    if slots.len() == 0 {
        0
    } else {
        let m = longest_buffer(slots.drop_last());
        match slots.last() {
            Some(v) => if v.buffer@.len() > m {
                v.buffer@.len() as int
            } else {
                m
            },
            None => m,
        }
    }
}

/// Sum of the `i`-th samples of the voices whose buffers are that long.
pub open spec fn sample_sum_at(slots: Seq<Option<Voice>>, i: int) -> int
    decreases slots.len(),
{
    if slots.len() == 0 {
        0
    } else {
        sample_sum_at(slots.drop_last(), i) + match slots.last() {
            Some(v) => if i < v.buffer@.len() {
                v.buffer@[i] as int
            } else {
                0
            },
            None => 0,
        }
    }
}

/// The display mix: the voices' buffers summed sample by sample from their start, each sum
/// clamped to `[-UNIT, UNIT]`, as long as the longest buffer.
pub open spec fn plotted(slots: Seq<Option<Voice>>) -> Seq<i64> {
    Seq::new(
        longest_buffer(slots) as nat,
        |i: int| clamp(sample_sum_at(slots, i), -UNIT as int, UNIT as int) as i64,
    )
}

impl VoiceTable {
    /// The current voices mixed for display (see `plotted`); empty when no voice has samples.
    pub fn plotted_mix(&self) -> (r: Vec<i64>)
        requires
            self.wf(),
        ensures
            r@ == plotted(self.voices@),
    {
        let ghost slots = self.voices@;
        let mut len: usize = 0;
        let mut k: usize = 0;
        while k < self.voices.len()
            invariant
                slots == self.voices@,
                k <= slots.len(),
                len == longest_buffer(slots.subrange(0, k as int)),
            decreases slots.len() - k,
        {
            assert(slots.subrange(0, k as int + 1).drop_last() =~= slots.subrange(0, k as int));
            match &self.voices[k] {
                Some(v) => {
                    if v.buffer.len() > len {
                        len = v.buffer.len();
                    }
                },
                None => {},
            }
            k = k + 1;
        }
        assert(slots.subrange(0, slots.len() as int) =~= slots);
        let mut out: Vec<i64> = Vec::new();
        let mut i: usize = 0;
        while i < len
            invariant
                self.wf(),
                slots == self.voices@,
                len == longest_buffer(slots),
                i <= len,
                out@.len() == i,
                forall|j: int| 0 <= j < i ==> out@[j] == clamp(sample_sum_at(slots, j), -UNIT as int, UNIT as int) as i64,
            decreases len - i,
        {
            let mut sum: i64 = 0;
            let mut k: usize = 0;
            while k < self.voices.len()
                invariant
                    self.wf(),
                    slots == self.voices@,
                    k <= slots.len() <= MAX_KEYS,
                    sum == sample_sum_at(slots.subrange(0, k as int), i as int),
                    -k * UNIT <= sum <= k * UNIT,
                decreases slots.len() - k,
            {
                assert(slots.subrange(0, k as int + 1).drop_last() =~= slots.subrange(0, k as int));
                assert(slots.subrange(0, k as int + 1).last() == slots[k as int]);
                match &self.voices[k] {
                    Some(v) => {
                        assert(v.wf(self.fade_duration as int));
                        if i < v.buffer.len() {
                            sum = sum + v.buffer[i];
                        }
                    },
                    None => {},
                }
                k = k + 1;
            }
            assert(slots.subrange(0, slots.len() as int) =~= slots);
            out.push(clamp_i64(sum, -UNIT, UNIT));
            i = i + 1;
        }
        assert(out@ =~= plotted(slots));
        out
    }
}

/// Releasing a sounding voice does not change what it adds to the next frame: its fade-out
/// starts from full gain.
pub proof fn lemma_release_is_continuous(v: Voice, dur: int)
    requires
        !v.fade_out_active,
        dur >= 1,
    ensures
        contribution(Voice { fade_out_active: true, fade_out_pos: 0, ..v }, dur) == contribution(v, dur),
{
}

proof fn lemma_active_count_bound(slots: Seq<Option<Voice>>)
    ensures
        0 <= active_count(slots) <= slots.len(),
    decreases slots.len(),
{
    if slots.len() > 0 {
        lemma_active_count_bound(slots.drop_last());
    }
}

} // verus!
