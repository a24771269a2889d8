//! The per-key buffer cache and its coherence state machine.
use vstd::prelude::*;
use crate::voice::samples_valid;

verus! {

/// Freshness of one key's cached buffer.
#[derive(PartialEq, Eq, Structural, Clone, Copy, Debug)]
pub enum BufferState {
    Clean,
    Dirty,
    Computing,
}

/// The key recomputed synchronously after every curve edit, and served first by the
/// background scheduler.
pub const PREVIEW_KEY: usize = 24;

/// Largest number of keys.
pub const MAX_KEYS: usize = 128;

/// One state and one optional cached buffer per key.
pub struct KeyCache {
    pub states: Vec<BufferState>,
    pub buffers: Vec<Option<Vec<i64>>>,
}

/// Every key Dirty.
pub open spec fn all_dirty(len: int) -> Seq<BufferState> {
    Seq::new(len as nat, |k: int| BufferState::Dirty)
}

/// `k` is the key the scheduler serves next: the preview key when it is Dirty, otherwise
/// the lowest Dirty key.
pub open spec fn is_next_dirty(states: Seq<BufferState>, k: int) -> bool {
    &&& 0 <= k < states.len()
    &&& states[k] == BufferState::Dirty
    &&& k == PREVIEW_KEY || (states[PREVIEW_KEY as int] != BufferState::Dirty && forall|j: int|
        0 <= j < k ==> states[j] != BufferState::Dirty)
}

/// No key is Dirty.
pub open spec fn none_dirty(states: Seq<BufferState>) -> bool {
    forall|j: int| 0 <= j < states.len() ==> states[j] != BufferState::Dirty
}

/// Number of keys in state `s`.
pub open spec fn count_in(states: Seq<BufferState>, s: BufferState) -> int
    decreases states.len(),
{
    if states.len() == 0 {
        0
    } else {
        count_in(states.drop_last(), s) + if states.last() == s {
            1int
        } else {
            0int
        }
    }
}

impl KeyCache {
    pub open spec fn len(&self) -> int {
        self.states@.len() as int
    }

    pub open spec fn wf(&self) -> bool {
        &&& self.states@.len() == self.buffers@.len()
        &&& PREVIEW_KEY < self.states@.len() <= MAX_KEYS
        &&& forall|k: int| 0 <= k < self.buffers@.len() && (#[trigger] self.buffers@[k]).is_some()
            ==> samples_valid(self.buffers@[k].unwrap()@)
    }

    /// A cache of `num_keys` keys, all Dirty and without a buffer.
    pub fn new(num_keys: usize) -> (r: KeyCache)
        requires
            PREVIEW_KEY < num_keys <= MAX_KEYS,
        ensures
            r.wf(),
            r.states@ == all_dirty(num_keys as int),
            forall|k: int| 0 <= k < num_keys ==> r.buffers@[k].is_none(),
            r.len() == num_keys,
    {
        let mut states: Vec<BufferState> = Vec::new();
        let mut buffers: Vec<Option<Vec<i64>>> = Vec::new();
        let mut k: usize = 0;
        while k < num_keys
            invariant
                k <= num_keys,
                states@ =~= all_dirty(k as int),
                buffers@.len() == k,
                forall|j: int| 0 <= j < k ==> buffers@[j].is_none(),
            decreases num_keys - k,
        {
            states.push(BufferState::Dirty);
            buffers.push(None);
            k = k + 1;
        }
        KeyCache { states, buffers }
    }

    /// Invalidates every key: all become Dirty; cached buffers stay as stale fallbacks.
    pub fn mark_all_dirty(&mut self)
        requires
            old(self).wf(),
        ensures
            final(self).wf(),
            final(self).states@ == all_dirty(old(self).len()),
            final(self).buffers@ == old(self).buffers@,
    {
        let mut k: usize = 0;
        while k < self.states.len()
            invariant
                self.buffers@ == old(self).buffers@,
                self.states@.len() == old(self).states@.len(),
                k <= self.states@.len(),
                forall|j: int| 0 <= j < k ==> self.states@[j] == BufferState::Dirty,
            decreases self.states@.len() - k,
        {
            self.states.set(k, BufferState::Dirty);
            k = k + 1;
        }
        assert(self.states@ =~= all_dirty(old(self).len()));
    }

    /// The key the scheduler should compute next, if any is Dirty.
    pub fn next_dirty_key(&self) -> (r: Option<usize>)
        requires
            self.wf(),
        ensures
            r.is_some() ==> is_next_dirty(self.states@, r.unwrap() as int),
            r.is_none() <==> none_dirty(self.states@),
    {
        if self.states[PREVIEW_KEY] == BufferState::Dirty {
            return Some(PREVIEW_KEY);
        }
        let mut k: usize = 0;
        while k < self.states.len()
            invariant
                self.wf(),
                self.states@[PREVIEW_KEY as int] != BufferState::Dirty,
                k <= self.states@.len(),
                forall|j: int| 0 <= j < k ==> self.states@[j] != BufferState::Dirty,
            decreases self.states@.len() - k,
        {
            if self.states[k] == BufferState::Dirty {
                return Some(k);
            }
            k = k + 1;
        }
        None
    }

    /// Moves `key` from Dirty to Computing; returns false, changing nothing, when it is not
    /// Dirty.
    pub fn begin_computation(&mut self, key: usize) -> (started: bool)
        requires
            old(self).wf(),
            key < old(self).len(),
        ensures
            final(self).wf(),
            started == (old(self).states@[key as int] == BufferState::Dirty),
            started ==> final(self).states@ == old(self).states@.update(
                key as int,
                BufferState::Computing,
            ),
            !started ==> final(self).states@ == old(self).states@,
            final(self).buffers@ == old(self).buffers@,
    {
        if self.states[key] == BufferState::Dirty {
            self.states.set(key, BufferState::Computing);
            true
        } else {
            false
        }
    }

    /// Ends the computation of `key`. A finished buffer is stored and the key becomes Clean;
    /// a cancelled one (`None`) sends the key back to Dirty. A key that is no longer
    /// Computing was invalidated meanwhile: the result is dropped and its state kept.
    pub fn finish_computation(&mut self, key: usize, result: Option<Vec<i64>>)
        requires
            old(self).wf(),
            key < old(self).len(),
            result.is_some() ==> samples_valid(result.unwrap()@),
        ensures
            final(self).wf(),
            old(self).states@[key as int] == BufferState::Computing && result.is_some() ==> {
                &&& final(self).states@ == old(self).states@.update(key as int, BufferState::Clean)
                &&& final(self).buffers@ == old(self).buffers@.update(key as int, result)
            },
            old(self).states@[key as int] == BufferState::Computing && result.is_none() ==> {
                &&& final(self).states@ == old(self).states@.update(key as int, BufferState::Dirty)
                &&& final(self).buffers@ == old(self).buffers@
            },
            old(self).states@[key as int] != BufferState::Computing ==> *final(self) == *old(self),
    {
        if self.states[key] == BufferState::Computing {
            match result {
                Some(buf) => {
                    self.buffers.set(key, Some(buf));
                    self.states.set(key, BufferState::Clean);
                },
                None => {
                    self.states.set(key, BufferState::Dirty);
                },
            }
        }
    }

    /// Stores a freshly computed buffer for `key` and marks it Clean.
    pub fn publish(&mut self, key: usize, buffer: Vec<i64>)
        requires
            old(self).wf(),
            key < old(self).len(),
            samples_valid(buffer@),
        ensures
            final(self).wf(),
            final(self).states@ == old(self).states@.update(key as int, BufferState::Clean),
            final(self).buffers@ == old(self).buffers@.update(key as int, Some(buffer)),
    {
        self.buffers.set(key, Some(buffer));
        self.states.set(key, BufferState::Clean);
    }

    /// Number of keys in each state: (Clean, Dirty, Computing).
    pub fn state_counts(&self) -> (r: (usize, usize, usize))
        requires
            self.wf(),
        ensures
            r.0 == count_in(self.states@, BufferState::Clean),
            r.1 == count_in(self.states@, BufferState::Dirty),
            r.2 == count_in(self.states@, BufferState::Computing),
            r.0 + r.1 + r.2 == self.len(),
    {
        let mut clean: usize = 0;
        let mut dirty: usize = 0;
        let mut computing: usize = 0;
        let mut k: usize = 0;
        while k < self.states.len()
            invariant
                self.wf(),
                k <= self.states@.len(),
                clean + dirty + computing == k,
                clean == count_in(self.states@.subrange(0, k as int), BufferState::Clean),
                dirty == count_in(self.states@.subrange(0, k as int), BufferState::Dirty),
                computing == count_in(self.states@.subrange(0, k as int), BufferState::Computing),
            decreases self.states@.len() - k,
        {
            assert(self.states@.subrange(0, k as int + 1).drop_last() =~= self.states@.subrange(0, k as int));
            match self.states[k] {
                BufferState::Clean => clean = clean + 1,
                BufferState::Dirty => dirty = dirty + 1,
                BufferState::Computing => computing = computing + 1,
            }
            k = k + 1;
        }
        assert(self.states@.subrange(0, self.states@.len() as int) =~= self.states@);
        (clean, dirty, computing)
    }
}

} // verus!
