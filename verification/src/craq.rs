//! CRAQ per-key clean/dirty version state.

use vstd::prelude::*;

verus! {

/// Per-key state in CRAQ: the clean version plus the in-flight dirty
/// versions.
#[derive(Clone, Debug, Default)]
pub struct KeyState {
    /// The latest known-committed value.
    pub clean: Option<u32>,
    /// In-flight dirty versions `(version, value)`.
    pub dirty: Vec<(u32, u32)>,
}

/// The first index of `dirty` whose version is `version`, if any.
pub open spec fn first_version_index(dirty: Seq<(u32, u32)>, version: u32) -> Option<int> {
    if exists|i: int| 0 <= i < dirty.len() && dirty[i].0 == version {
        Some(
            choose|i: int|
                0 <= i < dirty.len() && dirty[i].0 == version && forall|j: int|
                    0 <= j < i ==> dirty[j].0 != version,
        )
    } else {
        None
    }
}

/// What a local read of a key with clean value `clean` and dirty
/// versions `dirty` returns: the clean value when nothing is dirty.
pub open spec fn read_view(clean: Option<u32>, dirty: Seq<(u32, u32)>) -> Option<u32> {
    if dirty.len() == 0 {
        clean
    } else {
        None
    }
}

impl KeyState {
    /// Local read: the clean value when nothing is dirty; `None` (the
    /// caller must ask the tail) otherwise.
    pub fn local_read(&self) -> (r: Option<u32>)
        ensures
            r == read_view(self.clean, self.dirty@),
    {
        if self.dirty.len() == 0 {
            self.clean
        } else {
            None
        }
    }

    /// Record a new dirty version (during write propagation).
    pub fn add_dirty(&mut self, version: u32, value: u32)
        ensures
            final(self).clean == old(self).clean,
            final(self).dirty@ == old(self).dirty@.push((version, value)),
    {
        self.dirty.push((version, value));
    }

    /// Promote dirty version `version` to clean (when the tail's ack
    /// flows back): its first occurrence leaves the dirty list and its
    /// value becomes the clean value. An unknown version changes
    /// nothing.
    pub fn promote(&mut self, version: u32)
        ensures
            match first_version_index(old(self).dirty@, version) {
                Some(i) => {
                    &&& final(self).dirty@ == old(self).dirty@.remove(i)
                    &&& final(self).clean == Some(old(self).dirty@[i].1)
                },
                None => {
                    &&& final(self).dirty@ == old(self).dirty@
                    &&& final(self).clean == old(self).clean
                },
            },
    {
        let mut idx: usize = 0;
        while idx < self.dirty.len()
            invariant
                idx <= self.dirty.len(),
                self.dirty@ == old(self).dirty@,
                self.clean == old(self).clean,
                forall|j: int| 0 <= j < idx ==> self.dirty@[j].0 != version,
            decreases self.dirty.len() - idx,
        {
            if self.dirty[idx].0 == version {
                let ghost d = self.dirty@;
                assert(exists|i: int| 0 <= i < d.len() && d[i].0 == version);
                let ghost c = first_version_index(d, version)->0;
                assert(c == idx) by {
                    if c < idx {
                    } else if c > idx {
                    }
                }
                let (_, value) = self.dirty.remove(idx);
                self.clean = Some(value);
                return;
            }
            idx = idx + 1;
        }
    }
}

/// A key with a pending write cannot be read locally; once its only
/// dirty version is promoted (its entry leaves the dirty list and its
/// value becomes clean), a local read returns that version's value.
pub proof fn lemma_promote_then_read(clean: Option<u32>, version: u32, value: u32)
    ensures
        read_view(clean, seq![(version, value)]) is None,
        first_version_index(seq![(version, value)], version) == Some(0int),
        read_view(Some(seq![(version, value)][0].1), seq![(version, value)].remove(0)) == Some(value),
{
    let d = seq![(version, value)];
    assert(d[0].0 == version);
    let c = first_version_index(d, version)->0;
    assert(c == 0);
    assert(d.remove(0).len() == 0);
}

} // verus!
