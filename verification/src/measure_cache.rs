//! The cache of text measurements, kept across layout passes.
//!
//! Each entry records the pass in which it was last used. A pass begins by
//! moving to the next pass number and ends by dropping every entry that the
//! pass did not use (mark and sweep).
use crate::chars::str_equals;
use vstd::prelude::*;

verus! {

/// What a measurement depends on: the text, the font family and size, and
/// the wrapping width rounded to whole pixels (0 for unwrapped text).
pub struct CacheKey {
    pub text: String,
    pub family: String,
    pub size_px: u32,
    pub max_width_px_rounded: u32,
}

/// A key as plain values.
pub type KeyView = (Seq<char>, Seq<char>, u32, u32);

impl View for CacheKey {
    type V = KeyView;

    open spec fn view(&self) -> KeyView {
        (self.text@, self.family@, self.size_px, self.max_width_px_rounded)
    }
}

/// A cached measurement and the pass that last used it.
#[derive(Clone, Copy)]
pub struct CacheEntry<S> {
    pub size: S,
    pub last_used_epoch: u64,
}

/// The current pass number and the cached measurements.
pub struct CacheState<S> {
    epoch: u64,
    entries: Vec<(CacheKey, CacheEntry<S>)>,
}

/// The measurements of a list of entries by key, later entries winning.
pub open spec fn entries_map<S>(entries: Seq<(CacheKey, CacheEntry<S>)>) -> Map<KeyView, CacheEntry<S>>
    decreases entries.len(),
{
    if entries.len() == 0 {
        Map::empty()
    } else {
        entries_map(entries.drop_last()).insert(entries.last().0@, entries.last().1)
    }
}

/// No key occurs twice.
pub open spec fn keys_distinct<S>(entries: Seq<(CacheKey, CacheEntry<S>)>) -> bool {
    forall|i: int, j: int|
        0 <= i < j < entries.len() ==> (#[trigger] entries[i]).0@ != (#[trigger] entries[j]).0@
}

/// The entries of `m` that the pass `epoch` used.
pub open spec fn used_in<S>(m: Map<KeyView, CacheEntry<S>>, epoch: u64) -> Map<KeyView, CacheEntry<S>> {
    Map::new(|k: KeyView| m.contains_key(k) && m[k].last_used_epoch == epoch, |k: KeyView| m[k])
}

/// The pass number after `epoch`, wrapping around.
pub open spec fn next_epoch(epoch: u64) -> u64 {
    if epoch == u64::MAX {
        0
    } else {
        (epoch + 1) as u64
    }
}

proof fn lemma_entries_map_index<S>(entries: Seq<(CacheKey, CacheEntry<S>)>, i: int)
    requires
        keys_distinct(entries),
        0 <= i < entries.len(),
    ensures
        entries_map(entries).contains_key(entries[i].0@),
        entries_map(entries)[entries[i].0@] == entries[i].1,
    decreases entries.len(),
{
    if i < entries.len() - 1 {
        lemma_entries_map_index(entries.drop_last(), i);
        assert(entries.drop_last()[i] == entries[i]);
        assert(entries[i].0@ != entries[entries.len() - 1].0@);
    }
}

proof fn lemma_entries_map_keys<S>(entries: Seq<(CacheKey, CacheEntry<S>)>, k: KeyView)
    requires
        entries_map(entries).contains_key(k),
    ensures
        exists|i: int| 0 <= i < entries.len() && (#[trigger] entries[i]).0@ == k,
    decreases entries.len(),
{
    if entries.len() > 0 && entries.last().0@ != k {
        lemma_entries_map_keys(entries.drop_last(), k);
        let i = choose|i: int| 0 <= i < entries.len() - 1 && (#[trigger] entries.drop_last()[i]).0@ == k;
        assert(entries[i] == entries.drop_last()[i]);
    }
}

proof fn lemma_entries_map_update<S>(entries: Seq<(CacheKey, CacheEntry<S>)>, i: int, e: CacheEntry<S>)
    requires
        keys_distinct(entries),
        0 <= i < entries.len(),
    ensures
        entries_map(entries.update(i, (entries[i].0, e))) == entries_map(entries).insert(entries[i].0@, e),
    decreases entries.len(),
{
    let n = entries.update(i, (entries[i].0, e));
    if i == entries.len() - 1 {
        assert(n.drop_last() =~= entries.drop_last());
        assert(entries_map(n) =~= entries_map(entries).insert(entries[i].0@, e));
    } else {
        lemma_entries_map_update(entries.drop_last(), i, e);
        assert(n.drop_last() =~= entries.drop_last().update(i, (entries[i].0, e)));
        assert(entries[i].0@ != entries.last().0@);
        assert(entries_map(n) =~= entries_map(entries).insert(entries[i].0@, e));
    }
}

/// Whether two keys are equal.
fn key_equals(a: &CacheKey, b: &CacheKey) -> (r: bool)
    ensures
        r == (a@ == b@),
{
    a.size_px == b.size_px && a.max_width_px_rounded == b.max_width_px_rounded && str_equals(
        a.text.as_str(),
        b.text.as_str(),
    ) && str_equals(a.family.as_str(), b.family.as_str())
}

impl<S: Copy> CacheState<S> {
    /// The cached measurements by key.
    pub closed spec fn entries(&self) -> Map<KeyView, CacheEntry<S>> {
        entries_map(self.entries@)
    }

    /// The current pass number.
    pub closed spec fn epoch(&self) -> u64 {
        self.epoch
    }

    /// No key is stored twice.
    pub closed spec fn wf(&self) -> bool {
        keys_distinct(self.entries@)
    }

    /// An empty cache at pass 0.
    pub fn new() -> (r: Self)
        ensures
            r.wf(),
            r.entries() == Map::<KeyView, CacheEntry<S>>::empty(),
            r.epoch() == 0,
    {
        CacheState { epoch: 0, entries: Vec::new() }
    }

    /// The position of the entry for `key`.
    fn position(&self, key: &CacheKey) -> (r: Option<usize>)
        requires
            self.wf(),
        ensures
            match r {
                Some(i) => i < self.entries@.len() && self.entries@[i as int].0@ == key@,
                None => !self.entries().contains_key(key@),
            },
    {
        let mut i: usize = 0;
        while i < self.entries.len()
            invariant
                i <= self.entries@.len(),
                forall|j: int| 0 <= j < i ==> (#[trigger] self.entries@[j]).0@ != key@,
            decreases self.entries.len() - i,
        {
            if key_equals(&self.entries[i].0, key) {
                return Some(i);
            }
            i += 1;
        }
        proof {
            if self.entries().contains_key(key@) {
                lemma_entries_map_keys(self.entries@, key@);
            }
        }
        None
    }

    /// Start a layout pass: move to the next pass number, wrapping around.
    pub fn begin_layout_pass(&mut self)
        ensures
            final(self).wf() == old(self).wf(),
            final(self).entries() == old(self).entries(),
            final(self).epoch() == next_epoch(old(self).epoch()),
    {
        self.epoch = self.epoch.wrapping_add(1);
    }

    /// End a layout pass: drop every entry that the pass did not use.
    pub fn end_layout_pass_and_sweep(&mut self)
        requires
            old(self).wf(),
        ensures
            final(self).wf(),
            final(self).entries() == used_in(old(self).entries(), old(self).epoch()),
            final(self).epoch() == old(self).epoch(),
    {
        let epoch = self.epoch;
        let mut kept: Vec<(CacheKey, CacheEntry<S>)> = Vec::new();
        let mut old_entries: Vec<(CacheKey, CacheEntry<S>)> = Vec::new();
        std::mem::swap(&mut old_entries, &mut self.entries);
        let ghost all = old_entries@;
        for item in it: old_entries.into_iter()
            invariant
                it.seq() == all,
                keys_distinct(all),
                forall|j: int|
                    0 <= j < kept@.len() ==> exists|a: int|
                        0 <= a < it.index() && (#[trigger] kept@[j]).0@ == (#[trigger] all[a]).0@,
                keys_distinct(kept@),
                entries_map(kept@) == used_in(entries_map(all.take(it.index() as int)), epoch),
        {
            let ghost i = it.index() as int;
            proof {
                assert(item == all[i]);
                assert(all.take(i + 1).drop_last() =~= all.take(i));
                assert(all.take(i + 1).last() == all[i]);
                assert forall|j: int| 0 <= j < kept@.len() implies (#[trigger] kept@[j]).0@ != item.0@ by {
                    let a = choose|a: int| 0 <= a < i && kept@[j].0@ == (#[trigger] all[a]).0@;
                    assert(all[a].0@ != all[i].0@);
                }
                assert(!entries_map(all.take(i)).contains_key(item.0@)) by {
                    if entries_map(all.take(i)).contains_key(item.0@) {
                        lemma_entries_map_keys(all.take(i), item.0@);
                        let a = choose|a: int| 0 <= a < i && (#[trigger] all.take(i)[a]).0@ == item.0@;
                        assert(all.take(i)[a] == all[a]);
                    }
                }
            }
            let ghost before = kept@;
            if item.1.last_used_epoch == epoch {
                kept.push(item);
                proof {
                    assert(kept@.drop_last() =~= before);
                    assert forall|j: int|
                        0 <= j < kept@.len() implies exists|a: int|
                            0 <= a < i + 1 && (#[trigger] kept@[j]).0@ == (#[trigger] all[a]).0@ by {
                        if j < kept@.len() - 1 {
                            let a = choose|a: int| 0 <= a < i && before[j].0@ == (#[trigger] all[a]).0@;
                            assert(kept@[j] == before[j]);
                            assert(0 <= a < i + 1 && kept@[j].0@ == all[a].0@);
                        } else {
                            assert(kept@[j] == all[i]);
                        }
                    }
                    assert(entries_map(kept@) =~= used_in(entries_map(all.take(i + 1)), epoch));
                }
            } else {
                proof {
                    assert(entries_map(kept@) =~= used_in(entries_map(all.take(i + 1)), epoch));
                }
            }
        }
        assert(all.take(all.len() as int) =~= all);
        self.entries = kept;
    }

    /// The measurement cached for `key`, marked as used by the current pass.
    pub fn lookup(&mut self, key: &CacheKey) -> (r: Option<S>)
        requires
            old(self).wf(),
        ensures
            final(self).wf(),
            final(self).epoch() == old(self).epoch(),
            match r {
                Some(s) => old(self).entries().contains_key(key@) && s == old(self).entries()[key@].size
                    && final(self).entries() == old(self).entries().insert(
                    key@,
                    CacheEntry { size: s, last_used_epoch: old(self).epoch() },
                ),
                None => !old(self).entries().contains_key(key@) && final(self).entries() == old(
                    self,
                ).entries(),
            },
    {
        match self.position(key) {
            Some(i) => {
                let size = self.entries[i].1.size;
                let entry = CacheEntry { size, last_used_epoch: self.epoch };
                proof {
                    lemma_entries_map_index(self.entries@, i as int);
                    lemma_entries_map_update(self.entries@, i as int, entry);
                }
                let ghost before = self.entries@;
                let (stored, _) = self.entries.remove(i);
                self.entries.insert(i, (stored, entry));
                assert(self.entries@ =~= before.update(i as int, (before[i as int].0, entry)));
                Some(size)
            },
            None => None,
        }
    }

    /// Cache the measurement of `key`, marked as used by the current pass.
    pub fn insert(&mut self, key: CacheKey, size: S)
        requires
            old(self).wf(),
        ensures
            final(self).wf(),
            final(self).epoch() == old(self).epoch(),
            final(self).entries() == old(self).entries().insert(
                key@,
                CacheEntry { size, last_used_epoch: old(self).epoch() },
            ),
    {
        let entry = CacheEntry { size, last_used_epoch: self.epoch };
        match self.position(&key) {
            Some(i) => {
                let ghost before = self.entries@;
                proof {
                    lemma_entries_map_update(before, i as int, entry);
                }
                let (stored, _) = self.entries.remove(i);
                self.entries.insert(i, (stored, entry));
                assert(self.entries@ =~= before.update(i as int, (before[i as int].0, entry)));
            },
            None => {
                let ghost before = self.entries@;
                proof {
                    assert forall|j: int| 0 <= j < before.len() implies (#[trigger] before[j]).0@ != key@ by {
                        lemma_entries_map_index(before, j);
                    }
                }
                self.entries.push((key, entry));
                assert(self.entries@.drop_last() =~= before);
            },
        }
    }
}

/// A measurement cached in a pass is found again in that pass with the same
/// size, and it outlives the sweep that ends the pass.
pub proof fn lemma_cached_until_unused<S>(m: Map<KeyView, CacheEntry<S>>, k: KeyView, size: S, epoch: u64)
    ensures
        ({
            let after = m.insert(k, CacheEntry { size, last_used_epoch: epoch });
            &&& after.contains_key(k)
            &&& after[k].size == size
            &&& used_in(after, epoch).contains_key(k)
            &&& used_in(after, epoch)[k].size == size
        }),
{
}

/// After a sweep, every entry was used by the pass that swept.
pub proof fn lemma_sweep_keeps_only_used<S>(m: Map<KeyView, CacheEntry<S>>, epoch: u64)
    ensures
        forall|k: KeyView|
            #[trigger] used_in(m, epoch).contains_key(k) ==> used_in(m, epoch)[k].last_used_epoch == epoch
                && m.contains_key(k),
{
}

/// A pass that uses nothing ends with an empty cache: what the previous
/// pass kept is dropped, since a new pass never has the previous number.
pub proof fn lemma_unused_pass_empties<S>(m: Map<KeyView, CacheEntry<S>>, epoch: u64)
    requires
        forall|k: KeyView| #[trigger] m.contains_key(k) ==> m[k].last_used_epoch == epoch,
    ensures
        used_in(m, next_epoch(epoch)) == Map::<KeyView, CacheEntry<S>>::empty(),
{
    assert(used_in(m, next_epoch(epoch)) =~= Map::<KeyView, CacheEntry<S>>::empty());
}

} // verus!
