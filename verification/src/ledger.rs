//! A small keyed record store: the contracts' persistent per-key entries.

use vstd::prelude::*;
use crate::keys::LedgerKey;

verus! {

/// The map that a sequence of entries denotes: later entries override earlier ones.
pub open spec fn entries_map<K: View, T>(s: Seq<(K, T)>) -> Map<K::V, T>
    decreases s.len(),
{
    if s.len() == 0 {
        Map::empty()
    } else {
        entries_map(s.drop_last()).insert(s.last().0@, s.last().1)
    }
}

proof fn lemma_entries_map_finite<K: View, T>(s: Seq<(K, T)>)
    ensures
        entries_map(s).dom().finite(),
    decreases s.len(),
{
    if s.len() > 0 {
        lemma_entries_map_finite(s.drop_last());
    }
}

proof fn lemma_entries_map_step<K: View, T>(s: Seq<(K, T)>, i: int)
    requires
        0 <= i < s.len(),
    ensures
        entries_map(s.take(i + 1)) == entries_map(s.take(i)).insert(s[i].0@, s[i].1),
{
    assert(s.take(i + 1).drop_last() =~= s.take(i));
}

/// Records of type `T` keyed by `K`; its view is a finite map.
pub struct Ledger<K, T> {
    entries: Vec<(K, T)>,
}

impl<K: View, T> View for Ledger<K, T> {
    type V = Map<K::V, T>;

    closed spec fn view(&self) -> Map<K::V, T> {
        entries_map(self.entries@)
    }
}

impl<K: LedgerKey, T: Copy> Ledger<K, T> {
    /// The empty ledger.
    pub fn new() -> (l: Self)
        ensures
            l@ == Map::<K::V, T>::empty(),
    {
        Ledger { entries: Vec::new() }
    }

    /// The map is finite.
    pub proof fn lemma_finite(&self)
        ensures
            self@.dom().finite(),
    {
        lemma_entries_map_finite(self.entries@);
    }

    /// The record under `key`, if any.
    pub fn get(&self, key: &K) -> (r: Option<T>)
        ensures
            r == (if self@.contains_key(key@) {
                Some(self@[key@])
            } else {
                None
            }),
    {
        let n = self.entries.len();
        let mut found: Option<T> = None;
        let mut i: usize = 0;
        assert(self.entries@.take(0) =~= Seq::<(K, T)>::empty());
        while i < n
            invariant
                n == self.entries.len(),
                i <= n,
                found == (if entries_map(self.entries@.take(i as int)).contains_key(key@) {
                    Some(entries_map(self.entries@.take(i as int))[key@])
                } else {
                    None
                }),
            decreases n - i,
        {
            proof {
                lemma_entries_map_step(self.entries@, i as int);
            }
            if self.entries[i].0.same_key(key) {
                found = Some(self.entries[i].1);
            }
            i = i + 1;
        }
        assert(self.entries@.take(n as int) =~= self.entries@);
        found
    }

    /// The record under `key`, or `default` where there is none.
    pub fn get_or(&self, key: &K, default: T) -> (r: T)
        ensures
            r == (if self@.contains_key(key@) {
                self@[key@]
            } else {
                default
            }),
    {
        match self.get(key) {
            Some(v) => v,
            None => default,
        }
    }

    /// Drops the record under `key`.
    pub fn remove(&mut self, key: &K)
        ensures
            final(self)@ == old(self)@.remove(key@),
    {
        let n = self.entries.len();
        let mut kept: Vec<(K, T)> = Vec::new();
        let mut i: usize = 0;
        assert(self.entries@.take(0) =~= Seq::<(K, T)>::empty());
        assert(entries_map(kept@) =~= entries_map(self.entries@.take(0)).remove(key@));
        while i < n
            invariant
                n == self.entries.len(),
                self.entries@ == old(self).entries@,
                i <= n,
                entries_map(kept@) =~= entries_map(self.entries@.take(i as int)).remove(key@),
            decreases n - i,
        {
            proof {
                lemma_entries_map_step(self.entries@, i as int);
            }
            if !self.entries[i].0.same_key(key) {
                let k = self.entries[i].0.copy_key();
                let v = self.entries[i].1;
                let ghost before = kept@;
                kept.push((k, v));
                assert(kept@.drop_last() =~= before);
            }
            i = i + 1;
        }
        assert(self.entries@.take(n as int) =~= self.entries@);
        self.entries = kept;
    }

    /// Records `value` under `key`, replacing any earlier record.
    pub fn set(&mut self, key: K, value: T)
        ensures
            final(self)@ == old(self)@.insert(key@, value),
    {
        self.remove(&key);
        let ghost before = self.entries@;
        let ghost k = key@;
        self.entries.push((key, value));
        assert(self.entries@.drop_last() =~= before);
        assert(entries_map(self.entries@) =~= old(self)@.insert(k, value));
    }
}

} // verus!
