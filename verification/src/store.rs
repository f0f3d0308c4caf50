//! The durable key metadata store: a mapping from key triple to key record.
//!
//! The store is the ground truth for which keys exist. Its value is the
//! finite map from triple views to record views; every operation is stated
//! against that map.

use vstd::prelude::*;
use crate::key_types::{KeyInfo, KeyInfoView, KeyTriple, KeyTripleView};

verus! {

/// One stored binding of a logical key name to its record.
pub struct StoreEntry {
    pub key: KeyTriple,
    pub info: KeyInfo,
}

/// Whether some entry binds the triple `k`.
pub open spec fn spec_has_key(s: Seq<StoreEntry>, k: KeyTripleView) -> bool {
    exists|i: int| 0 <= i < s.len() && s[i].key@ == k
}

/// The record bound to `k`, provided some entry binds it and bindings are unique.
pub open spec fn spec_record_of(s: Seq<StoreEntry>, k: KeyTripleView) -> KeyInfoView {
    s[choose|i: int| 0 <= i < s.len() && s[i].key@ == k].info@
}

/// No two entries bind the same triple.
pub open spec fn distinct_keys(s: Seq<StoreEntry>) -> bool {
    forall|i: int, j: int| 0 <= i < j < s.len() ==> s[i].key@ != s[j].key@
}

/// The map denoted by a sequence of entries with unique bindings.
pub open spec fn store_map(s: Seq<StoreEntry>) -> Map<KeyTripleView, KeyInfoView> {
    Map::new(|k: KeyTripleView| spec_has_key(s, k), |k: KeyTripleView| spec_record_of(s, k))
}

proof fn lemma_unique_index(s: Seq<StoreEntry>, i: int, j: int)
    requires
        distinct_keys(s),
        0 <= i < s.len(),
        0 <= j < s.len(),
        s[i].key@ == s[j].key@,
    ensures
        i == j,
{
}

/// Appending a binding for a fresh triple inserts it into the map.
proof fn lemma_store_map_push(s: Seq<StoreEntry>, e: StoreEntry)
    requires
        distinct_keys(s),
        !spec_has_key(s, e.key@),
    ensures
        distinct_keys(s.push(e)),
        store_map(s.push(e)) =~= store_map(s).insert(e.key@, e.info@),
{
    let t = s.push(e);
    assert forall|i: int, j: int| 0 <= i < j < t.len() implies t[i].key@ != t[j].key@ by {
        if j < s.len() {
            assert(t[i] == s[i] && t[j] == s[j]);
        } else {
            assert(t[j] == e);
            assert(t[i] == s[i]);
            assert(!(s[i].key@ == e.key@)) by {
                if s[i].key@ == e.key@ {
                    assert(spec_has_key(s, e.key@));
                }
            }
        }
    }
    assert forall|k: KeyTripleView| #[trigger] store_map(t).contains_key(k) ==
        store_map(s).insert(e.key@, e.info@).contains_key(k) by {
        if spec_has_key(t, k) {
            let i = choose|i: int| 0 <= i < t.len() && t[i].key@ == k;
            if i < s.len() {
                assert(s[i].key@ == k);
            } else {
                assert(t[i] == e);
            }
        }
        if spec_has_key(s, k) {
            let i = choose|i: int| 0 <= i < s.len() && s[i].key@ == k;
            assert(t[i].key@ == k);
        }
        if k == e.key@ {
            assert(t[s.len() as int].key@ == k);
        }
    }
    assert forall|k: KeyTripleView| store_map(t).contains_key(k) implies
        #[trigger] store_map(t)[k] == store_map(s).insert(e.key@, e.info@)[k] by {
        if k == e.key@ {
            assert(t[s.len() as int].key@ == k);
            let j = choose|j: int| 0 <= j < t.len() && t[j].key@ == k;
            lemma_unique_index(t, j, s.len() as int);
            assert(spec_record_of(t, k) == e.info@);
        } else {
            let j = choose|j: int| 0 <= j < t.len() && t[j].key@ == k;
            assert(t[j].key@ == k);
            assert(j < s.len()) by {
                if j == s.len() {
                    assert(t[j] == e);
                }
            }
            assert(s[j].key@ == k);
            let j2 = choose|j2: int| 0 <= j2 < s.len() && s[j2].key@ == k;
            lemma_unique_index(s, j, j2);
            assert(spec_record_of(t, k) == spec_record_of(s, k));
        }
    }
}

/// Removing the entry at `i` removes exactly its triple from the map.
proof fn lemma_store_map_remove_at(s: Seq<StoreEntry>, i: int)
    requires
        distinct_keys(s),
        0 <= i < s.len(),
    ensures
        distinct_keys(s.remove(i)),
        !spec_has_key(s.remove(i), s[i].key@),
        store_map(s.remove(i)) =~= store_map(s).remove(s[i].key@),
{
    let t = s.remove(i);
    let ki = s[i].key@;
    assert forall|a: int, b: int| 0 <= a < b < t.len() implies t[a].key@ != t[b].key@ by {
        let a2: int = if a < i { a } else { a + 1 };
        let b2: int = if b < i { b } else { b + 1 };
        assert(t[a] == s[a2] && t[b] == s[b2]);
    }
    assert forall|j: int| 0 <= j < t.len() implies t[j].key@ != ki by {
        let j2: int = if j < i { j } else { j + 1 };
        assert(t[j] == s[j2]);
        if t[j].key@ == ki {
            lemma_unique_index(s, j2, i);
        }
    }
    assert forall|k: KeyTripleView| #[trigger] store_map(t).contains_key(k) ==
        store_map(s).remove(ki).contains_key(k) by {
        if spec_has_key(t, k) {
            let j = choose|j: int| 0 <= j < t.len() && t[j].key@ == k;
            let j2: int = if j < i { j } else { j + 1 };
            assert(t[j] == s[j2]);
            assert(s[j2].key@ == k);
        }
        if spec_has_key(s, k) && k != ki {
            let j = choose|j: int| 0 <= j < s.len() && s[j].key@ == k;
            assert(j != i);
            let j2: int = if j < i { j } else { j - 1 };
            assert(t[j2] == s[j]);
        }
    }
    assert forall|k: KeyTripleView| store_map(t).contains_key(k) implies
        #[trigger] store_map(t)[k] == store_map(s).remove(ki)[k] by {
        let j = choose|j: int| 0 <= j < t.len() && t[j].key@ == k;
        let j2: int = if j < i { j } else { j + 1 };
        assert(t[j] == s[j2]);
        let a = choose|a: int| 0 <= a < t.len() && t[a].key@ == k;
        let a2: int = if a < i { a } else { a + 1 };
        assert(t[a] == s[a2]);
        let b = choose|b: int| 0 <= b < s.len() && s[b].key@ == k;
        lemma_unique_index(s, a2, b);
        assert(spec_record_of(t, k) == t[a].info@);
        assert(spec_record_of(s, k) == s[b].info@);
    }
}

/// The durable key metadata store.
pub struct KeyInfoStore {
    entries: Vec<StoreEntry>,
}

impl View for KeyInfoStore {
    type V = Map<KeyTripleView, KeyInfoView>;

    closed spec fn view(&self) -> Map<KeyTripleView, KeyInfoView> {
        store_map(self.entries@)
    }
}

impl KeyInfoStore {
    /// The store keeps at most one record per triple.
    pub closed spec fn wf(&self) -> bool {
        distinct_keys(self.entries@)
    }

    /// An empty store.
    pub fn new() -> (r: KeyInfoStore)
        ensures
            r.wf(),
            r@ =~= Map::<KeyTripleView, KeyInfoView>::empty(),
    {
        let r = KeyInfoStore { entries: Vec::new() };
        proof {
            assert forall|k: KeyTripleView| !(#[trigger] r@.contains_key(k)) by {
                if spec_has_key(r.entries@, k) {
                    let i = choose|i: int| 0 <= i < r.entries@.len() && r.entries@[i].key@ == k;
                }
            }
        }
        r
    }

    fn find_index(&self, key: &KeyTriple) -> (r: Option<usize>)
        ensures
            match r {
                Some(i) => i < self.entries@.len() && self.entries@[i as int].key@ == key@,
                None => !spec_has_key(self.entries@, key@),
            },
    {
        let n = self.entries.len();
        let mut i: usize = 0;
        while i < n
            invariant
                n == self.entries@.len(),
                i <= n,
                forall|j: int| 0 <= j < i ==> self.entries@[j].key@ != key@,
            decreases n - i,
        {
            if self.entries[i].key.same_triple(key) {
                return Some(i);
            }
            i += 1;
        }
        None
    }

    /// Whether a record exists for the triple.
    pub fn contains(&self, key: &KeyTriple) -> (r: bool)
        ensures
            r == self@.contains_key(key@),
    {
        match self.find_index(key) {
            Some(i) => {
                proof {
                    assert(spec_has_key(self.entries@, key@));
                }
                true
            },
            None => false,
        }
    }

    /// The record for the triple, if any.
    pub fn get(&self, key: &KeyTriple) -> (r: Option<KeyInfo>)
        requires
            self.wf(),
        ensures
            match r {
                Some(info) => self@.contains_key(key@) && info@ == self@[key@],
                None => !self@.contains_key(key@),
            },
    {
        match self.find_index(key) {
            Some(i) => {
                let entry = &self.entries[i];
                let info = KeyInfo { id: copy_bytes(&entry.info.id), attributes: entry.info.attributes };
                proof {
                    assert(spec_has_key(self.entries@, key@));
                    let j = choose|j: int| 0 <= j < self.entries@.len()
                        && self.entries@[j].key@ == key@;
                    lemma_unique_index(self.entries@, i as int, j);
                    assert(self@[key@] == self.entries@[i as int].info@);
                }
                Some(info)
            },
            None => None,
        }
    }

    /// Inserts a record for the triple, returning the overwritten record if
    /// one was there. Overwriting is tolerated, not an error.
    pub fn insert(&mut self, key: KeyTriple, info: KeyInfo) -> (prev: Option<KeyInfo>)
        requires
            old(self).wf(),
        ensures
            final(self).wf(),
            final(self)@ =~= old(self)@.insert(key@, info@),
            prev is Some <==> old(self)@.contains_key(key@),
            prev matches Some(p) ==> p@ == old(self)@[key@],
    {
        let ghost s0 = self.entries@;
        match self.find_index(&key) {
            Some(i) => {
                let removed = self.entries.remove(i);
                proof {
                    lemma_store_map_remove_at(s0, i as int);
                    let j = choose|j: int| 0 <= j < s0.len() && s0[j].key@ == key@;
                    lemma_unique_index(s0, i as int, j);
                    assert(store_map(s0)[key@] == removed.info@);
                }
                let ghost s1 = self.entries@;
                self.entries.push(StoreEntry { key, info });
                proof {
                    lemma_store_map_push(s1, StoreEntry { key, info });
                    assert(final(self)@ =~= store_map(s0).insert(key@, info@));
                }
                Some(removed.info)
            },
            None => {
                self.entries.push(StoreEntry { key, info });
                proof {
                    lemma_store_map_push(s0, StoreEntry { key, info });
                }
                None
            },
        }
    }

    /// Removes the record for the triple, if any. Removing an absent triple
    /// is a no-op, never an error.
    pub fn remove(&mut self, key: &KeyTriple) -> (r: Option<KeyInfo>)
        requires
            old(self).wf(),
        ensures
            final(self).wf(),
            final(self)@ =~= old(self)@.remove(key@),
            r is Some <==> old(self)@.contains_key(key@),
            r matches Some(p) ==> p@ == old(self)@[key@],
    {
        let ghost s0 = self.entries@;
        match self.find_index(key) {
            Some(i) => {
                let removed = self.entries.remove(i);
                proof {
                    lemma_store_map_remove_at(s0, i as int);
                    let j = choose|j: int| 0 <= j < s0.len() && s0[j].key@ == key@;
                    lemma_unique_index(s0, i as int, j);
                    assert(store_map(s0)[key@] == removed.info@);
                }
                Some(removed.info)
            },
            None => {
                proof {
                    assert(final(self)@ =~= old(self)@.remove(key@));
                }
                None
            },
        }
    }
}

/// A fresh vector holding the same bytes.
fn copy_bytes(v: &Vec<u8>) -> (r: Vec<u8>)
    ensures
        r@ == v@,
{
    let n = v.len();
    let mut r: Vec<u8> = Vec::new();
    let mut i: usize = 0;
    while i < n
        invariant
            n == v@.len(),
            i <= n,
            r@ == v@.subrange(0, i as int),
        decreases n - i,
    {
        r.push(v[i]);
        proof {
            assert(r@ =~= v@.subrange(0, i + 1 as int));
        }
        i += 1;
    }
    proof {
        assert(r@ =~= v@);
    }
    r
}

} // verus!
