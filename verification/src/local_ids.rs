//! The in-memory index of identifiers currently live for this provider
//! instance.
//!
//! The index is a shadow of the identifiers recorded in the durable store,
//! consulted only to avoid handing out a colliding identifier; the store
//! stays the source of truth for which keys exist.

use vstd::prelude::*;

verus! {

/// Whether some held identifier has the bytes `id`.
pub open spec fn spec_has_id(s: Seq<[u8; 4]>, id: Seq<u8>) -> bool {
    exists|i: int| 0 <= i < s.len() && s[i]@ == id
}

/// No identifier is held twice.
pub open spec fn distinct_ids(s: Seq<[u8; 4]>) -> bool {
    forall|i: int, j: int| 0 <= i < j < s.len() ==> s[i]@ != s[j]@
}

/// The in-memory set of identifiers currently in use.
pub struct LocalIdStore {
    ids: Vec<[u8; 4]>,
}

impl View for LocalIdStore {
    type V = Set<Seq<u8>>;

    closed spec fn view(&self) -> Set<Seq<u8>> {
        Set::new(|id: Seq<u8>| spec_has_id(self.ids@, id))
    }
}

/// Whether two identifiers hold the same bytes.
pub fn id_eq(a: &[u8; 4], b: &[u8; 4]) -> (r: bool)
    ensures
        r == (a@ == b@),
{
    let r = a[0] == b[0] && a[1] == b[1] && a[2] == b[2] && a[3] == b[3];
    proof {
        if r {
            assert(a@ =~= b@);
        } else {
            assert(a@ != b@);
        }
    }
    r
}

impl LocalIdStore {
    /// Each identifier is held at most once.
    pub closed spec fn wf(&self) -> bool {
        distinct_ids(self.ids@)
    }

    /// An empty index: the expected state at process start (cold cache).
    pub fn new() -> (r: LocalIdStore)
        ensures
            r.wf(),
            r@ =~= Set::<Seq<u8>>::empty(),
    {
        let r = LocalIdStore { ids: Vec::new() };
        proof {
            assert forall|id: Seq<u8>| !(#[trigger] r@.contains(id)) by {
                if spec_has_id(r.ids@, id) {
                    let i = choose|i: int| 0 <= i < r.ids@.len() && r.ids@[i]@ == id;
                }
            }
        }
        r
    }

    fn find_index(&self, id: &[u8; 4]) -> (r: Option<usize>)
        ensures
            match r {
                Some(i) => i < self.ids@.len() && self.ids@[i as int]@ == id@,
                None => !spec_has_id(self.ids@, id@),
            },
    {
        let n = self.ids.len();
        let mut i: usize = 0;
        while i < n
            invariant
                n == self.ids@.len(),
                i <= n,
                forall|j: int| 0 <= j < i ==> self.ids@[j]@ != id@,
            decreases n - i,
        {
            if id_eq(&self.ids[i], id) {
                return Some(i);
            }
            i += 1;
        }
        None
    }

    /// Whether the identifier is currently in use.
    pub fn contains(&self, id: &[u8; 4]) -> (r: bool)
        ensures
            r == self@.contains(id@),
    {
        match self.find_index(id) {
            Some(i) => {
                proof {
                    assert(spec_has_id(self.ids@, id@));
                }
                true
            },
            None => false,
        }
    }

    /// Records the identifier as in use.
    pub fn insert(&mut self, id: [u8; 4])
        requires
            old(self).wf(),
        ensures
            final(self).wf(),
            final(self)@ =~= old(self)@.insert(id@),
    {
        let ghost s0 = self.ids@;
        match self.find_index(&id) {
            Some(_) => {
                proof {
                    assert(old(self)@.contains(id@));
                    assert(final(self)@ =~= old(self)@.insert(id@));
                }
            },
            None => {
                self.ids.push(id);
                proof {
                    let t = self.ids@;
                    assert forall|a: int, b: int| 0 <= a < b < t.len() implies t[a]@ != t[b]@ by {
                        if b < s0.len() {
                            assert(t[a] == s0[a] && t[b] == s0[b]);
                        } else {
                            assert(t[b] == id);
                            assert(t[a] == s0[a]);
                            if s0[a]@ == id@ {
                                assert(spec_has_id(s0, id@));
                            }
                        }
                    }
                    assert forall|x: Seq<u8>| #[trigger] final(self)@.contains(x) ==
                        old(self)@.insert(id@).contains(x) by {
                        if spec_has_id(t, x) {
                            let i = choose|i: int| 0 <= i < t.len() && t[i]@ == x;
                            if i < s0.len() {
                                assert(s0[i]@ == x);
                            } else {
                                assert(t[i] == id);
                            }
                        }
                        if spec_has_id(s0, x) {
                            let i = choose|i: int| 0 <= i < s0.len() && s0[i]@ == x;
                            assert(t[i]@ == x);
                        }
                        if x == id@ {
                            assert(t[s0.len() as int]@ == x);
                        }
                    }
                    assert(final(self)@ =~= old(self)@.insert(id@));
                }
            },
        }
    }

    /// Evicts the identifier. Evicting one that is not held is a no-op, not
    /// an error: eviction is idempotent.
    pub fn remove(&mut self, id: &[u8; 4])
        requires
            old(self).wf(),
        ensures
            final(self).wf(),
            final(self)@ =~= old(self)@.remove(id@),
    {
        let ghost s0 = self.ids@;
        match self.find_index(id) {
            Some(i) => {
                let _ = self.ids.remove(i);
                proof {
                    let t = self.ids@;
                    let ghost ii = i as int;
                    assert forall|a: int, b: int| 0 <= a < b < t.len() implies t[a]@ != t[b]@ by {
                        let a2: int = if a < ii { a } else { a + 1 };
                        let b2: int = if b < ii { b } else { b + 1 };
                        assert(t[a] == s0[a2] && t[b] == s0[b2]);
                    }
                    assert forall|x: Seq<u8>| #[trigger] final(self)@.contains(x) ==
                        old(self)@.remove(id@).contains(x) by {
                        if spec_has_id(t, x) {
                            let j = choose|j: int| 0 <= j < t.len() && t[j]@ == x;
                            let j2: int = if j < ii { j } else { j + 1 };
                            assert(t[j] == s0[j2]);
                            assert(s0[j2]@ == x);
                            if x == id@ {
                                assert(s0[j2]@ == s0[ii]@);
                                assert(j2 != ii);
                                if j2 < ii {
                                    assert(s0[j2]@ != s0[ii]@);
                                } else {
                                    assert(s0[ii]@ != s0[j2]@);
                                }
                            }
                        }
                        if spec_has_id(s0, x) && x != id@ {
                            let j = choose|j: int| 0 <= j < s0.len() && s0[j]@ == x;
                            assert(j != ii);
                            let j2: int = if j < ii { j } else { j - 1 };
                            assert(t[j2] == s0[j]);
                        }
                    }
                    assert(final(self)@ =~= old(self)@.remove(id@));
                }
            },
            None => {
                proof {
                    assert forall|x: Seq<u8>| #[trigger] final(self)@.contains(x) ==
                        old(self)@.remove(id@).contains(x) by {
                        if x == id@ {
                            assert(!spec_has_id(s0, x));
                        }
                    }
                    assert(final(self)@ =~= old(self)@.remove(id@));
                }
            },
        }
    }
}

} // verus!
