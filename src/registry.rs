use vstd::prelude::*;

verus! {

/// A table of live handles keyed by a string, each key present at most once.
pub struct Registry<C> {
    entries: Vec<(String, C)>,
    index: Ghost<Map<Seq<char>, C>>,
}

impl<C> Registry<C> {
    /// The handles by key.
    pub closed spec fn view(&self) -> Map<Seq<char>, C> {
        self.index@
    }

    /// The entries list the map exactly, each key once.
    pub closed spec fn wf(&self) -> bool {
        let e = self.entries@;
        &&& forall|i: int, j: int| 0 <= i < e.len() && 0 <= j < e.len() && i != j ==> #[trigger] e[i].0@ != #[trigger] e[j].0@
        &&& forall|i: int| 0 <= i < e.len() ==> self.index@.contains_key(#[trigger] e[i].0@) && self.index@[e[i].0@] == e[i].1
        &&& forall|k: Seq<char>| #[trigger] self.index@.contains_key(k) ==> exists|i: int| 0 <= i < e.len() && e[i].0@ == k
    }

    /// An empty registry.
    pub fn new() -> (r: Self)
        ensures
            r.wf(),
            r@ == Map::<Seq<char>, C>::empty(),
    {
        Registry { entries: Vec::new(), index: Ghost(Map::empty()) }
    }

    fn find(&self, key: &str) -> (r: Option<usize>)
        requires
            self.wf(),
        ensures
            match r {
                Some(i) => i < self.entries@.len() && self.entries@[i as int].0@ == key@,
                None => !self@.contains_key(key@),
            },
    {
        let mut i: usize = 0;
        while i < self.entries.len()
            invariant
                self.wf(),
                i <= self.entries@.len(),
                forall|j: int| 0 <= j < i ==> self.entries@[j].0@ != key@,
            decreases self.entries@.len() - i,
        {
            if crate::text::str_eq(self.entries[i].0.as_str(), key) {
                proof {
                    assert(self.entries@[i as int].0@ == key@);
                }
                return Some(i);
            }
            i = i + 1;
        }
        None
    }

    /// Whether a handle is registered under `key`.
    pub fn contains(&self, key: &str) -> (r: bool)
        requires
            self.wf(),
        ensures
            r == self@.contains_key(key@),
    {
        match self.find(key) {
            Some(i) => {
                proof {
                    assert(self@.contains_key(self.entries@[i as int].0@));
                }
                true
            },
            None => false,
        }
    }

    /// The handle registered under `key`, if any.
    pub fn get(&self, key: &str) -> (r: Option<&C>)
        requires
            self.wf(),
        ensures
            match r {
                Some(c) => self@.contains_key(key@) && *c == self@[key@],
                None => !self@.contains_key(key@),
            },
    {
        match self.find(key) {
            Some(i) => Some(&self.entries[i].1),
            None => None,
        }
    }

    /// Registers `handle` under a key that is not taken yet.
    pub fn insert(&mut self, key: String, handle: C)
        requires
            old(self).wf(),
            !old(self)@.contains_key(key@),
        ensures
            final(self).wf(),
            final(self)@ == old(self)@.insert(key@, handle),
    {
        let ghost k = key@;
        let ghost h = handle;
        let ghost old_e = self.entries@;
        self.entries.push((key, handle));
        self.index = Ghost(self.index@.insert(k, h));
        proof {
            let e = self.entries@;
            assert(e.len() == old_e.len() + 1);
            assert forall|i: int| 0 <= i < e.len() implies self.index@.contains_key(#[trigger] e[i].0@) && self.index@[e[i].0@] == e[i].1 by {
                if i < old_e.len() {
                    assert(e[i] == old_e[i]);
                    assert(old(self).index@.contains_key(old_e[i].0@));
                }
            }
            assert forall|kk: Seq<char>| #[trigger] self.index@.contains_key(kk) implies exists|i: int| 0 <= i < e.len() && e[i].0@ == kk by {
                if kk == k {
                    assert(e[old_e.len() as int].0@ == kk);
                } else {
                    assert(old(self).index@.contains_key(kk));
                    let i = choose|i: int| 0 <= i < old_e.len() && old_e[i].0@ == kk;
                    assert(e[i] == old_e[i]);
                }
            }
            assert forall|i: int, j: int| 0 <= i < e.len() && 0 <= j < e.len() && i != j implies #[trigger] e[i].0@ != #[trigger] e[j].0@ by {
                if i < old_e.len() && j < old_e.len() {
                    assert(e[i] == old_e[i] && e[j] == old_e[j]);
                } else if i < old_e.len() {
                    assert(e[i] == old_e[i]);
                    assert(old(self).index@.contains_key(old_e[i].0@));
                } else {
                    assert(e[j] == old_e[j]);
                    assert(old(self).index@.contains_key(old_e[j].0@));
                }
            }
        }
    }

    /// Takes the handle registered under `key` out of the registry; an
    /// unknown key changes nothing.
    pub fn remove(&mut self, key: &str) -> (r: Option<C>)
        requires
            old(self).wf(),
        ensures
            final(self).wf(),
            final(self)@ == old(self)@.remove(key@),
            r == (if old(self)@.contains_key(key@) {
                Some(old(self)@[key@])
            } else {
                None::<C>
            }),
    {
        match self.find(key) {
            None => {
                assert(self.index@ =~= old(self).index@.remove(key@));
                None
            },
            Some(i) => {
                let ghost old_e = self.entries@;
                let ghost k = key@;
                let (_, handle) = self.entries.remove(i);
                self.index = Ghost(self.index@.remove(k));
                proof {
                    let e = self.entries@;
                    assert(old(self).index@.contains_key(old_e[i as int].0@));
                    assert forall|j: int| 0 <= j < e.len() implies #[trigger] e[j] == (if j < i { old_e[j] } else { old_e[j + 1] }) by {}
                    assert forall|j: int| 0 <= j < e.len() implies self.index@.contains_key(#[trigger] e[j].0@) && self.index@[e[j].0@] == e[j].1 by {
                        let oj = if j < i { j } else { j + 1 };
                        assert(e[j] == old_e[oj]);
                        assert(old_e[oj].0@ != old_e[i as int].0@);
                        assert(old(self).index@.contains_key(old_e[oj].0@));
                    }
                    assert forall|kk: Seq<char>| #[trigger] self.index@.contains_key(kk) implies exists|j: int| 0 <= j < e.len() && e[j].0@ == kk by {
                        assert(old(self).index@.contains_key(kk));
                        let oj = choose|oj: int| 0 <= oj < old_e.len() && old_e[oj].0@ == kk;
                        assert(oj != i);
                        let j = if oj < i { oj } else { oj - 1 };
                        assert(e[j] == old_e[oj]);
                    }
                    assert forall|a: int, b: int| 0 <= a < e.len() && 0 <= b < e.len() && a != b implies #[trigger] e[a].0@ != #[trigger] e[b].0@ by {
                        let oa = if a < i { a } else { a + 1 };
                        let ob = if b < i { b } else { b + 1 };
                        assert(e[a] == old_e[oa] && e[b] == old_e[ob]);
                    }
                }
                Some(handle)
            },
        }
    }

    /// The number of registered handles.
    pub fn len(&self) -> (r: usize)
        requires
            self.wf(),
        ensures
            r as nat == self@.len(),
    {
        proof {
            self.lemma_len();
        }
        self.entries.len()
    }

    proof fn lemma_len(&self)
        requires
            self.wf(),
        ensures
            self.entries@.len() == self@.len(),
    {
        let e = self.entries@;
        let keys = Seq::new(e.len(), |i: int| e[i].0@);
        assert(keys.no_duplicates()) by {
            assert forall|a: int, b: int| 0 <= a < keys.len() && 0 <= b < keys.len() && a != b implies keys[a] != keys[b] by {
                assert(e[a].0@ != e[b].0@);
            }
        }
        assert(keys.to_set() =~= self@.dom()) by {
            assert forall|k: Seq<char>| keys.to_set().contains(k) <==> self@.dom().contains(k) by {
                if self@.dom().contains(k) {
                    let i = choose|i: int| 0 <= i < e.len() && e[i].0@ == k;
                    assert(keys[i] == k);
                }
                if keys.to_set().contains(k) {
                    let i = choose|i: int| 0 <= i < keys.len() && keys[i] == k;
                    assert(self@.contains_key(e[i].0@));
                }
            }
        }
        keys.unique_seq_to_set();
    }
}

} // verus!
