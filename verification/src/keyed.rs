use vstd::prelude::*;

verus! {

/// Values stored under distinct string keys, viewed as a finite map from the keys' text.
pub struct KeyedVec<V: View> {
    entries: Vec<(String, V)>,
    map: Ghost<Map<Seq<char>, V::V>>,
}

impl<V: View> View for KeyedVec<V> {
    type V = Map<Seq<char>, V::V>;

    closed spec fn view(&self) -> Map<Seq<char>, V::V> {
        self.map@
    }
}

impl<V: View> KeyedVec<V> {
    /// The keys are distinct, and the map holds exactly the stored pairs.
    pub closed spec fn wf(&self) -> bool {
        &&& self.map@.dom().finite()
        &&& self.map@.dom().len() == self.entries@.len()
        &&& forall|i: int, j: int|
            0 <= i < j < self.entries@.len() ==> #[trigger] self.entries@[i].0@
                != #[trigger] self.entries@[j].0@
        &&& forall|i: int|
            0 <= i < self.entries@.len() ==> {
                &&& self.map@.contains_key(#[trigger] self.entries@[i].0@)
                &&& self.map@[self.entries@[i].0@] == self.entries@[i].1@
            }
        &&& forall|k: Seq<char>|
            #[trigger] self.map@.contains_key(k) ==> exists|i: int|
                0 <= i < self.entries@.len() && #[trigger] self.entries@[i].0@ == k
    }

    pub proof fn lemma_finite(&self)
        requires
            self.wf(),
        ensures
            self@.dom().finite(),
    {
    }

    pub fn new() -> (r: Self)
        ensures
            r.wf(),
            r@ == Map::<Seq<char>, V::V>::empty(),
    {
        KeyedVec { entries: Vec::new(), map: Ghost(Map::empty()) }
    }

    pub fn len(&self) -> (r: usize)
        requires
            self.wf(),
        ensures
            r == self@.dom().len(),
    {
        self.entries.len()
    }

    fn find(&self, key: &String) -> (r: Option<usize>)
        requires
            self.wf(),
        ensures
            match r {
                Some(i) => i < self.entries@.len() && self.entries@[i as int].0@ == key@,
                None => !self@.contains_key(key@),
            },
    {
        let mut i: usize = 0;
        while i < self.entries.len()
            invariant
                i <= self.entries@.len(),
                forall|j: int| 0 <= j < i ==> #[trigger] self.entries@[j].0@ != key@,
            decreases self.entries@.len() - i,
        {
            if self.entries[i].0 == *key {
                return Some(i);
            }
            i = i + 1;
        }
        None
    }

    pub fn contains(&self, key: &String) -> (r: bool)
        requires
            self.wf(),
        ensures
            r == self@.contains_key(key@),
    {
        self.find(key).is_some()
    }

    pub fn get(&self, key: &String) -> (r: Option<&V>)
        requires
            self.wf(),
        ensures
            match r {
                Some(v) => self@.contains_key(key@) && v@ == self@[key@],
                None => !self@.contains_key(key@),
            },
    {
        match self.find(key) {
            Some(i) => Some(&self.entries[i].1),
            None => None,
        }
    }

    pub fn insert_new(&mut self, key: String, value: V)
        requires
            old(self).wf(),
            !old(self)@.contains_key(key@),
        ensures
            final(self).wf(),
            final(self)@ == old(self)@.insert(key@, value@),
    {
        let ghost k = key@;
        let ghost v = value@;
        let ghost old_entries = self.entries@;
        proof {
            assert(self.map@.dom().insert(k).len() == self.map@.dom().len() + 1);
        }
        self.entries.push((key, value));
        self.map = Ghost(self.map@.insert(k, v));
        proof {
            assert(self.map@.dom() =~= old(self).map@.dom().insert(k));
            assert forall|i: int, j: int|
                0 <= i < j < self.entries@.len() implies #[trigger] self.entries@[i].0@
                != #[trigger] self.entries@[j].0@ by {
                if j == old_entries.len() {
                    assert(old(self).map@.contains_key(old_entries[i].0@));
                } else {
                    assert(old_entries[i] == self.entries@[i]);
                    assert(old_entries[j] == self.entries@[j]);
                }
            }
            assert forall|i: int| 0 <= i < self.entries@.len() implies {
                &&& self.map@.contains_key(#[trigger] self.entries@[i].0@)
                &&& self.map@[self.entries@[i].0@] == self.entries@[i].1@
            } by {
                if i < old_entries.len() {
                    assert(old_entries[i] == self.entries@[i]);
                    assert(old(self).map@.contains_key(old_entries[i].0@));
                }
            }
            assert forall|q: Seq<char>| #[trigger] self.map@.contains_key(q) implies exists|i: int|
                0 <= i < self.entries@.len() && #[trigger] self.entries@[i].0@ == q by {
                if q == k {
                    assert(self.entries@[old_entries.len() as int].0@ == q);
                } else {
                    assert(old(self).map@.contains_key(q));
                    let i = choose|i: int|
                        0 <= i < old_entries.len() && #[trigger] old_entries[i].0@ == q;
                    assert(self.entries@[i] == old_entries[i]);
                }
            }
        }
    }

    pub fn remove(&mut self, key: &String) -> (r: Option<V>)
        requires
            old(self).wf(),
        ensures
            final(self).wf(),
            final(self)@ == old(self)@.remove(key@),
            match r {
                Some(v) => old(self)@.contains_key(key@) && v@ == old(self)@[key@],
                None => !old(self)@.contains_key(key@),
            },
    {
        let i = match self.find(key) {
            Some(i) => i,
            None => {
                proof {
                    assert(self.map@.remove(key@) =~= self.map@);
                }
                return None;
            },
        };
        let ghost k = key@;
        let ghost old_entries = self.entries@;
        proof {
            assert(self.map@.contains_key(k));
            assert(self.map@.dom().remove(k).len() == self.map@.dom().len() - 1);
        }
        let (_, value) = self.entries.remove(i);
        self.map = Ghost(self.map@.remove(k));
        proof {
            assert(self.map@.dom() =~= old(self).map@.dom().remove(k));
            assert forall|a: int| 0 <= a < self.entries@.len() implies #[trigger] self.entries@[a]
                == old_entries[if a < i {
                a
            } else {
                a + 1
            }] by {}
            assert forall|a: int, b: int|
                0 <= a < b < self.entries@.len() implies #[trigger] self.entries@[a].0@
                != #[trigger] self.entries@[b].0@ by {
                let oa = if a < i {
                    a
                } else {
                    a + 1
                };
                let ob = if b < i {
                    b
                } else {
                    b + 1
                };
                assert(self.entries@[a] == old_entries[oa]);
                assert(self.entries@[b] == old_entries[ob]);
                assert(old_entries[oa].0@ != old_entries[ob].0@);
            }
            assert forall|a: int| 0 <= a < self.entries@.len() implies {
                &&& self.map@.contains_key(#[trigger] self.entries@[a].0@)
                &&& self.map@[self.entries@[a].0@] == self.entries@[a].1@
            } by {
                let oa = if a < i {
                    a
                } else {
                    a + 1
                };
                assert(self.entries@[a] == old_entries[oa]);
                assert(old_entries[oa].0@ != old_entries[i as int].0@);
                assert(old(self).map@.contains_key(old_entries[oa].0@));
            }
            assert forall|q: Seq<char>| #[trigger] self.map@.contains_key(q) implies exists|a: int|
                0 <= a < self.entries@.len() && #[trigger] self.entries@[a].0@ == q by {
                assert(old(self).map@.contains_key(q));
                let o = choose|o: int| 0 <= o < old_entries.len() && #[trigger] old_entries[o].0@ == q;
                assert(o != i);
                if o < i {
                    assert(self.entries@[o] == old_entries[o]);
                } else {
                    assert(self.entries@[o - 1] == old_entries[o]);
                }
            }
        }
        Some(value)
    }
}

} // verus!
