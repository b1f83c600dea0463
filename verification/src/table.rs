//! A finite map from names to values, kept as a list of entries whose
//! names are all different.
use vstd::prelude::*;

verus! {

/// A value that can be copied without changing its model.
pub trait DeepClone: View + Sized {
    fn deep_clone(&self) -> (r: Self)
        ensures
            r@ == self@,
    ;
}

impl DeepClone for String {
    fn deep_clone(&self) -> (r: String) {
        self.clone()
    }
}

/// A map from names to values. Its model is a `Map` from character
/// sequences to the models of the values.
pub struct Table<V: View> {
    entries: Vec<(String, V)>,
    model: Ghost<Map<Seq<char>, V::V>>,
}

impl<V: View> Table<V> {
    /// Names are all different, and the model binds exactly the entries.
    pub closed spec fn wf(&self) -> bool {
        &&& forall|i: int, j: int|
            0 <= i < self.entries@.len() && 0 <= j < self.entries@.len() && i != j
                ==> #[trigger] self.entries@[i].0@ != #[trigger] self.entries@[j].0@
        &&& forall|i: int|
            0 <= i < self.entries@.len() ==> {
                &&& self.model@.contains_key(#[trigger] self.entries@[i].0@)
                &&& self.model@[self.entries@[i].0@] == self.entries@[i].1@
            }
        &&& forall|k: Seq<char>|
            #[trigger] self.model@.contains_key(k) ==> exists|i: int|
                0 <= i < self.entries@.len() && #[trigger] self.entries@[i].0@ == k
    }

    /// An empty table.
    pub fn new() -> (r: Self)
        ensures
            r.wf(),
            r@ == Map::<Seq<char>, V::V>::empty(),
    {
        Table { entries: Vec::new(), model: Ghost(Map::empty()) }
    }

    fn find(&self, key: &String) -> (r: Option<usize>)
        requires
            self.wf(),
        ensures
            match r {
                Some(i) => i < self.entries@.len() && self.entries@[i as int].0@ == key@,
                None => forall|j: int| 0 <= j < self.entries@.len() ==> #[trigger] self.entries@[j].0@ != key@,
            },
    {
        let mut i: usize = 0;
        while i < self.entries.len()
            invariant
                i <= self.entries@.len(),
                forall|j: int| 0 <= j < i ==> #[trigger] self.entries@[j].0@ != key@,
            decreases self.entries@.len() - i,
        {
            if self.entries[i].0 == *key {
                return Some(i);
            }
            i = i + 1;
        }
        None
    }

    /// Whether `key` is bound.
    pub fn contains_key(&self, key: &String) -> (r: bool)
        requires
            self.wf(),
        ensures
            r == self@.contains_key(key@),
    {
        match self.find(key) {
            Some(i) => true,
            None => {
                proof {
                    if self@.contains_key(key@) {
                        let i = choose|i: int| 0 <= i < self.entries@.len() && #[trigger] self.entries@[i].0@ == key@;
                        assert(self.entries@[i].0@ != key@);
                    }
                }
                false
            },
        }
    }

    /// The value bound to `key`, if any.
    pub fn get(&self, key: &String) -> (r: Option<&V>)
        requires
            self.wf(),
        ensures
            match r {
                Some(v) => self@.contains_key(key@) && v@ == self@[key@],
                None => !self@.contains_key(key@),
            },
    {
        match self.find(key) {
            Some(i) => Some(&self.entries[i].1),
            None => {
                proof {
                    if self@.contains_key(key@) {
                        let i = choose|i: int| 0 <= i < self.entries@.len() && #[trigger] self.entries@[i].0@ == key@;
                        assert(self.entries@[i].0@ != key@);
                    }
                }
                None
            },
        }
    }

    /// Binds `key` to `value`, replacing any earlier binding of `key`.
    pub fn insert(&mut self, key: String, value: V)
        requires
            old(self).wf(),
        ensures
            final(self).wf(),
            final(self)@ == old(self)@.insert(key@, value@),
    {
        let ghost new_model = self.model@.insert(key@, value@);
        match self.find(&key) {
            Some(i) => {
                let ghost old_entries = self.entries@;
                self.entries.set(i, (key, value));
                let ghost entries = self.entries@;
                proof {
                    assert forall|k: Seq<char>| #[trigger] new_model.contains_key(k) implies exists|j: int|
                        0 <= j < entries.len() && #[trigger] entries[j].0@ == k by {
                        if k != entries[i as int].0@ {
                            let j = choose|j: int| 0 <= j < old_entries.len() && #[trigger] old_entries[j].0@ == k;
                            assert(entries[j].0@ == k);
                        }
                    }
                    assert forall|a: int| 0 <= a < entries.len() implies {
                        &&& new_model.contains_key(#[trigger] entries[a].0@)
                        &&& new_model[entries[a].0@] == entries[a].1@
                    } by {
                        if a != i {
                            assert(old_entries[a] == entries[a]);
                            assert(old_entries[a].0@ != old_entries[i as int].0@);
                        }
                    }
                    assert forall|a: int, b: int|
                        0 <= a < entries.len() && 0 <= b < entries.len() && a != b
                            implies #[trigger] entries[a].0@ != #[trigger] entries[b].0@ by {
                        assert(old_entries[a].0@ != old_entries[b].0@);
                    }
                }
                self.model = Ghost(new_model);
                assert forall|k: Seq<char>| #[trigger] self.model@.contains_key(k) implies exists|j: int|
                    0 <= j < self.entries@.len() && #[trigger] self.entries@[j].0@ == k by {
                    assert(new_model.contains_key(k));
                    let j = choose|j: int| 0 <= j < entries.len() && #[trigger] entries[j].0@ == k;
                    assert(self.entries@[j].0@ == k);
                }
            },
            None => {
                let ghost old_entries = self.entries@;
                self.entries.push((key, value));
                let ghost entries = self.entries@;
                proof {
                    assert forall|k: Seq<char>| #[trigger] new_model.contains_key(k) implies exists|j: int|
                        0 <= j < entries.len() && #[trigger] entries[j].0@ == k by {
                        if k != entries.last().0@ {
                            let j = choose|j: int| 0 <= j < old_entries.len() && #[trigger] old_entries[j].0@ == k;
                            assert(entries[j].0@ == k);
                        } else {
                            assert(entries[old_entries.len() as int].0@ == k);
                        }
                    }
                    assert forall|a: int| 0 <= a < entries.len() implies {
                        &&& new_model.contains_key(#[trigger] entries[a].0@)
                        &&& new_model[entries[a].0@] == entries[a].1@
                    } by {
                        if a < old_entries.len() {
                            assert(old_entries[a] == entries[a]);
                        }
                    }
                    assert forall|a: int, b: int|
                        0 <= a < entries.len() && 0 <= b < entries.len() && a != b
                            implies #[trigger] entries[a].0@ != #[trigger] entries[b].0@ by {
                        if a < old_entries.len() && b < old_entries.len() {
                            assert(old_entries[a].0@ != old_entries[b].0@);
                        } else if a < old_entries.len() {
                            assert(old_entries[a] == entries[a]);
                        } else {
                            assert(old_entries[b] == entries[b]);
                        }
                    }
                }
                self.model = Ghost(new_model);
                assert forall|k: Seq<char>| #[trigger] self.model@.contains_key(k) implies exists|j: int|
                    0 <= j < self.entries@.len() && #[trigger] self.entries@[j].0@ == k by {
                    assert(new_model.contains_key(k));
                    let j = choose|j: int| 0 <= j < entries.len() && #[trigger] entries[j].0@ == k;
                    assert(self.entries@[j].0@ == k);
                }
            },
        }
    }
}

impl<V: View> View for Table<V> {
    type V = Map<Seq<char>, V::V>;

    closed spec fn view(&self) -> Map<Seq<char>, V::V> {
        self.model@
    }
}

impl<V: DeepClone> Table<V> {
    /// A copy of the table with every value copied.
    pub fn deep_clone(&self) -> (r: Self)
        requires
            self.wf(),
        ensures
            r.wf(),
            r@ == self@,
    {
        let mut entries: Vec<(String, V)> = Vec::new();
        let mut i: usize = 0;
        while i < self.entries.len()
            invariant
                i <= self.entries@.len(),
                entries@.len() == i,
                forall|j: int| 0 <= j < i ==> #[trigger] entries@[j].0@ == self.entries@[j].0@ && entries@[j].1@ == self.entries@[j].1@,
            decreases self.entries@.len() - i,
        {
            let k = self.entries[i].0.clone();
            let v = self.entries[i].1.deep_clone();
            entries.push((k, v));
            i = i + 1;
        }
        proof {
            assert forall|k: Seq<char>| #[trigger] self.model@.contains_key(k) implies exists|j: int|
                0 <= j < entries@.len() && #[trigger] entries@[j].0@ == k by {
                let j = choose|j: int| 0 <= j < self.entries@.len() && #[trigger] self.entries@[j].0@ == k;
                assert(entries@[j].0@ == k);
            }
            assert forall|a: int, b: int|
                0 <= a < entries@.len() && 0 <= b < entries@.len() && a != b
                    implies #[trigger] entries@[a].0@ != #[trigger] entries@[b].0@ by {
                assert(self.entries@[a].0@ != self.entries@[b].0@);
            }
            assert forall|a: int| 0 <= a < entries@.len() implies {
                &&& self.model@.contains_key(#[trigger] entries@[a].0@)
                &&& self.model@[entries@[a].0@] == entries@[a].1@
            } by {
                assert(self.model@.contains_key(self.entries@[a].0@));
            }
        }
        let r = Table { entries, model: Ghost(self.model@) };
        assert forall|k: Seq<char>| #[trigger] r.model@.contains_key(k) implies exists|j: int|
            0 <= j < r.entries@.len() && #[trigger] r.entries@[j].0@ == k by {
            assert(self.model@.contains_key(k));
            let j = choose|j: int| 0 <= j < self.entries@.len() && #[trigger] self.entries@[j].0@ == k;
            assert(r.entries@[j].0@ == k);
        }
        r
    }
}

} // verus!
