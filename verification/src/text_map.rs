//! A map from text to values.

use crate::text::same_text;
use vstd::prelude::*;

verus! {

/// A map from text to values, as a list of entries in which each key occurs once.
pub struct TextMap<V> {
    entries: Vec<(String, V)>,
}

impl<V: DeepView> View for TextMap<V> {
    type V = Map<Seq<char>, V::V>;

    closed spec fn view(&self) -> Map<Seq<char>, V::V> {
        Map::new(|key: Seq<char>| self.has(key), |key: Seq<char>| self.value_at(self.place(key)))
    }
}

impl<V: DeepView> TextMap<V> {
    spec fn key_at(&self, i: int) -> Seq<char> {
        self.entries@[i].0@
    }

    spec fn value_at(&self, i: int) -> V::V {
        self.entries@[i].1.deep_view()
    }

    spec fn holds(&self, i: int, key: Seq<char>) -> bool {
        0 <= i < self.entries@.len() && self.key_at(i) == key
    }

    spec fn has(&self, key: Seq<char>) -> bool {
        exists|i: int| self.holds(i, key)
    }

    spec fn place(&self, key: Seq<char>) -> int {
        choose|i: int| self.holds(i, key)
    }

    /// No key occurs twice.
    pub closed spec fn wf(&self) -> bool {
        forall|i: int, j: int|
            0 <= i < self.entries@.len() && 0 <= j < self.entries@.len() && #[trigger] self.key_at(i)
                == #[trigger] self.key_at(j) ==> i == j
    }

    /// The keys, in the order of the list.
    pub closed spec fn keys(&self) -> Seq<Seq<char>> {
        Seq::new(self.entries@.len(), |i: int| self.key_at(i))
    }

    proof fn lemma_place(&self, i: int)
        requires
            self.wf(),
            0 <= i < self.entries@.len(),
        ensures
            self@.contains_key(self.key_at(i)),
            self@[self.key_at(i)] == self.value_at(i),
            self.place(self.key_at(i)) == i,
    {
        assert(self.holds(i, self.key_at(i)));
    }

    /// The keys name each entry of the map once.
    pub proof fn lemma_keys(&self)
        requires
            self.wf(),
        ensures
            self.keys().no_duplicates(),
            forall|key: Seq<char>| self.keys().contains(key) <==> #[trigger] self@.contains_key(key),
    {
        assert forall|key: Seq<char>| self.keys().contains(key) <==> #[trigger] self@.contains_key(
            key,
        ) by {
            if self.keys().contains(key) {
                let i = choose|i: int| 0 <= i < self.keys().len() && self.keys()[i] == key;
                assert(self.holds(i, key));
            }
            if self@.contains_key(key) {
                assert(self.keys()[self.place(key)] == key);
            }
        }
    }

    pub fn new() -> (map: Self)
        ensures
            map.wf(),
            map@ == Map::<Seq<char>, V::V>::empty(),
            map.keys() == Seq::<Seq<char>>::empty(),
    {
        let map = TextMap { entries: Vec::new() };
        assert(map@ =~= Map::<Seq<char>, V::V>::empty());
        assert(map.keys() =~= Seq::<Seq<char>>::empty());
        map
    }

    pub fn len(&self) -> (count: usize)
        ensures
            count == self.keys().len(),
    {
        self.entries.len()
    }

    /// The `i`-th entry of the list.
    pub fn entry(&self, i: usize) -> (entry: (&String, &V))
        requires
            self.wf(),
            i < self.keys().len(),
        ensures
            entry.0@ == self.keys()[i as int],
            self@.contains_key(entry.0@),
            entry.1.deep_view() == self@[entry.0@],
    {
        proof {
            self.lemma_place(i as int);
        }
        (&self.entries[i].0, &self.entries[i].1)
    }

    fn find(&self, key: &str) -> (found: Option<usize>)
        requires
            self.wf(),
        ensures
            match found {
                Some(i) => self.holds(i as int, key@),
                None => !self.has(key@),
            },
    {
        let mut i: usize = 0;
        while i < self.entries.len()
            invariant
                i <= self.entries@.len(),
                forall|j: int| 0 <= j < i ==> self.key_at(j) != key@,
            decreases self.entries@.len() - i,
        {
            if same_text(self.entries[i].0.as_str(), key) {
                return Some(i);
            }
            i = i + 1;
        }
        None
    }

    /// The value under `key`, if there is one.
    pub fn get(&self, key: &str) -> (value: Option<&V>)
        requires
            self.wf(),
        ensures
            value is Some <==> self@.contains_key(key@),
            value is Some ==> value->0.deep_view() == self@[key@],
    {
        match self.find(key) {
            Some(i) => {
                proof {
                    self.lemma_place(i as int);
                }
                Some(&self.entries[i].1)
            },
            None => None,
        }
    }

    /// Takes the value under `key` out of the map, if there is one.
    pub fn remove(&mut self, key: &str) -> (value: Option<V>)
        requires
            old(self).wf(),
        ensures
            final(self).wf(),
            final(self)@ == old(self)@.remove(key@),
            value is Some <==> old(self)@.contains_key(key@),
            value is Some ==> value->0.deep_view() == old(self)@[key@],
    {
        match self.find(key) {
            Some(i) => {
                let ghost before = *self;
                let (_, value) = self.entries.remove(i);
                proof {
                    before.lemma_place(i as int);
                    let shift = |j: int|
                        if j < i {
                            j
                        } else {
                            j + 1
                        };
                    assert forall|j: int| 0 <= j < self.entries@.len() implies #[trigger] self.key_at(j)
                        == before.key_at(shift(j)) && self.value_at(j) == before.value_at(
                        shift(j),
                    ) by {}
                    assert(self.wf());
                    assert forall|k: Seq<char>|
                        self@.contains_key(k) <==> #[trigger] before@.remove(key@).contains_key(
                            k,
                        ) by {
                        if self@.contains_key(k) {
                            let j = self.place(k);
                            assert(self.holds(j, k));
                            assert(before.holds(shift(j), k));
                        }
                        if before@.remove(key@).contains_key(k) {
                            let j = before.place(k);
                            assert(before.holds(j, k));
                            let j2 = if j < i {
                                j
                            } else {
                                j - 1
                            };
                            assert(self.holds(j2, k));
                        }
                    }
                    assert forall|k: Seq<char>| #[trigger] self@.contains_key(k) implies self@[k]
                        == before@.remove(key@)[k] by {
                        let j = self.place(k);
                        assert(self.holds(j, k));
                        self.lemma_place(j);
                        before.lemma_place(shift(j));
                    }
                    assert(self@ =~= before@.remove(key@));
                }
                Some(value)
            },
            None => {
                assert(self@ =~= old(self)@.remove(key@));
                None
            },
        }
    }

    /// Puts `value` under `key`, in place of what may have stood there.
    pub fn insert(&mut self, key: String, value: V)
        requires
            old(self).wf(),
        ensures
            final(self).wf(),
            final(self)@ == old(self)@.insert(key@, value.deep_view()),
    {
        let ghost before = *self;
        match self.find(key.as_str()) {
            Some(i) => {
                let ghost name = key@;
                self.entries.set(i, (key, value));
                proof {
                    assert forall|j: int| 0 <= j < self.entries@.len() implies #[trigger] self.key_at(j)
                        == before.key_at(j) by {}
                    assert(self.wf());
                    assert forall|k: Seq<char>| self.has(k) <==> #[trigger] before.has(k) by {
                        if self.has(k) {
                            assert(before.holds(self.place(k), k));
                        }
                        if before.has(k) {
                            assert(self.holds(before.place(k), k));
                        }
                    }
                    assert forall|k: Seq<char>| #[trigger] self@.contains_key(k) implies self@[k]
                        == before@.insert(name, value.deep_view())[k] by {
                        assert(before.has(k));
                        let j = self.place(k);
                        assert(self.holds(j, k));
                        self.lemma_place(j);
                        before.lemma_place(j);
                    }
                    assert(before.has(name));
                    assert(self@ =~= before@.insert(name, value.deep_view()));
                }
            },
            None => {
                let ghost name = key@;
                self.entries.push((key, value));
                proof {
                    let last = before.entries@.len() as int;
                    assert(self.key_at(last) == name);
                    assert forall|j: int| 0 <= j < last implies #[trigger] self.key_at(j)
                        == before.key_at(j) && self.value_at(j) == before.value_at(j)
                        && self.key_at(j) != name by {
                        assert(before.key_at(j) != name) by {
                            if before.key_at(j) == name {
                                assert(before.holds(j, name));
                            }
                        }
                    }
                    assert(self.wf());
                    assert forall|k: Seq<char>|
                        self@.contains_key(k) <==> #[trigger] before@.insert(
                            name,
                            value.deep_view(),
                        ).contains_key(k) by {
                        if self@.contains_key(k) {
                            let j = self.place(k);
                            assert(self.holds(j, k));
                            if j < last {
                                assert(before.holds(j, k));
                            }
                        }
                        if before@.contains_key(k) {
                            assert(self.holds(before.place(k), k));
                        }
                        assert(self.holds(last, name));
                    }
                    assert forall|k: Seq<char>| #[trigger] self@.contains_key(k) implies self@[k]
                        == before@.insert(name, value.deep_view())[k] by {
                        let j = self.place(k);
                        assert(self.holds(j, k));
                        self.lemma_place(j);
                        if j < last {
                            before.lemma_place(j);
                        }
                    }
                    assert(self@ =~= before@.insert(name, value.deep_view()));
                }
            },
        }
    }

    /// Takes every entry out of the map.
    pub fn clear(&mut self)
        ensures
            final(self).wf(),
            final(self)@ == Map::<Seq<char>, V::V>::empty(),
    {
        self.entries.clear();
        assert(self@ =~= Map::<Seq<char>, V::V>::empty());
    }
}

} // verus!
