//! A map keyed by text, whose entries stand in the order in which their keys came in.

use crate::text::same_text;
use vstd::prelude::*;

verus! {

/// A map keyed by text.
#[derive(Debug)]
pub struct StringMap<V> {
    keys: Vec<String>,
    values: Vec<V>,
}

/// The place of a key in a list of keys, if it is there.
pub open spec fn place_of(keys: Seq<Seq<char>>, key: Seq<char>) -> int {
    choose|i: int| 0 <= i < keys.len() && keys[i] == key
}

impl<V> View for StringMap<V> {
    type V = Map<Seq<char>, V>;

    closed spec fn view(&self) -> Map<Seq<char>, V> {
        Map::new(
            |key: Seq<char>| self.keys().contains(key),
            |key: Seq<char>| self.values@[place_of(self.keys(), key)],
        )
    }
}

impl<V> StringMap<V> {
    /// The keys, in the order in which they came in.
    pub closed spec fn keys(&self) -> Seq<Seq<char>> {
        self.keys.deep_view()
    }

    /// Every key stands once, with one value.
    pub closed spec fn wf(&self) -> bool {
        &&& self.keys@.len() == self.values@.len()
        &&& self.keys().no_duplicates()
    }

    proof fn lemma_at(&self, i: int)
        requires
            self.wf(),
            0 <= i < self.keys@.len(),
        ensures
            self@.contains_key(self.keys@[i]@),
            self@[self.keys@[i]@] == self.values@[i],
    {
        let key = self.keys@[i]@;
        assert(self.keys()[i] == key);
        let place = place_of(self.keys(), key);
        assert(0 <= place < self.keys().len() && self.keys()[place] == key);
        assert(place == i);
    }

    /// The keys of the map are the listed ones, each listed once.
    pub proof fn lemma_keys(&self)
        requires
            self.wf(),
        ensures
            self.keys().no_duplicates(),
            forall|key: Seq<char>| #[trigger]
                self@.contains_key(key) <==> self.keys().contains(key),
    {
    }

    /// A map without entries.
    pub fn new() -> (r: Self)
        ensures
            r.wf(),
            r@ == Map::<Seq<char>, V>::empty(),
            r.keys() == Seq::<Seq<char>>::empty(),
    {
        let r = StringMap { keys: Vec::new(), values: Vec::new() };
        assert(r.keys() =~= Seq::<Seq<char>>::empty());
        assert(r@ =~= Map::<Seq<char>, V>::empty());
        r
    }

    /// The number of entries.
    pub fn len(&self) -> (r: usize)
        requires
            self.wf(),
        ensures
            r == self.keys().len(),
    {
        self.keys.len()
    }

    /// The key that came in at the given place.
    pub fn key_at(&self, i: usize) -> (r: &String)
        requires
            self.wf(),
            i < self.keys().len(),
        ensures
            r@ == self.keys()[i as int],
    {
        &self.keys[i]
    }

    fn find(&self, key: &str) -> (r: Option<usize>)
        requires
            self.wf(),
        ensures
            match r {
                Some(i) => i < self.keys@.len() && self.keys@[i as int]@ == key@,
                None => !self@.contains_key(key@),
            },
    {
        let mut i: usize = 0;
        while i < self.keys.len()
            invariant
                i <= self.keys@.len(),
                forall|j: int| 0 <= j < i ==> (#[trigger] self.keys()[j]) != key@,
            decreases self.keys.len() - i,
        {
            if same_text(&self.keys[i], key) {
                return Some(i);
            }
            i += 1;
        }
        None
    }

    /// The value of a key.
    pub fn get(&self, key: &str) -> (r: Option<&V>)
        requires
            self.wf(),
        ensures
            match r {
                Some(value) => self@.contains_key(key@) && *value == self@[key@],
                None => !self@.contains_key(key@),
            },
    {
        match self.find(key) {
            Some(i) => {
                proof {
                    self.lemma_at(i as int);
                }
                Some(&self.values[i])
            },
            None => None,
        }
    }

    /// Whether a key has a value.
    pub fn contains_key(&self, key: &str) -> (r: bool)
        requires
            self.wf(),
        ensures
            r == self@.contains_key(key@),
    {
        self.get(key).is_some()
    }

    /// Gives a key a value, in place of the one it had.
    pub fn insert(&mut self, key: String, value: V)
        requires
            old(self).wf(),
        ensures
            final(self).wf(),
            final(self)@ == old(self)@.insert(key@, value),
            final(self).keys() == (if old(self)@.contains_key(key@) {
                old(self).keys()
            } else {
                old(self).keys().push(key@)
            }),
    {
        let ghost before = *self;
        match self.find(&key) {
            Some(i) => {
                proof {
                    self.lemma_at(i as int);
                }
                self.values[i] = value;
                proof {
                    assert(self.keys() == before.keys());
                    assert forall|k: Seq<char>| #[trigger] self@.contains_key(k) implies self@[k]
                        == before@.insert(key@, value)[k] by {
                        let place = place_of(self.keys(), k);
                        assert(0 <= place < self.keys().len() && self.keys()[place] == k);
                        if k == key@ {
                            assert(self.keys()[i as int] == key@);
                            assert(place == i);
                        }
                    }
                    assert(self@ =~= before@.insert(key@, value));
                }
            },
            None => {
                let ghost name = key@;
                self.keys.push(key);
                self.values.push(value);
                proof {
                    assert(self.keys() =~= before.keys().push(name));
                    let last = before.keys@.len() as int;
                    assert forall|a: int, b: int|
                        0 <= a < self.keys().len() && 0 <= b < self.keys().len() && a
                            != b implies self.keys()[a] != self.keys()[b] by {
                        if a < last && b < last {
                            assert(before.keys()[a] != before.keys()[b]);
                        } else if a < last {
                            assert(before.keys().contains(before.keys()[a]));
                        } else {
                            assert(before.keys().contains(before.keys()[b]));
                        }
                    }
                    assert(self.wf());
                    assert forall|k: Seq<char>| #[trigger]
                        self@.contains_key(k) <==> before@.insert(name, value).contains_key(k) by {
                        if before.keys().contains(k) {
                            let j = choose|j: int|
                                0 <= j < before.keys().len() && before.keys()[j] == k;
                            assert(self.keys()[j] == k);
                        }
                        if k == name {
                            assert(self.keys()[last] == k);
                        }
                    }
                    assert forall|k: Seq<char>| #[trigger] self@.contains_key(k) implies self@[k]
                        == before@.insert(name, value)[k] by {
                        let place = place_of(self.keys(), k);
                        assert(0 <= place < self.keys().len() && self.keys()[place] == k);
                        self.lemma_at(place);
                        if place < last {
                            before.lemma_at(place);
                        }
                    }
                    assert(self@ =~= before@.insert(name, value));
                }
            },
        }
    }

    /// Takes the value of a key away.
    pub fn remove(&mut self, key: &str) -> (r: Option<V>)
        requires
            old(self).wf(),
        ensures
            final(self).wf(),
            final(self)@ == old(self)@.remove(key@),
            match r {
                Some(value) => {
                    &&& old(self)@.contains_key(key@)
                    &&& value == old(self)@[key@]
                    &&& exists|i: int|
                        0 <= i < old(self).keys().len() && #[trigger] old(self).keys()[i] == key@
                            && final(self).keys() == old(self).keys().remove(i)
                },
                None => !old(self)@.contains_key(key@) && *final(self) == *old(self),
            },
    {
        let ghost before = *self;
        match self.find(key) {
            Some(i) => {
                proof {
                    self.lemma_at(i as int);
                }
                self.keys.remove(i);
                let value = self.values.remove(i);
                proof {
                    assert(self.keys() =~= before.keys().remove(i as int));
                    assert(before.keys()[i as int] == key@);
                    assert forall|a: int, b: int|
                        0 <= a < self.keys().len() && 0 <= b < self.keys().len() && a
                            != b implies self.keys()[a] != self.keys()[b] by {
                        let c = if a < i {
                            a
                        } else {
                            a + 1
                        };
                        let d = if b < i {
                            b
                        } else {
                            b + 1
                        };
                        assert(before.keys()[c] != before.keys()[d]);
                    }
                    assert(self.wf());
                    assert forall|k: Seq<char>| #[trigger]
                        self@.contains_key(k) <==> before@.remove(key@).contains_key(k) by {
                        if before.keys().contains(k) && k != key@ {
                            let j = choose|j: int|
                                0 <= j < before.keys().len() && before.keys()[j] == k;
                            assert(self.keys()[if j < i {
                                j
                            } else {
                                j - 1
                            }] == k);
                        }
                        if self.keys().contains(k) {
                            let j = choose|j: int| 0 <= j < self.keys().len() && self.keys()[j] == k;
                            let c = if j < i {
                                j
                            } else {
                                j + 1
                            };
                            assert(before.keys()[c] == k);
                            assert(before.keys()[i as int] == key@);
                        }
                    }
                    assert forall|k: Seq<char>| #[trigger] self@.contains_key(k) implies self@[k]
                        == before@.remove(key@)[k] by {
                        let place = place_of(self.keys(), k);
                        assert(0 <= place < self.keys().len() && self.keys()[place] == k);
                        self.lemma_at(place);
                        before.lemma_at(
                            if place < i {
                                place
                            } else {
                                place + 1
                            },
                        );
                    }
                    assert(self@ =~= before@.remove(key@));
                }
                Some(value)
            },
            None => {
                assert(self@ =~= before@.remove(key@));
                None
            },
        }
    }
}

}
