//! A map keyed by text.

use vstd::prelude::*;

use crate::text::text_eq;

verus! {

/// A map from texts to values: at most one value per text.
#[derive(Debug)]
pub struct StringMap<V> {
    keys: Vec<String>,
    values: Vec<V>,
}

impl<V> StringMap<V> {
    /// The value of each text that has one.
    pub closed spec fn view(&self) -> Map<Seq<char>, V> {
        Map::new(
            |key: Seq<char>| exists|i: int| self.holds(i, key),
            |key: Seq<char>| self.values@[choose|i: int| self.holds(i, key)],
        )
    }

    spec fn holds(&self, i: int, key: Seq<char>) -> bool {
        0 <= i < self.keys@.len() && self.keys@[i]@ == key
    }

    #[verifier::type_invariant]
    spec fn one_value_per_key(&self) -> bool {
        &&& self.keys@.len() == self.values@.len()
        &&& forall|i: int, j: int|
            0 <= i < j < self.keys@.len() ==> (#[trigger] self.keys@[i])@ != (
            #[trigger] self.keys@[j])@
    }

    /// An empty map.
    pub fn new() -> (r: Self)
        ensures
            r@ == Map::<Seq<char>, V>::empty(),
    {
        let r = StringMap { keys: Vec::new(), values: Vec::new() };
        assert(r@ =~= Map::<Seq<char>, V>::empty());
        r
    }

    fn find(&self, key: &str) -> (r: Option<usize>)
        ensures
            match r {
                Some(i) => self.holds(i as int, key@),
                None => forall|i: int| !self.holds(i, key@),
            },
    {
        let mut i: usize = 0;
        while i < self.keys.len()
            invariant
                i <= self.keys@.len(),
                forall|k: int| 0 <= k < i ==> (#[trigger] self.keys@[k])@ != key@,
            decreases self.keys@.len() - i,
        {
            if text_eq(self.keys[i].as_str(), key) {
                return Some(i);
            }
            i += 1;
        }
        None
    }

    proof fn lemma_value(&self, i: int, key: Seq<char>)
        requires
            self.one_value_per_key(),
            self.holds(i, key),
        ensures
            self@.contains_key(key),
            self@[key] == self.values@[i],
    {
        let k = choose|k: int| self.holds(k, key);
        assert(self.holds(k, key));
        assert(k == i);
    }

    /// Storing one value changes the map at that value's key alone.
    proof fn lemma_update(before: Self, after: Self, i: int, key: Seq<char>)
        requires
            before.one_value_per_key(),
            before.holds(i, key),
            after.keys@ == before.keys@,
            after.values@.len() == before.values@.len(),
            forall|k: int|
                0 <= k < before.values@.len() && k != i ==> after.values@[k] == before.values@[k],
        ensures
            before@.contains_key(key),
            before@[key] == before.values@[i],
            after@ == before@.insert(key, after.values@[i]),
    {
        before.lemma_value(i, key);
        assert forall|k: int, other: Seq<char>| after.holds(k, other) == before.holds(
            k,
            other,
        ) by {}
        after.lemma_value(i, key);
        assert forall|other: Seq<char>| #[trigger]
            before@.contains_key(other) && other != key implies after@[other]
            == before@[other] by {
            let k = choose|k: int| before.holds(k, other);
            before.lemma_value(k, other);
            after.lemma_value(k, other);
        }
        assert forall|other: Seq<char>| after@.contains_key(other) == before@.contains_key(
            other,
        ) by {
            if before@.contains_key(other) {
                let k = choose|k: int| before.holds(k, other);
                assert(after.holds(k, other));
            }
            if after@.contains_key(other) {
                let k = choose|k: int| after.holds(k, other);
                assert(before.holds(k, other));
            }
        }
        assert(after@ =~= before@.insert(key, after.values@[i]));
    }

    /// The value of `key`, if it has one.
    pub fn get(&self, key: &str) -> (r: Option<&V>)
        ensures
            match r {
                Some(v) => self@.contains_key(key@) && *v == self@[key@],
                None => !self@.contains_key(key@),
            },
    {
        proof {
            use_type_invariant(self);
        }
        match self.find(key) {
            Some(i) => {
                proof {
                    self.lemma_value(i as int, key@);
                }
                Some(&self.values[i])
            },
            None => None,
        }
    }

    /// The value of `key` for changing, if it has one.
    pub fn get_mut(&mut self, key: &str) -> (r: Option<&mut V>)
        ensures
            match r {
                Some(v) => {
                    &&& old(self)@.contains_key(key@)
                    &&& *v == old(self)@[key@]
                    &&& final(self)@ == old(self)@.insert(key@, *final(v))
                },
                None => !old(self)@.contains_key(key@) && final(self)@ == old(self)@,
            },
    {
        proof {
            use_type_invariant(&*self);
        }
        match self.find(key) {
            Some(i) => {
                proof {
                    let before = *self;
                    assert forall|after: Self|
                        after.keys@ == before.keys@ && after.values@.len() == before.values@.len()
                            && (forall|k: int|
                            0 <= k < before.values@.len() && k != i ==> after.values@[k]
                                == before.values@[k]) implies #[trigger] after.view()
                        == before@.insert(key@, after.values@[i as int]) by {
                        Self::lemma_update(before, after, i as int, key@);
                    }
                    before.lemma_value(i as int, key@);
                }
                Some(&mut self.values[i])
            },
            None => None,
        }
    }

    /// Whether `key` has a value.
    pub fn contains_key(&self, key: &str) -> (r: bool)
        ensures
            r == self@.contains_key(key@),
    {
        self.get(key).is_some()
    }

    /// Give `key` the value `value`, replacing any it had.
    pub fn insert(&mut self, key: String, value: V)
        ensures
            final(self)@ == old(self)@.insert(key@, value),
    {
        proof {
            use_type_invariant(&*self);
        }
        let ghost before = *self;
        match self.find(key.as_str()) {
            Some(i) => {
                let (mut keys, mut values) = self.take();
                values.set(i, value);
                *self = StringMap { keys, values };
                proof {
                    Self::lemma_update(before, *self, i as int, key@);
                }
            },
            None => {
                let (mut keys, mut values) = self.take();
                let ghost n = keys@.len() as int;
                assert forall|k: int| 0 <= k < n implies (#[trigger] keys@[k])@ != key@ by {
                    assert(!before.holds(k, key@));
                }
                keys.push(key);
                values.push(value);
                *self = StringMap { keys, values };
                proof {
                    let after = *self;
                    use_type_invariant(&*self);
                    assert(after.holds(n, key@));
                    after.lemma_value(n, key@);
                    assert forall|other: Seq<char>| after@.contains_key(other) == (other == key@
                        || before@.contains_key(other)) by {
                        if before@.contains_key(other) {
                            let k = choose|k: int| before.holds(k, other);
                            assert(after.holds(k, other));
                        }
                        if after@.contains_key(other) && other != key@ {
                            let k = choose|k: int| after.holds(k, other);
                            assert(before.holds(k, other));
                        }
                    }
                    assert forall|other: Seq<char>| #[trigger]
                        before@.contains_key(other) implies after@[other] == before@[other] by {
                        let k = choose|k: int| before.holds(k, other);
                        before.lemma_value(k, other);
                        assert(after.holds(k, other));
                        after.lemma_value(k, other);
                    }
                    assert(!before@.contains_key(key@));
                    assert(after@ =~= before@.insert(key@, value));
                }
            },
        }
    }

    /// Move the entries out, leaving the map empty.
    fn take(&mut self) -> (r: (Vec<String>, Vec<V>))
        ensures
            r.0 == old(self).keys,
            r.1 == old(self).values,
    {
        let mut taken = StringMap { keys: Vec::new(), values: Vec::new() };
        std::mem::swap(&mut taken, self);
        let StringMap { keys, values } = taken;
        (keys, values)
    }

    /// Forget the value of `key`, if it has one.
    pub fn remove(&mut self, key: &str)
        ensures
            final(self)@ == old(self)@.remove(key@),
    {
        proof {
            use_type_invariant(&*self);
        }
        let ghost before = *self;
        match self.find(key) {
            Some(i) => {
                let (mut keys, mut values) = self.take();
                values.remove(i);
                keys.remove(i);
                *self = StringMap { keys, values };
                proof {
                    let after = *self;
                    use_type_invariant(&*self);
                    before.lemma_value(i as int, key@);
                    assert forall|other: Seq<char>| after@.contains_key(other) == (other != key@
                        && before@.contains_key(other)) by {
                        if before@.contains_key(other) && other != key@ {
                            let k = choose|k: int| before.holds(k, other);
                            assert(after.holds(
                                if k < i {
                                    k
                                } else {
                                    k - 1
                                },
                                other,
                            ));
                        }
                        if after@.contains_key(other) {
                            let k = choose|k: int| after.holds(k, other);
                            assert(before.holds(
                                if k < i {
                                    k
                                } else {
                                    k + 1
                                },
                                other,
                            ));
                        }
                    }
                    assert forall|other: Seq<char>| #[trigger]
                        after@.contains_key(other) implies after@[other] == before@[other] by {
                        let k = choose|k: int| after.holds(k, other);
                        after.lemma_value(k, other);
                        before.lemma_value(
                            if k < i {
                                k
                            } else {
                                k + 1
                            },
                            other,
                        );
                    }
                    assert(after@ =~= before@.remove(key@));
                }
            },
            None => {
                assert(before@ =~= before@.remove(key@));
            },
        }
    }
}

impl<V: Clone> Clone for StringMap<V> {
    fn clone(&self) -> (r: Self)
        ensures
            r@.dom() == self@.dom(),
            forall|key: Seq<char>| #[trigger]
                r@.contains_key(key) ==> cloned(self@[key], r@[key]),
    {
        proof {
            use_type_invariant(self);
        }
        let mut keys: Vec<String> = Vec::new();
        let mut values: Vec<V> = Vec::new();
        let mut i: usize = 0;
        while i < self.keys.len()
            invariant
                self.one_value_per_key(),
                i <= self.keys@.len(),
                keys@ =~= self.keys@.take(i as int),
                values@.len() == i,
                forall|k: int| 0 <= k < i ==> cloned(self.values@[k], #[trigger] values@[k]),
            decreases self.keys@.len() - i,
        {
            keys.push(self.keys[i].clone());
            values.push(self.values[i].clone());
            i += 1;
        }
        assert(keys@ =~= self.keys@);
        let r = StringMap { keys, values };
        proof {
            assert forall|key: Seq<char>, k: int| r.holds(k, key) == self.holds(k, key) by {}
            assert forall|key: Seq<char>| r@.contains_key(key) == self@.contains_key(key) by {
                if r@.contains_key(key) {
                    let k = choose|k: int| r.holds(k, key);
                    assert(self.holds(k, key));
                }
                if self@.contains_key(key) {
                    let k = choose|k: int| self.holds(k, key);
                    assert(r.holds(k, key));
                }
            }
            assert forall|key: Seq<char>| #[trigger] r@.contains_key(key) implies cloned(
                self@[key],
                r@[key],
            ) by {
                let k = choose|k: int| r.holds(k, key);
                r.lemma_value(k, key);
                self.lemma_value(k, key);
                assert(cloned(self.values@[k], r.values@[k]));
            }
            assert(r@.dom() =~= self@.dom());
        }
        r
    }
}

} // verus!
