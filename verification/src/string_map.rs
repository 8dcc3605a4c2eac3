use vstd::prelude::*;

verus! {

/// `str::eq` of the standard library: two string slices are equal exactly if
/// they hold the same characters.
pub assume_specification[ <str as PartialEq>::eq ](a: &str, b: &str) -> (r: bool)
    ensures
        r == (a@ == b@),
;

/// The map that binds `keys[i]` to `values[i]`.
pub open spec fn bindings<V>(keys: Seq<Seq<char>>, values: Seq<V>) -> Map<Seq<char>, V> {
    Map::new(|k: Seq<char>| keys.contains(k), |k: Seq<char>| values[keys.index_of(k)])
}

/// Changing the value at one position rebinds that position's key.
pub proof fn lemma_bindings_update<V>(keys: Seq<Seq<char>>, values: Seq<V>, i: int, value: V)
    requires
        keys.no_duplicates(),
        keys.len() == values.len(),
        0 <= i < keys.len(),
    ensures
        bindings(keys, values.update(i, value)) == bindings(keys, values).insert(keys[i], value),
{
    let a = bindings(keys, values.update(i, value));
    let b = bindings(keys, values).insert(keys[i], value);
    assert(keys.contains(keys[i]));
    assert forall|k: Seq<char>| a.contains_key(k) == b.contains_key(k) by {}
    assert forall|k: Seq<char>| a.contains_key(k) implies a[k] == b[k] by {
        let j = keys.index_of(k);
        assert(keys[j] == k);
        if k == keys[i] {
            assert(j == i);
        }
    }
    assert(a =~= b);
}

/// Appending a key that is not yet bound adds one binding.
pub proof fn lemma_bindings_push<V>(keys: Seq<Seq<char>>, values: Seq<V>, key: Seq<char>, value: V)
    requires
        keys.no_duplicates(),
        keys.len() == values.len(),
        !keys.contains(key),
    ensures
        bindings(keys.push(key), values.push(value)) == bindings(keys, values).insert(key, value),
        keys.push(key).no_duplicates(),
{
    let keys2 = keys.push(key);
    let a = bindings(keys2, values.push(value));
    let b = bindings(keys, values).insert(key, value);
    assert(keys2.no_duplicates()) by {
        assert forall|i: int, j: int|
            0 <= i < keys2.len() && 0 <= j < keys2.len() && i != j implies keys2[i]
            != keys2[j] by {
            if i == keys.len() {
                assert(keys[j] == keys2[j]);
            } else if j == keys.len() {
                assert(keys[i] == keys2[i]);
            }
        }
    }
    assert(keys2[keys.len() as int] == key);
    assert forall|k: Seq<char>| a.contains_key(k) == b.contains_key(k) by {
        if keys2.contains(k) {
            let j = keys2.index_of(k);
            assert(keys2[j] == k);
            if j < keys.len() {
                assert(keys[j] == k);
            }
        }
        if keys.contains(k) {
            let j = keys.index_of(k);
            assert(keys2[j] == k);
        }
    }
    assert forall|k: Seq<char>| a.contains_key(k) implies a[k] == b[k] by {
        let j = keys2.index_of(k);
        assert(keys2[j] == k);
        if k != key {
            assert(keys[j] == k);
            let j2 = keys.index_of(k);
            assert(keys[j2] == k);
            assert(j == j2);
        } else {
            assert(j == keys.len());
        }
    }
    assert(a =~= b);
}

/// One binding of a [`StringMap`].
pub struct StringMapEntry<V> {
    key: String,
    value: V,
}

/// A map from strings to values that remembers the order in which its keys
/// were first inserted.
pub struct StringMap<V> {
    entries: Vec<StringMapEntry<V>>,
}

impl<V> StringMap<V> {
    /// No key is bound twice.
    pub closed spec fn wf(&self) -> bool {
        forall|i: int, j: int|
            0 <= i < j < self.entries@.len() ==> self.entries@[i].key@ != self.entries@[j].key@
    }

    /// The keys, in the order of their first insertion.
    pub closed spec fn keys(&self) -> Seq<Seq<char>> {
        self.entries@.map_values(|e: StringMapEntry<V>| e.key@)
    }

    /// The values, in the order of `keys`.
    pub closed spec fn values(&self) -> Seq<V> {
        self.entries@.map_values(|e: StringMapEntry<V>| e.value)
    }

    /// The bindings as a mathematical map.
    pub open spec fn view(&self) -> Map<Seq<char>, V> {
        bindings(self.keys(), self.values())
    }

    pub proof fn lemma_keys_values(&self)
        requires
            self.wf(),
        ensures
            self.keys().len() == self.values().len(),
            self.keys().no_duplicates(),
            forall|i: int|
                0 <= i < self.keys().len() ==> self@.contains_key(#[trigger] self.keys()[i])
                    && self@[self.keys()[i]] == self.values()[i],
            forall|k: Seq<char>| self@.contains_key(k) <==> self.keys().contains(k),
    {
        assert forall|i: int| 0 <= i < self.keys().len() implies self@.contains_key(
            #[trigger] self.keys()[i],
        ) && self@[self.keys()[i]] == self.values()[i] by {
            let k = self.keys()[i];
            assert(self.keys().contains(k));
            let j = self.keys().index_of(k);
            assert(self.keys()[j] == k);
            assert(i == j);
        }
    }

    pub fn new() -> (r: Self)
        ensures
            r.wf(),
            r@ == Map::<Seq<char>, V>::empty(),
            r.keys() == Seq::<Seq<char>>::empty(),
    {
        let r = StringMap { entries: Vec::new() };
        assert(r@ =~= Map::<Seq<char>, V>::empty());
        assert(r.keys() =~= Seq::<Seq<char>>::empty());
        r
    }

    pub fn len(&self) -> (n: usize)
        ensures
            n == self.keys().len(),
    {
        self.entries.len()
    }

    /// The position of `key` among the keys, if it is bound.
    pub fn position(&self, key: &str) -> (r: Option<usize>)
        requires
            self.wf(),
        ensures
            match r {
                Some(i) => i < self.keys().len() && self.keys()[i as int] == key@
                    && self@.contains_key(key@) && self@[key@] == self.values()[i as int],
                None => !self@.contains_key(key@) && !self.keys().contains(key@),
            },
    {
        proof {
            self.lemma_keys_values();
        }
        let mut i: usize = 0;
        while i < self.entries.len()
            invariant
                self.wf(),
                i <= self.entries@.len(),
                forall|j: int| 0 <= j < i ==> self.keys()[j] != key@,
                self.keys().len() == self.entries@.len(),
            decreases self.entries@.len() - i,
        {
            if self.entries[i].key.as_str().eq(key) {
                proof {
                    self.lemma_keys_values();
                    assert(self.keys()[i as int] == key@);
                }
                return Some(i);
            }
            i = i + 1;
        }
        None
    }

    pub fn get(&self, key: &str) -> (r: Option<&V>)
        requires
            self.wf(),
        ensures
            match r {
                Some(v) => self@.contains_key(key@) && self@[key@] == *v,
                None => !self@.contains_key(key@),
            },
    {
        match self.position(key) {
            Some(i) => Some(&self.entries[i].value),
            None => None,
        }
    }

    pub fn value_at(&self, i: usize) -> (r: &V)
        requires
            i < self.keys().len(),
        ensures
            *r == self.values()[i as int],
    {
        &self.entries[i].value
    }

    /// Binds `key` to `value`; a key that is new goes to the end.
    pub fn insert(&mut self, key: String, value: V)
        requires
            old(self).wf(),
        ensures
            final(self).wf(),
            final(self)@ == old(self)@.insert(key@, value),
            old(self)@.contains_key(key@) ==> final(self).keys() == old(self).keys(),
            !old(self)@.contains_key(key@) ==> final(self).keys() == old(self).keys().push(key@),
    {
        proof {
            self.lemma_keys_values();
        }
        match self.position(key.as_str()) {
            Some(i) => {
                self.entries[i].value = value;
                proof {
                    assert(self.keys() =~= old(self).keys());
                    assert(self.values() =~= old(self).values().update(i as int, value));
                    lemma_bindings_update(old(self).keys(), old(self).values(), i as int, value);
                }
            },
            None => {
                self.entries.push(StringMapEntry { key, value });
                proof {
                    assert(self.keys() =~= old(self).keys().push(key@));
                    assert(self.values() =~= old(self).values().push(value));
                    lemma_bindings_push(old(self).keys(), old(self).values(), key@, value);
                    assert forall|i: int, j: int|
                        0 <= i < j < self.entries@.len() implies self.entries@[i].key@
                        != self.entries@[j].key@ by {
                        assert(self.keys()[i] == self.entries@[i].key@);
                        assert(self.keys()[j] == self.entries@[j].key@);
                    }
                }
            },
        }
    }

    /// The value bound at position `i`, for changing in place.
    pub fn value_at_mut(&mut self, i: usize) -> (r: &mut V)
        requires
            old(self).wf(),
            i < old(self).keys().len(),
        ensures
            *r == old(self).values()[i as int],
            final(self).wf(),
            final(self).keys() == old(self).keys(),
            final(self).values() == old(self).values().update(i as int, *final(r)),
    {
        &mut self.entries[i].value
    }
}

} // verus!
