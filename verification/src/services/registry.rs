//! A small association list keyed by text. It keeps its entries in the order
//! in which their keys first arrived, and no key occurs twice.

use vstd::prelude::*;

verus! {

/// Entries keyed by text, in arrival order, each key at most once.
pub struct Registry<V> {
    entries: Vec<Entry<V>>,
}

/// One entry of a registry.
pub struct Entry<V> {
    pub key: String,
    pub value: V,
}

/// No two positions of `keys` hold the same text.
pub open spec fn distinct_keys(keys: Seq<Seq<char>>) -> bool {
    forall|i: int, j: int| 0 <= i < j < keys.len() ==> keys[i] != keys[j]
}

/// The position of `key` in `keys`, if it occurs.
pub open spec fn position_of(keys: Seq<Seq<char>>, key: Seq<char>) -> Option<int> {
    if exists|i: int| 0 <= i < keys.len() && keys[i] == key {
        Some(choose|i: int| 0 <= i < keys.len() && keys[i] == key)
    } else {
        None
    }
}

/// The value stored under `key`, if there is one.
pub open spec fn lookup<V>(keys: Seq<Seq<char>>, values: Seq<V>, key: Seq<char>) -> Option<V> {
    match position_of(keys, key) {
        Some(i) => Some(values[i]),
        None => None,
    }
}

/// The keys after `key` was stored: as before where it had an entry, with
/// `key` at the end where it had none.
pub open spec fn keys_with(keys: Seq<Seq<char>>, key: Seq<char>) -> Seq<Seq<char>> {
    if position_of(keys, key) is Some {
        keys
    } else {
        keys.push(key)
    }
}

/// The values after `value` was stored under `key`.
pub open spec fn values_with<V>(keys: Seq<Seq<char>>, values: Seq<V>, key: Seq<char>, value: V) -> Seq<
    V,
> {
    match position_of(keys, key) {
        Some(i) => values.update(i, value),
        None => values.push(value),
    }
}

/// The keys after the entry of `key` was taken out.
pub open spec fn keys_without(keys: Seq<Seq<char>>, key: Seq<char>) -> Seq<Seq<char>> {
    match position_of(keys, key) {
        Some(i) => keys.remove(i),
        None => keys,
    }
}

/// The values after the entry of `key` was taken out.
pub open spec fn values_without<V>(keys: Seq<Seq<char>>, values: Seq<V>, key: Seq<char>) -> Seq<V> {
    match position_of(keys, key) {
        Some(i) => values.remove(i),
        None => values,
    }
}

/// Among distinct keys, a key is found at the one position that holds it.
pub proof fn lemma_position_is_unique(keys: Seq<Seq<char>>, key: Seq<char>, i: int)
    requires
        distinct_keys(keys),
        0 <= i < keys.len(),
        keys[i] == key,
    ensures
        position_of(keys, key) == Some(i),
{
    let found = choose|k: int| 0 <= k < keys.len() && keys[k] == key;
    if found < i {
        assert(keys[found] != keys[i]);
    } else if found > i {
        assert(keys[i] != keys[found]);
    }
}

/// A key that was stored is found, and the keys stay distinct.
pub proof fn lemma_stored_key_is_found(keys: Seq<Seq<char>>, key: Seq<char>)
    requires
        distinct_keys(keys),
    ensures
        position_of(keys_with(keys, key), key) is Some,
        distinct_keys(keys_with(keys, key)),
{
    if position_of(keys, key) is None {
        let after = keys.push(key);
        assert(after[keys.len() as int] == key);
        assert forall|a: int, b: int| 0 <= a < b < after.len() implies after[a] != after[b] by {
            if b == keys.len() {
                assert(keys[a] != key);
            } else {
                assert(keys[a] != keys[b]);
            }
        }
    }
}

/// A key that was taken out is not found, and the keys stay distinct.
pub proof fn lemma_removed_key_is_gone(keys: Seq<Seq<char>>, key: Seq<char>)
    requires
        distinct_keys(keys),
    ensures
        position_of(keys_without(keys, key), key) is None,
        distinct_keys(keys_without(keys, key)),
{
    match position_of(keys, key) {
        Some(i) => {
            let after = keys.remove(i);
            assert forall|a: int| 0 <= a < after.len() implies after[a] != key by {
                let a0 = if a < i {
                    a
                } else {
                    a + 1
                };
                if a0 < i {
                    assert(keys[a0] != keys[i]);
                } else {
                    assert(keys[i] != keys[a0]);
                }
            }
            assert forall|a: int, b: int| 0 <= a < b < after.len() implies after[a] != after[b] by {
                let a0 = if a < i {
                    a
                } else {
                    a + 1
                };
                let b0 = if b < i {
                    b
                } else {
                    b + 1
                };
                assert(keys[a0] != keys[b0]);
            }
        },
        None => {},
    }
}

/// Storing a value under a new key changes what is found under that key
/// and under no other.
pub proof fn lemma_lookup_after_push<V>(
    keys: Seq<Seq<char>>,
    values: Seq<V>,
    key: Seq<char>,
    value: V,
    other: Seq<char>,
)
    requires
        distinct_keys(keys),
        keys.len() == values.len(),
        position_of(keys, key) is None,
    ensures
        lookup(keys.push(key), values.push(value), other) == if other == key {
            Some(value)
        } else {
            lookup(keys, values, other)
        },
{
    let after = keys.push(key);
    lemma_stored_key_is_found(keys, key);
    assert(keys_with(keys, key) == after);
    if other == key {
        lemma_position_is_unique(after, key, keys.len() as int);
    } else {
        match position_of(keys, other) {
            Some(i) => {
                assert(after[i] == other);
                lemma_position_is_unique(after, other, i);
            },
            None => {
                assert forall|k: int| 0 <= k < after.len() implies after[k] != other by {
                    if k < keys.len() {
                        assert(keys[k] != other);
                    }
                }
            },
        }
    }
}

/// Taking out the entry of a key changes what is found under that key and
/// under no other.
pub proof fn lemma_lookup_after_remove<V>(
    keys: Seq<Seq<char>>,
    values: Seq<V>,
    key: Seq<char>,
    other: Seq<char>,
)
    requires
        distinct_keys(keys),
        keys.len() == values.len(),
    ensures
        lookup(keys_without(keys, key), values_without(keys, values, key), other) == if other
            == key {
            None
        } else {
            lookup(keys, values, other)
        },
{
    lemma_removed_key_is_gone(keys, key);
    match position_of(keys, key) {
        Some(i) => {
            let after = keys.remove(i);
            if other != key {
                match position_of(keys, other) {
                    Some(j) => {
                        let moved = if j < i {
                            j
                        } else {
                            j - 1
                        };
                        assert(after[moved] == other);
                        lemma_position_is_unique(after, other, moved);
                    },
                    None => {
                        assert forall|k: int| 0 <= k < after.len() implies after[k] != other by {
                            let k0 = if k < i {
                                k
                            } else {
                                k + 1
                            };
                            assert(keys[k0] != other);
                        }
                    },
                }
            }
        },
        None => {},
    }
}

/// The keys of `entries`, in order.
pub open spec fn keys_of<V>(entries: Seq<Entry<V>>) -> Seq<Seq<char>> {
    Seq::new(entries.len(), |i: int| entries[i].key@)
}

impl<V> Registry<V> {
    /// No key is held twice.
    #[verifier::type_invariant]
    spec fn well_formed(&self) -> bool {
        distinct_keys(self.keys())
    }

    /// The keys, in arrival order.
    pub closed spec fn keys(&self) -> Seq<Seq<char>> {
        Seq::new(self.entries.len() as nat, |i: int| self.entries[i].key@)
    }

    /// The values, each at the position of its key.
    pub closed spec fn values(&self) -> Seq<V> {
        Seq::new(self.entries.len() as nat, |i: int| self.entries[i].value)
    }

    /// Whether `key` has an entry.
    pub open spec fn contains(&self, key: Seq<char>) -> bool {
        position_of(self.keys(), key) is Some
    }

    /// The value stored under `key`; arbitrary where there is none.
    pub open spec fn value_of(&self, key: Seq<char>) -> V {
        self.values()[position_of(self.keys(), key).unwrap()]
    }

    /// An empty registry.
    pub fn new() -> (registry: Self)
        ensures
            registry.keys() == Seq::<Seq<char>>::empty(),
            registry.values() == Seq::<V>::empty(),
    {
        let registry = Registry { entries: Vec::new() };
        assert(registry.keys() =~= Seq::<Seq<char>>::empty());
        assert(registry.values() =~= Seq::<V>::empty());
        registry
    }

    /// What holds of every registry: one value per key, and no key twice.
    pub fn shape(&self)
        ensures
            self.keys().len() == self.values().len(),
            distinct_keys(self.keys()),
    {
        proof {
            use_type_invariant(self);
        }
    }

    /// Number of entries.
    pub fn len(&self) -> (n: usize)
        ensures
            n == self.keys().len(),
            n == self.values().len(),
    {
        proof {
            use_type_invariant(self);
        }
        self.entries.len()
    }

    /// The key at position `i`.
    pub fn key_at(&self, i: usize) -> (key: &String)
        requires
            i < self.keys().len(),
        ensures
            key@ == self.keys()[i as int],
    {
        &self.entries[i].key
    }

    /// The value at position `i`.
    pub fn value_at(&self, i: usize) -> (value: &V)
        requires
            i < self.values().len(),
        ensures
            *value == self.values()[i as int],
    {
        &self.entries[i].value
    }

    /// The position of `key`, if it has an entry.
    pub fn position(&self, key: &str) -> (found: Option<usize>)
        ensures
            match found {
                Some(i) => position_of(self.keys(), key@) == Some(i as int) && i < self.keys().len()
                    && self.keys()[i as int] == key@,
                None => position_of(self.keys(), key@) is None,
            },
    {
        proof {
            use_type_invariant(self);
        }
        let wanted = key.to_owned();
        let mut i: usize = 0;
        while i < self.entries.len()
            invariant
                i <= self.entries.len(),
                wanted@ == key@,
                self.keys().len() == self.entries.len(),
                distinct_keys(self.keys()),
                forall|k: int| 0 <= k < i ==> self.keys()[k] != key@,
            decreases self.entries.len() - i,
        {
            if self.entries[i].key == wanted {
                proof {
                    let keys = self.keys();
                    assert(keys[i as int] == key@);
                    let chosen = choose|k: int| 0 <= k < keys.len() && keys[k] == key@;
                    if chosen < i {
                        assert(keys[chosen] != keys[i as int]);
                    } else if chosen > i {
                        assert(keys[i as int] != keys[chosen]);
                    }
                    assert(chosen == i as int);
                }
                return Some(i);
            }
            i = i + 1;
        }
        None
    }

    /// The value stored under `key`, if there is one.
    pub fn get(&self, key: &str) -> (found: Option<&V>)
        ensures
            match found {
                Some(value) => lookup(self.keys(), self.values(), key@) == Some(*value),
                None => lookup(self.keys(), self.values(), key@) is None,
            },
    {
        match self.position(key) {
            Some(i) => Some(&self.entries[i].value),
            None => None,
        }
    }

    /// Whether `key` has an entry.
    pub fn contains_key(&self, key: &str) -> (yes: bool)
        ensures
            yes == self.contains(key@),
    {
        self.position(key).is_some()
    }

    /// Moves the entries out and leaves the registry empty.
    fn take_entries(&mut self) -> (entries: Vec<Entry<V>>)
        ensures
            entries == old(self).entries,
            final(self).entries@ == Seq::<Entry<V>>::empty(),
            distinct_keys(keys_of(entries@)),
    {
        proof {
            use_type_invariant(&*self);
            assert(keys_of(self.entries@) =~= self.keys());
        }
        let mut entries: Vec<Entry<V>> = Vec::new();
        assert(keys_of(entries@) =~= Seq::<Seq<char>>::empty());
        core::mem::swap(&mut self.entries, &mut entries);
        entries
    }

    /// Moves `entries` into an empty registry.
    fn put_entries(&mut self, entries: Vec<Entry<V>>)
        requires
            distinct_keys(keys_of(entries@)),
        ensures
            final(self).entries == entries,
    {
        let mut entries = entries;
        proof {
            assert(keys_of(entries@) =~= Seq::new(
                entries.len() as nat,
                |i: int| entries[i].key@,
            ));
        }
        core::mem::swap(&mut self.entries, &mut entries);
    }

    /// Stores `value` under `key`: in place where the key has an entry, at
    /// the end where it has none.
    pub fn insert(&mut self, key: String, value: V)
        ensures
            final(self).keys() == keys_with(old(self).keys(), key@),
            final(self).values() == values_with(old(self).keys(), old(self).values(), key@, value),
    {
        proof {
            use_type_invariant(&*self);
        }
        let ghost before_keys = self.keys();
        let ghost before_values = self.values();
        match self.position(key.as_str()) {
            Some(i) => {
                let mut entries = self.take_entries();
                assert(keys_of(entries@) =~= before_keys);
                entries[i] = Entry { key, value };
                assert(keys_of(entries@) =~= before_keys);
                self.put_entries(entries);
                assert(self.keys() =~= before_keys);
                assert(self.values() =~= before_values.update(i as int, value));
            },
            None => {
                let mut entries = self.take_entries();
                assert(keys_of(entries@) =~= before_keys);
                entries.push(Entry { key, value });
                proof {
                    let after = keys_of(entries@);
                    assert(after =~= before_keys.push(key@));
                    assert forall|a: int, b: int| 0 <= a < b < after.len() implies after[a]
                        != after[b] by {
                        if b == before_keys.len() {
                            assert(before_keys[a] != key@);
                        } else {
                            assert(before_keys[a] != before_keys[b]);
                        }
                    }
                }
                self.put_entries(entries);
                assert(self.keys() =~= before_keys.push(key@));
                assert(self.values() =~= before_values.push(value));
            },
        }
    }

    /// Takes out the entry of `key`, if there is one, and hands back its
    /// value. The other entries keep their order.
    pub fn remove(&mut self, key: &str) -> (removed: Option<V>)
        ensures
            final(self).keys() == keys_without(old(self).keys(), key@),
            final(self).values() == values_without(old(self).keys(), old(self).values(), key@),
            removed == lookup(old(self).keys(), old(self).values(), key@),
    {
        proof {
            use_type_invariant(&*self);
        }
        let ghost before_keys = self.keys();
        let ghost before_values = self.values();
        match self.position(key) {
            Some(i) => {
                let mut entries = self.take_entries();
                assert(keys_of(entries@) =~= before_keys);
                let entry = entries.remove(i);
                proof {
                    let after = keys_of(entries@);
                    assert(after =~= before_keys.remove(i as int));
                    assert forall|a: int, b: int| 0 <= a < b < after.len() implies after[a]
                        != after[b] by {
                        let a0 = if a < i { a } else { a + 1 };
                        let b0 = if b < i { b } else { b + 1 };
                        assert(before_keys[a0] != before_keys[b0]);
                    }
                }
                self.put_entries(entries);
                assert(self.keys() =~= before_keys.remove(i as int));
                assert(self.values() =~= before_values.remove(i as int));
                Some(entry.value)
            },
            None => None,
        }
    }

    /// Takes out every entry.
    pub fn clear(&mut self)
        ensures
            final(self).keys() == Seq::<Seq<char>>::empty(),
            final(self).values() == Seq::<V>::empty(),
    {
        let _ = self.take_entries();
        assert(self.keys() =~= Seq::<Seq<char>>::empty());
        assert(self.values() =~= Seq::<V>::empty());
    }
}

} // verus!
