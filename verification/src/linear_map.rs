//! A map kept as a list, in the order in which its keys first came.
use vstd::prelude::*;

verus! {

/// A key is told apart from another by its view.
pub trait Key: View + Sized {
    /// Whether two keys are the same key.
    fn same(&self, other: &Self) -> (same: bool)
        ensures
            same == (self@ == other@),
    ;

    /// Another copy of this key.
    fn duplicate(&self) -> (copy: Self)
        ensures
            copy@ == self@,
    ;
}

/// No key occurs twice.
pub open spec fn distinct<K: View>(keys: Seq<K>) -> bool {
    forall|i: int, j: int|
        #![trigger keys[i], keys[j]]
        0 <= i < j < keys.len() ==> keys[i]@ != keys[j]@
}

/// The key at `i` is `k`.
pub open spec fn key_at<K: View>(keys: Seq<K>, k: K::V, i: int) -> bool {
    0 <= i < keys.len() && keys[i]@ == k
}

/// The map in which each key has the value at its place.
pub open spec fn paired<K: View, V>(keys: Seq<K>, values: Seq<V>) -> Map<K::V, V> {
    Map::new(
        |k: K::V| exists|i: int| key_at(keys, k, i),
        |k: K::V| values[choose|i: int| key_at(keys, k, i)],
    )
}

/// The value of a key, or `default` where the key has none.
pub open spec fn found_or<A, V>(map: Map<A, V>, key: A, default: V) -> V {
    if map.contains_key(key) {
        map[key]
    } else {
        default
    }
}

/// The key at `i` has the value at `i`.
pub proof fn lemma_paired_at<K: View, V>(keys: Seq<K>, values: Seq<V>, i: int)
    requires
        distinct(keys),
        0 <= i < keys.len(),
    ensures
        paired(keys, values).contains_key(keys[i]@),
        paired(keys, values)[keys[i]@] == values[i],
{
    let k = keys[i]@;
    assert(key_at(keys, k, i));
    let j = choose|j: int| key_at(keys, k, j);
    assert(keys[i]@ == keys[j]@);
}

/// A new key and its value at the end of the lists are an insertion.
pub proof fn lemma_push<K: View, V>(keys: Seq<K>, values: Seq<V>, key: K, value: V)
    requires
        distinct(keys),
        keys.len() == values.len(),
        !paired(keys, values).contains_key(key@),
    ensures
        distinct(keys.push(key)),
        paired(keys.push(key), values.push(value)) == paired(keys, values).insert(key@, value),
{
    let longer = paired(keys.push(key), values.push(value));
    let inserted = paired(keys, values).insert(key@, value);
    assert forall|i: int| 0 <= i < keys.len() implies #[trigger] keys[i]@ != key@ by {
        lemma_paired_at(keys, values, i);
    }
    assert(distinct(keys.push(key)));
    assert forall|k: K::V| longer.contains_key(k) == inserted.contains_key(k) by {
        if longer.contains_key(k) {
            let i = choose|i: int| key_at(keys.push(key), k, i);
            if i < keys.len() {
                lemma_paired_at(keys, values, i);
            }
        }
        if k == key@ {
            assert(key_at(keys.push(key), k, keys.len() as int));
        } else if inserted.contains_key(k) {
            let i = choose|i: int| key_at(keys, k, i);
            assert(key_at(keys.push(key), k, i));
        }
    }
    assert forall|k: K::V| inserted.contains_key(k) implies longer[k] == inserted[k] by {
        if k == key@ {
            lemma_paired_at(keys.push(key), values.push(value), keys.len() as int);
        } else {
            let i = choose|i: int| key_at(keys, k, i);
            lemma_paired_at(keys, values, i);
            lemma_paired_at(keys.push(key), values.push(value), i);
        }
    }
    assert(longer =~= inserted);
}

/// Another value at the place of a key is an insertion.
proof fn lemma_replace<K: View, V>(keys: Seq<K>, values: Seq<V>, i: int, value: V)
    requires
        distinct(keys),
        keys.len() == values.len(),
        0 <= i < keys.len(),
    ensures
        paired(keys, values.update(i, value)) == paired(keys, values).insert(keys[i]@, value),
{
    let changed = paired(keys, values.update(i, value));
    let inserted = paired(keys, values).insert(keys[i]@, value);
    assert(key_at(keys, keys[i]@, i));
    assert forall|k: K::V| inserted.contains_key(k) implies changed[k] == inserted[k] by {
        let j = choose|j: int| key_at(keys, k, j);
        lemma_paired_at(keys, values, j);
        lemma_paired_at(keys, values.update(i, value), j);
    }
    assert(changed =~= inserted);
}

/// A map from keys to values.
#[derive(Debug)]
pub struct LinearMap<K: Key, V> {
    keys: Vec<K>,
    values: Vec<V>,
}

impl<K: Key, V> View for LinearMap<K, V> {
    type V = Map<K::V, V>;

    open spec fn view(&self) -> Map<K::V, V> {
        paired(self.keys(), self.values())
    }
}

impl<K: Key, V> LinearMap<K, V> {
    /// The keys, in the order in which they came.
    pub closed spec fn keys(&self) -> Seq<K> {
        self.keys@
    }

    /// The values, in the order of the keys.
    pub closed spec fn values(&self) -> Seq<V> {
        self.values@
    }

    /// Each key occurs once, and has one value.
    #[verifier::type_invariant]
    spec fn wf(&self) -> bool {
        &&& distinct(self.keys@)
        &&& self.keys@.len() == self.values@.len()
    }

    /// A map without keys.
    pub fn new() -> (map: Self)
        ensures
            map@ == Map::<K::V, V>::empty(),
    {
        let map = LinearMap { keys: Vec::new(), values: Vec::new() };
        assert(map@ =~= Map::<K::V, V>::empty());
        map
    }

    /// The number of keys. Each key is at one place only.
    pub fn len(&self) -> (len: usize)
        ensures
            len == self.keys().len(),
            len == self.values().len(),
            distinct(self.keys()),
    {
        proof {
            use_type_invariant(self);
        }
        self.keys.len()
    }

    /// Whether there is no key.
    pub fn is_empty(&self) -> (empty: bool)
        ensures
            empty == (self@ == Map::<K::V, V>::empty()),
    {
        proof {
            if self.keys@.len() > 0 {
                assert(key_at(self.keys@, self.keys@[0]@, 0));
                assert(self@.contains_key(self.keys@[0]@));
            } else {
                assert(self@ =~= Map::<K::V, V>::empty());
            }
        }
        self.keys.len() == 0
    }

    /// The key at a place.
    pub fn key(&self, place: usize) -> (key: &K)
        requires
            place < self.keys().len(),
        ensures
            *key == self.keys()[place as int],
            self@.contains_key(key@),
    {
        proof {
            use_type_invariant(self);
            lemma_paired_at(self.keys@, self.values@, place as int);
        }
        &self.keys[place]
    }

    /// The value at a place.
    pub fn value(&self, place: usize) -> (value: &V)
        requires
            place < self.keys().len(),
        ensures
            *value == self.values()[place as int],
            *value == self@[self.keys()[place as int]@],
    {
        proof {
            use_type_invariant(self);
            lemma_paired_at(self.keys@, self.values@, place as int);
        }
        &self.values[place]
    }

    /// The value at a place, to change it there.
    pub fn value_mut(&mut self, place: usize) -> (value: &mut V)
        requires
            place < old(self).keys().len(),
        ensures
            *value == old(self).values()[place as int],
            *value == old(self)@[old(self).keys()[place as int]@],
            final(self).keys() == old(self).keys(),
            final(self).values() == old(self).values().update(place as int, *final(value)),
            final(self)@ == old(self)@.insert(
                old(self).keys()[place as int]@,
                *final(value),
            ),
    {
        proof {
            use_type_invariant(&*self);
            lemma_paired_at(self.keys@, self.values@, place as int);
        }
        let value = &mut self.values[place];
        proof {
            lemma_replace(
                old(self).keys@,
                old(self).values@,
                place as int,
                *final(value),
            );
        }
        value
    }

    /// The place of a key.
    fn find(&self, key: &K) -> (place: Option<usize>)
        ensures
            match place {
                Some(i) => key_at(self.keys@, key@, i as int),
                None => !self@.contains_key(key@),
            },
    {
        let mut i: usize = 0;
        while i < self.keys.len()
            invariant
                forall|j: int| 0 <= j < i ==> !key_at(self.keys@, key@, j),
                i <= self.keys.len(),
            decreases self.keys.len() - i,
        {
            if self.keys[i].same(key) {
                return Some(i);
            }
            i += 1;
        }
        None
    }

    /// The value of a key.
    pub fn get(&self, key: &K) -> (value: Option<&V>)
        ensures
            match value {
                Some(value) => self@.contains_key(key@) && *value == self@[key@],
                None => !self@.contains_key(key@),
            },
    {
        match self.find(key) {
            Some(i) => Some(self.value(i)),
            None => None,
        }
    }

    /// The value of a key, to change it there.
    pub fn get_mut(&mut self, key: &K) -> (value: Option<&mut V>)
        ensures
            match value {
                Some(value) => {
                    &&& old(self)@.contains_key(key@)
                    &&& *value == old(self)@[key@]
                    &&& final(self)@ == old(self)@.insert(key@, *final(value))
                },
                None => !old(self)@.contains_key(key@) && *final(self) == *old(self),
            },
    {
        match self.find(key) {
            Some(i) => Some(self.value_mut(i)),
            None => None,
        }
    }

    /// The place of a key. A key that was not there comes last, with the value `default`.
    pub fn place_of(&mut self, key: K, default: V) -> (place: usize)
        ensures
            key_at(final(self).keys(), key@, place as int),
            distinct(final(self).keys()),
            if old(self)@.contains_key(key@) {
                *final(self) == *old(self)
            } else {
                &&& final(self).keys() == old(self).keys().push(key)
                &&& final(self)@ == old(self)@.insert(key@, default)
            },
    {
        match self.find(&key) {
            Some(i) => {
                proof {
                    use_type_invariant(&*self);
                    assert(self@.contains_key(key@));
                }
                i
            },
            None => {
                let place: usize = self.len();
                self.append(key, default);
                proof {
                    use_type_invariant(&*self);
                }
                place
            },
        }
    }

    /// The value of a key, to change it there. A key that was not there gets `default` first.
    pub fn get_or_insert(&mut self, key: K, default: V) -> (value: &mut V)
        ensures
            *value == found_or(old(self)@, key@, default),
            final(self)@ == old(self)@.insert(key@, *final(value)),
    {
        let place: usize = self.place_of(key, default);
        let value = self.value_mut(place);
        assert(old(self)@.insert(key@, default).insert(key@, *final(value)) =~= old(
            self,
        )@.insert(key@, *final(value)));
        value
    }

    /// Gives a key a value, in place of the one that it had.
    pub fn insert(&mut self, key: K, value: V)
        ensures
            final(self)@ == old(self)@.insert(key@, value),
    {
        match self.find(&key) {
            Some(i) => {
                *self.value_mut(i) = value;
            },
            None => {
                self.append(key, value);
            },
        }
    }

    /// Adds a new key with its value at the end.
    fn append(&mut self, key: K, value: V)
        requires
            !old(self)@.contains_key(key@),
        ensures
            final(self).keys() == old(self).keys().push(key),
            final(self)@ == old(self)@.insert(key@, value),
    {
        proof {
            use_type_invariant(&*self);
            lemma_push(self.keys@, self.values@, key, value);
        }
        let mut map = LinearMap { keys: Vec::new(), values: Vec::new() };
        std::mem::swap(self, &mut map);
        let LinearMap { mut keys, mut values } = map;
        keys.push(key);
        values.push(value);
        *self = LinearMap { keys, values };
    }
}

} // verus!
