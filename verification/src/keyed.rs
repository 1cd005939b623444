//! A small insertion-ordered map. It keeps its keys in the order in which
//! they first arrived and never holds a key twice.

use vstd::prelude::*;

verus! {

/// A key of a [`KeyedStore`]: two keys are the same key when their views are
/// equal.
pub trait StoreKey: View + Sized {
    /// Whether `self` and `other` are the same key.
    fn same_key(&self, other: &Self) -> (same: bool)
        ensures
            same == (self@ == other@),
    ;

    /// A second copy of the key.
    fn copy_key(&self) -> (copy: Self)
        ensures
            copy@ == self@,
    ;
}

impl StoreKey for String {
    fn same_key(&self, other: &Self) -> (same: bool) {
        *self == *other
    }

    fn copy_key(&self) -> (copy: Self) {
        self.clone()
    }
}

impl StoreKey for u16 {
    fn same_key(&self, other: &Self) -> (same: bool) {
        *self == *other
    }

    fn copy_key(&self) -> (copy: Self) {
        *self
    }
}

/// In a sequence without duplicates, an element is found where it stands.
pub proof fn lemma_index_of_unique<A>(s: Seq<A>, i: int)
    requires
        s.no_duplicates(),
        0 <= i < s.len(),
    ensures
        s.contains(s[i]),
        s.index_of(s[i]) == i,
{
    let j = s.index_of(s[i]);
    assert(0 <= j < s.len() && s[j] == s[i]);
}

/// An insertion-ordered map from keys to values.
pub struct KeyedStore<K: StoreKey, V> {
    keys: Vec<K>,
    values: Vec<V>,
}

impl<K: StoreKey, V> View for KeyedStore<K, V> {
    type V = Map<K::V, V>;

    /// The store as a map: each key that it holds, with its value.
    open spec fn view(&self) -> Map<K::V, V> {
        Map::new(
            |k: K::V| self.order().contains(k),
            |k: K::V| self.entries()[self.order().index_of(k)],
        )
    }
}

impl<K: StoreKey, V> KeyedStore<K, V> {
    /// The keys, in the order in which they were first inserted.
    pub closed spec fn order(&self) -> Seq<K::V> {
        self.keys@.map_values(|k: K| k@)
    }

    /// The values, each at the position of its key in [`Self::order`].
    pub closed spec fn entries(&self) -> Seq<V> {
        self.values@
    }

    /// Every key has one value and no key occurs twice. A store is in this
    /// state whenever executable code holds it.
    #[verifier::type_invariant]
    pub open spec fn wf(&self) -> bool {
        &&& self.order().len() == self.entries().len()
        &&& self.order().no_duplicates()
    }

    /// The map holds exactly the keys of `order`, each with the value at its
    /// position.
    pub proof fn lemma_view(&self)
        requires
            self.wf(),
        ensures
            self@.dom() =~= self.order().to_set(),
            self@.dom().finite(),
            self@.len() == self.order().len(),
            forall|i: int|
                0 <= i < self.order().len() ==> self@.contains_key(#[trigger] self.order()[i])
                    && self@[self.order()[i]] == self.entries()[i],
    {
        self.order().unique_seq_to_set();
        assert forall|i: int| 0 <= i < self.order().len() implies self@.contains_key(
            #[trigger] self.order()[i],
        ) && self@[self.order()[i]] == self.entries()[i] by {
            lemma_index_of_unique(self.order(), i);
        }
    }

    /// A store without keys.
    pub fn new() -> (store: Self)
        ensures
            store.order() == Seq::<K::V>::empty(),
            store.entries() == Seq::<V>::empty(),
            store@ == Map::<K::V, V>::empty(),
    {
        let keys: Vec<K> = Vec::new();
        let values: Vec<V> = Vec::new();
        proof {
            let ghost made = KeyedStore { keys, values };
            assert(made.order() =~= Seq::<K::V>::empty());
            assert(made@ =~= Map::<K::V, V>::empty());
        }
        KeyedStore { keys, values }
    }

    /// The number of keys.
    pub fn len(&self) -> (count: usize)
        ensures
            count == self.order().len(),
            count == self.entries().len(),
            count == self@.len(),
    {
        proof {
            use_type_invariant(self);
            self.lemma_view();
        }
        self.keys.len()
    }

    /// Whether the store holds no key.
    pub fn is_empty(&self) -> (empty: bool)
        ensures
            empty == (self.order().len() == 0),
            empty == (self@ == Map::<K::V, V>::empty()),
    {
        proof {
            use_type_invariant(self);
            self.lemma_view();
            if self.order().len() == 0 {
                assert(self@ =~= Map::<K::V, V>::empty());
            } else {
                assert(self@.contains_key(self.order()[0]));
            }
        }
        self.keys.len() == 0
    }

    /// Where `key` stands in the insertion order, if the store holds it.
    pub fn position(&self, key: &K) -> (found: Option<usize>)
        ensures
            found is Some <==> self.order().contains(key@),
            found is Some ==> found->0 == self.order().index_of(key@),
            found is Some ==> found->0 < self.order().len(),
            found is Some ==> found->0 < self.entries().len(),
    {
        proof {
            use_type_invariant(self);
        }
        let mut i: usize = 0;
        while i < self.keys.len()
            invariant
                i <= self.keys.len(),
                self.wf(),
                forall|j: int| 0 <= j < i ==> self.order()[j] != key@,
            decreases self.keys.len() - i,
        {
            if self.keys[i].same_key(key) {
                proof {
                    lemma_index_of_unique(self.order(), i as int);
                }
                return Some(i);
            }
            i += 1;
        }
        None
    }

    /// Whether the store holds `key`.
    pub fn contains_key(&self, key: &K) -> (held: bool)
        ensures
            held == self@.contains_key(key@),
    {
        self.position(key).is_some()
    }

    /// The key at position `i` of the insertion order.
    pub fn key_at(&self, i: usize) -> (key: &K)
        requires
            i < self.order().len(),
        ensures
            key@ == self.order()[i as int],
    {
        &self.keys[i]
    }

    /// The value at position `i` of the insertion order.
    pub fn value_at(&self, i: usize) -> (value: &V)
        requires
            i < self.order().len(),
        ensures
            *value == self.entries()[i as int],
            *value == self@[self.order()[i as int]],
    {
        proof {
            use_type_invariant(self);
            self.lemma_view();
        }
        &self.values[i]
    }

    /// The value of `key`, if the store holds it.
    pub fn get(&self, key: &K) -> (value: Option<&V>)
        ensures
            value is Some <==> self@.contains_key(key@),
            value is Some ==> *value->0 == self@[key@],
    {
        proof {
            use_type_invariant(self);
        }
        match self.position(key) {
            Some(i) => Some(&self.values[i]),
            None => None,
        }
    }

    /// Puts `value` at position `i` and hands back the value that stood
    /// there. The keys do not change.
    pub fn replace_at(&mut self, i: usize, value: V) -> (previous: V)
        requires
            i < old(self).order().len(),
        ensures
            final(self).order() == old(self).order(),
            final(self).entries() == old(self).entries().update(i as int, value),
            final(self)@ == old(self)@.insert(old(self).order()[i as int], value),
            previous == old(self).entries()[i as int],
    {
        proof {
            use_type_invariant(&*self);
        }
        let ghost before = *self;
        let mut taken = KeyedStore::new();
        std::mem::swap(self, &mut taken);
        let KeyedStore { keys, mut values } = taken;
        let mut slot = value;
        values.set_and_swap(i, &mut slot);
        *self = KeyedStore { keys, values };
        proof {
            lemma_index_of_unique(self.order(), i as int);
            assert forall|k: K::V| self@.contains_key(k) implies #[trigger] self@[k] == before@.insert(
                before.order()[i as int],
                value,
            )[k] by {
                let j = self.order().index_of(k);
                assert(0 <= j < self.order().len() && self.order()[j] == k);
            }
            assert(self@ =~= before@.insert(before.order()[i as int], value));
        }
        slot
    }

    /// Adds a key that the store does not hold yet, after all the others.
    pub(crate) fn push_new(&mut self, key: K, value: V)
        requires
            !old(self).order().contains(key@),
        ensures
            final(self).order() == old(self).order().push(key@),
            final(self).entries() == old(self).entries().push(value),
            final(self)@ == old(self)@.insert(key@, value),
    {
        proof {
            use_type_invariant(&*self);
        }
        let ghost before = *self;
        let mut taken = KeyedStore::new();
        std::mem::swap(self, &mut taken);
        let KeyedStore { mut keys, mut values } = taken;
        keys.push(key);
        values.push(value);
        proof {
            let ghost next = KeyedStore { keys, values };
            assert(next.order() =~= before.order().push(key@));
        }
        *self = KeyedStore { keys, values };
        proof {
            let n = before.order().len() as int;
            assert forall|k: K::V| self@.contains_key(k) implies #[trigger] self@[k]
                == before@.insert(key@, value)[k] by {
                let j = self.order().index_of(k);
                assert(0 <= j < self.order().len() && self.order()[j] == k);
                if k == key@ {
                    lemma_index_of_unique(self.order(), n);
                } else {
                    assert(before.order()[j] == k);
                    lemma_index_of_unique(before.order(), j);
                }
            }
            assert forall|k: K::V| before@.insert(key@, value).contains_key(k) implies self@
                .contains_key(k) by {
                if k == key@ {
                    assert(self.order()[n] == k);
                } else {
                    let j = before.order().index_of(k);
                    assert(self.order()[j] == k);
                }
            }
            assert(self@ =~= before@.insert(key@, value));
        }
    }

    /// Gives `key` the value `value`. A key that the store held keeps its
    /// place and its former value is handed back; a new key goes last.
    pub fn insert(&mut self, key: K, value: V) -> (previous: Option<V>)
        ensures
            final(self)@ == old(self)@.insert(key@, value),
            previous is Some <==> old(self)@.contains_key(key@),
            previous is Some ==> previous->0 == old(self)@[key@],
            previous is Some ==> final(self).order() == old(self).order(),
            previous is None ==> final(self).order() == old(self).order().push(key@),
    {
        proof {
            use_type_invariant(&*self);
        }
        match self.position(&key) {
            Some(i) => {
                proof {
                    self.lemma_view();
                }
                Some(self.replace_at(i, value))
            },
            None => {
                self.push_new(key, value);
                None
            },
        }
    }

    /// Takes out the key at position `i` with its value. The keys behind it
    /// move up by one place.
    pub fn remove_at(&mut self, i: usize) -> (entry: (K, V))
        requires
            i < old(self).order().len(),
        ensures
            final(self).order() == old(self).order().remove(i as int),
            final(self).entries() == old(self).entries().remove(i as int),
            final(self)@ == old(self)@.remove(old(self).order()[i as int]),
            entry.0@ == old(self).order()[i as int],
            entry.1 == old(self).entries()[i as int],
    {
        proof {
            use_type_invariant(&*self);
        }
        let ghost before = *self;
        let mut taken = KeyedStore::new();
        std::mem::swap(self, &mut taken);
        let KeyedStore { mut keys, mut values } = taken;
        let key = keys.remove(i);
        let value = values.remove(i);
        proof {
            let ghost next = KeyedStore { keys, values };
            assert(next.order() =~= before.order().remove(i as int));
            assert forall|a: int, b: int|
                0 <= a < next.order().len() && 0 <= b < next.order().len() && a != b implies next
                .order()[a] != next.order()[b] by {
                let a0 = if a < i { a } else { a + 1 };
                let b0 = if b < i { b } else { b + 1 };
                assert(next.order()[a] == before.order()[a0]);
                assert(next.order()[b] == before.order()[b0]);
            }
        }
        *self = KeyedStore { keys, values };
        proof {
            let gone = before.order()[i as int];
            assert forall|k: K::V| self@.contains_key(k) implies before@.remove(gone).contains_key(
                k,
            ) && #[trigger] self@[k] == before@.remove(gone)[k] by {
                let j = self.order().index_of(k);
                assert(0 <= j < self.order().len() && self.order()[j] == k);
                let j0 = if j < i { j } else { j + 1 };
                assert(before.order()[j0] == k);
                lemma_index_of_unique(before.order(), j0);
                lemma_index_of_unique(self.order(), j);
            }
            assert forall|k: K::V| before@.remove(gone).contains_key(k) implies self@.contains_key(
                k,
            ) by {
                let j0 = before.order().index_of(k);
                assert(0 <= j0 < before.order().len() && before.order()[j0] == k);
                let j = if j0 < i { j0 } else { j0 - 1 };
                assert(self.order()[j] == k);
            }
            assert(self@ =~= before@.remove(gone));
        }
        (key, value)
    }

    /// Takes out `key` and hands back its value, if the store held it.
    pub fn remove(&mut self, key: &K) -> (previous: Option<V>)
        ensures
            final(self)@ == old(self)@.remove(key@),
            previous is Some <==> old(self)@.contains_key(key@),
            previous is Some ==> previous->0 == old(self)@[key@],
            previous is Some ==> final(self).order() == old(self).order().remove(
                old(self).order().index_of(key@),
            ),
            previous is None ==> final(self).order() == old(self).order(),
    {
        proof {
            use_type_invariant(&*self);
        }
        match self.position(key) {
            Some(i) => {
                proof {
                    self.lemma_view();
                }
                let entry = self.remove_at(i);
                Some(entry.1)
            },
            None => {
                assert(self@.remove(key@) =~= self@);
                None
            },
        }
    }

    /// Hands back everything the store holds and leaves it empty.
    pub fn take_all(&mut self) -> (taken: Self)
        ensures
            taken == *old(self),
            final(self).order() == Seq::<K::V>::empty(),
            final(self).entries() == Seq::<V>::empty(),
            final(self)@ == Map::<K::V, V>::empty(),
    {
        let mut taken = KeyedStore::new();
        std::mem::swap(self, &mut taken);
        taken
    }
}

} // verus!
