//! A map with string keys that keeps the order in which its keys came in.

use vstd::hash_map::StringHashMap;
use vstd::prelude::*;

verus! {

/// A map from strings to values: a hash index into parallel lists of keys and values.
#[verifier::reject_recursive_types(V)]
pub struct StringMap<V> {
    index: StringHashMap<usize>,
    keys: Vec<String>,
    values: Vec<V>,
}

impl<V> View for StringMap<V> {
    type V = Map<Seq<char>, V>;

    closed spec fn view(&self) -> Map<Seq<char>, V> {
        Map::new(
            |key: Seq<char>| self.index@.contains_key(key),
            |key: Seq<char>| self.values@[self.index@[key] as int],
        )
    }
}

impl<V> StringMap<V> {
    /// The index and the lists agree.
    pub closed spec fn wf(&self) -> bool {
        &&& self.keys@.len() == self.values@.len()
        &&& forall|key: Seq<char>| #[trigger]
            self.index@.contains_key(key) ==> self.index@[key] < self.keys@.len()
                && self.keys@[self.index@[key] as int]@ == key
        &&& forall|i: int|
            #![trigger self.keys@[i]]
            0 <= i < self.keys@.len() ==> self.index@.contains_key(self.keys@[i]@)
                && self.index@[self.keys@[i]@] == i
    }

    /// The keys, in the order in which they came in.
    pub closed spec fn order(&self) -> Seq<Seq<char>> {
        Seq::new(self.keys@.len(), |i: int| self.keys@[i]@)
    }

    /// The keys of the map are those of the order, each of them once.
    pub proof fn lemma_order(&self)
        requires
            self.wf(),
        ensures
            self.order().no_duplicates(),
            forall|key: Seq<char>| #[trigger]
                self@.contains_key(key) <==> self.order().contains(key),
    {
        assert forall|key: Seq<char>| #[trigger] self@.contains_key(key) implies self.order().contains(
            key,
        ) by {
            assert(self.order()[self.index@[key] as int] == key);
        }
        assert forall|key: Seq<char>| self.order().contains(key) implies #[trigger] self@.contains_key(
            key,
        ) by {
            let i = choose|i: int| 0 <= i < self.order().len() && self.order()[i] == key;
            assert(self.keys@[i]@ == key);
        }
    }

    /// A map without keys.
    pub fn new() -> (map: Self)
        ensures
            map.wf(),
            map@ == Map::<Seq<char>, V>::empty(),
            map.order() == Seq::<Seq<char>>::empty(),
    {
        let map = StringMap { index: StringHashMap::new(), keys: Vec::new(), values: Vec::new() };
        assert(map@ =~= Map::<Seq<char>, V>::empty());
        map
    }

    /// The number of keys.
    pub fn len(&self) -> (len: usize)
        requires
            self.wf(),
        ensures
            len == self.order().len(),
    {
        self.keys.len()
    }

    /// The `i`-th key in the order of the map.
    pub fn key(&self, i: usize) -> (key: &String)
        requires
            self.wf(),
            i < self.order().len(),
        ensures
            key@ == self.order()[i as int],
            self@.contains_key(key@),
    {
        &self.keys[i]
    }

    /// The value of the `i`-th key in the order of the map.
    pub fn value(&self, i: usize) -> (value: &V)
        requires
            self.wf(),
            i < self.order().len(),
        ensures
            *value == self@[self.order()[i as int]],
    {
        let value = &self.values[i];
        assert(self.index@[self.keys@[i as int]@] == i);
        value
    }

    /// Whether `key` is in the map.
    pub fn contains_key(&self, key: &str) -> (found: bool)
        requires
            self.wf(),
        ensures
            found == self@.contains_key(key@),
    {
        self.index.contains_key(key)
    }

    /// The value of `key`.
    pub fn get(&self, key: &str) -> (value: Option<&V>)
        requires
            self.wf(),
        ensures
            match value {
                Some(v) => self@.contains_key(key@) && *v == self@[key@],
                None => !self@.contains_key(key@),
            },
    {
        match self.index.get(key) {
            Some(i) => Some(&self.values[*i]),
            None => None,
        }
    }

    /// Mutable access to the value of `key`.
    pub fn get_mut(&mut self, key: &str) -> (value: Option<&mut V>)
        requires
            old(self).wf(),
        ensures
            match value {
                Some(v) => {
                    &&& old(self)@.contains_key(key@)
                    &&& *v == old(self)@[key@]
                    &&& final(self)@ == old(self)@.insert(key@, *final(v))
                },
                None => !old(self)@.contains_key(key@) && final(self)@ == old(self)@,
            },
            final(self).wf(),
            final(self).order() == old(self).order(),
    {
        let at: usize = match self.index.get(key) {
            Some(i) => *i,
            None => {
                return None;
            },
        };
        Some(&mut self.values[at])
    }

    /// Sets the value of `key`, which comes last in the order if it is new.
    pub fn insert(&mut self, key: String, value: V)
        requires
            old(self).wf(),
        ensures
            final(self).wf(),
            final(self)@ == old(self)@.insert(key@, value),
            final(self).order() == (if old(self)@.contains_key(key@) {
                old(self).order()
            } else {
                old(self).order().push(key@)
            }),
    {
        match self.index.get(key.as_str()) {
            Some(i) => {
                let at: usize = *i;
                self.values[at] = value;
                assert(self.order() =~= old(self).order());
            },
            None => {
                self.index.insert(key.clone(), self.keys.len());
                self.keys.push(key);
                self.values.push(value);
                assert(self.order() =~= old(self).order().push(key@));
            },
        }
        assert(self@ =~= old(self)@.insert(key@, value));
    }

    /// Takes `key` out of the map.
    pub fn remove(&mut self, key: &str)
        requires
            old(self).wf(),
        ensures
            final(self).wf(),
            final(self)@ == old(self)@.remove(key@),
    {
        let at: usize = match self.index.get(key) {
            Some(i) => *i,
            None => {
                assert(self@ =~= old(self)@.remove(key@));
                return ;
            },
        };
        let last: usize = self.keys.len() - 1;
        let moved = self.keys[last].clone();
        self.index.insert(moved, at);
        self.index.remove(key);
        self.keys.swap_remove(at);
        self.values.swap_remove(at);
        assert(self@ =~= old(self)@.remove(key@));
    }
}

} // verus!
