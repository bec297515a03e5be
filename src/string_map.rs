//! A map from strings to values, kept as a vector of entries with distinct
//! keys in the order they were first inserted. Its view is the mathematical
//! map from each key's characters to the view of its value.

use vstd::prelude::*;

verus! {

/// A copy with the same view as the value it was made from.
pub trait Duplicate: View + Sized {
    fn duplicate(&self) -> (r: Self)
        ensures
            r@ == self@,
    ;
}

impl Duplicate for String {
    fn duplicate(&self) -> (r: String) {
        self.clone()
    }
}

pub struct StringMap<V: View> {
    entries: Vec<(String, V)>,
    contents: Ghost<Map<Seq<char>, V::V>>,
}

impl<V: View> View for StringMap<V> {
    type V = Map<Seq<char>, V::V>;

    closed spec fn view(&self) -> Map<Seq<char>, V::V> {
        self.contents@
    }
}

/// The keys of a sequence of entries, in order.
pub open spec fn keys_of<V>(entries: Seq<(String, V)>) -> Seq<Seq<char>> {
    entries.map_values(|e: (String, V)| e.0@)
}

/// Entries with distinct keys that hold exactly the pairs of `m`.
pub open spec fn represents<V: View>(entries: Seq<(String, V)>, m: Map<Seq<char>, V::V>) -> bool {
    &&& keys_of(entries).no_duplicates()
    &&& forall|k: Seq<char>| #[trigger] m.contains_key(k) <==> keys_of(entries).contains(k)
    &&& forall|i: int| 0 <= i < entries.len() ==> m[#[trigger] entries[i].0@] == entries[i].1@
}

impl<V: View> StringMap<V> {
    /// The keys, in the order the map keeps them.
    pub closed spec fn key_seq(&self) -> Seq<Seq<char>> {
        keys_of(self.entries@)
    }

    #[verifier::type_invariant]
    closed spec fn well_formed(&self) -> bool {
        represents(self.entries@, self.contents@)
    }

    pub fn new() -> (r: Self)
        ensures
            r@ == Map::<Seq<char>, V::V>::empty(),
            r.key_seq() == Seq::<Seq<char>>::empty(),
    {
        let entries: Vec<(String, V)> = Vec::new();
        assert(keys_of(entries@) =~= Seq::<Seq<char>>::empty());
        StringMap { entries, contents: Ghost(Map::empty()) }
    }

    /// The number of entries; also exposes how the keys relate to the view.
    pub fn len(&self) -> (r: usize)
        ensures
            r == self.key_seq().len(),
            self.key_seq().no_duplicates(),
            forall|k: Seq<char>| #[trigger]
                self@.contains_key(k) <==> self.key_seq().contains(k),
            self@.dom().finite(),
            self@.dom().len() == r,
    {
        proof {
            use_type_invariant(self);
            let keys = self.key_seq();
            assert(self@.dom() =~= keys.to_set());
            keys.unique_seq_to_set();
        }
        self.entries.len()
    }

    /// The position of `key` among the entries, if it is there.
    fn position(&self, key: &String) -> (r: Option<usize>)
        ensures
            r is None <==> !self@.contains_key(key@),
            r matches Some(i) ==> i < self.key_seq().len() && self.key_seq()[i as int] == key@,
    {
        proof {
            use_type_invariant(self);
        }
        let n = self.entries.len();
        let mut i: usize = 0;
        while i < n
            invariant
                n == self.entries@.len(),
                i <= n,
                represents(self.entries@, self.contents@),
                forall|j: int| 0 <= j < i ==> self.key_seq()[j] != key@,
            decreases n - i,
        {
            if self.entries[i].0 == *key {
                assert(self.key_seq()[i as int] == key@);
                assert(self.key_seq().contains(key@));
                return Some(i);
            }
            i = i + 1;
        }
        proof {
            if self.key_seq().contains(key@) {
                let j = choose|j: int| 0 <= j < self.key_seq().len() && self.key_seq()[j] == key@;
                assert(self.key_seq()[j] != key@);
            }
        }
        None
    }

    pub fn contains_key(&self, key: &String) -> (r: bool)
        ensures
            r == self@.contains_key(key@),
    {
        self.position(key).is_some()
    }

    pub fn get(&self, key: &String) -> (r: Option<&V>)
        ensures
            r is Some <==> self@.contains_key(key@),
            r matches Some(v) ==> v@ == self@[key@],
    {
        proof {
            use_type_invariant(self);
        }
        match self.position(key) {
            Some(i) => Some(&self.entries[i].1),
            None => None,
        }
    }

    /// The entry at position `i` of the key order.
    pub fn entry_at(&self, i: usize) -> (r: (&String, &V))
        requires
            i < self.key_seq().len(),
        ensures
            r.0@ == self.key_seq()[i as int],
            self@.contains_key(r.0@),
            r.1@ == self@[r.0@],
    {
        proof {
            use_type_invariant(self);
            assert(self.key_seq().contains(self.key_seq()[i as int]));
        }
        let e = &self.entries[i];
        (&e.0, &e.1)
    }

    /// Moves the entries out, leaving `self` empty.
    fn take_entries(&mut self) -> (r: Vec<(String, V)>)
        ensures
            r@ == old(self).entries@,
            represents(r@, old(self)@),
    {
        proof {
            use_type_invariant(&*self);
        }
        let mut taken = StringMap::new();
        core::mem::swap(self, &mut taken);
        let StringMap { entries, contents: _ } = taken;
        entries
    }

    /// Sets the value of `key`, replacing any earlier one; a new key goes last.
    pub fn insert(&mut self, key: String, value: V)
        ensures
            final(self)@ == old(self)@.insert(key@, value@),
            old(self)@.contains_key(key@) ==> final(self).key_seq() == old(self).key_seq(),
            !old(self)@.contains_key(key@) ==> final(self).key_seq() == old(self).key_seq().push(
                key@,
            ),
    {
        let ghost k = key@;
        let ghost v = value@;
        let ghost old_map = self@;
        let found = self.position(&key);
        let mut entries = self.take_entries();
        let ghost old_entries = entries@;
        let ghost old_keys = keys_of(old_entries);
        let ghost new_map = old_map.insert(k, v);
        match found {
            Some(i) => {
                entries.set(i, (key, value));
                assert(keys_of(entries@) =~= old_keys);
                assert forall|j: int| 0 <= j < entries@.len() implies new_map[
                    #[trigger] entries@[j].0@] == entries@[j].1@ by {
                    if j != i {
                        assert(old_keys[j] != old_keys[i as int]);
                        assert(old_keys[j] == entries@[j].0@);
                    }
                }
                assert forall|x: Seq<char>| #[trigger]
                    new_map.contains_key(x) <==> keys_of(entries@).contains(x) by {
                    if x == k {
                        assert(keys_of(entries@)[i as int] == x);
                    }
                }
            },
            None => {
                entries.push((key, value));
                let ghost new_keys = keys_of(entries@);
                assert(new_keys =~= old_keys.push(k));
                assert forall|j: int| 0 <= j < entries@.len() implies new_map[
                    #[trigger] entries@[j].0@] == entries@[j].1@ by {
                    if j < old_keys.len() {
                        assert(old_keys[j] == entries@[j].0@);
                        assert(old_keys.contains(old_keys[j]));
                    }
                }
                assert forall|x: Seq<char>| #[trigger]
                    new_map.contains_key(x) <==> new_keys.contains(x) by {
                    if old_keys.contains(x) {
                        let j = choose|j: int| 0 <= j < old_keys.len() && old_keys[j] == x;
                        assert(new_keys[j] == x);
                    }
                    if new_keys.contains(x) && x != k {
                        let j = choose|j: int| 0 <= j < new_keys.len() && new_keys[j] == x;
                        assert(old_keys[j] == x);
                    }
                    if x == k {
                        assert(new_keys[old_keys.len() as int] == x);
                    }
                }
            },
        }
        *self = StringMap { entries, contents: Ghost(new_map) };
    }

    /// Takes the entry of `key` out, returning its value if it was there.
    pub fn remove(&mut self, key: &String) -> (r: Option<V>)
        ensures
            final(self)@ == old(self)@.remove(key@),
            r is Some <==> old(self)@.contains_key(key@),
            r matches Some(v) ==> v@ == old(self)@[key@],
    {
        let ghost old_map = self@;
        match self.position(key) {
            Some(i) => {
                let mut entries = self.take_entries();
                let ghost old_entries = entries@;
                let ghost old_keys = keys_of(old_entries);
                let ghost new_map = old_map.remove(key@);
                let (_, v) = entries.remove(i);
                let ghost new_keys = keys_of(entries@);
                assert(new_keys =~= old_keys.remove(i as int));
                assert(old_keys[i as int] == old_entries[i as int].0@);
                assert forall|j: int| 0 <= j < entries@.len() implies new_map[
                    #[trigger] entries@[j].0@] == entries@[j].1@ by {
                    if j < i {
                        assert(old_keys[j] != old_keys[i as int]);
                        assert(old_keys[j] == entries@[j].0@);
                    } else {
                        assert(old_keys[j + 1] != old_keys[i as int]);
                        assert(entries@[j] == old_entries[j + 1]);
                        assert(old_keys[j + 1] == entries@[j].0@);
                    }
                }
                assert forall|x: Seq<char>| #[trigger]
                    new_map.contains_key(x) <==> new_keys.contains(x) by {
                    if new_keys.contains(x) {
                        let j = choose|j: int| 0 <= j < new_keys.len() && new_keys[j] == x;
                        if j < i {
                            assert(old_keys[j] == x);
                            assert(old_keys[j] != old_keys[i as int]);
                        } else {
                            assert(old_keys[j + 1] == x);
                            assert(old_keys[j + 1] != old_keys[i as int]);
                        }
                        assert(old_keys.contains(x));
                    }
                    if new_map.contains_key(x) {
                        assert(old_keys.contains(x));
                        let j = choose|j: int| 0 <= j < old_keys.len() && old_keys[j] == x;
                        assert(j != i);
                        if j < i {
                            assert(new_keys[j] == x);
                        } else {
                            assert(new_keys[j - 1] == x);
                        }
                    }
                }
                *self = StringMap { entries, contents: Ghost(new_map) };
                Some(v)
            },
            None => {
                assert(old_map.remove(key@) =~= old_map);
                None
            },
        }
    }
}

impl<V: Duplicate> Duplicate for StringMap<V> {
    fn duplicate(&self) -> (r: Self) {
        proof {
            use_type_invariant(self);
        }
        let n = self.entries.len();
        let mut entries: Vec<(String, V)> = Vec::new();
        let mut i: usize = 0;
        while i < n
            invariant
                n == self.entries@.len(),
                i <= n,
                entries@.len() == i,
                forall|j: int|
                    0 <= j < i ==> (#[trigger] entries@[j]).0@ == self.entries@[j].0@
                        && entries@[j].1@ == self.entries@[j].1@,
            decreases n - i,
        {
            let e = &self.entries[i];
            entries.push((e.0.clone(), e.1.duplicate()));
            i = i + 1;
        }
        assert(keys_of(entries@) =~= self.key_seq());
        assert forall|j: int| 0 <= j < entries@.len() implies self.contents@[
            #[trigger] entries@[j].0@] == entries@[j].1@ by {
            assert(self.contents@[self.entries@[j].0@] == self.entries@[j].1@);
        }
        StringMap { entries, contents: Ghost(self.contents@) }
    }
}

} // verus!
