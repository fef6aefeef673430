//! String collections with a mathematical view.
//!
//! Instances carry a set of state names and a map of context entries.  Both
//! are kept here as vectors in which no string (no key) occurs twice, so that
//! every operation on them is verified against a `Set` or `Map` view.
use vstd::prelude::*;

verus! {

/// A set of strings, stored in a vector in which no string occurs twice.
#[derive(Debug)]
pub struct StringSet {
    items: Vec<String>,
}

impl StringSet {
    /// The strings of the set, in the order in which they are stored.
    pub closed spec fn elements(&self) -> Seq<Seq<char>> {
        self.items@.map_values(|s: String| s@)
    }

    /// No string occurs twice.
    #[verifier::type_invariant]
    closed spec fn distinct(&self) -> bool {
        self.elements().no_duplicates()
    }
}

impl View for StringSet {
    type V = Set<Seq<char>>;

    closed spec fn view(&self) -> Set<Seq<char>> {
        self.elements().to_set()
    }
}

impl Clone for StringSet {
    fn clone(&self) -> (r: StringSet)
        ensures
            r@ == self@,
    {
        self.duplicate()
    }
}

/// The strings of a vector, each taken by its view.
pub open spec fn string_views(v: Seq<String>) -> Seq<Seq<char>> {
    v.map_values(|s: String| s@)
}

impl StringSet {
    /// The view of a duplicate-free sequence holds exactly its strings, and
    /// has as many members as the sequence has elements.
    proof fn lemma_distinct_elements(elements: Seq<Seq<char>>)
        requires
            elements.no_duplicates(),
        ensures
            forall|e: Seq<char>| #[trigger] elements.to_set().contains(e) <==> elements.contains(e),
            elements.to_set().finite(),
            elements.to_set().len() == elements.len(),
    {
        elements.unique_seq_to_set();
    }

    /// An element of the set's storage is in its view.
    pub proof fn lemma_view_contains(&self, i: int)
        requires
            0 <= i < self.elements().len(),
        ensures
            self@.contains(self.elements()[i]),
    {
        assert(self.elements().contains(self.elements()[i]));
    }

    /// Every string of the set's view is stored at some position.
    pub proof fn lemma_view_elements(&self)
        ensures
            forall|e: Seq<char>| #[trigger]
                self@.contains(e) ==> exists|j: int|
                    0 <= j < self.elements().len() && self.elements()[j] == e,
    {
    }

    /// The empty set.
    pub fn new() -> (r: StringSet)
        ensures
            r@ == Set::<Seq<char>>::empty(),
            r.elements() == Seq::<Seq<char>>::empty(),
    {
        let r = StringSet { items: Vec::new() };
        assert(r.elements() =~= Seq::<Seq<char>>::empty());
        assert(r@ =~= Set::<Seq<char>>::empty());
        r
    }

    /// The number of strings in the set.
    pub fn len(&self) -> (r: usize)
        ensures
            r == self@.len(),
            r == self.elements().len(),
    {
        proof {
            use_type_invariant(self);
            Self::lemma_distinct_elements(self.elements());
        }
        self.items.len()
    }

    /// The string stored at position `i`.
    pub fn get(&self, i: usize) -> (r: &String)
        requires
            i < self.elements().len(),
        ensures
            r@ == self.elements()[i as int],
    {
        &self.items[i]
    }

    /// Whether `k` is in the set.
    pub fn contains(&self, k: &String) -> (r: bool)
        ensures
            r == self@.contains(k@),
    {
        proof {
            use_type_invariant(self);
            Self::lemma_distinct_elements(self.elements());
        }
        let n = self.items.len();
        let mut i: usize = 0;
        while i < n
            invariant
                n == self.elements().len(),
                i <= n,
                forall|j: int| 0 <= j < i ==> self.elements()[j] != k@,
            decreases n - i,
        {
            if self.items[i] == *k {
                assert(self.elements()[i as int] == k@);
                return true;
            }
            i = i + 1;
        }
        false
    }

    /// Adds `k`; tells whether it was not there before.
    pub fn insert(&mut self, k: String) -> (r: bool)
        ensures
            final(self)@ == old(self)@.insert(k@),
            r == !old(self)@.contains(k@),
    {
        if self.contains(&k) {
            proof {
                assert(self@.insert(k@) =~= self@);
            }
            false
        } else {
            proof {
                use_type_invariant(&*self);
                Self::lemma_distinct_elements(self.elements());
            }
            let ghost old_elements = self.elements();
            let mut items = self.items.clone();
            proof {
                assert(string_views(items@) =~= old_elements);
            }
            items.push(k);
            let ghost new_elements = string_views(items@);
            assert(new_elements =~= old_elements.push(k@));
            assert(new_elements.no_duplicates());
            *self = StringSet { items };
            proof {
                assert(self@ =~= old(self)@.insert(k@)) by {
                    assert forall|e: Seq<char>| #[trigger] self@.contains(e) <==> old(self)@.insert(
                        k@,
                    ).contains(e) by {
                        if e == k@ {
                            assert(new_elements[old_elements.len() as int] == e);
                        } else if old_elements.contains(e) {
                            let j = choose|j: int| 0 <= j < old_elements.len() && old_elements[j] == e;
                            assert(new_elements[j] == e);
                        }
                    }
                }
            }
            true
        }
    }

    /// Removes `k`; tells whether it was there before.
    pub fn remove(&mut self, k: &String) -> (r: bool)
        ensures
            final(self)@ == old(self)@.remove(k@),
            r == old(self)@.contains(k@),
    {
        proof {
            use_type_invariant(&*self);
            Self::lemma_distinct_elements(self.elements());
        }
        let ghost old_elements = self.elements();
        let n = self.items.len();
        let mut kept: Vec<String> = Vec::new();
        let mut found = false;
        let mut i: usize = 0;
        while i < n
            invariant
                n == old_elements.len(),
                old_elements == self.elements(),
                old_elements.no_duplicates(),
                i <= n,
                found <==> old_elements.take(i as int).contains(k@),
                string_views(kept@).no_duplicates(),
                string_views(kept@).to_set() == old_elements.take(i as int).to_set().remove(k@),
            decreases n - i,
        {
            let item = self.items[i].clone();
            let ghost before = string_views(kept@);
            proof {
                let prefix = old_elements.take(i as int);
                assert(old_elements.take(i + 1) =~= prefix.push(item@));
                assert(item@ == old_elements[i as int]);
                assert(!prefix.contains(item@));
                prefix.lemma_push_to_set_commute(item@);
                assert(prefix.push(item@)[i as int] == item@);
                assert(old_elements.take(i + 1).contains(k@) <==> (prefix.contains(k@) || item@
                    == k@)) by {
                    if prefix.contains(k@) {
                        let j = choose|j: int| 0 <= j < prefix.len() && prefix[j] == k@;
                        assert(prefix.push(item@)[j] == k@);
                    }
                }
            }
            if item == *k {
                found = true;
                proof {
                    assert(old_elements.take(i + 1).to_set().remove(k@) =~= old_elements.take(
                        i as int,
                    ).to_set().remove(k@));
                }
            } else {
                kept.push(item);
                proof {
                    let after = string_views(kept@);
                    assert(after =~= before.push(item@));
                    before.lemma_push_to_set_commute(item@);
                    assert(!before.contains(item@)) by {
                        if before.contains(item@) {
                            assert(before.to_set().contains(item@));
                        }
                    }
                    assert(after.to_set() =~= old_elements.take(i + 1).to_set().remove(k@));
                }
            }
            i = i + 1;
        }
        proof {
            assert(old_elements.take(n as int) =~= old_elements);
        }
        *self = StringSet { items: kept };
        proof {
            assert(self@ =~= old(self)@.remove(k@));
        }
        found
    }

    /// A copy of the set, element for element.
    pub fn duplicate(&self) -> (r: StringSet)
        ensures
            r@ == self@,
            r.elements() == self.elements(),
    {
        proof {
            use_type_invariant(self);
        }
        let items = self.items.clone();
        proof {
            assert(string_views(items@) =~= self.elements());
        }
        StringSet { items }
    }

    /// The strings of the set as a vector, in storage order.
    pub fn to_vec(&self) -> (r: Vec<String>)
        ensures
            string_views(r@) == self.elements(),
    {
        let r = self.items.clone();
        proof {
            assert(string_views(r@) =~= self.elements());
        }
        r
    }

    /// The set of the strings of `v`; a string that occurs more than once in
    /// `v` is kept once.
    pub fn from_vec(v: Vec<String>) -> (r: StringSet)
        ensures
            r@ == string_views(v@).to_set(),
    {
        let mut r = StringSet::new();
        let n = v.len();
        let mut i: usize = 0;
        while i < n
            invariant
                n == v.len(),
                i <= n,
                r@ == string_views(v@).take(i as int).to_set(),
            decreases n - i,
        {
            let s = v[i].clone();
            r.insert(s);
            proof {
                assert(string_views(v@).take(i + 1) =~= string_views(v@).take(i as int).push(
                    v@[i as int]@,
                ));
                string_views(v@).take(i as int).lemma_push_to_set_commute(v@[i as int]@);
            }
            i = i + 1;
        }
        proof {
            assert(string_views(v@).take(n as int) =~= string_views(v@));
        }
        r
    }
}

/// A map from strings to strings, stored as two vectors of equal length: the
/// keys, in which no key occurs twice, and the value of each key at the same
/// position.
#[derive(Debug)]
pub struct StringMap {
    keys: Vec<String>,
    values: Vec<String>,
}

impl StringMap {
    /// The keys, in storage order.
    pub closed spec fn key_views(&self) -> Seq<Seq<char>> {
        string_views(self.keys@)
    }

    /// The values, in the order of their keys.
    pub closed spec fn value_views(&self) -> Seq<Seq<char>> {
        string_views(self.values@)
    }

    /// Every key has one value, and no key occurs twice.
    #[verifier::type_invariant]
    closed spec fn well_formed(&self) -> bool {
        &&& self.keys@.len() == self.values@.len()
        &&& self.key_views().no_duplicates()
    }
}

impl View for StringMap {
    type V = Map<Seq<char>, Seq<char>>;

    closed spec fn view(&self) -> Map<Seq<char>, Seq<char>> {
        Map::new(
            |k: Seq<char>| self.key_views().contains(k),
            |k: Seq<char>| self.value_views()[self.key_views().index_of(k)],
        )
    }
}

impl Clone for StringMap {
    fn clone(&self) -> (r: StringMap)
        ensures
            r@ == self@,
    {
        self.duplicate()
    }
}

impl StringMap {
    /// In a duplicate-free sequence, the index of an element is the position
    /// at which it stands.
    proof fn lemma_index_of_distinct(s: Seq<Seq<char>>, j: int)
        requires
            s.no_duplicates(),
            0 <= j < s.len(),
        ensures
            s.index_of(s[j]) == j,
    {
        assert(s.contains(s[j]));
    }

    /// The empty map.
    pub fn new() -> (r: StringMap)
        ensures
            r@ == Map::<Seq<char>, Seq<char>>::empty(),
    {
        let r = StringMap { keys: Vec::new(), values: Vec::new() };
        assert(r.key_views() =~= Seq::<Seq<char>>::empty());
        assert(r@ =~= Map::<Seq<char>, Seq<char>>::empty());
        r
    }

    /// The position of `k` among the keys, if it is a key.
    fn position(&self, k: &String) -> (r: Option<usize>)
        ensures
            match r {
                Some(j) => j < self.key_views().len() && self.key_views()[j as int] == k@,
                None => !self.key_views().contains(k@),
            },
    {
        let n = self.keys.len();
        let mut i: usize = 0;
        while i < n
            invariant
                n == self.key_views().len(),
                i <= n,
                forall|j: int| 0 <= j < i ==> self.key_views()[j] != k@,
            decreases n - i,
        {
            if self.keys[i] == *k {
                return Some(i);
            }
            i = i + 1;
        }
        None
    }

    /// Whether `k` is a key of the map.
    pub fn contains_key(&self, k: &String) -> (r: bool)
        ensures
            r == self@.contains_key(k@),
    {
        match self.position(k) {
            Some(_) => true,
            None => false,
        }
    }

    /// The value of `k`, if it is a key.
    pub fn get(&self, k: &String) -> (r: Option<&String>)
        ensures
            match r {
                Some(v) => self@.contains_key(k@) && v@ == self@[k@],
                None => !self@.contains_key(k@),
            },
    {
        proof {
            use_type_invariant(self);
        }
        match self.position(k) {
            Some(j) => {
                proof {
                    Self::lemma_index_of_distinct(self.key_views(), j as int);
                }
                Some(&self.values[j])
            },
            None => None,
        }
    }

    /// The number of keys.
    pub fn len(&self) -> (r: usize)
        ensures
            r == self@.len(),
    {
        proof {
            use_type_invariant(self);
            self.key_views().unique_seq_to_set();
            assert(self@.dom() =~= self.key_views().to_set());
        }
        self.keys.len()
    }

    /// The key stored at position `i`, with its value.
    pub fn entry(&self, i: usize) -> (r: (&String, &String))
        requires
            i < self@.len(),
        ensures
            r.0@ == self.key_views()[i as int],
            self@.contains_key(r.0@),
            self@[r.0@] == r.1@,
    {
        proof {
            use_type_invariant(self);
            self.key_views().unique_seq_to_set();
            assert(self@.dom() =~= self.key_views().to_set());
            Self::lemma_index_of_distinct(self.key_views(), i as int);
            assert(self.key_views().contains(self.key_views()[i as int]));
        }
        (&self.keys[i], &self.values[i])
    }

    /// Sets the value of `k` to `v`, adding `k` when it is not a key yet.
    pub fn insert(&mut self, k: String, v: String)
        ensures
            final(self)@ == old(self)@.insert(k@, v@),
    {
        proof {
            use_type_invariant(&*self);
        }
        let ghost old_keys = self.key_views();
        let ghost old_values = self.value_views();
        let mut keys = self.keys.clone();
        let mut values = self.values.clone();
        proof {
            assert(string_views(keys@) =~= old_keys);
            assert(string_views(values@) =~= old_values);
        }
        match self.position(&k) {
            Some(j) => {
                values.set(j, v);
                proof {
                    assert(string_views(values@) =~= old_values.update(j as int, v@));
                }
                *self = StringMap { keys, values };
                proof {
                    assert forall|key: Seq<char>| #[trigger] self@.contains_key(key) implies self@[key]
                        == old(self)@.insert(k@, v@)[key] by {
                        let i = old_keys.index_of(key);
                        if key != k@ {
                            assert(old_keys.contains(key));
                            assert(i != j);
                        } else {
                            Self::lemma_index_of_distinct(old_keys, j as int);
                        }
                    }
                    assert(self@ =~= old(self)@.insert(k@, v@));
                }
            },
            None => {
                let ghost n = old_keys.len();
                keys.push(k);
                values.push(v);
                let ghost new_keys = string_views(keys@);
                let ghost new_values = string_views(values@);
                proof {
                    assert(new_keys =~= old_keys.push(k@));
                    assert(new_values =~= old_values.push(v@));
                    assert(new_keys.no_duplicates());
                }
                *self = StringMap { keys, values };
                proof {
                    assert forall|key: Seq<char>| #[trigger] self@.contains_key(key) <==> old(
                        self,
                    )@.insert(k@, v@).contains_key(key) by {
                        if old_keys.contains(key) {
                            let i = choose|i: int| 0 <= i < old_keys.len() && old_keys[i] == key;
                            assert(new_keys[i] == key);
                        }
                        if key == k@ {
                            assert(new_keys[n as int] == key);
                        }
                        if new_keys.contains(key) && key != k@ {
                            let i = choose|i: int| 0 <= i < new_keys.len() && new_keys[i] == key;
                            assert(i < n);
                            assert(old_keys[i] == key);
                        }
                    }
                    assert forall|key: Seq<char>| #[trigger] self@.contains_key(key) implies self@[key]
                        == old(self)@.insert(k@, v@)[key] by {
                        if key == k@ {
                            Self::lemma_index_of_distinct(new_keys, n as int);
                        } else {
                            let i = old_keys.index_of(key);
                            assert(old_keys.contains(key));
                            assert(new_keys[i] == key);
                            Self::lemma_index_of_distinct(new_keys, i);
                            Self::lemma_index_of_distinct(old_keys, i);
                        }
                    }
                    assert(self@ =~= old(self)@.insert(k@, v@));
                }
            },
        }
    }

    /// A copy of the map, entry for entry.
    pub fn duplicate(&self) -> (r: StringMap)
        ensures
            r@ == self@,
    {
        proof {
            use_type_invariant(self);
        }
        let keys = self.keys.clone();
        let values = self.values.clone();
        let r = StringMap { keys, values };
        proof {
            assert(r.key_views() =~= self.key_views());
            assert(r.value_views() =~= self.value_views());
            assert(r@ =~= self@);
        }
        r
    }
}

} // verus!
