//! A map from names to values, kept as a list in which no name stands twice.

use vstd::prelude::*;
use crate::text::same_text;

verus! {

/// A finite map keyed by name.
#[derive(Debug)]
pub struct NameMap<V> {
    entries: Vec<(String, V)>,
}

/// The names of a list of entries, in its order.
pub open spec fn names_of<V>(pairs: Seq<(String, V)>) -> Seq<Seq<char>> {
    Seq::new(pairs.len(), |i: int| pairs[i].0@)
}

impl<V> View for NameMap<V> {
    type V = Map<Seq<char>, V>;

    /// The map: each name with the value that stands beside it.
    open spec fn view(&self) -> Map<Seq<char>, V> {
        Map::new(
            |name: Seq<char>| self.names().contains(name),
            |name: Seq<char>| self.pairs()[self.names().index_of(name)].1,
        )
    }
}

impl<V> NameMap<V> {
    /// The entries in the order in which they are kept.
    pub closed spec fn pairs(&self) -> Seq<(String, V)> {
        self.entries@
    }

    /// The names in the order in which they are kept.
    pub open spec fn names(&self) -> Seq<Seq<char>> {
        names_of(self.pairs())
    }

    /// No name stands twice. This holds of every map that code can hold.
    #[verifier::type_invariant]
    pub open spec fn well_formed(&self) -> bool {
        self.names().no_duplicates()
    }

    /// In a well-formed map the entry at `i` is what the map gives its name.
    pub proof fn lemma_entry(&self, i: int)
        requires
            self.well_formed(),
            0 <= i < self.pairs().len(),
        ensures
            self@.contains_key(self.pairs()[i].0@),
            self@[self.pairs()[i].0@] == self.pairs()[i].1,
            self.names().index_of(self.pairs()[i].0@) == i,
    {
        let names = self.names();
        assert(names[i] == self.pairs()[i].0@);
        names.index_of_first_ensures(names[i]);
        let j = names.index_of(names[i]);
        assert(0 <= j < names.len() && names[j] == names[i]);
    }

    /// A name of the map stands at some place of the list.
    pub proof fn lemma_place(&self, name: Seq<char>)
        requires
            self@.contains_key(name),
        ensures
            0 <= self.names().index_of(name) < self.pairs().len(),
            self.pairs()[self.names().index_of(name)].0@ == name,
            self@[name] == self.pairs()[self.names().index_of(name)].1,
    {
        let names = self.names();
        let j = choose|j: int| 0 <= j < names.len() && names[j] == name;
        assert(names.contains(name));
    }

    /// A well-formed map has as many names as the list has entries.
    pub proof fn lemma_len(&self)
        requires
            self.well_formed(),
        ensures
            self@.dom().finite(),
            self@.dom().len() == self.pairs().len(),
    {
        let names = self.names();
        names.unique_seq_to_set();
        assert(self@.dom() =~= names.to_set());
    }

    pub fn new() -> (r: Self)
        ensures
            r@ == Map::<Seq<char>, V>::empty(),
            r.pairs().len() == 0,
    {
        let r = NameMap { entries: Vec::new() };
        assert(r@ =~= Map::<Seq<char>, V>::empty());
        r
    }

    /// The number of names.
    pub fn len(&self) -> (n: usize)
        ensures
            n == self.pairs().len(),
            n == self@.dom().len(),
            self@.dom().finite(),
            self.well_formed(),
    {
        proof {
            use_type_invariant(self);
            self.lemma_len();
        }
        self.entries.len()
    }

    /// The entries, to walk through them.
    pub fn entries(&self) -> (r: &Vec<(String, V)>)
        ensures
            r@ == self.pairs(),
            self.well_formed(),
    {
        proof {
            use_type_invariant(self);
        }
        &self.entries
    }

    /// The place of `name` in the list, if it has one.
    fn position(&self, name: &str) -> (r: Option<usize>)
        ensures
            self.well_formed(),
            match r {
                Some(i) => i < self.pairs().len() && self.pairs()[i as int].0@ == name@,
                None => !self@.contains_key(name@),
            },
    {
        proof {
            use_type_invariant(self);
        }
        let mut i: usize = 0;
        while i < self.entries.len()
            invariant
                i <= self.entries.len(),
                self.well_formed(),
                forall|k: int| 0 <= k < i ==> self.pairs()[k].0@ != name@,
            decreases self.entries.len() - i,
        {
            if same_text(self.entries[i].0.as_str(), name) {
                return Some(i);
            }
            i += 1;
        }
        proof {
            if self@.contains_key(name@) {
                self.lemma_place(name@);
            }
        }
        None
    }

    /// The value that stands beside `name`.
    pub fn get(&self, name: &str) -> (r: Option<&V>)
        ensures
            match r {
                Some(v) => self@.contains_key(name@) && *v == self@[name@],
                None => !self@.contains_key(name@),
            },
    {
        match self.position(name) {
            Some(i) => {
                proof {
                    self.lemma_entry(i as int);
                }
                Some(&self.entries[i].1)
            },
            None => None,
        }
    }

    /// Whether `name` is in the map.
    pub fn contains(&self, name: &str) -> (r: bool)
        ensures
            r == self@.contains_key(name@),
    {
        match self.position(name) {
            Some(i) => {
                proof {
                    self.lemma_entry(i as int);
                }
                true
            },
            None => false,
        }
    }

    /// Puts `value` beside `name`, in place of what stood there.
    pub fn insert(&mut self, name: String, value: V)
        ensures
            final(self)@ == old(self)@.insert(name@, value),
    {
        let found = self.position(name.as_str());
        let ghost before = *self;
        let mut entries: Vec<(String, V)> = Vec::new();
        std::mem::swap(&mut entries, &mut self.entries);
        match found {
            Some(i) => {
                entries.set(i, (name, value));
                assert(names_of(entries@) =~= before.names());
                self.entries = entries;
                proof {
                    assert(self.names() == before.names());
                    assert(self.pairs() == before.pairs().update(i as int, (name, value)));
                    before.lemma_entry(i as int);
                    assert(self@.dom() =~= before@.insert(name@, value).dom());
                    assert forall|k: Seq<char>| self@.contains_key(k) implies #[trigger] self@[k]
                        == before@.insert(name@, value)[k] by {
                        self.lemma_place(k);
                        let j = self.names().index_of(k);
                        before.lemma_entry(j);
                        before.lemma_entry(i as int);
                        if j == i {
                            assert(k == name@);
                        } else {
                            assert(before.names()[j] != before.names()[i as int]);
                        }
                    }
                    assert(self@ =~= before@.insert(name@, value));
                }
            },
            None => {
                entries.push((name, value));
                proof {
                    assert(names_of(entries@) =~= before.names().push(name@));
                    assert(!before.names().contains(name@));
                }
                self.entries = entries;
                proof {
                    let n = before.pairs().len() as int;
                    assert forall|k: Seq<char>| self@.contains_key(k) implies #[trigger] self@[k]
                        == before@.insert(name@, value)[k] by {
                        self.lemma_place(k);
                        let j = self.names().index_of(k);
                        if j < n {
                            before.lemma_entry(j);
                        } else {
                            self.lemma_entry(n);
                        }
                    }
                    assert forall|k: Seq<char>| before@.insert(name@, value).contains_key(k)
                        implies self@.contains_key(k) by {
                        if k == name@ {
                            assert(self.names()[n] == k);
                        } else {
                            before.lemma_place(k);
                            let j = before.names().index_of(k);
                            assert(self.names()[j] == k);
                        }
                    }
                    assert(self@ =~= before@.insert(name@, value));
                }
            },
        }
    }

    /// Takes `name` out of the map, with what stood beside it.
    pub fn remove(&mut self, name: &str) -> (r: Option<V>)
        ensures
            final(self)@ == old(self)@.remove(name@),
            match r {
                Some(v) => old(self)@.contains_key(name@) && v == old(self)@[name@],
                None => !old(self)@.contains_key(name@),
            },
    {
        let found = self.position(name);
        let ghost before = *self;
        match found {
            Some(i) => {
                let mut entries: Vec<(String, V)> = Vec::new();
                std::mem::swap(&mut entries, &mut self.entries);
                let entry = entries.remove(i);
                proof {
                    before.lemma_entry(i as int);
                    assert(names_of(entries@) =~= before.names().remove(i as int));
                    assert forall|a: int, b: int|
                        0 <= a < b < entries@.len() implies names_of(entries@)[a] != names_of(
                        entries@,
                    )[b] by {
                        let x = if a < i { a } else { a + 1 };
                        let y = if b < i { b } else { b + 1 };
                        assert(names_of(entries@)[a] == before.names()[x]);
                        assert(names_of(entries@)[b] == before.names()[y]);
                    }
                }
                self.entries = entries;
                proof {
                    assert forall|k: Seq<char>| self@.contains_key(k) implies before@.remove(
                        name@,
                    ).contains_key(k) && #[trigger] self@[k] == before@.remove(name@)[k] by {
                        self.lemma_place(k);
                        let j = self.names().index_of(k);
                        let x = if j < i { j } else { j + 1 };
                        assert(self.pairs()[j] == before.pairs()[x]);
                        before.lemma_entry(x);
                        assert(before.names()[x] != before.names()[i as int]);
                    }
                    assert forall|k: Seq<char>| before@.remove(name@).contains_key(k)
                        implies self@.contains_key(k) by {
                        before.lemma_place(k);
                        let x = before.names().index_of(k);
                        let j = if x < i { x } else { x - 1 };
                        assert(self.names()[j] == k);
                    }
                    assert(self@ =~= before@.remove(name@));
                }
                Some(entry.1)
            },
            None => {
                assert(self@ =~= before@.remove(name@));
                None
            },
        }
    }
}

/// A finite set of names.
#[derive(Debug)]
pub struct NameSet {
    names: NameMap<()>,
}

impl View for NameSet {
    type V = Set<Seq<char>>;

    closed spec fn view(&self) -> Set<Seq<char>> {
        self.names@.dom()
    }
}

impl NameSet {
    pub fn new() -> (r: Self)
        ensures
            r@ == Set::<Seq<char>>::empty(),
    {
        let r = NameSet { names: NameMap::new() };
        assert(r@ =~= Set::<Seq<char>>::empty());
        r
    }

    /// Adds `name` to the set.
    pub fn insert(&mut self, name: String)
        ensures
            final(self)@ == old(self)@.insert(name@),
    {
        self.names.insert(name, ());
        assert(self@ =~= old(self)@.insert(name@));
    }

    /// Whether `name` is in the set.
    pub fn contains(&self, name: &str) -> (r: bool)
        ensures
            r == self@.contains(name@),
    {
        self.names.contains(name)
    }

    /// The number of names in the set.
    pub fn len(&self) -> (n: usize)
        ensures
            self@.finite(),
            n == self@.len(),
    {
        self.names.len()
    }
}

} // verus!
