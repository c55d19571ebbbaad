//! An insertion-ordered table keyed by name, in which no name occurs twice.

use vstd::prelude::*;

verus! {

/// `<str as PartialEq>::eq` of the standard library: two string slices are
/// equal exactly when they hold the same characters in the same order.
pub assume_specification[ <str as PartialEq>::eq ](a: &str, b: &str) -> (r: bool)
    ensures
        r == (a@ == b@),
;

/// The names of a sequence of entries, in order.
pub open spec fn names_of<T>(entries: Seq<(Seq<char>, T)>) -> Seq<Seq<char>> {
    entries.map_values(|e: (Seq<char>, T)| e.0)
}

/// Values keyed by name. Entries keep the order in which their names were
/// first inserted, and every name occurs once.
pub struct NamedList<T> {
    entries: Vec<(String, T)>,
}

impl<T> View for NamedList<T> {
    type V = Seq<(Seq<char>, T)>;

    closed spec fn view(&self) -> Seq<(Seq<char>, T)> {
        model_of(self.entries@)
    }
}

spec fn model_of<T>(entries: Seq<(String, T)>) -> Seq<(Seq<char>, T)> {
    Seq::new(entries.len(), |i: int| (entries[i].0@, entries[i].1))
}

impl<T> NamedList<T> {
    #[verifier::type_invariant]
    spec fn distinct(&self) -> bool {
        names_of(self@).no_duplicates()
    }

    /// The names in insertion order.
    pub open spec fn names(&self) -> Seq<Seq<char>> {
        names_of(self@)
    }

    /// An empty table.
    pub fn new() -> (out: NamedList<T>)
        ensures
            out@ == Seq::<(Seq<char>, T)>::empty(),
    {
        let out = NamedList { entries: Vec::new() };
        assert(out@ =~= Seq::<(Seq<char>, T)>::empty());
        out
    }

    /// Number of entries.
    pub fn len(&self) -> (n: usize)
        ensures
            n == self@.len(),
            self.names().no_duplicates(),
    {
        proof {
            use_type_invariant(self);
        }
        self.entries.len()
    }

    /// Name of the entry at `index`.
    pub fn name_at(&self, index: usize) -> (name: &str)
        requires
            index < self@.len(),
        ensures
            name@ == self@[index as int].0,
    {
        self.entries[index].0.as_str()
    }

    /// Value of the entry at `index`.
    pub fn value_at(&self, index: usize) -> (value: &T)
        requires
            index < self@.len(),
        ensures
            *value == self@[index as int].1,
    {
        &self.entries[index].1
    }

    /// Where `name` stands in the table, or `None` when it is absent.
    pub fn find(&self, name: &str) -> (found: Option<usize>)
        ensures
            match found {
                Some(i) => i < self@.len() && self@[i as int].0 == name@,
                None => !self.names().contains(name@),
            },
            self.names().no_duplicates(),
    {
        proof {
            use_type_invariant(self);
        }
        let mut i: usize = 0;
        while i < self.entries.len()
            invariant
                i <= self.entries@.len(),
                self@.len() == self.entries@.len(),
                self.names().no_duplicates(),
                forall|k: int| 0 <= k < i ==> (#[trigger] self@[k]).0 != name@,
            decreases self.entries@.len() - i,
        {
            if *self.entries[i].0.as_str() == *name {
                return Some(i);
            }
            i += 1;
        }
        assert(!self.names().contains(name@)) by {
            if self.names().contains(name@) {
                let k = choose|k: int| 0 <= k < self.names().len() && self.names()[k] == name@;
                assert(self@[k].0 == name@);
            }
        }
        None
    }

    /// The value stored under `name`, or `None` when the name is absent.
    pub fn get(&self, name: &str) -> (value: Option<&T>)
        ensures
            match value {
                Some(v) => self.names().contains(name@) && *v == self@[self.names().index_of(
                    name@,
                )].1,
                None => !self.names().contains(name@),
            },
    {
        match self.find(name) {
            Some(i) => {
                proof {
                    assert(self.names()[i as int] == name@);
                    self.names().index_of_first_ensures(name@);
                    let j = self.names().index_of(name@);
                    assert(self.names()[j] == name@);
                    assert(j == i);
                }
                Some(&self.entries[i].1)
            },
            None => None,
        }
    }

    /// Stores `value` under `name`. A new name goes to the end; a name that
    /// is already present keeps its place and gets the new value. Returns
    /// whether the name was new.
    pub fn insert(&mut self, name: String, value: T) -> (added: bool)
        ensures
            added == !old(self).names().contains(name@),
            added ==> final(self)@ == old(self)@.push((name@, value)),
            !added ==> final(self)@ == old(self)@.update(
                old(self).names().index_of(name@),
                (name@, value),
            ),
    {
        proof {
            use_type_invariant(&*self);
        }
        let ghost before = self@;
        match self.find(name.as_str()) {
            Some(i) => {
                proof {
                    assert(names_of(before)[i as int] == name@);
                    let j = names_of(before).index_of(name@);
                    assert(names_of(before).contains(name@));
                    assert(names_of(before)[j] == name@);
                    assert(j == i);
                }
                let mut taken = NamedList::new();
                core::mem::swap(self, &mut taken);
                let mut entries = taken.entries;
                entries.set(i, (name, value));
                proof {
                    assert(model_of(entries@) =~= before.update(i as int, (name@, value)));
                    assert(names_of(model_of(entries@)) =~= names_of(before));
                }
                *self = NamedList { entries };
                false
            },
            None => {
                let mut taken = NamedList::new();
                core::mem::swap(self, &mut taken);
                let mut entries = taken.entries;
                entries.push((name, value));
                proof {
                    assert(model_of(entries@) =~= before.push((name@, value)));
                    assert(names_of(model_of(entries@)) =~= names_of(before).push(name@));
                }
                *self = NamedList { entries };
                true
            },
        }
    }
}

} // verus!
