//! Values by name.
use vstd::prelude::*;
use crate::text;

verus! {

/// Values by name, each name once, in the order in which the names were first given.
#[verifier::reject_recursive_types(V)]
pub struct NameMap<V> {
    entries: Vec<(String, V)>,
}

spec fn named_at<V>(entries: Seq<(String, V)>, name: Seq<char>, i: int) -> bool {
    0 <= i < entries.len() && entries[i].0@ == name
}

spec fn names_distinct<V>(entries: Seq<(String, V)>) -> bool {
    forall|i: int, j: int|
        0 <= i < j < entries.len() ==> (#[trigger] entries[i]).0@ != (#[trigger] entries[j]).0@
}

spec fn entry_map<V>(entries: Seq<(String, V)>) -> Map<Seq<char>, V> {
    Map::new(
        |name: Seq<char>| exists|i: int| named_at(entries, name, i),
        |name: Seq<char>| entries[choose|i: int| named_at(entries, name, i)].1,
    )
}

proof fn lemma_named_at<V>(entries: Seq<(String, V)>, i: int)
    requires
        names_distinct(entries),
        0 <= i < entries.len(),
    ensures
        entry_map(entries).dom().contains(entries[i].0@),
        entry_map(entries)[entries[i].0@] == entries[i].1,
{
    let name = entries[i].0@;
    assert(named_at(entries, name, i));
    let j = choose|j: int| named_at(entries, name, j);
    assert(named_at(entries, name, j));
    if i < j {
        assert(entries[i].0@ != entries[j].0@);
    } else if j < i {
        assert(entries[j].0@ != entries[i].0@);
    }
}

impl<V> View for NameMap<V> {
    type V = Map<Seq<char>, V>;

    closed spec fn view(&self) -> Map<Seq<char>, V> {
        entry_map(self.entries@)
    }
}

impl<V> NameMap<V> {
    #[verifier::type_invariant]
    spec fn each_name_once(self) -> bool {
        names_distinct(self.entries@)
    }

    /// The names, in order.
    pub closed spec fn order(self) -> Seq<Seq<char>> {
        Seq::new(self.entries@.len(), |i: int| self.entries@[i].0@)
    }

    /// No values.
    pub fn new() -> (map: NameMap<V>)
        ensures
            map@ == Map::<Seq<char>, V>::empty(),
            map.order() == Seq::<Seq<char>>::empty(),
    {
        let map = NameMap { entries: Vec::new() };
        assert(map@ =~= Map::<Seq<char>, V>::empty());
        map
    }

    fn position(&self, name: &str) -> (at: Option<usize>)
        ensures
            match at {
                Some(i) => named_at(self.entries@, name@, i as int),
                None => forall|i: int| !named_at(self.entries@, name@, i),
            },
    {
        let mut i: usize = 0;
        while i < self.entries.len()
            invariant
                i <= self.entries.len(),
                forall|j: int| 0 <= j < i ==> !named_at(self.entries@, name@, j),
            decreases self.entries.len() - i,
        {
            if text::same_text(self.entries[i].0.as_str(), name) {
                return Some(i);
            }
            i = i + 1;
        }
        None
    }

    /// The value of a name.
    pub fn get(&self, name: &str) -> (value: Option<&V>)
        ensures
            match value {
                Some(v) => self@.dom().contains(name@) && self@[name@] == *v,
                None => !self@.dom().contains(name@),
            },
    {
        proof {
            use_type_invariant(self);
        }
        match self.position(name) {
            Some(i) => {
                proof {
                    lemma_named_at(self.entries@, i as int);
                }
                Some(&self.entries[i].1)
            },
            None => None,
        }
    }

    /// Gives a name its value. A name that is new comes last.
    pub fn insert(&mut self, name: &str, value: V)
        ensures
            final(self)@ == old(self)@.insert(name@, value),
            final(self).order() == if old(self)@.dom().contains(name@) {
                old(self).order()
            } else {
                old(self).order().push(name@)
            },
    {
        proof {
            use_type_invariant(&*self);
        }
        let at = self.position(name);
        let ghost before = self.entries@;
        let mut entries: Vec<(String, V)> = Vec::new();
        std::mem::swap(&mut entries, &mut self.entries);
        match at {
            Some(i) => {
                entries.set(i, (name.to_owned(), value));
            },
            None => {
                entries.push((name.to_owned(), value));
            },
        }
        proof {
            let after = entries@;
            let k = match at {
                Some(i) => i as int,
                None => before.len() as int,
            };
            assert forall|i: int, j: int| 0 <= i < j < after.len() implies (#[trigger] after[i]).0@
                != (#[trigger] after[j]).0@ by {
                if at is None {
                    assert(!named_at(before, name@, i));
                }
            }
            let want = entry_map(before).insert(name@, value);
            assert forall|n: Seq<char>| entry_map(after).dom().contains(n) <==> want.dom().contains(
                n,
            ) by {
                if entry_map(after).dom().contains(n) && n != name@ {
                    let i = choose|i: int| named_at(after, n, i);
                    assert(named_at(before, n, i));
                }
                if entry_map(before).dom().contains(n) {
                    let i = choose|i: int| named_at(before, n, i);
                    assert(named_at(after, n, i));
                }
                if n == name@ {
                    assert(named_at(after, n, k));
                }
            }
            assert forall|n: Seq<char>| entry_map(after).dom().contains(n) implies entry_map(
                after,
            )[n] == want[n] by {
                if n == name@ {
                    lemma_named_at(after, k);
                } else {
                    let i = choose|i: int| named_at(after, n, i);
                    lemma_named_at(after, i);
                    lemma_named_at(before, i);
                }
            }
            assert(entry_map(after) =~= want);
            if at is Some {
                assert(entry_map(before).dom().contains(name@)) by {
                    assert(named_at(before, name@, k));
                }
            }
        }
        self.entries = entries;
        proof {
            if at is Some {
                assert(self.order() =~= old(self).order());
            } else {
                assert(!old(self)@.dom().contains(name@));
                assert(self.order() =~= old(self).order().push(name@));
            }
        }
    }

    /// Exchanges the value of a name for another, if the name is there, and tells whether it is.
    pub fn exchange(&mut self, name: &str, value: &mut V) -> (found: bool)
        ensures
            found == old(self)@.dom().contains(name@),
            final(self).order() == old(self).order(),
            found ==> final(self)@ == old(self)@.insert(name@, *old(value)) && *final(value)
                == old(self)@[name@],
            !found ==> final(self)@ == old(self)@ && *final(value) == *old(value),
    {
        proof {
            use_type_invariant(&*self);
        }
        let at = self.position(name);
        let ghost before = self.entries@;
        let found = match at {
            Some(i) => {
                let mut entries: Vec<(String, V)> = Vec::new();
                std::mem::swap(&mut entries, &mut self.entries);
                std::mem::swap(&mut entries[i].1, value);
                proof {
                    let after = entries@;
                    let k = i as int;
                    assert(named_at(before, name@, k));
                    lemma_named_at(before, k);
                    assert forall|a: int, b: int| 0 <= a < b < after.len() implies (#[trigger]
                    after[a]).0@ != (#[trigger] after[b]).0@ by {
                        assert(before[a].0@ != before[b].0@);
                    }
                    let want = entry_map(before).insert(name@, *old(value));
                    assert forall|n: Seq<char>| entry_map(after).dom().contains(n)
                        <==> want.dom().contains(n) by {
                        if entry_map(after).dom().contains(n) {
                            let a = choose|a: int| named_at(after, n, a);
                            assert(named_at(before, n, a));
                        }
                        if entry_map(before).dom().contains(n) {
                            let a = choose|a: int| named_at(before, n, a);
                            assert(named_at(after, n, a));
                        }
                    }
                    assert forall|n: Seq<char>| entry_map(after).dom().contains(n) implies entry_map(
                        after,
                    )[n] == want[n] by {
                        let a = choose|a: int| named_at(after, n, a);
                        lemma_named_at(after, a);
                        lemma_named_at(before, a);
                        if n == name@ && a != k {
                            if a < k {
                                assert(before[a].0@ != before[k].0@);
                            } else {
                                assert(before[k].0@ != before[a].0@);
                            }
                        }
                    }
                    assert(entry_map(after) =~= want);
                }
                self.entries = entries;
                assert(self.order() =~= old(self).order());
                true
            },
            None => false,
        };
        found
    }

    /// The number of names.
    pub fn len(&self) -> (len: usize)
        ensures
            len == self.order().len(),
    {
        self.entries.len()
    }

    /// The names, each once.
    pub fn names(&self) -> (names: Vec<String>)
        ensures
            names.len() == self.order().len(),
            forall|i: int| 0 <= i < names.len() ==> (#[trigger] names@[i])@ == self.order()[i],
            forall|n: Seq<char>|
                self@.dom().contains(n) <==> exists|i: int|
                    0 <= i < names.len() && (#[trigger] names@[i])@ == n,
            forall|i: int, j: int|
                0 <= i < j < names.len() ==> (#[trigger] names@[i])@ != (#[trigger] names@[j])@,
    {
        proof {
            use_type_invariant(self);
        }
        let mut names: Vec<String> = Vec::new();
        let mut i: usize = 0;
        while i < self.entries.len()
            invariant
                i <= self.entries.len(),
                names.len() == i,
                forall|j: int| 0 <= j < i ==> (#[trigger] names@[j])@ == self.entries@[j].0@,
            decreases self.entries.len() - i,
        {
            names.push(self.entries[i].0.clone());
            i = i + 1;
        }
        proof {
            assert forall|n: Seq<char>| self@.dom().contains(n) implies exists|j: int|
                0 <= j < names.len() && (#[trigger] names@[j])@ == n by {
                let j = choose|j: int| named_at(self.entries@, n, j);
                assert(names@[j]@ == n);
            }
            assert forall|n: Seq<char>|
                (exists|j: int| 0 <= j < names.len() && (#[trigger] names@[j])@ == n) implies self@.dom().contains(
            n) by {
                let j = choose|j: int| 0 <= j < names.len() && (#[trigger] names@[j])@ == n;
                lemma_named_at(self.entries@, j);
            }
        }
        names
    }

    /// The name at a position, and its value.
    pub fn at(&self, i: usize) -> (entry: (&str, &V))
        requires
            i < self.order().len(),
        ensures
            entry.0@ == self.order()[i as int],
            self@.dom().contains(entry.0@),
            self@[entry.0@] == *entry.1,
    {
        proof {
            use_type_invariant(self);
            lemma_named_at(self.entries@, i as int);
        }
        (self.entries[i].0.as_str(), &self.entries[i].1)
    }
}

} // verus!
