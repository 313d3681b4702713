//! A finite map from names to values, kept as a list of entries.

use crate::text::is_same;
use vstd::prelude::*;

verus! {

/// A map keyed by name. No name occurs twice.
#[derive(Debug)]
pub struct NameMap<V> {
    entries: Vec<(String, V)>,
}

/// Whether some entry is filed under `name`.
pub open spec fn has_name<V>(entries: Seq<(String, V)>, name: Seq<char>) -> bool {
    exists|i: int| 0 <= i < entries.len() && (#[trigger] entries[i]).0@ == name
}

pub open spec fn index_of<V>(entries: Seq<(String, V)>, name: Seq<char>) -> int {
    choose|i: int| 0 <= i < entries.len() && (#[trigger] entries[i]).0@ == name
}

pub open spec fn names_distinct<V>(entries: Seq<(String, V)>) -> bool {
    forall|i: int, j: int|
        0 <= i < j < entries.len() ==> (#[trigger] entries[i]).0@ != (#[trigger] entries[j]).0@
}

/// What a list of entries stands for.
pub open spec fn map_of<V>(entries: Seq<(String, V)>) -> Map<Seq<char>, V> {
    Map::new(|k: Seq<char>| has_name(entries, k), |k: Seq<char>| entries[index_of(entries, k)].1)
}

proof fn lemma_entry<V>(entries: Seq<(String, V)>, i: int)
    requires
        names_distinct(entries),
        0 <= i < entries.len(),
    ensures
        map_of(entries).dom().contains(entries[i].0@),
        map_of(entries)[entries[i].0@] == entries[i].1,
{
    let k = entries[i].0@;
    assert(has_name(entries, k));
    let j = index_of(entries, k);
    assert(entries[j].0@ == k);
    assert(i == j);
}

proof fn lemma_removed<V>(entries: Seq<(String, V)>, i: int)
    requires
        names_distinct(entries),
        0 <= i < entries.len(),
    ensures
        names_distinct(entries.remove(i)),
        map_of(entries.remove(i)) == map_of(entries).remove(entries[i].0@),
{
    let rest = entries.remove(i);
    let k0 = entries[i].0@;
    assert forall|k: Seq<char>| has_name(rest, k) <==> (has_name(entries, k) && k != k0) by {
        if has_name(rest, k) {
            let j = index_of(rest, k);
            let j2 = if j < i { j } else { j + 1 };
            assert(entries[j2] == rest[j]);
        }
        if has_name(entries, k) && k != k0 {
            let j = index_of(entries, k);
            let j2 = if j < i { j } else { j - 1 };
            assert(rest[j2] == entries[j]);
        }
    }
    assert(names_distinct(rest)) by {
        assert forall|a: int, b: int| 0 <= a < b < rest.len() implies (#[trigger] rest[a]).0@ != (
        #[trigger] rest[b]).0@ by {
            let a2 = if a < i { a } else { a + 1 };
            let b2 = if b < i { b } else { b + 1 };
            assert(entries[a2] == rest[a] && entries[b2] == rest[b]);
        }
    }
    assert forall|k: Seq<char>| has_name(rest, k) implies map_of(rest)[k] == map_of(entries)[k] by {
        let j = index_of(rest, k);
        let j2 = if j < i { j } else { j + 1 };
        assert(entries[j2] == rest[j]);
        lemma_entry(rest, j);
        lemma_entry(entries, j2);
    }
    assert(map_of(rest) =~= map_of(entries).remove(k0));
}

proof fn lemma_pushed<V>(entries: Seq<(String, V)>, name: String, value: V)
    requires
        names_distinct(entries),
        !has_name(entries, name@),
    ensures
        names_distinct(entries.push((name, value))),
        map_of(entries.push((name, value))) == map_of(entries).insert(name@, value),
{
    let more = entries.push((name, value));
    assert forall|k: Seq<char>| has_name(more, k) <==> (has_name(entries, k) || k == name@) by {
        if has_name(more, k) {
            let j = index_of(more, k);
            assert(j < entries.len() ==> entries[j] == more[j]);
        }
        if has_name(entries, k) {
            let j = index_of(entries, k);
            assert(more[j] == entries[j]);
        }
        if k == name@ {
            assert(more[entries.len() as int].0@ == k);
        }
    }
    assert(names_distinct(more)) by {
        assert forall|a: int, b: int| 0 <= a < b < more.len() implies (#[trigger] more[a]).0@ != (
        #[trigger] more[b]).0@ by {
            assert(more[a] == entries[a]);
            if b < entries.len() {
                assert(more[b] == entries[b]);
            }
        }
    }
    assert forall|k: Seq<char>| has_name(entries, k) implies map_of(more)[k] == map_of(entries)[k] by {
        let j = index_of(entries, k);
        assert(more[j] == entries[j]);
        lemma_entry(more, j);
        lemma_entry(entries, j);
    }
    lemma_entry(more, entries.len() as int);
    assert(map_of(more) =~= map_of(entries).insert(name@, value));
}

impl<V> View for NameMap<V> {
    type V = Map<Seq<char>, V>;

    closed spec fn view(&self) -> Map<Seq<char>, V> {
        map_of(self.entries@)
    }
}

impl<V> NameMap<V> {
    pub closed spec fn wf(&self) -> bool {
        names_distinct(self.entries@)
    }

    /// The entries in the order in which they were filed.
    pub closed spec fn listing(&self) -> Seq<(String, V)> {
        self.entries@
    }

    pub fn new() -> (r: Self)
        ensures
            r.wf(),
            r@ == Map::<Seq<char>, V>::empty(),
            r.listing() == Seq::<(String, V)>::empty(),
    {
        let r = NameMap { entries: Vec::new() };
        assert(r@ =~= Map::<Seq<char>, V>::empty());
        r
    }

    fn find(&self, name: &str) -> (r: Option<usize>)
        ensures
            r is None <==> !self@.dom().contains(name@),
            r matches Some(i) ==> i < self.entries@.len() && self.entries@[i as int].0@ == name@,
    {
        let mut i: usize = 0;
        while i < self.entries.len()
            invariant
                i <= self.entries@.len(),
                forall|j: int| 0 <= j < i ==> (#[trigger] self.entries@[j]).0@ != name@,
            decreases self.entries.len() - i,
        {
            if is_same(self.entries[i].0.as_str(), name) {
                assert(has_name(self.entries@, name@));
                return Some(i);
            }
            i += 1;
        }
        None
    }

    pub fn get(&self, name: &str) -> (r: Option<&V>)
        requires
            self.wf(),
        ensures
            r is Some <==> self@.dom().contains(name@),
            r matches Some(v) ==> *v == self@[name@],
    {
        match self.find(name) {
            Some(i) => {
                proof {
                    lemma_entry(self.entries@, i as int);
                }
                Some(&self.entries[i].1)
            },
            None => None,
        }
    }

    pub fn contains(&self, name: &str) -> (r: bool)
        ensures
            r == self@.dom().contains(name@),
    {
        self.find(name).is_some()
    }

    /// Files `value` under `name`; what was there before is handed back.
    pub fn insert(&mut self, name: String, value: V) -> (r: Option<V>)
        requires
            old(self).wf(),
        ensures
            final(self).wf(),
            final(self)@ == old(self)@.insert(name@, value),
            r is Some <==> old(self)@.dom().contains(name@),
            r matches Some(v) ==> v == old(self)@[name@],
    {
        let previous = self.remove(name.as_str());
        proof {
            assert(!self@.dom().contains(name@));
            lemma_pushed(self.entries@, name, value);
            assert(old(self)@.remove(name@).insert(name@, value) =~= old(self)@.insert(
                name@,
                value,
            ));
        }
        self.entries.push((name, value));
        previous
    }

    /// Takes the entry for `name` out, if there is one.
    pub fn remove(&mut self, name: &str) -> (r: Option<V>)
        requires
            old(self).wf(),
        ensures
            final(self).wf(),
            final(self)@ == old(self)@.remove(name@),
            r is Some <==> old(self)@.dom().contains(name@),
            r matches Some(v) ==> v == old(self)@[name@],
    {
        match self.find(name) {
            Some(i) => {
                proof {
                    lemma_entry(self.entries@, i as int);
                    lemma_removed(self.entries@, i as int);
                }
                let entry = self.entries.remove(i);
                Some(entry.1)
            },
            None => {
                assert(self@ =~= self@.remove(name@));
                None
            },
        }
    }

    pub fn clear(&mut self)
        ensures
            final(self).wf(),
            final(self)@ == Map::<Seq<char>, V>::empty(),
    {
        self.entries.clear();
        assert(self@ =~= Map::<Seq<char>, V>::empty());
    }

    pub fn is_empty(&self) -> (r: bool)
        ensures
            r == (self@ =~= Map::<Seq<char>, V>::empty()),
    {
        let r = self.entries.is_empty();
        proof {
            if r {
                assert(self@ =~= Map::<Seq<char>, V>::empty());
            } else {
                assert(has_name(self.entries@, self.entries@[0].0@));
                assert(self@.dom().contains(self.entries@[0].0@));
            }
        }
        r
    }

    pub fn len(&self) -> (r: usize)
        ensures
            r == self.listing().len(),
    {
        self.entries.len()
    }

    pub fn name_at(&self, i: usize) -> (r: &String)
        requires
            i < self.listing().len(),
        ensures
            *r == self.listing()[i as int].0,
    {
        &self.entries[i].0
    }

    pub fn value_at(&self, i: usize) -> (r: &V)
        requires
            i < self.listing().len(),
        ensures
            *r == self.listing()[i as int].1,
    {
        &self.entries[i].1
    }

    /// The listing holds each entry of the map exactly once.
    pub proof fn lemma_listing(&self)
        requires
            self.wf(),
        ensures
            names_distinct(self.listing()),
            self@ == map_of(self.listing()),
            forall|i: int|
                0 <= i < self.listing().len() ==> self@.dom().contains(
                    (#[trigger] self.listing()[i]).0@,
                ) && self@[self.listing()[i].0@] == self.listing()[i].1,
            forall|k: Seq<char>|
                self@.dom().contains(k) ==> exists|i: int|
                    0 <= i < self.listing().len() && (#[trigger] self.listing()[i]).0@ == k,
    {
        assert forall|i: int| 0 <= i < self.listing().len() implies self@.dom().contains(
            (#[trigger] self.listing()[i]).0@,
        ) && self@[self.listing()[i].0@] == self.listing()[i].1 by {
            lemma_entry(self.entries@, i);
        }
    }
}

} // verus!
