//! A map from names to values.
use vstd::prelude::*;

verus! {

/// A map from names to values. A name occurs at most once.
pub struct NameMap<V> {
    entries: Vec<(String, V)>,
}

/// No two entries have the same name.
spec fn distinct<V>(entries: Seq<(String, V)>) -> bool {
    forall|i: int, j: int|
        0 <= i < entries.len() && 0 <= j < entries.len() && i != j ==> (#[trigger] entries[i]).0@
            != (#[trigger] entries[j]).0@
}

/// Entry `i` has the name `name`.
spec fn named<V>(entries: Seq<(String, V)>, name: Seq<char>, i: int) -> bool {
    0 <= i < entries.len() && entries[i].0@ == name
}

spec fn as_map<V>(entries: Seq<(String, V)>) -> Map<Seq<char>, V> {
    Map::new(
        |name: Seq<char>| exists|i: int| named(entries, name, i),
        |name: Seq<char>| entries[choose|i: int| named(entries, name, i)].1,
    )
}

proof fn lemma_as_map_entry<V>(entries: Seq<(String, V)>, i: int)
    requires
        distinct(entries),
        0 <= i < entries.len(),
    ensures
        as_map(entries).contains_pair(entries[i].0@, entries[i].1),
{
    let name = entries[i].0@;
    assert(named(entries, name, i));
    let j = choose|j: int| named(entries, name, j);
    assert(named(entries, name, j));
    assert(j == i);
}

proof fn lemma_removed<V>(entries: Seq<(String, V)>, i: int)
    requires
        distinct(entries),
        0 <= i < entries.len(),
    ensures
        distinct(entries.remove(i)),
        as_map(entries.remove(i)) == as_map(entries).remove(entries[i].0@),
{
    let after = entries.remove(i);
    let name = entries[i].0@;
    assert forall|j: int, k: int|
        0 <= j < after.len() && 0 <= k < after.len() && j != k implies (#[trigger] after[j]).0@ != (
    #[trigger] after[k]).0@ by {
        let j0 = if j < i { j } else { j + 1 };
        let k0 = if k < i { k } else { k + 1 };
        assert(after[j] == entries[j0] && after[k] == entries[k0]);
    }
    assert forall|n: Seq<char>|
        as_map(after).contains_key(n) <==> as_map(entries).remove(name).contains_key(n) by {
        if as_map(after).contains_key(n) {
            let j = choose|j: int| named(after, n, j);
            let j0 = if j < i { j } else { j + 1 };
            assert(after[j] == entries[j0]);
            assert(named(entries, n, j0));
        }
        if as_map(entries).remove(name).contains_key(n) {
            let j0 = choose|j: int| named(entries, n, j);
            let j = if j0 < i { j0 } else { j0 - 1 };
            assert(after[j] == entries[j0]);
            assert(named(after, n, j));
        }
    }
    assert forall|n: Seq<char>| as_map(after).contains_key(n) implies as_map(after)[n] == as_map(
        entries,
    )[n] by {
        let j = choose|j: int| named(after, n, j);
        let j0 = if j < i { j } else { j + 1 };
        assert(after[j] == entries[j0]);
        lemma_as_map_entry(after, j);
        lemma_as_map_entry(entries, j0);
    }
    assert(as_map(after) =~= as_map(entries).remove(name));
}

proof fn lemma_pushed<V>(entries: Seq<(String, V)>, entry: (String, V))
    requires
        distinct(entries),
        !as_map(entries).contains_key(entry.0@),
    ensures
        distinct(entries.push(entry)),
        as_map(entries.push(entry)) == as_map(entries).insert(entry.0@, entry.1),
{
    let after = entries.push(entry);
    let last = entries.len() as int;
    assert forall|j: int| 0 <= j < last implies (#[trigger] after[j]).0@ != entry.0@ by {
        lemma_as_map_entry(entries, j);
    }
    assert(distinct(after));
    assert forall|n: Seq<char>|
        as_map(after).contains_key(n) <==> as_map(entries).insert(entry.0@, entry.1).contains_key(
            n,
        ) by {
        if as_map(after).contains_key(n) {
            let j = choose|j: int| named(after, n, j);
            if j < last {
                assert(named(entries, n, j));
            }
        }
        if as_map(entries).contains_key(n) {
            let j = choose|j: int| named(entries, n, j);
            assert(named(after, n, j));
        }
        assert(named(after, entry.0@, last));
    }
    assert forall|n: Seq<char>| as_map(after).contains_key(n) implies as_map(after)[n] == as_map(
        entries,
    ).insert(entry.0@, entry.1)[n] by {
        let j = choose|j: int| named(after, n, j);
        lemma_as_map_entry(after, j);
        if j < last {
            lemma_as_map_entry(entries, j);
        }
    }
    assert(as_map(after) =~= as_map(entries).insert(entry.0@, entry.1));
}

impl<V> View for NameMap<V> {
    type V = Map<Seq<char>, V>;

    closed spec fn view(&self) -> Map<Seq<char>, V> {
        as_map(self.entries@)
    }
}

impl<V> NameMap<V> {
    #[verifier::type_invariant]
    closed spec fn inv(&self) -> bool {
        distinct(self.entries@)
    }

    /// A map without names.
    pub fn new() -> (map: NameMap<V>)
        ensures
            map@ == Map::<Seq<char>, V>::empty(),
    {
        let entries: Vec<(String, V)> = Vec::new();
        assert(as_map(entries@) =~= Map::<Seq<char>, V>::empty());
        NameMap { entries }
    }

    /// The position of a name.
    fn find(&self, name: &str) -> (res: Option<usize>)
        ensures
            match res {
                Some(i) => named(self.entries@, name@, i as int),
                None => forall|i: int| !named(self.entries@, name@, i),
            },
    {
        let key = name.to_owned();
        let mut i: usize = 0;
        while i < self.entries.len()
            invariant
                i <= self.entries@.len(),
                key@ == name@,
                forall|j: int| 0 <= j < i ==> !named(self.entries@, name@, j),
            decreases self.entries@.len() - i,
        {
            if self.entries[i].0 == key {
                return Some(i);
            }
            i = i + 1;
        }
        None
    }

    /// Tells whether the map has a name.
    pub fn contains_key(&self, name: &str) -> (res: bool)
        ensures
            res == self@.contains_key(name@),
    {
        self.find(name).is_some()
    }

    /// Returns the value of a name.
    pub fn get(&self, name: &str) -> (res: Option<&V>)
        ensures
            match res {
                Some(v) => self@.contains_key(name@) && *v == self@[name@],
                None => !self@.contains_key(name@),
            },
    {
        proof {
            use_type_invariant(self);
        }
        match self.find(name) {
            Some(i) => {
                proof {
                    lemma_as_map_entry(self.entries@, i as int);
                }
                Some(&self.entries[i].1)
            },
            None => None,
        }
    }

    /// Takes a name out of the map and returns its value.
    pub fn remove(&mut self, name: &str) -> (res: Option<V>)
        ensures
            final(self)@ == old(self)@.remove(name@),
            match res {
                Some(v) => old(self)@.contains_key(name@) && v == old(self)@[name@],
                None => !old(self)@.contains_key(name@),
            },
    {
        proof {
            use_type_invariant(&*self);
        }
        match self.find(name) {
            Some(i) => {
                proof {
                    lemma_as_map_entry(self.entries@, i as int);
                    lemma_removed(self.entries@, i as int);
                }
                let mut entries: Vec<(String, V)> = Vec::new();
                std::mem::swap(&mut entries, &mut self.entries);
                let (_, value) = entries.remove(i);
                self.entries = entries;
                Some(value)
            },
            None => {
                assert(self@.remove(name@) =~= self@);
                None
            },
        }
    }

    /// Gives a name a value, in place of any value that it had.
    pub fn insert(&mut self, name: String, value: V)
        ensures
            final(self)@ == old(self)@.insert(name@, value),
    {
        let _ = self.remove(name.as_str());
        proof {
            use_type_invariant(&*self);
            lemma_pushed(self.entries@, (name, value));
        }
        let mut entries: Vec<(String, V)> = Vec::new();
        std::mem::swap(&mut entries, &mut self.entries);
        entries.push((name, value));
        self.entries = entries;
        assert(final(self)@ =~= old(self)@.insert(name@, value));
    }
}

} // verus!
