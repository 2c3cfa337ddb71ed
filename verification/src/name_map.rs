//! A map from names to values.

use vstd::prelude::*;

verus! {

/// Whether no two of `entries` have the same name.
pub open spec fn distinct_names<V>(entries: Seq<(String, V)>) -> bool {
    forall|i: int, j: int|
        #![trigger entries[i], entries[j]]
        0 <= i < j < entries.len() ==> entries[i].0@ != entries[j].0@
}

/// The first entries among entries of distinct names have distinct names.
pub proof fn lemma_distinct_prefix<V>(entries: Seq<(String, V)>, n: int)
    requires
        distinct_names(entries),
        0 <= n <= entries.len(),
    ensures
        distinct_names(entries.take(n)),
{
    let front = entries.take(n);
    assert forall|i: int, j: int|
        #![trigger front[i], front[j]]
        0 <= i < j < front.len() implies front[i].0@ != front[j].0@ by {
        assert(front[i] == entries[i] && front[j] == entries[j]);
    }
}

/// The map that `entries` write down, where a later entry replaces an earlier
/// one of the same name.
pub open spec fn entries_map<V>(entries: Seq<(String, V)>) -> Map<Seq<char>, V>
    decreases entries.len(),
{
    if entries.len() == 0 {
        Map::empty()
    } else {
        entries_map(entries.drop_last()).insert(entries.last().0@, entries.last().1)
    }
}

/// With distinct names, the map holds each entry and nothing else.
pub proof fn lemma_entries_map<V>(entries: Seq<(String, V)>)
    requires
        distinct_names(entries),
    ensures
        forall|i: int|
            #![trigger entries[i]]
            0 <= i < entries.len() ==> entries_map(entries).contains_key(entries[i].0@)
                && entries_map(entries)[entries[i].0@] == entries[i].1,
        forall|name: Seq<char>| #[trigger]
            entries_map(entries).contains_key(name) ==> exists|i: int|
                0 <= i < entries.len() && (#[trigger] entries[i]).0@ == name,
    decreases entries.len(),
{
    if entries.len() > 0 {
        let front = entries.drop_last();
        assert(front =~= entries.take(entries.len() - 1));
        lemma_distinct_prefix(entries, entries.len() - 1);
        lemma_entries_map(front);
        let last = entries.last();
        assert forall|i: int|
            #![trigger entries[i]]
            0 <= i < entries.len() implies entries_map(entries).contains_key(entries[i].0@)
            && entries_map(entries)[entries[i].0@] == entries[i].1 by {
            if i < front.len() {
                assert(front[i] == entries[i]);
                assert(entries[i].0@ != entries[entries.len() - 1].0@);
            }
        }
        assert forall|name: Seq<char>| #[trigger]
            entries_map(entries).contains_key(name) implies exists|i: int|
            0 <= i < entries.len() && (#[trigger] entries[i]).0@ == name by {
            if name == last.0@ {
                assert(entries[entries.len() - 1].0@ == name);
            } else {
                assert(entries_map(front).contains_key(name));
                let i = choose|i: int| 0 <= i < front.len() && (#[trigger] front[i]).0@ == name;
                assert(front[i] == entries[i]);
            }
        }
    }
}

/// With distinct names, the map has as many names as there are entries.
proof fn lemma_entries_map_len<V>(entries: Seq<(String, V)>)
    requires
        distinct_names(entries),
    ensures
        entries_map(entries).dom().finite(),
        entries_map(entries).len() == entries.len(),
    decreases entries.len(),
{
    if entries.len() > 0 {
        let front = entries.drop_last();
        assert(front =~= entries.take(entries.len() - 1));
        lemma_distinct_prefix(entries, entries.len() - 1);
        lemma_entries_map_len(front);
        lemma_entries_map(front);
        if entries_map(front).contains_key(entries.last().0@) {
            let i = choose|i: int|
                0 <= i < front.len() && (#[trigger] front[i]).0@ == entries.last().0@;
            assert(entries[i].0@ == entries[entries.len() - 1].0@);
        }
    }
}

/// Entries of distinct names that agree with `map` write `map` down.
proof fn lemma_entries_agree<V>(entries: Seq<(String, V)>, map: Map<Seq<char>, V>)
    requires
        distinct_names(entries),
        forall|i: int|
            #![trigger entries[i]]
            0 <= i < entries.len() ==> map.contains_key(entries[i].0@) && map[entries[i].0@] == entries[i].1,
        forall|name: Seq<char>| #[trigger]
            map.contains_key(name) ==> exists|i: int|
                0 <= i < entries.len() && (#[trigger] entries[i]).0@ == name,
    ensures
        entries_map(entries) == map,
{
    lemma_entries_map(entries);
    assert forall|name: Seq<char>| entries_map(entries).contains_key(name) == map.contains_key(
        name,
    ) by {
        if map.contains_key(name) {
            let i = choose|i: int| 0 <= i < entries.len() && (#[trigger] entries[i]).0@ == name;
            assert(entries_map(entries).contains_key(entries[i].0@));
        }
        if entries_map(entries).contains_key(name) {
            let i = choose|i: int| 0 <= i < entries.len() && (#[trigger] entries[i]).0@ == name;
            assert(map.contains_key(entries[i].0@));
        }
    }
    assert forall|name: Seq<char>| #[trigger] map.contains_key(name) implies entries_map(entries)[name]
        == map[name] by {
        let i = choose|i: int| 0 <= i < entries.len() && (#[trigger] entries[i]).0@ == name;
        assert(entries[i].0@ == name);
    }
    assert(entries_map(entries) =~= map);
}

/// A map from names to values.
#[derive(Debug)]
pub struct NameMap<V> {
    entries: Vec<(String, V)>,
}

impl<V> View for NameMap<V> {
    type V = Map<Seq<char>, V>;

    closed spec fn view(&self) -> Map<Seq<char>, V> {
        entries_map(self.entries@)
    }
}

impl<V> NameMap<V> {
    #[verifier::type_invariant]
    spec fn names_distinct(self) -> bool {
        distinct_names(self.entries@)
    }

    /// The map without entries.
    pub fn new() -> (map: Self)
        ensures
            map@ == Map::<Seq<char>, V>::empty(),
    {
        NameMap { entries: Vec::new() }
    }

    /// The number of names.
    pub fn len(&self) -> (count: usize)
        ensures
            self@.dom().finite(),
            count == self@.len(),
    {
        proof {
            use_type_invariant(self);
            lemma_entries_map_len(self.entries@);
        }
        self.entries.len()
    }

    /// The place of `name` among the entries.
    fn position(&self, name: &str) -> (place: Option<usize>)
        ensures
            match place {
                Some(i) => i < self.entries@.len() && self.entries@[i as int].0@ == name@,
                None => forall|i: int|
                    0 <= i < self.entries@.len() ==> (#[trigger] self.entries@[i]).0@ != name@,
            },
    {
        let wanted = name.to_string();
        let mut i: usize = 0;
        while i < self.entries.len()
            invariant
                i <= self.entries@.len(),
                wanted@ == name@,
                forall|j: int| 0 <= j < i ==> (#[trigger] self.entries@[j]).0@ != name@,
            decreases self.entries@.len() - i,
        {
            if self.entries[i].0 == wanted {
                return Some(i);
            }
            i += 1;
        }
        None
    }

    /// The value of `name`.
    pub fn get(&self, name: &str) -> (value: Option<&V>)
        ensures
            match value {
                Some(v) => self@.contains_key(name@) && *v == self@[name@],
                None => !self@.contains_key(name@),
            },
    {
        proof {
            use_type_invariant(self);
            lemma_entries_map(self.entries@);
        }
        match self.position(name) {
            Some(i) => Some(&self.entries[i].1),
            None => None,
        }
    }

    /// Gives `name` the value `value`, in place of the value it may have had.
    pub fn insert(&mut self, name: String, value: V)
        ensures
            final(self)@ == old(self)@.insert(name@, value),
    {
        proof {
            use_type_invariant(&*self);
            lemma_entries_map(self.entries@);
        }
        let ghost before = self.entries@;
        let place = self.position(name.as_str());
        let mut entries: Vec<(String, V)> = Vec::new();
        std::mem::swap(&mut entries, &mut self.entries);
        match place {
            Some(i) => {
                let ghost expected = entries_map(before).insert(name@, value);
                let ghost at = name@;
                entries.set(i, (name, value));
                proof {
                    assert(before[i as int].0@ == at);
                    assert forall|j: int|
                        #![trigger entries@[j]]
                        0 <= j < entries@.len() implies expected.contains_key(entries@[j].0@)
                        && expected[entries@[j].0@] == entries@[j].1 by {
                        if j != i {
                            assert(entries@[j] == before[j]);
                            assert(before[j].0@ != at);
                        }
                    }
                    assert forall|n: Seq<char>| #[trigger]
                        expected.contains_key(n) implies exists|j: int|
                        0 <= j < entries@.len() && (#[trigger] entries@[j]).0@ == n by {
                        if n == at {
                            assert(entries@[i as int].0@ == n);
                        } else {
                            let j = choose|j: int|
                                0 <= j < before.len() && (#[trigger] before[j]).0@ == n;
                            assert(entries@[j].0@ == n);
                        }
                    }
                    assert forall|j: int, k: int|
                        #![trigger entries@[j], entries@[k]]
                        0 <= j < k < entries@.len() implies entries@[j].0@ != entries@[k].0@ by {
                        assert(before[j].0@ != before[k].0@);
                    }
                    lemma_entries_agree(entries@, expected);
                }
            },
            None => {
                entries.push((name, value));
                proof {
                    assert(entries@.drop_last() =~= before);
                    assert forall|j: int, k: int|
                        #![trigger entries@[j], entries@[k]]
                        0 <= j < k < entries@.len() implies entries@[j].0@ != entries@[k].0@ by {
                        assert(entries@[j] == before[j]);
                        if k < before.len() {
                            assert(entries@[k] == before[k]);
                        }
                    }
                }
            },
        }
        self.entries = entries;
    }

    /// Takes `name` and its value out.
    pub fn remove(&mut self, name: &str) -> (value: Option<V>)
        ensures
            match value {
                Some(v) => old(self)@.contains_key(name@) && v == old(self)@[name@],
                None => !old(self)@.contains_key(name@),
            },
            final(self)@ == old(self)@.remove(name@),
    {
        proof {
            use_type_invariant(&*self);
            lemma_entries_map(self.entries@);
        }
        let ghost before = self.entries@;
        let place = self.position(name);
        match place {
            Some(i) => {
                let mut entries: Vec<(String, V)> = Vec::new();
                std::mem::swap(&mut entries, &mut self.entries);
                let taken = entries.remove(i);
                proof {
                    let expected = entries_map(before).remove(name@);
                    assert forall|j: int, k: int|
                        #![trigger entries@[j], entries@[k]]
                        0 <= j < k < entries@.len() implies entries@[j].0@ != entries@[k].0@ by {
                        let j0 = if j < i { j } else { j + 1 };
                        let k0 = if k < i { k } else { k + 1 };
                        assert(entries@[j] == before[j0] && entries@[k] == before[k0]);
                    }
                    assert forall|j: int|
                        #![trigger entries@[j]]
                        0 <= j < entries@.len() implies expected.contains_key(entries@[j].0@)
                        && expected[entries@[j].0@] == entries@[j].1 by {
                        let j0 = if j < i { j } else { j + 1 };
                        assert(entries@[j] == before[j0]);
                        assert(before[j0].0@ != before[i as int].0@);
                    }
                    assert forall|n: Seq<char>| #[trigger]
                        expected.contains_key(n) implies exists|j: int|
                        0 <= j < entries@.len() && (#[trigger] entries@[j]).0@ == n by {
                        assert(entries_map(before).contains_key(n));
                        let j0 = choose|j: int|
                            0 <= j < before.len() && (#[trigger] before[j]).0@ == n;
                        let j = if j0 < i { j0 } else { j0 - 1 };
                        assert(entries@[j] == before[j0]);
                    }
                    lemma_entries_agree(entries@, expected);
                }
                self.entries = entries;
                Some(taken.1)
            },
            None => {
                assert(self@.remove(name@) =~= self@);
                None
            },
        }
    }

    /// The entries, one for each name.
    pub fn entries(&self) -> (entries: &Vec<(String, V)>)
        ensures
            distinct_names(entries@),
            entries_map(entries@) == self@,
            forall|i: int|
                #![trigger entries@[i]]
                0 <= i < entries@.len() ==> self@.contains_key(entries@[i].0@)
                    && self@[entries@[i].0@] == entries@[i].1,
            forall|name: Seq<char>| #[trigger]
                self@.contains_key(name) ==> exists|i: int|
                    0 <= i < entries@.len() && (#[trigger] entries@[i]).0@ == name,
    {
        proof {
            use_type_invariant(self);
            lemma_entries_map(self.entries@);
        }
        &self.entries
    }

    /// Hands the entries over, one for each name.
    pub fn into_entries(self) -> (entries: Vec<(String, V)>)
        ensures
            distinct_names(entries@),
            entries_map(entries@) == self@,
            forall|i: int|
                #![trigger entries@[i]]
                0 <= i < entries@.len() ==> self@.contains_key(entries@[i].0@)
                    && self@[entries@[i].0@] == entries@[i].1,
            forall|name: Seq<char>| #[trigger]
                self@.contains_key(name) ==> exists|i: int|
                    0 <= i < entries@.len() && (#[trigger] entries@[i]).0@ == name,
    {
        proof {
            use_type_invariant(&self);
            lemma_entries_map(self.entries@);
        }
        self.entries
    }
}

impl<V: Clone> Clone for NameMap<V> {
    fn clone(&self) -> (copy: Self)
        ensures
            copy@.dom() == self@.dom(),
            forall|name: Seq<char>| #[trigger]
                self@.contains_key(name) ==> cloned(self@[name], copy@[name]),
    {
        proof {
            use_type_invariant(self);
            lemma_entries_map(self.entries@);
        }
        let mut entries: Vec<(String, V)> = Vec::new();
        let mut i: usize = 0;
        while i < self.entries.len()
            invariant
                i <= self.entries@.len(),
                entries@.len() == i,
                distinct_names(self.entries@),
                forall|j: int|
                    #![trigger entries@[j]]
                    0 <= j < i ==> entries@[j].0@ == self.entries@[j].0@ && cloned(
                        self.entries@[j].1,
                        entries@[j].1,
                    ),
            decreases self.entries@.len() - i,
        {
            let name = self.entries[i].0.clone();
            let value = self.entries[i].1.clone();
            entries.push((name, value));
            i += 1;
        }
        proof {
            let from = self.entries@;
            assert forall|j: int, k: int|
                #![trigger entries@[j], entries@[k]]
                0 <= j < k < entries@.len() implies entries@[j].0@ != entries@[k].0@ by {
                assert(from[j].0@ != from[k].0@);
            }
            lemma_entries_map(entries@);
            assert forall|name: Seq<char>| entries_map(from).contains_key(name) == entries_map(
                entries@,
            ).contains_key(name) by {
                if entries_map(from).contains_key(name) {
                    let j = choose|j: int| 0 <= j < from.len() && (#[trigger] from[j]).0@ == name;
                    assert(entries@[j].0@ == name);
                }
                if entries_map(entries@).contains_key(name) {
                    let j = choose|j: int|
                        0 <= j < entries@.len() && (#[trigger] entries@[j]).0@ == name;
                    assert(from[j].0@ == name);
                }
            }
            assert(entries_map(entries@).dom() =~= entries_map(from).dom());
            assert forall|name: Seq<char>| #[trigger]
                entries_map(from).contains_key(name) implies cloned(
                entries_map(from)[name],
                entries_map(entries@)[name],
            ) by {
                let j = choose|j: int| 0 <= j < from.len() && (#[trigger] from[j]).0@ == name;
                assert(entries@[j].0@ == name);
            }
        }
        NameMap { entries }
    }
}

} // verus!
