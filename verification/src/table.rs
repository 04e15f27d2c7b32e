//! A small map from names to values that keeps its entries in the order in
//! which the names were first inserted.
//!
//! The model of a table is a `Map` from the name, as a sequence of
//! characters, to the model of the value. Where a name occurs more than once
//! among the entries, only its first entry counts: it alone is found,
//! replaced and listed. A table that is built by `new` and `insert` holds no
//! name twice.

use crate::text::str_eq;
use vstd::prelude::*;

verus! {

/// A map from names to values, in insertion order.
#[derive(Debug, PartialEq, Eq)]
pub struct Table<V> {
    pub entries: Vec<(String, V)>,
}

/// The map that a sequence of entries stands for. Where a name occurs more
/// than once, its first entry counts.
pub open spec fn to_map<V: View>(entries: Seq<(String, V)>) -> Map<Seq<char>, V::V>
    decreases entries.len(),
{
    if entries.len() == 0 {
        Map::empty()
    } else {
        to_map(entries.skip(1)).insert(entries[0].0@, entries[0].1@)
    }
}

/// No entry before `end` bears the name.
pub open spec fn absent_before<V>(entries: Seq<(String, V)>, name: Seq<char>, end: int) -> bool {
    forall|j: int| 0 <= j < end && j < entries.len() ==> (#[trigger] entries[j]).0@ != name
}

/// A name that no entry bears is not in the map.
pub proof fn lemma_absent<V: View>(entries: Seq<(String, V)>, name: Seq<char>)
    requires
        absent_before(entries, name, entries.len() as int),
    ensures
        !to_map(entries).contains_key(name),
    decreases entries.len(),
{
    if entries.len() > 0 {
        let rest = entries.skip(1);
        assert forall|j: int| 0 <= j < rest.len() implies (#[trigger] rest[j]).0@ != name by {
            assert(rest[j] == entries[j + 1]);
        }
        lemma_absent(rest, name);
        assert(entries[0].0@ != name);
    }
}

/// The map binds a name to the value of the first entry that bears it.
pub proof fn lemma_first<V: View>(entries: Seq<(String, V)>, name: Seq<char>, at: int)
    requires
        0 <= at < entries.len(),
        entries[at].0@ == name,
        absent_before(entries, name, at),
    ensures
        to_map(entries).contains_key(name),
        to_map(entries)[name] == entries[at].1@,
    decreases entries.len(),
{
    if at > 0 {
        let rest = entries.skip(1);
        assert(rest[at - 1] == entries[at]);
        assert forall|j: int| 0 <= j < at - 1 && j < rest.len() implies (#[trigger] rest[j]).0@
            != name by {
            assert(rest[j] == entries[j + 1]);
        }
        lemma_first(rest, name, at - 1);
        assert(entries[0].0@ != name);
    }
}

/// A name is in the map exactly if some entry bears it.
pub proof fn lemma_contains<V: View>(entries: Seq<(String, V)>, name: Seq<char>)
    ensures
        to_map(entries).contains_key(name) <==> exists|j: int|
            0 <= j < entries.len() && (#[trigger] entries[j]).0@ == name,
    decreases entries.len(),
{
    if entries.len() > 0 {
        let rest = entries.skip(1);
        lemma_contains(rest, name);
        if to_map(entries).contains_key(name) {
            if entries[0].0@ == name {
            } else {
                let j = choose|j: int| 0 <= j < rest.len() && (#[trigger] rest[j]).0@ == name;
                assert(entries[j + 1] == rest[j]);
            }
        }
        if exists|j: int| 0 <= j < entries.len() && (#[trigger] entries[j]).0@ == name {
            let j = choose|j: int| 0 <= j < entries.len() && (#[trigger] entries[j]).0@ == name;
            if j > 0 {
                assert(rest[j - 1] == entries[j]);
            }
        }
    }
}

/// Giving the first entry that bears a name a new value binds the name to
/// that value in the map, and changes nothing else.
pub proof fn lemma_update<V: View>(entries: Seq<(String, V)>, at: int, key: String, value: V)
    requires
        0 <= at < entries.len(),
        entries[at].0@ == key@,
        absent_before(entries, key@, at),
    ensures
        to_map(entries.update(at, (key, value))) == to_map(entries).insert(key@, value@),
    decreases entries.len(),
{
    let after = entries.update(at, (key, value));
    if at == 0 {
        assert(after.skip(1) =~= entries.skip(1));
        assert(to_map(after) =~= to_map(entries).insert(key@, value@));
    } else {
        let rest = entries.skip(1);
        assert(rest[at - 1] == entries[at]);
        assert forall|j: int| 0 <= j < at - 1 && j < rest.len() implies (#[trigger] rest[j]).0@
            != key@ by {
            assert(rest[j] == entries[j + 1]);
        }
        lemma_update(rest, at - 1, key, value);
        assert(after.skip(1) =~= rest.update(at - 1, (key, value)));
        assert(entries[0].0@ != key@);
        assert(to_map(after) =~= to_map(entries).insert(key@, value@));
    }
}

/// Adding an entry with a name that no entry bears binds the name to the
/// value in the map, and changes nothing else.
pub proof fn lemma_append<V: View>(entries: Seq<(String, V)>, key: String, value: V)
    requires
        absent_before(entries, key@, entries.len() as int),
    ensures
        to_map(entries.push((key, value))) == to_map(entries).insert(key@, value@),
    decreases entries.len(),
{
    let after = entries.push((key, value));
    if entries.len() == 0 {
        assert(after.skip(1) =~= entries);
        assert(to_map(after) =~= to_map(entries).insert(key@, value@));
    } else {
        let rest = entries.skip(1);
        assert forall|j: int| 0 <= j < rest.len() implies (#[trigger] rest[j]).0@ != key@ by {
            assert(rest[j] == entries[j + 1]);
        }
        lemma_append(rest, key, value);
        assert(after.skip(1) =~= rest.push((key, value)));
        assert(entries[0].0@ != key@);
        assert(to_map(after) =~= to_map(entries).insert(key@, value@));
    }
}

/// No name occurs twice among the entries.
pub open spec fn distinct_names<V>(entries: Seq<(String, V)>) -> bool {
    forall|i: int, j: int|
        0 <= i < j < entries.len() ==> (#[trigger] entries[i]).0@ != (#[trigger] entries[j]).0@
}

/// The names of the first `n` entries, in order, each name once: an entry
/// that bears the name of an earlier entry is passed over.
pub open spec fn first_names<V>(entries: Seq<(String, V)>, n: int) -> Seq<Seq<char>>
    decreases n,
{
    if n <= 0 || n > entries.len() {
        Seq::empty()
    } else {
        let before = first_names(entries, n - 1);
        if absent_before(entries, entries[n - 1].0@, n - 1) {
            before.push(entries[n - 1].0@)
        } else {
            before
        }
    }
}

/// The names of a table, each once, are the names that its entries bear.
pub proof fn lemma_first_names<V>(entries: Seq<(String, V)>, n: int)
    requires
        0 <= n <= entries.len(),
    ensures
        forall|i: int, j: int|
            0 <= i < j < first_names(entries, n).len() ==> first_names(entries, n)[i]
                != first_names(entries, n)[j],
        forall|name: Seq<char>|
            first_names(entries, n).contains(name) <==> exists|k: int|
                0 <= k < n && (#[trigger] entries[k]).0@ == name,
        first_names(entries, n).len() <= n,
        distinct_names(entries) ==> first_names(entries, n).len() == n,
    decreases n,
{
    if n > 0 {
        lemma_first_names(entries, n - 1);
        let before = first_names(entries, n - 1);
        let last = entries[n - 1].0@;
        let all = first_names(entries, n);
        if absent_before(entries, last, n - 1) {
            assert(all == before.push(last));
            assert(!before.contains(last));
            assert forall|name: Seq<char>|
                all.contains(name) <==> exists|k: int|
                    0 <= k < n && (#[trigger] entries[k]).0@ == name by {
                if all.contains(name) {
                    let i = choose|i: int| 0 <= i < all.len() && all[i] == name;
                    if i < before.len() {
                        assert(before[i] == name);
                        assert(before.contains(name));
                    } else {
                        assert(entries[n - 1].0@ == name);
                    }
                }
                if exists|k: int| 0 <= k < n && (#[trigger] entries[k]).0@ == name {
                    let k = choose|k: int| 0 <= k < n && (#[trigger] entries[k]).0@ == name;
                    if k < n - 1 {
                        assert(before.contains(name));
                        let i = choose|i: int| 0 <= i < before.len() && before[i] == name;
                        assert(all[i] == name);
                    } else {
                        assert(all[before.len() as int] == name);
                    }
                }
            }
            assert forall|i: int, j: int| 0 <= i < j < all.len() implies all[i] != all[j] by {
                if j == before.len() {
                    assert(before[i] == all[i]);
                    assert(before.contains(all[i]));
                } else {
                    assert(before[i] == all[i] && before[j] == all[j]);
                }
            }
        } else {
            let w = choose|w: int|
                0 <= w < n - 1 && w < entries.len() && (#[trigger] entries[w]).0@ == last;
            assert(!distinct_names(entries));
            assert forall|name: Seq<char>|
                all.contains(name) <==> exists|k: int|
                    0 <= k < n && (#[trigger] entries[k]).0@ == name by {
                if exists|k: int| 0 <= k < n && (#[trigger] entries[k]).0@ == name {
                    let k = choose|k: int| 0 <= k < n && (#[trigger] entries[k]).0@ == name;
                    if k == n - 1 {
                        assert(entries[w].0@ == name);
                    }
                }
            }
        }
    }
}

impl<V: View> View for Table<V> {
    type V = Map<Seq<char>, V::V>;

    open spec fn view(&self) -> Map<Seq<char>, V::V> {
        to_map(self.entries@)
    }
}

impl<V: View> Table<V> {
    /// No name occurs twice among the entries.
    pub open spec fn distinct(&self) -> bool {
        distinct_names(self.entries@)
    }

    /// The names of the table, in order, each once.
    pub open spec fn spec_names(&self) -> Seq<Seq<char>> {
        first_names(self.entries@, self.entries@.len() as int)
    }

    /// The empty table.
    pub fn new() -> (r: Table<V>)
        ensures
            r@ == Map::<Seq<char>, V::V>::empty(),
            r.distinct(),
    {
        Table { entries: Vec::new() }
    }

    /// The index of the first entry that bears the name.
    pub fn position(&self, name: &str) -> (r: Option<usize>)
        ensures
            match r {
                Some(at) => {
                    &&& at < self.entries.len()
                    &&& self.entries[at as int].0@ == name@
                    &&& absent_before(self.entries@, name@, at as int)
                    &&& self@.contains_key(name@)
                    &&& self@[name@] == self.entries[at as int].1@
                },
                None => !self@.contains_key(name@),
            },
    {
        let mut i: usize = 0;
        while i < self.entries.len()
            invariant
                i <= self.entries.len(),
                absent_before(self.entries@, name@, i as int),
            decreases self.entries.len() - i,
        {
            if str_eq(self.entries[i].0.as_str(), name) {
                proof {
                    lemma_first(self.entries@, name@, i as int);
                }
                return Some(i);
            }
            i += 1;
        }
        proof {
            lemma_absent(self.entries@, name@);
        }
        None
    }

    /// The value that the name is bound to.
    pub fn get(&self, name: &str) -> (r: Option<&V>)
        ensures
            match r {
                Some(v) => self@.contains_key(name@) && self@[name@] == v@,
                None => !self@.contains_key(name@),
            },
    {
        match self.position(name) {
            Some(at) => Some(&self.entries[at].1),
            None => None,
        }
    }

    /// Binds the name to the value. A table that holds no name twice stays
    /// so.
    pub fn insert(&mut self, name: String, value: V)
        ensures
            final(self)@ == old(self)@.insert(name@, value@),
            old(self).distinct() ==> final(self).distinct(),
    {
        let ghost before = self.entries@;
        match self.position(name.as_str()) {
            Some(at) => {
                proof {
                    lemma_update(self.entries@, at as int, name, value);
                }
                self.entries[at] = (name, value);
                proof {
                    if distinct_names(before) {
                        let after = self.entries@;
                        assert forall|i: int, j: int|
                            0 <= i < j < after.len() implies (#[trigger] after[i]).0@ != (
                        #[trigger] after[j]).0@ by {
                            assert(self.entries@[i].0@ == before[i].0@);
                            assert(self.entries@[j].0@ == before[j].0@);
                        }
                    }
                }
            },
            None => {
                proof {
                    lemma_contains(self.entries@, name@);
                    lemma_append(self.entries@, name, value);
                }
                self.entries.push((name, value));
                proof {
                    if distinct_names(before) {
                        let after = self.entries@;
                        assert forall|i: int, j: int|
                            0 <= i < j < after.len() implies (#[trigger] after[i]).0@ != (
                        #[trigger] after[j]).0@ by {
                            assert(self.entries@[i] == before[i]);
                            if j < before.len() {
                                assert(self.entries@[j] == before[j]);
                            }
                        }
                    }
                }
            },
        }
    }

    /// Whether no name occurs twice among the entries.
    pub fn is_distinct(&self) -> (r: bool)
        ensures
            r == self.distinct(),
    {
        let mut j: usize = 0;
        while j < self.entries.len()
            invariant
                j <= self.entries.len(),
                forall|a: int, b: int|
                    0 <= a < b < j ==> (#[trigger] self.entries@[a]).0@ != (
                    #[trigger] self.entries@[b]).0@,
            decreases self.entries.len() - j,
        {
            match self.position(self.entries[j].0.as_str()) {
                Some(at) => {
                    if at != j {
                        assert(self.entries@[at as int].0@ == self.entries@[j as int].0@);
                        return false;
                    }
                },
                None => {
                    proof {
                        lemma_contains(self.entries@, self.entries@[j as int].0@);
                    }
                    return false;
                },
            }
            j += 1;
        }
        true
    }

    /// The number of entries.
    pub fn len(&self) -> (r: usize)
        ensures
            r == self.entries.len(),
    {
        self.entries.len()
    }

    /// The names of the entries, in order.
    pub fn names(&self) -> (r: Vec<String>)
        ensures
            r.len() == self.entries.len(),
            forall|i: int| 0 <= i < r.len() ==> (#[trigger] r[i])@ == self.entries[i].0@,
            forall|name: Seq<char>|
                self@.contains_key(name) <==> exists|i: int|
                    0 <= i < r.len() && (#[trigger] r[i])@ == name,
    {
        let mut out: Vec<String> = Vec::new();
        let mut i: usize = 0;
        while i < self.entries.len()
            invariant
                i <= self.entries.len(),
                out.len() == i,
                forall|k: int| 0 <= k < i ==> (#[trigger] out[k])@ == self.entries[k].0@,
            decreases self.entries.len() - i,
        {
            out.push(self.entries[i].0.clone());
            i += 1;
        }
        proof {
            assert forall|name: Seq<char>|
                self@.contains_key(name) <==> exists|i: int|
                    0 <= i < out.len() && (#[trigger] out[i])@ == name by {
                lemma_contains(self.entries@, name);
                if self@.contains_key(name) {
                    let j = choose|j: int|
                        0 <= j < self.entries.len() && (#[trigger] self.entries@[j]).0@ == name;
                    assert(out[j]@ == name);
                }
                if exists|i: int| 0 <= i < out.len() && (#[trigger] out[i])@ == name {
                    let j = choose|i: int| 0 <= i < out.len() && (#[trigger] out[i])@ == name;
                    assert(self.entries@[j].0@ == name);
                }
            }
        }
        out
    }
}

} // verus!
