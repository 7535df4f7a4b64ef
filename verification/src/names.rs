//! Entries filed under names: how a name is looked up in a sequence of
//! entries, and a map from names to values that keeps its entries in the
//! order in which their names were first inserted.

use vstd::prelude::*;

verus! {

/// The names under which the entries are filed, in order.
pub open spec fn names_of<T>(entries: Seq<(Seq<char>, T)>) -> Seq<Seq<char>> {
    Seq::new(entries.len(), |i: int| entries[i].0)
}

/// `i` is the first place at which `name` stands in `names`.
pub open spec fn first_at(names: Seq<Seq<char>>, name: Seq<char>, i: int) -> bool {
    &&& 0 <= i < names.len()
    &&& names[i] == name
    &&& forall|j: int| 0 <= j < i ==> #[trigger] names[j] != name
}

/// The first place at which `name` stands in `names`, if it stands there.
pub open spec fn find(names: Seq<Seq<char>>, name: Seq<char>) -> Option<int> {
    if exists|i: int| #[trigger] first_at(names, name, i) {
        Some(choose|i: int| #[trigger] first_at(names, name, i))
    } else {
        None
    }
}

/// The value of the first entry filed under `name`.
pub open spec fn lookup<T>(entries: Seq<(Seq<char>, T)>, name: Seq<char>) -> Option<T> {
    match find(names_of(entries), name) {
        Some(i) => Some(entries[i].1),
        None => None,
    }
}

/// No name stands at two places.
pub open spec fn distinct(names: Seq<Seq<char>>) -> bool {
    forall|i: int, j: int|
        0 <= i < j < names.len() ==> #[trigger] names[i] != #[trigger] names[j]
}

/// The entries after `value` is filed under `name`: in place of the entry
/// that had the name, or behind all others where none had it.
pub open spec fn put<T>(entries: Seq<(Seq<char>, T)>, name: Seq<char>, value: T) -> Seq<
    (Seq<char>, T),
> {
    match find(names_of(entries), name) {
        Some(i) => entries.update(i, (name, value)),
        None => entries.push((name, value)),
    }
}

/// The entries without the first one filed under `name`.
pub open spec fn without<T>(entries: Seq<(Seq<char>, T)>, name: Seq<char>) -> Seq<
    (Seq<char>, T),
> {
    match find(names_of(entries), name) {
        Some(i) => entries.remove(i),
        None => entries,
    }
}

/// The entries after each entry of `rest` is filed in turn, starting from
/// `done`.
pub open spec fn file_all<T>(done: Seq<(Seq<char>, T)>, rest: Seq<(Seq<char>, T)>) -> Seq<
    (Seq<char>, T),
>
    decreases rest.len(),
{
    if rest.len() == 0 {
        done
    } else {
        file_all(put(done, rest[0].0, rest[0].1), rest.drop_first())
    }
}

/// A name that first stands at `i` is found there.
pub proof fn lemma_find_some(names: Seq<Seq<char>>, name: Seq<char>, i: int)
    requires
        first_at(names, name, i),
    ensures
        find(names, name) == Some(i),
{
    let k = choose|k: int| #[trigger] first_at(names, name, k);
    assert(first_at(names, name, k));
    if k < i {
        assert(names[k] != name);
    } else if i < k {
        assert(names[i] != name);
    }
}

/// A name that stands nowhere is not found.
pub proof fn lemma_find_none(names: Seq<Seq<char>>, name: Seq<char>)
    requires
        forall|j: int| 0 <= j < names.len() ==> #[trigger] names[j] != name,
    ensures
        find(names, name) is None,
{
    assert forall|i: int| !#[trigger] first_at(names, name, i) by {
        if 0 <= i < names.len() {
            assert(names[i] != name);
        }
    }
}

/// What `find` says of its result.
pub proof fn lemma_find(names: Seq<Seq<char>>, name: Seq<char>)
    ensures
        match find(names, name) {
            Some(i) => first_at(names, name, i),
            None => forall|j: int| 0 <= j < names.len() ==> #[trigger] names[j] != name,
        },
{
    if exists|i: int| #[trigger] first_at(names, name, i) {
    } else {
        assert forall|j: int| 0 <= j < names.len() implies #[trigger] names[j] != name by {
            if names[j] == name {
                lemma_has_first(names, name, j);
            }
        }
    }
}

/// A name that stands somewhere up to `i` has a first place.
proof fn lemma_has_first(names: Seq<Seq<char>>, name: Seq<char>, i: int)
    requires
        0 <= i < names.len(),
        names[i] == name,
    ensures
        exists|k: int| #[trigger] first_at(names, name, k),
    decreases i,
{
    if exists|j: int| 0 <= j < i && #[trigger] names[j] == name {
        let j = choose|j: int| 0 <= j < i && #[trigger] names[j] == name;
        lemma_has_first(names, name, j);
    } else {
        assert(first_at(names, name, i));
    }
}

/// Filing under a name keeps the names distinct; the value is then found
/// under the name, and under every other name what was found before.
pub proof fn law_put<T>(entries: Seq<(Seq<char>, T)>, name: Seq<char>, value: T)
    requires
        distinct(names_of(entries)),
    ensures
        distinct(names_of(put(entries, name, value))),
        lookup(put(entries, name, value), name) == Some(value),
        forall|other: Seq<char>|
            other != name ==> #[trigger] lookup(put(entries, name, value), other) == lookup(
                entries,
                other,
            ),
{
    let names = names_of(entries);
    let after = put(entries, name, value);
    lemma_find(names, name);
    match find(names, name) {
        Some(i) => {
            assert(names_of(after) =~= names);
        },
        None => {
            assert(names_of(after) =~= names.push(name));
            lemma_find_some(names_of(after), name, entries.len() as int);
            assert forall|other: Seq<char>| other != name implies #[trigger] lookup(after, other)
                == lookup(entries, other) by {
                lemma_find(names, other);
                match find(names, other) {
                    Some(j) => {
                        lemma_find_some(names_of(after), other, j);
                    },
                    None => {
                        lemma_find_none(names_of(after), other);
                    },
                }
            }
        },
    }
}

/// Entries whose names are distinct are filed each behind the last.
pub proof fn lemma_file_all_distinct<T>(done: Seq<(Seq<char>, T)>, rest: Seq<(Seq<char>, T)>)
    requires
        distinct(names_of(done + rest)),
    ensures
        file_all(done, rest) == done + rest,
    decreases rest.len(),
{
    if rest.len() == 0 {
        assert(done + rest =~= done);
    } else {
        let all = names_of(done + rest);
        let name = rest[0].0;
        assert(all[done.len() as int] == name);
        assert forall|j: int| 0 <= j < done.len() implies #[trigger] names_of(done)[j] != name by {
            assert(all[j] == names_of(done)[j]);
        }
        lemma_find_none(names_of(done), name);
        let next = done.push(rest[0]);
        assert(next + rest.drop_first() =~= done + rest);
        lemma_file_all_distinct(next, rest.drop_first());
    }
}

/// Among distinct names, an entry that was taken out is found no more, and
/// the names that stay are distinct.
pub proof fn lemma_without_forgets<T>(entries: Seq<(Seq<char>, T)>, name: Seq<char>)
    requires
        distinct(names_of(entries)),
    ensures
        lookup(without(entries, name), name) is None,
        distinct(names_of(without(entries, name))),
        forall|k: int|
            0 <= k < without(entries, name).len() ==> entries.contains(
                #[trigger] without(entries, name)[k],
            ),
{
    let names = names_of(entries);
    lemma_find(names, name);
    let left = without(entries, name);
    match find(names, name) {
        Some(i) => {
            assert forall|k: int| 0 <= k < left.len() implies #[trigger] names_of(left)[k]
                != name && left[k] == entries[if k < i { k } else { k + 1 }] by {
                let j = if k < i { k } else { k + 1 };
                assert(left[k] == entries[j]);
                assert(names[j] != names[i]);
            }
            assert forall|a: int, b: int| 0 <= a < b < left.len() implies names_of(left)[a]
                != names_of(left)[b] by {
                let ja = if a < i { a } else { a + 1 };
                let jb = if b < i { b } else { b + 1 };
                assert(left[a] == entries[ja] && left[b] == entries[jb]);
                assert(names[ja] != names[jb]);
            }
            assert forall|k: int| 0 <= k < left.len() implies entries.contains(
                #[trigger] left[k],
            ) by {
                let j = if k < i { k } else { k + 1 };
                assert(entries[j] == left[k]);
            }
        },
        None => {
            assert forall|k: int| 0 <= k < left.len() implies entries.contains(
                #[trigger] left[k],
            ) by {
                assert(entries[k] == left[k]);
            }
        },
    }
    lemma_find_none(names_of(left), name);
}

/// The names of a vector of entries whose names are strings.
pub open spec fn keys<T>(entries: Seq<(String, T)>) -> Seq<Seq<char>> {
    Seq::new(entries.len(), |i: int| entries[i].0@)
}

/// Finds the first entry filed under `name`.
pub fn find_key<T>(entries: &Vec<(String, T)>, name: &str) -> (r: Option<usize>)
    ensures
        match r {
            Some(i) => find(keys(entries@), name@) == Some(i as int),
            None => find(keys(entries@), name@) is None,
        },
{
    let wanted = name.to_owned();
    let mut i: usize = 0;
    while i < entries.len()
        invariant
            i <= entries.len(),
            wanted@ == name@,
            forall|j: int| 0 <= j < i ==> #[trigger] keys(entries@)[j] != name@,
        decreases entries.len() - i,
    {
        if entries[i].0 == wanted {
            proof {
                lemma_find_some(keys(entries@), name@, i as int);
            }
            return Some(i);
        }
        i += 1;
    }
    proof {
        lemma_find_none(keys(entries@), name@);
    }
    None
}

/// A map from names to values. No name occurs twice; the entries keep the
/// order in which their names were first inserted.
#[derive(Debug)]
pub struct NameMap<V> {
    entries: Vec<(String, V)>,
}

impl<V> View for NameMap<V> {
    type V = Seq<(Seq<char>, V)>;

    closed spec fn view(&self) -> Seq<(Seq<char>, V)> {
        Seq::new(self.entries@.len(), |i: int| (self.entries@[i].0@, self.entries@[i].1))
    }
}

impl<V> NameMap<V> {
    /// The invariant of every map: no name occurs twice.
    #[verifier::type_invariant]
    pub open spec fn well_formed(&self) -> bool {
        distinct(names_of(self@))
    }

    /// The empty map.
    pub fn new() -> (m: Self)
        ensures
            m@ == Seq::<(Seq<char>, V)>::empty(),
    {
        let m = NameMap { entries: Vec::new() };
        assert(m@ =~= Seq::<(Seq<char>, V)>::empty());
        m
    }

    /// The number of entries.
    pub fn len(&self) -> (n: usize)
        ensures
            n == self@.len(),
    {
        self.entries.len()
    }

    /// Whether the map has no entry.
    pub fn is_empty(&self) -> (b: bool)
        ensures
            b == (self@.len() == 0),
    {
        self.entries.len() == 0
    }

    /// The entries, in order.
    pub fn entries(&self) -> (r: &Vec<(String, V)>)
        ensures
            r@.len() == self@.len(),
            forall|i: int| 0 <= i < r@.len() ==> (#[trigger] r@[i]).0@ == self@[i].0,
            forall|i: int| 0 <= i < r@.len() ==> (#[trigger] r@[i]).1 == self@[i].1,
    {
        &self.entries
    }

    /// The value filed under `name`.
    pub fn get(&self, name: &str) -> (r: Option<&V>)
        ensures
            match r {
                Some(value) => lookup(self@, name@) == Some(*value),
                None => lookup(self@, name@) is None,
            },
    {
        assert(keys(self.entries@) =~= names_of(self@));
        match find_key(&self.entries, name) {
            Some(i) => Some(&self.entries[i].1),
            None => None,
        }
    }

    /// Whether a value is filed under `name`.
    pub fn contains_name(&self, name: &str) -> (b: bool)
        ensures
            b == lookup(self@, name@).is_some(),
    {
        assert(keys(self.entries@) =~= names_of(self@));
        find_key(&self.entries, name).is_some()
    }

    /// Files `value` under `name` and hands back the value that was filed
    /// there before.
    pub fn insert(&mut self, name: String, value: V) -> (previous: Option<V>)
        ensures
            final(self)@ == put(old(self)@, name@, value),
            previous == lookup(old(self)@, name@),
    {
        proof {
            use_type_invariant(&*self);
            assert(keys(self.entries@) =~= names_of(self@));
            lemma_find(names_of(self@), name@);
        }
        let found = find_key(&self.entries, name.as_str());
        let ghost before = self@;
        let mut entries: Vec<(String, V)> = Vec::new();
        core::mem::swap(&mut self.entries, &mut entries);
        let previous = match found {
            Some(i) => {
                let replaced = entries.remove(i);
                entries.insert(i, (name, value));
                Some(replaced.1)
            },
            None => {
                entries.push((name, value));
                None
            },
        };
        proof {
            let after = Seq::new(entries@.len(), |k: int| (entries@[k].0@, entries@[k].1));
            assert(after =~= put(before, name@, value));
            assert(names_of(after) =~= match found {
                Some(i) => names_of(before),
                None => names_of(before).push(name@),
            });
        }
        self.entries = entries;
        previous
    }

    /// Takes out the entry filed under `name` and hands back its value.
    pub fn remove(&mut self, name: &str) -> (taken: Option<V>)
        ensures
            final(self)@ == without(old(self)@, name@),
            taken == lookup(old(self)@, name@),
    {
        proof {
            use_type_invariant(&*self);
            assert(keys(self.entries@) =~= names_of(self@));
        }
        let found = find_key(&self.entries, name);
        let ghost before = self@;
        let mut entries: Vec<(String, V)> = Vec::new();
        core::mem::swap(&mut self.entries, &mut entries);
        let taken = match found {
            Some(i) => Some(entries.remove(i).1),
            None => None,
        };
        proof {
            let after = Seq::new(entries@.len(), |k: int| (entries@[k].0@, entries@[k].1));
            assert(after =~= without(before, name@));
            assert(distinct(names_of(after))) by {
                assert forall|a: int, b: int| 0 <= a < b < after.len() implies names_of(after)[a]
                    != names_of(after)[b] by {
                    let shift = |k: int|
                        match found {
                            Some(i) => if k < i as int { k } else { k + 1 },
                            None => k,
                        };
                    assert(names_of(after)[a] == names_of(before)[shift(a)]);
                    assert(names_of(after)[b] == names_of(before)[shift(b)]);
                }
            }
        }
        self.entries = entries;
        taken
    }
}

impl<V: Clone> Clone for NameMap<V> {
    /// A map with the same names in the same order, each value cloned.
    fn clone(&self) -> (copy: Self)
        ensures
            names_of(copy@) == names_of(self@),
            forall|i: int|
                0 <= i < self@.len() ==> cloned::<V>((#[trigger] self@[i]).1, copy@[i].1),
    {
        proof {
            use_type_invariant(self);
        }
        let mut entries: Vec<(String, V)> = Vec::new();
        let mut i: usize = 0;
        while i < self.entries.len()
            invariant
                i <= self.entries@.len(),
                entries@.len() == i,
                forall|j: int| 0 <= j < i ==> (#[trigger] entries@[j]).0@ == self.entries@[j].0@,
                forall|j: int|
                    0 <= j < i ==> cloned::<V>(self.entries@[j].1, (#[trigger] entries@[j]).1),
            decreases self.entries@.len() - i,
        {
            let name = self.entries[i].0.clone();
            let value = self.entries[i].1.clone();
            entries.push((name, value));
            i += 1;
        }
        proof {
            let after = Seq::new(entries@.len(), |k: int| (entries@[k].0@, entries@[k].1));
            assert(names_of(after) =~= names_of(self@));
        }
        let copy = NameMap { entries };
        assert(names_of(copy@) =~= names_of(self@));
        copy
    }
}

} // verus!
