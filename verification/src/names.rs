//! Map from names to values.
use crate::text::same_str;
use vstd::prelude::*;

verus! {

/// Map from names to values, in the order in which the names were first inserted.
#[derive(Debug)]
pub struct NamedMap<V> {
    pub entries: Vec<(String, V)>,
}

/// The first entry with a name, from `from` on.
pub open spec fn entry_at<V>(entries: Seq<(String, V)>, name: Seq<char>, from: nat) -> Option<nat>
    decreases entries.len() - from,
{
    if from >= entries.len() {
        None
    } else if entries[from as int].0@ == name {
        Some(from)
    } else {
        entry_at(entries, name, from + 1)
    }
}

/// The values of entries by their names.
pub open spec fn values_of<V>(entries: Seq<(String, V)>) -> Map<Seq<char>, V> {
    Map::new(
        |name: Seq<char>| entry_at(entries, name, 0) is Some,
        |name: Seq<char>| entries[entry_at(entries, name, 0)->0 as int].1,
    )
}

/// True where no name stands twice.
pub open spec fn names_differ<V>(entries: Seq<(String, V)>) -> bool {
    forall|i: int, j: int|
        0 <= i < j < entries.len() ==> (#[trigger] entries[i]).0@ != (#[trigger] entries[j]).0@
}

impl<V> View for NamedMap<V> {
    type V = Map<Seq<char>, V>;

    open spec fn view(&self) -> Map<Seq<char>, V> {
        values_of(self.entries@)
    }
}

impl<V> NamedMap<V> {
    pub open spec fn inv(&self) -> bool {
        names_differ(self.entries@)
    }

    pub fn new() -> (m: Self)
        ensures
            m.inv(),
            m.entries@.len() == 0,
            m@ == Map::<Seq<char>, V>::empty(),
    {
        let m: NamedMap<V> = NamedMap { entries: Vec::new() };
        assert(m@ =~= Map::<Seq<char>, V>::empty());
        m
    }

    /// The number of names.
    pub fn len(&self) -> (n: usize)
        requires
            self.inv(),
        ensures
            n == self.entries@.len(),
            n == self@.dom().len(),
            self@.dom().finite(),
    {
        proof {
            lemma_size(self.entries@);
        }
        self.entries.len()
    }

    /// Where a name stands.
    pub fn find(&self, name: &str) -> (r: Option<usize>)
        ensures
            match r {
                Some(i) => i < self.entries@.len() && entry_at(self.entries@, name@, 0) == Some(
                    i as nat,
                ) && self@.contains_key(name@) && self@[name@] == self.entries@[i as int].1,
                None => entry_at(self.entries@, name@, 0) is None && !self@.contains_key(name@),
            },
    {
        let mut i: usize = 0;
        while i < self.entries.len()
            invariant
                i <= self.entries@.len(),
                entry_at(self.entries@, name@, 0) == entry_at(self.entries@, name@, i as nat),
            decreases self.entries.len() - i,
        {
            if same_str(self.entries[i].0.as_str(), name) {
                return Some(i);
            }
            i = i + 1;
        }
        None
    }

    /// The value of a name.
    pub fn get(&self, name: &str) -> (r: Option<&V>)
        ensures
            match r {
                Some(v) => self@.contains_key(name@) && *v == self@[name@],
                None => !self@.contains_key(name@),
            },
    {
        match self.find(name) {
            Some(i) => Some(&self.entries[i].1),
            None => None,
        }
    }

    /// Gives a name a value, whatever it had before.
    pub fn insert(&mut self, name: String, value: V)
        requires
            old(self).inv(),
        ensures
            final(self).inv(),
            final(self)@ == old(self)@.insert(name@, value),
    {
        let ghost before = self.entries@;
        match self.find(name.as_str()) {
            Some(i) => {
                proof {
                    lemma_entry(before, name@, 0);
                    lemma_update(before, name, value, i as int);
                }
                self.entries.set(i, (name, value));
            },
            None => {
                proof {
                    lemma_entry(before, name@, 0);
                    lemma_push(before, name, value);
                }
                self.entries.push((name, value));
            },
        }
    }

    /// Takes a name out.
    pub fn remove(&mut self, name: &str) -> (r: Option<V>)
        requires
            old(self).inv(),
        ensures
            final(self).inv(),
            final(self)@ == old(self)@.remove(name@),
            match r {
                Some(v) => old(self)@.contains_key(name@) && v == old(self)@[name@],
                None => !old(self)@.contains_key(name@),
            },
    {
        let ghost before = self.entries@;
        match self.find(name) {
            Some(i) => {
                proof {
                    lemma_entry(before, name@, 0);
                    lemma_remove(before, name@, i as int);
                }
                let (_, value) = self.entries.remove(i);
                Some(value)
            },
            None => {
                assert(self@ =~= old(self)@.remove(name@));
                None
            },
        }
    }

    /// The value of a name, to be changed.
    pub fn get_mut(&mut self, name: &str) -> (r: Option<&mut V>)
        requires
            old(self).inv(),
        ensures
            match r {
                Some(v) => {
                    &&& old(self)@.contains_key(name@)
                    &&& *v == old(self)@[name@]
                    &&& final(self)@ == old(self)@.insert(name@, *final(v))
                    &&& final(self).inv()
                },
                None => !old(self)@.contains_key(name@) && *final(self) == *old(self),
            },
    {
        let ghost before = self.entries@;
        match self.find(name) {
            Some(i) => {
                proof {
                    lemma_entry(before, name@, 0);
                    assert forall|value: V| #[trigger]
                        before.update(i as int, (before[i as int].0, value)).len() == before.len()
                            && values_of(before.update(i as int, (before[i as int].0, value)))
                            == values_of(before).insert(name@, value) && names_differ(
                        before.update(i as int, (before[i as int].0, value)),
                    ) by {
                        lemma_update(before, before[i as int].0, value, i as int);
                    }
                }
                Some(&mut self.entries[i].1)
            },
            None => None,
        }
    }
}

/// What the first entry with a name is.
pub proof fn lemma_entry<V>(entries: Seq<(String, V)>, name: Seq<char>, from: nat)
    requires
        from <= entries.len(),
    ensures
        match entry_at(entries, name, from) {
            Some(i) => from <= i < entries.len() && entries[i as int].0@ == name && forall|j: int|
                from <= j < i ==> (#[trigger] entries[j]).0@ != name,
            None => forall|j: int| from <= j < entries.len() ==> (#[trigger] entries[j]).0@ != name,
        },
    decreases entries.len() - from,
{
    if from < entries.len() && entries[from as int].0@ != name {
        lemma_entry(entries, name, from + 1);
    }
}

/// Where names differ, an entry is the first with its name.
pub proof fn lemma_entry_is<V>(entries: Seq<(String, V)>, i: int)
    requires
        names_differ(entries),
        0 <= i < entries.len(),
    ensures
        entry_at(entries, entries[i].0@, 0) == Some(i as nat),
        values_of(entries).contains_key(entries[i].0@),
        values_of(entries)[entries[i].0@] == entries[i].1,
{
    lemma_entry(entries, entries[i].0@, 0);
}

proof fn lemma_update<V>(entries: Seq<(String, V)>, name: String, value: V, i: int)
    requires
        names_differ(entries),
        0 <= i < entries.len(),
        entries[i].0@ == name@,
    ensures
        names_differ(entries.update(i, (name, value))),
        values_of(entries.update(i, (name, value))) == values_of(entries).insert(name@, value),
{
    let now = entries.update(i, (name, value));
    assert forall|a: int, b: int| 0 <= a < b < now.len() implies (#[trigger] now[a]).0@ != (
    #[trigger] now[b]).0@ by {
        assert(now[a].0@ == entries[a].0@);
        assert(now[b].0@ == entries[b].0@);
    }
    let m = values_of(now);
    let expected = values_of(entries).insert(name@, value);
    assert forall|n: Seq<char>|
        #![trigger m.dom().contains(n)]
        #![trigger expected.dom().contains(n)]
        #![trigger m[n]]
        m.dom().contains(n) == expected.dom().contains(n) && (m.dom().contains(n) ==> m[n]
            == expected[n]) by {
        lemma_entry(entries, n, 0);
        lemma_entry(now, n, 0);
        lemma_same_names(entries, now, n, 0);
        if n == name@ {
            lemma_entry_is(entries, i);
        }
    }
    assert(m =~= expected);
}

/// Entries with the same names have them at the same places.
proof fn lemma_same_names<V>(a: Seq<(String, V)>, b: Seq<(String, V)>, name: Seq<char>, from: nat)
    requires
        a.len() == b.len(),
        forall|i: int| 0 <= i < a.len() ==> (#[trigger] a[i]).0@ == b[i].0@,
    ensures
        entry_at(a, name, from) == entry_at(b, name, from),
    decreases a.len() - from,
{
    if from < a.len() {
        assert(a[from as int].0@ == b[from as int].0@);
        lemma_same_names(a, b, name, from + 1);
    }
}

proof fn lemma_push<V>(entries: Seq<(String, V)>, name: String, value: V)
    requires
        names_differ(entries),
        forall|j: int| 0 <= j < entries.len() ==> (#[trigger] entries[j]).0@ != name@,
    ensures
        names_differ(entries.push((name, value))),
        values_of(entries.push((name, value))) == values_of(entries).insert(name@, value),
{
    let now = entries.push((name, value));
    let m = values_of(now);
    let expected = values_of(entries).insert(name@, value);
    assert forall|n: Seq<char>|
        #![trigger m.dom().contains(n)]
        #![trigger expected.dom().contains(n)]
        #![trigger m[n]]
        m.dom().contains(n) == expected.dom().contains(n) && (m.dom().contains(n) ==> m[n]
            == expected[n]) by {
        lemma_entry(entries, n, 0);
        lemma_entry(now, n, 0);
        if n == name@ {
            assert(now[entries.len() as int].0@ == n);
        } else {
            match entry_at(now, n, 0) {
                Some(k) => {
                    assert(k < entries.len());
                    assert(now[k as int] == entries[k as int]);
                    lemma_entry_is(entries, k as int);
                },
                None => {
                    match entry_at(entries, n, 0) {
                        Some(k) => {
                            assert(now[k as int] == entries[k as int]);
                        },
                        None => {},
                    }
                },
            }
        }
    }
    assert(m =~= expected);
}

proof fn lemma_remove<V>(entries: Seq<(String, V)>, name: Seq<char>, i: int)
    requires
        names_differ(entries),
        0 <= i < entries.len(),
        entries[i].0@ == name,
    ensures
        names_differ(entries.remove(i)),
        values_of(entries.remove(i)) == values_of(entries).remove(name),
{
    let now = entries.remove(i);
    assert forall|a: int, b: int| 0 <= a < b < now.len() implies (#[trigger] now[a]).0@ != (
    #[trigger] now[b]).0@ by {
        let a2 = if a < i {
            a
        } else {
            a + 1
        };
        let b2 = if b < i {
            b
        } else {
            b + 1
        };
        assert(now[a] == entries[a2]);
        assert(now[b] == entries[b2]);
    }
    let m = values_of(now);
    let expected = values_of(entries).remove(name);
    assert forall|n: Seq<char>|
        #![trigger m.dom().contains(n)]
        #![trigger expected.dom().contains(n)]
        #![trigger m[n]]
        m.dom().contains(n) == expected.dom().contains(n) && (m.dom().contains(n) ==> m[n]
            == expected[n]) by {
        lemma_entry(entries, n, 0);
        lemma_entry(now, n, 0);
        match entry_at(now, n, 0) {
            Some(k) => {
                let k2 = if k < i {
                    k as int
                } else {
                    k as int + 1
                };
                assert(now[k as int] == entries[k2]);
                lemma_entry_is(entries, k2);
            },
            None => {
                match entry_at(entries, n, 0) {
                    Some(k) => {
                        if k < i {
                            assert(now[k as int] == entries[k as int]);
                        } else if k > i {
                            assert(now[k - 1] == entries[k as int]);
                        }
                    },
                    None => {},
                }
            },
        }
    }
    assert(m =~= expected);
}

/// Where names differ, there are as many names as entries.
proof fn lemma_size<V>(entries: Seq<(String, V)>)
    requires
        names_differ(entries),
    ensures
        values_of(entries).dom().finite(),
        values_of(entries).dom().len() == entries.len(),
    decreases entries.len(),
{
    if entries.len() == 0 {
        assert(values_of(entries).dom() =~= Set::empty());
    } else {
        let before = entries.drop_last();
        assert forall|a: int, b: int| 0 <= a < b < before.len() implies (
        #[trigger] before[a]).0@ != (#[trigger] before[b]).0@ by {
            assert(before[a] == entries[a]);
            assert(before[b] == entries[b]);
        }
        lemma_size(before);
        let last = entries.last();
        assert forall|j: int| 0 <= j < before.len() implies (#[trigger] before[j]).0@
            != last.0@ by {
            assert(before[j] == entries[j]);
        }
        lemma_push(before, last.0, last.1);
        assert(before.push((last.0, last.1)) =~= entries);
        lemma_entry(before, last.0@, 0);
        assert(!values_of(before).dom().contains(last.0@));
        assert(values_of(entries).dom() =~= values_of(before).dom().insert(last.0@));
    }
}

/// A map holds exactly the values of its entries, each under its name.
pub proof fn law_map_holds_its_entries<V>(entries: Seq<(String, V)>, name: Seq<char>, i: int)
    requires
        names_differ(entries),
        0 <= i < entries.len(),
    ensures
        values_of(entries).contains_key(entries[i].0@),
        values_of(entries)[entries[i].0@] == entries[i].1,
        values_of(entries).contains_key(name) <==> exists|j: int|
            0 <= j < entries.len() && (#[trigger] entries[j]).0@ == name,
{
    lemma_entry_is(entries, i);
    lemma_entry(entries, name, 0);
    if exists|j: int| 0 <= j < entries.len() && (#[trigger] entries[j]).0@ == name {
        let j = choose|j: int| 0 <= j < entries.len() && (#[trigger] entries[j]).0@ == name;
        lemma_entry_is(entries, j);
    }
    if let Some(k) = entry_at(entries, name, 0) {
        assert(entries[k as int].0@ == name);
    }
}

} // verus!
