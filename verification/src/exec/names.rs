use vstd::prelude::*;

verus! {

/// The map that a list of entries denotes: a later entry for a name
/// replaces an earlier one.
pub open spec fn entries_map<V>(s: Seq<(String, V)>) -> Map<Seq<char>, V>
    decreases s.len(),
{
    if s.len() == 0 {
        Map::empty()
    } else {
        entries_map(s.drop_last()).insert(s.last().0@, s.last().1)
    }
}

/// No name occurs twice among the entries.
pub open spec fn distinct_names<V>(s: Seq<(String, V)>) -> bool {
    forall|i: int, j: int| 0 <= i < j < s.len() ==> (#[trigger] s[i]).0@ != (#[trigger] s[j]).0@
}

/// Every entry's name is bound to the entry's value.
proof fn lemma_entries_map_index<V>(s: Seq<(String, V)>, i: int)
    requires
        distinct_names(s),
        0 <= i < s.len(),
    ensures
        entries_map(s).contains_key(s[i].0@),
        entries_map(s)[s[i].0@] == s[i].1,
    decreases s.len(),
{
    if i < s.len() - 1 {
        let t = s.drop_last();
        assert(t[i] == s[i]);
        assert(distinct_names(t)) by {
            assert forall|a: int, b: int| 0 <= a < b < t.len() implies (#[trigger] t[a]).0@ != (#[trigger] t[b]).0@ by {
                assert(t[a] == s[a] && t[b] == s[b]);
            }
        }
        lemma_entries_map_index(t, i);
        assert(s[i].0@ != s[s.len() - 1].0@);
    }
}

/// A name that no entry carries is not bound.
proof fn lemma_entries_map_absent<V>(s: Seq<(String, V)>, k: Seq<char>)
    requires
        forall|i: int| 0 <= i < s.len() ==> (#[trigger] s[i]).0@ != k,
    ensures
        !entries_map(s).contains_key(k),
    decreases s.len(),
{
    if s.len() > 0 {
        let t = s.drop_last();
        assert forall|i: int| 0 <= i < t.len() implies (#[trigger] t[i]).0@ != k by {
            assert(t[i] == s[i]);
        }
        lemma_entries_map_absent(t, k);
        assert(s[s.len() - 1].0@ != k);
    }
}

/// Replacing an entry by one with the same name rebinds that name.
proof fn lemma_entries_map_update<V>(s: Seq<(String, V)>, i: int, e: (String, V))
    requires
        0 <= i < s.len(),
        s[i].0@ == e.0@,
        distinct_names(s),
    ensures
        entries_map(s.update(i, e)) == entries_map(s).insert(e.0@, e.1),
    decreases s.len(),
{
    let u = s.update(i, e);
    if i == s.len() - 1 {
        assert(u.drop_last() =~= s.drop_last());
        lemma_entries_map_absent_insert(s.drop_last(), e.0@, s[i].1, e.1);
    } else {
        let t = s.drop_last();
        assert(distinct_names(t)) by {
            assert forall|a: int, b: int| 0 <= a < b < t.len() implies (#[trigger] t[a]).0@ != (#[trigger] t[b]).0@ by {
                assert(t[a] == s[a] && t[b] == s[b]);
            }
        }
        lemma_entries_map_update(t, i, e);
        assert(u.drop_last() =~= t.update(i, e));
        assert(s[i].0@ != s[s.len() - 1].0@);
        assert(entries_map(u) =~= entries_map(s).insert(e.0@, e.1));
    }
}

/// Binding a name twice in a row keeps only the second binding.
proof fn lemma_entries_map_absent_insert<V>(s: Seq<(String, V)>, k: Seq<char>, v1: V, v2: V)
    ensures
        entries_map(s).insert(k, v1).insert(k, v2) == entries_map(s).insert(k, v2),
{
    assert(entries_map(s).insert(k, v1).insert(k, v2) =~= entries_map(s).insert(k, v2));
}

/// A map from names to values, kept as a list of entries in which no name
/// occurs twice.
pub struct NameMap<V> {
    entries: Vec<(String, V)>,
}

impl<V> NameMap<V> {
    #[verifier::type_invariant]
    spec fn wf(self) -> bool {
        distinct_names(self.entries@)
    }

    /// The map from names to values.
    pub closed spec fn as_map(&self) -> Map<Seq<char>, V> {
        entries_map(self.entries@)
    }

    /// An empty map.
    pub fn new() -> (r: Self)
        ensures
            r@ == Map::<Seq<char>, V>::empty(),
    {
        NameMap { entries: Vec::new() }
    }

    /// Binds `name` to `value`, replacing an earlier binding of `name`.
    pub fn insert(&mut self, name: String, value: V)
        ensures
            final(self)@ == old(self)@.insert(name@, value),
    {
        proof {
            use_type_invariant(&*self);
        }
        let mut entries: Vec<(String, V)> = Vec::new();
        std::mem::swap(&mut entries, &mut self.entries);
        let mut i: usize = 0;
        while i < entries.len()
            invariant
                i <= entries@.len(),
                entries@ == old(self).entries@,
                distinct_names(entries@),
                forall|j: int| 0 <= j < i ==> (#[trigger] entries@[j]).0@ != name@,
            decreases entries@.len() - i,
        {
            if entries[i].0 == name {
                let ghost e = (name, value);
                proof {
                    lemma_entries_map_update(entries@, i as int, e);
                }
                entries.set(i, (name, value));
                proof {
                    assert forall|a: int, b: int| 0 <= a < b < entries@.len() implies
                        (#[trigger] entries@[a]).0@ != (#[trigger] entries@[b]).0@ by {
                        assert(old(self).entries@[a].0@ != old(self).entries@[b].0@);
                    }
                }
                self.entries = entries;
                return;
            }
            i = i + 1;
        }
        let ghost s = entries@;
        entries.push((name, value));
        proof {
            assert(entries@.drop_last() =~= s);
            assert forall|a: int, b: int| 0 <= a < b < entries@.len() implies
                (#[trigger] entries@[a]).0@ != (#[trigger] entries@[b]).0@ by {
                if b < s.len() {
                    assert(s[a].0@ != s[b].0@);
                } else {
                    assert(entries@[a] == s[a]);
                }
            }
        }
        self.entries = entries;
    }

    /// The value bound to `name`, if any.
    pub fn get(&self, name: &str) -> (r: Option<&V>)
        ensures
            match r {
                Some(v) => self@.contains_key(name@) && *v == self@[name@],
                None => !self@.contains_key(name@),
            },
    {
        proof {
            use_type_invariant(self);
        }
        let key = name.to_owned();
        let mut i: usize = 0;
        while i < self.entries.len()
            invariant
                i <= self.entries@.len(),
                distinct_names(self.entries@),
                key@ == name@,
                forall|j: int| 0 <= j < i ==> (#[trigger] self.entries@[j]).0@ != name@,
            decreases self.entries@.len() - i,
        {
            if self.entries[i].0 == key {
                proof {
                    lemma_entries_map_index(self.entries@, i as int);
                }
                return Some(&self.entries[i].1);
            }
            i = i + 1;
        }
        proof {
            lemma_entries_map_absent(self.entries@, name@);
        }
        None
    }
}

impl<V> View for NameMap<V> {
    type V = Map<Seq<char>, V>;

    open spec fn view(&self) -> Map<Seq<char>, V> {
        self.as_map()
    }
}

/// After `insert(name, value)`, `get(name)` finds `value`, and every
/// other name is bound as before.
pub proof fn law_insert_then_get<V>(m1: Map<Seq<char>, V>, m2: Map<Seq<char>, V>, name: Seq<char>, value: V, other: Seq<char>)
    requires
        m2 == m1.insert(name, value),
        other != name,
    ensures
        m2.contains_key(name),
        m2[name] == value,
        m2.contains_key(other) == m1.contains_key(other),
        m1.contains_key(other) ==> m2[other] == m1[other],
{
}

} // verus!
