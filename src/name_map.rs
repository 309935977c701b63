//! A map from names to values that remembers the order in which names first
//! appeared. Writing to an existing name replaces its value in place.

use vstd::prelude::*;

verus! {

/// The map that a sequence of `(name, value)` entries stands for: a later
/// entry for a name wins over an earlier one.
pub open spec fn entries_map<V>(s: Seq<(String, V)>) -> Map<Seq<char>, V>
    decreases s.len(),
{
    if s.len() == 0 {
        Map::empty()
    } else {
        entries_map(s.drop_last()).insert(s.last().0@, s.last().1)
    }
}

/// The names of a sequence of entries, in entry order.
pub open spec fn entry_names<V>(s: Seq<(String, V)>) -> Seq<Seq<char>> {
    s.map_values(|e: (String, V)| e.0@)
}

/// No name occurs in two entries.
pub open spec fn names_distinct<V>(s: Seq<(String, V)>) -> bool {
    forall|i: int, j: int|
        0 <= i < s.len() && 0 <= j < s.len() && i != j ==> #[trigger] s[i].0@ != #[trigger] s[j].0@
}

proof fn lemma_entry_in_map<V>(s: Seq<(String, V)>, i: int)
    requires
        names_distinct(s),
        0 <= i < s.len(),
    ensures
        entries_map(s).contains_key(s[i].0@),
        entries_map(s)[s[i].0@] == s[i].1,
    decreases s.len(),
{
    if i < s.len() - 1 {
        let t = s.drop_last();
        assert(t[i] == s[i]);
        assert(names_distinct(t)) by {
            assert forall|a: int, b: int|
                0 <= a < t.len() && 0 <= b < t.len() && a != b implies #[trigger] t[a].0@
                != #[trigger] t[b].0@ by {
                assert(t[a] == s[a] && t[b] == s[b]);
            }
        }
        lemma_entry_in_map(t, i);
        assert(s[i].0@ != s[s.len() - 1].0@);
    }
}

proof fn lemma_absent_from_map<V>(s: Seq<(String, V)>, k: Seq<char>)
    requires
        forall|i: int| 0 <= i < s.len() ==> #[trigger] s[i].0@ != k,
    ensures
        !entries_map(s).contains_key(k),
    decreases s.len(),
{
    if s.len() > 0 {
        let t = s.drop_last();
        assert forall|i: int| 0 <= i < t.len() implies #[trigger] t[i].0@ != k by {
            assert(t[i] == s[i]);
        }
        lemma_absent_from_map(t, k);
    }
}

proof fn lemma_map_domain<V>(s: Seq<(String, V)>, k: Seq<char>)
    requires
        entries_map(s).contains_key(k),
    ensures
        exists|i: int| 0 <= i < s.len() && #[trigger] s[i].0@ == k,
{
    if forall|i: int| 0 <= i < s.len() ==> #[trigger] s[i].0@ != k {
        lemma_absent_from_map(s, k);
    }
}

proof fn lemma_replace_entry<V>(s: Seq<(String, V)>, i: int, e: (String, V))
    requires
        names_distinct(s),
        0 <= i < s.len(),
        e.0@ == s[i].0@,
    ensures
        entries_map(s.update(i, e)) == entries_map(s).insert(e.0@, e.1),
    decreases s.len(),
{
    let u = s.update(i, e);
    if i == s.len() - 1 {
        assert(u.drop_last() == s.drop_last());
        assert(entries_map(s).insert(e.0@, e.1) == entries_map(s.drop_last()).insert(
            e.0@,
            e.1,
        ));
    } else {
        let t = s.drop_last();
        assert(names_distinct(t)) by {
            assert forall|a: int, b: int|
                0 <= a < t.len() && 0 <= b < t.len() && a != b implies #[trigger] t[a].0@
                != #[trigger] t[b].0@ by {
                assert(t[a] == s[a] && t[b] == s[b]);
            }
        }
        lemma_replace_entry(t, i, e);
        assert(u.drop_last() == t.update(i, e));
        assert(s.last().0@ != e.0@) by {
            assert(s[s.len() - 1].0@ != s[i].0@);
        }
        assert(entries_map(u) =~= entries_map(s).insert(e.0@, e.1));
    }
}

/// Values stored under names, kept in the order in which each name was first
/// written.
pub struct NameMap<V> {
    entries: Vec<(String, V)>,
}

impl<V> View for NameMap<V> {
    type V = Map<Seq<char>, V>;

    closed spec fn view(&self) -> Map<Seq<char>, V> {
        entries_map(self.entries@)
    }
}

impl<V> NameMap<V> {
    /// The entries are keyed by distinct names.
    pub closed spec fn wf(&self) -> bool {
        names_distinct(self.entries@)
    }

    /// The names held, in the order in which each was first written.
    pub closed spec fn names(&self) -> Seq<Seq<char>> {
        entry_names(self.entries@)
    }

    proof fn lemma_names_match_map(&self)
        requires
            self.wf(),
        ensures
            self.names().no_duplicates(),
            self.names().len() == self@.dom().len(),
            forall|k: Seq<char>| #[trigger] self@.contains_key(k) <==> self.names().contains(k),
    {
        let s = self.entries@;
        let ns = self.names();
        assert forall|k: Seq<char>| #[trigger] self@.contains_key(k) <==> ns.contains(k) by {
            if self@.contains_key(k) {
                lemma_map_domain(s, k);
                let i = choose|i: int| 0 <= i < s.len() && #[trigger] s[i].0@ == k;
                assert(ns[i] == k);
            }
            if ns.contains(k) {
                let i = choose|i: int| 0 <= i < ns.len() && ns[i] == k;
                assert(ns[i] == s[i].0@);
                lemma_entry_in_map(s, i);
            }
        }
        assert(ns.no_duplicates()) by {
            assert forall|i: int, j: int|
                0 <= i < ns.len() && 0 <= j < ns.len() && i != j implies ns[i] != ns[j] by {
                assert(ns[i] == s[i].0@ && ns[j] == s[j].0@);
            }
        }
        ns.unique_seq_to_set();
        assert(ns.to_set() =~= self@.dom());
    }

    pub fn new() -> (r: Self)
        ensures
            r.wf(),
            r@ == Map::<Seq<char>, V>::empty(),
            r.names() == Seq::<Seq<char>>::empty(),
    {
        let r = NameMap { entries: Vec::new() };
        assert(r.names() =~= Seq::<Seq<char>>::empty());
        r
    }

    /// The number of names held.
    pub fn len(&self) -> (n: usize)
        requires
            self.wf(),
        ensures
            n == self@.dom().len(),
            n == self.names().len(),
    {
        proof {
            self.lemma_names_match_map();
        }
        self.entries.len()
    }

    pub fn is_empty(&self) -> (b: bool)
        requires
            self.wf(),
        ensures
            b == (self@.dom().len() == 0),
    {
        proof {
            self.lemma_names_match_map();
        }
        self.entries.len() == 0
    }

    /// The `i`-th name in the order in which names were first written.
    pub fn name_at(&self, i: usize) -> (r: &String)
        requires
            i < self.names().len(),
        ensures
            r@ == self.names()[i as int],
    {
        &self.entries[i].0
    }

    /// The position of the entry named `key`, if there is one.
    fn find(&self, key: &String) -> (r: Option<usize>)
        requires
            self.wf(),
        ensures
            match r {
                Some(i) => i < self.entries@.len() && self.entries@[i as int].0@ == key@,
                None => forall|i: int|
                    0 <= i < self.entries@.len() ==> #[trigger] self.entries@[i].0@ != key@,
            },
            r is Some <==> self@.contains_key(key@),
    {
        let mut i: usize = 0;
        while i < self.entries.len()
            invariant
                self.wf(),
                i <= self.entries@.len(),
                forall|j: int| 0 <= j < i ==> #[trigger] self.entries@[j].0@ != key@,
            decreases self.entries@.len() - i,
        {
            if self.entries[i].0 == *key {
                proof {
                    lemma_entry_in_map(self.entries@, i as int);
                }
                return Some(i);
            }
            i = i + 1;
        }
        proof {
            lemma_absent_from_map(self.entries@, key@);
        }
        None
    }

    pub fn contains_key(&self, key: &str) -> (b: bool)
        requires
            self.wf(),
        ensures
            b == self@.contains_key(key@),
    {
        let k = key.to_string();
        self.find(&k).is_some()
    }

    /// The value stored under `key`, if any.
    pub fn get(&self, key: &str) -> (r: Option<&V>)
        requires
            self.wf(),
        ensures
            match r {
                Some(v) => self@.contains_key(key@) && *v == self@[key@],
                None => !self@.contains_key(key@),
            },
    {
        let k = key.to_string();
        match self.find(&k) {
            Some(i) => {
                proof {
                    lemma_entry_in_map(self.entries@, i as int);
                }
                Some(&self.entries[i].1)
            },
            None => None,
        }
    }

    /// Stores `value` under `key`, replacing the value already there. A new
    /// name goes after all names held; a name already held keeps its place.
    pub fn insert(&mut self, key: String, value: V)
        requires
            old(self).wf(),
        ensures
            final(self).wf(),
            final(self)@ == old(self)@.insert(key@, value),
            final(self).names() == (if old(self)@.contains_key(key@) {
                old(self).names()
            } else {
                old(self).names().push(key@)
            }),
    {
        match self.find(&key) {
            Some(i) => {
                let ghost s = self.entries@;
                let ghost k = key@;
                proof {
                    lemma_replace_entry(s, i as int, (key, value));
                }
                self.entries.set(i, (key, value));
                proof {
                    assert(self.entries@ == s.update(i as int, (key, value)));
                    assert(names_distinct(self.entries@)) by {
                        assert forall|a: int, b: int|
                            0 <= a < s.len() && 0 <= b < s.len() && a != b implies #[trigger] self.entries@[a].0@
                            != #[trigger] self.entries@[b].0@ by {
                            assert(s[a].0@ != s[b].0@);
                        }
                    }
                    assert(entry_names(self.entries@) =~= entry_names(s));
                }
            },
            None => {
                let ghost s = self.entries@;
                self.entries.push((key, value));
                proof {
                    assert(self.entries@.drop_last() == s);
                    assert(entry_names(self.entries@) =~= entry_names(s).push(key@));
                }
            },
        }
    }
}

/// The list of names that each name of `m` maps to, as character sequences.
pub open spec fn name_lists(m: Map<Seq<char>, Vec<String>>) -> Map<Seq<char>, Seq<Seq<char>>> {
    m.map_values(|v: Vec<String>| v@.map_values(|s: String| s@))
}

/// The list under `k`, or the empty list where `k` has none.
pub open spec fn list_or_empty(m: Map<Seq<char>, Seq<Seq<char>>>, k: Seq<char>) -> Seq<Seq<char>> {
    if m.contains_key(k) {
        m[k]
    } else {
        Seq::empty()
    }
}

impl NameMap<Vec<String>> {
    /// Appends `item` to the list stored under `key`, starting a list there
    /// if the name holds none yet.
    pub fn append(&mut self, key: &String, item: String)
        requires
            old(self).wf(),
        ensures
            final(self).wf(),
            name_lists(final(self)@) == name_lists(old(self)@).insert(
                key@,
                list_or_empty(name_lists(old(self)@), key@).push(item@),
            ),
            final(self).names() == (if old(self)@.contains_key(key@) {
                old(self).names()
            } else {
                old(self).names().push(key@)
            }),
    {
        let ghost m = self@;
        match self.find(key) {
            Some(i) => {
                let ghost s = self.entries@;
                let mut e = self.entries.remove(i);
                e.1.push(item);
                self.entries.insert(i, e);
                proof {
                    lemma_entry_in_map(s, i as int);
                    assert(self.entries@ =~= s.update(i as int, e));
                    lemma_replace_entry(s, i as int, e);
                    assert(names_distinct(self.entries@)) by {
                        assert forall|a: int, b: int|
                            0 <= a < s.len() && 0 <= b < s.len() && a != b implies #[trigger] self.entries@[a].0@
                            != #[trigger] self.entries@[b].0@ by {
                            assert(s[a].0@ != s[b].0@);
                        }
                    }
                    assert(entry_names(self.entries@) =~= entry_names(s));
                    assert(e.1@ =~= s[i as int].1@.push(item));
                    assert(e.1@.map_values(|s: String| s@) =~= s[i as int].1@.map_values(
                        |s: String| s@,
                    ).push(item@));
                    assert(name_lists(self@) =~= name_lists(m).insert(
                        key@,
                        list_or_empty(name_lists(m), key@).push(item@),
                    ));
                }
            },
            None => {
                let ghost s = self.entries@;
                let mut list: Vec<String> = Vec::new();
                list.push(item);
                self.entries.push((key.clone(), list));
                proof {
                    assert(self.entries@.drop_last() == s);
                    assert(entry_names(self.entries@) =~= entry_names(s).push(key@));
                    assert(list@.map_values(|s: String| s@) =~= seq![item@]);
                    assert(name_lists(self@) =~= name_lists(m).insert(
                        key@,
                        list_or_empty(name_lists(m), key@).push(item@),
                    ));
                }
            },
        }
    }
}

} // verus!
