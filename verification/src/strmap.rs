//! A small map from text keys to text values, kept as a list of entries
//! with distinct keys.
use vstd::prelude::*;

verus! {

broadcast use {
    vstd::set::axiom_set_insert_len,
    vstd::set::axiom_set_insert_finite,
    vstd::set::axiom_set_empty_len,
    vstd::set::axiom_set_empty_finite,
};

/// The name to path map held by a list of entries.
pub open spec fn entries_map(es: Seq<(String, String)>) -> Map<Seq<char>, Seq<char>>
    decreases es.len(),
{
    if es.len() == 0 {
        Map::empty()
    } else {
        entries_map(es.drop_last()).insert(es.last().0@, es.last().1@)
    }
}

proof fn lemma_same_views(a: Seq<(String, String)>, b: Seq<(String, String)>)
    requires
        a.len() == b.len(),
        forall|j: int| 0 <= j < a.len() ==> #[trigger] a[j].0@ == b[j].0@ && a[j].1@ == b[j].1@,
    ensures
        entries_map(a) == entries_map(b),
        names_distinct(b) ==> names_distinct(a),
    decreases a.len(),
{
    if a.len() > 0 {
        lemma_same_views(a.drop_last(), b.drop_last());
        assert(a.last().0@ == b.last().0@);
    }
    if names_distinct(b) {
        assert forall|i: int, j: int| 0 <= i < j < a.len() implies a[i].0@ != a[j].0@ by {
            assert(a[i].0@ == b[i].0@);
            assert(a[j].0@ == b[j].0@);
        }
    }
}

/// No name occurs twice among the entries.
pub open spec fn names_distinct(es: Seq<(String, String)>) -> bool {
    forall|i: int, j: int| 0 <= i < j < es.len() ==> es[i].0@ != es[j].0@
}

pub proof fn lemma_entries_map(es: Seq<(String, String)>)
    requires
        names_distinct(es),
    ensures
        entries_map(es).dom().finite(),
        entries_map(es).len() == es.len(),
        forall|i: int| 0 <= i < es.len() ==> #[trigger] entries_map(es).contains_key(es[i].0@)
            && entries_map(es)[es[i].0@] == es[i].1@,
        forall|k: Seq<char>| #[trigger] entries_map(es).contains_key(k) ==> exists|i: int|
            0 <= i < es.len() && es[i].0@ == k,
    decreases es.len(),
{
    if es.len() > 0 {
        let init = es.drop_last();
        lemma_entries_map(init);
        let k = es.last().0@;
        assert(!entries_map(init).contains_key(k)) by {
            if entries_map(init).contains_key(k) {
                let i = choose|i: int| 0 <= i < init.len() && init[i].0@ == k;
                assert(es[i].0@ != es[es.len() - 1].0@);
            }
        }
        let m = entries_map(es);
        assert forall|i: int| 0 <= i < es.len() implies #[trigger] m.contains_key(es[i].0@)
            && m[es[i].0@] == es[i].1@ by {
            if i < es.len() - 1 {
                assert(es[i] == init[i]);
                assert(es[i].0@ != k);
            }
        }
        assert forall|k2: Seq<char>| #[trigger] m.contains_key(k2) implies exists|i: int|
            0 <= i < es.len() && es[i].0@ == k2 by {
            if k2 == k {
                assert(es[es.len() - 1].0@ == k2);
            } else {
                assert(entries_map(init).contains_key(k2));
                let i = choose|i: int| 0 <= i < init.len() && init[i].0@ == k2;
                assert(es[i] == init[i]);
            }
        }
        assert(m.dom() =~= entries_map(init).dom().insert(k));
    } else {
        assert(entries_map(es).dom() =~= Set::<Seq<char>>::empty());
    }
}

/// A map from text keys to text values.
#[derive(Debug)]
pub struct StrMap {
    entries: Vec<(String, String)>,
}

impl View for StrMap {
    type V = Map<Seq<char>, Seq<char>>;

    closed spec fn view(&self) -> Map<Seq<char>, Seq<char>> {
        entries_map(self.entries@)
    }
}

impl StrMap {
    #[verifier::type_invariant]
    spec fn wf(self) -> bool {
        names_distinct(self.entries@)
    }

    /// An empty map.
    pub fn new() -> (r: Self)
        ensures
            r@ == Map::<Seq<char>, Seq<char>>::empty(),
    {
        let es: Vec<(String, String)> = Vec::new();
        assert(names_distinct(es@));
        StrMap { entries: es }
    }

    fn index_of(&self, key: &str) -> (r: Option<usize>)
        ensures
            r matches Some(i) ==> i < self.entries@.len() && self.entries@[i as int].0@ == key@,
            r is None ==> !self@.contains_key(key@),
    {
        proof { use_type_invariant(self); lemma_entries_map(self.entries@); }
        let k = String::from_str(key);
        let mut i: usize = 0;
        while i < self.entries.len()
            invariant
                i <= self.entries@.len(),
                k@ == key@,
                forall|j: int| 0 <= j < i ==> self.entries@[j].0@ != key@,
            decreases self.entries@.len() - i,
        {
            if self.entries[i].0 == k {
                return Some(i);
            }
            i = i + 1;
        }
        None
    }

    /// The value for `key`, if any.
    pub fn get(&self, key: &str) -> (r: Option<&String>)
        ensures
            r matches Some(v) ==> self@.contains_key(key@) && self@[key@] == v@,
            r is None ==> !self@.contains_key(key@),
    {
        proof { use_type_invariant(self); lemma_entries_map(self.entries@); }
        match self.index_of(key) {
            Some(i) => {
                proof { assert(self@.contains_key(self.entries@[i as int].0@)); }
                Some(&self.entries[i].1)
            },
            None => None,
        }
    }

    /// Whether `key` has a value.
    pub fn contains_key(&self, key: &str) -> (r: bool)
        ensures
            r == self@.contains_key(key@),
    {
        proof { use_type_invariant(self); lemma_entries_map(self.entries@); }
        match self.index_of(key) {
            Some(i) => {
                proof { assert(self@.contains_key(self.entries@[i as int].0@)); }
                true
            },
            None => false,
        }
    }

    /// Number of keys.
    pub fn len(&self) -> (r: usize)
        ensures
            r == self@.len(),
    {
        proof { use_type_invariant(self); lemma_entries_map(self.entries@); }
        self.entries.len()
    }

    /// Whether the map has no keys.
    pub fn is_empty(&self) -> (r: bool)
        ensures
            r == (self@.len() == 0),
    {
        self.len() == 0
    }

    /// Sets `key` to `value`, replacing an earlier value.
    pub fn insert(&mut self, key: String, value: String)
        ensures
            final(self)@ == old(self)@.insert(key@, value@),
    {
        proof { use_type_invariant(&*self); lemma_entries_map(self.entries@); }
        let ghost before = self.entries@;
        match self.index_of(key.as_str()) {
            Some(i) => {
                let mut es = Vec::new();
                std::mem::swap(&mut es, &mut self.entries);
                es.set(i, (key, value));
                proof {
                    assert(names_distinct(es@)) by {
                        assert forall|a: int, b: int| 0 <= a < b < es@.len() implies es@[a].0@ != es@[b].0@ by {
                            assert(before[a].0@ != before[b].0@);
                        }
                    }
                    lemma_entries_map(es@);
                    let m1 = entries_map(es@);
                    let m0 = entries_map(before).insert(key@, value@);
                    assert forall|k: Seq<char>| m1.contains_key(k) == m0.contains_key(k) by {
                        if m1.contains_key(k) {
                            let j = choose|j: int| 0 <= j < es@.len() && es@[j].0@ == k;
                            assert(before[j].0@ == k);
                            assert(entries_map(before).contains_key(before[j].0@));
                        }
                        if m0.contains_key(k) {
                            if k == key@ {
                                assert(m1.contains_key(es@[i as int].0@));
                            } else {
                                let j = choose|j: int| 0 <= j < before.len() && before[j].0@ == k;
                                assert(es@[j].0@ == k);
                                assert(m1.contains_key(es@[j].0@));
                            }
                        }
                    }
                    assert forall|k: Seq<char>| m1.contains_key(k) implies m1[k] == m0[k] by {
                        let j = choose|j: int| 0 <= j < es@.len() && es@[j].0@ == k;
                        assert(m1.contains_key(es@[j].0@));
                        if j != i {
                            assert(before[j] == es@[j]);
                            assert(entries_map(before).contains_key(before[j].0@));
                        }
                    }
                    assert(m1 =~= m0);
                }
                self.entries = es;
            },
            None => {
                let mut es = Vec::new();
                std::mem::swap(&mut es, &mut self.entries);
                es.push((key, value));
                proof {
                    assert(es@.drop_last() == before);
                    assert(names_distinct(es@)) by {
                        assert forall|a: int, b: int| 0 <= a < b < es@.len() implies es@[a].0@ != es@[b].0@ by {
                            if b == es@.len() - 1 {
                                assert(entries_map(before).contains_key(before[a].0@));
                            } else {
                                assert(before[a].0@ != before[b].0@);
                            }
                        }
                    }
                }
                self.entries = es;
            },
        }
    }

    /// The entries, each key once (in insertion order of first keys).
    pub fn pairs(&self) -> (r: Vec<(String, String)>)
        ensures
            entries_map(r@) == self@,
            names_distinct(r@),
    {
        proof { use_type_invariant(self); }
        let mut out: Vec<(String, String)> = Vec::new();
        let mut i: usize = 0;
        while i < self.entries.len()
            invariant
                i <= self.entries@.len(),
                names_distinct(self.entries@),
                out@.len() == i,
                forall|j: int| 0 <= j < i ==> #[trigger] out@[j].0@ == self.entries@[j].0@ && out@[j].1@ == self.entries@[j].1@,
            decreases self.entries@.len() - i,
        {
            let k = self.entries[i].0.clone();
            let v = self.entries[i].1.clone();
            out.push((k, v));
            i = i + 1;
        }
        proof { lemma_same_views(out@, self.entries@); }
        out
    }

    /// Removes `key`, returning its value if it had one.
    pub fn remove(&mut self, key: &str) -> (r: Option<String>)
        ensures
            final(self)@ == old(self)@.remove(key@),
            r matches Some(v) ==> old(self)@.contains_key(key@) && old(self)@[key@] == v@,
            r is None ==> !old(self)@.contains_key(key@),
    {
        proof { use_type_invariant(&*self); lemma_entries_map(self.entries@); }
        let ghost before = self.entries@;
        match self.index_of(key) {
            Some(i) => {
                let mut es = Vec::new();
                std::mem::swap(&mut es, &mut self.entries);
                let (_, v) = es.remove(i);
                proof {
                    assert(names_distinct(es@)) by {
                        assert forall|a: int, b: int| 0 <= a < b < es@.len() implies es@[a].0@ != es@[b].0@ by {
                            let a2 = if a < i { a } else { a + 1 };
                            let b2 = if b < i { b } else { b + 1 };
                            assert(es@[a] == before[a2]);
                            assert(es@[b] == before[b2]);
                            assert(before[a2].0@ != before[b2].0@);
                        }
                    }
                    lemma_entries_map(es@);
                    assert(entries_map(before).contains_key(before[i as int].0@));
                    let m1 = entries_map(es@);
                    let m0 = entries_map(before).remove(key@);
                    assert forall|k: Seq<char>| m1.contains_key(k) == m0.contains_key(k) by {
                        if m1.contains_key(k) {
                            let j = choose|j: int| 0 <= j < es@.len() && es@[j].0@ == k;
                            let j2 = if j < i { j } else { j + 1 };
                            assert(es@[j] == before[j2]);
                            assert(entries_map(before).contains_key(before[j2].0@));
                            assert(before[j2].0@ != before[i as int].0@);
                        }
                        if m0.contains_key(k) {
                            let j = choose|j: int| 0 <= j < before.len() && before[j].0@ == k;
                            assert(j != i);
                            let j1 = if j < i { j } else { j - 1 };
                            assert(es@[j1] == before[j]);
                            assert(m1.contains_key(es@[j1].0@));
                        }
                    }
                    assert forall|k: Seq<char>| m1.contains_key(k) implies m1[k] == m0[k] by {
                        let j = choose|j: int| 0 <= j < es@.len() && es@[j].0@ == k;
                        let j2 = if j < i { j } else { j + 1 };
                        assert(es@[j] == before[j2]);
                        assert(m1.contains_key(es@[j].0@));
                        assert(entries_map(before).contains_key(before[j2].0@));
                    }
                    assert(m1 =~= m0);
                }
                self.entries = es;
                Some(v)
            },
            None => {
                assert(old(self)@.remove(key@) =~= old(self)@);
                None
            },
        }
    }
}

} // verus!
