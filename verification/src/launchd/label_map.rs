use vstd::prelude::*;
use crate::text::str_eq;

verus! {

/// The map that a sequence of (label, value) pairs with distinct labels stands for.
pub open spec fn entries_map<V>(s: Seq<(String, V)>) -> Map<Seq<char>, V>
    decreases s.len(),
{
    if s.len() == 0 {
        Map::empty()
    } else {
        entries_map(s.drop_last()).insert(s.last().0@, s.last().1)
    }
}

/// No label occurs twice.
pub open spec fn distinct_labels<V>(s: Seq<(String, V)>) -> bool {
    forall|i: int, j: int| 0 <= i < j < s.len() ==> s[i].0@ != s[j].0@
}

proof fn lemma_entries_map<V>(s: Seq<(String, V)>)
    requires
        distinct_labels(s),
    ensures
        forall|k: Seq<char>| #[trigger]
            entries_map(s).contains_key(k) <==> exists|i: int| 0 <= i < s.len() && s[i].0@ == k,
        forall|i: int| 0 <= i < s.len() ==> #[trigger] entries_map(s)[s[i].0@] == s[i].1,
    decreases s.len(),
{
    if s.len() > 0 {
        let t = s.drop_last();
        lemma_entries_map(t);
        assert forall|k: Seq<char>| #[trigger]
            entries_map(s).contains_key(k) <==> exists|i: int| 0 <= i < s.len() && s[i].0@ == k by {
            if entries_map(s).contains_key(k) && k != s.last().0@ {
                assert(entries_map(t).contains_key(k));
                let i = choose|i: int| 0 <= i < t.len() && t[i].0@ == k;
                assert(s[i] == t[i]);
            }
            if exists|i: int| 0 <= i < s.len() && s[i].0@ == k {
                let i = choose|i: int| 0 <= i < s.len() && s[i].0@ == k;
                if i < t.len() {
                    assert(t[i] == s[i]);
                    assert(entries_map(t).contains_key(k));
                }
            }
        }
        assert forall|i: int| 0 <= i < s.len() implies #[trigger] entries_map(s)[s[i].0@] == s[i].1 by {
            if i < t.len() {
                assert(t[i] == s[i]);
                assert(s[i].0@ != s[s.len() - 1].0@);
                assert(entries_map(t)[t[i].0@] == t[i].1);
                assert(entries_map(t).contains_key(t[i].0@));
            }
        }
    }
}

proof fn lemma_entries_map_update<V>(s: Seq<(String, V)>, i: int, e: (String, V))
    requires
        distinct_labels(s),
        0 <= i < s.len(),
        s[i].0@ == e.0@,
    ensures
        distinct_labels(s.update(i, e)),
        entries_map(s.update(i, e)) == entries_map(s).insert(e.0@, e.1),
{
    let u = s.update(i, e);
    lemma_entries_map(s);
    lemma_entries_map(u);
    assert forall|k: Seq<char>| entries_map(u).contains_key(k) <==> entries_map(s).insert(e.0@, e.1).contains_key(k) by {
        if exists|j: int| 0 <= j < u.len() && u[j].0@ == k {
            let j = choose|j: int| 0 <= j < u.len() && u[j].0@ == k;
            assert(s[j].0@ == k);
        }
        if exists|j: int| 0 <= j < s.len() && s[j].0@ == k {
            let j = choose|j: int| 0 <= j < s.len() && s[j].0@ == k;
            assert(u[j].0@ == k);
        }
        if k == e.0@ {
            assert(u[i].0@ == k);
        }
    }
    assert forall|k: Seq<char>| #[trigger] entries_map(u).contains_key(k) implies entries_map(u)[k] == entries_map(s).insert(e.0@, e.1)[k] by {
        let j = choose|j: int| 0 <= j < u.len() && u[j].0@ == k;
        assert(entries_map(u)[u[j].0@] == u[j].1);
        if j != i {
            assert(entries_map(s)[s[j].0@] == s[j].1);
        }
    }
    assert(entries_map(u) =~= entries_map(s).insert(e.0@, e.1));
}

/// A map from job labels to values, such as the plists found on disk or
/// the cached status of each job.
pub struct LabelMap<V> {
    entries: Vec<(String, V)>,
}

impl<V> View for LabelMap<V> {
    type V = Map<Seq<char>, V>;

    closed spec fn view(&self) -> Map<Seq<char>, V> {
        entries_map(self.entries@)
    }
}

impl<V> LabelMap<V> {
    #[verifier::type_invariant]
    spec fn inv(self) -> bool {
        distinct_labels(self.entries@)
    }

    /// The labels, in the order they were first inserted.
    pub closed spec fn label_seq(self) -> Seq<Seq<char>> {
        self.entries@.map_values(|e: (String, V)| e.0@)
    }

    /// An empty map.
    pub fn new() -> (r: Self)
        ensures
            r@ == Map::<Seq<char>, V>::empty(),
            r.label_seq() == Seq::<Seq<char>>::empty(),
    {
        let r = LabelMap { entries: Vec::new() };
        assert(r.label_seq() =~= Seq::<Seq<char>>::empty());
        r
    }

    /// Number of labels.
    pub fn len(&self) -> (r: usize)
        ensures
            r == self.label_seq().len(),
            self.label_seq().no_duplicates(),
            forall|k: Seq<char>| #[trigger] self@.contains_key(k) <==> self.label_seq().contains(k),
    {
        proof {
            use_type_invariant(self);
            lemma_entries_map(self.entries@);
            let ls = self.label_seq();
            assert forall|k: Seq<char>| #[trigger] self@.contains_key(k) <==> ls.contains(k) by {
                if self@.contains_key(k) {
                    let i = choose|i: int| 0 <= i < self.entries@.len() && self.entries@[i].0@ == k;
                    assert(ls[i] == k);
                }
                if ls.contains(k) {
                    let i = choose|i: int| 0 <= i < ls.len() && ls[i] == k;
                    assert(self.entries@[i].0@ == k);
                }
            }
        }
        self.entries.len()
    }

    /// The label and value at a position in the order of first insertion.
    pub fn entry_at(&self, i: usize) -> (r: (&String, &V))
        requires
            i < self.label_seq().len(),
        ensures
            r.0@ == self.label_seq()[i as int],
            self@.contains_key(r.0@),
            self@[r.0@] == *r.1,
    {
        proof {
            use_type_invariant(self);
            lemma_entries_map(self.entries@);
        }
        let e = &self.entries[i];
        (&e.0, &e.1)
    }

    fn position(&self, label: &str) -> (r: Option<usize>)
        ensures
            r matches Some(i) ==> i < self.entries@.len() && self.entries@[i as int].0@ == label@,
            r is None ==> forall|i: int| 0 <= i < self.entries@.len() ==> self.entries@[i].0@ != label@,
    {
        let mut i: usize = 0;
        while i < self.entries.len()
            invariant
                0 <= i <= self.entries@.len(),
                forall|j: int| 0 <= j < i ==> self.entries@[j].0@ != label@,
            decreases self.entries@.len() - i,
        {
            if str_eq(self.entries[i].0.as_str(), label) {
                return Some(i);
            }
            i = i + 1;
        }
        None
    }

    /// The value of a label, if the map holds it.
    pub fn get(&self, label: &str) -> (r: Option<&V>)
        ensures
            r is Some <==> self@.contains_key(label@),
            r matches Some(v) ==> *v == self@[label@],
    {
        proof {
            use_type_invariant(self);
            lemma_entries_map(self.entries@);
        }
        match self.position(label) {
            Some(i) => Some(&self.entries[i].1),
            None => None,
        }
    }

    /// Whether the map holds a label.
    pub fn contains_key(&self, label: &str) -> (r: bool)
        ensures
            r == self@.contains_key(label@),
    {
        self.get(label).is_some()
    }

    /// The label at a position in the order of first insertion.
    pub fn label_at(&self, i: usize) -> (r: &String)
        requires
            i < self.label_seq().len(),
        ensures
            r@ == self.label_seq()[i as int],
    {
        &self.entries[i].0
    }

    /// Drop a label and its value, if the map holds it.
    pub fn remove(&mut self, label: &str)
        ensures
            final(self)@ == old(self)@.remove(label@),
    {
        proof {
            use_type_invariant(&*self);
            lemma_entries_map(self.entries@);
        }
        match self.position(label) {
            Some(i) => {
                let ghost s = self.entries@;
                proof {
                    lemma_entries_map_remove(s, i as int);
                }
                let mut entries: Vec<(String, V)> = Vec::new();
                std::mem::swap(&mut entries, &mut self.entries);
                entries.remove(i);
                self.entries = entries;
            },
            None => {
                proof {
                    assert(self@.remove(label@) =~= self@);
                }
            },
        }
    }

    /// Set the value of a label, replacing any value it had.
    pub fn insert(&mut self, label: String, value: V)
        ensures
            final(self)@ == old(self)@.insert(label@, value),
    {
        proof {
            use_type_invariant(&*self);
            lemma_entries_map(self.entries@);
        }
        let ghost k = label@;
        match self.position(label.as_str()) {
            Some(i) => {
                let ghost s = self.entries@;
                proof {
                    lemma_entries_map_update(s, i as int, (label, value));
                }
                let mut entries: Vec<(String, V)> = Vec::new();
                std::mem::swap(&mut entries, &mut self.entries);
                entries.set(i, (label, value));
                self.entries = entries;
            },
            None => {
                let ghost s = self.entries@;
                let mut entries: Vec<(String, V)> = Vec::new();
                std::mem::swap(&mut entries, &mut self.entries);
                entries.push((label, value));
                proof {
                    assert(entries@.drop_last() =~= s);
                }
                self.entries = entries;
            },
        }
    }
}

proof fn lemma_entries_map_remove<V>(s: Seq<(String, V)>, i: int)
    requires
        distinct_labels(s),
        0 <= i < s.len(),
    ensures
        distinct_labels(s.remove(i)),
        entries_map(s.remove(i)) == entries_map(s).remove(s[i].0@),
{
    let u = s.remove(i);
    let k0 = s[i].0@;
    assert forall|a: int, b: int| 0 <= a < b < u.len() implies u[a].0@ != u[b].0@ by {
        let a1 = if a < i { a } else { a + 1 };
        let b1 = if b < i { b } else { b + 1 };
        assert(u[a] == s[a1] && u[b] == s[b1]);
    }
    lemma_entries_map(s);
    lemma_entries_map(u);
    assert forall|k: Seq<char>| entries_map(u).contains_key(k) <==> entries_map(s).remove(k0).contains_key(k) by {
        if exists|j: int| 0 <= j < u.len() && u[j].0@ == k {
            let j = choose|j: int| 0 <= j < u.len() && u[j].0@ == k;
            let j1 = if j < i { j } else { j + 1 };
            assert(s[j1] == u[j]);
            assert(entries_map(s).contains_key(k));
        }
        if exists|j: int| 0 <= j < s.len() && s[j].0@ == k {
            let j = choose|j: int| 0 <= j < s.len() && s[j].0@ == k;
            if k != k0 {
                assert(j != i);
                let j1 = if j < i { j } else { j - 1 };
                assert(u[j1] == s[j]);
                assert(entries_map(u).contains_key(k));
            }
        }
    }
    assert forall|k: Seq<char>| #[trigger] entries_map(u).contains_key(k) implies entries_map(u)[k] == entries_map(s)[k] by {
        let j = choose|j: int| 0 <= j < u.len() && u[j].0@ == k;
        let j1 = if j < i { j } else { j + 1 };
        assert(s[j1] == u[j]);
        assert(entries_map(u)[u[j].0@] == u[j].1);
        assert(entries_map(s)[s[j1].0@] == s[j1].1);
    }
    assert(entries_map(u) =~= entries_map(s).remove(k0));
}

/// A read of a label gives back the value last written for it, and a write
/// leaves every other label as it was.
pub proof fn law_read_after_write<V>(m: Map<Seq<char>, V>, k: Seq<char>, v: V, other: Seq<char>)
    requires
        other != k,
    ensures
        m.insert(k, v).contains_key(k),
        m.insert(k, v)[k] == v,
        m.insert(k, v).contains_key(other) == m.contains_key(other),
        m.contains_key(other) ==> m.insert(k, v)[other] == m[other],
{
}

} // verus!
