use vstd::prelude::*;
use crate::chars::str_eq;

verus! {

/// A table of values under distinct string keys, kept in insertion order.
pub struct KeyedTable<V> {
    entries: Vec<(String, V)>,
}

/// The keys of a list of entries.
pub open spec fn entry_keys<V>(e: Seq<(String, V)>) -> Seq<Seq<char>> {
    e.map_values(|p: (String, V)| p.0@)
}

/// The map a list of entries with distinct keys stands for.
pub open spec fn entries_map<V>(e: Seq<(String, V)>) -> Map<Seq<char>, V>
    decreases e.len(),
{
    if e.len() == 0 {
        Map::empty()
    } else {
        entries_map(e.drop_last()).insert(e.last().0@, e.last().1)
    }
}

proof fn lemma_entries_map_dom<V>(e: Seq<(String, V)>)
    ensures
        forall|k: Seq<char>| #[trigger] entries_map(e).dom().contains(k) <==> exists|i: int| 0 <= i < e.len() && e[i].0@ == k,
    decreases e.len(),
{
    if e.len() > 0 {
        lemma_entries_map_dom(e.drop_last());
        assert forall|k: Seq<char>| #[trigger] entries_map(e).dom().contains(k) implies exists|i: int| 0 <= i < e.len() && e[i].0@ == k by {
            if k == e.last().0@ {
                assert(e[e.len() - 1].0@ == k);
            } else {
                assert(entries_map(e.drop_last()).dom().contains(k));
                let i = choose|i: int| 0 <= i < e.drop_last().len() && e.drop_last()[i].0@ == k;
                assert(e[i].0@ == k);
            }
        }
        assert forall|k: Seq<char>| (exists|i: int| 0 <= i < e.len() && e[i].0@ == k) implies #[trigger] entries_map(e).dom().contains(k) by {
            let i = choose|i: int| 0 <= i < e.len() && e[i].0@ == k;
            if i < e.len() - 1 {
                assert(e.drop_last()[i].0@ == k);
                assert(entries_map(e.drop_last()).dom().contains(k));
            }
        }
    }
}

proof fn lemma_entries_map_index<V>(e: Seq<(String, V)>, i: int)
    requires
        0 <= i < e.len(),
        forall|a: int, b: int| 0 <= a < b < e.len() ==> e[a].0@ != e[b].0@,
    ensures
        entries_map(e).dom().contains(e[i].0@),
        entries_map(e)[e[i].0@] == e[i].1,
    decreases e.len(),
{
    if i < e.len() - 1 {
        lemma_entries_map_index(e.drop_last(), i);
        assert(e.drop_last()[i] == e[i]);
        assert(e[i].0@ != e.last().0@);
    }
}

proof fn lemma_entries_map_update<V>(e: Seq<(String, V)>, i: int, k: String, v: V)
    requires
        0 <= i < e.len(),
        e[i].0@ == k@,
        forall|a: int, b: int| 0 <= a < b < e.len() ==> e[a].0@ != e[b].0@,
    ensures
        entries_map(e.update(i, (k, v))) == entries_map(e).insert(k@, v),
    decreases e.len(),
{
    let e2 = e.update(i, (k, v));
    if i == e.len() - 1 {
        assert(e2.drop_last() =~= e.drop_last());
        lemma_entries_map_dom(e.drop_last());
        assert(!entries_map(e.drop_last()).dom().contains(k@)) by {
            if entries_map(e.drop_last()).dom().contains(k@) {
                let j = choose|j: int| 0 <= j < e.drop_last().len() && e.drop_last()[j].0@ == k@;
                assert(e[j].0@ == e[i].0@);
            }
        }
        assert(entries_map(e2) =~= entries_map(e).insert(k@, v));
    } else {
        assert(e2.drop_last() =~= e.drop_last().update(i, (k, v)));
        lemma_entries_map_update(e.drop_last(), i, k, v);
        assert(e.last().0@ != k@);
        assert(e2.last() == e.last());
        assert(entries_map(e2) =~= entries_map(e).insert(k@, v));
    }
}

proof fn lemma_entries_map_remove<V>(e: Seq<(String, V)>, i: int)
    requires
        0 <= i < e.len(),
        forall|a: int, b: int| 0 <= a < b < e.len() ==> e[a].0@ != e[b].0@,
    ensures
        entries_map(e.remove(i)) == entries_map(e).remove(e[i].0@),
    decreases e.len(),
{
    let k = e[i].0@;
    let e2 = e.remove(i);
    if i == e.len() - 1 {
        assert(e2 =~= e.drop_last());
        lemma_entries_map_dom(e.drop_last());
        assert(!entries_map(e.drop_last()).dom().contains(k)) by {
            if entries_map(e.drop_last()).dom().contains(k) {
                let j = choose|j: int| 0 <= j < e.drop_last().len() && e.drop_last()[j].0@ == k;
                assert(e[j].0@ == e[i].0@);
            }
        }
        assert(entries_map(e2) =~= entries_map(e).remove(k));
    } else {
        assert(e2.drop_last() =~= e.drop_last().remove(i));
        assert(e2.last() == e.last());
        lemma_entries_map_remove(e.drop_last(), i);
        assert(e.last().0@ != k);
        assert(entries_map(e2) =~= entries_map(e).remove(k));
    }
}

proof fn lemma_entries_map_same<V>(a: Seq<(String, V)>, b: Seq<(String, V)>)
    requires
        a.len() == b.len(),
        forall|j: int| 0 <= j < a.len() ==> (#[trigger] a[j]).0@ == b[j].0@ && a[j].1 == b[j].1,
    ensures
        entries_map(a) == entries_map(b),
    decreases a.len(),
{
    if a.len() > 0 {
        lemma_entries_map_same(a.drop_last(), b.drop_last());
        assert(a.last().0@ == b.last().0@);
    }
}

impl<V> KeyedTable<V> {
    /// No key appears twice.
    pub closed spec fn wf(&self) -> bool {
        forall|a: int, b: int|
            0 <= a < b < self.entries@.len() ==> self.entries@[a].0@ != self.entries@[b].0@
    }

    /// The table as a map from keys to values.
    pub closed spec fn view(&self) -> Map<Seq<char>, V> {
        entries_map(self.entries@)
    }

    /// The keys in the order they were first inserted.
    pub closed spec fn keys(&self) -> Seq<Seq<char>> {
        entry_keys(self.entries@)
    }

    /// The keys are exactly the map's domain, each once.
    pub proof fn lemma_keys(&self)
        requires
            self.wf(),
        ensures
            self.keys().no_duplicates(),
            forall|k: Seq<char>| self@.dom().contains(k) <==> #[trigger] self.keys().contains(k),
            self@.dom().finite(),
            self@.dom().len() == self.keys().len(),
    {
        lemma_entries_map_dom(self.entries@);
        let ks = self.keys();
        assert forall|k: Seq<char>| self@.dom().contains(k) <==> #[trigger] ks.contains(k) by {
            if self@.dom().contains(k) {
                let i = choose|i: int| 0 <= i < self.entries@.len() && self.entries@[i].0@ == k;
                assert(ks[i] == k);
            }
            if ks.contains(k) {
                let i = choose|i: int| 0 <= i < ks.len() && ks[i] == k;
                assert(self.entries@[i].0@ == k);
            }
        }
        assert(ks.no_duplicates());
        ks.unique_seq_to_set();
        assert(self@.dom() =~= ks.to_set());
    }

    /// An empty table.
    pub fn new() -> (r: KeyedTable<V>)
        ensures
            r.wf(),
            r@ == Map::<Seq<char>, V>::empty(),
            r.keys() == Seq::<Seq<char>>::empty(),
    {
        let r = KeyedTable { entries: Vec::new() };
        assert(r.keys() =~= Seq::<Seq<char>>::empty());
        r
    }

    fn position(&self, key: &str) -> (r: Option<usize>)
        requires
            self.wf(),
        ensures
            match r {
                Some(i) => i < self.entries@.len() && self.entries@[i as int].0@ == key@,
                None => forall|i: int| 0 <= i < self.entries@.len() ==> self.entries@[i].0@ != key@,
            },
    {
        let mut i: usize = 0;
        while i < self.entries.len()
            invariant
                0 <= i <= self.entries@.len(),
                forall|j: int| 0 <= j < i ==> self.entries@[j].0@ != key@,
            decreases self.entries@.len() - i,
        {
            if str_eq(self.entries[i].0.as_str(), key) {
                return Some(i);
            }
            i = i + 1;
        }
        None
    }

    /// The number of keys.
    pub fn len(&self) -> (r: usize)
        requires
            self.wf(),
        ensures
            r == self@.dom().len(),
    {
        proof {
            self.lemma_keys();
        }
        self.entries.len()
    }

    /// The value under `key`.
    pub fn get(&self, key: &str) -> (r: Option<&V>)
        requires
            self.wf(),
        ensures
            match r {
                Some(v) => self@.dom().contains(key@) && self@[key@] == *v,
                None => !self@.dom().contains(key@),
            },
    {
        proof {
            lemma_entries_map_dom(self.entries@);
        }
        match self.position(key) {
            Some(i) => {
                proof {
                    lemma_entries_map_index(self.entries@, i as int);
                }
                Some(&self.entries[i].1)
            },
            None => None,
        }
    }

    /// Whether there is a value under `key`.
    pub fn contains_key(&self, key: &str) -> (r: bool)
        requires
            self.wf(),
        ensures
            r == self@.dom().contains(key@),
    {
        self.get(key).is_some()
    }

    /// Puts `value` under `key`, replacing what was there; a new key goes last.
    pub fn insert(&mut self, key: &str, value: V)
        requires
            old(self).wf(),
        ensures
            final(self).wf(),
            final(self)@ == old(self)@.insert(key@, value),
            final(self).keys() == (if old(self)@.dom().contains(key@) {
                old(self).keys()
            } else {
                old(self).keys().push(key@)
            }),
    {
        proof {
            lemma_entries_map_dom(self.entries@);
        }
        let k = crate::chars::owned(key);
        match self.position(key) {
            Some(i) => {
                proof {
                    lemma_entries_map_update(self.entries@, i as int, k, value);
                }
                let ghost before = self.entries@;
                self.entries.set(i, (k, value));
                assert(self.entries@ == before.update(i as int, (k, value)));
                assert(entry_keys(self.entries@) =~= entry_keys(before));
            },
            None => {
                let ghost before = self.entries@;
                self.entries.push((k, value));
                assert(self.entries@.drop_last() =~= before);
                assert(entry_keys(self.entries@) =~= entry_keys(before).push(key@));
                assert(!entries_map(before).dom().contains(key@)) by {
                    if entries_map(before).dom().contains(key@) {
                        let j = choose|j: int| 0 <= j < before.len() && before[j].0@ == key@;
                    }
                }
            },
        }
    }

    /// Takes out the value under `key`, if any.
    pub fn remove(&mut self, key: &str) -> (r: Option<V>)
        requires
            old(self).wf(),
        ensures
            final(self).wf(),
            final(self)@ == old(self)@.remove(key@),
            match r {
                Some(v) => old(self)@.dom().contains(key@) && old(self)@[key@] == v,
                None => !old(self)@.dom().contains(key@),
            },
    {
        proof {
            lemma_entries_map_dom(self.entries@);
        }
        match self.position(key) {
            Some(i) => {
                proof {
                    lemma_entries_map_remove(self.entries@, i as int);
                    lemma_entries_map_index(self.entries@, i as int);
                }
                let ghost before = self.entries@;
                let (_, v) = self.entries.remove(i);
                assert(self.entries@ == before.remove(i as int));
                assert forall|a: int, b: int| 0 <= a < b < self.entries@.len() implies self.entries@[a].0@ != self.entries@[b].0@ by {
                    let a2 = if a < i { a } else { a + 1 };
                    let b2 = if b < i { b } else { b + 1 };
                    assert(self.entries@[a] == before[a2]);
                    assert(self.entries@[b] == before[b2]);
                }
                Some(v)
            },
            None => {
                assert(self@ =~= old(self)@.remove(key@));
                None
            },
        }
    }

    /// The entries, in order.
    pub fn entries(&self) -> (r: &Vec<(String, V)>)
        requires
            self.wf(),
        ensures
            entry_keys(r@) == self.keys(),
            entries_map(r@) == self@,
    {
        &self.entries
    }

    /// A copy of the table.
    pub fn copy(&self) -> (r: KeyedTable<V>)
        where V: Copy
        requires
            self.wf(),
        ensures
            r.wf(),
            r@ == self@,
            r.keys() == self.keys(),
    {
        let mut out: Vec<(String, V)> = Vec::new();
        let mut i: usize = 0;
        while i < self.entries.len()
            invariant
                0 <= i <= self.entries@.len(),
                out@.len() == i,
                forall|j: int| 0 <= j < i ==> (#[trigger] out@[j]).0@ == self.entries@[j].0@ && out@[j].1 == self.entries@[j].1,
            decreases self.entries@.len() - i,
        {
            out.push((self.entries[i].0.clone(), self.entries[i].1));
            i = i + 1;
        }
        let r = KeyedTable { entries: out };
        proof {
            lemma_entries_map_same(out@, self.entries@);
            assert(entry_keys(out@) =~= entry_keys(self.entries@));
        }
        r
    }
}

} // verus!
