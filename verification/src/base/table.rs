//! A map from text to values that keeps its entries in the order in which
//! their keys first came.

use vstd::prelude::*;

verus! {

/// A list of entries whose keys are pairwise different.
pub struct Table<V> {
    pub entries: Vec<(String, V)>,
}

/// Where the key `k` stands in `s`, or a negative number.
pub open spec fn index_of<V>(s: Seq<(String, V)>, k: Seq<char>) -> int
    decreases s.len(),
{
    if s.len() == 0 {
        -1
    } else if s.last().0@ == k {
        s.len() - 1
    } else {
        index_of(s.drop_last(), k)
    }
}

pub proof fn lemma_index_of<V>(s: Seq<(String, V)>, k: Seq<char>)
    ensures
        -1 <= index_of(s, k) < s.len(),
        index_of(s, k) >= 0 ==> s[index_of(s, k)].0@ == k,
        index_of(s, k) < 0 ==> forall|i: int| 0 <= i < s.len() ==> (#[trigger] s[i]).0@ != k,
    decreases s.len(),
{
    if s.len() > 0 && s.last().0@ != k {
        lemma_index_of(s.drop_last(), k);
        assert forall|i: int| index_of(s, k) < 0 && 0 <= i < s.len() implies (#[trigger] s[i]).0@
            != k by {
            if i < s.len() - 1 {
                assert(s.drop_last()[i] == s[i]);
            }
        }
    }
}

/// No key occurs twice.
pub open spec fn distinct_keys<V>(s: Seq<(String, V)>) -> bool {
    forall|i: int, j: int|
        0 <= i < j < s.len() ==> (#[trigger] s[i]).0@ != (#[trigger] s[j]).0@
}

/// What the entries map each key to.
pub open spec fn entry_map<V>(s: Seq<(String, V)>) -> Map<Seq<char>, V> {
    Map::new(|k: Seq<char>| index_of(s, k) >= 0, |k: Seq<char>| s[index_of(s, k)].1)
}

/// The entry at `i` is what its key maps to.
pub proof fn lemma_entry<V>(s: Seq<(String, V)>, i: int)
    requires
        distinct_keys(s),
        0 <= i < s.len(),
    ensures
        index_of(s, s[i].0@) == i,
        entry_map(s).contains_key(s[i].0@),
        entry_map(s)[s[i].0@] == s[i].1,
{
    lemma_index_of(s, s[i].0@);
    let j = index_of(s, s[i].0@);
    if j < 0 {
        assert(s[i].0@ != s[i].0@);
    } else if j < i {
        assert(s[j].0@ != s[i].0@);
    } else if j > i {
        assert(s[i].0@ != s[j].0@);
    }
}

pub proof fn lemma_push<V>(s: Seq<(String, V)>, e: (String, V))
    requires
        distinct_keys(s),
        !entry_map(s).contains_key(e.0@),
    ensures
        distinct_keys(s.push(e)),
        entry_map(s.push(e)) == entry_map(s).insert(e.0@, e.1),
{
    let t = s.push(e);
    lemma_index_of(s, e.0@);
    assert(t.drop_last() =~= s);
    assert forall|k: Seq<char>| #[trigger]
        entry_map(t).contains_key(k) == entry_map(s).insert(e.0@, e.1).contains_key(k) by {
        lemma_index_of(s, k);
    }
    assert forall|k: Seq<char>| entry_map(t).contains_key(k) implies #[trigger] entry_map(t)[k]
        == entry_map(s).insert(e.0@, e.1)[k] by {
        lemma_index_of(s, k);
    }
    assert(entry_map(t) =~= entry_map(s).insert(e.0@, e.1));
}

pub proof fn lemma_update<V>(s: Seq<(String, V)>, i: int, e: (String, V))
    requires
        distinct_keys(s),
        0 <= i < s.len(),
        e.0@ == s[i].0@,
    ensures
        distinct_keys(s.update(i, e)),
        entry_map(s.update(i, e)) == entry_map(s).insert(e.0@, e.1),
{
    let t = s.update(i, e);
    assert forall|a: int, b: int| 0 <= a < b < t.len() implies (#[trigger] t[a]).0@ != (
    #[trigger] t[b]).0@ by {
        assert(s[a].0@ != s[b].0@);
    }
    assert forall|k: Seq<char>| true implies #[trigger] index_of(t, k) == index_of(s, k) by {
        lemma_same_keys(s, t, k);
    }
    lemma_entry(s, i);
    assert forall|k: Seq<char>| entry_map(t).contains_key(k) implies #[trigger] entry_map(t)[k]
        == entry_map(s).insert(e.0@, e.1)[k] by {
        lemma_index_of(s, k);
        if index_of(s, k) == i {
            assert(k == e.0@);
        }
    }
    assert(entry_map(t) =~= entry_map(s).insert(e.0@, e.1));
}

proof fn lemma_same_keys<V>(s: Seq<(String, V)>, t: Seq<(String, V)>, k: Seq<char>)
    requires
        s.len() == t.len(),
        forall|i: int| 0 <= i < s.len() ==> (#[trigger] s[i]).0@ == t[i].0@,
    ensures
        index_of(s, k) == index_of(t, k),
    decreases s.len(),
{
    if s.len() > 0 {
        assert(s.last().0@ == t.last().0@) by {
            assert(s[s.len() - 1].0@ == t[s.len() - 1].0@);
        }
        assert forall|i: int| 0 <= i < s.drop_last().len() implies (#[trigger] s.drop_last()[i]).0@
            == t.drop_last()[i].0@ by {
            assert(s[i].0@ == t[i].0@);
        }
        lemma_same_keys(s.drop_last(), t.drop_last(), k);
    }
}

pub proof fn lemma_remove<V>(s: Seq<(String, V)>, i: int)
    requires
        distinct_keys(s),
        0 <= i < s.len(),
    ensures
        distinct_keys(s.remove(i)),
        entry_map(s.remove(i)) == entry_map(s).remove(s[i].0@),
{
    let t = s.remove(i);
    let gone = s[i].0@;
    assert forall|a: int, b: int| 0 <= a < b < t.len() implies (#[trigger] t[a]).0@ != (
    #[trigger] t[b]).0@ by {
        let a2 = if a < i { a } else { a + 1 };
        let b2 = if b < i { b } else { b + 1 };
        assert(t[a] == s[a2] && t[b] == s[b2]);
        assert(s[a2].0@ != s[b2].0@);
    }
    assert forall|k: Seq<char>| true implies #[trigger] entry_map(t).contains_key(k) == entry_map(
        s,
    ).remove(gone).contains_key(k) && (entry_map(t).contains_key(k) ==> entry_map(t)[k]
        == entry_map(s)[k]) by {
        lemma_index_of(s, k);
        lemma_index_of(t, k);
        let x = index_of(s, k);
        if x >= 0 && k != gone {
            let y = if x < i { x } else { x - 1 };
            assert(t[y] == s[x]);
            assert(t[y].0@ == k);
            lemma_entry(t, y);
        } else {
            let y = index_of(t, k);
            if y >= 0 {
                let x2 = if y < i { y } else { y + 1 };
                assert(s[x2] == t[y]);
                lemma_entry(s, x2);
                lemma_entry(s, i);
            }
        }
    }
    assert(entry_map(t) =~= entry_map(s).remove(gone));
}

impl<V> View for Table<V> {
    type V = Map<Seq<char>, V>;

    open spec fn view(&self) -> Map<Seq<char>, V> {
        entry_map(self.entries@)
    }
}

impl<V> Table<V> {
    /// No key occurs twice.
    pub open spec fn wf(&self) -> bool {
        distinct_keys(self.entries@)
    }

    /// A table without entries.
    pub fn new() -> (t: Self)
        ensures
            t.wf(),
            t.entries@.len() == 0,
            t@ == Map::<Seq<char>, V>::empty(),
    {
        let t = Table { entries: Vec::new() };
        assert(t@ =~= Map::<Seq<char>, V>::empty());
        t
    }

    /// The number of entries.
    pub fn len(&self) -> (n: usize)
        ensures
            n == self.entries@.len(),
    {
        self.entries.len()
    }

    /// Where the entry for `k` stands.
    pub fn find(&self, k: &str) -> (r: Option<usize>)
        requires
            self.wf(),
        ensures
            r is Some <==> self@.contains_key(k@),
            r matches Some(i) ==> i < self.entries@.len() && self.entries@[i as int].0@ == k@
                && self.entries@[i as int].1 == self@[k@] && i == index_of(self.entries@, k@),
    {
        let key = k.to_owned();
        let mut i: usize = 0;
        while i < self.entries.len()
            invariant
                i <= self.entries@.len(),
                self.wf(),
                key@ == k@,
                forall|j: int| 0 <= j < i ==> (#[trigger] self.entries@[j]).0@ != k@,
            decreases self.entries@.len() - i,
        {
            if self.entries[i].0 == key {
                proof {
                    lemma_entry(self.entries@, i as int);
                }
                return Some(i);
            }
            i += 1;
        }
        proof {
            lemma_index_of(self.entries@, k@);
        }
        None
    }

    /// Whether there is an entry for `k`.
    pub fn contains_key(&self, k: &str) -> (r: bool)
        requires
            self.wf(),
        ensures
            r == self@.contains_key(k@),
    {
        self.find(k).is_some()
    }

    /// What `k` maps to.
    pub fn get(&self, k: &str) -> (r: Option<&V>)
        requires
            self.wf(),
        ensures
            r is Some <==> self@.contains_key(k@),
            r matches Some(v) ==> *v == self@[k@],
    {
        match self.find(k) {
            Some(i) => Some(&self.entries[i].1),
            None => None,
        }
    }

    /// Maps `k` to `v`, and returns what it was mapped to before.
    pub fn insert(&mut self, k: String, v: V) -> (r: Option<V>)
        requires
            old(self).wf(),
        ensures
            final(self).wf(),
            final(self)@ == old(self)@.insert(k@, v),
            r is Some <==> old(self)@.contains_key(k@),
            r matches Some(x) ==> x == old(self)@[k@],
            final(self).entries@.len() == old(self).entries@.len() + (if old(self)@.contains_key(
                k@,
            ) { 0int } else { 1 }),
    {
        match self.find(k.as_str()) {
            Some(i) => {
                proof {
                    lemma_update(self.entries@, i as int, (k, v));
                }
                let mut e = (k, v);
                let ghost before = self.entries@;
                let ghost e0 = e;
                let slot = &mut self.entries[i];
                std::mem::swap(slot, &mut e);
                assert(self.entries@ =~= before.update(i as int, e0));
                Some(e.1)
            },
            None => {
                proof {
                    lemma_push(self.entries@, (k, v));
                }
                self.entries.push((k, v));
                None
            },
        }
    }

    /// Takes the entry for `k` out, and returns what it was mapped to.
    pub fn remove(&mut self, k: &str) -> (r: Option<V>)
        requires
            old(self).wf(),
        ensures
            final(self).wf(),
            final(self)@ == old(self)@.remove(k@),
            r is Some <==> old(self)@.contains_key(k@),
            r matches Some(x) ==> x == old(self)@[k@],
            r is None ==> *final(self) == *old(self),
            final(self).entries@.len() == old(self).entries@.len() - (if old(self)@.contains_key(
                k@,
            ) { 1int } else { 0 }),
    {
        match self.find(k) {
            Some(i) => {
                proof {
                    lemma_remove(self.entries@, i as int);
                }
                let e = self.entries.remove(i);
                Some(e.1)
            },
            None => {
                assert(self@.remove(k@) =~= self@);
                None
            },
        }
    }
}

} // verus!
