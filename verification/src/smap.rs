//! String-keyed association with unique keys, used by every registry.
//!
//! The executable representation is a vector of key/value pairs; contracts
//! speak of the abstract `Map<Seq<char>, V>` it denotes.

use vstd::prelude::*;

verus! {

/// No two entries share a key.
pub open spec fn unique_keys<V>(s: Seq<(String, V)>) -> bool {
    forall|i: int, j: int|
        0 <= i < j < s.len() ==> (#[trigger] s[i].0@) != (#[trigger] s[j].0@)
}

/// The abstract map denoted by a pair sequence; a later entry wins.
pub open spec fn map_of<V>(s: Seq<(String, V)>) -> Map<Seq<char>, V>
    decreases s.len(),
{
    if s.len() == 0 {
        Map::empty()
    } else {
        map_of(s.drop_last()).insert(s.last().0@, s.last().1)
    }
}

pub proof fn lemma_map_of_contains<V>(s: Seq<(String, V)>, k: Seq<char>)
    ensures
        map_of(s).contains_key(k) <==> (exists|i: int|
            0 <= i < s.len() && (#[trigger] s[i].0@) == k),
    decreases s.len(),
{
    if s.len() == 0 {
        assert(map_of(s) =~= Map::<Seq<char>, V>::empty());
    } else {
        let t = s.drop_last();
        lemma_map_of_contains(t, k);
        if map_of(s).contains_key(k) {
            if k == s.last().0@ {
                assert(s[s.len() - 1].0@ == k);
            } else {
                assert(map_of(t).contains_key(k));
                let i = choose|i: int| 0 <= i < t.len() && (#[trigger] t[i].0@) == k;
                assert(s[i].0@ == k);
            }
        }
        if exists|i: int| 0 <= i < s.len() && (#[trigger] s[i].0@) == k {
            let i = choose|i: int| 0 <= i < s.len() && (#[trigger] s[i].0@) == k;
            if i < s.len() - 1 {
                assert(t[i].0@ == k);
                assert(map_of(t).contains_key(k));
            }
        }
    }
}

pub proof fn lemma_unique_drop_last<V>(s: Seq<(String, V)>)
    requires
        unique_keys(s),
        s.len() > 0,
    ensures
        unique_keys(s.drop_last()),
{
    let t = s.drop_last();
    assert forall|i: int, j: int| 0 <= i < j < t.len() implies (#[trigger] t[i].0@)
        != (#[trigger] t[j].0@) by {
        assert(s[i].0@ != s[j].0@);
    }
}

pub proof fn lemma_map_of_index<V>(s: Seq<(String, V)>, i: int)
    requires
        unique_keys(s),
        0 <= i < s.len(),
    ensures
        map_of(s).contains_key(s[i].0@),
        map_of(s)[s[i].0@] == s[i].1,
    decreases s.len(),
{
    let t = s.drop_last();
    if i == s.len() - 1 {
    } else {
        lemma_unique_drop_last(s);
        lemma_map_of_index(t, i);
        assert(s[i].0@ != s[s.len() - 1].0@);
    }
}

pub proof fn lemma_map_of_dom_len<V>(s: Seq<(String, V)>)
    requires
        unique_keys(s),
    ensures
        map_of(s).dom().finite(),
        map_of(s).dom().len() == s.len(),
    decreases s.len(),
{
    if s.len() == 0 {
        assert(map_of(s) =~= Map::<Seq<char>, V>::empty());
    } else {
        let t = s.drop_last();
        lemma_unique_drop_last(s);
        lemma_map_of_dom_len(t);
        let k = s.last().0@;
        lemma_map_of_contains(t, k);
        assert(!map_of(t).contains_key(k)) by {
            if exists|i: int| 0 <= i < t.len() && (#[trigger] t[i].0@) == k {
                let i = choose|i: int| 0 <= i < t.len() && (#[trigger] t[i].0@) == k;
                assert(s[i].0@ == s[s.len() - 1].0@);
            }
        }
        assert(map_of(s).dom() =~= map_of(t).dom().insert(k));
    }
}

pub proof fn lemma_map_of_update<V>(s: Seq<(String, V)>, i: int, x: (String, V))
    requires
        unique_keys(s),
        0 <= i < s.len(),
        x.0@ == s[i].0@,
    ensures
        unique_keys(s.update(i, x)),
        map_of(s.update(i, x)) == map_of(s).insert(x.0@, x.1),
{
    let s2 = s.update(i, x);
    assert forall|a: int, b: int| 0 <= a < b < s2.len() implies (#[trigger] s2[a].0@)
        != (#[trigger] s2[b].0@) by {
        assert(s[a].0@ != s[b].0@);
    }
    let rhs = map_of(s).insert(x.0@, x.1);
    assert forall|k: Seq<char>| #[trigger] map_of(s2).contains_key(k) implies rhs.contains_key(k)
        && map_of(s2)[k] == rhs[k] by {
        lemma_map_of_contains(s2, k);
        let j = choose|j: int| 0 <= j < s2.len() && (#[trigger] s2[j].0@) == k;
        lemma_map_of_index(s2, j);
        if j == i {
        } else {
            assert(s[j].0@ == k);
            lemma_map_of_index(s, j);
            assert(k != x.0@);
        }
    }
    assert forall|k: Seq<char>| #[trigger] rhs.contains_key(k) implies map_of(s2).contains_key(
        k,
    ) by {
        if k == x.0@ {
            assert(s2[i].0@ == k);
        } else {
            lemma_map_of_contains(s, k);
            let j = choose|j: int| 0 <= j < s.len() && (#[trigger] s[j].0@) == k;
            assert(s2[j].0@ == k);
        }
        lemma_map_of_contains(s2, k);
    }
    assert(map_of(s2) =~= rhs);
}

pub proof fn lemma_map_of_remove_at<V>(s: Seq<(String, V)>, i: int)
    requires
        unique_keys(s),
        0 <= i < s.len(),
    ensures
        unique_keys(s.remove(i)),
        map_of(s.remove(i)) == map_of(s).remove(s[i].0@),
{
    let s2 = s.remove(i);
    assert forall|a: int, b: int| 0 <= a < b < s2.len() implies (#[trigger] s2[a].0@)
        != (#[trigger] s2[b].0@) by {
        let a0 = if a < i { a } else { a + 1 };
        let b0 = if b < i { b } else { b + 1 };
        assert(s2[a] == s[a0]);
        assert(s2[b] == s[b0]);
        assert(s[a0].0@ != s[b0].0@);
    }
    let rhs = map_of(s).remove(s[i].0@);
    assert forall|k: Seq<char>| #[trigger] map_of(s2).contains_key(k) implies rhs.contains_key(k)
        && map_of(s2)[k] == rhs[k] by {
        lemma_map_of_contains(s2, k);
        let j = choose|j: int| 0 <= j < s2.len() && (#[trigger] s2[j].0@) == k;
        let j0 = if j < i { j } else { j + 1 };
        assert(s2[j] == s[j0]);
        lemma_map_of_index(s2, j);
        lemma_map_of_index(s, j0);
        assert(s[j0].0@ != s[i].0@);
    }
    assert forall|k: Seq<char>| #[trigger] rhs.contains_key(k) implies map_of(s2).contains_key(
        k,
    ) by {
        lemma_map_of_contains(s, k);
        let j = choose|j: int| 0 <= j < s.len() && (#[trigger] s[j].0@) == k;
        assert(k != s[i].0@);
        let j2 = if j < i { j } else { j - 1 };
        assert(s2[j2] == s[j]);
        lemma_map_of_contains(s2, k);
    }
    assert(map_of(s2) =~= rhs);
}

pub proof fn lemma_map_of_push<V>(s: Seq<(String, V)>, x: (String, V))
    requires
        unique_keys(s),
        !map_of(s).contains_key(x.0@),
    ensures
        unique_keys(s.push(x)),
        map_of(s.push(x)) == map_of(s).insert(x.0@, x.1),
{
    lemma_map_of_contains(s, x.0@);
    let s2 = s.push(x);
    assert forall|a: int, b: int| 0 <= a < b < s2.len() implies (#[trigger] s2[a].0@)
        != (#[trigger] s2[b].0@) by {
        if b < s.len() {
            assert(s[a].0@ != s[b].0@);
        } else {
            assert(s2[a] == s[a]);
        }
    }
    assert(s2.drop_last() =~= s);
    assert(s2.last() == x);
}

/// A map from string keys to values, with unique keys.
pub struct StringMap<V> {
    entries: Vec<(String, V)>,
}

impl<V> StringMap<V> {
    /// The abstract map this value denotes.
    pub closed spec fn view(&self) -> Map<Seq<char>, V> {
        map_of(self.entries@)
    }

    /// The underlying key/value pairs, in insertion order.
    pub closed spec fn kvs(&self) -> Seq<(String, V)> {
        self.entries@
    }

    /// Well-formed: no key occurs twice.
    pub closed spec fn wf(&self) -> bool {
        unique_keys(self.entries@)
    }

    /// Bridge between the entry sequence and the abstract map.
    pub proof fn lemma_kvs(&self)
        requires
            self.wf(),
        ensures
            self@.dom().finite(),
            self@.dom().len() == self.kvs().len(),
            forall|i: int, j: int|
                0 <= i < j < self.kvs().len() ==> (#[trigger] self.kvs()[i].0@) != (
                #[trigger] self.kvs()[j].0@),
            forall|i: int|
                0 <= i < self.kvs().len() ==> self@.contains_key(#[trigger] self.kvs()[i].0@)
                    && self@[self.kvs()[i].0@] == self.kvs()[i].1,
            forall|k: Seq<char>|
                #[trigger] self@.contains_key(k) ==> exists|i: int|
                    0 <= i < self.kvs().len() && (#[trigger] self.kvs()[i].0@) == k,
    {
        lemma_map_of_dom_len(self.entries@);
        assert forall|i: int| 0 <= i < self.kvs().len() implies self@.contains_key(
            #[trigger] self.kvs()[i].0@,
        ) && self@[self.kvs()[i].0@] == self.kvs()[i].1 by {
            lemma_map_of_index(self.entries@, i);
        }
        assert forall|k: Seq<char>| #[trigger] self@.contains_key(k) implies exists|i: int|
            0 <= i < self.kvs().len() && (#[trigger] self.kvs()[i].0@) == k by {
            lemma_map_of_contains(self.entries@, k);
            let i = choose|i: int|
                0 <= i < self.entries@.len() && (#[trigger] self.entries@[i].0@) == k;
            assert(0 <= i < self.kvs().len() && self.kvs()[i].0@ == k);
        }
    }

    pub fn new() -> (r: StringMap<V>)
        ensures
            r.wf(),
            r@ == Map::<Seq<char>, V>::empty(),
            r.kvs().len() == 0,
    {
        let r = StringMap { entries: Vec::new() };
        proof {
            assert(map_of(r.entries@) =~= Map::<Seq<char>, V>::empty());
        }
        r
    }

    /// Number of entries, equal to the size of the abstract map.
    pub fn num_entries(&self) -> (r: usize)
        ensures
            r == self.kvs().len(),
            self.wf() ==> r == self@.dom().len(),
    {
        proof {
            if self.wf() {
                self.lemma_kvs();
            }
        }
        self.entries.len()
    }

    /// Index of the entry holding `k`, if any.
    fn index_of(&self, k: &String) -> (r: Option<usize>)
        requires
            self.wf(),
        ensures
            match r {
                Some(i) => i < self.kvs().len() && self.kvs()[i as int].0@ == k@
                    && self@.contains_key(k@) && self@[k@] == self.kvs()[i as int].1,
                None => !self@.contains_key(k@),
            },
    {
        let n = self.entries.len();
        let mut i: usize = 0;
        while i < n
            invariant
                n == self.kvs().len(),
                i <= n,
                self.wf(),
                forall|j: int| 0 <= j < i ==> (#[trigger] self.kvs()[j].0@) != k@,
            decreases n - i,
        {
            if self.entries[i].0.eq(k) {
                proof {
                    lemma_map_of_index(self.entries@, i as int);
                }
                return Some(i);
            }
            i += 1;
        }
        proof {
            lemma_map_of_contains(self.entries@, k@);
        }
        None
    }

    pub fn contains_key(&self, k: &String) -> (r: bool)
        requires
            self.wf(),
        ensures
            r == self@.contains_key(k@),
    {
        self.index_of(k).is_some()
    }

    pub fn get(&self, k: &String) -> (r: Option<&V>)
        requires
            self.wf(),
        ensures
            match r {
                Some(v) => self@.contains_key(k@) && *v == self@[k@],
                None => !self@.contains_key(k@),
            },
    {
        match self.index_of(k) {
            Some(i) => Some(&self.entries[i].1),
            None => None,
        }
    }

    /// Mutable access to the value under `k`; the final map holds whatever the
    /// caller leaves behind the reference.
    pub fn get_mut(&mut self, k: &String) -> (r: &mut V)
        requires
            old(self).wf(),
            old(self)@.contains_key(k@),
        ensures
            final(self).wf(),
            *r == old(self)@[k@],
            final(self)@ == old(self)@.insert(k@, *final(r)),
            final(self).kvs().len() == old(self).kvs().len(),
            *final(r) == old(self)@[k@] ==> final(self).kvs() == old(self).kvs(),
    {
        let ghost s0 = self.entries@;
        let i = self.index_of(k).unwrap();
        proof {
            assert forall|v: V|
                unique_keys(#[trigger] s0.update(i as int, (s0[i as int].0, v))) && map_of(
                    s0.update(i as int, (s0[i as int].0, v)),
                ) == map_of(s0).insert(k@, v) by {
                lemma_map_of_update(s0, i as int, (s0[i as int].0, v));
            }
            assert forall|v: V| v == s0[i as int].1 implies #[trigger] s0.update(
                i as int,
                (s0[i as int].0, v),
            ) == s0 by {
                assert(s0.update(i as int, (s0[i as int].0, v)) =~= s0);
            }
        }
        &mut self.entries[i].1
    }

    pub fn insert(&mut self, k: String, v: V)
        requires
            old(self).wf(),
        ensures
            final(self).wf(),
            final(self)@ == old(self)@.insert(k@, v),
            final(self).kvs().len() == old(self).kvs().len() + (if old(self)@.contains_key(k@) {
                0int
            } else {
                1int
            }),
    {
        let ghost s0 = self.entries@;
        let ghost gk = k@;
        let ghost gv = v;
        match self.index_of(&k) {
            Some(i) => {
                self.entries[i].1 = v;
                proof {
                    assert(self.entries@ =~= s0.update(i as int, (s0[i as int].0, gv)));
                    lemma_map_of_update(s0, i as int, (s0[i as int].0, gv));
                }
            },
            None => {
                self.entries.push((k, v));
                proof {
                    assert(self.entries@.last().0@ == gk);
                    lemma_map_of_push(s0, self.entries@.last());
                }
            },
        }
    }

    pub fn remove(&mut self, k: &String) -> (r: Option<V>)
        requires
            old(self).wf(),
        ensures
            final(self).wf(),
            final(self)@ == old(self)@.remove(k@),
            match r {
                Some(v) => old(self)@.contains_key(k@) && v == old(self)@[k@],
                None => !old(self)@.contains_key(k@) && *final(self) == *old(self),
            },
            final(self).kvs().len() == old(self).kvs().len() - (if old(self)@.contains_key(k@) {
                1int
            } else {
                0int
            }),
    {
        let ghost s0 = self.entries@;
        match self.index_of(k) {
            Some(i) => {
                let (_, v) = self.entries.remove(i);
                proof {
                    lemma_map_of_remove_at(s0, i as int);
                }
                Some(v)
            },
            None => {
                proof {
                    assert(map_of(s0).remove(k@) =~= map_of(s0));
                }
                None
            },
        }
    }

    /// Mutable access to the value at position `i`.
    pub fn value_at_mut(&mut self, i: usize) -> (r: &mut V)
        requires
            old(self).wf(),
            i < old(self).kvs().len(),
        ensures
            final(self).wf(),
            *r == old(self).kvs()[i as int].1,
            final(self).kvs() == old(self).kvs().update(
                i as int,
                (old(self).kvs()[i as int].0, *final(r)),
            ),
            final(self)@ == old(self)@.insert(old(self).kvs()[i as int].0@, *final(r)),
            final(self).kvs().len() == old(self).kvs().len(),
    {
        let ghost s0 = self.entries@;
        proof {
            assert forall|v: V|
                unique_keys(#[trigger] s0.update(i as int, (s0[i as int].0, v))) && map_of(
                    s0.update(i as int, (s0[i as int].0, v)),
                ) == map_of(s0).insert(s0[i as int].0@, v) by {
                lemma_map_of_update(s0, i as int, (s0[i as int].0, v));
            }
        }
        &mut self.entries[i].1
    }

    /// The key and value of the entry at position `i`.
    pub fn entry_at(&self, i: usize) -> (r: (&String, &V))
        requires
            i < self.kvs().len(),
        ensures
            r.0@ == self.kvs()[i as int].0@,
            *r.1 == self.kvs()[i as int].1,
    {
        let e = &self.entries[i];
        (&e.0, &e.1)
    }
}

} // verus!
