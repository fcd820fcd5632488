//! Association with `u64` keys, used for the execution-result detail store
//! keyed by execution counter.

use vstd::prelude::*;

verus! {

/// No two entries share a key.
pub open spec fn unique_ctr_keys<V>(s: Seq<(u64, V)>) -> bool {
    forall|i: int, j: int| 0 <= i < j < s.len() ==> (#[trigger] s[i].0) != (#[trigger] s[j].0)
}

/// The abstract map denoted by a pair sequence; a later entry wins.
pub open spec fn ctr_map_of<V>(s: Seq<(u64, V)>) -> Map<u64, V>
    decreases s.len(),
{
    if s.len() == 0 {
        Map::empty()
    } else {
        ctr_map_of(s.drop_last()).insert(s.last().0, s.last().1)
    }
}

pub proof fn lemma_ctr_map_contains<V>(s: Seq<(u64, V)>, k: u64)
    ensures
        ctr_map_of(s).contains_key(k) <==> (exists|i: int|
            0 <= i < s.len() && (#[trigger] s[i].0) == k),
    decreases s.len(),
{
    if s.len() == 0 {
        assert(ctr_map_of(s) =~= Map::<u64, V>::empty());
    } else {
        let t = s.drop_last();
        lemma_ctr_map_contains(t, k);
        if ctr_map_of(s).contains_key(k) {
            if k == s.last().0 {
                assert(s[s.len() - 1].0 == k);
            } else {
                let i = choose|i: int| 0 <= i < t.len() && (#[trigger] t[i].0) == k;
                assert(s[i].0 == k);
            }
        }
        if exists|i: int| 0 <= i < s.len() && (#[trigger] s[i].0) == k {
            let i = choose|i: int| 0 <= i < s.len() && (#[trigger] s[i].0) == k;
            if i < s.len() - 1 {
                assert(t[i].0 == k);
            }
        }
    }
}

pub proof fn lemma_ctr_map_index<V>(s: Seq<(u64, V)>, i: int)
    requires
        unique_ctr_keys(s),
        0 <= i < s.len(),
    ensures
        ctr_map_of(s).contains_key(s[i].0),
        ctr_map_of(s)[s[i].0] == s[i].1,
    decreases s.len(),
{
    let t = s.drop_last();
    if i == s.len() - 1 {
    } else {
        assert forall|a: int, b: int| 0 <= a < b < t.len() implies (#[trigger] t[a].0) != (
        #[trigger] t[b].0) by {
            assert(s[a].0 != s[b].0);
        }
        lemma_ctr_map_index(t, i);
        assert(s[i].0 != s[s.len() - 1].0);
    }
}

proof fn lemma_ctr_map_update<V>(s: Seq<(u64, V)>, i: int, x: (u64, V))
    requires
        unique_ctr_keys(s),
        0 <= i < s.len(),
        x.0 == s[i].0,
    ensures
        unique_ctr_keys(s.update(i, x)),
        ctr_map_of(s.update(i, x)) == ctr_map_of(s).insert(x.0, x.1),
{
    let s2 = s.update(i, x);
    assert forall|a: int, b: int| 0 <= a < b < s2.len() implies (#[trigger] s2[a].0) != (
    #[trigger] s2[b].0) by {
        assert(s[a].0 != s[b].0);
    }
    let rhs = ctr_map_of(s).insert(x.0, x.1);
    assert forall|k: u64| #[trigger] ctr_map_of(s2).contains_key(k) implies rhs.contains_key(k)
        && ctr_map_of(s2)[k] == rhs[k] by {
        lemma_ctr_map_contains(s2, k);
        let j = choose|j: int| 0 <= j < s2.len() && (#[trigger] s2[j].0) == k;
        lemma_ctr_map_index(s2, j);
        if j == i {
        } else {
            assert(s[j].0 == k);
            lemma_ctr_map_index(s, j);
            assert(k != x.0);
        }
    }
    assert forall|k: u64| #[trigger] rhs.contains_key(k) implies ctr_map_of(s2).contains_key(
        k,
    ) by {
        if k == x.0 {
            assert(s2[i].0 == k);
        } else {
            lemma_ctr_map_contains(s, k);
            let j = choose|j: int| 0 <= j < s.len() && (#[trigger] s[j].0) == k;
            assert(s2[j].0 == k);
        }
        lemma_ctr_map_contains(s2, k);
    }
    assert(ctr_map_of(s2) =~= rhs);
}

proof fn lemma_ctr_map_remove_at<V>(s: Seq<(u64, V)>, i: int)
    requires
        unique_ctr_keys(s),
        0 <= i < s.len(),
    ensures
        unique_ctr_keys(s.remove(i)),
        ctr_map_of(s.remove(i)) == ctr_map_of(s).remove(s[i].0),
{
    let s2 = s.remove(i);
    assert forall|a: int, b: int| 0 <= a < b < s2.len() implies (#[trigger] s2[a].0) != (
    #[trigger] s2[b].0) by {
        let a0 = if a < i { a } else { a + 1 };
        let b0 = if b < i { b } else { b + 1 };
        assert(s2[a] == s[a0]);
        assert(s2[b] == s[b0]);
        assert(s[a0].0 != s[b0].0);
    }
    let rhs = ctr_map_of(s).remove(s[i].0);
    assert forall|k: u64| #[trigger] ctr_map_of(s2).contains_key(k) implies rhs.contains_key(k)
        && ctr_map_of(s2)[k] == rhs[k] by {
        lemma_ctr_map_contains(s2, k);
        let j = choose|j: int| 0 <= j < s2.len() && (#[trigger] s2[j].0) == k;
        let j0 = if j < i { j } else { j + 1 };
        assert(s2[j] == s[j0]);
        lemma_ctr_map_index(s2, j);
        lemma_ctr_map_index(s, j0);
        assert(s[j0].0 != s[i].0);
    }
    assert forall|k: u64| #[trigger] rhs.contains_key(k) implies ctr_map_of(s2).contains_key(
        k,
    ) by {
        lemma_ctr_map_contains(s, k);
        let j = choose|j: int| 0 <= j < s.len() && (#[trigger] s[j].0) == k;
        assert(k != s[i].0);
        let j2 = if j < i { j } else { j - 1 };
        assert(s2[j2] == s[j]);
        lemma_ctr_map_contains(s2, k);
    }
    assert(ctr_map_of(s2) =~= rhs);
}

proof fn lemma_ctr_map_push<V>(s: Seq<(u64, V)>, x: (u64, V))
    requires
        unique_ctr_keys(s),
        !ctr_map_of(s).contains_key(x.0),
    ensures
        unique_ctr_keys(s.push(x)),
        ctr_map_of(s.push(x)) == ctr_map_of(s).insert(x.0, x.1),
{
    lemma_ctr_map_contains(s, x.0);
    let s2 = s.push(x);
    assert forall|a: int, b: int| 0 <= a < b < s2.len() implies (#[trigger] s2[a].0) != (
    #[trigger] s2[b].0) by {
        if b < s.len() {
            assert(s[a].0 != s[b].0);
        } else {
            assert(s2[a] == s[a]);
        }
    }
    assert(s2.drop_last() =~= s);
    assert(s2.last() == x);
}

/// A map from execution counters to values, with unique keys.
pub struct CtrMap<V> {
    entries: Vec<(u64, V)>,
}

impl<V> CtrMap<V> {
    pub closed spec fn view(&self) -> Map<u64, V> {
        ctr_map_of(self.entries@)
    }

    pub closed spec fn kvs(&self) -> Seq<(u64, V)> {
        self.entries@
    }

    pub closed spec fn wf(&self) -> bool {
        unique_ctr_keys(self.entries@)
    }

    pub fn new() -> (r: CtrMap<V>)
        ensures
            r.wf(),
            r@ == Map::<u64, V>::empty(),
            r.kvs().len() == 0,
    {
        let r = CtrMap { entries: Vec::new() };
        proof {
            assert(ctr_map_of(r.entries@) =~= Map::<u64, V>::empty());
        }
        r
    }

    pub fn num_entries(&self) -> (r: usize)
        ensures
            r == self.kvs().len(),
    {
        self.entries.len()
    }

    /// Bridge between the entry sequence and the abstract map.
    pub proof fn lemma_kvs(&self)
        requires
            self.wf(),
        ensures
            forall|i: int|
                0 <= i < self.kvs().len() ==> self@.contains_key(#[trigger] self.kvs()[i].0)
                    && self@[self.kvs()[i].0] == self.kvs()[i].1,
            forall|k: u64|
                #[trigger] self@.contains_key(k) ==> exists|i: int|
                    0 <= i < self.kvs().len() && (#[trigger] self.kvs()[i].0) == k,
    {
        assert forall|i: int| 0 <= i < self.kvs().len() implies self@.contains_key(
            #[trigger] self.kvs()[i].0,
        ) && self@[self.kvs()[i].0] == self.kvs()[i].1 by {
            lemma_ctr_map_index(self.entries@, i);
        }
        assert forall|k: u64| #[trigger] self@.contains_key(k) implies exists|i: int|
            0 <= i < self.kvs().len() && (#[trigger] self.kvs()[i].0) == k by {
            lemma_ctr_map_contains(self.entries@, k);
            let i = choose|i: int| 0 <= i < self.entries@.len() && (#[trigger] self.entries@[i].0)
                == k;
            assert(0 <= i < self.kvs().len() && self.kvs()[i].0 == k);
        }
    }

    fn index_of(&self, k: u64) -> (r: Option<usize>)
        requires
            self.wf(),
        ensures
            match r {
                Some(i) => i < self.kvs().len() && self.kvs()[i as int].0 == k
                    && self@.contains_key(k) && self@[k] == self.kvs()[i as int].1,
                None => !self@.contains_key(k),
            },
    {
        let n = self.entries.len();
        let mut i: usize = 0;
        while i < n
            invariant
                n == self.kvs().len(),
                i <= n,
                self.wf(),
                forall|j: int| 0 <= j < i ==> (#[trigger] self.kvs()[j].0) != k,
            decreases n - i,
        {
            if self.entries[i].0 == k {
                proof {
                    lemma_ctr_map_index(self.entries@, i as int);
                }
                return Some(i);
            }
            i += 1;
        }
        proof {
            lemma_ctr_map_contains(self.entries@, k);
        }
        None
    }

    pub fn contains_key(&self, k: u64) -> (r: bool)
        requires
            self.wf(),
        ensures
            r == self@.contains_key(k),
    {
        self.index_of(k).is_some()
    }

    pub fn get(&self, k: u64) -> (r: Option<&V>)
        requires
            self.wf(),
        ensures
            match r {
                Some(v) => self@.contains_key(k) && *v == self@[k],
                None => !self@.contains_key(k),
            },
    {
        match self.index_of(k) {
            Some(i) => Some(&self.entries[i].1),
            None => None,
        }
    }

    pub fn insert(&mut self, k: u64, v: V)
        requires
            old(self).wf(),
        ensures
            final(self).wf(),
            final(self)@ == old(self)@.insert(k, v),
    {
        let ghost s0 = self.entries@;
        let ghost gv = v;
        match self.index_of(k) {
            Some(i) => {
                self.entries[i].1 = v;
                proof {
                    assert(self.entries@ =~= s0.update(i as int, (s0[i as int].0, gv)));
                    lemma_ctr_map_update(s0, i as int, (s0[i as int].0, gv));
                }
            },
            None => {
                self.entries.push((k, v));
                proof {
                    lemma_ctr_map_push(s0, self.entries@.last());
                }
            },
        }
    }

    pub fn remove(&mut self, k: u64) -> (r: Option<V>)
        requires
            old(self).wf(),
        ensures
            final(self).wf(),
            final(self)@ == old(self)@.remove(k),
            match r {
                Some(v) => old(self)@.contains_key(k) && v == old(self)@[k],
                None => !old(self)@.contains_key(k) && *final(self) == *old(self),
            },
    {
        let ghost s0 = self.entries@;
        match self.index_of(k) {
            Some(i) => {
                let (_, v) = self.entries.remove(i);
                proof {
                    lemma_ctr_map_remove_at(s0, i as int);
                }
                Some(v)
            },
            None => {
                proof {
                    assert(ctr_map_of(s0).remove(k) =~= ctr_map_of(s0));
                }
                None
            },
        }
    }
}

} // verus!
