//! Parent-indexed, ordered entity collections.
//!
//! `RequestTree` holds requests and groups: entities keyed by id, an ordered
//! top-level id list, and an adjacency map from group id to ordered child
//! ids.  `ParamCollection` holds a parameter kind partitioned into the
//! public / private / vault sections.  Both keep the structural invariants
//! the workspace relies on: every referenced id exists, ids are unique in
//! each ordering, and an entity has at most one parent.

use crate::smap::StringMap;
use vstd::prelude::*;

verus! {

/// Where to place an entity relative to another one.
#[derive(Clone, Copy, PartialEq, Eq, Structural, Debug)]
pub enum EntityPosition {
    Before,
    After,
    Under,
}

/// `k` occurs in the id list.
pub open spec fn id_in(s: Seq<String>, k: Seq<char>) -> bool {
    exists|i: int| 0 <= i < s.len() && (#[trigger] s[i]@) == k
}

/// No id occurs twice in the list.
pub open spec fn ids_unique(s: Seq<String>) -> bool {
    forall|i: int, j: int| 0 <= i < j < s.len() ==> (#[trigger] s[i]@) != (#[trigger] s[j]@)
}

/// Index of `k` in `ids`, scanning from the front.
pub fn find_id(ids: &Vec<String>, k: &String) -> (r: Option<usize>)
    ensures
        match r {
            Some(i) => i < ids@.len() && ids@.len() <= usize::MAX && ids@[i as int]@ == k@,
            None => !id_in(ids@, k@),
        },
{
    let n = ids.len();
    let mut i: usize = 0;
    while i < n
        invariant
            n == ids@.len(),
            i <= n,
            forall|j: int| 0 <= j < i ==> (#[trigger] ids@[j]@) != k@,
        decreases n - i,
    {
        if ids[i].eq(k) {
            return Some(i);
        }
        i += 1;
    }
    None
}

/// Membership of each key after removing position `i`.
pub proof fn lemma_remove_id_membership(s: Seq<String>, i: int)
    requires
        0 <= i < s.len(),
        ids_unique(s),
    ensures
        ids_unique(s.remove(i)),
        forall|k: Seq<char>| #[trigger] id_in(s.remove(i), k) <==> (id_in(s, k) && k != s[i]@),
{
    let t = s.remove(i);
    assert forall|a: int, b: int| 0 <= a < b < t.len() implies (#[trigger] t[a]@) != (
    #[trigger] t[b]@) by {
        let a0 = if a < i { a } else { a + 1 };
        let b0 = if b < i { b } else { b + 1 };
        assert(t[a] == s[a0]);
        assert(t[b] == s[b0]);
        assert(s[a0]@ != s[b0]@);
    }
    assert forall|k: Seq<char>| #[trigger] id_in(t, k) implies (id_in(s, k) && k != s[i]@) by {
        let j = choose|j: int| 0 <= j < t.len() && (#[trigger] t[j]@) == k;
        let j0 = if j < i { j } else { j + 1 };
        assert(t[j] == s[j0]);
        assert(s[j0]@ == k);
        assert(s[j0]@ != s[i]@);
    }
    assert forall|k: Seq<char>| id_in(s, k) && k != s[i]@ implies #[trigger] id_in(t, k) by {
        let j = choose|j: int| 0 <= j < s.len() && (#[trigger] s[j]@) == k;
        let j2 = if j < i { j } else { j - 1 };
        assert(t[j2] == s[j]);
    }
}

/// Membership of each key after inserting `x` at position `i`.
pub proof fn lemma_insert_id_membership(s: Seq<String>, i: int, x: String)
    requires
        0 <= i <= s.len(),
        ids_unique(s),
        !id_in(s, x@),
    ensures
        ids_unique(s.insert(i, x)),
        forall|k: Seq<char>| #[trigger] id_in(s.insert(i, x), k) <==> (id_in(s, k) || k == x@),
{
    let t = s.insert(i, x);
    assert forall|a: int, b: int| 0 <= a < b < t.len() implies (#[trigger] t[a]@) != (
    #[trigger] t[b]@) by {
        if a == i {
            let b0 = b - 1;
            assert(t[b] == s[b0]);
            assert(!id_in(s, x@));
            if s[b0]@ == x@ {
                assert(id_in(s, x@));
            }
        } else if b == i {
            let a0 = a;
            assert(t[a] == s[a0]);
            if s[a0]@ == x@ {
                assert(id_in(s, x@));
            }
        } else {
            let a0 = if a < i { a } else { a - 1 };
            let b0 = if b < i { b } else { b - 1 };
            assert(t[a] == s[a0]);
            assert(t[b] == s[b0]);
            assert(s[a0]@ != s[b0]@);
        }
    }
    assert forall|k: Seq<char>| #[trigger] id_in(t, k) implies (id_in(s, k) || k == x@) by {
        let j = choose|j: int| 0 <= j < t.len() && (#[trigger] t[j]@) == k;
        if j != i {
            let j0 = if j < i { j } else { j - 1 };
            assert(t[j] == s[j0]);
            assert(s[j0]@ == k);
        }
    }
    assert forall|k: Seq<char>| id_in(s, k) || k == x@ implies #[trigger] id_in(t, k) by {
        if k == x@ {
            assert(t[i]@ == k);
        } else {
            let j = choose|j: int| 0 <= j < s.len() && (#[trigger] s[j]@) == k;
            let j2 = if j < i { j } else { j + 1 };
            assert(t[j2] == s[j]);
        }
    }
}

/// Membership after appending `x`.
pub proof fn lemma_push_id_membership(s: Seq<String>, x: String)
    requires
        ids_unique(s),
        !id_in(s, x@),
    ensures
        ids_unique(s.push(x)),
        forall|k: Seq<char>| #[trigger] id_in(s.push(x), k) <==> (id_in(s, k) || k == x@),
{
    assert(s.push(x) =~= s.insert(s.len() as int, x));
    lemma_insert_id_membership(s, s.len() as int, x);
}

/// Removes the first occurrence of `k`, returning whether one was found.
pub fn remove_id(ids: &mut Vec<String>, k: &String) -> (r: bool)
    requires
        ids_unique(old(ids)@),
    ensures
        ids_unique(final(ids)@),
        r == id_in(old(ids)@, k@),
        forall|k2: Seq<char>|
            #[trigger] id_in(final(ids)@, k2) <==> (id_in(old(ids)@, k2) && k2 != k@),
        final(ids)@.len() == old(ids)@.len() - (if id_in(old(ids)@, k@) {
            1int
        } else {
            0int
        }),
{
    let ghost s0 = ids@;
    match find_id(ids, k) {
        Some(i) => {
            ids.remove(i);
            proof {
                lemma_remove_id_membership(s0, i as int);
                assert(id_in(s0, k@)) by {
                    assert(s0[i as int]@ == k@);
                }
            }
            true
        },
        None => {
            proof {
                assert forall|k2: Seq<char>| #[trigger] id_in(ids@, k2) implies (id_in(s0, k2)
                    && k2 != k@) by {}
            }
            false
        },
    }
}


/// An entity with a string identity, a display name and a validation state.
pub trait Ident: Sized {
    spec fn sid(&self) -> Seq<char>;

    spec fn sname(&self) -> Seq<char>;

    spec fn svalidation(&self) -> crate::model::ValidationState;

    fn ident(&self) -> (r: &String)
        ensures
            r@ == self.sid(),
    ;

    fn title(&self) -> (r: String)
        ensures
            r@ == crate::model::title_of(self.sname()),
    ;

    fn vstate(&self) -> (r: crate::model::ValidationState)
        ensures
            r == self.svalidation(),
    ;
}

impl Ident for crate::model::Scenario {
    open spec fn sid(&self) -> Seq<char> {
        self.id@
    }

    open spec fn sname(&self) -> Seq<char> {
        self.name@
    }

    open spec fn svalidation(&self) -> crate::model::ValidationState {
        self.validation_state
    }

    fn ident(&self) -> (r: &String) {
        &self.id
    }

    fn title(&self) -> (r: String) {
        self.get_title()
    }

    fn vstate(&self) -> (r: crate::model::ValidationState) {
        self.validation_state
    }
}

impl Ident for crate::model::Authorization {
    open spec fn sid(&self) -> Seq<char> {
        self.spec_id()
    }

    open spec fn sname(&self) -> Seq<char> {
        self.spec_name()
    }

    open spec fn svalidation(&self) -> crate::model::ValidationState {
        self.spec_validation_state()
    }

    fn ident(&self) -> (r: &String) {
        self.get_id()
    }

    fn title(&self) -> (r: String) {
        self.get_title()
    }

    fn vstate(&self) -> (r: crate::model::ValidationState) {
        self.get_validation_state()
    }
}

impl Ident for crate::model::Certificate {
    open spec fn sid(&self) -> Seq<char> {
        self.spec_id()
    }

    open spec fn sname(&self) -> Seq<char> {
        self.spec_name()
    }

    open spec fn svalidation(&self) -> crate::model::ValidationState {
        self.spec_validation_state()
    }

    fn ident(&self) -> (r: &String) {
        self.get_id()
    }

    fn title(&self) -> (r: String) {
        self.get_title()
    }

    fn vstate(&self) -> (r: crate::model::ValidationState) {
        self.get_validation_state()
    }
}

impl Ident for crate::model::Proxy {
    open spec fn sid(&self) -> Seq<char> {
        self.id@
    }

    open spec fn sname(&self) -> Seq<char> {
        self.name@
    }

    open spec fn svalidation(&self) -> crate::model::ValidationState {
        self.validation_state
    }

    fn ident(&self) -> (r: &String) {
        &self.id
    }

    fn title(&self) -> (r: String) {
        self.get_title()
    }

    fn vstate(&self) -> (r: crate::model::ValidationState) {
        self.validation_state
    }
}

impl Ident for crate::model::DataSet {
    open spec fn sid(&self) -> Seq<char> {
        self.id@
    }

    open spec fn sname(&self) -> Seq<char> {
        self.name@
    }

    open spec fn svalidation(&self) -> crate::model::ValidationState {
        self.validation_state
    }

    fn ident(&self) -> (r: &String) {
        &self.id
    }

    fn title(&self) -> (r: String) {
        self.get_title()
    }

    fn vstate(&self) -> (r: crate::model::ValidationState) {
        self.validation_state
    }
}

impl Ident for crate::model::RequestEntry {
    open spec fn sid(&self) -> Seq<char> {
        self.spec_id()
    }

    open spec fn sname(&self) -> Seq<char> {
        self.spec_name()
    }

    open spec fn svalidation(&self) -> crate::model::ValidationState {
        self.spec_validation_state()
    }

    fn ident(&self) -> (r: &String) {
        self.get_id()
    }

    fn title(&self) -> (r: String) {
        self.get_title()
    }

    fn vstate(&self) -> (r: crate::model::ValidationState) {
        self.get_validation_state()
    }
}

/// The partition a parameter lives in.
#[derive(Clone, Copy, PartialEq, Eq, Structural, Debug)]
pub enum Partition {
    Public,
    Private,
    Vault,
}

/// A parameter collection partitioned into public / private / vault sections,
/// each an ordered id list over the shared entity map.
pub struct ParamCollection<T> {
    pub entities: StringMap<T>,
    pub public_ids: Vec<String>,
    pub private_ids: Vec<String>,
    pub vault_ids: Vec<String>,
}

impl<T: Ident> ParamCollection<T> {
    /// `k` occurs in some section's ordering.
    pub open spec fn listed(self, k: Seq<char>) -> bool {
        id_in(self.public_ids@, k) || id_in(self.private_ids@, k) || id_in(self.vault_ids@, k)
    }

    /// Structural invariant: unique orderings over existing entities, each
    /// entity listed in exactly one section, keys matching entity identity.
    pub open spec fn wf(self) -> bool {
        &&& self.entities.wf()
        &&& forall|k: Seq<char>|
            #[trigger] self.entities@.contains_key(k) ==> self.entities@[k].sid() == k
        &&& ids_unique(self.public_ids@)
        &&& ids_unique(self.private_ids@)
        &&& ids_unique(self.vault_ids@)
        &&& forall|k: Seq<char>|
            #[trigger] id_in(self.public_ids@, k) ==> self.entities@.contains_key(k) && !id_in(
                self.private_ids@,
                k,
            ) && !id_in(self.vault_ids@, k)
        &&& forall|k: Seq<char>|
            #[trigger] id_in(self.private_ids@, k) ==> self.entities@.contains_key(k) && !id_in(
                self.vault_ids@,
                k,
            )
        &&& forall|k: Seq<char>|
            #[trigger] id_in(self.vault_ids@, k) ==> self.entities@.contains_key(k)
        &&& forall|k: Seq<char>| #[trigger] self.entities@.contains_key(k) ==> self.listed(k)
    }

    pub fn new() -> (r: ParamCollection<T>)
        ensures
            r.wf(),
            r.entities@ == Map::<Seq<char>, T>::empty(),
            r.public_ids@.len() == 0,
            r.private_ids@.len() == 0,
            r.vault_ids@.len() == 0,
    {
        ParamCollection {
            entities: StringMap::new(),
            public_ids: Vec::new(),
            private_ids: Vec::new(),
            vault_ids: Vec::new(),
        }
    }

    pub fn get(&self, id: &String) -> (r: Option<&T>)
        requires
            self.wf(),
        ensures
            match r {
                Some(v) => self.entities@.contains_key(id@) && *v == self.entities@[id@],
                None => !self.entities@.contains_key(id@),
            },
    {
        self.entities.get(id)
    }

    /// Mutable access to a known entity.
    pub fn get_entity_mut(&mut self, id: &String) -> (r: &mut T)
        requires
            old(self).wf(),
            old(self).entities@.contains_key(id@),
        ensures
            *r == old(self).entities@[id@],
            final(self).entities@ == old(self).entities@.insert(id@, *final(r)),
            final(self).public_ids == old(self).public_ids,
            final(self).private_ids == old(self).private_ids,
            final(self).vault_ids == old(self).vault_ids,
            final(self).entities.wf(),
    {
        self.entities.get_mut(id)
    }

    /// Adds a fresh entity.  Placed beside `relative_to` when given (the
    /// section it lives in), appended to the public section otherwise.
    /// Fails if the id is already present or `relative_to` is unknown.
    pub fn add(
        &mut self,
        entity: T,
        relative_to: Option<&String>,
        position: Option<EntityPosition>,
    ) -> (r: Result<(), ()>)
        requires
            old(self).wf(),
        ensures
            final(self).wf(),
            match r {
                Ok(()) => {
                    &&& !old(self).entities@.contains_key(entity.sid())
                    &&& (match relative_to {
                        Some(rel) => old(self).listed(rel@),
                        None => true,
                    })
                    &&& final(self).entities@ == old(self).entities@.insert(entity.sid(), entity)
                    &&& final(self).listed(entity.sid())
                    &&& forall|k: Seq<char>|
                        k != entity.sid() ==> ((#[trigger] final(self).listed(k)) <==> old(
                            self,
                        ).listed(k))
                },
                Err(()) => {
                    &&& *final(self) == *old(self)
                    &&& (old(self).entities@.contains_key(entity.sid()) || (match relative_to {
                        Some(rel) => !old(self).listed(rel@),
                        None => false,
                    }))
                },
            },
    {
        let id = entity.ident().clone();
        if self.entities.contains_key(&id) {
            return Err(());
        }
        let ghost pu0 = self.public_ids@;
        let ghost pr0 = self.private_ids@;
        let ghost va0 = self.vault_ids@;
        match relative_to {
            None => {
                self.public_ids.push(id);
                proof {
                    lemma_push_id_membership(pu0, self.public_ids@.last());
                }
            },
            Some(rel) => {
                let offset: usize = match position {
                    Some(EntityPosition::Before) => 0,
                    _ => 1,
                };
                if let Some(i) = find_id(&self.public_ids, rel) {
                    self.public_ids.insert(i + offset, id);
                    proof {
                        lemma_insert_id_membership(
                            pu0,
                            i + offset,
                            self.public_ids@[i + offset],
                        );
                        assert(id_in(pu0, rel@)) by {
                            assert(pu0[i as int]@ == rel@);
                        }
                    }
                } else if let Some(i) = find_id(&self.private_ids, rel) {
                    self.private_ids.insert(i + offset, id);
                    proof {
                        lemma_insert_id_membership(
                            pr0,
                            i + offset,
                            self.private_ids@[i + offset],
                        );
                        assert(id_in(pr0, rel@)) by {
                            assert(pr0[i as int]@ == rel@);
                        }
                    }
                } else if let Some(i) = find_id(&self.vault_ids, rel) {
                    self.vault_ids.insert(i + offset, id);
                    proof {
                        lemma_insert_id_membership(
                            va0,
                            i + offset,
                            self.vault_ids@[i + offset],
                        );
                        assert(id_in(va0, rel@)) by {
                            assert(va0[i as int]@ == rel@);
                        }
                    }
                } else {
                    return Err(());
                }
            },
        }
        self.entities.insert(entity.ident().clone(), entity);
        Ok(())
    }

    /// Removes the entity and its listing.  Returns whether it was present.
    pub fn remove(&mut self, id: &String) -> (r: bool)
        requires
            old(self).wf(),
        ensures
            final(self).wf(),
            r == old(self).entities@.contains_key(id@),
            final(self).entities@ == old(self).entities@.remove(id@),
            forall|k: Seq<char>|
                #[trigger] final(self).listed(k) <==> (old(self).listed(k) && k != id@),
    {
        let present = self.entities.remove(id).is_some();
        remove_id(&mut self.public_ids, id);
        remove_id(&mut self.private_ids, id);
        remove_id(&mut self.vault_ids, id);
        proof {
            if !old(self).entities@.contains_key(id@) {
                assert(old(self).entities@.remove(id@) =~= old(self).entities@);
            }
        }
        present
    }

    /// Moves `id` beside `relative_to` within the sections.  `Ok(true)` when
    /// a move happened; `Ok(false)` when source and target are the same id.
    #[verifier::rlimit(100)]
    #[verifier::spinoff_prover]
    pub fn move_entity(
        &mut self,
        id: &String,
        relative_to: &String,
        position: EntityPosition,
    ) -> (r: Result<bool, ()>)
        requires
            old(self).wf(),
        ensures
            final(self).wf(),
            final(self).entities@ == old(self).entities@,
            match r {
                Ok(moved) => {
                    &&& old(self).entities@.contains_key(id@)
                    &&& old(self).listed(relative_to@)
                    &&& (forall|k: Seq<char>|
                        (#[trigger] final(self).listed(k)) <==> old(self).listed(k))
                    &&& (moved <==> id@ != relative_to@)
                },
                Err(()) => {
                    &&& *final(self) == *old(self)
                    &&& (!old(self).entities@.contains_key(id@) || !old(self).listed(
                        relative_to@,
                    ))
                },
            },
            (r matches Ok(moved) && moved) ==> ((id_in(final(self).public_ids@, relative_to@)
                ==> id_in(final(self).public_ids@, id@)) && (id_in(
                final(self).private_ids@,
                relative_to@,
            ) ==> id_in(final(self).private_ids@, id@)) && (id_in(
                final(self).vault_ids@,
                relative_to@,
            ) ==> id_in(final(self).vault_ids@, id@))),
    {
        if !self.entities.contains_key(id) {
            return Err(());
        }
        if find_id(&self.public_ids, relative_to).is_none() && find_id(
            &self.private_ids,
            relative_to,
        ).is_none() && find_id(&self.vault_ids, relative_to).is_none() {
            return Err(());
        }
        if id.eq(relative_to) {
            return Ok(false);
        }
        let moved = id.clone();
        remove_id(&mut self.public_ids, id);
        remove_id(&mut self.private_ids, id);
        remove_id(&mut self.vault_ids, id);
        let ghost pu0 = self.public_ids@;
        let ghost pr0 = self.private_ids@;
        let ghost va0 = self.vault_ids@;
        let offset: usize = match position {
            EntityPosition::Before => 0,
            _ => 1,
        };
        if let Some(i) = find_id(&self.public_ids, relative_to) {
            self.public_ids.insert(i + offset, moved);
            proof {
                lemma_insert_id_membership(pu0, i + offset, self.public_ids@[i + offset]);
                assert(id_in(self.public_ids@, id@)) by {
                    assert(self.public_ids@[i + offset]@ == id@);
                }
                assert(id_in(pu0, relative_to@)) by {
                    assert(pu0[i as int]@ == relative_to@);
                }
                assert(id_in(old(self).public_ids@, relative_to@));
                assert(!id_in(self.private_ids@, relative_to@));
                assert(!id_in(self.vault_ids@, relative_to@));
            }
        } else if let Some(i) = find_id(&self.private_ids, relative_to) {
            self.private_ids.insert(i + offset, moved);
            proof {
                lemma_insert_id_membership(pr0, i + offset, self.private_ids@[i + offset]);
                assert(id_in(self.private_ids@, id@)) by {
                    assert(self.private_ids@[i + offset]@ == id@);
                }
                assert(id_in(pr0, relative_to@)) by {
                    assert(pr0[i as int]@ == relative_to@);
                }
                assert(id_in(old(self).private_ids@, relative_to@));
                assert(!id_in(self.public_ids@, relative_to@));
                assert(!id_in(self.vault_ids@, relative_to@));
            }
        } else if let Some(i) = find_id(&self.vault_ids, relative_to) {
            self.vault_ids.insert(i + offset, moved);
            proof {
                lemma_insert_id_membership(va0, i + offset, self.vault_ids@[i + offset]);
                assert(id_in(self.vault_ids@, id@)) by {
                    assert(self.vault_ids@[i + offset]@ == id@);
                }
                assert(!id_in(self.public_ids@, relative_to@));
                assert(!id_in(self.private_ids@, relative_to@));
            }
        } else {
            proof {
                assert(false);
            }
        }
        Ok(true)
    }
}


/// A parent chain in the adjacency map leading from `root` down to `k`.
pub open spec fn is_chain(
    m: Map<Seq<char>, Vec<String>>,
    chain: Seq<Seq<char>>,
    root: Seq<char>,
    k: Seq<char>,
) -> bool {
    &&& chain.len() > 0
    &&& chain[0] == root
    &&& chain[chain.len() - 1] == k
    &&& forall|i: int|
        0 <= i < chain.len() - 1 ==> m.contains_key(#[trigger] chain[i]) && id_in(
            m[chain[i]]@,
            chain[i + 1],
        )
}

/// `k` belongs to the subtree rooted at `root` (the root itself included).
pub open spec fn in_subtree(m: Map<Seq<char>, Vec<String>>, root: Seq<char>, k: Seq<char>) -> bool {
    exists|chain: Seq<Seq<char>>| is_chain(m, chain, root, k)
}

pub proof fn lemma_subtree_root(m: Map<Seq<char>, Vec<String>>, root: Seq<char>)
    ensures
        in_subtree(m, root, root),
{
    let chain = seq![root];
    assert(is_chain(m, chain, root, root));
}

/// A subtree member's children are in the subtree too.
pub proof fn lemma_subtree_extend(
    m: Map<Seq<char>, Vec<String>>,
    root: Seq<char>,
    p: Seq<char>,
    k: Seq<char>,
)
    requires
        in_subtree(m, root, p),
        m.contains_key(p),
        id_in(m[p]@, k),
    ensures
        in_subtree(m, root, k),
{
    let chain = choose|chain: Seq<Seq<char>>| is_chain(m, chain, root, p);
    let chain2 = chain.push(k);
    assert(chain2[chain2.len() - 1] == k);
    assert forall|i: int| 0 <= i < chain2.len() - 1 implies m.contains_key(#[trigger] chain2[i])
        && id_in(m[chain2[i]]@, chain2[i + 1]) by {
        if i < chain.len() - 1 {
            assert(chain2[i] == chain[i]);
            assert(chain2[i + 1] == chain[i + 1]);
        } else {
            assert(chain2[i] == chain[chain.len() - 1]);
        }
    }
    assert(is_chain(m, chain2, root, k));
}

/// A subtree member other than the root has a parent inside the subtree.
pub proof fn lemma_subtree_step(m: Map<Seq<char>, Vec<String>>, root: Seq<char>, k: Seq<char>)
    requires
        in_subtree(m, root, k),
        k != root,
    ensures
        exists|p: Seq<char>|
            #[trigger] in_subtree(m, root, p) && m.contains_key(p) && id_in(m[p]@, k),
{
    let chain = choose|chain: Seq<Seq<char>>| is_chain(m, chain, root, k);
    assert(chain.len() >= 2) by {
        if chain.len() == 1 {
            assert(chain[0] == chain[chain.len() - 1]);
        }
    }
    let p = chain[chain.len() - 2];
    let c2 = chain.drop_last();
    assert(is_chain(m, c2, root, p)) by {
        assert(c2[c2.len() - 1] == chain[chain.len() - 2]);
        assert forall|i: int| 0 <= i < c2.len() - 1 implies m.contains_key(#[trigger] c2[i])
            && id_in(m[c2[i]]@, c2[i + 1]) by {
            assert(c2[i] == chain[i]);
            assert(c2[i + 1] == chain[i + 1]);
        }
    }
    assert(m.contains_key(chain[chain.len() - 2]) && id_in(m[chain[chain.len() - 2]]@, k));
    assert(in_subtree(m, root, p));
}

/// A closed id set containing the root covers the whole subtree.
pub proof fn lemma_closed_covers_subtree(
    m: Map<Seq<char>, Vec<String>>,
    root: Seq<char>,
    v: Seq<String>,
)
    requires
        id_in(v, root),
        forall|k: Seq<char>, c: Seq<char>|
            id_in(v, k) && m.contains_key(k) && #[trigger] id_in(m[k]@, c) ==> id_in(v, c),
    ensures
        forall|k: Seq<char>| #[trigger] in_subtree(m, root, k) ==> id_in(v, k),
{
    assert forall|k: Seq<char>| #[trigger] in_subtree(m, root, k) implies id_in(v, k) by {
        let chain = choose|chain: Seq<Seq<char>>| is_chain(m, chain, root, k);
        lemma_chain_covered(m, root, v, chain, k);
    }
}

proof fn lemma_chain_covered(
    m: Map<Seq<char>, Vec<String>>,
    root: Seq<char>,
    v: Seq<String>,
    chain: Seq<Seq<char>>,
    k: Seq<char>,
)
    requires
        id_in(v, root),
        forall|k2: Seq<char>, c: Seq<char>|
            id_in(v, k2) && m.contains_key(k2) && #[trigger] id_in(m[k2]@, c) ==> id_in(v, c),
        is_chain(m, chain, root, k),
    ensures
        id_in(v, k),
    decreases chain.len(),
{
    if chain.len() == 1 {
        assert(k == root);
    } else {
        let p = chain[chain.len() - 2];
        let c2 = chain.drop_last();
        assert(is_chain(m, c2, root, p)) by {
            assert(c2[c2.len() - 1] == chain[chain.len() - 2]);
            assert forall|i: int| 0 <= i < c2.len() - 1 implies m.contains_key(#[trigger] c2[i])
                && id_in(m[c2[i]]@, c2[i + 1]) by {
                assert(c2[i] == chain[i]);
                assert(c2[i + 1] == chain[i + 1]);
            }
        }
        lemma_chain_covered(m, root, v, c2, p);
        assert(m.contains_key(chain[chain.len() - 2]) && id_in(m[chain[chain.len() - 2]]@, k));
    }
}

/// A duplicate-free id list over a finite allowed set is no longer than it.
pub proof fn lemma_unique_views_bound(s: Seq<String>, allowed: Set<Seq<char>>)
    requires
        ids_unique(s),
        allowed.finite(),
        forall|i: int| 0 <= i < s.len() ==> allowed.contains(#[trigger] s[i]@),
    ensures
        s.len() <= allowed.len(),
    decreases s.len(),
{
    if s.len() > 0 {
        let t = s.drop_last();
        let shrunk = allowed.remove(s.last()@);
        assert forall|i: int| 0 <= i < t.len() implies shrunk.contains(#[trigger] t[i]@) by {
            assert(s[i]@ == t[i]@);
            assert(allowed.contains(s[i]@));
            assert(s[i]@ != s[s.len() - 1]@);
        }
        lemma_unique_views_bound(t, shrunk);
        assert(allowed.contains(s.last()@));
        assert(shrunk.len() == allowed.len() - 1);
    }
}

/// The request/group tree: entities keyed by id, an ordered top-level id
/// list, and an adjacency map from group id to its ordered child ids.
pub struct RequestTree {
    pub entities: StringMap<crate::model::RequestEntry>,
    pub top_ids: Vec<String>,
    pub child_ids: StringMap<Vec<String>>,
}

impl RequestTree {
    /// Some group's child list holds `k`.
    pub open spec fn has_parent(self, k: Seq<char>) -> bool {
        exists|p: Seq<char>|
            self.child_ids@.contains_key(p) && #[trigger] id_in(self.child_ids@[p]@, k)
    }

    /// `k` occurs at the top level or under some group.
    pub open spec fn placed(self, k: Seq<char>) -> bool {
        id_in(self.top_ids@, k) || self.has_parent(k)
    }

    /// Structural invariant: orderings are duplicate-free, every referenced
    /// id names an existing entity, adjacency keys are existing groups, an
    /// entity has at most one parent (and none if top-level), and every
    /// entity is placed somewhere.
    pub open spec fn wf(self) -> bool {
        &&& self.entities.wf()
        &&& self.child_ids.wf()
        &&& forall|k: Seq<char>|
            #[trigger] self.entities@.contains_key(k) ==> self.entities@[k].spec_id() == k
        &&& ids_unique(self.top_ids@)
        &&& forall|p: Seq<char>|
            #[trigger] self.child_ids@.contains_key(p) ==> ids_unique(self.child_ids@[p]@)
                && self.entities@.contains_key(p) && self.entities@[p] is Group
        &&& forall|k: Seq<char>|
            #[trigger] id_in(self.top_ids@, k) ==> self.entities@.contains_key(k)
                && !self.has_parent(k)
        &&& forall|p: Seq<char>, k: Seq<char>|
            self.child_ids@.contains_key(p) && #[trigger] id_in(self.child_ids@[p]@, k)
                ==> self.entities@.contains_key(k)
        &&& forall|p1: Seq<char>, p2: Seq<char>, k: Seq<char>|
            self.child_ids@.contains_key(p1) && self.child_ids@.contains_key(p2) && p1 != p2
                ==> !(#[trigger] id_in(self.child_ids@[p1]@, k) && #[trigger] id_in(
                self.child_ids@[p2]@,
                k,
            ))
        &&& forall|k: Seq<char>| #[trigger] self.entities@.contains_key(k) ==> self.placed(k)
    }

    pub fn new() -> (r: RequestTree)
        ensures
            r.wf(),
            r.entities@ == Map::<Seq<char>, crate::model::RequestEntry>::empty(),
            r.top_ids@.len() == 0,
            r.child_ids@ == Map::<Seq<char>, Vec<String>>::empty(),
    {
        RequestTree { entities: StringMap::new(), top_ids: Vec::new(), child_ids: StringMap::new() }
    }

    pub fn get(&self, id: &String) -> (r: Option<&crate::model::RequestEntry>)
        requires
            self.wf(),
        ensures
            match r {
                Some(v) => self.entities@.contains_key(id@) && *v == self.entities@[id@],
                None => !self.entities@.contains_key(id@),
            },
    {
        self.entities.get(id)
    }

    /// Mutable access to a known entity.
    pub fn get_entity_mut(&mut self, id: &String) -> (r: &mut crate::model::RequestEntry)
        requires
            old(self).wf(),
            old(self).entities@.contains_key(id@),
        ensures
            *r == old(self).entities@[id@],
            final(self).entities@ == old(self).entities@.insert(id@, *final(r)),
            final(self).top_ids == old(self).top_ids,
            final(self).child_ids == old(self).child_ids,
            final(self).entities.wf(),
    {
        self.entities.get_mut(id)
    }

    /// The id of the group whose child list holds `k`, if any.
    pub fn parent_of(&self, k: &String) -> (r: Option<String>)
        requires
            self.child_ids.wf(),
        ensures
            match r {
                Some(p) => self.child_ids@.contains_key(p@) && id_in(self.child_ids@[p@]@, k@),
                None => !self.has_parent(k@),
            },
    {
        let n = self.child_ids.num_entries();
        let mut i: usize = 0;
        while i < n
            invariant
                self.child_ids.wf(),
                n == self.child_ids.kvs().len(),
                i <= n,
                forall|j: int|
                    0 <= j < i ==> !id_in((#[trigger] self.child_ids.kvs()[j].1)@, k@),
            decreases n - i,
        {
            let (p, list) = self.child_ids.entry_at(i);
            if find_id(list, k).is_some() {
                proof {
                    self.child_ids.lemma_kvs();
                    let gl = self.child_ids.kvs()[i as int].1;
                    assert(id_in(gl@, k@));
                }
                return Some(p.clone());
            }
            proof {
                if id_in(self.child_ids.kvs()[i as int].1@, k@) {
                    let gl = self.child_ids.kvs()[i as int].1;
                    let j = choose|j: int| 0 <= j < gl@.len() && (#[trigger] gl@[j]@) == k@;
                    assert(false);
                }
            }
            i += 1;
        }
        proof {
            if self.has_parent(k@) {
                let p = choose|p: Seq<char>|
                    self.child_ids@.contains_key(p) && #[trigger] id_in(self.child_ids@[p]@, k@);
                self.child_ids.lemma_kvs();
                let j = choose|j: int|
                    0 <= j < self.child_ids.kvs().len() && (#[trigger] self.child_ids.kvs()[j].0@)
                        == p;
                assert(!id_in(self.child_ids.kvs()[j].1@, k@));
            }
        }
        None
    }
}


/// Well-formedness after appending a fresh entity at the top level.
proof fn lemma_wf_add_top(t0: RequestTree, t1: RequestTree, entity: crate::model::RequestEntry)
    requires
        t0.wf(),
        !t0.entities@.contains_key(entity.spec_id()),
        t1.entities.wf(),
        t1.entities@ == t0.entities@.insert(entity.spec_id(), entity),
        t1.child_ids == t0.child_ids,
        ids_unique(t1.top_ids@),
        forall|k: Seq<char>|
            #[trigger] id_in(t1.top_ids@, k) <==> (id_in(t0.top_ids@, k) || k == entity.spec_id()),
    ensures
        t1.wf(),
        t1.placed(entity.spec_id()),
        forall|k: Seq<char>|
            k != entity.spec_id() ==> ((#[trigger] t1.placed(k)) <==> t0.placed(k)),
{
    let id = entity.spec_id();
    assert forall|k: Seq<char>| #[trigger] id_in(t1.top_ids@, k) implies t1.entities@.contains_key(
        k,
    ) && !t1.has_parent(k) by {
        if k == id {
            if t1.has_parent(k) {
                let p = choose|p: Seq<char>|
                    t1.child_ids@.contains_key(p) && #[trigger] id_in(t1.child_ids@[p]@, k);
                assert(t0.entities@.contains_key(k));
            }
        } else {
            assert(id_in(t0.top_ids@, k));
            if t1.has_parent(k) {
                let p = choose|p: Seq<char>|
                    t1.child_ids@.contains_key(p) && #[trigger] id_in(t1.child_ids@[p]@, k);
                assert(t0.has_parent(k));
            }
        }
    }
    assert forall|k: Seq<char>| #[trigger] t1.entities@.contains_key(k) implies t1.placed(k) by {
        if k == id {
            assert(id_in(t1.top_ids@, k));
        } else {
            assert(t0.entities@.contains_key(k));
            assert(t0.placed(k));
            if id_in(t0.top_ids@, k) {
                assert(id_in(t1.top_ids@, k));
            }
        }
    }
    assert forall|k: Seq<char>| k != id implies ((#[trigger] t1.placed(k)) <==> t0.placed(k)) by {}
}

/// Well-formedness after linking a fresh entity under group `p`.
proof fn lemma_wf_add_child(
    t0: RequestTree,
    t1: RequestTree,
    p: Seq<char>,
    entity: crate::model::RequestEntry,
)
    requires
        t0.wf(),
        !t0.entities@.contains_key(entity.spec_id()),
        t1.entities.wf(),
        t1.child_ids.wf(),
        t1.entities@ == t0.entities@.insert(entity.spec_id(), entity),
        t0.entities@.contains_key(p),
        t0.entities@[p] is Group,
        t1.top_ids == t0.top_ids,
        forall|q: Seq<char>|
            #[trigger] t1.child_ids@.contains_key(q) <==> (t0.child_ids@.contains_key(q) || q
                == p),
        forall|q: Seq<char>|
            q != p && t1.child_ids@.contains_key(q) ==> (#[trigger] t1.child_ids@[q])
                == t0.child_ids@[q],
        ids_unique(t1.child_ids@[p]@),
        forall|k: Seq<char>|
            #[trigger] id_in(t1.child_ids@[p]@, k) <==> ((t0.child_ids@.contains_key(p) && id_in(
                t0.child_ids@[p]@,
                k,
            )) || k == entity.spec_id()),
    ensures
        t1.wf(),
        t1.placed(entity.spec_id()),
        forall|k: Seq<char>|
            k != entity.spec_id() ==> ((#[trigger] t1.placed(k)) <==> t0.placed(k)),
{
    let id = entity.spec_id();
    // membership of any child list, old vs new
    assert forall|q: Seq<char>, k: Seq<char>|
        t1.child_ids@.contains_key(q) && #[trigger] id_in(t1.child_ids@[q]@, k) implies ((
    t0.child_ids@.contains_key(q) && id_in(t0.child_ids@[q]@, k)) || (q == p && k == id)) by {
        if q != p {
        }
    }
    assert forall|q: Seq<char>, k: Seq<char>|
        t0.child_ids@.contains_key(q) && #[trigger] id_in(t0.child_ids@[q]@, k) implies (
    t1.child_ids@.contains_key(q) && id_in(t1.child_ids@[q]@, k)) by {
        if q != p {
            assert(t1.child_ids@[q] == t0.child_ids@[q]);
        }
    }
    // adjacency keys are existing groups with unique lists
    assert forall|q: Seq<char>| #[trigger] t1.child_ids@.contains_key(q) implies ids_unique(
        t1.child_ids@[q]@,
    ) && t1.entities@.contains_key(q) && t1.entities@[q] is Group by {
        if q == p {
            assert(q != id);
        } else {
            assert(t0.child_ids@.contains_key(q));
            assert(t1.child_ids@[q] == t0.child_ids@[q]);
            assert(q != id);
        }
    }
    // top-level ids have no parent
    assert forall|k: Seq<char>| #[trigger] id_in(t1.top_ids@, k) implies t1.entities@.contains_key(
        k,
    ) && !t1.has_parent(k) by {
        assert(id_in(t0.top_ids@, k));
        assert(k != id);
        if t1.has_parent(k) {
            let q = choose|q: Seq<char>|
                t1.child_ids@.contains_key(q) && #[trigger] id_in(t1.child_ids@[q]@, k);
            assert(t0.child_ids@.contains_key(q) && id_in(t0.child_ids@[q]@, k));
            assert(t0.has_parent(k));
        }
    }
    // referenced ids exist
    assert forall|q: Seq<char>, k: Seq<char>|
        t1.child_ids@.contains_key(q) && #[trigger] id_in(t1.child_ids@[q]@, k) implies
        t1.entities@.contains_key(k) by {}
    // at most one parent
    assert forall|p1: Seq<char>, p2: Seq<char>, k: Seq<char>|
        t1.child_ids@.contains_key(p1) && t1.child_ids@.contains_key(p2) && p1 != p2 implies !((
    #[trigger] id_in(t1.child_ids@[p1]@, k)) && (#[trigger] id_in(t1.child_ids@[p2]@, k))) by {
        if id_in(t1.child_ids@[p1]@, k) && id_in(t1.child_ids@[p2]@, k) {
            if k == id {
                if p1 != p {
                    assert(t0.child_ids@.contains_key(p1) && id_in(t0.child_ids@[p1]@, k));
                    assert(t0.entities@.contains_key(k));
                }
                if p2 != p {
                    assert(t0.child_ids@.contains_key(p2) && id_in(t0.child_ids@[p2]@, k));
                    assert(t0.entities@.contains_key(k));
                }
            } else {
                assert(t0.child_ids@.contains_key(p1) && id_in(t0.child_ids@[p1]@, k));
                assert(t0.child_ids@.contains_key(p2) && id_in(t0.child_ids@[p2]@, k));
            }
        }
    }
    // placement old vs new for other ids
    assert forall|k: Seq<char>| k != id implies ((#[trigger] t1.placed(k)) <==> t0.placed(k)) by {
        if t1.placed(k) {
            if t1.has_parent(k) {
                let q = choose|q: Seq<char>|
                    t1.child_ids@.contains_key(q) && #[trigger] id_in(t1.child_ids@[q]@, k);
                assert(t0.child_ids@.contains_key(q) && id_in(t0.child_ids@[q]@, k));
                assert(t0.has_parent(k));
            }
        }
        if t0.placed(k) {
            if t0.has_parent(k) {
                let q = choose|q: Seq<char>|
                    t0.child_ids@.contains_key(q) && #[trigger] id_in(t0.child_ids@[q]@, k);
                assert(t1.child_ids@.contains_key(q) && id_in(t1.child_ids@[q]@, k));
                assert(t1.has_parent(k));
            }
        }
    }
    // every entity is placed
    assert(id_in(t1.child_ids@[p]@, id));
    assert(t1.has_parent(id));
    assert forall|k: Seq<char>| #[trigger] t1.entities@.contains_key(k) implies t1.placed(k) by {
        if k != id {
            assert(t0.entities@.contains_key(k));
            assert(t0.placed(k));
        }
    }
}


impl RequestTree {
    /// Adds a fresh entity: at the top level, under a group, or beside an
    /// existing entry.  Fails without change when the id is already present,
    /// `relative_to` is unknown, or an `Under` target is not a group.
    pub fn add_entity(
        &mut self,
        entity: crate::model::RequestEntry,
        relative_to: Option<&String>,
        position: Option<EntityPosition>,
    ) -> (r: Result<(), ()>)
        requires
            old(self).wf(),
        ensures
            final(self).wf(),
            match r {
                Ok(()) => {
                    &&& !old(self).entities@.contains_key(entity.spec_id())
                    &&& final(self).entities@ == old(self).entities@.insert(
                        entity.spec_id(),
                        entity,
                    )
                    &&& final(self).placed(entity.spec_id())
                    &&& (relative_to is None ==> id_in(final(self).top_ids@, entity.spec_id()))
                    &&& forall|k: Seq<char>|
                        k != entity.spec_id() ==> ((#[trigger] final(self).placed(k)) <==> old(
                            self,
                        ).placed(k))
                },
                Err(()) => {
                    &&& *final(self) == *old(self)
                    &&& (old(self).entities@.contains_key(entity.spec_id()) || (match relative_to {
                        Some(rel) => !old(self).entities@.contains_key(rel@) || ((match position {
                            Some(EntityPosition::Before) => false,
                            Some(EntityPosition::After) => false,
                            _ => true,
                        }) && !(old(self).entities@[rel@] is Group)),
                        None => false,
                    }))
                },
            },
    {
        let ghost t0 = *self;
        let ghost ge = entity;
        let id = entity.ident().clone();
        if self.entities.contains_key(&id) {
            return Err(());
        }
        match relative_to {
            None => {
                let ghost tops0 = self.top_ids@;
                proof {
                    if id_in(tops0, id@) {
                        assert(t0.entities@.contains_key(id@));
                    }
                }
                self.top_ids.push(id);
                proof {
                    lemma_push_id_membership(tops0, self.top_ids@.last());
                }
                self.entities.insert(entity.ident().clone(), entity);
                proof {
                    lemma_wf_add_top(t0, *self, ge);
                }
                Ok(())
            },
            Some(rel) => {
                if !self.entities.contains_key(rel) {
                    return Err(());
                }
                let under = match position {
                    Some(EntityPosition::Before) => false,
                    Some(EntityPosition::After) => false,
                    _ => true,
                };
                if under {
                    if !self.entities.get(rel).unwrap().is_group() {
                        return Err(());
                    }
                    if self.child_ids.contains_key(rel) {
                        let list = self.child_ids.get_mut(rel);
                        let ghost l0 = list@;
                        proof {
                            if id_in(l0, id@) {
                                assert(t0.entities@.contains_key(id@));
                            }
                        }
                        list.push(id);
                        proof {
                            lemma_push_id_membership(l0, list@.last());
                        }
                    } else {
                        let mut l: Vec<String> = Vec::new();
                        l.push(id);
                        proof {
                            assert(l@.len() == 1);
                            assert forall|k: Seq<char>| #[trigger] id_in(l@, k) implies k
                                == ge.spec_id() by {
                                let j = choose|j: int| 0 <= j < l@.len() && (#[trigger] l@[j]@)
                                    == k;
                            }
                            assert(id_in(l@, ge.spec_id())) by {
                                assert(l@[0]@ == ge.spec_id());
                            }
                        }
                        self.child_ids.insert(rel.clone(), l);
                    }
                    self.entities.insert(entity.ident().clone(), entity);
                    proof {
                        assert forall|q: Seq<char>|
                            #[trigger] self.child_ids@.contains_key(q) <==> (
                        t0.child_ids@.contains_key(q) || q == rel@) by {}
                        lemma_wf_add_child(t0, *self, rel@, ge);
                    }
                    Ok(())
                } else {
                    let offset: usize = match position {
                        Some(EntityPosition::Before) => 0,
                        _ => 1,
                    };
                    if let Some(i) = find_id(&self.top_ids, rel) {
                        let ghost tops0 = self.top_ids@;
                        proof {
                            if id_in(tops0, id@) {
                                assert(t0.entities@.contains_key(id@));
                            }
                        }
                        self.top_ids.insert(i + offset, id);
                        proof {
                            lemma_insert_id_membership(
                                tops0,
                                i + offset,
                                self.top_ids@[i + offset],
                            );
                        }
                        self.entities.insert(entity.ident().clone(), entity);
                        proof {
                            lemma_wf_add_top(t0, *self, ge);
                        }
                        Ok(())
                    } else {
                        proof {
                            assert(t0.placed(rel@));
                        }
                        let p = self.parent_of(rel).unwrap();
                        let list = self.child_ids.get_mut(&p);
                        let ghost l0 = list@;
                        let i = find_id(list, rel).unwrap();
                        proof {
                            if id_in(l0, id@) {
                                assert(t0.entities@.contains_key(id@));
                            }
                        }
                        list.insert(i + offset, id);
                        proof {
                            lemma_insert_id_membership(l0, i + offset, list@[i + offset]);
                        }
                        self.entities.insert(entity.ident().clone(), entity);
                        proof {
                            assert forall|q: Seq<char>|
                                #[trigger] self.child_ids@.contains_key(q) <==> (
                            t0.child_ids@.contains_key(q) || q == p@) by {}
                            lemma_wf_add_child(t0, *self, p@, ge);
                        }
                        Ok(())
                    }
                }
            },
        }
    }
}


impl RequestTree {
    /// All ids reachable from `root` through the adjacency map, the root
    /// included, each exactly once.
    pub fn collect_subtree(&self, root: &String) -> (r: Vec<String>)
        requires
            self.wf(),
        ensures
            ids_unique(r@),
            forall|k: Seq<char>| #[trigger] id_in(r@, k) <==> in_subtree(self.child_ids@, root@, k),
    {
        let ghost m = self.child_ids@;
        let ghost allowed = self.entities@.dom().insert(root@);
        let n = self.entities.num_entries();
        proof {
            self.entities.lemma_kvs();
            lemma_subtree_root(m, root@);
        }
        let mut result: Vec<String> = Vec::new();
        let mut stack: Vec<String> = Vec::new();
        stack.push(root.clone());
        proof {
            assert forall|k: Seq<char>| #[trigger] id_in(stack@, k) implies in_subtree(
                m,
                root@,
                k,
            ) by {
                let j = choose|j: int| 0 <= j < stack@.len() && (#[trigger] stack@[j]@) == k;
                assert(k == root@);
            }
            assert(id_in(stack@, root@)) by {
                assert(stack@[0]@ == root@);
            }
        }
        while !stack.is_empty()
            invariant
                self.wf(),
                m == self.child_ids@,
                allowed == self.entities@.dom().insert(root@),
                allowed.finite(),
                allowed.len() <= n + 1,
                ids_unique(result@),
                result@.len() <= n + 1,
                forall|i: int| 0 <= i < result@.len() ==> allowed.contains(#[trigger] result@[i]@),
                forall|i: int| 0 <= i < stack@.len() ==> allowed.contains(#[trigger] stack@[i]@),
                forall|k: Seq<char>| #[trigger] id_in(result@, k) ==> in_subtree(m, root@, k),
                forall|k: Seq<char>| #[trigger] id_in(stack@, k) ==> in_subtree(m, root@, k),
                id_in(result@, root@) || id_in(stack@, root@),
                forall|k: Seq<char>, c: Seq<char>|
                    id_in(result@, k) && m.contains_key(k) && #[trigger] id_in(m[k]@, c)
                        ==> id_in(result@, c) || id_in(stack@, c),
            decreases n + 1 - result@.len(), stack@.len(),
        {
            let ghost pre = stack@;
            let x = stack.pop().unwrap();
            proof {
                assert(x@ == pre[pre.len() - 1]@);
                assert(id_in(pre, x@)) by {
                    assert(pre[pre.len() - 1]@ == x@);
                }
                assert forall|k: Seq<char>| #[trigger] id_in(stack@, k) implies id_in(pre, k) by {
                    let j = choose|j: int| 0 <= j < stack@.len() && (#[trigger] stack@[j]@) == k;
                    assert(pre[j]@ == k);
                }
            }
            if find_id(&result, &x).is_some() {
                proof {
                    assert(id_in(result@, x@)) by {
                        let j = choose|j: int|
                            0 <= j < result@.len() && (#[trigger] result@[j]@) == x@;
                    }
                    assert forall|k: Seq<char>, c: Seq<char>|
                        id_in(result@, k) && m.contains_key(k) && #[trigger] id_in(m[k]@, c)
                            implies id_in(result@, c) || id_in(stack@, c) by {
                        if !id_in(stack@, c) && !id_in(result@, c) {
                            let j = choose|j: int|
                                0 <= j < pre.len() && (#[trigger] pre[j]@) == c;
                            if j < pre.len() - 1 {
                                assert(stack@[j]@ == c);
                            } else {
                                assert(c == x@);
                            }
                        }
                    }
                    if !id_in(result@, root@) {
                        let j = choose|j: int| 0 <= j < pre.len() && (#[trigger] pre[j]@) == root@;
                        if j < pre.len() - 1 {
                            assert(stack@[j]@ == root@);
                        } else {
                            assert(root@ == x@);
                        }
                    }
                }
            } else {
                let ghost res0 = result@;
                result.push(x.clone());
                proof {
                    lemma_push_id_membership(res0, result@.last());
                    assert(allowed.contains(x@)) by {
                        assert(id_in(pre, x@));
                    }
                    assert forall|i: int| 0 <= i < result@.len() implies allowed.contains(
                        #[trigger] result@[i]@,
                    ) by {
                        if i < res0.len() {
                            assert(res0[i]@ == result@[i]@);
                        }
                    }
                    lemma_unique_views_bound(result@, allowed);
                }
                let ghost stack1 = stack@;
                if let Some(list) = self.child_ids.get(&x) {
                    let cn = list.len();
                    let mut j: usize = 0;
                    while j < cn
                        invariant
                            self.wf(),
                            m == self.child_ids@,
                            allowed == self.entities@.dom().insert(root@),
                            m.contains_key(x@),
                            list@ == m[x@]@,
                            cn == list@.len(),
                            j <= cn,
                            in_subtree(m, root@, x@),
                            forall|i: int|
                                0 <= i < stack@.len() ==> allowed.contains(#[trigger] stack@[i]@),
                            forall|k: Seq<char>|
                                #[trigger] id_in(stack@, k) ==> in_subtree(m, root@, k),
                            forall|k: Seq<char>|
                                #[trigger] id_in(stack1, k) ==> id_in(stack@, k),
                            forall|i: int|
                                0 <= i < j ==> id_in(stack@, (#[trigger] list@[i])@),
                        decreases cn - j,
                    {
                        let ghost sp = stack@;
                        let c = list[j].clone();
                        proof {
                            assert(id_in(m[x@]@, c@)) by {
                                assert(m[x@]@[j as int]@ == c@);
                            }
                            lemma_subtree_extend(m, root@, x@, c@);
                        }
                        stack.push(c);
                        proof {
                            assert forall|k: Seq<char>| #[trigger] id_in(stack@, k) implies (id_in(
                                sp,
                                k,
                            ) || k == list@[j as int]@) by {
                                let i = choose|i: int|
                                    0 <= i < stack@.len() && (#[trigger] stack@[i]@) == k;
                                if i < sp.len() {
                                    assert(sp[i]@ == k);
                                }
                            }
                            assert forall|k: Seq<char>| id_in(sp, k) implies #[trigger] id_in(
                                stack@,
                                k,
                            ) by {
                                let i = choose|i: int|
                                    0 <= i < sp.len() && (#[trigger] sp[i]@) == k;
                                assert(stack@[i]@ == k);
                            }
                            assert(id_in(stack@, list@[j as int]@)) by {
                                assert(stack@[stack@.len() - 1]@ == list@[j as int]@);
                            }
                        }
                        j += 1;
                    }
                }
                proof {
                    // closure: pairs through the new member are covered by the
                    // pushed children; pairs through old members kept their
                    // witnesses, which only moved from the popped stack.
                    assert forall|k: Seq<char>| id_in(stack1, k) implies #[trigger] id_in(
                        stack@,
                        k,
                    ) by {}
                    assert forall|k: Seq<char>, c: Seq<char>|
                        id_in(result@, k) && m.contains_key(k) && #[trigger] id_in(m[k]@, c)
                            implies id_in(result@, c) || id_in(stack@, c) by {
                        if k == x@ {
                            let j = choose|j: int|
                                0 <= j < m[k]@.len() && (#[trigger] m[k]@[j]@) == c;
                            assert(id_in(stack@, m[x@]@[j]@));
                        } else {
                            assert(id_in(res0, k)) by {
                                let j = choose|j: int|
                                    0 <= j < result@.len() && (#[trigger] result@[j]@) == k;
                                if j < res0.len() {
                                    assert(res0[j]@ == k);
                                } else {
                                    assert(k == x@);
                                }
                            }
                            if !id_in(result@, c) && !id_in(stack1, c) {
                                let j = choose|j: int|
                                    0 <= j < pre.len() && (#[trigger] pre[j]@) == c;
                                if j < pre.len() - 1 {
                                    assert(stack1[j]@ == c);
                                } else {
                                    assert(c == x@);
                                    assert(id_in(result@, x@)) by {
                                        assert(result@[result@.len() - 1]@ == x@);
                                    }
                                }
                            }
                        }
                    }
                    if !id_in(result@, root@) {
                        let j = choose|j: int| 0 <= j < pre.len() && (#[trigger] pre[j]@) == root@;
                        if j < pre.len() - 1 {
                            assert(stack1[j]@ == root@);
                        } else {
                            assert(root@ == x@);
                            assert(id_in(result@, x@)) by {
                                assert(result@[result@.len() - 1]@ == x@);
                            }
                        }
                    }
                }
            }
        }
        proof {
            assert(stack@.len() == 0);
            assert forall|k: Seq<char>, c: Seq<char>|
                id_in(result@, k) && m.contains_key(k) && #[trigger] id_in(m[k]@, c) implies id_in(
                result@,
                c,
            ) by {
                if id_in(stack@, c) {
                    let j = choose|j: int| 0 <= j < stack@.len() && (#[trigger] stack@[j]@) == c;
                }
            }
            lemma_closed_covers_subtree(m, root@, result@);
        }
        result
    }
}


impl RequestTree {
    /// Removes the entity and its whole subtree, unlinking it from its
    /// parent or the top level.  Returns whether the id was present.
    pub fn remove_entity(&mut self, id: &String) -> (r: bool)
        requires
            old(self).wf(),
        ensures
            final(self).wf(),
            r == old(self).entities@.contains_key(id@),
            !r ==> *final(self) == *old(self),
            r ==> forall|k: Seq<char>|
                #[trigger] final(self).entities@.contains_key(k) <==> (
                old(self).entities@.contains_key(k) && !in_subtree(old(self).child_ids@, id@, k)),
            r ==> forall|k: Seq<char>|
                #[trigger] final(self).entities@.contains_key(k) ==> final(self).entities@[k]
                    == old(self).entities@[k],
            r ==> forall|p: Seq<char>|
                #[trigger] final(self).child_ids@.contains_key(p) <==> (
                old(self).child_ids@.contains_key(p) && !in_subtree(old(self).child_ids@, id@, p)),
            r ==> forall|p: Seq<char>, k: Seq<char>|
                final(self).child_ids@.contains_key(p) ==> ((#[trigger] id_in(
                    final(self).child_ids@[p]@,
                    k,
                )) <==> (id_in(old(self).child_ids@[p]@, k) && k != id@)),
            r ==> forall|k: Seq<char>|
                (#[trigger] id_in(final(self).top_ids@, k)) <==> (id_in(old(self).top_ids@, k)
                    && k != id@),
    {
        if !self.entities.contains_key(id) {
            return false;
        }
        let ghost t0 = *self;
        let ghost m0 = self.child_ids@;
        let doomed = self.collect_subtree(id);
        proof {
            lemma_subtree_root(m0, id@);
        }
        let p_opt = self.parent_of(id);
        let was_top = remove_id(&mut self.top_ids, id);
        if let Some(p) = &p_opt {
            let list = self.child_ids.get_mut(p);
            let ghost l0 = list@;
            remove_id(list, id);
        }
        proof {
            match p_opt {
                Some(pp) => {
                    assert(self.child_ids@.contains_key(pp@));
                    assert(ids_unique(self.child_ids@[pp@]@));
                },
                None => {},
            }
        }
        proof {
            // id was placed in exactly one spot; every other list never held it
            assert(t0.placed(id@));
            assert forall|p2: Seq<char>|
                self.child_ids@.contains_key(p2) && (match p_opt {
                    Some(p) => p2 != p@,
                    None => true,
                }) implies !id_in((#[trigger] self.child_ids@[p2]@), id@) by {
                if id_in(self.child_ids@[p2]@, id@) {
                    match p_opt {
                        Some(p) => {
                            assert(id_in(m0[p@]@, id@));
                        },
                        None => {
                            assert(t0.has_parent(id@));
                            assert(was_top);
                        },
                    }
                }
            }
        }
        let ghost e1 = self.entities@;
        let ghost m1 = self.child_ids@;
        let ghost tops1 = self.top_ids@;
        let nd = doomed.len();
        let mut i: usize = 0;
        while i < nd
            invariant
                nd == doomed@.len(),
                i <= nd,
                self.entities.wf(),
                self.child_ids.wf(),
                self.top_ids@ == tops1,
                ids_unique(doomed@),
                forall|k: Seq<char>|
                    #[trigger] id_in(doomed@, k) <==> in_subtree(m0, id@, k),
                forall|k: Seq<char>|
                    #[trigger] self.entities@.contains_key(k) <==> (e1.contains_key(k) && !id_in(
                        doomed@.take(i as int),
                        k,
                    )),
                forall|k: Seq<char>|
                    #[trigger] self.entities@.contains_key(k) ==> self.entities@[k]
                        == e1[k],
                forall|p: Seq<char>|
                    #[trigger] self.child_ids@.contains_key(p) <==> (m1.contains_key(p) && !id_in(
                        doomed@.take(i as int),
                        p,
                    )),
                forall|p: Seq<char>|
                    #[trigger] self.child_ids@.contains_key(p) ==> self.child_ids@[p]
                        == m1[p],
            decreases nd - i,
        {
            let ghost takei = doomed@.take(i as int);
            let d = &doomed[i];
            self.entities.remove(d);
            self.child_ids.remove(d);
            proof {
                assert(doomed@.take(i + 1) =~= takei.push(doomed@[i as int]));
                lemma_push_id_membership(takei, doomed@[i as int]);
            }
            i += 1;
        }
        proof {
            assert(doomed@.take(nd as int) =~= doomed@);
            let t1 = *self;
            // membership afterwards, in terms of the tree on entry
            assert forall|k: Seq<char>| #[trigger] t1.entities@.contains_key(k) <==> (
            t0.entities@.contains_key(k) && !in_subtree(m0, id@, k)) by {}
            assert forall|p: Seq<char>| #[trigger] t1.child_ids@.contains_key(p) <==> (
            m0.contains_key(p) && !in_subtree(m0, id@, p)) by {}
            assert forall|p: Seq<char>, k: Seq<char>|
                t1.child_ids@.contains_key(p) implies ((#[trigger] id_in(t1.child_ids@[p]@, k))
                <==> (id_in(m0[p]@, k) && k != id@)) by {
                match p_opt {
                    Some(pp) => {
                        if p == pp@ {
                            assert(t1.child_ids@[p] == m1[p]);
                        } else {
                            assert(t1.child_ids@[p] == m0[p]);
                            if id_in(m0[p]@, id@) {
                                assert(false);
                            }
                        }
                    },
                    None => {
                        assert(t1.child_ids@[p] == m0[p]);
                        if id_in(m0[p]@, id@) {
                            assert(t0.has_parent(id@));
                        }
                    },
                }
            }
            // well-formedness of the result
            assert forall|k: Seq<char>| #[trigger] t1.entities@.contains_key(k) implies
                t1.entities@[k].spec_id() == k by {}
            assert forall|p: Seq<char>| #[trigger] t1.child_ids@.contains_key(p) implies
                ids_unique(t1.child_ids@[p]@) && t1.entities@.contains_key(p) && t1.entities@[p]
                is Group by {
                assert(m0.contains_key(p) && !in_subtree(m0, id@, p));
                assert(t0.entities@.contains_key(p) && t0.entities@[p] is Group);
                assert(t1.entities@.contains_key(p) <==> (t0.entities@.contains_key(p)
                    && !in_subtree(m0, id@, p)));
                match p_opt {
                    Some(pp) => {
                        if p == pp@ {
                            assert(t1.child_ids@[p] == m1[p]);
                            assert(ids_unique(m1[pp@]@));
                        } else {
                            assert(t1.child_ids@[p] == m0[p]);
                            assert(ids_unique(m0[p]@));
                        }
                    },
                    None => {
                        assert(t1.child_ids@[p] == m0[p]);
                        assert(ids_unique(m0[p]@));
                    },
                }
            }
            assert forall|k: Seq<char>| #[trigger] id_in(t1.top_ids@, k) implies
                t1.entities@.contains_key(k) && !t1.has_parent(k) by {
                assert(id_in(t0.top_ids@, k) && k != id@);
                assert(!t0.has_parent(k));
                if in_subtree(m0, id@, k) {
                    lemma_subtree_step(m0, id@, k);
                }
                if t1.has_parent(k) {
                    let q = choose|q: Seq<char>|
                        t1.child_ids@.contains_key(q) && #[trigger] id_in(t1.child_ids@[q]@, k);
                    assert(id_in(m0[q]@, k));
                    assert(t0.has_parent(k));
                }
            }
            assert forall|p: Seq<char>, k: Seq<char>|
                t1.child_ids@.contains_key(p) && #[trigger] id_in(t1.child_ids@[p]@, k) implies
                t1.entities@.contains_key(k) by {
                assert(id_in(m0[p]@, k) && k != id@);
                assert(t0.entities@.contains_key(k));
                if in_subtree(m0, id@, k) {
                    lemma_subtree_step(m0, id@, k);
                    let q = choose|q: Seq<char>|
                        #[trigger] in_subtree(m0, id@, q) && m0.contains_key(q) && id_in(
                            m0[q]@,
                            k,
                        );
                    assert(q == p);
                    assert(!t1.child_ids@.contains_key(p));
                }
            }
            assert forall|p1: Seq<char>, p2: Seq<char>, k: Seq<char>|
                t1.child_ids@.contains_key(p1) && t1.child_ids@.contains_key(p2) && p1 != p2
                implies !((#[trigger] id_in(t1.child_ids@[p1]@, k)) && (#[trigger] id_in(
                t1.child_ids@[p2]@,
                k,
            ))) by {
                if id_in(t1.child_ids@[p1]@, k) && id_in(t1.child_ids@[p2]@, k) {
                    assert(id_in(m0[p1]@, k));
                    assert(id_in(m0[p2]@, k));
                }
            }
            assert forall|k: Seq<char>| #[trigger] t1.entities@.contains_key(k) implies t1.placed(
                k,
            ) by {
                assert(t0.entities@.contains_key(k) && !in_subtree(m0, id@, k));
                assert(t0.placed(k));
                if id_in(t0.top_ids@, k) {
                    assert(id_in(t1.top_ids@, k));
                } else {
                    let q = choose|q: Seq<char>|
                        t0.child_ids@.contains_key(q) && #[trigger] id_in(t0.child_ids@[q]@, k);
                    if in_subtree(m0, id@, q) {
                        lemma_subtree_extend(m0, id@, q, k);
                    }
                    assert(t1.child_ids@.contains_key(q));
                    assert(id_in(t1.child_ids@[q]@, k));
                    assert(t1.has_parent(k));
                }
            }
        }
        true
    }
}


impl RequestTree {
    /// Everything of `wf` except that `x`, though present, hangs nowhere.
    pub open spec fn wf_unlinked(self, x: Seq<char>) -> bool {
        &&& self.entities.wf()
        &&& self.child_ids.wf()
        &&& forall|k: Seq<char>|
            #[trigger] self.entities@.contains_key(k) ==> self.entities@[k].spec_id() == k
        &&& ids_unique(self.top_ids@)
        &&& forall|p: Seq<char>|
            #[trigger] self.child_ids@.contains_key(p) ==> ids_unique(self.child_ids@[p]@)
                && self.entities@.contains_key(p) && self.entities@[p] is Group
        &&& forall|k: Seq<char>|
            #[trigger] id_in(self.top_ids@, k) ==> self.entities@.contains_key(k)
                && !self.has_parent(k)
        &&& forall|p: Seq<char>, k: Seq<char>|
            self.child_ids@.contains_key(p) && #[trigger] id_in(self.child_ids@[p]@, k)
                ==> self.entities@.contains_key(k)
        &&& forall|p1: Seq<char>, p2: Seq<char>, k: Seq<char>|
            self.child_ids@.contains_key(p1) && self.child_ids@.contains_key(p2) && p1 != p2
                ==> !(#[trigger] id_in(self.child_ids@[p1]@, k) && #[trigger] id_in(
                self.child_ids@[p2]@,
                k,
            ))
        &&& forall|k: Seq<char>|
            #[trigger] self.entities@.contains_key(k) ==> (k == x || self.placed(k))
        &&& !self.placed(x)
        &&& self.entities@.contains_key(x)
    }
}

/// Well-formedness after relinking the unplaced `x` at the top level.
proof fn lemma_wf_link_top(t0: RequestTree, t1: RequestTree, x: Seq<char>)
    requires
        t0.wf_unlinked(x),
        t1.entities == t0.entities,
        t1.child_ids == t0.child_ids,
        ids_unique(t1.top_ids@),
        forall|k: Seq<char>|
            #[trigger] id_in(t1.top_ids@, k) <==> (id_in(t0.top_ids@, k) || k == x),
    ensures
        t1.wf(),
        t1.placed(x),
        forall|k: Seq<char>| k != x ==> ((#[trigger] t1.placed(k)) <==> t0.placed(k)),
{
    assert forall|k: Seq<char>| #[trigger] id_in(t1.top_ids@, k) implies t1.entities@.contains_key(
        k,
    ) && !t1.has_parent(k) by {
        if k == x {
            if t1.has_parent(k) {
                let p = choose|p: Seq<char>|
                    t1.child_ids@.contains_key(p) && #[trigger] id_in(t1.child_ids@[p]@, k);
                assert(t0.placed(x));
            }
        } else {
            if t1.has_parent(k) {
                let p = choose|p: Seq<char>|
                    t1.child_ids@.contains_key(p) && #[trigger] id_in(t1.child_ids@[p]@, k);
                assert(t0.has_parent(k));
            }
        }
    }
    assert(id_in(t1.top_ids@, x));
    assert forall|k: Seq<char>| #[trigger] t1.entities@.contains_key(k) implies t1.placed(k) by {
        if k != x {
            assert(t0.placed(k));
            if id_in(t0.top_ids@, k) {
                assert(id_in(t1.top_ids@, k));
            }
        }
    }
    assert forall|k: Seq<char>| k != x implies ((#[trigger] t1.placed(k)) <==> t0.placed(k)) by {}
}

/// Well-formedness after relinking the unplaced `x` under group `p`.
proof fn lemma_wf_link_child(t0: RequestTree, t1: RequestTree, p: Seq<char>, x: Seq<char>)
    requires
        t0.wf_unlinked(x),
        t0.entities@.contains_key(p),
        t0.entities@[p] is Group,
        t1.entities == t0.entities,
        t1.top_ids == t0.top_ids,
        t1.child_ids.wf(),
        forall|q: Seq<char>|
            #[trigger] t1.child_ids@.contains_key(q) <==> (t0.child_ids@.contains_key(q) || q
                == p),
        forall|q: Seq<char>|
            q != p && t1.child_ids@.contains_key(q) ==> (#[trigger] t1.child_ids@[q])
                == t0.child_ids@[q],
        ids_unique(t1.child_ids@[p]@),
        forall|k: Seq<char>|
            #[trigger] id_in(t1.child_ids@[p]@, k) <==> ((t0.child_ids@.contains_key(p) && id_in(
                t0.child_ids@[p]@,
                k,
            )) || k == x),
    ensures
        t1.wf(),
        t1.placed(x),
        t1.child_ids@.contains_key(p) && id_in(t1.child_ids@[p]@, x),
        forall|k: Seq<char>| k != x ==> ((#[trigger] t1.placed(k)) <==> t0.placed(k)),
{
    assert forall|q: Seq<char>, k: Seq<char>|
        t1.child_ids@.contains_key(q) && #[trigger] id_in(t1.child_ids@[q]@, k) implies ((
    t0.child_ids@.contains_key(q) && id_in(t0.child_ids@[q]@, k)) || (q == p && k == x)) by {
        if q != p {
        }
    }
    assert forall|q: Seq<char>, k: Seq<char>|
        t0.child_ids@.contains_key(q) && #[trigger] id_in(t0.child_ids@[q]@, k) implies (
    t1.child_ids@.contains_key(q) && id_in(t1.child_ids@[q]@, k)) by {
        if q != p {
            assert(t1.child_ids@[q] == t0.child_ids@[q]);
        }
    }
    assert forall|q: Seq<char>| #[trigger] t1.child_ids@.contains_key(q) implies ids_unique(
        t1.child_ids@[q]@,
    ) && t1.entities@.contains_key(q) && t1.entities@[q] is Group by {
        if q != p {
            assert(t0.child_ids@.contains_key(q));
            assert(t1.child_ids@[q] == t0.child_ids@[q]);
        }
    }
    assert forall|k: Seq<char>| #[trigger] id_in(t1.top_ids@, k) implies t1.entities@.contains_key(
        k,
    ) && !t1.has_parent(k) by {
        assert(id_in(t0.top_ids@, k));
        assert(k != x) by {
            if k == x {
                assert(t0.placed(x));
            }
        }
        if t1.has_parent(k) {
            let q = choose|q: Seq<char>|
                t1.child_ids@.contains_key(q) && #[trigger] id_in(t1.child_ids@[q]@, k);
            assert(t0.child_ids@.contains_key(q) && id_in(t0.child_ids@[q]@, k));
            assert(t0.has_parent(k));
        }
    }
    assert forall|q: Seq<char>, k: Seq<char>|
        t1.child_ids@.contains_key(q) && #[trigger] id_in(t1.child_ids@[q]@, k) implies
        t1.entities@.contains_key(k) by {}
    assert forall|p1: Seq<char>, p2: Seq<char>, k: Seq<char>|
        t1.child_ids@.contains_key(p1) && t1.child_ids@.contains_key(p2) && p1 != p2 implies !((
    #[trigger] id_in(t1.child_ids@[p1]@, k)) && (#[trigger] id_in(t1.child_ids@[p2]@, k))) by {
        if id_in(t1.child_ids@[p1]@, k) && id_in(t1.child_ids@[p2]@, k) {
            if k == x {
                if p1 != p {
                    assert(t0.child_ids@.contains_key(p1) && id_in(t0.child_ids@[p1]@, k));
                    assert(t0.placed(x));
                }
                if p2 != p {
                    assert(t0.child_ids@.contains_key(p2) && id_in(t0.child_ids@[p2]@, k));
                    assert(t0.placed(x));
                }
            } else {
                assert(t0.child_ids@.contains_key(p1) && id_in(t0.child_ids@[p1]@, k));
                assert(t0.child_ids@.contains_key(p2) && id_in(t0.child_ids@[p2]@, k));
            }
        }
    }
    assert forall|k: Seq<char>| k != x implies ((#[trigger] t1.placed(k)) <==> t0.placed(k)) by {
        if t1.placed(k) {
            if t1.has_parent(k) {
                let q = choose|q: Seq<char>|
                    t1.child_ids@.contains_key(q) && #[trigger] id_in(t1.child_ids@[q]@, k);
                assert(t0.child_ids@.contains_key(q) && id_in(t0.child_ids@[q]@, k));
                assert(t0.has_parent(k));
            }
        }
        if t0.placed(k) {
            if t0.has_parent(k) {
                let q = choose|q: Seq<char>|
                    t0.child_ids@.contains_key(q) && #[trigger] id_in(t0.child_ids@[q]@, k);
                assert(t1.child_ids@.contains_key(q) && id_in(t1.child_ids@[q]@, k));
                assert(t1.has_parent(k));
            }
        }
    }
    assert(id_in(t1.child_ids@[p]@, x));
    assert(t1.has_parent(x)) by {
        assert(t1.child_ids@.contains_key(p) && id_in(t1.child_ids@[p]@, x));
    }
    assert forall|k: Seq<char>| #[trigger] t1.entities@.contains_key(k) implies t1.placed(k) by {
        if k != x {
            assert(t0.entities@.contains_key(k));
            assert(t0.placed(k));
        }
    }
}


impl RequestTree {
    /// Moves `id` under `relative_to` or beside it.  `Ok(true)` when a move
    /// happened, `Ok(false)` when source and target are the same id; fails
    /// without change for unknown ids or an `Under` target that is no group.
    pub fn move_entity(
        &mut self,
        id: &String,
        relative_to: &String,
        position: EntityPosition,
    ) -> (r: Result<bool, ()>)
        requires
            old(self).wf(),
        ensures
            final(self).wf(),
            final(self).entities@ == old(self).entities@,
            match r {
                Ok(moved) => {
                    &&& old(self).entities@.contains_key(id@)
                    &&& old(self).entities@.contains_key(relative_to@)
                    &&& (moved <==> id@ != relative_to@)
                    &&& forall|k: Seq<char>|
                        (#[trigger] final(self).placed(k)) <==> old(self).placed(k)
                    &&& (moved && position is Under ==> final(self).child_ids@.contains_key(
                        relative_to@,
                    ) && id_in(final(self).child_ids@[relative_to@]@, id@))
                },
                Err(()) => {
                    &&& *final(self) == *old(self)
                    &&& (!old(self).entities@.contains_key(id@)
                        || !old(self).entities@.contains_key(relative_to@) || (position is Under
                        && !(old(self).entities@[relative_to@] is Group)))
                },
            },
    {
        if !self.entities.contains_key(id) || !self.entities.contains_key(relative_to) {
            return Err(());
        }
        let under = match position {
            EntityPosition::Under => true,
            _ => false,
        };
        if under && !self.entities.get(relative_to).unwrap().is_group() {
            return Err(());
        }
        if id.eq(relative_to) {
            return Ok(false);
        }
        let ghost t0 = *self;
        let p_opt = self.parent_of(id);
        let was_top = remove_id(&mut self.top_ids, id);
        if let Some(p) = &p_opt {
            let list = self.child_ids.get_mut(p);
            remove_id(list, id);
        }
        proof {
            assert(t0.placed(id@));
            assert forall|p2: Seq<char>|
                self.child_ids@.contains_key(p2) && (match p_opt {
                    Some(p) => p2 != p@,
                    None => true,
                }) implies !id_in((#[trigger] self.child_ids@[p2]@), id@) by {
                if id_in(self.child_ids@[p2]@, id@) {
                    match p_opt {
                        Some(p) => {
                            assert(id_in(t0.child_ids@[p@]@, id@));
                        },
                        None => {
                            assert(t0.has_parent(id@));
                            assert(was_top);
                        },
                    }
                }
            }
            match p_opt {
                Some(pp) => {
                    assert(self.child_ids@.contains_key(pp@));
                    assert(ids_unique(self.child_ids@[pp@]@));
                },
                None => {},
            }
            // the mid state is well formed but for the unplaced id
            assert(self.wf_unlinked(id@)) by {
                assert(!self.placed(id@)) by {
                    if self.has_parent(id@) {
                        let q = choose|q: Seq<char>|
                            self.child_ids@.contains_key(q) && #[trigger] id_in(
                                self.child_ids@[q]@,
                                id@,
                            );
                    }
                }
                assert forall|k: Seq<char>| #[trigger] self.entities@.contains_key(k) implies (k
                    == id@ || self.placed(k)) by {
                    if k != id@ {
                        assert(t0.placed(k));
                        if id_in(t0.top_ids@, k) {
                            assert(id_in(self.top_ids@, k));
                        } else {
                            let q = choose|q: Seq<char>|
                                t0.child_ids@.contains_key(q) && #[trigger] id_in(
                                    t0.child_ids@[q]@,
                                    k,
                                );
                            assert(self.child_ids@.contains_key(q));
                            assert(id_in(self.child_ids@[q]@, k));
                            assert(self.has_parent(k));
                        }
                    }
                }
            }
        }
        let ghost tmid = *self;
        let moved = id.clone();
        if under {
            if self.child_ids.contains_key(relative_to) {
                let list = self.child_ids.get_mut(relative_to);
                let ghost l0 = list@;
                list.push(moved);
                proof {
                    assert(!id_in(l0, id@));
                    lemma_push_id_membership(l0, list@.last());
                }
            } else {
                let mut l: Vec<String> = Vec::new();
                l.push(moved);
                proof {
                    assert forall|k: Seq<char>| #[trigger] id_in(l@, k) implies k == id@ by {
                        let j = choose|j: int| 0 <= j < l@.len() && (#[trigger] l@[j]@) == k;
                    }
                    assert(id_in(l@, id@)) by {
                        assert(l@[0]@ == id@);
                    }
                }
                self.child_ids.insert(relative_to.clone(), l);
            }
            proof {
                assert forall|q: Seq<char>| #[trigger] self.child_ids@.contains_key(q) <==> (
                tmid.child_ids@.contains_key(q) || q == relative_to@) by {}
                lemma_wf_link_child(tmid, *self, relative_to@, id@);
            }
            Ok(true)
        } else {
            let offset: usize = match position {
                EntityPosition::Before => 0,
                _ => 1,
            };
            if let Some(i) = find_id(&self.top_ids, relative_to) {
                let ghost tops0 = self.top_ids@;
                proof {
                    assert(!id_in(tops0, id@));
                }
                self.top_ids.insert(i + offset, moved);
                proof {
                    lemma_insert_id_membership(tops0, i + offset, self.top_ids@[i + offset]);
                    lemma_wf_link_top(tmid, *self, id@);
                }
                Ok(true)
            } else {
                proof {
                    assert(t0.placed(relative_to@));
                    if id_in(t0.top_ids@, relative_to@) {
                        assert(id_in(tmid.top_ids@, relative_to@));
                    } else {
                        let q = choose|q: Seq<char>|
                            t0.child_ids@.contains_key(q) && #[trigger] id_in(
                                t0.child_ids@[q]@,
                                relative_to@,
                            );
                        assert(tmid.child_ids@.contains_key(q));
                        assert(id_in(tmid.child_ids@[q]@, relative_to@));
                        assert(tmid.has_parent(relative_to@));
                    }
                }
                let q = self.parent_of(relative_to).unwrap();
                let list = self.child_ids.get_mut(&q);
                let ghost l0 = list@;
                let i = find_id(list, relative_to).unwrap();
                proof {
                    assert(!id_in(l0, id@));
                }
                list.insert(i + offset, moved);
                proof {
                    lemma_insert_id_membership(l0, i + offset, list@[i + offset]);
                }
                proof {
                    assert forall|q2: Seq<char>| #[trigger] self.child_ids@.contains_key(q2) <==> (
                    tmid.child_ids@.contains_key(q2) || q2 == q@) by {}
                    assert(tmid.entities@.contains_key(q@) && tmid.entities@[q@] is Group);
                    lemma_wf_link_child(tmid, *self, q@, id@);
                }
                Ok(true)
            }
        }
    }

    /// All group ids within the subtree of `root` that own a child list.
    pub fn descendant_groups(&self, root: &String) -> (r: Vec<String>)
        requires
            self.wf(),
        ensures
            ids_unique(r@),
            forall|k: Seq<char>|
                #[trigger] id_in(r@, k) <==> (in_subtree(self.child_ids@, root@, k)
                    && self.child_ids@.contains_key(k)),
    {
        let sub = self.collect_subtree(root);
        let n = sub.len();
        let mut out: Vec<String> = Vec::new();
        let mut i: usize = 0;
        while i < n
            invariant
                self.wf(),
                n == sub@.len(),
                i <= n,
                ids_unique(sub@),
                forall|k: Seq<char>|
                    #[trigger] id_in(sub@, k) <==> in_subtree(self.child_ids@, root@, k),
                ids_unique(out@),
                forall|k: Seq<char>|
                    #[trigger] id_in(out@, k) <==> (id_in(sub@.take(i as int), k)
                        && self.child_ids@.contains_key(k)),
            decreases n - i,
        {
            let ghost takei = sub@.take(i as int);
            proof {
                assert(sub@.take(i + 1) =~= takei.push(sub@[i as int]));
                lemma_push_id_membership(takei, sub@[i as int]);
                assert(!id_in(takei, sub@[i as int]@)) by {
                    if id_in(takei, sub@[i as int]@) {
                        let j = choose|j: int|
                            0 <= j < takei.len() && (#[trigger] takei[j]@) == sub@[i as int]@;
                        assert(sub@[j]@ == sub@[i as int]@);
                    }
                }
            }
            if self.child_ids.contains_key(&sub[i]) {
                let ghost out0 = out@;
                out.push(sub[i].clone());
                proof {
                    assert(!id_in(out0, sub@[i as int]@));
                    lemma_push_id_membership(out0, out@.last());
                }
            }
            i += 1;
        }
        proof {
            assert(sub@.take(n as int) =~= sub@);
        }
        out
    }
}


/// Replacing one entity's value under its own key keeps the tree well
/// formed, provided the value keeps its id and stays a group while it owns
/// a child list.
pub proof fn lemma_tree_wf_value_update(t0: RequestTree, t1: RequestTree, id: Seq<char>)
    requires
        t0.wf(),
        t0.entities@.contains_key(id),
        t1.entities.wf(),
        t1.entities@ == t0.entities@.insert(id, t1.entities@[id]),
        t1.entities@.contains_key(id),
        t1.entities@[id].spec_id() == id,
        t0.child_ids@.contains_key(id) ==> t1.entities@[id] is Group,
        t1.top_ids == t0.top_ids,
        t1.child_ids == t0.child_ids,
    ensures
        t1.wf(),
{
    assert forall|k: Seq<char>| #[trigger] t1.entities@.contains_key(k) implies
        t1.entities@[k].spec_id() == k by {
        assert(t0.entities@.contains_key(k));
    }
    assert forall|p: Seq<char>| #[trigger] t1.child_ids@.contains_key(p) implies ids_unique(
        t1.child_ids@[p]@,
    ) && t1.entities@.contains_key(p) && t1.entities@[p] is Group by {
        assert(t0.child_ids@.contains_key(p));
    }
    assert forall|k: Seq<char>| #[trigger] id_in(t1.top_ids@, k) implies t1.entities@.contains_key(
        k,
    ) && !t1.has_parent(k) by {
        assert(id_in(t0.top_ids@, k));
        if t1.has_parent(k) {
            let q = choose|q: Seq<char>|
                t1.child_ids@.contains_key(q) && #[trigger] id_in(t1.child_ids@[q]@, k);
            assert(t0.has_parent(k));
        }
    }
    assert forall|k: Seq<char>| #[trigger] t1.entities@.contains_key(k) implies t1.placed(k) by {
        assert(t0.entities@.contains_key(k));
        assert(t0.placed(k));
        if t0.has_parent(k) {
            let q = choose|q: Seq<char>|
                t0.child_ids@.contains_key(q) && #[trigger] id_in(t0.child_ids@[q]@, k);
            assert(t1.has_parent(k));
        }
    }
}

/// Replacing one entity's value under its own key keeps a parameter
/// collection well formed, provided the value keeps its id.
pub proof fn lemma_params_wf_value_update<T: Ident>(
    t0: ParamCollection<T>,
    t1: ParamCollection<T>,
    id: Seq<char>,
)
    requires
        t0.wf(),
        t0.entities@.contains_key(id),
        t1.entities.wf(),
        t1.entities@ == t0.entities@.insert(id, t1.entities@[id]),
        t1.entities@.contains_key(id),
        t1.entities@[id].sid() == id,
        t1.public_ids == t0.public_ids,
        t1.private_ids == t0.private_ids,
        t1.vault_ids == t0.vault_ids,
    ensures
        t1.wf(),
{
    assert forall|k: Seq<char>| #[trigger] t1.entities@.contains_key(k) implies t1.entities@[k].sid()
        == k by {
        assert(t0.entities@.contains_key(k));
    }
    assert forall|k: Seq<char>| #[trigger] t1.entities@.contains_key(k) implies t1.listed(k) by {
        assert(t0.entities@.contains_key(k));
    }
}


/// The two entries agree on everything but the selected_scenario selection.
pub open spec fn same_but_selected_scenario(a: crate::model::RequestEntry, b: crate::model::RequestEntry) -> bool {
    match (a, b) {
        (crate::model::RequestEntry::Request(x), crate::model::RequestEntry::Request(y)) => y
            == (crate::model::Request { selected_scenario: y.selected_scenario, ..x }),
        (crate::model::RequestEntry::Group(x), crate::model::RequestEntry::Group(y)) => y
            == (crate::model::RequestGroup { selected_scenario: y.selected_scenario, ..x }),
        _ => false,
    }
}

/// The selected_scenario selection of `b` is that of `a`, its display name renamed
/// to `nm` where it points at `sid`.
pub open spec fn sel_renamed_selected_scenario(
    a: crate::model::RequestEntry,
    b: crate::model::RequestEntry,
    sid: Seq<char>,
    nm: Seq<char>,
) -> bool {
    match (a.spec_selected_scenario(), b.spec_selected_scenario()) {
        (Some(s0), Some(s1)) => s1.id == s0.id && s1.name@ == (if s0.id@ == sid {
            nm
        } else {
            s0.name@
        }),
        (None, None) => true,
        _ => false,
    }
}

impl RequestTree {
    /// Renames the selected_scenario selections pointing at `sid` across all
    /// entries, leaving everything else alone.
    pub fn rename_selected_scenario_selections(&mut self, sid: &String, new_name: &String)
        requires
            old(self).wf(),
        ensures
            final(self).wf(),
            final(self).top_ids == old(self).top_ids,
            final(self).child_ids == old(self).child_ids,
            final(self).entities@.dom() == old(self).entities@.dom(),
            forall|k: Seq<char>|
                #[trigger] final(self).entities@.contains_key(k) ==> same_but_selected_scenario(
                    old(self).entities@[k],
                    final(self).entities@[k],
                ) && sel_renamed_selected_scenario(
                    old(self).entities@[k],
                    final(self).entities@[k],
                    sid@,
                    new_name@,
                ),
    {
        let ghost t0 = *self;
        let n = self.entities.num_entries();
        let mut i: usize = 0;
        while i < n
            invariant
                n == self.entities.kvs().len(),
                i <= n,
                self.entities.wf(),
                self.top_ids == t0.top_ids,
                self.child_ids == t0.child_ids,
                self.entities.kvs().len() == t0.entities.kvs().len(),
                forall|j: int|
                    0 <= j < self.entities.kvs().len() ==> (#[trigger] self.entities.kvs()[j].0)
                        == t0.entities.kvs()[j].0,
                forall|j: int|
                    i <= j < self.entities.kvs().len() ==> (#[trigger] self.entities.kvs()[j].1)
                        == t0.entities.kvs()[j].1,
                forall|j: int|
                    0 <= j < i ==> same_but_selected_scenario(
                        t0.entities.kvs()[j].1,
                        (#[trigger] self.entities.kvs()[j].1),
                    ) && sel_renamed_selected_scenario(
                        t0.entities.kvs()[j].1,
                        self.entities.kvs()[j].1,
                        sid@,
                        new_name@,
                    ),
            decreases n - i,
        {
            let entry = self.entities.value_at_mut(i);
            match entry {
                crate::model::RequestEntry::Request(req) => {
                    if let Some(sel) = &mut req.selected_scenario {
                        if sel.id.eq(sid) {
                            sel.name = new_name.clone();
                        }
                    }
                },
                crate::model::RequestEntry::Group(grp) => {
                    if let Some(sel) = &mut grp.selected_scenario {
                        if sel.id.eq(sid) {
                            sel.name = new_name.clone();
                        }
                    }
                },
            }
            i += 1;
        }
        proof {
            self.entities.lemma_kvs();
            t0.entities.lemma_kvs();
            assert forall|k: Seq<char>| #[trigger] self.entities@.contains_key(k) implies
                t0.entities@.contains_key(k) && same_but_selected_scenario(
                t0.entities@[k],
                self.entities@[k],
            ) && sel_renamed_selected_scenario(t0.entities@[k], self.entities@[k], sid@, new_name@)
                && self.entities@[k].spec_id() == k && (t0.entities@[k] is Group
                <==> self.entities@[k] is Group) by {
                let j = choose|j: int|
                    0 <= j < self.entities.kvs().len() && (#[trigger] self.entities.kvs()[j].0@)
                        == k;
                assert(t0.entities.kvs()[j].0@ == k);
                assert(self.entities@[k] == self.entities.kvs()[j].1);
                assert(t0.entities@[k] == t0.entities.kvs()[j].1);
                assert(t0.entities@[k].spec_id() == k);
            }
            assert forall|k: Seq<char>| #[trigger] t0.entities@.contains_key(k) implies
                self.entities@.contains_key(k) by {
                let j = choose|j: int|
                    0 <= j < t0.entities.kvs().len() && (#[trigger] t0.entities.kvs()[j].0@) == k;
                assert(self.entities.kvs()[j].0@ == k);
            }
            assert(self.entities@.dom() =~= t0.entities@.dom());
            let t1 = *self;
            assert forall|p: Seq<char>| #[trigger] t1.child_ids@.contains_key(p) implies
                ids_unique(t1.child_ids@[p]@) && t1.entities@.contains_key(p) && t1.entities@[p]
                is Group by {
                assert(t0.child_ids@.contains_key(p));
            }
            assert forall|k: Seq<char>| #[trigger] id_in(t1.top_ids@, k) implies
                t1.entities@.contains_key(k) && !t1.has_parent(k) by {
                assert(id_in(t0.top_ids@, k));
                if t1.has_parent(k) {
                    let q = choose|q: Seq<char>|
                        t1.child_ids@.contains_key(q) && #[trigger] id_in(t1.child_ids@[q]@, k);
                    assert(t0.has_parent(k));
                }
            }
            assert forall|k: Seq<char>| #[trigger] t1.entities@.contains_key(k) implies t1.placed(
                k,
            ) by {
                assert(t0.entities@.contains_key(k));
                assert(t0.placed(k));
                if t0.has_parent(k) {
                    let q = choose|q: Seq<char>|
                        t0.child_ids@.contains_key(q) && #[trigger] id_in(t0.child_ids@[q]@, k);
                    assert(t1.has_parent(k));
                }
            }
        }
    }
}



/// The two entries agree on everything but the selected_authorization selection.
pub open spec fn same_but_selected_authorization(a: crate::model::RequestEntry, b: crate::model::RequestEntry) -> bool {
    match (a, b) {
        (crate::model::RequestEntry::Request(x), crate::model::RequestEntry::Request(y)) => y
            == (crate::model::Request { selected_authorization: y.selected_authorization, ..x }),
        (crate::model::RequestEntry::Group(x), crate::model::RequestEntry::Group(y)) => y
            == (crate::model::RequestGroup { selected_authorization: y.selected_authorization, ..x }),
        _ => false,
    }
}

/// The selected_authorization selection of `b` is that of `a`, its display name renamed
/// to `nm` where it points at `sid`.
pub open spec fn sel_renamed_selected_authorization(
    a: crate::model::RequestEntry,
    b: crate::model::RequestEntry,
    sid: Seq<char>,
    nm: Seq<char>,
) -> bool {
    match (a.spec_selected_authorization(), b.spec_selected_authorization()) {
        (Some(s0), Some(s1)) => s1.id == s0.id && s1.name@ == (if s0.id@ == sid {
            nm
        } else {
            s0.name@
        }),
        (None, None) => true,
        _ => false,
    }
}

impl RequestTree {
    /// Renames the selected_authorization selections pointing at `sid` across all
    /// entries, leaving everything else alone.
    pub fn rename_selected_authorization_selections(&mut self, sid: &String, new_name: &String)
        requires
            old(self).wf(),
        ensures
            final(self).wf(),
            final(self).top_ids == old(self).top_ids,
            final(self).child_ids == old(self).child_ids,
            final(self).entities@.dom() == old(self).entities@.dom(),
            forall|k: Seq<char>|
                #[trigger] final(self).entities@.contains_key(k) ==> same_but_selected_authorization(
                    old(self).entities@[k],
                    final(self).entities@[k],
                ) && sel_renamed_selected_authorization(
                    old(self).entities@[k],
                    final(self).entities@[k],
                    sid@,
                    new_name@,
                ),
    {
        let ghost t0 = *self;
        let n = self.entities.num_entries();
        let mut i: usize = 0;
        while i < n
            invariant
                n == self.entities.kvs().len(),
                i <= n,
                self.entities.wf(),
                self.top_ids == t0.top_ids,
                self.child_ids == t0.child_ids,
                self.entities.kvs().len() == t0.entities.kvs().len(),
                forall|j: int|
                    0 <= j < self.entities.kvs().len() ==> (#[trigger] self.entities.kvs()[j].0)
                        == t0.entities.kvs()[j].0,
                forall|j: int|
                    i <= j < self.entities.kvs().len() ==> (#[trigger] self.entities.kvs()[j].1)
                        == t0.entities.kvs()[j].1,
                forall|j: int|
                    0 <= j < i ==> same_but_selected_authorization(
                        t0.entities.kvs()[j].1,
                        (#[trigger] self.entities.kvs()[j].1),
                    ) && sel_renamed_selected_authorization(
                        t0.entities.kvs()[j].1,
                        self.entities.kvs()[j].1,
                        sid@,
                        new_name@,
                    ),
            decreases n - i,
        {
            let entry = self.entities.value_at_mut(i);
            match entry {
                crate::model::RequestEntry::Request(req) => {
                    if let Some(sel) = &mut req.selected_authorization {
                        if sel.id.eq(sid) {
                            sel.name = new_name.clone();
                        }
                    }
                },
                crate::model::RequestEntry::Group(grp) => {
                    if let Some(sel) = &mut grp.selected_authorization {
                        if sel.id.eq(sid) {
                            sel.name = new_name.clone();
                        }
                    }
                },
            }
            i += 1;
        }
        proof {
            self.entities.lemma_kvs();
            t0.entities.lemma_kvs();
            assert forall|k: Seq<char>| #[trigger] self.entities@.contains_key(k) implies
                t0.entities@.contains_key(k) && same_but_selected_authorization(
                t0.entities@[k],
                self.entities@[k],
            ) && sel_renamed_selected_authorization(t0.entities@[k], self.entities@[k], sid@, new_name@)
                && self.entities@[k].spec_id() == k && (t0.entities@[k] is Group
                <==> self.entities@[k] is Group) by {
                let j = choose|j: int|
                    0 <= j < self.entities.kvs().len() && (#[trigger] self.entities.kvs()[j].0@)
                        == k;
                assert(t0.entities.kvs()[j].0@ == k);
                assert(self.entities@[k] == self.entities.kvs()[j].1);
                assert(t0.entities@[k] == t0.entities.kvs()[j].1);
                assert(t0.entities@[k].spec_id() == k);
            }
            assert forall|k: Seq<char>| #[trigger] t0.entities@.contains_key(k) implies
                self.entities@.contains_key(k) by {
                let j = choose|j: int|
                    0 <= j < t0.entities.kvs().len() && (#[trigger] t0.entities.kvs()[j].0@) == k;
                assert(self.entities.kvs()[j].0@ == k);
            }
            assert(self.entities@.dom() =~= t0.entities@.dom());
            let t1 = *self;
            assert forall|p: Seq<char>| #[trigger] t1.child_ids@.contains_key(p) implies
                ids_unique(t1.child_ids@[p]@) && t1.entities@.contains_key(p) && t1.entities@[p]
                is Group by {
                assert(t0.child_ids@.contains_key(p));
            }
            assert forall|k: Seq<char>| #[trigger] id_in(t1.top_ids@, k) implies
                t1.entities@.contains_key(k) && !t1.has_parent(k) by {
                assert(id_in(t0.top_ids@, k));
                if t1.has_parent(k) {
                    let q = choose|q: Seq<char>|
                        t1.child_ids@.contains_key(q) && #[trigger] id_in(t1.child_ids@[q]@, k);
                    assert(t0.has_parent(k));
                }
            }
            assert forall|k: Seq<char>| #[trigger] t1.entities@.contains_key(k) implies t1.placed(
                k,
            ) by {
                assert(t0.entities@.contains_key(k));
                assert(t0.placed(k));
                if t0.has_parent(k) {
                    let q = choose|q: Seq<char>|
                        t0.child_ids@.contains_key(q) && #[trigger] id_in(t0.child_ids@[q]@, k);
                    assert(t1.has_parent(k));
                }
            }
        }
    }
}



/// The two entries agree on everything but the selected_certificate selection.
pub open spec fn same_but_selected_certificate(a: crate::model::RequestEntry, b: crate::model::RequestEntry) -> bool {
    match (a, b) {
        (crate::model::RequestEntry::Request(x), crate::model::RequestEntry::Request(y)) => y
            == (crate::model::Request { selected_certificate: y.selected_certificate, ..x }),
        (crate::model::RequestEntry::Group(x), crate::model::RequestEntry::Group(y)) => y
            == (crate::model::RequestGroup { selected_certificate: y.selected_certificate, ..x }),
        _ => false,
    }
}

/// The selected_certificate selection of `b` is that of `a`, its display name renamed
/// to `nm` where it points at `sid`.
pub open spec fn sel_renamed_selected_certificate(
    a: crate::model::RequestEntry,
    b: crate::model::RequestEntry,
    sid: Seq<char>,
    nm: Seq<char>,
) -> bool {
    match (a.spec_selected_certificate(), b.spec_selected_certificate()) {
        (Some(s0), Some(s1)) => s1.id == s0.id && s1.name@ == (if s0.id@ == sid {
            nm
        } else {
            s0.name@
        }),
        (None, None) => true,
        _ => false,
    }
}

impl RequestTree {
    /// Renames the selected_certificate selections pointing at `sid` across all
    /// entries, leaving everything else alone.
    pub fn rename_selected_certificate_selections(&mut self, sid: &String, new_name: &String)
        requires
            old(self).wf(),
        ensures
            final(self).wf(),
            final(self).top_ids == old(self).top_ids,
            final(self).child_ids == old(self).child_ids,
            final(self).entities@.dom() == old(self).entities@.dom(),
            forall|k: Seq<char>|
                #[trigger] final(self).entities@.contains_key(k) ==> same_but_selected_certificate(
                    old(self).entities@[k],
                    final(self).entities@[k],
                ) && sel_renamed_selected_certificate(
                    old(self).entities@[k],
                    final(self).entities@[k],
                    sid@,
                    new_name@,
                ),
    {
        let ghost t0 = *self;
        let n = self.entities.num_entries();
        let mut i: usize = 0;
        while i < n
            invariant
                n == self.entities.kvs().len(),
                i <= n,
                self.entities.wf(),
                self.top_ids == t0.top_ids,
                self.child_ids == t0.child_ids,
                self.entities.kvs().len() == t0.entities.kvs().len(),
                forall|j: int|
                    0 <= j < self.entities.kvs().len() ==> (#[trigger] self.entities.kvs()[j].0)
                        == t0.entities.kvs()[j].0,
                forall|j: int|
                    i <= j < self.entities.kvs().len() ==> (#[trigger] self.entities.kvs()[j].1)
                        == t0.entities.kvs()[j].1,
                forall|j: int|
                    0 <= j < i ==> same_but_selected_certificate(
                        t0.entities.kvs()[j].1,
                        (#[trigger] self.entities.kvs()[j].1),
                    ) && sel_renamed_selected_certificate(
                        t0.entities.kvs()[j].1,
                        self.entities.kvs()[j].1,
                        sid@,
                        new_name@,
                    ),
            decreases n - i,
        {
            let entry = self.entities.value_at_mut(i);
            match entry {
                crate::model::RequestEntry::Request(req) => {
                    if let Some(sel) = &mut req.selected_certificate {
                        if sel.id.eq(sid) {
                            sel.name = new_name.clone();
                        }
                    }
                },
                crate::model::RequestEntry::Group(grp) => {
                    if let Some(sel) = &mut grp.selected_certificate {
                        if sel.id.eq(sid) {
                            sel.name = new_name.clone();
                        }
                    }
                },
            }
            i += 1;
        }
        proof {
            self.entities.lemma_kvs();
            t0.entities.lemma_kvs();
            assert forall|k: Seq<char>| #[trigger] self.entities@.contains_key(k) implies
                t0.entities@.contains_key(k) && same_but_selected_certificate(
                t0.entities@[k],
                self.entities@[k],
            ) && sel_renamed_selected_certificate(t0.entities@[k], self.entities@[k], sid@, new_name@)
                && self.entities@[k].spec_id() == k && (t0.entities@[k] is Group
                <==> self.entities@[k] is Group) by {
                let j = choose|j: int|
                    0 <= j < self.entities.kvs().len() && (#[trigger] self.entities.kvs()[j].0@)
                        == k;
                assert(t0.entities.kvs()[j].0@ == k);
                assert(self.entities@[k] == self.entities.kvs()[j].1);
                assert(t0.entities@[k] == t0.entities.kvs()[j].1);
                assert(t0.entities@[k].spec_id() == k);
            }
            assert forall|k: Seq<char>| #[trigger] t0.entities@.contains_key(k) implies
                self.entities@.contains_key(k) by {
                let j = choose|j: int|
                    0 <= j < t0.entities.kvs().len() && (#[trigger] t0.entities.kvs()[j].0@) == k;
                assert(self.entities.kvs()[j].0@ == k);
            }
            assert(self.entities@.dom() =~= t0.entities@.dom());
            let t1 = *self;
            assert forall|p: Seq<char>| #[trigger] t1.child_ids@.contains_key(p) implies
                ids_unique(t1.child_ids@[p]@) && t1.entities@.contains_key(p) && t1.entities@[p]
                is Group by {
                assert(t0.child_ids@.contains_key(p));
            }
            assert forall|k: Seq<char>| #[trigger] id_in(t1.top_ids@, k) implies
                t1.entities@.contains_key(k) && !t1.has_parent(k) by {
                assert(id_in(t0.top_ids@, k));
                if t1.has_parent(k) {
                    let q = choose|q: Seq<char>|
                        t1.child_ids@.contains_key(q) && #[trigger] id_in(t1.child_ids@[q]@, k);
                    assert(t0.has_parent(k));
                }
            }
            assert forall|k: Seq<char>| #[trigger] t1.entities@.contains_key(k) implies t1.placed(
                k,
            ) by {
                assert(t0.entities@.contains_key(k));
                assert(t0.placed(k));
                if t0.has_parent(k) {
                    let q = choose|q: Seq<char>|
                        t0.child_ids@.contains_key(q) && #[trigger] id_in(t0.child_ids@[q]@, k);
                    assert(t1.has_parent(k));
                }
            }
        }
    }
}



/// The two entries agree on everything but the selected_proxy selection.
pub open spec fn same_but_selected_proxy(a: crate::model::RequestEntry, b: crate::model::RequestEntry) -> bool {
    match (a, b) {
        (crate::model::RequestEntry::Request(x), crate::model::RequestEntry::Request(y)) => y
            == (crate::model::Request { selected_proxy: y.selected_proxy, ..x }),
        (crate::model::RequestEntry::Group(x), crate::model::RequestEntry::Group(y)) => y
            == (crate::model::RequestGroup { selected_proxy: y.selected_proxy, ..x }),
        _ => false,
    }
}

/// The selected_proxy selection of `b` is that of `a`, its display name renamed
/// to `nm` where it points at `sid`.
pub open spec fn sel_renamed_selected_proxy(
    a: crate::model::RequestEntry,
    b: crate::model::RequestEntry,
    sid: Seq<char>,
    nm: Seq<char>,
) -> bool {
    match (a.spec_selected_proxy(), b.spec_selected_proxy()) {
        (Some(s0), Some(s1)) => s1.id == s0.id && s1.name@ == (if s0.id@ == sid {
            nm
        } else {
            s0.name@
        }),
        (None, None) => true,
        _ => false,
    }
}

impl RequestTree {
    /// Renames the selected_proxy selections pointing at `sid` across all
    /// entries, leaving everything else alone.
    pub fn rename_selected_proxy_selections(&mut self, sid: &String, new_name: &String)
        requires
            old(self).wf(),
        ensures
            final(self).wf(),
            final(self).top_ids == old(self).top_ids,
            final(self).child_ids == old(self).child_ids,
            final(self).entities@.dom() == old(self).entities@.dom(),
            forall|k: Seq<char>|
                #[trigger] final(self).entities@.contains_key(k) ==> same_but_selected_proxy(
                    old(self).entities@[k],
                    final(self).entities@[k],
                ) && sel_renamed_selected_proxy(
                    old(self).entities@[k],
                    final(self).entities@[k],
                    sid@,
                    new_name@,
                ),
    {
        let ghost t0 = *self;
        let n = self.entities.num_entries();
        let mut i: usize = 0;
        while i < n
            invariant
                n == self.entities.kvs().len(),
                i <= n,
                self.entities.wf(),
                self.top_ids == t0.top_ids,
                self.child_ids == t0.child_ids,
                self.entities.kvs().len() == t0.entities.kvs().len(),
                forall|j: int|
                    0 <= j < self.entities.kvs().len() ==> (#[trigger] self.entities.kvs()[j].0)
                        == t0.entities.kvs()[j].0,
                forall|j: int|
                    i <= j < self.entities.kvs().len() ==> (#[trigger] self.entities.kvs()[j].1)
                        == t0.entities.kvs()[j].1,
                forall|j: int|
                    0 <= j < i ==> same_but_selected_proxy(
                        t0.entities.kvs()[j].1,
                        (#[trigger] self.entities.kvs()[j].1),
                    ) && sel_renamed_selected_proxy(
                        t0.entities.kvs()[j].1,
                        self.entities.kvs()[j].1,
                        sid@,
                        new_name@,
                    ),
            decreases n - i,
        {
            let entry = self.entities.value_at_mut(i);
            match entry {
                crate::model::RequestEntry::Request(req) => {
                    if let Some(sel) = &mut req.selected_proxy {
                        if sel.id.eq(sid) {
                            sel.name = new_name.clone();
                        }
                    }
                },
                crate::model::RequestEntry::Group(grp) => {
                    if let Some(sel) = &mut grp.selected_proxy {
                        if sel.id.eq(sid) {
                            sel.name = new_name.clone();
                        }
                    }
                },
            }
            i += 1;
        }
        proof {
            self.entities.lemma_kvs();
            t0.entities.lemma_kvs();
            assert forall|k: Seq<char>| #[trigger] self.entities@.contains_key(k) implies
                t0.entities@.contains_key(k) && same_but_selected_proxy(
                t0.entities@[k],
                self.entities@[k],
            ) && sel_renamed_selected_proxy(t0.entities@[k], self.entities@[k], sid@, new_name@)
                && self.entities@[k].spec_id() == k && (t0.entities@[k] is Group
                <==> self.entities@[k] is Group) by {
                let j = choose|j: int|
                    0 <= j < self.entities.kvs().len() && (#[trigger] self.entities.kvs()[j].0@)
                        == k;
                assert(t0.entities.kvs()[j].0@ == k);
                assert(self.entities@[k] == self.entities.kvs()[j].1);
                assert(t0.entities@[k] == t0.entities.kvs()[j].1);
                assert(t0.entities@[k].spec_id() == k);
            }
            assert forall|k: Seq<char>| #[trigger] t0.entities@.contains_key(k) implies
                self.entities@.contains_key(k) by {
                let j = choose|j: int|
                    0 <= j < t0.entities.kvs().len() && (#[trigger] t0.entities.kvs()[j].0@) == k;
                assert(self.entities.kvs()[j].0@ == k);
            }
            assert(self.entities@.dom() =~= t0.entities@.dom());
            let t1 = *self;
            assert forall|p: Seq<char>| #[trigger] t1.child_ids@.contains_key(p) implies
                ids_unique(t1.child_ids@[p]@) && t1.entities@.contains_key(p) && t1.entities@[p]
                is Group by {
                assert(t0.child_ids@.contains_key(p));
            }
            assert forall|k: Seq<char>| #[trigger] id_in(t1.top_ids@, k) implies
                t1.entities@.contains_key(k) && !t1.has_parent(k) by {
                assert(id_in(t0.top_ids@, k));
                if t1.has_parent(k) {
                    let q = choose|q: Seq<char>|
                        t1.child_ids@.contains_key(q) && #[trigger] id_in(t1.child_ids@[q]@, k);
                    assert(t0.has_parent(k));
                }
            }
            assert forall|k: Seq<char>| #[trigger] t1.entities@.contains_key(k) implies t1.placed(
                k,
            ) by {
                assert(t0.entities@.contains_key(k));
                assert(t0.placed(k));
                if t0.has_parent(k) {
                    let q = choose|q: Seq<char>|
                        t0.child_ids@.contains_key(q) && #[trigger] id_in(t0.child_ids@[q]@, k);
                    assert(t1.has_parent(k));
                }
            }
        }
    }
}



/// The two entries agree on everything but the selected_data selection.
pub open spec fn same_but_selected_data(a: crate::model::RequestEntry, b: crate::model::RequestEntry) -> bool {
    match (a, b) {
        (crate::model::RequestEntry::Request(x), crate::model::RequestEntry::Request(y)) => y
            == (crate::model::Request { selected_data: y.selected_data, ..x }),
        (crate::model::RequestEntry::Group(x), crate::model::RequestEntry::Group(y)) => y
            == (crate::model::RequestGroup { selected_data: y.selected_data, ..x }),
        _ => false,
    }
}

/// The selected_data selection of `b` is that of `a`, its display name renamed
/// to `nm` where it points at `sid`.
pub open spec fn sel_renamed_selected_data(
    a: crate::model::RequestEntry,
    b: crate::model::RequestEntry,
    sid: Seq<char>,
    nm: Seq<char>,
) -> bool {
    match (a.spec_selected_data(), b.spec_selected_data()) {
        (Some(s0), Some(s1)) => s1.id == s0.id && s1.name@ == (if s0.id@ == sid {
            nm
        } else {
            s0.name@
        }),
        (None, None) => true,
        _ => false,
    }
}

impl RequestTree {
    /// Renames the selected_data selections pointing at `sid` across all
    /// entries, leaving everything else alone.
    pub fn rename_selected_data_selections(&mut self, sid: &String, new_name: &String)
        requires
            old(self).wf(),
        ensures
            final(self).wf(),
            final(self).top_ids == old(self).top_ids,
            final(self).child_ids == old(self).child_ids,
            final(self).entities@.dom() == old(self).entities@.dom(),
            forall|k: Seq<char>|
                #[trigger] final(self).entities@.contains_key(k) ==> same_but_selected_data(
                    old(self).entities@[k],
                    final(self).entities@[k],
                ) && sel_renamed_selected_data(
                    old(self).entities@[k],
                    final(self).entities@[k],
                    sid@,
                    new_name@,
                ),
    {
        let ghost t0 = *self;
        let n = self.entities.num_entries();
        let mut i: usize = 0;
        while i < n
            invariant
                n == self.entities.kvs().len(),
                i <= n,
                self.entities.wf(),
                self.top_ids == t0.top_ids,
                self.child_ids == t0.child_ids,
                self.entities.kvs().len() == t0.entities.kvs().len(),
                forall|j: int|
                    0 <= j < self.entities.kvs().len() ==> (#[trigger] self.entities.kvs()[j].0)
                        == t0.entities.kvs()[j].0,
                forall|j: int|
                    i <= j < self.entities.kvs().len() ==> (#[trigger] self.entities.kvs()[j].1)
                        == t0.entities.kvs()[j].1,
                forall|j: int|
                    0 <= j < i ==> same_but_selected_data(
                        t0.entities.kvs()[j].1,
                        (#[trigger] self.entities.kvs()[j].1),
                    ) && sel_renamed_selected_data(
                        t0.entities.kvs()[j].1,
                        self.entities.kvs()[j].1,
                        sid@,
                        new_name@,
                    ),
            decreases n - i,
        {
            let entry = self.entities.value_at_mut(i);
            match entry {
                crate::model::RequestEntry::Request(req) => {
                    if let Some(sel) = &mut req.selected_data {
                        if sel.id.eq(sid) {
                            sel.name = new_name.clone();
                        }
                    }
                },
                crate::model::RequestEntry::Group(grp) => {
                    if let Some(sel) = &mut grp.selected_data {
                        if sel.id.eq(sid) {
                            sel.name = new_name.clone();
                        }
                    }
                },
            }
            i += 1;
        }
        proof {
            self.entities.lemma_kvs();
            t0.entities.lemma_kvs();
            assert forall|k: Seq<char>| #[trigger] self.entities@.contains_key(k) implies
                t0.entities@.contains_key(k) && same_but_selected_data(
                t0.entities@[k],
                self.entities@[k],
            ) && sel_renamed_selected_data(t0.entities@[k], self.entities@[k], sid@, new_name@)
                && self.entities@[k].spec_id() == k && (t0.entities@[k] is Group
                <==> self.entities@[k] is Group) by {
                let j = choose|j: int|
                    0 <= j < self.entities.kvs().len() && (#[trigger] self.entities.kvs()[j].0@)
                        == k;
                assert(t0.entities.kvs()[j].0@ == k);
                assert(self.entities@[k] == self.entities.kvs()[j].1);
                assert(t0.entities@[k] == t0.entities.kvs()[j].1);
                assert(t0.entities@[k].spec_id() == k);
            }
            assert forall|k: Seq<char>| #[trigger] t0.entities@.contains_key(k) implies
                self.entities@.contains_key(k) by {
                let j = choose|j: int|
                    0 <= j < t0.entities.kvs().len() && (#[trigger] t0.entities.kvs()[j].0@) == k;
                assert(self.entities.kvs()[j].0@ == k);
            }
            assert(self.entities@.dom() =~= t0.entities@.dom());
            let t1 = *self;
            assert forall|p: Seq<char>| #[trigger] t1.child_ids@.contains_key(p) implies
                ids_unique(t1.child_ids@[p]@) && t1.entities@.contains_key(p) && t1.entities@[p]
                is Group by {
                assert(t0.child_ids@.contains_key(p));
            }
            assert forall|k: Seq<char>| #[trigger] id_in(t1.top_ids@, k) implies
                t1.entities@.contains_key(k) && !t1.has_parent(k) by {
                assert(id_in(t0.top_ids@, k));
                if t1.has_parent(k) {
                    let q = choose|q: Seq<char>|
                        t1.child_ids@.contains_key(q) && #[trigger] id_in(t1.child_ids@[q]@, k);
                    assert(t0.has_parent(k));
                }
            }
            assert forall|k: Seq<char>| #[trigger] t1.entities@.contains_key(k) implies t1.placed(
                k,
            ) by {
                assert(t0.entities@.contains_key(k));
                assert(t0.placed(k));
                if t0.has_parent(k) {
                    let q = choose|q: Seq<char>|
                        t0.child_ids@.contains_key(q) && #[trigger] id_in(t0.child_ids@[q]@, k);
                    assert(t1.has_parent(k));
                }
            }
        }
    }
}

} // verus!
