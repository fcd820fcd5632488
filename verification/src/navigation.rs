//! The navigation tree: a denormalized, UI-facing mirror of the entity tree
//! and the parameter collections, annotated with validation and execution
//! status.
//!
//! Parameter sections are patched in place; the request forest is rebuilt
//! from the entity tree against an exact mirror specification.

use crate::exec_state::ExecutionState;
use crate::model::{title_of, DataSet, RequestEntry, Selection, ValidationState, WorkbookDefaults};
use crate::results::RequestExecution;
use crate::smap::StringMap;
use crate::tree::{Ident, ParamCollection, RequestTree};
use vstd::prelude::*;

verus! {

/// The selection id standing for "no parameter".
pub fn no_selection_id() -> (r: &'static str)
    ensures
        r@ == "\tNONE\t"@,
{
    "\tNONE\t"
}

/// The selection id standing for "use the inherited default".
pub fn default_selection_id() -> (r: &'static str)
    ensures
        r@ == "\tDEFAULT\t"@,
{
    "\tDEFAULT\t"
}

/// A flat navigation node for a parameter or data set.
#[derive(Clone, Debug, PartialEq)]
pub struct NavigationEntry {
    pub id: String,
    pub name: String,
    pub validation_state: ValidationState,
    pub execution_state: ExecutionState,
}

/// A request or group node of the navigation tree.  Requests carry no child
/// list; groups carry one, possibly empty.
pub struct NavigationRequestEntry {
    pub id: String,
    pub name: String,
    pub children: Option<Vec<NavigationRequestEntry>>,
    pub validation_state: ValidationState,
    pub execution_state: ExecutionState,
}

/// A parameter kind's navigation entries, by partition.
pub struct ParamNavigationSection {
    pub public: Vec<NavigationEntry>,
    pub private: Vec<NavigationEntry>,
    pub vault: Vec<NavigationEntry>,
}

/// The single-node navigation delta broadcast after an entity change.
#[derive(Clone, Debug, PartialEq)]
pub struct UpdatedNavigationEntry {
    pub id: String,
    pub name: String,
    pub entity_type: crate::model::EntityType,
    pub validation_state: ValidationState,
    pub execution_state: ExecutionState,
}

/// Validation feedback of an entity update.
#[derive(Clone, Debug, PartialEq)]
pub struct UpdateResponse {
    pub validation_warnings: Option<Vec<String>>,
    pub validation_errors: Option<Vec<(String, String)>>,
}

/// Validation feedback plus the navigation delta, if any.
#[derive(Clone, Debug, PartialEq)]
pub struct UpdateWithNavigationResponse {
    pub navigation: Option<UpdatedNavigationEntry>,
    pub validation_warnings: Option<Vec<String>>,
    pub validation_errors: Option<Vec<(String, String)>>,
}

/// The cached execution state shown for an id, empty when none is cached.
pub open spec fn spec_exec_state(ex: Map<Seq<char>, RequestExecution>, id: Seq<char>)
    -> ExecutionState {
    if ex.contains_key(id) {
        ex[id].execution_state
    } else {
        ExecutionState::spec_empty()
    }
}

/// Flat navigation entries mirroring the listed entities in order.
pub open spec fn entries_mirror<T: Ident>(
    m: Map<Seq<char>, T>,
    ids: Seq<String>,
    es: Seq<NavigationEntry>,
) -> bool {
    &&& es.len() == ids.len()
    &&& forall|i: int|
        0 <= i < ids.len() ==> (#[trigger] es[i]).id@ == ids[i]@ && m.contains_key(ids[i]@)
            && es[i].name@ == title_of(m[ids[i]@].sname()) && es[i].validation_state
            == m[ids[i]@].svalidation() && es[i].execution_state == ExecutionState::spec_empty()
}

/// One navigation node mirrors its entity: display title, validation state,
/// cached execution state; a group's children mirror its child list, cut
/// off empty when the recursion fuel runs out.
pub open spec fn entry_mirrors(
    t: RequestTree,
    ex: Map<Seq<char>, RequestExecution>,
    e: NavigationRequestEntry,
    fuel: nat,
) -> bool
    decreases fuel, 0nat,
{
    &&& t.entities@.contains_key(e.id@)
    &&& e.name@ == title_of(t.entities@[e.id@].spec_name())
    &&& e.validation_state == t.entities@[e.id@].spec_validation_state()
    &&& e.execution_state == spec_exec_state(ex, e.id@)
    &&& match e.children {
        None => t.entities@[e.id@] is Request,
        Some(c) => t.entities@[e.id@] is Group && (if t.child_ids@.contains_key(e.id@) && fuel
            > 0 {
            forest_mirrors(t, ex, t.child_ids@[e.id@]@, c@, (fuel - 1) as nat)
        } else {
            c@.len() == 0
        }),
    }
}

/// A navigation forest mirrors an ordered id list node for node.
pub open spec fn forest_mirrors(
    t: RequestTree,
    ex: Map<Seq<char>, RequestExecution>,
    ids: Seq<String>,
    es: Seq<NavigationRequestEntry>,
    fuel: nat,
) -> bool
    decreases fuel, 1nat,
{
    &&& es.len() == ids.len()
    &&& forall|i: int|
        0 <= i < ids.len() ==> (#[trigger] es[i]).id@ == ids[i]@ && entry_mirrors(
            t,
            ex,
            es[i],
            fuel,
        )
}

/// Builds the navigation forest for the given ordered ids.
pub fn build_request_forest(
    t: &RequestTree,
    ex: &StringMap<RequestExecution>,
    ids: &Vec<String>,
    fuel: u64,
) -> (r: Vec<NavigationRequestEntry>)
    requires
        t.wf(),
        ex.wf(),
        forall|i: int| 0 <= i < ids@.len() ==> t.entities@.contains_key((#[trigger] ids@[i])@),
    ensures
        forest_mirrors(*t, ex@, ids@, r@, fuel as nat),
    decreases fuel, ids@.len(),
{
    let n = ids.len();
    let mut out: Vec<NavigationRequestEntry> = Vec::new();
    let mut i: usize = 0;
    while i < n
        invariant
            t.wf(),
            ex.wf(),
            n == ids@.len(),
            i <= n,
            forall|j: int| 0 <= j < n ==> t.entities@.contains_key((#[trigger] ids@[j])@),
            out@.len() == i,
            forall|j: int|
                0 <= j < i ==> (#[trigger] out@[j]).id@ == ids@[j]@ && entry_mirrors(
                    *t,
                    ex@,
                    out@[j],
                    fuel as nat,
                ),
        decreases n - i,
    {
        let id = &ids[i];
        let entity = t.get(id).unwrap();
        let children: Option<Vec<NavigationRequestEntry>> = if entity.is_group() {
            match t.child_ids.get(id) {
                Some(child_list) => {
                    if fuel > 0 {
                        proof {
                            assert forall|j: int|
                                0 <= j < child_list@.len() implies t.entities@.contains_key(
                                (#[trigger] child_list@[j])@,
                            ) by {
                                assert(crate::tree::id_in(t.child_ids@[id@]@, child_list@[j]@))
                                    by {
                                    assert(t.child_ids@[id@]@[j]@ == child_list@[j]@);
                                }
                            }
                        }
                        Some(build_request_forest(t, ex, child_list, fuel - 1))
                    } else {
                        Some(Vec::new())
                    }
                },
                None => Some(Vec::new()),
            }
        } else {
            None
        };
        let execution_state = match ex.get(id) {
            Some(e) => e.execution_state,
            None => ExecutionState::empty(),
        };
        out.push(NavigationRequestEntry {
            id: id.clone(),
            name: entity.get_title(),
            children,
            validation_state: entity.get_validation_state(),
            execution_state,
        });
        i += 1;
    }
    out
}

/// First index of the entry with the given id in a flat section list.
pub open spec fn first_nav_index(s: Seq<NavigationEntry>, k: Seq<char>) -> Option<int>
    decreases s.len(),
{
    if s.len() == 0 {
        None
    } else if s[0].id@ == k {
        Some(0int)
    } else {
        match first_nav_index(s.drop_first(), k) {
            Some(i) => Some(i + 1),
            None => None,
        }
    }
}

/// Finds the first entry with the given id.
pub fn find_nav_entry(s: &Vec<NavigationEntry>, k: &String) -> (r: Option<usize>)
    ensures
        match r {
            Some(i) => first_nav_index(s@, k@) == Some(i as int) && i < s@.len() && s@[i as int].id@
                == k@ && (forall|j: int| 0 <= j < i ==> (#[trigger] s@[j]).id@ != k@),
            None => first_nav_index(s@, k@) is None && (forall|j: int|
                0 <= j < s@.len() ==> (#[trigger] s@[j]).id@ != k@),
        },
{
    let n = s.len();
    let mut i: usize = 0;
    proof {
        lemma_first_nav_index(s@, k@, 0);
    }
    while i < n
        invariant
            n == s@.len(),
            i <= n,
            forall|j: int| 0 <= j < i ==> (#[trigger] s@[j]).id@ != k@,
            first_nav_index(s@, k@) == (match first_nav_index(s@.skip(i as int), k@) {
                Some(x) => Some(x + i),
                None => None,
            }),
        decreases n - i,
    {
        proof {
            assert(s@.skip(i as int)[0] == s@[i as int]);
            assert(s@.skip(i as int).drop_first() =~= s@.skip(i + 1));
        }
        if s[i].id.eq(k) {
            return Some(i);
        }
        i += 1;
    }
    None
}

proof fn lemma_first_nav_index(s: Seq<NavigationEntry>, k: Seq<char>, i: int)
    requires
        0 <= i <= s.len(),
    ensures
        i == 0 ==> first_nav_index(s, k) == (match first_nav_index(s.skip(i), k) {
            Some(x) => Some(x + i),
            None => None::<int>,
        }),
{
    if i == 0 {
        assert(s.skip(0) =~= s);
    }
}

/// Sets the display fields of the entry at a known index.
pub fn set_nav_entry(
    s: &mut Vec<NavigationEntry>,
    i: usize,
    name: &String,
    validation_state: ValidationState,
    execution_state: ExecutionState,
)
    requires
        i < old(s)@.len(),
    ensures
        final(s)@ == old(s)@.update(
            i as int,
            NavigationEntry {
                id: old(s)@[i as int].id,
                name: *name,
                validation_state,
                execution_state,
            },
        ),
{
    let id = s[i].id.clone();
    let entry = NavigationEntry { id, name: name.clone(), validation_state, execution_state };
    s[i] = entry;
    proof {
        assert(final(s)@[i as int].id == old(s)@[i as int].id);
        assert(final(s)@ =~= old(s)@.update(
            i as int,
            NavigationEntry {
                id: old(s)@[i as int].id,
                name: *name,
                validation_state,
                execution_state,
            },
        ));
    }
}

impl ParamNavigationSection {
    /// Flat navigation entries for the listed entities, in order.
    pub fn map_entities<T: Ident>(entities: &StringMap<T>, ids: &Vec<String>) -> (r: Vec<
        NavigationEntry,
    >)
        requires
            entities.wf(),
            forall|i: int|
                0 <= i < ids@.len() ==> entities@.contains_key((#[trigger] ids@[i])@),
        ensures
            entries_mirror(entities@, ids@, r@),
    {
        let n = ids.len();
        let mut out: Vec<NavigationEntry> = Vec::new();
        let mut i: usize = 0;
        while i < n
            invariant
                entities.wf(),
                n == ids@.len(),
                i <= n,
                forall|j: int|
                    0 <= j < n ==> entities@.contains_key((#[trigger] ids@[j])@),
                out@.len() == i,
                forall|j: int|
                    0 <= j < i ==> (#[trigger] out@[j]).id@ == ids@[j]@
                        && out@[j].name@ == title_of(entities@[ids@[j]@].sname())
                        && out@[j].validation_state == entities@[ids@[j]@].svalidation()
                        && out@[j].execution_state == ExecutionState::spec_empty(),
            decreases n - i,
        {
            let id = &ids[i];
            let entity = entities.get(id).unwrap();
            out.push(NavigationEntry {
                id: id.clone(),
                name: entity.title(),
                validation_state: entity.vstate(),
                execution_state: ExecutionState::empty(),
            });
            i += 1;
        }
        out
    }

    /// The navigation sections for a parameter collection.
    pub fn new<T: Ident>(parameters: &ParamCollection<T>) -> (r: ParamNavigationSection)
        requires
            parameters.wf(),
        ensures
            entries_mirror(parameters.entities@, parameters.public_ids@, r.public@),
            entries_mirror(parameters.entities@, parameters.private_ids@, r.private@),
            entries_mirror(parameters.entities@, parameters.vault_ids@, r.vault@),
    {
        proof {
            assert forall|i: int|
                0 <= i < parameters.public_ids@.len() implies parameters.entities@.contains_key(
                (#[trigger] parameters.public_ids@[i])@,
            ) by {
                assert(crate::tree::id_in(parameters.public_ids@, parameters.public_ids@[i]@));
            }
            assert forall|i: int|
                0 <= i < parameters.private_ids@.len() implies parameters.entities@.contains_key(
                (#[trigger] parameters.private_ids@[i])@,
            ) by {
                assert(crate::tree::id_in(parameters.private_ids@, parameters.private_ids@[i]@));
            }
            assert forall|i: int|
                0 <= i < parameters.vault_ids@.len() implies parameters.entities@.contains_key(
                (#[trigger] parameters.vault_ids@[i])@,
            ) by {
                assert(crate::tree::id_in(parameters.vault_ids@, parameters.vault_ids@[i]@));
            }
        }
        ParamNavigationSection {
            public: Self::map_entities(&parameters.entities, &parameters.public_ids),
            private: Self::map_entities(&parameters.entities, &parameters.private_ids),
            vault: Self::map_entities(&parameters.entities, &parameters.vault_ids),
        }
    }

    /// The selection list offered for this parameter kind: an off entry when
    /// asked for, then every section entry in order.
    pub fn generate_selection_list(&self, include_off: bool) -> (r: Vec<Selection>)
        ensures
            r@.len() == (if include_off {
                1int
            } else {
                0int
            }) + self.public@.len() + self.private@.len() + self.vault@.len(),
            include_off ==> r@[0].id@ == "\tNONE\t"@ && r@[0].name@ == "Off"@,
            forall|i: int|
                0 <= i < self.public@.len() ==> {
                    let o = i + (if include_off {
                        1int
                    } else {
                        0int
                    });
                    (#[trigger] self.public@[i]).id@ == r@[o].id@ && self.public@[i].name@
                        == r@[o].name@
                },
            forall|i: int|
                0 <= i < self.private@.len() ==> {
                    let o = i + (if include_off {
                        1int
                    } else {
                        0int
                    }) + self.public@.len();
                    (#[trigger] self.private@[i]).id@ == r@[o].id@ && self.private@[i].name@
                        == r@[o].name@
                },
            forall|i: int|
                0 <= i < self.vault@.len() ==> {
                    let o = i + (if include_off {
                        1int
                    } else {
                        0int
                    }) + self.public@.len() + self.private@.len();
                    (#[trigger] self.vault@[i]).id@ == r@[o].id@ && self.vault@[i].name@
                        == r@[o].name@
                },
    {
        let ghost off: int = if include_off { 1 } else { 0 };
        let mut out: Vec<Selection> = Vec::new();
        if include_off {
            out.push(Selection { id: no_selection_id().to_owned(), name: "Off".to_owned() });
        }
        let mut i: usize = 0;
        let n1 = self.public.len();
        while i < n1
            invariant
                off == (if include_off { 1int } else { 0int }),
                n1 == self.public@.len(),
                i <= n1,
                out@.len() == off + i,
                include_off ==> out@[0].id@ == "\tNONE\t"@ && out@[0].name@ == "Off"@,
                forall|j: int|
                    0 <= j < i ==> (#[trigger] self.public@[j]).id@ == out@[j + off].id@
                        && self.public@[j].name@ == out@[j + off].name@,
        decreases n1 - i,
        {
            out.push(
                Selection { id: self.public[i].id.clone(), name: self.public[i].name.clone() },
            );
            i += 1;
        }
        let mut i2: usize = 0;
        let n2 = self.private.len();
        while i2 < n2
            invariant
                off == (if include_off { 1int } else { 0int }),
                n1 == self.public@.len(),
                n2 == self.private@.len(),
                i2 <= n2,
                out@.len() == off + n1 + i2,
                include_off ==> out@[0].id@ == "\tNONE\t"@ && out@[0].name@ == "Off"@,
                forall|j: int|
                    0 <= j < n1 ==> (#[trigger] self.public@[j]).id@ == out@[j + off].id@
                        && self.public@[j].name@ == out@[j + off].name@,
                forall|j: int|
                    0 <= j < i2 ==> (#[trigger] self.private@[j]).id@ == out@[j + off + n1].id@
                        && self.private@[j].name@ == out@[j + off + n1].name@,
        decreases n2 - i2,
        {
            out.push(
                Selection { id: self.private[i2].id.clone(), name: self.private[i2].name.clone() },
            );
            i2 += 1;
        }
        let mut i3: usize = 0;
        let n3 = self.vault.len();
        while i3 < n3
            invariant
                off == (if include_off { 1int } else { 0int }),
                n1 == self.public@.len(),
                n2 == self.private@.len(),
                n3 == self.vault@.len(),
                i3 <= n3,
                out@.len() == off + n1 + n2 + i3,
                include_off ==> out@[0].id@ == "\tNONE\t"@ && out@[0].name@ == "Off"@,
                forall|j: int|
                    0 <= j < n1 ==> (#[trigger] self.public@[j]).id@ == out@[j + off].id@
                        && self.public@[j].name@ == out@[j + off].name@,
                forall|j: int|
                    0 <= j < n2 ==> (#[trigger] self.private@[j]).id@ == out@[j + off + n1].id@
                        && self.private@[j].name@ == out@[j + off + n1].name@,
                forall|j: int|
                    0 <= j < i3 ==> (#[trigger] self.vault@[j]).id@ == out@[j + off + n1 + n2].id@
                        && self.vault@[j].name@ == out@[j + off + n1 + n2].name@,
        decreases n3 - i3,
        {
            out.push(
                Selection { id: self.vault[i3].id.clone(), name: self.vault[i3].name.clone() },
            );
            i3 += 1;
        }
        out
    }

    /// Removes the entry with the given id from whichever section holds it.
    /// Returns whether one was removed.
    pub fn delete_entry(&mut self, entity_id: &String) -> (r: bool)
        ensures
            match first_nav_index(old(self).public@, entity_id@) {
                Some(i) => r && final(self).public@ == old(self).public@.remove(i)
                    && final(self).private == old(self).private && final(self).vault == old(
                    self,
                ).vault,
                None => match first_nav_index(old(self).private@, entity_id@) {
                    Some(i) => r && final(self).private@ == old(self).private@.remove(i)
                        && final(self).public == old(self).public && final(self).vault == old(
                        self,
                    ).vault,
                    None => match first_nav_index(old(self).vault@, entity_id@) {
                        Some(i) => r && final(self).vault@ == old(self).vault@.remove(i)
                            && final(self).public == old(self).public && final(self).private
                            == old(self).private,
                        None => !r && *final(self) == *old(self),
                    },
                },
            },
    {
        if let Some(i) = find_nav_entry(&self.public, entity_id) {
            self.public.remove(i);
            return true;
        }
        if let Some(i) = find_nav_entry(&self.private, entity_id) {
            self.private.remove(i);
            return true;
        }
        if let Some(i) = find_nav_entry(&self.vault, entity_id) {
            self.vault.remove(i);
            return true;
        }
        false
    }
}


/// Depth-first search of the forest from position `i`: the display fields
/// of the first node with the given id, within the recursion fuel.
pub open spec fn find_from(
    es: Seq<NavigationRequestEntry>,
    i: int,
    k: Seq<char>,
    fuel: nat,
) -> Option<(Seq<char>, ValidationState, ExecutionState)>
    decreases fuel, es.len() - i,
{
    if i < 0 || i >= es.len() {
        None
    } else if es[i].id@ == k {
        Some((es[i].name@, es[i].validation_state, es[i].execution_state))
    } else {
        let from_children = match es[i].children {
            Some(c) => if fuel > 0 {
                find_from(c@, 0, k, (fuel - 1) as nat)
            } else {
                None
            },
            None => None,
        };
        match from_children {
            Some(v) => Some(v),
            None => find_from(es, i + 1, k, fuel),
        }
    }
}

/// Finds the first node with the given id, depth first from position `i`.
pub fn nav_find_from(
    entries: &Vec<NavigationRequestEntry>,
    i: usize,
    k: &String,
    fuel: u64,
) -> (r: Option<(String, ValidationState, ExecutionState)>)
    requires
        i <= entries@.len(),
    ensures
        match (r, find_from(entries@, i as int, k@, fuel as nat)) {
            (Some((n1, v1, e1)), Some((n2, v2, e2))) => n1@ == n2 && v1 == v2 && e1 == e2,
            (None, None) => true,
            _ => false,
        },
    decreases fuel, entries@.len() - i,
{
    if i >= entries.len() {
        None
    } else {
        let e = &entries[i];
        if e.id.eq(k) {
            Some((e.name.clone(), e.validation_state, e.execution_state))
        } else {
            let from_children: Option<(String, ValidationState, ExecutionState)> = match &e
                .children {
                Some(c) => if fuel > 0 {
                    nav_find_from(c, 0, k, fuel - 1)
                } else {
                    None
                },
                None => None,
            };
            match from_children {
                Some(v) => Some(v),
                None => nav_find_from(entries, i + 1, k, fuel),
            }
        }
    }
}

/// The navigation mirror of a whole workspace.
pub struct Navigation {
    pub requests: Vec<NavigationRequestEntry>,
    pub scenarios: ParamNavigationSection,
    pub authorizations: ParamNavigationSection,
    pub certificates: ParamNavigationSection,
    pub proxies: ParamNavigationSection,
    pub data_sets: Vec<NavigationEntry>,
    pub defaults: NavigationEntry,
}

} // verus!
