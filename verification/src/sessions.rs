//! The session registry: one session per open window, each bound to exactly
//! one workspace.  Session ids are human readable and monotonically
//! suffixed; the first session of a process is the distinguished `main`.

use crate::error::ApicizeAppError;
use crate::ids::{lemma_session_id_injective, session_id_seq, session_id_string};
use crate::model::EntityType;
use crate::results::ExecutionMenuItem;
use crate::smap::StringMap;
use crate::tree::{id_in, ids_unique};
use vstd::prelude::*;

verus! {

/// What a window is currently displaying.
#[derive(Clone, Copy, PartialEq, Eq, Structural, Debug)]
pub enum WorkspaceMode {
    Normal,
    Help,
    Settings,
    Defaults,
    Console,
    RequestList,
    ScenarioList,
    AuthorizationList,
    CertificateList,
    ProxyList,
    DataSetList,
}

impl WorkspaceMode {
    pub open spec fn spec_number(self) -> u8 {
        match self {
            WorkspaceMode::Normal => 0,
            WorkspaceMode::Help => 1,
            WorkspaceMode::Settings => 2,
            WorkspaceMode::Defaults => 3,
            WorkspaceMode::Console => 4,
            WorkspaceMode::RequestList => 5,
            WorkspaceMode::ScenarioList => 6,
            WorkspaceMode::AuthorizationList => 7,
            WorkspaceMode::CertificateList => 8,
            WorkspaceMode::ProxyList => 9,
            WorkspaceMode::DataSetList => 10,
        }
    }

    pub fn to_number(self) -> (r: u8)
        ensures
            r == self.spec_number(),
    {
        match self {
            WorkspaceMode::Normal => 0,
            WorkspaceMode::Help => 1,
            WorkspaceMode::Settings => 2,
            WorkspaceMode::Defaults => 3,
            WorkspaceMode::Console => 4,
            WorkspaceMode::RequestList => 5,
            WorkspaceMode::ScenarioList => 6,
            WorkspaceMode::AuthorizationList => 7,
            WorkspaceMode::CertificateList => 8,
            WorkspaceMode::ProxyList => 9,
            WorkspaceMode::DataSetList => 10,
        }
    }

    /// The mode encoded by `val`; fails exactly on values past the last mode.
    pub fn from_number(val: u8) -> (r: Result<WorkspaceMode, u8>)
        ensures
            match r {
                Ok(m) => m.spec_number() == val,
                Err(v) => v == val && val > 10,
            },
    {
        match val {
            0 => Ok(WorkspaceMode::Normal),
            1 => Ok(WorkspaceMode::Help),
            2 => Ok(WorkspaceMode::Settings),
            3 => Ok(WorkspaceMode::Defaults),
            4 => Ok(WorkspaceMode::Console),
            5 => Ok(WorkspaceMode::RequestList),
            6 => Ok(WorkspaceMode::ScenarioList),
            7 => Ok(WorkspaceMode::AuthorizationList),
            8 => Ok(WorkspaceMode::CertificateList),
            9 => Ok(WorkspaceMode::ProxyList),
            10 => Ok(WorkspaceMode::DataSetList),
            _ => Err(val),
        }
    }
}

/// The entity a session has selected.
#[derive(Clone, Debug, PartialEq)]
pub struct SessionEntity {
    pub entity_id: String,
    pub entity_type: EntityType,
}

/// Which result classifications a window hides, and which run it pins.
#[derive(Clone, Copy, PartialEq, Eq, Structural, Debug)]
pub struct ExecutionResultViewState {
    pub hide_success: bool,
    pub hide_failure: bool,
    pub hide_error: bool,
    pub exec_ctr: Option<u64>,
}

impl ExecutionResultViewState {
    pub open spec fn spec_default() -> ExecutionResultViewState {
        ExecutionResultViewState {
            hide_success: false,
            hide_failure: false,
            hide_error: false,
            exec_ctr: None,
        }
    }

    pub fn default_state() -> (r: ExecutionResultViewState)
        ensures
            r == ExecutionResultViewState::spec_default(),
    {
        ExecutionResultViewState {
            hide_success: false,
            hide_failure: false,
            hide_error: false,
            exec_ctr: None,
        }
    }
}

/// File metadata and editor count broadcast after save-state changes.
#[derive(Clone, Debug, PartialEq)]
pub struct SessionSaveState {
    pub file_name: String,
    pub display_name: String,
    pub dirty: bool,
    pub editor_count: u64,
}

/// Minimal per-session dirty marker payload.
#[derive(Clone, Copy, PartialEq, Eq, Structural, Debug)]
pub struct SessionState {
    pub dirty: bool,
}

/// Window-local state of one open session.
pub struct Session {
    /// The workspace this session views.
    pub workspace_id: String,
    pub active_entity: Option<SessionEntity>,
    pub expanded_items: Option<Vec<String>>,
    /// Which historical run each request displays.
    pub request_exec_ctrs: StringMap<u64>,
    pub mode: WorkspaceMode,
    pub help_topic: Option<String>,
    pub execution_result_view_state: StringMap<ExecutionResultViewState>,
}

impl Session {
    pub open spec fn wf(&self) -> bool {
        &&& self.request_exec_ctrs.wf()
        &&& self.execution_result_view_state.wf()
    }

    /// A fresh session bound to the given workspace.
    pub fn new(workspace_id: String) -> (r: Session)
        ensures
            r.wf(),
            r.workspace_id == workspace_id,
            r.active_entity is None,
            r.request_exec_ctrs@ == Map::<Seq<char>, u64>::empty(),
            r.execution_result_view_state@ == Map::<Seq<char>, ExecutionResultViewState>::empty(),
            r.mode == WorkspaceMode::Normal,
    {
        Session {
            workspace_id,
            active_entity: None,
            expanded_items: None,
            request_exec_ctrs: StringMap::new(),
            mode: WorkspaceMode::Normal,
            help_topic: None,
            execution_result_view_state: StringMap::new(),
        }
    }

    /// Accepts the selection when it names a selectable entity kind; the
    /// kinds that only tag sections (data sets, defaults) are refused.
    pub fn update_active_entity(&mut self, entity: &Option<SessionEntity>) -> (r: Result<
        (),
        ApicizeAppError,
    >)
        requires
            old(self).wf(),
        ensures
            final(self).wf(),
            match r {
                Ok(()) => {
                    &&& entity matches Some(e) && (e.entity_type == EntityType::RequestEntry
                        || e.entity_type == EntityType::Request || e.entity_type
                        == EntityType::Group || e.entity_type == EntityType::Scenario
                        || e.entity_type == EntityType::Authorization || e.entity_type
                        == EntityType::Certificate || e.entity_type == EntityType::Proxy)
                    &&& final(self).active_entity == *entity
                    &&& final(self).workspace_id == old(self).workspace_id
                    &&& final(self).request_exec_ctrs@ == old(self).request_exec_ctrs@
                },
                Err(e) => {
                    &&& *final(self) == *old(self)
                    &&& (match entity {
                        Some(se) => e == ApicizeAppError::InvalidTypeForOperation(se.entity_type)
                            && (se.entity_type == EntityType::DataSet || se.entity_type
                            == EntityType::Defaults),
                        None => e matches ApicizeAppError::InvalidOperation(m) && m@
                            == "no entity was selected"@,
                    })
                },
            },
    {
        match entity {
            Some(e) => {
                let ok = match e.entity_type {
                    EntityType::RequestEntry => true,
                    EntityType::Request => true,
                    EntityType::Group => true,
                    EntityType::Scenario => true,
                    EntityType::Authorization => true,
                    EntityType::Certificate => true,
                    EntityType::Proxy => true,
                    EntityType::DataSet => false,
                    EntityType::Defaults => false,
                };
                if ok {
                    self.active_entity = Some(SessionEntity {
                        entity_id: e.entity_id.clone(),
                        entity_type: e.entity_type,
                    });
                    Ok(())
                } else {
                    Err(ApicizeAppError::InvalidTypeForOperation(e.entity_type))
                }
            },
            None => Err(ApicizeAppError::InvalidOperation("no entity was selected".to_owned())),
        }
    }

    /// Pins the displayed run for the given request or group.
    pub fn set_request_exec_ctr(&mut self, request_or_group_id: &String, exec_ctr: u64)
        requires
            old(self).wf(),
        ensures
            final(self).wf(),
            final(self).request_exec_ctrs@ == old(self).request_exec_ctrs@.insert(
                request_or_group_id@,
                exec_ctr,
            ),
            *final(self) == (Session {
                request_exec_ctrs: final(self).request_exec_ctrs,
                ..*old(self)
            }),
    {
        self.request_exec_ctrs.insert(request_or_group_id.clone(), exec_ctr);
    }

    /// Forgets the displayed run for a deleted request.
    pub fn remove_request_exec_ctr(&mut self, request_or_group_id: &String)
        requires
            old(self).wf(),
        ensures
            final(self).wf(),
            final(self).request_exec_ctrs@ == old(self).request_exec_ctrs@.remove(
                request_or_group_id@,
            ),
            *final(self) == (Session {
                request_exec_ctrs: final(self).request_exec_ctrs,
                ..*old(self)
            }),
    {
        self.request_exec_ctrs.remove(request_or_group_id);
    }

    /// The view state for a request's results, all visible by default.
    pub fn get_execution_result_view_state(&self, request_id: &String) -> (r:
        ExecutionResultViewState)
        requires
            self.wf(),
        ensures
            r == (if self.execution_result_view_state@.contains_key(request_id@) {
                self.execution_result_view_state@[request_id@]
            } else {
                ExecutionResultViewState::spec_default()
            }),
    {
        match self.execution_result_view_state.get(request_id) {
            Some(s) => *s,
            None => ExecutionResultViewState::default_state(),
        }
    }

    pub fn remove_execution_result_view_state(&mut self, request_id: &String)
        requires
            old(self).wf(),
        ensures
            final(self).wf(),
            final(self).execution_result_view_state@ == old(
                self,
            ).execution_result_view_state@.remove(request_id@),
            *final(self) == (Session {
                execution_result_view_state: final(self).execution_result_view_state,
                ..*old(self)
            }),
    {
        self.execution_result_view_state.remove(request_id);
    }

    pub fn update_execution_result_view_state(
        &mut self,
        request_id: &String,
        execution_result_view_state: ExecutionResultViewState,
    )
        requires
            old(self).wf(),
        ensures
            final(self).wf(),
            final(self).execution_result_view_state@ == old(
                self,
            ).execution_result_view_state@.insert(request_id@, execution_result_view_state),
            *final(self) == (Session {
                execution_result_view_state: final(self).execution_result_view_state,
                ..*old(self)
            }),
    {
        self.execution_result_view_state.insert(request_id.clone(), execution_result_view_state);
    }
}

/// First menu item of the batch for an executing id, front to back.
pub open spec fn find_by_ctr(s: Seq<ExecutionMenuItem>, ctr: u64) -> Option<ExecutionMenuItem>
    decreases s.len(),
{
    if s.len() == 0 {
        None
    } else if s[0].exec_ctr == ctr {
        Some(s[0])
    } else {
        find_by_ctr(s.drop_first(), ctr)
    }
}

/// First menu item with the given executing id and offset, front to back.
pub open spec fn find_by_offset(s: Seq<ExecutionMenuItem>, id: Seq<char>, off: u64) -> Option<
    ExecutionMenuItem,
>
    decreases s.len(),
{
    if s.len() == 0 {
        None
    } else if s[0].executing_request_or_group_id@ == id && s[0].executing_offset == off {
        Some(s[0])
    } else {
        find_by_offset(s.drop_first(), id, off)
    }
}

/// How many menu items belong to the given executing id.
pub open spec fn count_for(s: Seq<ExecutionMenuItem>, id: Seq<char>) -> int
    decreases s.len(),
{
    if s.len() == 0 {
        0
    } else {
        count_for(s.drop_last(), id) + (if s.last().executing_request_or_group_id@ == id {
            1int
        } else {
            0
        })
    }
}

/// The execution counter a session keeps selected after a menu rebuild: the
/// previously selected run's position when its executing id kept the same
/// number of runs, the first item otherwise, nothing for an empty menu.
pub open spec fn spec_checked_exec_ctr(
    existing: Option<u64>,
    old_menu: Option<Seq<ExecutionMenuItem>>,
    new_menu: Seq<ExecutionMenuItem>,
) -> Option<u64> {
    if new_menu.len() == 0 {
        None
    } else {
        let first = new_menu[0];
        match (existing, old_menu) {
            (Some(active), Some(om)) => match find_by_ctr(om, active) {
                Some(a) => {
                    if count_for(om, a.executing_request_or_group_id@) == count_for(
                        new_menu,
                        a.executing_request_or_group_id@,
                    ) {
                        match find_by_offset(
                            new_menu,
                            a.executing_request_or_group_id@,
                            a.executing_offset,
                        ) {
                            Some(b) => Some(b.exec_ctr),
                            None => Some(first.exec_ctr),
                        }
                    } else {
                        Some(first.exec_ctr)
                    }
                },
                None => Some(first.exec_ctr),
            },
            _ => Some(first.exec_ctr),
        }
    }
}

/// Finds the first menu item with the given execution counter.
fn exec_find_by_ctr<'a>(s: &'a Vec<ExecutionMenuItem>, ctr: u64) -> (r: Option<
    &'a ExecutionMenuItem,
>)
    ensures
        match r {
            Some(a) => find_by_ctr(s@, ctr) == Some(*a),
            None => find_by_ctr(s@, ctr) is None,
        },
{
    let n = s.len();
    let mut i: usize = 0;
    proof {
        assert(s@.skip(0) =~= s@);
    }
    while i < n
        invariant
            n == s@.len(),
            i <= n,
            find_by_ctr(s@, ctr) == find_by_ctr(s@.skip(i as int), ctr),
        decreases n - i,
    {
        if s[i].exec_ctr == ctr {
            proof {
                assert(s@.skip(i as int)[0] == s@[i as int]);
            }
            return Some(&s[i]);
        }
        proof {
            assert(s@.skip(i as int)[0] == s@[i as int]);
            assert(s@.skip(i as int).drop_first() =~= s@.skip(i + 1));
        }
        i += 1;
    }
    proof {
        assert(s@.skip(n as int).len() == 0);
    }
    None
}

/// Finds the first menu item with the given executing id and offset.
fn exec_find_by_offset<'a>(s: &'a Vec<ExecutionMenuItem>, id: &String, off: u64) -> (r: Option<
    &'a ExecutionMenuItem,
>)
    ensures
        match r {
            Some(a) => find_by_offset(s@, id@, off) == Some(*a),
            None => find_by_offset(s@, id@, off) is None,
        },
{
    let n = s.len();
    let mut i: usize = 0;
    proof {
        assert(s@.skip(0) =~= s@);
    }
    while i < n
        invariant
            n == s@.len(),
            i <= n,
            find_by_offset(s@, id@, off) == find_by_offset(s@.skip(i as int), id@, off),
        decreases n - i,
    {
        if s[i].executing_request_or_group_id.eq(id) && s[i].executing_offset == off {
            proof {
                assert(s@.skip(i as int)[0] == s@[i as int]);
            }
            return Some(&s[i]);
        }
        proof {
            assert(s@.skip(i as int)[0] == s@[i as int]);
            assert(s@.skip(i as int).drop_first() =~= s@.skip(i + 1));
        }
        i += 1;
    }
    proof {
        assert(s@.skip(n as int).len() == 0);
    }
    None
}

/// Counts the menu items with the given executing id.
fn exec_count_for(s: &Vec<ExecutionMenuItem>, id: &String) -> (r: usize)
    ensures
        r == count_for(s@, id@),
        count_for(s@, id@) <= s@.len(),
{
    let n = s.len();
    let mut i: usize = 0;
    let mut c: usize = 0;
    while i < n
        invariant
            n == s@.len(),
            i <= n,
            c == count_for(s@.take(i as int), id@),
            c <= i,
        decreases n - i,
    {
        let ghost takei = s@.take(i as int);
        proof {
            assert(s@.take(i + 1) =~= takei.push(s@[i as int]));
            assert(s@.take(i + 1).drop_last() =~= takei);
        }
        if s[i].executing_request_or_group_id.eq(id) {
            c += 1;
        }
        i += 1;
    }
    proof {
        assert(s@.take(n as int) =~= s@);
    }
    c
}

impl Session {
    /// After a menu rebuild, re-points this session's selected run for the
    /// request and returns it: the same position when the run count of the
    /// previously viewed executing id is unchanged, the first item
    /// otherwise; cleared for an empty menu.
    pub fn check_execution_counter(
        &mut self,
        request_or_group_id: &String,
        old_menu: &Option<Vec<ExecutionMenuItem>>,
        new_menu: &Vec<ExecutionMenuItem>,
    ) -> (r: Option<u64>)
        requires
            old(self).wf(),
        ensures
            final(self).wf(),
            r == spec_checked_exec_ctr(
                if old(self).request_exec_ctrs@.contains_key(request_or_group_id@) {
                    Some(old(self).request_exec_ctrs@[request_or_group_id@])
                } else {
                    Option::<u64>::None
                },
                match old_menu {
                    Some(om) => Some(om@),
                    None => None,
                },
                new_menu@,
            ),
            final(self).request_exec_ctrs@ == (match r {
                Some(c) => old(self).request_exec_ctrs@.insert(request_or_group_id@, c),
                None => old(self).request_exec_ctrs@.remove(request_or_group_id@),
            }),
            *final(self) == (Session {
                request_exec_ctrs: final(self).request_exec_ctrs,
                ..*old(self)
            }),
    {
        let existing: Option<u64> = match self.request_exec_ctrs.get(request_or_group_id) {
            Some(c) => Some(*c),
            None => None,
        };
        let new_exec_ctr: Option<u64> = if new_menu.is_empty() {
            None
        } else {
            let first_ctr = new_menu[0].exec_ctr;
            let chosen: u64 = match (existing, old_menu) {
                (Some(active), Some(om)) => match exec_find_by_ctr(om, active) {
                    Some(a) => {
                        let old_count = exec_count_for(om, &a.executing_request_or_group_id);
                        let new_count = exec_count_for(
                            new_menu,
                            &a.executing_request_or_group_id,
                        );
                        if old_count == new_count {
                            match exec_find_by_offset(
                                new_menu,
                                &a.executing_request_or_group_id,
                                a.executing_offset,
                            ) {
                                Some(b) => b.exec_ctr,
                                None => first_ctr,
                            }
                        } else {
                            first_ctr
                        }
                    },
                    None => first_ctr,
                },
                _ => first_ctr,
            };
            Some(chosen)
        };
        match new_exec_ctr {
            Some(c) => {
                self.request_exec_ctrs.insert(request_or_group_id.clone(), c);
            },
            None => {
                self.request_exec_ctrs.remove(request_or_group_id);
            },
        }
        new_exec_ctr
    }
}

/// The registry of open sessions.
pub struct Sessions {
    pub sessions: StringMap<Session>,
    pub counter: u64,
}

impl Sessions {
    /// Every session id was produced by an earlier counter value, and every
    /// held session is itself well formed.
    pub open spec fn wf(&self) -> bool {
        &&& self.sessions.wf()
        &&& forall|k: Seq<char>|
            #[trigger] self.sessions@.contains_key(k) ==> exists|c: nat|
                c < self.counter && k == session_id_seq(c)
        &&& forall|k: Seq<char>|
            #[trigger] self.sessions@.contains_key(k) ==> self.sessions@[k].wf()
    }

    pub fn new() -> (r: Sessions)
        ensures
            r.wf(),
            r.sessions@ == Map::<Seq<char>, Session>::empty(),
            r.counter == 0,
    {
        Sessions { sessions: StringMap::new(), counter: 0 }
    }

    pub fn count(&self) -> (r: usize)
        requires
            self.wf(),
        ensures
            r == self.sessions@.dom().len(),
    {
        self.sessions.num_entries()
    }

    /// Registers a session under a freshly generated id and returns the id:
    /// `main` for the first session of the process, `main-`N afterwards.
    pub fn add_session(&mut self, session: Session) -> (r: String)
        requires
            old(self).wf(),
            session.wf(),
            old(self).counter < u64::MAX,
        ensures
            final(self).wf(),
            r@ == session_id_seq(old(self).counter as nat),
            !old(self).sessions@.contains_key(r@),
            final(self).sessions@ == old(self).sessions@.insert(r@, session),
            final(self).counter == old(self).counter + 1,
    {
        let session_id = session_id_string(self.counter);
        proof {
            if self.sessions@.contains_key(session_id@) {
                let c = choose|c: nat| c < self.counter && session_id@ == session_id_seq(c);
                lemma_session_id_injective(c, self.counter as nat);
            }
        }
        self.counter = self.counter + 1;
        self.sessions.insert(session_id.clone(), session);
        proof {
            assert forall|k: Seq<char>| #[trigger] final(self).sessions@.contains_key(k) implies
                exists|c: nat| c < final(self).counter && k == session_id_seq(c) by {
                if k == session_id@ {
                    assert((old(self).counter as nat) < final(self).counter && k == session_id_seq(
                        old(self).counter as nat,
                    ));
                } else {
                    let c = choose|c: nat| c < old(self).counter && k == session_id_seq(c);
                    assert(c < final(self).counter && k == session_id_seq(c));
                }
            }
        }
        session_id
    }

    /// Removes a session; fails exactly when the id is unknown.
    pub fn remove_session(&mut self, session_id: &String) -> (r: Result<(), ApicizeAppError>)
        requires
            old(self).wf(),
        ensures
            final(self).wf(),
            match r {
                Ok(()) => {
                    &&& old(self).sessions@.contains_key(session_id@)
                    &&& final(self).sessions@ == old(self).sessions@.remove(session_id@)
                    &&& final(self).counter == old(self).counter
                },
                Err(e) => {
                    &&& *final(self) == *old(self)
                    &&& !old(self).sessions@.contains_key(session_id@)
                    &&& e matches ApicizeAppError::InvalidSession(s) && s@ == session_id@
                },
            },
    {
        match self.sessions.remove(session_id) {
            Some(_) => Ok(()),
            None => {
                proof {
                    assert(old(self).sessions@.remove(session_id@) =~= old(self).sessions@);
                }
                Err(ApicizeAppError::InvalidSession(session_id.clone()))
            },
        }
    }

    /// Looks a session up; fails exactly when the id is unknown.
    pub fn get_session(&self, session_id: &String) -> (r: Result<&Session, ApicizeAppError>)
        requires
            self.wf(),
        ensures
            match r {
                Ok(s) => self.sessions@.contains_key(session_id@) && *s
                    == self.sessions@[session_id@],
                Err(e) => !self.sessions@.contains_key(session_id@) && (
                e matches ApicizeAppError::InvalidSession(s) && s@ == session_id@),
            },
    {
        match self.sessions.get(session_id) {
            Some(s) => Ok(s),
            None => Err(ApicizeAppError::InvalidSession(session_id.clone())),
        }
    }

    /// Whether a session id is registered.
    pub fn has_session(&self, session_id: &String) -> (r: bool)
        requires
            self.wf(),
        ensures
            r == self.sessions@.contains_key(session_id@),
    {
        self.sessions.contains_key(session_id)
    }

    /// Mutable access to a known session.
    pub fn get_session_mut(&mut self, session_id: &String) -> (r: &mut Session)
        requires
            old(self).wf(),
            old(self).sessions@.contains_key(session_id@),
        ensures
            *r == old(self).sessions@[session_id@],
            final(self).sessions@ == old(self).sessions@.insert(session_id@, *final(r)),
            final(self).counter == old(self).counter,
            final(r).wf() ==> final(self).wf(),
    {
        self.sessions.get_mut(session_id)
    }

    /// Re-points a session at another workspace without destroying it.
    pub fn change_workspace(&mut self, session_id: &String, workspace_id: &String) -> (r: Result<
        (),
        ApicizeAppError,
    >)
        requires
            old(self).wf(),
        ensures
            final(self).wf(),
            match r {
                Ok(()) => {
                    &&& old(self).sessions@.contains_key(session_id@)
                    &&& final(self).sessions@.contains_key(session_id@)
                    &&& final(self).sessions@[session_id@].workspace_id@ == workspace_id@
                    &&& final(self).sessions@[session_id@] == (Session {
                        workspace_id: final(self).sessions@[session_id@].workspace_id,
                        ..old(self).sessions@[session_id@]
                    })
                    &&& forall|k: Seq<char>|
                        k != session_id@ ==> (final(self).sessions@.contains_key(k) == old(
                            self,
                        ).sessions@.contains_key(k) && (old(self).sessions@.contains_key(k)
                            ==> #[trigger] final(self).sessions@[k] == old(self).sessions@[k]))
                    &&& final(self).counter == old(self).counter
                },
                Err(e) => {
                    &&& *final(self) == *old(self)
                    &&& !old(self).sessions@.contains_key(session_id@)
                    &&& e matches ApicizeAppError::InvalidSession(s) && s@ == session_id@
                },
            },
    {
        if !self.sessions.contains_key(session_id) {
            return Err(ApicizeAppError::InvalidSession(session_id.clone()));
        }
        let session = self.sessions.get_mut(session_id);
        session.workspace_id = workspace_id.clone();
        Ok(())
    }

    /// The ids of every session bound to the workspace.
    pub fn get_workspace_session_ids(&self, workspace_id: &String) -> (r: Vec<String>)
        requires
            self.wf(),
        ensures
            ids_unique(r@),
            forall|i: int|
                0 <= i < r@.len() ==> self.sessions@.contains_key(#[trigger] r@[i]@)
                    && self.sessions@[r@[i]@].workspace_id@ == workspace_id@,
            forall|k: Seq<char>|
                self.sessions@.contains_key(k) && (#[trigger] self.sessions@[k].workspace_id@)
                    == workspace_id@ ==> id_in(r@, k),
    {
        notification_targets(self, workspace_id, None)
    }
}

/// The session ids a change to the workspace must be broadcast to: every
/// session bound to it, except the optional originating session, which must
/// not receive its own echo.
pub fn notification_targets(
    sessions: &Sessions,
    workspace_id: &String,
    skip_session_id: Option<&String>,
) -> (r: Vec<String>)
    requires
        sessions.wf(),
    ensures
        ids_unique(r@),
        forall|i: int|
            0 <= i < r@.len() ==> sessions.sessions@.contains_key(#[trigger] r@[i]@)
                && sessions.sessions@[r@[i]@].workspace_id@ == workspace_id@ && (
            match skip_session_id {
                Some(skip) => r@[i]@ != skip@,
                None => true,
            }),
        forall|k: Seq<char>|
            sessions.sessions@.contains_key(k) && (#[trigger] sessions.sessions@[k].workspace_id@)
                == workspace_id@ && (match skip_session_id {
                Some(skip) => k != skip@,
                None => true,
            }) ==> id_in(r@, k),
{
    let n = sessions.sessions.num_entries();
    proof {
        sessions.sessions.lemma_kvs();
    }
    let mut out: Vec<String> = Vec::new();
    let mut i: usize = 0;
    while i < n
        invariant
            sessions.wf(),
            n == sessions.sessions.kvs().len(),
            i <= n,
            forall|i2: int, j2: int|
                0 <= i2 < j2 < sessions.sessions.kvs().len() ==> (
                #[trigger] sessions.sessions.kvs()[i2].0@) != (
                #[trigger] sessions.sessions.kvs()[j2].0@),
            forall|j: int|
                0 <= j < sessions.sessions.kvs().len()
                    ==> sessions.sessions@.contains_key(
                    (#[trigger] sessions.sessions.kvs()[j]).0@,
                ) && sessions.sessions@[sessions.sessions.kvs()[j].0@]
                    == sessions.sessions.kvs()[j].1,
            ids_unique(out@),
            forall|k: Seq<char>|
                #[trigger] id_in(out@, k) ==> exists|j: int|
                    0 <= j < i && (#[trigger] sessions.sessions.kvs()[j].0@) == k,
            forall|k: Seq<char>|
                #[trigger] id_in(out@, k) ==> sessions.sessions@.contains_key(k)
                    && sessions.sessions@[k].workspace_id@ == workspace_id@ && (
                match skip_session_id {
                    Some(skip) => k != skip@,
                    None => true,
                }),
            forall|j: int|
                0 <= j < i && sessions.sessions@[(#[trigger] sessions.sessions.kvs()[j]).0@]
                    .workspace_id@ == workspace_id@ && (match skip_session_id {
                    Some(skip) => sessions.sessions.kvs()[j].0@ != skip@,
                    None => true,
                }) ==> id_in(out@, sessions.sessions.kvs()[j].0@),
        decreases n - i,
    {
        let (sid, session) = sessions.sessions.entry_at(i);
        let matches_ws = session.workspace_id.eq(workspace_id);
        let skipped = match skip_session_id {
            Some(skip) => sid.eq(skip),
            None => false,
        };
        if matches_ws && !skipped {
            let ghost out0 = out@;
            proof {
                if id_in(out0, sid@) {
                    let j = choose|j: int|
                        0 <= j < i && (#[trigger] sessions.sessions.kvs()[j].0@) == sid@;
                    assert(sessions.sessions.kvs()[j].0@ == sessions.sessions.kvs()[i as int].0@);
                }
            }
            out.push(sid.clone());
            proof {
                crate::tree::lemma_push_id_membership(out0, out@.last());
            }
        }
        i += 1;
        proof {
            assert forall|k: Seq<char>| #[trigger] id_in(out@, k) implies exists|j: int|
                0 <= j < i && (#[trigger] sessions.sessions.kvs()[j].0@) == k by {
                if id_in(out@, k) {
                    if k == sessions.sessions.kvs()[i - 1].0@ {
                        assert(0 <= i - 1 < i && sessions.sessions.kvs()[i - 1].0@ == k);
                    }
                }
            }
        }
    }
    proof {
        assert forall|k: Seq<char>|
            sessions.sessions@.contains_key(k) && (#[trigger] sessions.sessions@[k].workspace_id@)
                == workspace_id@ && (match skip_session_id {
                Some(skip) => k != skip@,
                None => true,
            }) implies id_in(out@, k) by {
            let j = choose|j: int|
                0 <= j < sessions.sessions.kvs().len() && (
                #[trigger] sessions.sessions.kvs()[j].0@) == k;
            assert(sessions.sessions@[sessions.sessions.kvs()[j].0@].workspace_id@
                == workspace_id@);
        }
        assert forall|i2: int| 0 <= i2 < out@.len() implies sessions.sessions@.contains_key(
            #[trigger] out@[i2]@,
        ) && sessions.sessions@[out@[i2]@].workspace_id@ == workspace_id@ && (
        match skip_session_id {
            Some(skip) => out@[i2]@ != skip@,
            None => true,
        }) by {
            assert(id_in(out@, out@[i2]@)) by {
                assert(out@[i2]@ == out@[i2]@);
            }
        }
    }
    out
}

} // verus!
