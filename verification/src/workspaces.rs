//! The workspace registry: every open API-test collection, keyed by a
//! generated identifier, bundling the entity tree, the parameter
//! collections, the navigation mirror, the execution-result store and the
//! dirty/display metadata.

use crate::correlator::{
    batch_wf, build_result_menu_items as correlate, item_matches, spec_menu_items, CorrelatorBatch,
};
use crate::error::ApicizeAppError;
use crate::exec_state::ExecutionState;
use crate::ids::fresh_id;
use crate::model::{
    title_of, Authorization, Certificate, DataSet, DataSetContent, DataSourceType, EntityType,
    NameValuePair, Proxy, Request, RequestBody, RequestEntry, RequestGroup, Scenario, Selection,
    ValidationState, WorkbookDefaults,
};
use crate::navigation::{
    build_request_forest, entries_mirror, find_nav_entry, forest_mirrors, set_nav_entry,
    Navigation, NavigationEntry, ParamNavigationSection, UpdatedNavigationEntry,
    UpdateWithNavigationResponse,
};
use crate::results::{
    ExecutionMenuItem, ExecutionResultDetail, ExecutionResultSummary, RequestExecution,
    ResultStore,
};
use crate::smap::StringMap;
use crate::tree::{id_in, EntityPosition, Ident, ParamCollection, RequestTree};
use vstd::prelude::*;
use vstd::string::{StrSliceExecFns, StringExecFns};

verus! {

/// An open API-test collection: the entity tree, the parameter
/// collections, and the workbook defaults.
pub struct Workspace {
    pub requests: RequestTree,
    pub scenarios: ParamCollection<Scenario>,
    pub authorizations: ParamCollection<Authorization>,
    pub certificates: ParamCollection<Certificate>,
    pub proxies: ParamCollection<Proxy>,
    pub data: ParamCollection<DataSet>,
    pub defaults: WorkbookDefaults,
}

impl Workspace {
    pub open spec fn wf(&self) -> bool {
        &&& self.requests.wf()
        &&& self.scenarios.wf()
        &&& self.authorizations.wf()
        &&& self.certificates.wf()
        &&& self.proxies.wf()
        &&& self.data.wf()
    }

    /// A blank workspace.
    pub fn new() -> (r: Workspace)
        ensures
            r.wf(),
            r.requests.entities@ == Map::<Seq<char>, RequestEntry>::empty(),
            r.scenarios.entities@ == Map::<Seq<char>, Scenario>::empty(),
            r.authorizations.entities@ == Map::<Seq<char>, Authorization>::empty(),
            r.certificates.entities@ == Map::<Seq<char>, Certificate>::empty(),
            r.proxies.entities@ == Map::<Seq<char>, Proxy>::empty(),
            r.data.entities@ == Map::<Seq<char>, DataSet>::empty(),
            r.defaults.selected_scenario is None,
    {
        Workspace {
            requests: RequestTree::new(),
            scenarios: ParamCollection::new(),
            authorizations: ParamCollection::new(),
            certificates: ParamCollection::new(),
            proxies: ParamCollection::new(),
            data: ParamCollection::new(),
            defaults: WorkbookDefaults::blank(),
        }
    }
}

/// A workspace plus its runtime metadata.
pub struct WorkspaceInfo {
    /// True when modified since the last open or save.
    pub dirty: bool,
    /// True when the user should be warned about public credentials.
    pub warn_on_workspace_creds: bool,
    /// File name the workspace is saved to, empty when new.
    pub file_name: String,
    /// Directory the workspace is saved to.
    pub directory: String,
    /// Display name, empty when new.
    pub display_name: String,
    pub workspace: Workspace,
    pub navigation: Navigation,
    /// Retained execution results.
    pub results: ResultStore,
    /// Cached per-request execution views.
    pub executions: StringMap<RequestExecution>,
    /// Cached data-set materializations.
    pub data_set_content: StringMap<DataSetContent>,
}

impl WorkspaceInfo {
    pub open spec fn wf(&self) -> bool {
        &&& self.workspace.wf()
        &&& self.results.wf()
        &&& self.executions.wf()
        &&& self.data_set_content.wf()
        &&& forall|k: Seq<char>|
            #[trigger] self.results.summaries@.contains_key(k) ==> batch_wf(
                self.results.summaries@[k]@,
            )
    }
}

/// The workspace registry.
pub struct Workspaces {
    pub workspaces: StringMap<WorkspaceInfo>,
}

/// What opening or creating a workspace reports back.
pub struct OpenWorkspaceResult {
    pub workspace_id: String,
    pub directory: String,
    pub display_name: String,
    pub error: Option<String>,
}

/// A request entry returned to the UI, body stripped.
#[derive(Clone, Debug, PartialEq)]
pub enum RequestEntryInfo {
    Request { request: Request },
    Group { group: RequestGroup },
}

/// A request body with its derived MIME info.
#[derive(Clone, Debug, PartialEq)]
pub struct RequestBodyInfo {
    pub id: String,
    pub body: Option<RequestBody>,
    pub body_mime_type: Option<String>,
    pub body_length: Option<u64>,
}

/// MIME info of a body alone.
#[derive(Clone, Debug, PartialEq)]
pub struct BodyMimeInfo {
    pub body_mime_type: Option<String>,
    pub body_length: Option<u64>,
}

/// Save-related status of a workspace.
#[derive(Clone, Debug, PartialEq)]
pub struct WorkspaceSaveStatus {
    pub dirty: bool,
    pub warn_on_workspace_creds: bool,
    pub any_invalid: bool,
    pub file_name: String,
    pub display_name: String,
    pub directory: String,
}

/// The selection lists offered for every parameter kind.
#[derive(Clone, Debug, PartialEq)]
pub struct WorkspaceParameters {
    pub scenarios: Vec<Selection>,
    pub authorizations: Vec<Selection>,
    pub certificates: Vec<Selection>,
    pub proxies: Vec<Selection>,
    pub data: Vec<Selection>,
}

/// What a clipboard payload is requested for.
#[derive(Clone, Debug, PartialEq)]
pub enum ClipboardPayloadRequest {
    RequestBody { request_id: String },
    RequestTest { request_id: String },
    ResponseSummaryJson { exec_ctr: u64 },
    ResponseSummaryCsv { exec_ctr: u64 },
    ResponseBodyRaw { exec_ctr: u64 },
    ResponseBodyPreview { exec_ctr: u64 },
    ResponseDetail { exec_ctr: u64 },
}

/// Data bound for the clipboard or a file.
#[derive(Clone, Debug, PartialEq)]
pub enum PersistableData {
    Text(String),
    Binary(Vec<u8>),
}

/// Execution progress reported to the sessions of a workspace.
#[derive(Clone, Debug, PartialEq)]
pub enum ExecutionEvent {
    Start { execution_state: ExecutionState },
    Cancel { execution_state: ExecutionState },
    Complete(RequestExecution),
}

/// The window title shown for a workspace: its display name (or a new-file
/// marker) with the product name, starred while unsaved changes exist.
pub open spec fn spec_window_title(display_name: Seq<char>, dirty: bool) -> Seq<char> {
    (if display_name.len() == 0 {
        "(New)"@
    } else {
        display_name
    }) + " - Apicize "@ + (if dirty {
        "*"@
    } else {
        ""@
    })
}

pub fn format_window_title(display_name: &String, dirty: bool) -> (r: String)
    ensures
        r@ == spec_window_title(display_name@, dirty),
{
    let mut t = if display_name.as_str().is_empty() {
        "(New)".to_owned()
    } else {
        display_name.clone()
    };
    t.append(" - Apicize ");
    if dirty {
        t.append("*");
    }
    proof {
        if !dirty {
            assert(t@ =~= spec_window_title(display_name@, dirty)) by {
                reveal_strlit("");
            }
        } else {
            assert(t@ =~= spec_window_title(display_name@, dirty));
        }
    }
    t
}

impl Workspaces {
    pub open spec fn wf(&self) -> bool {
        &&& self.workspaces.wf()
        &&& forall|k: Seq<char>|
            #[trigger] self.workspaces@.contains_key(k) ==> self.workspaces@[k].wf()
    }

    pub fn new() -> (r: Workspaces)
        ensures
            r.wf(),
            r.workspaces@ == Map::<Seq<char>, WorkspaceInfo>::empty(),
    {
        Workspaces { workspaces: StringMap::new() }
    }

    /// Drops a workspace; absent ids are ignored.
    pub fn remove_workspace(&mut self, workspace_id: &String)
        requires
            old(self).wf(),
        ensures
            final(self).wf(),
            final(self).workspaces@ == old(self).workspaces@.remove(workspace_id@),
    {
        self.workspaces.remove(workspace_id);
    }

    /// Ids of the other workspaces already holding the file name.
    pub fn find_workspace_by_filename(
        &self,
        file_name: &String,
        skip_workspace_id: Option<&String>,
    ) -> (r: Vec<String>)
        requires
            self.wf(),
        ensures
            crate::tree::ids_unique(r@),
            forall|i: int|
                0 <= i < r@.len() ==> self.workspaces@.contains_key(#[trigger] r@[i]@)
                    && self.workspaces@[r@[i]@].file_name@ == file_name@ && (
                match skip_workspace_id {
                    Some(skip) => r@[i]@ != skip@,
                    None => true,
                }),
            forall|k: Seq<char>|
                self.workspaces@.contains_key(k) && (#[trigger] self.workspaces@[k].file_name@)
                    == file_name@ && (match skip_workspace_id {
                    Some(skip) => k != skip@,
                    None => true,
                }) ==> id_in(r@, k),
    {
        let n = self.workspaces.num_entries();
        proof {
            self.workspaces.lemma_kvs();
        }
        let mut out: Vec<String> = Vec::new();
        let mut i: usize = 0;
        while i < n
            invariant
                self.wf(),
                n == self.workspaces.kvs().len(),
                i <= n,
                forall|i2: int, j2: int|
                    0 <= i2 < j2 < self.workspaces.kvs().len() ==> (
                    #[trigger] self.workspaces.kvs()[i2].0@) != (
                    #[trigger] self.workspaces.kvs()[j2].0@),
                forall|j: int|
                    0 <= j < self.workspaces.kvs().len() ==> self.workspaces@.contains_key(
                        (#[trigger] self.workspaces.kvs()[j]).0@,
                    ) && self.workspaces@[self.workspaces.kvs()[j].0@]
                        == self.workspaces.kvs()[j].1,
                crate::tree::ids_unique(out@),
                forall|k: Seq<char>|
                    #[trigger] id_in(out@, k) ==> exists|j: int|
                        0 <= j < i && (#[trigger] self.workspaces.kvs()[j].0@) == k,
                forall|i2: int|
                    0 <= i2 < out@.len() ==> self.workspaces@.contains_key(#[trigger] out@[i2]@)
                        && self.workspaces@[out@[i2]@].file_name@ == file_name@ && (
                    match skip_workspace_id {
                        Some(skip) => out@[i2]@ != skip@,
                        None => true,
                    }),
                forall|j: int|
                    0 <= j < i && self.workspaces@[(#[trigger] self.workspaces.kvs()[j]).0@]
                        .file_name@ == file_name@ && (match skip_workspace_id {
                        Some(skip) => self.workspaces.kvs()[j].0@ != skip@,
                        None => true,
                    }) ==> id_in(out@, self.workspaces.kvs()[j].0@),
            decreases n - i,
        {
            let (wid, info) = self.workspaces.entry_at(i);
            let matches_file = info.file_name.eq(file_name);
            let skipped = match skip_workspace_id {
                Some(skip) => wid.eq(skip),
                None => false,
            };
            if matches_file && !skipped {
                let ghost out0 = out@;
                proof {
                    if id_in(out0, wid@) {
                        let j = choose|j: int|
                            0 <= j < i && (#[trigger] self.workspaces.kvs()[j].0@) == wid@;
                        assert(self.workspaces.kvs()[j].0@
                            == self.workspaces.kvs()[i as int].0@);
                    }
                }
                out.push(wid.clone());
                proof {
                    crate::tree::lemma_push_id_membership(out0, out@.last());
                    assert(id_in(out@, self.workspaces.kvs()[i as int].0@)) by {
                        assert(out@[out@.len() - 1]@ == self.workspaces.kvs()[i as int].0@);
                    }
                }
            }
            i += 1;
            proof {
                assert forall|k: Seq<char>| #[trigger] id_in(out@, k) implies exists|j: int|
                    0 <= j < i && (#[trigger] self.workspaces.kvs()[j].0@) == k by {
                    if id_in(out@, k) && k == self.workspaces.kvs()[i - 1].0@ {
                        assert(0 <= i - 1 < i && self.workspaces.kvs()[i - 1].0@ == k);
                    }
                }
            }
        }
        proof {
            assert forall|k: Seq<char>|
                self.workspaces@.contains_key(k) && (#[trigger] self.workspaces@[k].file_name@)
                    == file_name@ && (match skip_workspace_id {
                    Some(skip) => k != skip@,
                    None => true,
                }) implies id_in(out@, k) by {
                let j = choose|j: int|
                    0 <= j < self.workspaces.kvs().len() && (
                    #[trigger] self.workspaces.kvs()[j].0@) == k;
            }
        }
        out
    }

    /// Looks a workspace up; fails exactly when the id is unknown.
    pub fn get_workspace_info(&self, workspace_id: &String) -> (r: Result<
        &WorkspaceInfo,
        ApicizeAppError,
    >)
        requires
            self.wf(),
        ensures
            match r {
                Ok(info) => self.workspaces@.contains_key(workspace_id@) && *info
                    == self.workspaces@[workspace_id@],
                Err(e) => !self.workspaces@.contains_key(workspace_id@) && (
                e matches ApicizeAppError::InvalidWorkspace(s) && s@ == workspace_id@),
            },
    {
        match self.workspaces.get(workspace_id) {
            Some(info) => Ok(info),
            None => Err(ApicizeAppError::InvalidWorkspace(workspace_id.clone())),
        }
    }

    /// Whether a workspace id is registered.
    pub fn has_workspace(&self, workspace_id: &String) -> (r: bool)
        requires
            self.wf(),
        ensures
            r == self.workspaces@.contains_key(workspace_id@),
    {
        self.workspaces.contains_key(workspace_id)
    }

    /// Mutable access to a known workspace.
    pub fn get_workspace_info_mut(&mut self, workspace_id: &String) -> (r: &mut WorkspaceInfo)
        requires
            old(self).wf(),
            old(self).workspaces@.contains_key(workspace_id@),
        ensures
            *r == old(self).workspaces@[workspace_id@],
            final(self).workspaces@ == old(self).workspaces@.insert(workspace_id@, *final(r)),
            final(r).wf() ==> final(self).wf(),
            *final(r) == old(self).workspaces@[workspace_id@] ==> registry_unchanged(
                *final(self),
                *old(self),
            ),
    {
        self.workspaces.get_mut(workspace_id)
    }

    /// The dirty flag of a workspace.
    pub fn get_dirty(&self, workspace_id: &String) -> (r: Result<bool, ApicizeAppError>)
        requires
            self.wf(),
        ensures
            match r {
                Ok(d) => self.workspaces@.contains_key(workspace_id@) && d
                    == self.workspaces@[workspace_id@].dirty,
                Err(e) => !self.workspaces@.contains_key(workspace_id@) && (
                e matches ApicizeAppError::InvalidWorkspace(s) && s@ == workspace_id@),
            },
    {
        match self.get_workspace_info(workspace_id) {
            Ok(info) => Ok(info.dirty),
            Err(e) => Err(e),
        }
    }
}


impl Workspaces {
    /// Adds a fresh scenario.  Placed beside `relative_to` when given;
    /// cloned from an existing one when `clone_from` names it.
    pub fn add_scenario(
        &mut self,
        workspace_id: &String,
        relative_to: Option<&String>,
        relative_position: Option<EntityPosition>,
        clone_from_id: Option<&String>,
    ) -> (r: Result<String, ApicizeAppError>)
        requires
            old(self).wf(),
        ensures
            final(self).wf(),
            match r {
                Ok(id) => {
                    &&& old(self).workspaces@.contains_key(workspace_id@)
                    &&& final(self).workspaces@.dom() == old(self).workspaces@.dom()
                    &&& (forall|k: Seq<char>|
                        k != workspace_id@ && old(self).workspaces@.contains_key(k)
                            ==> (#[trigger] final(self).workspaces@[k]) == old(self).workspaces@[k])
                    &&& final(self).workspaces@[workspace_id@].dirty
                    &&& !old(self).workspaces@[workspace_id@].workspace.scenarios.entities@
                        .contains_key(id@)
                    &&& final(self).workspaces@[workspace_id@].workspace.scenarios.entities@
                        .contains_key(id@)
                    &&& final(self).workspaces@[workspace_id@].workspace.scenarios.entities@.dom()
                        == old(self).workspaces@[workspace_id@].workspace.scenarios.entities@
                        .dom().insert(id@)
                    &&& (match clone_from_id {
                        Some(other) => old(self).workspaces@[workspace_id@].workspace.scenarios.entities@.contains_key(
                            other@,
                        ),
                        None => true,
                    })
                },
                Err(e) => registry_unchanged(*final(self), *old(self)) && (match e {
                    ApicizeAppError::InvalidWorkspace(s) => s@ == workspace_id@ && !old(self).workspaces@.contains_key(workspace_id@),
                    ApicizeAppError::InvalidScenario(_) => true,
                    ApicizeAppError::InvalidOperation(_) => true,
                    _ => false,
                }),
            },
    {
        if !self.has_workspace(workspace_id) {
            return Err(ApicizeAppError::InvalidWorkspace(workspace_id.clone()));
        }
        let info = self.get_workspace_info_mut(workspace_id);
        let id = fresh_id();
        let entity = match clone_from_id {
            Some(other_id) => match info.workspace.scenarios.get(other_id) {
                Some(other) => other.clone_as_new(id.clone()),
                None => {
                    return Err(ApicizeAppError::InvalidScenario(other_id.clone()));
                },
            },
            None => Scenario::blank(id.clone(), String::new()),
        };
        match info.workspace.scenarios.add(entity, relative_to, relative_position) {
            Ok(()) => {
                info.dirty = true;
                Ok(id)
            },
            Err(()) => Err(ApicizeAppError::InvalidOperation(
                "the scenario could not be placed".to_owned(),
            )),
        }
    }

    /// Deletes a scenario and its navigation entry; fails exactly when
    /// the workspace or the scenario is unknown.
    pub fn delete_scenario(&mut self, workspace_id: &String, entity_id: &String) -> (r: Result<
        (),
        ApicizeAppError,
    >)
        requires
            old(self).wf(),
        ensures
            final(self).wf(),
            match r {
                Ok(()) => {
                    &&& old(self).workspaces@.contains_key(workspace_id@)
                    &&& final(self).workspaces@.dom() == old(self).workspaces@.dom()
                    &&& (forall|k: Seq<char>|
                        k != workspace_id@ && old(self).workspaces@.contains_key(k)
                            ==> (#[trigger] final(self).workspaces@[k]) == old(self).workspaces@[k])
                    &&& final(self).workspaces@[workspace_id@].dirty
                    &&& old(self).workspaces@[workspace_id@].workspace.scenarios.entities@
                        .contains_key(entity_id@)
                    &&& final(self).workspaces@[workspace_id@].workspace.scenarios.entities@ == old(self).workspaces@[workspace_id@].workspace.scenarios.entities@.remove(entity_id@)
                },
                Err(e) => registry_unchanged(*final(self), *old(self)) && (match e {
                    ApicizeAppError::InvalidWorkspace(s) => s@ == workspace_id@ && !old(self).workspaces@.contains_key(workspace_id@),
                    ApicizeAppError::InvalidScenario(s) => s@ == entity_id@ && old(self).workspaces@.contains_key(workspace_id@) && !old(self).workspaces@[workspace_id@].workspace.scenarios.entities@.contains_key(
                        entity_id@,
                    ),
                    _ => false,
                }),
            },
    {
        if !self.has_workspace(workspace_id) {
            return Err(ApicizeAppError::InvalidWorkspace(workspace_id.clone()));
        }
        let info = self.get_workspace_info_mut(workspace_id);
        if !info.workspace.scenarios.entities.contains_key(entity_id) {
            return Err(ApicizeAppError::InvalidScenario(entity_id.clone()));
        }
        info.dirty = true;
        info.workspace.scenarios.remove(entity_id);
        info.navigation.scenarios.delete_entry(entity_id);
        Ok(())
    }

    /// Moves a scenario beside another one; fails exactly when an id is
    /// unknown.
    pub fn move_scenario(
        &mut self,
        workspace_id: &String,
        entity_id: &String,
        relative_to: &String,
        relative_position: EntityPosition,
    ) -> (r: Result<bool, ApicizeAppError>)
        requires
            old(self).wf(),
        ensures
            final(self).wf(),
            match r {
                Ok(moved) => {
                    &&& old(self).workspaces@.contains_key(workspace_id@)
                    &&& final(self).workspaces@.dom() == old(self).workspaces@.dom()
                    &&& final(self).workspaces@[workspace_id@].workspace.scenarios.entities@ == old(self).workspaces@[workspace_id@].workspace.scenarios.entities@
                    &&& (moved <==> entity_id@ != relative_to@)
                },
                Err(e) => registry_unchanged(*final(self), *old(self)) && (match e {
                    ApicizeAppError::InvalidWorkspace(s) => s@ == workspace_id@ && !old(self).workspaces@.contains_key(workspace_id@),
                    ApicizeAppError::InvalidScenario(_) => true,
                    _ => false,
                }),
            },
    {
        if !self.has_workspace(workspace_id) {
            return Err(ApicizeAppError::InvalidWorkspace(workspace_id.clone()));
        }
        let info = self.get_workspace_info_mut(workspace_id);
        match info.workspace.scenarios.move_entity(entity_id, relative_to, relative_position) {
            Ok(moved) => Ok(moved),
            Err(()) => Err(ApicizeAppError::InvalidScenario(entity_id.clone())),
        }
    }

    /// Looks a scenario up; fails exactly when an id is unknown.
    pub fn get_scenario(&self, workspace_id: &String, entity_id: &String) -> (r: Result<
        &Scenario,
        ApicizeAppError,
    >)
        requires
            self.wf(),
        ensures
            match r {
                Ok(v) => self.workspaces@.contains_key(workspace_id@)
                    && self.workspaces@[workspace_id@].workspace.scenarios.entities@.contains_key(
                    entity_id@,
                ) && *v == self.workspaces@[workspace_id@].workspace.scenarios.entities@[entity_id@],
                Err(e) => (match e {
                    ApicizeAppError::InvalidWorkspace(s) => s@ == workspace_id@
                        && !self.workspaces@.contains_key(workspace_id@),
                    ApicizeAppError::InvalidScenario(s) => s@ == entity_id@
                        && self.workspaces@.contains_key(workspace_id@)
                        && !self.workspaces@[workspace_id@].workspace.scenarios.entities@
                        .contains_key(entity_id@),
                    _ => false,
                }),
            },
    {
        let info = match self.get_workspace_info(workspace_id) {
            Ok(info) => info,
            Err(e) => {
                return Err(e);
            },
        };
        match info.workspace.scenarios.get(entity_id) {
            Some(v) => Ok(v),
            None => Err(ApicizeAppError::InvalidScenario(entity_id.clone())),
        }
    }

    /// The display title of a scenario.
    pub fn get_scenario_title(&self, workspace_id: &String, entity_id: &String) -> (r: Result<
        String,
        ApicizeAppError,
    >)
        requires
            self.wf(),
        ensures
            match r {
                Ok(t) => self.workspaces@.contains_key(workspace_id@)
                    && self.workspaces@[workspace_id@].workspace.scenarios.entities@.contains_key(
                    entity_id@,
                ) && t@ == title_of(
                    self.workspaces@[workspace_id@].workspace.scenarios.entities@[entity_id@].sname(),
                ),
                Err(e) => (match e {
                    ApicizeAppError::InvalidWorkspace(s) => s@ == workspace_id@
                        && !self.workspaces@.contains_key(workspace_id@),
                    ApicizeAppError::InvalidScenario(s) => s@ == entity_id@
                        && self.workspaces@.contains_key(workspace_id@)
                        && !self.workspaces@[workspace_id@].workspace.scenarios.entities@
                        .contains_key(entity_id@),
                    _ => false,
                }),
            },
    {
        match self.get_scenario(workspace_id, entity_id) {
            Ok(v) => Ok(v.title()),
            Err(e) => Err(e),
        }
    }
}


impl Workspaces {
    /// Adds a fresh authorization.  Placed beside `relative_to` when given;
    /// cloned from an existing one when `clone_from` names it.
    pub fn add_authorization(
        &mut self,
        workspace_id: &String,
        relative_to: Option<&String>,
        relative_position: Option<EntityPosition>,
        clone_from_id: Option<&String>,
    ) -> (r: Result<String, ApicizeAppError>)
        requires
            old(self).wf(),
        ensures
            final(self).wf(),
            match r {
                Ok(id) => {
                    &&& old(self).workspaces@.contains_key(workspace_id@)
                    &&& final(self).workspaces@.dom() == old(self).workspaces@.dom()
                    &&& (forall|k: Seq<char>|
                        k != workspace_id@ && old(self).workspaces@.contains_key(k)
                            ==> (#[trigger] final(self).workspaces@[k]) == old(self).workspaces@[k])
                    &&& final(self).workspaces@[workspace_id@].dirty
                    &&& !old(self).workspaces@[workspace_id@].workspace.authorizations.entities@
                        .contains_key(id@)
                    &&& final(self).workspaces@[workspace_id@].workspace.authorizations.entities@
                        .contains_key(id@)
                    &&& final(self).workspaces@[workspace_id@].workspace.authorizations.entities@.dom()
                        == old(self).workspaces@[workspace_id@].workspace.authorizations.entities@
                        .dom().insert(id@)
                    &&& (match clone_from_id {
                        Some(other) => old(self).workspaces@[workspace_id@].workspace.authorizations.entities@.contains_key(
                            other@,
                        ),
                        None => true,
                    })
                },
                Err(e) => registry_unchanged(*final(self), *old(self)) && (match e {
                    ApicizeAppError::InvalidWorkspace(s) => s@ == workspace_id@ && !old(self).workspaces@.contains_key(workspace_id@),
                    ApicizeAppError::InvalidAuthorization(_) => true,
                    ApicizeAppError::InvalidOperation(_) => true,
                    _ => false,
                }),
            },
    {
        if !self.has_workspace(workspace_id) {
            return Err(ApicizeAppError::InvalidWorkspace(workspace_id.clone()));
        }
        let info = self.get_workspace_info_mut(workspace_id);
        let id = fresh_id();
        let entity = match clone_from_id {
            Some(other_id) => match info.workspace.authorizations.get(other_id) {
                Some(other) => other.clone_as_new(id.clone()),
                None => {
                    return Err(ApicizeAppError::InvalidAuthorization(other_id.clone()));
                },
            },
            None => Authorization::blank(id.clone(), String::new()),
        };
        match info.workspace.authorizations.add(entity, relative_to, relative_position) {
            Ok(()) => {
                info.dirty = true;
                Ok(id)
            },
            Err(()) => Err(ApicizeAppError::InvalidOperation(
                "the authorization could not be placed".to_owned(),
            )),
        }
    }

    /// Deletes a authorization and its navigation entry; fails exactly when
    /// the workspace or the authorization is unknown.
    pub fn delete_authorization(&mut self, workspace_id: &String, entity_id: &String) -> (r: Result<
        (),
        ApicizeAppError,
    >)
        requires
            old(self).wf(),
        ensures
            final(self).wf(),
            match r {
                Ok(()) => {
                    &&& old(self).workspaces@.contains_key(workspace_id@)
                    &&& final(self).workspaces@.dom() == old(self).workspaces@.dom()
                    &&& (forall|k: Seq<char>|
                        k != workspace_id@ && old(self).workspaces@.contains_key(k)
                            ==> (#[trigger] final(self).workspaces@[k]) == old(self).workspaces@[k])
                    &&& final(self).workspaces@[workspace_id@].dirty
                    &&& old(self).workspaces@[workspace_id@].workspace.authorizations.entities@
                        .contains_key(entity_id@)
                    &&& final(self).workspaces@[workspace_id@].workspace.authorizations.entities@ == old(self).workspaces@[workspace_id@].workspace.authorizations.entities@.remove(entity_id@)
                },
                Err(e) => registry_unchanged(*final(self), *old(self)) && (match e {
                    ApicizeAppError::InvalidWorkspace(s) => s@ == workspace_id@ && !old(self).workspaces@.contains_key(workspace_id@),
                    ApicizeAppError::InvalidAuthorization(s) => s@ == entity_id@ && old(self).workspaces@.contains_key(workspace_id@) && !old(self).workspaces@[workspace_id@].workspace.authorizations.entities@.contains_key(
                        entity_id@,
                    ),
                    _ => false,
                }),
            },
    {
        if !self.has_workspace(workspace_id) {
            return Err(ApicizeAppError::InvalidWorkspace(workspace_id.clone()));
        }
        let info = self.get_workspace_info_mut(workspace_id);
        if !info.workspace.authorizations.entities.contains_key(entity_id) {
            return Err(ApicizeAppError::InvalidAuthorization(entity_id.clone()));
        }
        info.dirty = true;
        info.workspace.authorizations.remove(entity_id);
        info.navigation.authorizations.delete_entry(entity_id);
        Ok(())
    }

    /// Moves a authorization beside another one; fails exactly when an id is
    /// unknown.
    pub fn move_authorization(
        &mut self,
        workspace_id: &String,
        entity_id: &String,
        relative_to: &String,
        relative_position: EntityPosition,
    ) -> (r: Result<bool, ApicizeAppError>)
        requires
            old(self).wf(),
        ensures
            final(self).wf(),
            match r {
                Ok(moved) => {
                    &&& old(self).workspaces@.contains_key(workspace_id@)
                    &&& final(self).workspaces@.dom() == old(self).workspaces@.dom()
                    &&& final(self).workspaces@[workspace_id@].workspace.authorizations.entities@ == old(self).workspaces@[workspace_id@].workspace.authorizations.entities@
                    &&& (moved <==> entity_id@ != relative_to@)
                },
                Err(e) => registry_unchanged(*final(self), *old(self)) && (match e {
                    ApicizeAppError::InvalidWorkspace(s) => s@ == workspace_id@ && !old(self).workspaces@.contains_key(workspace_id@),
                    ApicizeAppError::InvalidAuthorization(_) => true,
                    _ => false,
                }),
            },
    {
        if !self.has_workspace(workspace_id) {
            return Err(ApicizeAppError::InvalidWorkspace(workspace_id.clone()));
        }
        let info = self.get_workspace_info_mut(workspace_id);
        match info.workspace.authorizations.move_entity(entity_id, relative_to, relative_position) {
            Ok(moved) => Ok(moved),
            Err(()) => Err(ApicizeAppError::InvalidAuthorization(entity_id.clone())),
        }
    }

    /// Looks a authorization up; fails exactly when an id is unknown.
    pub fn get_authorization(&self, workspace_id: &String, entity_id: &String) -> (r: Result<
        &Authorization,
        ApicizeAppError,
    >)
        requires
            self.wf(),
        ensures
            match r {
                Ok(v) => self.workspaces@.contains_key(workspace_id@)
                    && self.workspaces@[workspace_id@].workspace.authorizations.entities@.contains_key(
                    entity_id@,
                ) && *v == self.workspaces@[workspace_id@].workspace.authorizations.entities@[entity_id@],
                Err(e) => (match e {
                    ApicizeAppError::InvalidWorkspace(s) => s@ == workspace_id@
                        && !self.workspaces@.contains_key(workspace_id@),
                    ApicizeAppError::InvalidAuthorization(s) => s@ == entity_id@
                        && self.workspaces@.contains_key(workspace_id@)
                        && !self.workspaces@[workspace_id@].workspace.authorizations.entities@
                        .contains_key(entity_id@),
                    _ => false,
                }),
            },
    {
        let info = match self.get_workspace_info(workspace_id) {
            Ok(info) => info,
            Err(e) => {
                return Err(e);
            },
        };
        match info.workspace.authorizations.get(entity_id) {
            Some(v) => Ok(v),
            None => Err(ApicizeAppError::InvalidAuthorization(entity_id.clone())),
        }
    }

    /// The display title of a authorization.
    pub fn get_authorization_title(&self, workspace_id: &String, entity_id: &String) -> (r: Result<
        String,
        ApicizeAppError,
    >)
        requires
            self.wf(),
        ensures
            match r {
                Ok(t) => self.workspaces@.contains_key(workspace_id@)
                    && self.workspaces@[workspace_id@].workspace.authorizations.entities@.contains_key(
                    entity_id@,
                ) && t@ == title_of(
                    self.workspaces@[workspace_id@].workspace.authorizations.entities@[entity_id@].sname(),
                ),
                Err(e) => (match e {
                    ApicizeAppError::InvalidWorkspace(s) => s@ == workspace_id@
                        && !self.workspaces@.contains_key(workspace_id@),
                    ApicizeAppError::InvalidAuthorization(s) => s@ == entity_id@
                        && self.workspaces@.contains_key(workspace_id@)
                        && !self.workspaces@[workspace_id@].workspace.authorizations.entities@
                        .contains_key(entity_id@),
                    _ => false,
                }),
            },
    {
        match self.get_authorization(workspace_id, entity_id) {
            Ok(v) => Ok(v.title()),
            Err(e) => Err(e),
        }
    }
}


impl Workspaces {
    /// Adds a fresh certificate.  Placed beside `relative_to` when given;
    /// cloned from an existing one when `clone_from` names it.
    pub fn add_certificate(
        &mut self,
        workspace_id: &String,
        relative_to: Option<&String>,
        relative_position: Option<EntityPosition>,
        clone_from_id: Option<&String>,
    ) -> (r: Result<String, ApicizeAppError>)
        requires
            old(self).wf(),
        ensures
            final(self).wf(),
            match r {
                Ok(id) => {
                    &&& old(self).workspaces@.contains_key(workspace_id@)
                    &&& final(self).workspaces@.dom() == old(self).workspaces@.dom()
                    &&& (forall|k: Seq<char>|
                        k != workspace_id@ && old(self).workspaces@.contains_key(k)
                            ==> (#[trigger] final(self).workspaces@[k]) == old(self).workspaces@[k])
                    &&& final(self).workspaces@[workspace_id@].dirty
                    &&& !old(self).workspaces@[workspace_id@].workspace.certificates.entities@
                        .contains_key(id@)
                    &&& final(self).workspaces@[workspace_id@].workspace.certificates.entities@
                        .contains_key(id@)
                    &&& final(self).workspaces@[workspace_id@].workspace.certificates.entities@.dom()
                        == old(self).workspaces@[workspace_id@].workspace.certificates.entities@
                        .dom().insert(id@)
                    &&& (match clone_from_id {
                        Some(other) => old(self).workspaces@[workspace_id@].workspace.certificates.entities@.contains_key(
                            other@,
                        ),
                        None => true,
                    })
                },
                Err(e) => registry_unchanged(*final(self), *old(self)) && (match e {
                    ApicizeAppError::InvalidWorkspace(s) => s@ == workspace_id@ && !old(self).workspaces@.contains_key(workspace_id@),
                    ApicizeAppError::InvalidCertificate(_) => true,
                    ApicizeAppError::InvalidOperation(_) => true,
                    _ => false,
                }),
            },
    {
        if !self.has_workspace(workspace_id) {
            return Err(ApicizeAppError::InvalidWorkspace(workspace_id.clone()));
        }
        let info = self.get_workspace_info_mut(workspace_id);
        let id = fresh_id();
        let entity = match clone_from_id {
            Some(other_id) => match info.workspace.certificates.get(other_id) {
                Some(other) => other.clone_as_new(id.clone()),
                None => {
                    return Err(ApicizeAppError::InvalidCertificate(other_id.clone()));
                },
            },
            None => Certificate::blank(id.clone(), String::new()),
        };
        match info.workspace.certificates.add(entity, relative_to, relative_position) {
            Ok(()) => {
                info.dirty = true;
                Ok(id)
            },
            Err(()) => Err(ApicizeAppError::InvalidOperation(
                "the certificate could not be placed".to_owned(),
            )),
        }
    }

    /// Deletes a certificate and its navigation entry; fails exactly when
    /// the workspace or the certificate is unknown.
    pub fn delete_certificate(&mut self, workspace_id: &String, entity_id: &String) -> (r: Result<
        (),
        ApicizeAppError,
    >)
        requires
            old(self).wf(),
        ensures
            final(self).wf(),
            match r {
                Ok(()) => {
                    &&& old(self).workspaces@.contains_key(workspace_id@)
                    &&& final(self).workspaces@.dom() == old(self).workspaces@.dom()
                    &&& (forall|k: Seq<char>|
                        k != workspace_id@ && old(self).workspaces@.contains_key(k)
                            ==> (#[trigger] final(self).workspaces@[k]) == old(self).workspaces@[k])
                    &&& final(self).workspaces@[workspace_id@].dirty
                    &&& old(self).workspaces@[workspace_id@].workspace.certificates.entities@
                        .contains_key(entity_id@)
                    &&& final(self).workspaces@[workspace_id@].workspace.certificates.entities@ == old(self).workspaces@[workspace_id@].workspace.certificates.entities@.remove(entity_id@)
                },
                Err(e) => registry_unchanged(*final(self), *old(self)) && (match e {
                    ApicizeAppError::InvalidWorkspace(s) => s@ == workspace_id@ && !old(self).workspaces@.contains_key(workspace_id@),
                    ApicizeAppError::InvalidCertificate(s) => s@ == entity_id@ && old(self).workspaces@.contains_key(workspace_id@) && !old(self).workspaces@[workspace_id@].workspace.certificates.entities@.contains_key(
                        entity_id@,
                    ),
                    _ => false,
                }),
            },
    {
        if !self.has_workspace(workspace_id) {
            return Err(ApicizeAppError::InvalidWorkspace(workspace_id.clone()));
        }
        let info = self.get_workspace_info_mut(workspace_id);
        if !info.workspace.certificates.entities.contains_key(entity_id) {
            return Err(ApicizeAppError::InvalidCertificate(entity_id.clone()));
        }
        info.dirty = true;
        info.workspace.certificates.remove(entity_id);
        info.navigation.certificates.delete_entry(entity_id);
        Ok(())
    }

    /// Moves a certificate beside another one; fails exactly when an id is
    /// unknown.
    pub fn move_certificate(
        &mut self,
        workspace_id: &String,
        entity_id: &String,
        relative_to: &String,
        relative_position: EntityPosition,
    ) -> (r: Result<bool, ApicizeAppError>)
        requires
            old(self).wf(),
        ensures
            final(self).wf(),
            match r {
                Ok(moved) => {
                    &&& old(self).workspaces@.contains_key(workspace_id@)
                    &&& final(self).workspaces@.dom() == old(self).workspaces@.dom()
                    &&& final(self).workspaces@[workspace_id@].workspace.certificates.entities@ == old(self).workspaces@[workspace_id@].workspace.certificates.entities@
                    &&& (moved <==> entity_id@ != relative_to@)
                },
                Err(e) => registry_unchanged(*final(self), *old(self)) && (match e {
                    ApicizeAppError::InvalidWorkspace(s) => s@ == workspace_id@ && !old(self).workspaces@.contains_key(workspace_id@),
                    ApicizeAppError::InvalidCertificate(_) => true,
                    _ => false,
                }),
            },
    {
        if !self.has_workspace(workspace_id) {
            return Err(ApicizeAppError::InvalidWorkspace(workspace_id.clone()));
        }
        let info = self.get_workspace_info_mut(workspace_id);
        match info.workspace.certificates.move_entity(entity_id, relative_to, relative_position) {
            Ok(moved) => Ok(moved),
            Err(()) => Err(ApicizeAppError::InvalidCertificate(entity_id.clone())),
        }
    }

    /// Looks a certificate up; fails exactly when an id is unknown.
    pub fn get_certificate(&self, workspace_id: &String, entity_id: &String) -> (r: Result<
        &Certificate,
        ApicizeAppError,
    >)
        requires
            self.wf(),
        ensures
            match r {
                Ok(v) => self.workspaces@.contains_key(workspace_id@)
                    && self.workspaces@[workspace_id@].workspace.certificates.entities@.contains_key(
                    entity_id@,
                ) && *v == self.workspaces@[workspace_id@].workspace.certificates.entities@[entity_id@],
                Err(e) => (match e {
                    ApicizeAppError::InvalidWorkspace(s) => s@ == workspace_id@
                        && !self.workspaces@.contains_key(workspace_id@),
                    ApicizeAppError::InvalidCertificate(s) => s@ == entity_id@
                        && self.workspaces@.contains_key(workspace_id@)
                        && !self.workspaces@[workspace_id@].workspace.certificates.entities@
                        .contains_key(entity_id@),
                    _ => false,
                }),
            },
    {
        let info = match self.get_workspace_info(workspace_id) {
            Ok(info) => info,
            Err(e) => {
                return Err(e);
            },
        };
        match info.workspace.certificates.get(entity_id) {
            Some(v) => Ok(v),
            None => Err(ApicizeAppError::InvalidCertificate(entity_id.clone())),
        }
    }

    /// The display title of a certificate.
    pub fn get_certificate_title(&self, workspace_id: &String, entity_id: &String) -> (r: Result<
        String,
        ApicizeAppError,
    >)
        requires
            self.wf(),
        ensures
            match r {
                Ok(t) => self.workspaces@.contains_key(workspace_id@)
                    && self.workspaces@[workspace_id@].workspace.certificates.entities@.contains_key(
                    entity_id@,
                ) && t@ == title_of(
                    self.workspaces@[workspace_id@].workspace.certificates.entities@[entity_id@].sname(),
                ),
                Err(e) => (match e {
                    ApicizeAppError::InvalidWorkspace(s) => s@ == workspace_id@
                        && !self.workspaces@.contains_key(workspace_id@),
                    ApicizeAppError::InvalidCertificate(s) => s@ == entity_id@
                        && self.workspaces@.contains_key(workspace_id@)
                        && !self.workspaces@[workspace_id@].workspace.certificates.entities@
                        .contains_key(entity_id@),
                    _ => false,
                }),
            },
    {
        match self.get_certificate(workspace_id, entity_id) {
            Ok(v) => Ok(v.title()),
            Err(e) => Err(e),
        }
    }
}


impl Workspaces {
    /// Adds a fresh proxy.  Placed beside `relative_to` when given;
    /// cloned from an existing one when `clone_from` names it.
    pub fn add_proxy(
        &mut self,
        workspace_id: &String,
        relative_to: Option<&String>,
        relative_position: Option<EntityPosition>,
        clone_from_id: Option<&String>,
    ) -> (r: Result<String, ApicizeAppError>)
        requires
            old(self).wf(),
        ensures
            final(self).wf(),
            match r {
                Ok(id) => {
                    &&& old(self).workspaces@.contains_key(workspace_id@)
                    &&& final(self).workspaces@.dom() == old(self).workspaces@.dom()
                    &&& (forall|k: Seq<char>|
                        k != workspace_id@ && old(self).workspaces@.contains_key(k)
                            ==> (#[trigger] final(self).workspaces@[k]) == old(self).workspaces@[k])
                    &&& final(self).workspaces@[workspace_id@].dirty
                    &&& !old(self).workspaces@[workspace_id@].workspace.proxies.entities@
                        .contains_key(id@)
                    &&& final(self).workspaces@[workspace_id@].workspace.proxies.entities@
                        .contains_key(id@)
                    &&& final(self).workspaces@[workspace_id@].workspace.proxies.entities@.dom()
                        == old(self).workspaces@[workspace_id@].workspace.proxies.entities@
                        .dom().insert(id@)
                    &&& (match clone_from_id {
                        Some(other) => old(self).workspaces@[workspace_id@].workspace.proxies.entities@.contains_key(
                            other@,
                        ),
                        None => true,
                    })
                },
                Err(e) => registry_unchanged(*final(self), *old(self)) && (match e {
                    ApicizeAppError::InvalidWorkspace(s) => s@ == workspace_id@ && !old(self).workspaces@.contains_key(workspace_id@),
                    ApicizeAppError::InvalidProxy(_) => true,
                    ApicizeAppError::InvalidOperation(_) => true,
                    _ => false,
                }),
            },
    {
        if !self.has_workspace(workspace_id) {
            return Err(ApicizeAppError::InvalidWorkspace(workspace_id.clone()));
        }
        let info = self.get_workspace_info_mut(workspace_id);
        let id = fresh_id();
        let entity = match clone_from_id {
            Some(other_id) => match info.workspace.proxies.get(other_id) {
                Some(other) => other.clone_as_new(id.clone()),
                None => {
                    return Err(ApicizeAppError::InvalidProxy(other_id.clone()));
                },
            },
            None => Proxy::blank(id.clone(), String::new()),
        };
        match info.workspace.proxies.add(entity, relative_to, relative_position) {
            Ok(()) => {
                info.dirty = true;
                Ok(id)
            },
            Err(()) => Err(ApicizeAppError::InvalidOperation(
                "the proxy could not be placed".to_owned(),
            )),
        }
    }

    /// Deletes a proxy and its navigation entry; fails exactly when
    /// the workspace or the proxy is unknown.
    pub fn delete_proxy(&mut self, workspace_id: &String, entity_id: &String) -> (r: Result<
        (),
        ApicizeAppError,
    >)
        requires
            old(self).wf(),
        ensures
            final(self).wf(),
            match r {
                Ok(()) => {
                    &&& old(self).workspaces@.contains_key(workspace_id@)
                    &&& final(self).workspaces@.dom() == old(self).workspaces@.dom()
                    &&& (forall|k: Seq<char>|
                        k != workspace_id@ && old(self).workspaces@.contains_key(k)
                            ==> (#[trigger] final(self).workspaces@[k]) == old(self).workspaces@[k])
                    &&& final(self).workspaces@[workspace_id@].dirty
                    &&& old(self).workspaces@[workspace_id@].workspace.proxies.entities@
                        .contains_key(entity_id@)
                    &&& final(self).workspaces@[workspace_id@].workspace.proxies.entities@ == old(self).workspaces@[workspace_id@].workspace.proxies.entities@.remove(entity_id@)
                },
                Err(e) => registry_unchanged(*final(self), *old(self)) && (match e {
                    ApicizeAppError::InvalidWorkspace(s) => s@ == workspace_id@ && !old(self).workspaces@.contains_key(workspace_id@),
                    ApicizeAppError::InvalidProxy(s) => s@ == entity_id@ && old(self).workspaces@.contains_key(workspace_id@) && !old(self).workspaces@[workspace_id@].workspace.proxies.entities@.contains_key(
                        entity_id@,
                    ),
                    _ => false,
                }),
            },
    {
        if !self.has_workspace(workspace_id) {
            return Err(ApicizeAppError::InvalidWorkspace(workspace_id.clone()));
        }
        let info = self.get_workspace_info_mut(workspace_id);
        if !info.workspace.proxies.entities.contains_key(entity_id) {
            return Err(ApicizeAppError::InvalidProxy(entity_id.clone()));
        }
        info.dirty = true;
        info.workspace.proxies.remove(entity_id);
        info.navigation.proxies.delete_entry(entity_id);
        Ok(())
    }

    /// Moves a proxy beside another one; fails exactly when an id is
    /// unknown.
    pub fn move_proxy(
        &mut self,
        workspace_id: &String,
        entity_id: &String,
        relative_to: &String,
        relative_position: EntityPosition,
    ) -> (r: Result<bool, ApicizeAppError>)
        requires
            old(self).wf(),
        ensures
            final(self).wf(),
            match r {
                Ok(moved) => {
                    &&& old(self).workspaces@.contains_key(workspace_id@)
                    &&& final(self).workspaces@.dom() == old(self).workspaces@.dom()
                    &&& final(self).workspaces@[workspace_id@].workspace.proxies.entities@ == old(self).workspaces@[workspace_id@].workspace.proxies.entities@
                    &&& (moved <==> entity_id@ != relative_to@)
                },
                Err(e) => registry_unchanged(*final(self), *old(self)) && (match e {
                    ApicizeAppError::InvalidWorkspace(s) => s@ == workspace_id@ && !old(self).workspaces@.contains_key(workspace_id@),
                    ApicizeAppError::InvalidProxy(_) => true,
                    _ => false,
                }),
            },
    {
        if !self.has_workspace(workspace_id) {
            return Err(ApicizeAppError::InvalidWorkspace(workspace_id.clone()));
        }
        let info = self.get_workspace_info_mut(workspace_id);
        match info.workspace.proxies.move_entity(entity_id, relative_to, relative_position) {
            Ok(moved) => Ok(moved),
            Err(()) => Err(ApicizeAppError::InvalidProxy(entity_id.clone())),
        }
    }

    /// Looks a proxy up; fails exactly when an id is unknown.
    pub fn get_proxy(&self, workspace_id: &String, entity_id: &String) -> (r: Result<
        &Proxy,
        ApicizeAppError,
    >)
        requires
            self.wf(),
        ensures
            match r {
                Ok(v) => self.workspaces@.contains_key(workspace_id@)
                    && self.workspaces@[workspace_id@].workspace.proxies.entities@.contains_key(
                    entity_id@,
                ) && *v == self.workspaces@[workspace_id@].workspace.proxies.entities@[entity_id@],
                Err(e) => (match e {
                    ApicizeAppError::InvalidWorkspace(s) => s@ == workspace_id@
                        && !self.workspaces@.contains_key(workspace_id@),
                    ApicizeAppError::InvalidProxy(s) => s@ == entity_id@
                        && self.workspaces@.contains_key(workspace_id@)
                        && !self.workspaces@[workspace_id@].workspace.proxies.entities@
                        .contains_key(entity_id@),
                    _ => false,
                }),
            },
    {
        let info = match self.get_workspace_info(workspace_id) {
            Ok(info) => info,
            Err(e) => {
                return Err(e);
            },
        };
        match info.workspace.proxies.get(entity_id) {
            Some(v) => Ok(v),
            None => Err(ApicizeAppError::InvalidProxy(entity_id.clone())),
        }
    }

    /// The display title of a proxy.
    pub fn get_proxy_title(&self, workspace_id: &String, entity_id: &String) -> (r: Result<
        String,
        ApicizeAppError,
    >)
        requires
            self.wf(),
        ensures
            match r {
                Ok(t) => self.workspaces@.contains_key(workspace_id@)
                    && self.workspaces@[workspace_id@].workspace.proxies.entities@.contains_key(
                    entity_id@,
                ) && t@ == title_of(
                    self.workspaces@[workspace_id@].workspace.proxies.entities@[entity_id@].sname(),
                ),
                Err(e) => (match e {
                    ApicizeAppError::InvalidWorkspace(s) => s@ == workspace_id@
                        && !self.workspaces@.contains_key(workspace_id@),
                    ApicizeAppError::InvalidProxy(s) => s@ == entity_id@
                        && self.workspaces@.contains_key(workspace_id@)
                        && !self.workspaces@[workspace_id@].workspace.proxies.entities@
                        .contains_key(entity_id@),
                    _ => false,
                }),
            },
    {
        match self.get_proxy(workspace_id, entity_id) {
            Ok(v) => Ok(v.title()),
            Err(e) => Err(e),
        }
    }
}


/// The workspace registry was left untouched: the same entries in the
/// same order (and hence the same abstract map).
pub open spec fn registry_unchanged(a: Workspaces, b: Workspaces) -> bool {
    a.workspaces.kvs() == b.workspaces.kvs()
}

/// The first entry with the given id in a flat list displays differently
/// from the given name and validation state.
pub open spec fn list_delta_needed(
    list: Seq<NavigationEntry>,
    id: Seq<char>,
    name: Seq<char>,
    vs: ValidationState,
) -> bool {
    match crate::navigation::first_nav_index(list, id) {
        Some(i) => list[i].name@ != name || list[i].validation_state != vs,
        None => false,
    }
}

/// The entry with the given id in the section (searched public, then
/// private, then vault) displays differently from the given values.
pub open spec fn section_delta_needed(
    s: ParamNavigationSection,
    id: Seq<char>,
    name: Seq<char>,
    vs: ValidationState,
) -> bool {
    match crate::navigation::first_nav_index(s.public@, id) {
        Some(i) => s.public@[i].name@ != name || s.public@[i].validation_state != vs,
        None => match crate::navigation::first_nav_index(s.private@, id) {
            Some(i) => s.private@[i].name@ != name || s.private@[i].validation_state != vs,
            None => match crate::navigation::first_nav_index(s.vault@, id) {
                Some(i) => s.vault@[i].name@ != name || s.vault@[i].validation_state != vs,
                None => false,
            },
        },
    }
}

/// Whether patching the navigation entry of the given kind is needed: the
/// entry exists and its display differs.
pub open spec fn param_delta_needed(
    nav: Navigation,
    entity_type: EntityType,
    id: Seq<char>,
    name: Seq<char>,
    vs: ValidationState,
) -> bool {
    match entity_type {
        EntityType::Scenario => section_delta_needed(nav.scenarios, id, name, vs),
        EntityType::Authorization => section_delta_needed(nav.authorizations, id, name, vs),
        EntityType::Certificate => section_delta_needed(nav.certificates, id, name, vs),
        EntityType::Proxy => section_delta_needed(nav.proxies, id, name, vs),
        EntityType::DataSet => list_delta_needed(nav.data_sets@, id, name, vs),
        _ => false,
    }
}


/// The produced selection list mirrors a parameter section: an off entry
/// at `base`, then one selection per navigation entry in partition order.
pub open spec fn selections_match(
    sec: ParamNavigationSection,
    out: Seq<Selection>,
    base: int,
) -> bool {
    let all = sec.public@ + sec.private@ + sec.vault@;
    &&& out.len() == base + 1 + all.len()
    &&& out[base].id@ == "\tNONE\t"@
    &&& out[base].name@ == "Off"@
    &&& (forall|i: int|
        0 <= i < all.len() ==> (#[trigger] out[base + 1 + i]).id@ == all[i].id@ && out[base + 1
            + i].name@ == all[i].name@)
}

/// The produced data-set selection list: an off entry at `base`, then one
/// selection per data-set navigation entry, unnamed ones titled.
pub open spec fn data_selections_match(
    entries: Seq<NavigationEntry>,
    out: Seq<Selection>,
    base: int,
) -> bool {
    &&& out.len() == base + 1 + entries.len()
    &&& out[base].id@ == "\tNONE\t"@
    &&& out[base].name@ == "Off"@
    &&& (forall|i: int|
        0 <= i < entries.len() ==> (#[trigger] out[base + 1 + i]).id@ == entries[i].id@ && out[
            base + 1 + i].name@ == title_of(entries[i].name@))
}


/// One step of the key filter: the keys of the first `i + 1` entries are
/// those of the first `i`, extended when entry `i` is a subtree member
/// other than the target.
proof fn lemma_subtree_keys_step(
    kvs: Seq<(String, Vec<ExecutionResultSummary>)>,
    m: Map<Seq<char>, Vec<String>>,
    target: Seq<char>,
    i: int,
)
    requires
        0 <= i < kvs.len(),
    ensures
        subtree_batch_keys(kvs.take(i + 1), m, target) == (if kvs[i].0@ != target
            && crate::tree::in_subtree(m, target, kvs[i].0@) {
            subtree_batch_keys(kvs.take(i), m, target).push(kvs[i].0@)
        } else {
            subtree_batch_keys(kvs.take(i), m, target)
        }),
    decreases i,
{
    lemma_subtree_keys_snoc(kvs.take(i + 1), m, target);
    assert(kvs.take(i + 1).drop_last() =~= kvs.take(i));
    assert(kvs.take(i + 1).last() == kvs[i]);
}

/// The key filter over a sequence with its last element split off.
proof fn lemma_subtree_keys_snoc(
    kvs: Seq<(String, Vec<ExecutionResultSummary>)>,
    m: Map<Seq<char>, Vec<String>>,
    target: Seq<char>,
)
    requires
        kvs.len() > 0,
    ensures
        subtree_batch_keys(kvs, m, target) == (if kvs.last().0@ != target
            && crate::tree::in_subtree(m, target, kvs.last().0@) {
            subtree_batch_keys(kvs.drop_last(), m, target).push(kvs.last().0@)
        } else {
            subtree_batch_keys(kvs.drop_last(), m, target)
        }),
    decreases kvs.len(),
{
    if kvs.len() == 1 {
        assert(kvs.drop_first() =~= Seq::<(String, Vec<ExecutionResultSummary>)>::empty());
        assert(kvs.drop_last() =~= Seq::<(String, Vec<ExecutionResultSummary>)>::empty());
        if kvs[0].0@ != target && crate::tree::in_subtree(m, target, kvs[0].0@) {
            assert(seq![kvs[0].0@] + Seq::<Seq<char>>::empty() =~= Seq::<
                Seq<char>,
            >::empty().push(kvs[0].0@));
        }
    } else {
        let rest = kvs.drop_first();
        lemma_subtree_keys_snoc(rest, m, target);
        assert(rest.last() == kvs.last());
        assert(kvs.drop_last().drop_first() =~= rest.drop_last());
        assert(kvs.drop_last()[0] == kvs[0]);
        assert(kvs.drop_last().len() > 0);
        if kvs[0].0@ != target && crate::tree::in_subtree(m, target, kvs[0].0@) {
            if kvs.last().0@ != target && crate::tree::in_subtree(m, target, kvs.last().0@) {
                assert((seq![kvs[0].0@] + subtree_batch_keys(rest.drop_last(), m, target)).push(
                    kvs.last().0@,
                ) =~= seq![kvs[0].0@] + subtree_batch_keys(rest.drop_last(), m, target).push(
                    kvs.last().0@,
                ));
            }
        }
    }
}

/// Recursion budget that always exceeds the tree depth.
pub open spec fn nav_fuel(n: nat) -> nat {
    if n < usize::MAX as nat {
        (n + 1) as nat
    } else {
        n
    }
}

impl WorkspaceInfo {
    /// The navigation tree faithfully mirrors the entity state.
    pub open spec fn nav_mirrors(&self) -> bool {
        let t = self.workspace.requests;
        &&& forest_mirrors(
            t,
            self.executions@,
            t.top_ids@,
            self.navigation.requests@,
            nav_fuel(t.entities.kvs().len() as nat),
        )
        &&& entries_mirror(
            self.workspace.scenarios.entities@,
            self.workspace.scenarios.public_ids@,
            self.navigation.scenarios.public@,
        )
        &&& entries_mirror(
            self.workspace.scenarios.entities@,
            self.workspace.scenarios.private_ids@,
            self.navigation.scenarios.private@,
        )
        &&& entries_mirror(
            self.workspace.scenarios.entities@,
            self.workspace.scenarios.vault_ids@,
            self.navigation.scenarios.vault@,
        )
        &&& entries_mirror(
            self.workspace.authorizations.entities@,
            self.workspace.authorizations.public_ids@,
            self.navigation.authorizations.public@,
        )
        &&& entries_mirror(
            self.workspace.authorizations.entities@,
            self.workspace.authorizations.private_ids@,
            self.navigation.authorizations.private@,
        )
        &&& entries_mirror(
            self.workspace.authorizations.entities@,
            self.workspace.authorizations.vault_ids@,
            self.navigation.authorizations.vault@,
        )
        &&& entries_mirror(
            self.workspace.certificates.entities@,
            self.workspace.certificates.public_ids@,
            self.navigation.certificates.public@,
        )
        &&& entries_mirror(
            self.workspace.certificates.entities@,
            self.workspace.certificates.private_ids@,
            self.navigation.certificates.private@,
        )
        &&& entries_mirror(
            self.workspace.certificates.entities@,
            self.workspace.certificates.vault_ids@,
            self.navigation.certificates.vault@,
        )
        &&& entries_mirror(
            self.workspace.proxies.entities@,
            self.workspace.proxies.public_ids@,
            self.navigation.proxies.public@,
        )
        &&& entries_mirror(
            self.workspace.proxies.entities@,
            self.workspace.proxies.private_ids@,
            self.navigation.proxies.private@,
        )
        &&& entries_mirror(
            self.workspace.proxies.entities@,
            self.workspace.proxies.vault_ids@,
            self.navigation.proxies.vault@,
        )
        &&& entries_mirror(
            self.workspace.data.entities@,
            self.workspace.data.public_ids@,
            self.navigation.data_sets@,
        )
        &&& self.navigation.defaults.id@ == "defaults"@
        &&& self.navigation.defaults.name@ == "Defaults"@
        &&& self.navigation.defaults.validation_state == self.workspace.defaults.validation_state
        &&& self.navigation.defaults.execution_state == ExecutionState::spec_empty()
    }

    /// Rebuilds the navigation mirror from the current entity state.
    pub fn refresh_navigation(&mut self)
        requires
            old(self).wf(),
        ensures
            final(self).wf(),
            final(self).nav_mirrors(),
            *final(self) == (WorkspaceInfo { navigation: final(self).navigation, ..*old(self) }),
    {
        let t = &self.workspace.requests;
        let n = t.entities.num_entries();
        let fuel: u64 = if n < usize::MAX {
            (n + 1) as u64
        } else {
            n as u64
        };
        proof {
            assert forall|i: int|
                0 <= i < t.top_ids@.len() implies t.entities@.contains_key(
                (#[trigger] t.top_ids@[i])@,
            ) by {
                assert(id_in(t.top_ids@, t.top_ids@[i]@));
            }
        }
        let requests = build_request_forest(t, &self.executions, &t.top_ids, fuel);
        let scenarios = ParamNavigationSection::new(&self.workspace.scenarios);
        let authorizations = ParamNavigationSection::new(&self.workspace.authorizations);
        let certificates = ParamNavigationSection::new(&self.workspace.certificates);
        let proxies = ParamNavigationSection::new(&self.workspace.proxies);
        proof {
            assert forall|i: int|
                0 <= i < self.workspace.data.public_ids@.len() implies self.workspace.data
                    .entities@.contains_key(
                (#[trigger] self.workspace.data.public_ids@[i])@,
            ) by {
                assert(id_in(
                    self.workspace.data.public_ids@,
                    self.workspace.data.public_ids@[i]@,
                ));
            }
        }
        let data_sets = ParamNavigationSection::map_entities(
            &self.workspace.data.entities,
            &self.workspace.data.public_ids,
        );
        let defaults = NavigationEntry {
            id: "defaults".to_owned(),
            name: "Defaults".to_owned(),
            validation_state: self.workspace.defaults.validation_state,
            execution_state: ExecutionState::empty(),
        };
        self.navigation = Navigation {
            requests,
            scenarios,
            authorizations,
            certificates,
            proxies,
            data_sets,
            defaults,
        };
    }

    /// Checks whether a parameter's navigation entry differs from the given
    /// display values; patches it in place and returns the delta when so.
    pub fn check_parameter_navigation_update(
        &mut self,
        id: &String,
        updated_name: &String,
        updated_validation_state: ValidationState,
        entity_type: EntityType,
    ) -> (r: Option<UpdatedNavigationEntry>)
        requires
            old(self).wf(),
        ensures
            final(self).wf(),
            final(self).workspace == old(self).workspace,
            final(self).executions@ == old(self).executions@,
            final(self).results.summaries@ == old(self).results.summaries@,
            final(self).data_set_content@ == old(self).data_set_content@,
            final(self).dirty == old(self).dirty,
            r is Some <==> param_delta_needed(
                old(self).navigation,
                entity_type,
                id@,
                updated_name@,
                updated_validation_state,
            ),
            match r {
                Some(delta) => delta.id@ == id@ && delta.name@ == updated_name@ && delta
                    .entity_type == entity_type && delta.validation_state
                    == updated_validation_state,
                None => final(self).navigation == old(self).navigation,
            },
    {
        let section: &mut ParamNavigationSection = match entity_type {
            EntityType::Scenario => &mut self.navigation.scenarios,
            EntityType::Authorization => &mut self.navigation.authorizations,
            EntityType::Certificate => &mut self.navigation.certificates,
            EntityType::Proxy => &mut self.navigation.proxies,
            EntityType::DataSet => {
                let r = check_entry_list_update(
                    &mut self.navigation.data_sets,
                    id,
                    updated_name,
                    updated_validation_state,
                    entity_type,
                );
                return r;
            },
            _ => {
                return None;
            },
        };
        if let Some(i) = find_nav_entry(&section.public, id) {
            check_entry_at(&mut section.public, i, id, updated_name, updated_validation_state, entity_type)
        } else if let Some(i) = find_nav_entry(&section.private, id) {
            check_entry_at(&mut section.private, i, id, updated_name, updated_validation_state, entity_type)
        } else if let Some(i) = find_nav_entry(&section.vault, id) {
            check_entry_at(&mut section.vault, i, id, updated_name, updated_validation_state, entity_type)
        } else {
            None
        }
    }

    /// Checks whether a request's navigation node differs from the given
    /// display values; rebuilds the mirror and returns the delta when so.
    pub fn check_request_navigation_update(
        &mut self,
        id: &String,
        updated_name: &String,
        updated_validation_state: ValidationState,
        updated_execution_state: ExecutionState,
    ) -> (r: Option<UpdatedNavigationEntry>)
        requires
            old(self).wf(),
        ensures
            final(self).wf(),
            final(self).workspace == old(self).workspace,
            final(self).executions@ == old(self).executions@,
            final(self).results.summaries@ == old(self).results.summaries@,
            final(self).data_set_content@ == old(self).data_set_content@,
            final(self).dirty == old(self).dirty,
            r is Some <==> (crate::navigation::find_from(
                old(self).navigation.requests@,
                0,
                id@,
                nav_fuel(old(self).workspace.requests.entities.kvs().len() as nat) as nat,
            ) matches Some((n, v, es)) && !(n == updated_name@ && v == updated_validation_state
                && es == updated_execution_state)),
            match r {
                Some(delta) => delta.id@ == id@ && delta.name@ == updated_name@ && delta
                    .entity_type == EntityType::RequestEntry && delta.validation_state
                    == updated_validation_state && delta.execution_state
                    == updated_execution_state && final(self).nav_mirrors(),
                None => *final(self) == *old(self),
            },
    {
        let t = &self.workspace.requests;
        let n = t.entities.num_entries();
        let fuel: u64 = if n < usize::MAX {
            (n + 1) as u64
        } else {
            n as u64
        };
        let found = crate::navigation::nav_find_from(&self.navigation.requests, 0, id, fuel);
        let requires_update = match &found {
            Some((name, vs, es)) => !name.eq(updated_name) || *vs != updated_validation_state
                || *es != updated_execution_state,
            None => false,
        };
        if requires_update {
            self.refresh_navigation();
            Some(UpdatedNavigationEntry {
                id: id.clone(),
                name: updated_name.clone(),
                entity_type: EntityType::RequestEntry,
                validation_state: updated_validation_state,
                execution_state: updated_execution_state,
            })
        } else {
            None
        }
    }
}

/// Patches the entry at a found index when its display fields differ,
/// returning the delta.
fn check_entry_at(
    list: &mut Vec<NavigationEntry>,
    i: usize,
    id: &String,
    updated_name: &String,
    updated_validation_state: ValidationState,
    entity_type: EntityType,
) -> (r: Option<UpdatedNavigationEntry>)
    requires
        i < old(list)@.len(),
    ensures
        final(list)@.len() == old(list)@.len(),
        r is Some <==> (old(list)@[i as int].name@ != updated_name@ || old(list)@[i as int]
            .validation_state != updated_validation_state),
        match r {
            Some(delta) => delta.id@ == id@ && delta.name@ == updated_name@ && delta.entity_type
                == entity_type && delta.validation_state == updated_validation_state,
            None => *final(list) == *old(list),
        },
{
    let differs = !list[i].name.eq(updated_name) || list[i].validation_state
        != updated_validation_state;
    if differs {
        let execution_state = list[i].execution_state;
        set_nav_entry(list, i, updated_name, updated_validation_state, execution_state);
        Some(UpdatedNavigationEntry {
            id: id.clone(),
            name: updated_name.clone(),
            entity_type,
            validation_state: updated_validation_state,
            execution_state,
        })
    } else {
        None
    }
}

/// Finds and patches an entry in a flat list, returning the delta when the
/// display fields differed.
fn check_entry_list_update(
    list: &mut Vec<NavigationEntry>,
    id: &String,
    updated_name: &String,
    updated_validation_state: ValidationState,
    entity_type: EntityType,
) -> (r: Option<UpdatedNavigationEntry>)
    ensures
        final(list)@.len() == old(list)@.len(),
        r is Some <==> list_delta_needed(old(list)@, id@, updated_name@,
            updated_validation_state),
        match r {
            Some(delta) => delta.id@ == id@ && delta.name@ == updated_name@ && delta.entity_type
                == entity_type && delta.validation_state == updated_validation_state,
            None => *final(list) == *old(list),
        },
{
    if let Some(i) = find_nav_entry(list, id) {
        check_entry_at(list, i, id, updated_name, updated_validation_state, entity_type)
    } else {
        None
    }
}

impl Workspaces {
    /// Registers a workspace under a freshly generated id: computes the
    /// public-credential warning, builds the navigation mirror, and seeds
    /// one starter request when the workspace is brand new so the tree is
    /// never empty.  On the vanishingly unlikely identifier collision the
    /// registry is left untouched and the result carries an error.
    pub fn add_workspace(
        &mut self,
        workspace: Workspace,
        file_name: &String,
        directory: &String,
        display_name: &String,
        is_new: bool,
    ) -> (r: OpenWorkspaceResult)
        requires
            old(self).wf(),
            workspace.wf(),
        ensures
            final(self).wf(),
            r.error is Some ==> registry_unchanged(*final(self), *old(self)),
            r.error is None ==> {
                &&& !old(self).workspaces@.contains_key(r.workspace_id@)
                &&& final(self).workspaces@.contains_key(r.workspace_id@)
                &&& final(self).workspaces@.dom() == old(self).workspaces@.dom().insert(
                    r.workspace_id@,
                )
                &&& (forall|k: Seq<char>|
                    k != r.workspace_id@ && old(self).workspaces@.contains_key(k) ==> (
                    #[trigger] final(self).workspaces@[k]) == old(self).workspaces@[k])
                &&& ({
                    let info = final(self).workspaces@[r.workspace_id@];
                    &&& info.wf()
                    &&& !info.dirty
                    &&& info.file_name@ == file_name@
                    &&& info.directory@ == directory@
                    &&& info.display_name@ == display_name@
                    &&& info.warn_on_workspace_creds == !(
                    workspace.authorizations.public_ids@.len() > 0
                        || workspace.certificates.public_ids@.len() > 0)
                    &&& info.results.summaries@ == Map::<
                        Seq<char>,
                        Vec<ExecutionResultSummary>,
                    >::empty()
                    &&& info.executions@ == Map::<Seq<char>, RequestExecution>::empty()
                    &&& info.nav_mirrors()
                    &&& info.workspace.scenarios == workspace.scenarios
                    &&& info.workspace.authorizations == workspace.authorizations
                    &&& info.workspace.certificates == workspace.certificates
                    &&& info.workspace.proxies == workspace.proxies
                    &&& info.workspace.data == workspace.data
                    &&& info.workspace.defaults == workspace.defaults
                    &&& (!is_new ==> info.workspace.requests == workspace.requests)
                    &&& (is_new ==> (exists|rid: Seq<char>|
                        {
                            &&& !workspace.requests.entities@.contains_key(rid)
                            &&& (#[trigger] info.workspace.requests.entities@.dom())
                                == workspace.requests.entities@.dom().insert(rid)
                            &&& info.workspace.requests.entities@.contains_key(rid)
                            &&& (info.workspace.requests.entities@[rid]
                                matches crate::model::RequestEntry::Request(req) && req.name@
                                == "New Request"@ && req.id@ == rid)
                            &&& id_in(info.workspace.requests.top_ids@, rid)
                        }))
                    &&& (is_new ==> info.navigation.requests@.len() > 0)
                })
            },
            r.display_name@ == display_name@,
            r.directory@ == directory@,
    {
        let workspace_id = fresh_id();
        if self.workspaces.contains_key(&workspace_id) {
            return OpenWorkspaceResult {
                workspace_id,
                directory: directory.clone(),
                display_name: display_name.clone(),
                error: Some("a fresh workspace identifier could not be generated".to_owned()),
            };
        }
        let any_public_auths = workspace.authorizations.public_ids.len() > 0;
        let any_public_certs = workspace.certificates.public_ids.len() > 0;
        let mut workspace = workspace;
        if is_new {
            let rid = fresh_id();
            let request = Request::blank(rid, "New Request".to_owned());
            let ghost grid = request.id@;
            let ghost pre = workspace.requests;
            let added = workspace.requests.add_entity(
                RequestEntry::Request(request),
                None,
                None,
            );
            match added {
                Ok(()) => {
                    proof {
                        assert(workspace.requests.entities@.dom() =~= pre.entities@.dom().insert(
                            grid,
                        ));
                    }
                },
                Err(()) => {
                    return OpenWorkspaceResult {
                        workspace_id,
                        directory: directory.clone(),
                        display_name: display_name.clone(),
                        error: Some(
                            "a fresh request identifier could not be generated".to_owned(),
                        ),
                    };
                },
            }
        }
        let mut info = WorkspaceInfo {
            dirty: false,
            warn_on_workspace_creds: !(any_public_auths || any_public_certs),
            file_name: file_name.clone(),
            directory: directory.clone(),
            display_name: display_name.clone(),
            workspace,
            navigation: Navigation {
                requests: Vec::new(),
                scenarios: ParamNavigationSection {
                    public: Vec::new(),
                    private: Vec::new(),
                    vault: Vec::new(),
                },
                authorizations: ParamNavigationSection {
                    public: Vec::new(),
                    private: Vec::new(),
                    vault: Vec::new(),
                },
                certificates: ParamNavigationSection {
                    public: Vec::new(),
                    private: Vec::new(),
                    vault: Vec::new(),
                },
                proxies: ParamNavigationSection {
                    public: Vec::new(),
                    private: Vec::new(),
                    vault: Vec::new(),
                },
                data_sets: Vec::new(),
                defaults: NavigationEntry {
                    id: String::new(),
                    name: String::new(),
                    validation_state: ValidationState::empty(),
                    execution_state: ExecutionState::empty(),
                },
            },
            results: ResultStore::new(),
            executions: StringMap::new(),
            data_set_content: StringMap::new(),
        };
        info.refresh_navigation();
        self.workspaces.insert(workspace_id.clone(), info);
        OpenWorkspaceResult {
            workspace_id,
            directory: directory.clone(),
            display_name: display_name.clone(),
            error: None,
        }
    }
}


impl Workspaces {
    /// Adds a fresh request, optionally cloned from an existing one, placed
    /// beside or under `relative_to`.
    pub fn add_request(
        &mut self,
        workspace_id: &String,
        relative_to: Option<&String>,
        relative_position: Option<EntityPosition>,
        clone_from_id: Option<&String>,
    ) -> (r: Result<String, ApicizeAppError>)
        requires
            old(self).wf(),
        ensures
            final(self).wf(),
            match r {
                Ok(id) => {
                    &&& old(self).workspaces@.contains_key(workspace_id@)
                    &&& final(self).workspaces@.dom() == old(self).workspaces@.dom()
                    &&& (forall|k: Seq<char>|
                        k != workspace_id@ && old(self).workspaces@.contains_key(k)
                            ==> (#[trigger] final(self).workspaces@[k]) == old(self).workspaces@[k])
                    &&& final(self).workspaces@[workspace_id@].dirty
                    &&& !old(self).workspaces@[workspace_id@].workspace.requests.entities@
                        .contains_key(id@)
                    &&& final(self).workspaces@[workspace_id@].workspace.requests.entities@
                        .contains_key(id@)
                    &&& final(self).workspaces@[workspace_id@].workspace.requests.entities@[id@]
                        is Request
                    &&& final(self).workspaces@[workspace_id@].workspace.requests.entities@.dom()
                        == old(self).workspaces@[workspace_id@].workspace.requests.entities@
                        .dom().insert(id@)
                },
                Err(e) => registry_unchanged(*final(self), *old(self)) && (match e {
                    ApicizeAppError::InvalidWorkspace(s) => s@ == workspace_id@ && !old(
                        self,
                    ).workspaces@.contains_key(workspace_id@),
                    ApicizeAppError::InvalidRequest(_) => true,
                    ApicizeAppError::InvalidOperation(_) => true,
                    _ => false,
                }),
            },
    {
        if !self.has_workspace(workspace_id) {
            return Err(ApicizeAppError::InvalidWorkspace(workspace_id.clone()));
        }
        let info = self.get_workspace_info_mut(workspace_id);
        let id = fresh_id();
        let request = match clone_from_id {
            Some(other_id) => match info.workspace.requests.get(other_id) {
                Some(RequestEntry::Request(other)) => other.clone_as_new(id.clone()),
                _ => {
                    return Err(ApicizeAppError::InvalidRequest(other_id.clone()));
                },
            },
            None => Request::blank(id.clone(), String::new()),
        };
        match info.workspace.requests.add_entity(
            RequestEntry::Request(request),
            relative_to,
            relative_position,
        ) {
            Ok(()) => {
                info.dirty = true;
                Ok(id)
            },
            Err(()) => Err(ApicizeAppError::InvalidOperation(
                "the request could not be placed".to_owned(),
            )),
        }
    }

    /// Adds a fresh group, optionally cloned (without descendants) from an
    /// existing one.
    pub fn add_request_group(
        &mut self,
        workspace_id: &String,
        relative_to: Option<&String>,
        relative_position: Option<EntityPosition>,
        clone_from_id: Option<&String>,
    ) -> (r: Result<String, ApicizeAppError>)
        requires
            old(self).wf(),
        ensures
            final(self).wf(),
            match r {
                Ok(id) => {
                    &&& old(self).workspaces@.contains_key(workspace_id@)
                    &&& final(self).workspaces@.dom() == old(self).workspaces@.dom()
                    &&& (forall|k: Seq<char>|
                        k != workspace_id@ && old(self).workspaces@.contains_key(k)
                            ==> (#[trigger] final(self).workspaces@[k]) == old(self).workspaces@[k])
                    &&& final(self).workspaces@[workspace_id@].dirty
                    &&& !old(self).workspaces@[workspace_id@].workspace.requests.entities@
                        .contains_key(id@)
                    &&& final(self).workspaces@[workspace_id@].workspace.requests.entities@
                        .contains_key(id@)
                    &&& final(self).workspaces@[workspace_id@].workspace.requests.entities@[id@]
                        is Group
                    &&& final(self).workspaces@[workspace_id@].workspace.requests.entities@.dom()
                        == old(self).workspaces@[workspace_id@].workspace.requests.entities@
                        .dom().insert(id@)
                },
                Err(e) => registry_unchanged(*final(self), *old(self)) && (match e {
                    ApicizeAppError::InvalidWorkspace(s) => s@ == workspace_id@ && !old(
                        self,
                    ).workspaces@.contains_key(workspace_id@),
                    ApicizeAppError::InvalidGroup(_) => true,
                    ApicizeAppError::InvalidOperation(_) => true,
                    _ => false,
                }),
            },
    {
        if !self.has_workspace(workspace_id) {
            return Err(ApicizeAppError::InvalidWorkspace(workspace_id.clone()));
        }
        let info = self.get_workspace_info_mut(workspace_id);
        let id = fresh_id();
        let group = match clone_from_id {
            Some(other_id) => match info.workspace.requests.get(other_id) {
                Some(RequestEntry::Group(other)) => other.clone_as_new(id.clone()),
                _ => {
                    return Err(ApicizeAppError::InvalidGroup(other_id.clone()));
                },
            },
            None => RequestGroup::blank(id.clone(), String::new()),
        };
        match info.workspace.requests.add_entity(
            RequestEntry::Group(group),
            relative_to,
            relative_position,
        ) {
            Ok(()) => {
                info.dirty = true;
                Ok(id)
            },
            Err(()) => Err(ApicizeAppError::InvalidOperation(
                "the group could not be placed".to_owned(),
            )),
        }
    }

    /// Deletes a request or group with its whole subtree, refreshing the
    /// navigation mirror.
    pub fn delete_request_entry(&mut self, workspace_id: &String, entity_id: &String) -> (r:
        Result<(), ApicizeAppError>)
        requires
            old(self).wf(),
        ensures
            final(self).wf(),
            match r {
                Ok(()) => {
                    &&& old(self).workspaces@.contains_key(workspace_id@)
                    &&& final(self).workspaces@.dom() == old(self).workspaces@.dom()
                    &&& (forall|k: Seq<char>|
                        k != workspace_id@ && old(self).workspaces@.contains_key(k)
                            ==> (#[trigger] final(self).workspaces@[k]) == old(self).workspaces@[k])
                    &&& final(self).workspaces@[workspace_id@].dirty
                    &&& old(self).workspaces@[workspace_id@].workspace.requests.entities@
                        .contains_key(entity_id@)
                    &&& (forall|k: Seq<char>|
                        (#[trigger] final(self).workspaces@[workspace_id@].workspace.requests
                            .entities@.contains_key(k)) <==> (old(
                            self,
                        ).workspaces@[workspace_id@].workspace.requests.entities@.contains_key(k)
                            && !crate::tree::in_subtree(
                            old(self).workspaces@[workspace_id@].workspace.requests.child_ids@,
                            entity_id@,
                            k,
                        )))
                    &&& final(self).workspaces@[workspace_id@].nav_mirrors()
                },
                Err(e) => registry_unchanged(*final(self), *old(self)) && (match e {
                    ApicizeAppError::InvalidWorkspace(s) => s@ == workspace_id@ && !old(
                        self,
                    ).workspaces@.contains_key(workspace_id@),
                    ApicizeAppError::InvalidRequest(s) => s@ == entity_id@ && old(
                        self,
                    ).workspaces@.contains_key(workspace_id@) && !old(
                        self,
                    ).workspaces@[workspace_id@].workspace.requests.entities@.contains_key(
                        entity_id@,
                    ),
                    _ => false,
                }),
            },
    {
        if !self.has_workspace(workspace_id) {
            return Err(ApicizeAppError::InvalidWorkspace(workspace_id.clone()));
        }
        let info = self.get_workspace_info_mut(workspace_id);
        if !info.workspace.requests.entities.contains_key(entity_id) {
            return Err(ApicizeAppError::InvalidRequest(entity_id.clone()));
        }
        info.dirty = true;
        info.workspace.requests.remove_entity(entity_id);
        info.refresh_navigation();
        Ok(())
    }

    /// Moves a request or group beside or under another entry.
    pub fn move_request_entry(
        &mut self,
        workspace_id: &String,
        entity_id: &String,
        relative_to: &String,
        relative_position: EntityPosition,
    ) -> (r: Result<bool, ApicizeAppError>)
        requires
            old(self).wf(),
        ensures
            final(self).wf(),
            match r {
                Ok(moved) => {
                    &&& old(self).workspaces@.contains_key(workspace_id@)
                    &&& final(self).workspaces@.dom() == old(self).workspaces@.dom()
                    &&& final(self).workspaces@[workspace_id@].workspace.requests.entities@ == old(
                        self,
                    ).workspaces@[workspace_id@].workspace.requests.entities@
                    &&& (moved <==> entity_id@ != relative_to@)
                },
                Err(e) => registry_unchanged(*final(self), *old(self)) && (match e {
                    ApicizeAppError::InvalidWorkspace(s) => s@ == workspace_id@ && !old(
                        self,
                    ).workspaces@.contains_key(workspace_id@),
                    ApicizeAppError::InvalidRequest(_) => true,
                    _ => false,
                }),
            },
    {
        if !self.has_workspace(workspace_id) {
            return Err(ApicizeAppError::InvalidWorkspace(workspace_id.clone()));
        }
        let info = self.get_workspace_info_mut(workspace_id);
        match info.workspace.requests.move_entity(entity_id, relative_to, relative_position) {
            Ok(moved) => Ok(moved),
            Err(()) => Err(ApicizeAppError::InvalidRequest(entity_id.clone())),
        }
    }

    /// The display title of a request or group.
    pub fn get_request_title(&self, workspace_id: &String, request_id: &String) -> (r: Result<
        String,
        ApicizeAppError,
    >)
        requires
            self.wf(),
        ensures
            match r {
                Ok(t) => self.workspaces@.contains_key(workspace_id@)
                    && self.workspaces@[workspace_id@].workspace.requests.entities@.contains_key(
                    request_id@,
                ) && t@ == title_of(
                    self.workspaces@[workspace_id@].workspace.requests.entities@[request_id@]
                        .spec_name(),
                ),
                Err(_) => !self.workspaces@.contains_key(workspace_id@)
                    || !self.workspaces@[workspace_id@].workspace.requests.entities@.contains_key(
                    request_id@,
                ),
            },
    {
        let info = match self.get_workspace_info(workspace_id) {
            Ok(info) => info,
            Err(e) => {
                return Err(e);
            },
        };
        match info.workspace.requests.get(request_id) {
            Some(entry) => Ok(entry.get_title()),
            None => Err(ApicizeAppError::InvalidRequest(request_id.clone())),
        }
    }

    /// The kind of entity an id names in a workspace, if any.
    pub fn get_entity_type(&self, workspace_id: &String, entity_id: &String) -> (r: Result<
        Option<EntityType>,
        ApicizeAppError,
    >)
        requires
            self.wf(),
        ensures
            match r {
                Ok(t) => {
                    let ws = self.workspaces@[workspace_id@].workspace;
                    &&& self.workspaces@.contains_key(workspace_id@)
                    &&& t == (if ws.requests.entities@.contains_key(entity_id@) {
                        Some(EntityType::RequestEntry)
                    } else if ws.scenarios.entities@.contains_key(entity_id@) {
                        Some(EntityType::Scenario)
                    } else if ws.authorizations.entities@.contains_key(entity_id@) {
                        Some(EntityType::Authorization)
                    } else if ws.certificates.entities@.contains_key(entity_id@) {
                        Some(EntityType::Certificate)
                    } else if ws.proxies.entities@.contains_key(entity_id@) {
                        Some(EntityType::Proxy)
                    } else {
                        None
                    })
                },
                Err(e) => !self.workspaces@.contains_key(workspace_id@) && (
                e matches ApicizeAppError::InvalidWorkspace(s) && s@ == workspace_id@),
            },
    {
        let info = match self.get_workspace_info(workspace_id) {
            Ok(info) => info,
            Err(e) => {
                return Err(e);
            },
        };
        let ws = &info.workspace;
        if ws.requests.entities.contains_key(entity_id) {
            Ok(Some(EntityType::RequestEntry))
        } else if ws.scenarios.entities.contains_key(entity_id) {
            Ok(Some(EntityType::Scenario))
        } else if ws.authorizations.entities.contains_key(entity_id) {
            Ok(Some(EntityType::Authorization))
        } else if ws.certificates.entities.contains_key(entity_id) {
            Ok(Some(EntityType::Certificate))
        } else if ws.proxies.entities.contains_key(entity_id) {
            Ok(Some(EntityType::Proxy))
        } else {
            Ok(None)
        }
    }

    /// All group ids of the subtree rooted at `group_id` that own children.
    pub fn find_descendent_groups(&self, workspace_id: &String, group_id: &String) -> (r: Result<
        Vec<String>,
        ApicizeAppError,
    >)
        requires
            self.wf(),
        ensures
            match r {
                Ok(ids) => {
                    let t = self.workspaces@[workspace_id@].workspace.requests;
                    &&& self.workspaces@.contains_key(workspace_id@)
                    &&& crate::tree::ids_unique(ids@)
                    &&& (forall|k: Seq<char>|
                        #[trigger] id_in(ids@, k) <==> (crate::tree::in_subtree(
                            t.child_ids@,
                            group_id@,
                            k,
                        ) && t.child_ids@.contains_key(k)))
                },
                Err(e) => !self.workspaces@.contains_key(workspace_id@) && (
                e matches ApicizeAppError::InvalidWorkspace(s) && s@ == workspace_id@),
            },
    {
        let info = match self.get_workspace_info(workspace_id) {
            Ok(info) => info,
            Err(e) => {
                return Err(e);
            },
        };
        Ok(info.workspace.requests.descendant_groups(group_id))
    }

    /// The ancestor chain of an entity, nearest parent first: the group
    /// chain for request-tree kinds, the partition an entity of a
    /// parameter kind is filed under.  The defaults pseudo-entity has no
    /// parent index and is refused.
    pub fn find_parent_ids(
        &self,
        workspace_id: &String,
        entity_type: EntityType,
        entity_id: &String,
    ) -> (r: Result<Vec<String>, ApicizeAppError>)
        requires
            self.wf(),
        ensures
            match r {
                Ok(ids) => {
                    let ws = self.workspaces@[workspace_id@].workspace;
                    let t = ws.requests;
                    &&& self.workspaces@.contains_key(workspace_id@)
                    &&& entity_type != EntityType::Defaults
                    &&& ((entity_type == EntityType::RequestEntry || entity_type
                        == EntityType::Request || entity_type == EntityType::Group) ==> forall|
                        i: int,
                    |
                        0 <= i < ids@.len() ==> t.child_ids@.contains_key(
                            (#[trigger] ids@[i])@,
                        ) && id_in(
                            t.child_ids@[ids@[i]@]@,
                            if i == 0 {
                                entity_id@
                            } else {
                                ids@[i - 1]@
                            },
                        ))
                    &&& (entity_type == EntityType::Scenario ==> partition_chain(
                        ws.scenarios,
                        entity_id@,
                        ids@,
                    ))
                    &&& (entity_type == EntityType::Authorization ==> partition_chain(
                        ws.authorizations,
                        entity_id@,
                        ids@,
                    ))
                    &&& (entity_type == EntityType::Certificate ==> partition_chain(
                        ws.certificates,
                        entity_id@,
                        ids@,
                    ))
                    &&& (entity_type == EntityType::Proxy ==> partition_chain(
                        ws.proxies,
                        entity_id@,
                        ids@,
                    ))
                    &&& (entity_type == EntityType::DataSet ==> partition_chain(
                        ws.data,
                        entity_id@,
                        ids@,
                    ))
                },
                Err(e) => (match e {
                    ApicizeAppError::InvalidWorkspace(s) => s@ == workspace_id@
                        && !self.workspaces@.contains_key(workspace_id@),
                    ApicizeAppError::InvalidOperation(_) => self.workspaces@.contains_key(
                        workspace_id@,
                    ) && entity_type == EntityType::Defaults,
                    _ => false,
                }),
            },
    {
        let info = match self.get_workspace_info(workspace_id) {
            Ok(info) => info,
            Err(e) => {
                return Err(e);
            },
        };
        let is_request_kind = match entity_type {
            EntityType::RequestEntry => true,
            EntityType::Request => true,
            EntityType::Group => true,
            _ => false,
        };
        if !is_request_kind {
            return match entity_type {
                EntityType::Scenario => Ok(partition_of(&info.workspace.scenarios, entity_id)),
                EntityType::Authorization => Ok(
                    partition_of(&info.workspace.authorizations, entity_id),
                ),
                EntityType::Certificate => Ok(
                    partition_of(&info.workspace.certificates, entity_id),
                ),
                EntityType::Proxy => Ok(partition_of(&info.workspace.proxies, entity_id)),
                EntityType::DataSet => Ok(partition_of(&info.workspace.data, entity_id)),
                _ => Err(ApicizeAppError::InvalidOperation(
                    "the defaults entry has no parent index".to_owned(),
                )),
            };
        }
        let t = &info.workspace.requests;
        let mut out: Vec<String> = Vec::new();
        let mut current = entity_id.clone();
        let mut fuel = t.child_ids.num_entries();
        proof {
            assert(current@ == entity_id@);
        }
        loop
            invariant
                self.wf(),
                self.workspaces@.contains_key(workspace_id@),
                t == self.workspaces@[workspace_id@].workspace.requests,
                t.wf(),
                current@ == (if out@.len() == 0 {
                    entity_id@
                } else {
                    out@[out@.len() - 1]@
                }),
                forall|i: int|
                    0 <= i < out@.len() ==> t.child_ids@.contains_key((#[trigger] out@[i])@)
                        && id_in(
                        t.child_ids@[out@[i]@]@,
                        if i == 0 {
                            entity_id@
                        } else {
                            out@[i - 1]@
                        },
                    ),
            decreases fuel,
        {
            if fuel == 0 {
                break;
            }
            fuel = fuel - 1;
            match t.parent_of(&current) {
                Some(p) => {
                    let ghost out0 = out@;
                    out.push(p.clone());
                    proof {
                        assert forall|i: int|
                            0 <= i < out@.len() implies t.child_ids@.contains_key(
                            (#[trigger] out@[i])@,
                        ) && id_in(
                            t.child_ids@[out@[i]@]@,
                            if i == 0 {
                                entity_id@
                            } else {
                                out@[i - 1]@
                            },
                        ) by {
                            if i < out0.len() {
                                assert(out@[i] == out0[i]);
                                if i > 0 {
                                    assert(out@[i - 1] == out0[i - 1]);
                                }
                            } else {
                                assert(out@[i]@ == p@);
                            }
                        }
                    }
                    current = p;
                },
                None => {
                    break;
                },
            }
        }
        Ok(out)
    }
}

/// The one-step partition chain of a parameter entity: the section marker
/// (workbook, private or vault) it is filed under, empty when unlisted.
pub open spec fn partition_chain<T: Ident>(
    col: ParamCollection<T>,
    entity: Seq<char>,
    ids: Seq<String>,
) -> bool {
    if id_in(col.public_ids@, entity) {
        ids.len() == 1 && ids[0]@ == "W"@
    } else if id_in(col.private_ids@, entity) {
        ids.len() == 1 && ids[0]@ == "P"@
    } else if id_in(col.vault_ids@, entity) {
        ids.len() == 1 && ids[0]@ == "V"@
    } else {
        ids.len() == 0
    }
}

/// The partition marker an entity is filed under, as a one-element chain.
fn partition_of<T: Ident>(col: &ParamCollection<T>, entity_id: &String) -> (r: Vec<String>)
    ensures
        partition_chain(*col, entity_id@, r@),
{
    let mut out: Vec<String> = Vec::new();
    if crate::tree::find_id(&col.public_ids, entity_id).is_some() {
        out.push("W".to_owned());
        proof {
            assert(id_in(col.public_ids@, entity_id@));
            assert(out@[0]@ == "W"@);
        }
    } else if crate::tree::find_id(&col.private_ids, entity_id).is_some() {
        out.push("P".to_owned());
        proof {
            assert(id_in(col.private_ids@, entity_id@));
            assert(out@[0]@ == "P"@);
        }
    } else if crate::tree::find_id(&col.vault_ids, entity_id).is_some() {
        out.push("V".to_owned());
        proof {
            assert(id_in(col.vault_ids@, entity_id@));
            assert(out@[0]@ == "V"@);
        }
    }
    out
}


/// The string an optional text update leaves behind: the new value when
/// one is given, the old one otherwise.
pub open spec fn upd_str(u: Option<String>, old_v: Seq<char>) -> Seq<char> {
    match u {
        Some(v) => v@,
        None => old_v,
    }
}

/// The selection an optional selection update leaves behind: cleared when
/// the update names the inherited default, replaced otherwise.
pub open spec fn upd_sel(u: Option<Selection>, old_v: Option<Selection>) -> Option<Selection> {
    match u {
        Some(sel) => if sel.id@ == "\tDEFAULT\t"@ {
            None
        } else {
            Some(sel)
        },
        None => old_v,
    }
}

/// Applies an optional selection update to a field in place.
fn apply_sel(field: &mut Option<Selection>, u: &Option<Selection>)
    ensures
        *final(field) == upd_sel(*u, *old(field)),
{
    if let Some(sel) = u {
        let marker = "\tDEFAULT\t".to_owned();
        if sel.id.eq(&marker) {
            *field = None;
        } else {
            *field = Some(Selection { id: sel.id.clone(), name: sel.name.clone() });
        }
    }
}

impl Workspaces {
    /// Applies a field-level scenario update: name and variables, with
    /// revalidation, renaming every selection that points at it, and
    /// patching the navigation entry when the display changed.
    pub fn update_scenario(&mut self, workspace_id: &String, update: &crate::updates::ScenarioUpdate)
        -> (r: Result<UpdateWithNavigationResponse, ApicizeAppError>)
        requires
            old(self).wf(),
        ensures
            final(self).wf(),
            match r {
                Ok(resp) => {
                    let ws0 = old(self).workspaces@[workspace_id@].workspace;
                    let ws1 = final(self).workspaces@[workspace_id@].workspace;
                    let s0 = ws0.scenarios.entities@[update.id@];
                    let s1 = ws1.scenarios.entities@[update.id@];
                    &&& old(self).workspaces@.contains_key(workspace_id@)
                    &&& ws0.scenarios.entities@.contains_key(update.id@)
                    &&& final(self).workspaces@.dom() == old(self).workspaces@.dom()
                    &&& (forall|k: Seq<char>|
                        k != workspace_id@ && old(self).workspaces@.contains_key(k)
                            ==> (#[trigger] final(self).workspaces@[k]) == old(self).workspaces@[k])
                    &&& final(self).workspaces@[workspace_id@].dirty
                    &&& ws1.scenarios.entities@.dom() == ws0.scenarios.entities@.dom()
                    &&& s1.id == s0.id
                    &&& s1.name@ == upd_str(update.name, s0.name@)
                    &&& (match update.variables {
                        Some(v) => if v@.len() == 0 {
                            s1.variables is None
                        } else {
                            s1.variables matches Some(v1) && v1@ == v@
                        },
                        None => s1.variables == s0.variables,
                    })
                    &&& s1.validation_state == s1.computed_validation()
                    &&& (forall|k: Seq<char>|
                        #[trigger] ws1.requests.entities@.contains_key(k)
                            <==> ws0.requests.entities@.contains_key(k))
                    &&& (forall|k: Seq<char>|
                        #[trigger] ws1.requests.entities@.contains_key(k)
                            ==> crate::tree::same_but_selected_scenario(
                            ws0.requests.entities@[k],
                            ws1.requests.entities@[k],
                        ) && crate::tree::sel_renamed_selected_scenario(
                            ws0.requests.entities@[k],
                            ws1.requests.entities@[k],
                            update.id@,
                            title_of(s1.name@),
                        ))
                    &&& ws1.defaults == (crate::model::WorkbookDefaults {
                        selected_scenario: ws1.defaults.selected_scenario,
                        ..ws0.defaults
                    })
                    &&& (match (ws0.defaults.selected_scenario, ws1.defaults.selected_scenario) {
                        (Some(s0), Some(s1)) => s1.id == s0.id && s1.name@ == (if s0.id@
                            == update.id@ {
                            title_of(s1.name@)
                        } else {
                            s0.name@
                        }),
                        (None, None) => true,
                        _ => false,
                    })
                    &&& (match resp.navigation {
                        Some(delta) => delta.id@ == update.id@ && delta.name@ == title_of(
                            s1.name@,
                        ) && delta.validation_state == s1.validation_state,
                        None => true,
                    })
                },
                Err(e) => registry_unchanged(*final(self), *old(self)) && (match e {
                    ApicizeAppError::InvalidWorkspace(w) => w@ == workspace_id@ && !old(
                        self,
                    ).workspaces@.contains_key(workspace_id@),
                    ApicizeAppError::InvalidScenario(sid) => sid@ == update.id@ && old(
                        self,
                    ).workspaces@.contains_key(workspace_id@) && !old(
                        self,
                    ).workspaces@[workspace_id@].workspace.scenarios.entities@.contains_key(
                        update.id@,
                    ),
                    _ => false,
                }),
            },
    {
        if !self.has_workspace(workspace_id) {
            return Err(ApicizeAppError::InvalidWorkspace(workspace_id.clone()));
        }
        let info = self.get_workspace_info_mut(workspace_id);
        if !info.workspace.scenarios.entities.contains_key(&update.id) {
            return Err(ApicizeAppError::InvalidScenario(update.id.clone()));
        }
        info.dirty = true;
        let ghost params0 = info.workspace.scenarios;
        {
            let scenario = info.workspace.scenarios.get_entity_mut(&update.id);
            if let Some(name) = &update.name {
                scenario.name = name.clone();
            }
            if let Some(variables) = &update.variables {
                if variables.is_empty() {
                    scenario.variables = None;
                } else {
                    scenario.variables = Some(crate::model::dup_pairs(variables));
                }
            }
            scenario.revalidate();
        }
        proof {
            crate::tree::lemma_params_wf_value_update(
                params0,
                info.workspace.scenarios,
                update.id@,
            );
        }
        let (updated_name, updated_validation_state) = {
            let s = info.workspace.scenarios.get(&update.id).unwrap();
            (s.get_title(), s.validation_state)
        };
        let navigation = info.check_parameter_navigation_update(
            &update.id,
            &updated_name,
            updated_validation_state,
            EntityType::Scenario,
        );
        info.workspace.requests.rename_selected_scenario_selections(&update.id, &updated_name);
        if let Some(sel) = &mut info.workspace.defaults.selected_scenario {
            if sel.id.eq(&update.id) {
                sel.name = updated_name.clone();
            }
        }
        let (warnings, errors) = {
            let s = info.workspace.scenarios.get(&update.id).unwrap();
            (crate::model::dup_opt_strings(&s.validation_warnings), crate::model::dup_opt_errors(
                &s.validation_errors,
            ))
        };
        Ok(UpdateWithNavigationResponse {
            navigation,
            validation_warnings: warnings,
            validation_errors: errors,
        })
    }

    /// Applies a field-level proxy update: name and URL, with revalidation,
    /// selection renaming and a navigation patch when the display changed.
    pub fn update_proxy(&mut self, workspace_id: &String, update: &crate::updates::ProxyUpdate)
        -> (r: Result<UpdateWithNavigationResponse, ApicizeAppError>)
        requires
            old(self).wf(),
        ensures
            final(self).wf(),
            match r {
                Ok(resp) => {
                    let ws0 = old(self).workspaces@[workspace_id@].workspace;
                    let ws1 = final(self).workspaces@[workspace_id@].workspace;
                    let s0 = ws0.proxies.entities@[update.id@];
                    let s1 = ws1.proxies.entities@[update.id@];
                    &&& old(self).workspaces@.contains_key(workspace_id@)
                    &&& ws0.proxies.entities@.contains_key(update.id@)
                    &&& final(self).workspaces@.dom() == old(self).workspaces@.dom()
                    &&& (forall|k: Seq<char>|
                        k != workspace_id@ && old(self).workspaces@.contains_key(k)
                            ==> (#[trigger] final(self).workspaces@[k]) == old(self).workspaces@[k])
                    &&& final(self).workspaces@[workspace_id@].dirty
                    &&& ws1.proxies.entities@.dom() == ws0.proxies.entities@.dom()
                    &&& s1.id == s0.id
                    &&& s1.name@ == upd_str(update.name, s0.name@)
                    &&& s1.url@ == upd_str(update.url, s0.url@)
                    &&& s1.validation_state == s1.computed_validation()
                    &&& (forall|k: Seq<char>|
                        #[trigger] ws1.requests.entities@.contains_key(k)
                            ==> crate::tree::same_but_selected_proxy(
                            ws0.requests.entities@[k],
                            ws1.requests.entities@[k],
                        ) && crate::tree::sel_renamed_selected_proxy(
                            ws0.requests.entities@[k],
                            ws1.requests.entities@[k],
                            update.id@,
                            title_of(s1.name@),
                        ))
                    &&& ws1.defaults == (crate::model::WorkbookDefaults {
                        selected_proxy: ws1.defaults.selected_proxy,
                        ..ws0.defaults
                    })
                    &&& (match (ws0.defaults.selected_proxy, ws1.defaults.selected_proxy) {
                        (Some(s0), Some(s1)) => s1.id == s0.id && s1.name@ == (if s0.id@
                            == update.id@ {
                            title_of(s1.name@)
                        } else {
                            s0.name@
                        }),
                        (None, None) => true,
                        _ => false,
                    })
                },
                Err(e) => registry_unchanged(*final(self), *old(self)) && (match e {
                    ApicizeAppError::InvalidWorkspace(w) => w@ == workspace_id@ && !old(
                        self,
                    ).workspaces@.contains_key(workspace_id@),
                    ApicizeAppError::InvalidProxy(sid) => sid@ == update.id@ && old(
                        self,
                    ).workspaces@.contains_key(workspace_id@) && !old(
                        self,
                    ).workspaces@[workspace_id@].workspace.proxies.entities@.contains_key(
                        update.id@,
                    ),
                    _ => false,
                }),
            },
    {
        if !self.has_workspace(workspace_id) {
            return Err(ApicizeAppError::InvalidWorkspace(workspace_id.clone()));
        }
        let info = self.get_workspace_info_mut(workspace_id);
        if !info.workspace.proxies.entities.contains_key(&update.id) {
            return Err(ApicizeAppError::InvalidProxy(update.id.clone()));
        }
        info.dirty = true;
        let ghost params0 = info.workspace.proxies;
        {
            let proxy = info.workspace.proxies.get_entity_mut(&update.id);
            if let Some(name) = &update.name {
                proxy.name = name.clone();
            }
            if let Some(url) = &update.url {
                proxy.url = url.clone();
            }
            proxy.revalidate();
        }
        proof {
            crate::tree::lemma_params_wf_value_update(params0, info.workspace.proxies, update.id@);
        }
        let (updated_name, updated_validation_state) = {
            let p = info.workspace.proxies.get(&update.id).unwrap();
            (p.get_title(), p.validation_state)
        };
        let navigation = info.check_parameter_navigation_update(
            &update.id,
            &updated_name,
            updated_validation_state,
            EntityType::Proxy,
        );
        info.workspace.requests.rename_selected_proxy_selections(&update.id, &updated_name);
        if let Some(sel) = &mut info.workspace.defaults.selected_proxy {
            if sel.id.eq(&update.id) {
                sel.name = updated_name.clone();
            }
        }
        let (warnings, errors) = {
            let p = info.workspace.proxies.get(&update.id).unwrap();
            (crate::model::dup_opt_strings(&p.validation_warnings), crate::model::dup_opt_errors(
                &p.validation_errors,
            ))
        };
        Ok(UpdateWithNavigationResponse {
            navigation,
            validation_warnings: warnings,
            validation_errors: errors,
        })
    }

    /// Applies the workbook-default selection updates.
    pub fn update_defaults(&mut self, workspace_id: &String, update: &crate::updates::DefaultsUpdate)
        -> (r: Result<UpdateWithNavigationResponse, ApicizeAppError>)
        requires
            old(self).wf(),
        ensures
            final(self).wf(),
            match r {
                Ok(resp) => {
                    let d0 = old(self).workspaces@[workspace_id@].workspace.defaults;
                    let d1 = final(self).workspaces@[workspace_id@].workspace.defaults;
                    &&& old(self).workspaces@.contains_key(workspace_id@)
                    &&& final(self).workspaces@.dom() == old(self).workspaces@.dom()
                    &&& (forall|k: Seq<char>|
                        k != workspace_id@ && old(self).workspaces@.contains_key(k)
                            ==> (#[trigger] final(self).workspaces@[k]) == old(self).workspaces@[k])
                    &&& final(self).workspaces@[workspace_id@].dirty
                    &&& d1.selected_scenario == upd_sel(update.selected_scenario, d0.selected_scenario)
                    &&& d1.selected_authorization == upd_sel(
                        update.selected_authorization,
                        d0.selected_authorization,
                    )
                    &&& d1.selected_certificate == upd_sel(
                        update.selected_certificate,
                        d0.selected_certificate,
                    )
                    &&& d1.selected_proxy == upd_sel(update.selected_proxy, d0.selected_proxy)
                    &&& d1.selected_data == upd_sel(update.selected_data, d0.selected_data)
                    &&& d1.validation_state == d1.computed_validation()
                    &&& final(self).workspaces@[workspace_id@].workspace.requests == old(
                        self,
                    ).workspaces@[workspace_id@].workspace.requests
                },
                Err(e) => registry_unchanged(*final(self), *old(self)) && (
                e matches ApicizeAppError::InvalidWorkspace(w) && w@ == workspace_id@ && !old(
                    self,
                ).workspaces@.contains_key(workspace_id@)),
            },
    {
        if !self.has_workspace(workspace_id) {
            return Err(ApicizeAppError::InvalidWorkspace(workspace_id.clone()));
        }
        let info = self.get_workspace_info_mut(workspace_id);
        info.dirty = true;
        apply_sel(&mut info.workspace.defaults.selected_scenario, &update.selected_scenario);
        apply_sel(
            &mut info.workspace.defaults.selected_authorization,
            &update.selected_authorization,
        );
        apply_sel(&mut info.workspace.defaults.selected_certificate, &update.selected_certificate);
        apply_sel(&mut info.workspace.defaults.selected_proxy, &update.selected_proxy);
        apply_sel(&mut info.workspace.defaults.selected_data, &update.selected_data);
        if let Some(validation_warnings) = &update.validation_warnings {
            if validation_warnings.is_empty() {
                info.workspace.defaults.validation_warnings = None;
            } else {
                info.workspace.defaults.validation_warnings = Some(
                    crate::model::dup_strings(validation_warnings),
                );
            }
        }
        info.workspace.defaults.revalidate();
        let validation_state = info.workspace.defaults.validation_state;
        let requires_update = info.navigation.defaults.validation_state != validation_state;
        let navigation = if requires_update {
            let name = info.navigation.defaults.name.clone();
            let id = info.navigation.defaults.id.clone();
            info.navigation.defaults.validation_state = validation_state;
            Some(UpdatedNavigationEntry {
                id,
                name,
                entity_type: EntityType::Defaults,
                validation_state,
                execution_state: ExecutionState::empty(),
            })
        } else {
            None
        };
        let warnings = crate::model::dup_opt_strings(&info.workspace.defaults.validation_warnings);
        let errors = crate::model::dup_opt_errors(&info.workspace.defaults.validation_errors);
        Ok(UpdateWithNavigationResponse {
            navigation,
            validation_warnings: warnings,
            validation_errors: errors,
        })
    }
}


/// Optional pair lists with equal contents.
pub open spec fn opt_pairs_eq(a: Option<Vec<NameValuePair>>, b: Option<Vec<NameValuePair>>) -> bool {
    match (a, b) {
        (Some(x), Some(y)) => x@ == y@,
        (None, None) => true,
        _ => false,
    }
}

/// Optional string lists with equal contents.
pub open spec fn opt_strings_eq(a: Option<Vec<String>>, b: Option<Vec<String>>) -> bool {
    match (a, b) {
        (Some(x), Some(y)) => x@ == y@,
        (None, None) => true,
        _ => false,
    }
}

/// Optional bodies with equal contents.
pub open spec fn opt_body_eq(a: Option<RequestBody>, b: Option<RequestBody>) -> bool {
    match (a, b) {
        (Some(x), Some(y)) => crate::model::body_eq(x, y),
        (None, None) => true,
        _ => false,
    }
}

/// An optional text update that clears the field when the text is empty.
pub open spec fn upd_opt_str(u: Option<String>, o: Option<String>) -> Option<String> {
    match u {
        Some(v) => if v@.len() == 0 {
            None
        } else {
            Some(v)
        },
        None => o,
    }
}


/// Applies every present field of a request update in place, clearing the
/// fields an empty text or list stands for, and revalidates.
#[verifier::rlimit(100)]
#[verifier::spinoff_prover]
fn apply_request_update(req: &mut Request, update: &crate::updates::RequestUpdate)
    ensures
        final(req).id == old(req).id,
        final(req).name@ == upd_str(update.name, old(req).name@),
        final(req).key == upd_opt_str(update.key, old(req).key),
        final(req).url@ == upd_str(update.url, old(req).url@),
        final(req).method == (match update.method {
            Some(m) => Some(m),
            None => old(req).method,
        }),
        final(req).runs == (match update.runs {
            Some(n) => n,
            None => old(req).runs,
        }),
        final(req).multi_run_execution == (match update.multi_run_execution {
            Some(c) => c,
            None => old(req).multi_run_execution,
        }),
        final(req).timeout == (match update.timeout {
            Some(t) => if t > 0 {
                Some(t)
            } else {
                None
            },
            None => old(req).timeout,
        }),
        final(req).keep_alive == (match update.keep_alive {
            Some(b) => b,
            None => old(req).keep_alive,
        }),
        final(req).accept_invalid_certs == (match update.accept_invalid_certs {
            Some(b) => b,
            None => old(req).accept_invalid_certs,
        }),
        final(req).number_of_redirects == (match update.number_of_redirects {
            Some(n) => n,
            None => old(req).number_of_redirects,
        }),
        (match update.query_string_params {
            Some(v) => if v@.len() == 0 {
                final(req).query_string_params is None
            } else {
                final(req).query_string_params matches Some(q) && q@ == v@
            },
            None => opt_pairs_eq(final(req).query_string_params, old(req).query_string_params),
        }),
        (match update.headers {
            Some(v) => if v@.len() == 0 {
                final(req).headers is None
            } else {
                final(req).headers matches Some(h) && h@ == v@
            },
            None => opt_pairs_eq(final(req).headers, old(req).headers),
        }),
        final(req).test == upd_opt_str(update.test, old(req).test),
        (match update.body {
            Some(b) => (match (final(req).body, b) {
                (Some(x), Some(y)) => crate::model::body_eq(x, y),
                (None, None) => true,
                _ => false,
            }),
            None => opt_body_eq(final(req).body, old(req).body),
        }),
        final(req).selected_scenario == upd_sel(
            update.selected_scenario,
            old(req).selected_scenario,
        ),
        final(req).selected_authorization == upd_sel(
            update.selected_authorization,
            old(req).selected_authorization,
        ),
        final(req).selected_certificate == upd_sel(
            update.selected_certificate,
            old(req).selected_certificate,
        ),
        final(req).selected_proxy == upd_sel(update.selected_proxy, old(req).selected_proxy),
        final(req).selected_data == upd_sel(update.selected_data, old(req).selected_data),
        (match update.validation_warnings {
            Some(v) => if v@.len() == 0 {
                final(req).validation_warnings is None
            } else {
                final(req).validation_warnings matches Some(w) && w@ == v@
            },
            None => opt_strings_eq(final(req).validation_warnings, old(req).validation_warnings),
        }),
        final(req).validation_state == final(req).computed_validation(),
{
    let sel_scenario = upd_sel_value(&update.selected_scenario, &req.selected_scenario);
    let sel_authorization = upd_sel_value(&update.selected_authorization, &req.selected_authorization);
    let sel_certificate = upd_sel_value(&update.selected_certificate, &req.selected_certificate);
    let sel_proxy = upd_sel_value(&update.selected_proxy, &req.selected_proxy);
    let sel_data = upd_sel_value(&update.selected_data, &req.selected_data);
    let mut next = Request {
        id: req.id.clone(),
        name: match &update.name {
            Some(n) => n.clone(),
            None => req.name.clone(),
        },
        key: match &update.key {
            Some(k) => if k.as_str().is_empty() {
                None
            } else {
                Some(k.clone())
            },
            None => crate::model::dup_opt_string(&req.key),
        },
        url: match &update.url {
            Some(u) => u.clone(),
            None => req.url.clone(),
        },
        method: match update.method {
            Some(m) => Some(m),
            None => req.method,
        },
        runs: match update.runs {
            Some(n) => n,
            None => req.runs,
        },
        multi_run_execution: match update.multi_run_execution {
            Some(c) => c,
            None => req.multi_run_execution,
        },
        timeout: match update.timeout {
            Some(t) => if t > 0 {
                Some(t)
            } else {
                None
            },
            None => req.timeout,
        },
        keep_alive: match update.keep_alive {
            Some(b) => b,
            None => req.keep_alive,
        },
        accept_invalid_certs: match update.accept_invalid_certs {
            Some(b) => b,
            None => req.accept_invalid_certs,
        },
        number_of_redirects: match update.number_of_redirects {
            Some(n) => n,
            None => req.number_of_redirects,
        },
        query_string_params: match &update.query_string_params {
            Some(v) => if v.is_empty() {
                None
            } else {
                Some(crate::model::dup_pairs(v))
            },
            None => crate::model::dup_opt_pairs(&req.query_string_params),
        },
        headers: match &update.headers {
            Some(v) => if v.is_empty() {
                None
            } else {
                Some(crate::model::dup_pairs(v))
            },
            None => crate::model::dup_opt_pairs(&req.headers),
        },
        test: match &update.test {
            Some(t) => if t.as_str().is_empty() {
                None
            } else {
                Some(t.clone())
            },
            None => crate::model::dup_opt_string(&req.test),
        },
        body: match &update.body {
            Some(b) => crate::model::dup_body(b),
            None => crate::model::dup_body(&req.body),
        },
        selected_scenario: sel_scenario,
        selected_authorization: sel_authorization,
        selected_certificate: sel_certificate,
        selected_proxy: sel_proxy,
        selected_data: sel_data,
        validation_state: req.validation_state,
        validation_warnings: match &update.validation_warnings {
            Some(v) => if v.is_empty() {
                None
            } else {
                Some(crate::model::dup_strings(v))
            },
            None => crate::model::dup_opt_strings(&req.validation_warnings),
        },
        validation_errors: crate::model::dup_opt_errors(&req.validation_errors),
    };
    next.revalidate();
    *req = next;
}

/// The selection an optional selection update leaves behind, by value.
fn upd_sel_value(u: &Option<Selection>, o: &Option<Selection>) -> (r: Option<Selection>)
    ensures
        r == upd_sel(*u, *o),
{
    match u {
        Some(sel) => {
            let marker = "\tDEFAULT\t".to_owned();
            if sel.id.eq(&marker) {
                None
            } else {
                Some(Selection { id: sel.id.clone(), name: sel.name.clone() })
            }
        },
        None => crate::model::dup_selection(o),
    }
}

impl Workspaces {
    /// Applies a field-level request update: every present field replaces
    /// the stored one (empty keys, tests and pair lists clear), the request
    /// is revalidated, and the navigation node is brought up to date.
    #[verifier::rlimit(100)]
    pub fn update_request(&mut self, workspace_id: &String, update: &crate::updates::RequestUpdate)
        -> (r: Result<UpdateWithNavigationResponse, ApicizeAppError>)
        requires
            old(self).wf(),
        ensures
            final(self).wf(),
            match r {
                Ok(resp) => {
                    let t0 = old(self).workspaces@[workspace_id@].workspace.requests;
                    let t1 = final(self).workspaces@[workspace_id@].workspace.requests;
                    &&& old(self).workspaces@.contains_key(workspace_id@)
                    &&& t0.entities@.contains_key(update.id@)
                    &&& t0.entities@[update.id@] is Request
                    &&& final(self).workspaces@.dom() == old(self).workspaces@.dom()
                    &&& (forall|k: Seq<char>|
                        k != workspace_id@ && old(self).workspaces@.contains_key(k)
                            ==> (#[trigger] final(self).workspaces@[k]) == old(self).workspaces@[k])
                    &&& final(self).workspaces@[workspace_id@].dirty
                    &&& t1.entities@.contains_key(update.id@)
                    &&& (t1.entities@[update.id@] matches crate::model::RequestEntry::Request(r1)
                        && t0.entities@[update.id@] matches crate::model::RequestEntry::Request(r0)
                        && {
                        &&& t1.entities@ == t0.entities@.insert(
                            update.id@,
                            crate::model::RequestEntry::Request(r1),
                        )
                        &&& r1.id == r0.id
                        &&& r1.name@ == upd_str(update.name, r0.name@)
                        &&& r1.key == upd_opt_str(update.key, r0.key)
                        &&& r1.url@ == upd_str(update.url, r0.url@)
                        &&& r1.method == (match update.method {
                            Some(m) => Some(m),
                            None => r0.method,
                        })
                        &&& r1.runs == (match update.runs {
                            Some(n) => n,
                            None => r0.runs,
                        })
                        &&& r1.multi_run_execution == (match update.multi_run_execution {
                            Some(c) => c,
                            None => r0.multi_run_execution,
                        })
                        &&& r1.timeout == (match update.timeout {
                            Some(t) => if t > 0 {
                                Some(t)
                            } else {
                                None
                            },
                            None => r0.timeout,
                        })
                        &&& r1.keep_alive == (match update.keep_alive {
                            Some(b) => b,
                            None => r0.keep_alive,
                        })
                        &&& r1.accept_invalid_certs == (match update.accept_invalid_certs {
                            Some(b) => b,
                            None => r0.accept_invalid_certs,
                        })
                        &&& r1.number_of_redirects == (match update.number_of_redirects {
                            Some(n) => n,
                            None => r0.number_of_redirects,
                        })
                        &&& (match update.query_string_params {
                            Some(v) => if v@.len() == 0 {
                                r1.query_string_params is None
                            } else {
                                r1.query_string_params matches Some(q) && q@ == v@
                            },
                            None => opt_pairs_eq(r1.query_string_params, r0.query_string_params),
                        })
                        &&& (match update.headers {
                            Some(v) => if v@.len() == 0 {
                                r1.headers is None
                            } else {
                                r1.headers matches Some(h) && h@ == v@
                            },
                            None => opt_pairs_eq(r1.headers, r0.headers),
                        })
                        &&& r1.test == upd_opt_str(update.test, r0.test)
                        &&& (match update.body {
                            Some(b) => (match (r1.body, b) {
                                (Some(x), Some(y)) => crate::model::body_eq(x, y),
                                (None, None) => true,
                                _ => false,
                            }),
                            None => opt_body_eq(r1.body, r0.body),
                        })
                        &&& r1.selected_scenario == upd_sel(
                            update.selected_scenario,
                            r0.selected_scenario,
                        )
                        &&& r1.selected_authorization == upd_sel(
                            update.selected_authorization,
                            r0.selected_authorization,
                        )
                        &&& r1.selected_certificate == upd_sel(
                            update.selected_certificate,
                            r0.selected_certificate,
                        )
                        &&& r1.selected_proxy == upd_sel(update.selected_proxy, r0.selected_proxy)
                        &&& r1.selected_data == upd_sel(update.selected_data, r0.selected_data)
                        &&& (match update.validation_warnings {
                            Some(v) => if v@.len() == 0 {
                                r1.validation_warnings is None
                            } else {
                                r1.validation_warnings matches Some(w) && w@ == v@
                            },
                            None => opt_strings_eq(r1.validation_warnings, r0.validation_warnings),
                        })
                        &&& r1.validation_state == r1.computed_validation()
                        &&& (match resp.navigation {
                            Some(delta) => delta.id@ == update.id@ && delta.name@ == title_of(
                                r1.name@,
                            ) && delta.validation_state == r1.validation_state,
                            None => true,
                        })
                    })
                },
                Err(e) => registry_unchanged(*final(self), *old(self)) && (match e {
                    ApicizeAppError::InvalidWorkspace(w) => w@ == workspace_id@ && !old(
                        self,
                    ).workspaces@.contains_key(workspace_id@),
                    ApicizeAppError::InvalidRequest(sid) => sid@ == update.id@ && old(
                        self,
                    ).workspaces@.contains_key(workspace_id@) && !(old(
                        self,
                    ).workspaces@[workspace_id@].workspace.requests.entities@.contains_key(
                        update.id@,
                    ) && old(self).workspaces@[workspace_id@].workspace.requests.entities@[
                        update.id@] is Request),
                    _ => false,
                }),
            },
    {
        if !self.has_workspace(workspace_id) {
            return Err(ApicizeAppError::InvalidWorkspace(workspace_id.clone()));
        }
        let info = self.get_workspace_info_mut(workspace_id);
        let is_request = match info.workspace.requests.get(&update.id) {
            Some(e) => !e.is_group(),
            None => false,
        };
        if !is_request {
            return Err(ApicizeAppError::InvalidRequest(update.id.clone()));
        }
        info.dirty = true;
        let ghost tree0 = info.workspace.requests;
        {
            let entry = info.workspace.requests.get_entity_mut(&update.id);
            match entry {
                crate::model::RequestEntry::Request(req) => {
                    apply_request_update(req, update);
                },
                crate::model::RequestEntry::Group(_) => {},
            }
        }
        proof {
            crate::tree::lemma_tree_wf_value_update(
                tree0,
                info.workspace.requests,
                update.id@,
            );
        }
        let (updated_name, updated_validation_state) = {
            let e = info.workspace.requests.get(&update.id).unwrap();
            (e.get_title(), e.get_validation_state())
        };
        let execution_state = match info.executions.get(&update.id) {
            Some(e) => e.execution_state,
            None => ExecutionState::empty(),
        };
        let navigation = info.check_request_navigation_update(
            &update.id,
            &updated_name,
            updated_validation_state,
            execution_state,
        );
        let (warnings, errors) = {
            match info.workspace.requests.get(&update.id).unwrap() {
                crate::model::RequestEntry::Request(req) => (
                    crate::model::dup_opt_strings(&req.validation_warnings),
                    crate::model::dup_opt_errors(&req.validation_errors),
                ),
                crate::model::RequestEntry::Group(g) => (
                    crate::model::dup_opt_strings(&g.validation_warnings),
                    crate::model::dup_opt_errors(&g.validation_errors),
                ),
            }
        };
        Ok(UpdateWithNavigationResponse {
            navigation,
            validation_warnings: warnings,
            validation_errors: errors,
        })
    }

    /// Applies a field-level group update, mirroring the request update for
    /// the group-bearing fields.
    #[verifier::rlimit(60)]
    pub fn update_group(&mut self, workspace_id: &String, update: &crate::updates::RequestGroupUpdate)
        -> (r: Result<UpdateWithNavigationResponse, ApicizeAppError>)
        requires
            old(self).wf(),
        ensures
            final(self).wf(),
            match r {
                Ok(resp) => {
                    let t0 = old(self).workspaces@[workspace_id@].workspace.requests;
                    let t1 = final(self).workspaces@[workspace_id@].workspace.requests;
                    &&& old(self).workspaces@.contains_key(workspace_id@)
                    &&& t0.entities@.contains_key(update.id@)
                    &&& t0.entities@[update.id@] is Group
                    &&& final(self).workspaces@.dom() == old(self).workspaces@.dom()
                    &&& (forall|k: Seq<char>|
                        k != workspace_id@ && old(self).workspaces@.contains_key(k)
                            ==> (#[trigger] final(self).workspaces@[k]) == old(self).workspaces@[k])
                    &&& final(self).workspaces@[workspace_id@].dirty
                    &&& t1.entities@.contains_key(update.id@)
                    &&& (t1.entities@[update.id@] matches crate::model::RequestEntry::Group(g1)
                        && t0.entities@[update.id@] matches crate::model::RequestEntry::Group(g0)
                        && {
                        &&& t1.entities@ == t0.entities@.insert(
                            update.id@,
                            crate::model::RequestEntry::Group(g1),
                        )
                        &&& g1.id == g0.id
                        &&& g1.name@ == upd_str(update.name, g0.name@)
                        &&& g1.key == upd_opt_str(update.key, g0.key)
                        &&& g1.runs == (match update.runs {
                            Some(n) => n,
                            None => g0.runs,
                        })
                        &&& g1.execution == (match update.execution {
                            Some(c) => c,
                            None => g0.execution,
                        })
                        &&& g1.multi_run_execution == (match update.multi_run_execution {
                            Some(c) => c,
                            None => g0.multi_run_execution,
                        })
                        &&& g1.selected_scenario == upd_sel(
                            update.selected_scenario,
                            g0.selected_scenario,
                        )
                        &&& g1.selected_authorization == upd_sel(
                            update.selected_authorization,
                            g0.selected_authorization,
                        )
                        &&& g1.selected_certificate == upd_sel(
                            update.selected_certificate,
                            g0.selected_certificate,
                        )
                        &&& g1.selected_proxy == upd_sel(update.selected_proxy, g0.selected_proxy)
                        &&& g1.selected_data == upd_sel(update.selected_data, g0.selected_data)
                        &&& g1.validation_state == g1.computed_validation()
                    })
                },
                Err(e) => registry_unchanged(*final(self), *old(self)) && (match e {
                    ApicizeAppError::InvalidWorkspace(w) => w@ == workspace_id@ && !old(
                        self,
                    ).workspaces@.contains_key(workspace_id@),
                    ApicizeAppError::InvalidGroup(sid) => sid@ == update.id@ && old(
                        self,
                    ).workspaces@.contains_key(workspace_id@) && !(old(
                        self,
                    ).workspaces@[workspace_id@].workspace.requests.entities@.contains_key(
                        update.id@,
                    ) && old(self).workspaces@[workspace_id@].workspace.requests.entities@[
                        update.id@] is Group),
                    _ => false,
                }),
            },
    {
        if !self.has_workspace(workspace_id) {
            return Err(ApicizeAppError::InvalidWorkspace(workspace_id.clone()));
        }
        let info = self.get_workspace_info_mut(workspace_id);
        let is_group = match info.workspace.requests.get(&update.id) {
            Some(e) => e.is_group(),
            None => false,
        };
        if !is_group {
            return Err(ApicizeAppError::InvalidGroup(update.id.clone()));
        }
        info.dirty = true;
        let ghost tree0 = info.workspace.requests;
        {
            let entry = info.workspace.requests.get_entity_mut(&update.id);
            match entry {
                crate::model::RequestEntry::Group(grp) => {
                    if let Some(name) = &update.name {
                        grp.name = name.clone();
                    }
                    if let Some(key) = &update.key {
                        if key.as_str().is_empty() {
                            grp.key = None;
                        } else {
                            grp.key = Some(key.clone());
                        }
                    }
                    if let Some(runs) = update.runs {
                        grp.runs = runs;
                    }
                    if let Some(execution) = update.execution {
                        grp.execution = execution;
                    }
                    if let Some(mre) = update.multi_run_execution {
                        grp.multi_run_execution = mre;
                    }
                    apply_sel(&mut grp.selected_scenario, &update.selected_scenario);
                    apply_sel(&mut grp.selected_authorization, &update.selected_authorization);
                    apply_sel(&mut grp.selected_certificate, &update.selected_certificate);
                    apply_sel(&mut grp.selected_proxy, &update.selected_proxy);
                    apply_sel(&mut grp.selected_data, &update.selected_data);
                    if let Some(vw) = &update.validation_warnings {
                        if vw.is_empty() {
                            grp.validation_warnings = None;
                        } else {
                            grp.validation_warnings = Some(crate::model::dup_strings(vw));
                        }
                    }
                    grp.revalidate();
                },
                crate::model::RequestEntry::Request(_) => {},
            }
        }
        proof {
            crate::tree::lemma_tree_wf_value_update(
                tree0,
                info.workspace.requests,
                update.id@,
            );
        }
        let (updated_name, updated_validation_state) = {
            let e = info.workspace.requests.get(&update.id).unwrap();
            (e.get_title(), e.get_validation_state())
        };
        let execution_state = match info.executions.get(&update.id) {
            Some(e) => e.execution_state,
            None => ExecutionState::empty(),
        };
        let navigation = info.check_request_navigation_update(
            &update.id,
            &updated_name,
            updated_validation_state,
            execution_state,
        );
        let (warnings, errors) = {
            match info.workspace.requests.get(&update.id).unwrap() {
                crate::model::RequestEntry::Request(req) => (
                    crate::model::dup_opt_strings(&req.validation_warnings),
                    crate::model::dup_opt_errors(&req.validation_errors),
                ),
                crate::model::RequestEntry::Group(g) => (
                    crate::model::dup_opt_strings(&g.validation_warnings),
                    crate::model::dup_opt_errors(&g.validation_errors),
                ),
            }
        };
        Ok(UpdateWithNavigationResponse {
            navigation,
            validation_warnings: warnings,
            validation_errors: errors,
        })
    }

    /// Replaces a request's body.
    pub fn update_request_body(&mut self, workspace_id: &String, body_info: &RequestBodyInfo)
        -> (r: Result<(), ApicizeAppError>)
        requires
            old(self).wf(),
        ensures
            final(self).wf(),
            match r {
                Ok(()) => {
                    let t0 = old(self).workspaces@[workspace_id@].workspace.requests;
                    let t1 = final(self).workspaces@[workspace_id@].workspace.requests;
                    &&& old(self).workspaces@.contains_key(workspace_id@)
                    &&& final(self).workspaces@[workspace_id@].dirty
                    &&& t1.entities@.contains_key(body_info.id@)
                    &&& (t1.entities@[body_info.id@] matches crate::model::RequestEntry::Request(
                        r1,
                    ) && t0.entities@[body_info.id@] matches crate::model::RequestEntry::Request(
                        r0,
                    ) && {
                        &&& r1 == (crate::model::Request { body: r1.body, ..r0 })
                        &&& (match (r1.body, body_info.body) {
                            (Some(x), Some(y)) => crate::model::body_eq(x, y),
                            (None, None) => true,
                            _ => false,
                        })
                    })
                },
                Err(e) => registry_unchanged(*final(self), *old(self)) && (match e {
                    ApicizeAppError::InvalidWorkspace(w) => w@ == workspace_id@ && !old(
                        self,
                    ).workspaces@.contains_key(workspace_id@),
                    ApicizeAppError::InvalidRequest(sid) => sid@ == body_info.id@,
                    _ => false,
                }),
            },
    {
        if !self.has_workspace(workspace_id) {
            return Err(ApicizeAppError::InvalidWorkspace(workspace_id.clone()));
        }
        let info = self.get_workspace_info_mut(workspace_id);
        let is_request = match info.workspace.requests.get(&body_info.id) {
            Some(e) => !e.is_group(),
            None => false,
        };
        if !is_request {
            return Err(ApicizeAppError::InvalidRequest(body_info.id.clone()));
        }
        info.dirty = true;
        let ghost tree0 = info.workspace.requests;
        {
            let entry = info.workspace.requests.get_entity_mut(&body_info.id);
            match entry {
                crate::model::RequestEntry::Request(req) => {
                    req.body = crate::model::dup_body(&body_info.body);
                },
                crate::model::RequestEntry::Group(_) => {},
            }
        }
        proof {
            crate::tree::lemma_tree_wf_value_update(
                tree0,
                info.workspace.requests,
                body_info.id@,
            );
        }
        Ok(())
    }
}


/// The text a field of a possibly re-typed entity ends up with: the update
/// when present, the old value when the scheme stayed, empty otherwise.
pub open spec fn pick_str(u: Option<String>, same_kind: bool, old_val: Seq<char>) -> Seq<char> {
    match u {
        Some(v) => v@,
        None => if same_kind {
            old_val
        } else {
            Seq::<char>::empty()
        },
    }
}

impl Workspaces {
    /// Applies a field-level authorization update: switches the scheme when
    /// asked, applies the present fields (old values carry over only within
    /// the same scheme), revalidates, renames selections pointing at it and
    /// patches the navigation entry.
    #[verifier::rlimit(100)]
    pub fn update_authorization(
        &mut self,
        workspace_id: &String,
        update: &crate::updates::AuthorizationUpdate,
    ) -> (r: Result<UpdateWithNavigationResponse, ApicizeAppError>)
        requires
            old(self).wf(),
        ensures
            final(self).wf(),
            match r {
                Ok(resp) => {
                    let ws0 = old(self).workspaces@[workspace_id@].workspace;
                    let ws1 = final(self).workspaces@[workspace_id@].workspace;
                    let a0 = ws0.authorizations.entities@[update.id@];
                    let a1 = ws1.authorizations.entities@[update.id@];
                    &&& old(self).workspaces@.contains_key(workspace_id@)
                    &&& ws0.authorizations.entities@.contains_key(update.id@)
                    &&& final(self).workspaces@.dom() == old(self).workspaces@.dom()
                    &&& (forall|k: Seq<char>|
                        k != workspace_id@ && old(self).workspaces@.contains_key(k)
                            ==> (#[trigger] final(self).workspaces@[k]) == old(self).workspaces@[k])
                    &&& final(self).workspaces@[workspace_id@].dirty
                    &&& ws1.authorizations.entities@.dom() == ws0.authorizations.entities@.dom()
                    &&& a1.spec_id() == update.id@
                    &&& (match update.auth_type {
                        Some(crate::updates::AuthorizationUpdateType::Basic) => a1 is Basic,
                        Some(crate::updates::AuthorizationUpdateType::OAuth2Client) => a1
                            is OAuth2Client,
                        Some(crate::updates::AuthorizationUpdateType::OAuth2Pkce) => a1
                            is OAuth2Pkce,
                        Some(crate::updates::AuthorizationUpdateType::ApiKey) => a1 is ApiKey,
                        None => (a0 is Basic <==> a1 is Basic) && (a0 is OAuth2Client <==> a1
                            is OAuth2Client) && (a0 is OAuth2Pkce <==> a1 is OAuth2Pkce) && (a0
                            is ApiKey <==> a1 is ApiKey),
                    })
                    &&& a1.spec_name() == upd_str(update.name, a0.spec_name())
                    &&& (a1 matches Authorization::Basic { username, password, .. } ==> username@
                        == pick_str(update.username, a0 is Basic, (match a0 {
                        Authorization::Basic { username: u0, .. } => u0@,
                        _ => Seq::<char>::empty(),
                    })) && password@ == pick_str(update.password, a0 is Basic, (match a0 {
                        Authorization::Basic { password: p0, .. } => p0@,
                        _ => Seq::<char>::empty(),
                    })))
                    &&& (a1 matches Authorization::ApiKey { header, value, .. } ==> header@
                        == pick_str(update.header, a0 is ApiKey, (match a0 {
                        Authorization::ApiKey { header: h0, .. } => h0@,
                        _ => Seq::<char>::empty(),
                    })) && value@ == pick_str(update.value, a0 is ApiKey, (match a0 {
                        Authorization::ApiKey { value: v0, .. } => v0@,
                        _ => Seq::<char>::empty(),
                    })))
                    &&& (a1 matches Authorization::OAuth2Client {
                        access_token_url,
                        client_id,
                        client_secret,
                        ..
                    } ==> access_token_url@ == pick_str(
                        update.access_token_url,
                        a0 is OAuth2Client,
                        (match a0 {
                            Authorization::OAuth2Client { access_token_url: x0, .. } => x0@,
                            _ => Seq::<char>::empty(),
                        }),
                    ) && client_id@ == pick_str(update.client_id, a0 is OAuth2Client, (match a0 {
                        Authorization::OAuth2Client { client_id: x0, .. } => x0@,
                        _ => Seq::<char>::empty(),
                    })) && client_secret@ == pick_str(
                        update.client_secret,
                        a0 is OAuth2Client,
                        (match a0 {
                            Authorization::OAuth2Client { client_secret: x0, .. } => x0@,
                            _ => Seq::<char>::empty(),
                        }),
                    ))
                    &&& (a1 matches Authorization::OAuth2Pkce {
                        authorize_url,
                        access_token_url,
                        client_id,
                        ..
                    } ==> authorize_url@ == pick_str(update.authorize_url, a0 is OAuth2Pkce, (
                    match a0 {
                        Authorization::OAuth2Pkce { authorize_url: x0, .. } => x0@,
                        _ => Seq::<char>::empty(),
                    })) && access_token_url@ == pick_str(
                        update.access_token_url,
                        a0 is OAuth2Pkce,
                        (match a0 {
                            Authorization::OAuth2Pkce { access_token_url: x0, .. } => x0@,
                            _ => Seq::<char>::empty(),
                        }),
                    ) && client_id@ == pick_str(update.client_id, a0 is OAuth2Pkce, (match a0 {
                        Authorization::OAuth2Pkce { client_id: x0, .. } => x0@,
                        _ => Seq::<char>::empty(),
                    })))
                    &&& a1.spec_validation_state() == a1.computed_validation()
                    &&& (forall|k: Seq<char>|
                        #[trigger] ws1.requests.entities@.contains_key(k)
                            ==> crate::tree::same_but_selected_authorization(
                            ws0.requests.entities@[k],
                            ws1.requests.entities@[k],
                        ) && crate::tree::sel_renamed_selected_authorization(
                            ws0.requests.entities@[k],
                            ws1.requests.entities@[k],
                            update.id@,
                            title_of(a1.spec_name()),
                        ))
                    &&& ws1.defaults == (crate::model::WorkbookDefaults {
                        selected_authorization: ws1.defaults.selected_authorization,
                        ..ws0.defaults
                    })
                    &&& (match (ws0.defaults.selected_authorization, ws1.defaults.selected_authorization) {
                        (Some(s0), Some(s1)) => s1.id == s0.id && s1.name@ == (if s0.id@
                            == update.id@ {
                            title_of(a1.spec_name())
                        } else {
                            s0.name@
                        }),
                        (None, None) => true,
                        _ => false,
                    })
                },
                Err(e) => registry_unchanged(*final(self), *old(self)) && (match e {
                    ApicizeAppError::InvalidWorkspace(w) => w@ == workspace_id@ && !old(
                        self,
                    ).workspaces@.contains_key(workspace_id@),
                    ApicizeAppError::InvalidAuthorization(sid) => sid@ == update.id@ && old(
                        self,
                    ).workspaces@.contains_key(workspace_id@) && !old(
                        self,
                    ).workspaces@[workspace_id@].workspace.authorizations.entities@.contains_key(
                        update.id@,
                    ),
                    _ => false,
                }),
            },
    {
        if !self.has_workspace(workspace_id) {
            return Err(ApicizeAppError::InvalidWorkspace(workspace_id.clone()));
        }
        let info = self.get_workspace_info_mut(workspace_id);
        if !info.workspace.authorizations.entities.contains_key(&update.id) {
            return Err(ApicizeAppError::InvalidAuthorization(update.id.clone()));
        }
        info.dirty = true;
        let ghost params0 = info.workspace.authorizations;
        {
            let auth = info.workspace.authorizations.get_entity_mut(&update.id);
            let next = build_updated_authorization(auth, update);
            *auth = next;
        }
        proof {
            crate::tree::lemma_params_wf_value_update(
                params0,
                info.workspace.authorizations,
                update.id@,
            );
        }
        let (updated_name, updated_validation_state) = {
            let a = info.workspace.authorizations.get(&update.id).unwrap();
            (a.get_title(), a.get_validation_state())
        };
        let navigation = info.check_parameter_navigation_update(
            &update.id,
            &updated_name,
            updated_validation_state,
            EntityType::Authorization,
        );
        info.workspace.requests.rename_selected_authorization_selections(
            &update.id,
            &updated_name,
        );
        if let Some(sel) = &mut info.workspace.defaults.selected_authorization {
            if sel.id.eq(&update.id) {
                sel.name = updated_name.clone();
            }
        }
        let a = info.workspace.authorizations.get(&update.id).unwrap();
        let warnings = match a {
            Authorization::Basic { validation_warnings, .. } => crate::model::dup_opt_strings(
                validation_warnings,
            ),
            Authorization::OAuth2Client { validation_warnings, .. } =>
                crate::model::dup_opt_strings(validation_warnings),
            Authorization::OAuth2Pkce { validation_warnings, .. } =>
                crate::model::dup_opt_strings(validation_warnings),
            Authorization::ApiKey { validation_warnings, .. } => crate::model::dup_opt_strings(
                validation_warnings,
            ),
        };
        Ok(UpdateWithNavigationResponse {
            navigation,
            validation_warnings: warnings,
            validation_errors: None,
        })
    }
}

/// Builds the authorization an update leaves behind: the requested scheme
/// with each field taken from the update, carried over within the same
/// scheme, or reset.
#[verifier::rlimit(100)]
fn build_updated_authorization(
    a0: &Authorization,
    update: &crate::updates::AuthorizationUpdate,
) -> (r: Authorization)
    ensures
        r.spec_id() == update.id@,
        (match update.auth_type {
            Some(crate::updates::AuthorizationUpdateType::Basic) => r is Basic,
            Some(crate::updates::AuthorizationUpdateType::OAuth2Client) => r is OAuth2Client,
            Some(crate::updates::AuthorizationUpdateType::OAuth2Pkce) => r is OAuth2Pkce,
            Some(crate::updates::AuthorizationUpdateType::ApiKey) => r is ApiKey,
            None => (a0 is Basic <==> r is Basic) && (a0 is OAuth2Client <==> r is OAuth2Client)
                && (a0 is OAuth2Pkce <==> r is OAuth2Pkce) && (a0 is ApiKey <==> r is ApiKey),
        }),
        r.spec_name() == upd_str(update.name, a0.spec_name()),
        (r matches Authorization::Basic { username, password, .. } ==> username@ == pick_str(
            update.username,
            a0 is Basic,
            (match a0 {
                Authorization::Basic { username: u0, .. } => u0@,
                _ => Seq::<char>::empty(),
            }),
        ) && password@ == pick_str(update.password, a0 is Basic, (match a0 {
            Authorization::Basic { password: p0, .. } => p0@,
            _ => Seq::<char>::empty(),
        }))),
        (r matches Authorization::ApiKey { header, value, .. } ==> header@ == pick_str(
            update.header,
            a0 is ApiKey,
            (match a0 {
                Authorization::ApiKey { header: h0, .. } => h0@,
                _ => Seq::<char>::empty(),
            }),
        ) && value@ == pick_str(update.value, a0 is ApiKey, (match a0 {
            Authorization::ApiKey { value: v0, .. } => v0@,
            _ => Seq::<char>::empty(),
        }))),
        (r matches Authorization::OAuth2Client { access_token_url, client_id, client_secret, .. }
            ==> access_token_url@ == pick_str(update.access_token_url, a0 is OAuth2Client, (
        match a0 {
            Authorization::OAuth2Client { access_token_url: x0, .. } => x0@,
            _ => Seq::<char>::empty(),
        })) && client_id@ == pick_str(update.client_id, a0 is OAuth2Client, (match a0 {
            Authorization::OAuth2Client { client_id: x0, .. } => x0@,
            _ => Seq::<char>::empty(),
        })) && client_secret@ == pick_str(update.client_secret, a0 is OAuth2Client, (match a0 {
            Authorization::OAuth2Client { client_secret: x0, .. } => x0@,
            _ => Seq::<char>::empty(),
        }))),
        (r matches Authorization::OAuth2Pkce { authorize_url, access_token_url, client_id, .. }
            ==> authorize_url@ == pick_str(update.authorize_url, a0 is OAuth2Pkce, (match a0 {
            Authorization::OAuth2Pkce { authorize_url: x0, .. } => x0@,
            _ => Seq::<char>::empty(),
        })) && access_token_url@ == pick_str(update.access_token_url, a0 is OAuth2Pkce, (
        match a0 {
            Authorization::OAuth2Pkce { access_token_url: x0, .. } => x0@,
            _ => Seq::<char>::empty(),
        })) && client_id@ == pick_str(update.client_id, a0 is OAuth2Pkce, (match a0 {
            Authorization::OAuth2Pkce { client_id: x0, .. } => x0@,
            _ => Seq::<char>::empty(),
        }))),
        r.spec_validation_state() == r.computed_validation(),
{
    let is_basic = match a0 {
        Authorization::Basic { .. } => true,
        _ => false,
    };
    let is_client = match a0 {
        Authorization::OAuth2Client { .. } => true,
        _ => false,
    };
    let is_pkce = match a0 {
        Authorization::OAuth2Pkce { .. } => true,
        _ => false,
    };
    let is_key = match a0 {
        Authorization::ApiKey { .. } => true,
        _ => false,
    };
    let target: crate::updates::AuthorizationUpdateType = match update.auth_type {
        Some(t) => t,
        None => if is_basic {
            crate::updates::AuthorizationUpdateType::Basic
        } else if is_client {
            crate::updates::AuthorizationUpdateType::OAuth2Client
        } else if is_pkce {
            crate::updates::AuthorizationUpdateType::OAuth2Pkce
        } else {
            crate::updates::AuthorizationUpdateType::ApiKey
        },
    };
    let name = match &update.name {
        Some(n) => n.clone(),
        None => a0.get_name().clone(),
    };
    let warnings = match &update.validation_warnings {
        Some(v) => if v.is_empty() {
            None
        } else {
            Some(crate::model::dup_strings(v))
        },
        None => None,
    };
    let error = name.as_str().is_empty();
    let validation_state = ValidationState { warning: warnings.is_some(), error };
    match target {
        crate::updates::AuthorizationUpdateType::Basic => {
            let username = match (&update.username, a0) {
                (Some(u), _) => u.clone(),
                (None, Authorization::Basic { username, .. }) => username.clone(),
                _ => String::new(),
            };
            let password = match (&update.password, a0) {
                (Some(p), _) => p.clone(),
                (None, Authorization::Basic { password, .. }) => password.clone(),
                _ => String::new(),
            };
            Authorization::Basic {
                id: update.id.clone(),
                name,
                username,
                password,
                validation_state,
                validation_warnings: warnings,
                validation_errors: None,
            }
        },
        crate::updates::AuthorizationUpdateType::OAuth2Client => {
            let access_token_url = match (&update.access_token_url, a0) {
                (Some(v), _) => v.clone(),
                (None, Authorization::OAuth2Client { access_token_url, .. }) =>
                    access_token_url.clone(),
                _ => String::new(),
            };
            let client_id = match (&update.client_id, a0) {
                (Some(v), _) => v.clone(),
                (None, Authorization::OAuth2Client { client_id, .. }) => client_id.clone(),
                _ => String::new(),
            };
            let client_secret = match (&update.client_secret, a0) {
                (Some(v), _) => v.clone(),
                (None, Authorization::OAuth2Client { client_secret, .. }) =>
                    client_secret.clone(),
                _ => String::new(),
            };
            let audience = match (&update.audience, a0) {
                (Some(v), _) => crate::model::dup_opt_string(v),
                (None, Authorization::OAuth2Client { audience, .. }) =>
                    crate::model::dup_opt_string(audience),
                _ => None,
            };
            let scope = match (&update.scope, a0) {
                (Some(v), _) => crate::model::dup_opt_string(v),
                (None, Authorization::OAuth2Client { scope, .. }) => crate::model::dup_opt_string(
                    scope,
                ),
                _ => None,
            };
            let selected_certificate = match (&update.selected_certificate, a0) {
                (Some(v), _) => Some(Selection { id: v.id.clone(), name: v.name.clone() }),
                (None, Authorization::OAuth2Client { selected_certificate, .. }) =>
                    crate::model::dup_selection(selected_certificate),
                _ => None,
            };
            let selected_proxy = match (&update.selected_proxy, a0) {
                (Some(v), _) => Some(Selection { id: v.id.clone(), name: v.name.clone() }),
                (None, Authorization::OAuth2Client { selected_proxy, .. }) =>
                    crate::model::dup_selection(selected_proxy),
                _ => None,
            };
            let send_credentials_in_body = match (&update.send_credentials_in_body, a0) {
                (Some(v), _) => *v,
                (None, Authorization::OAuth2Client { send_credentials_in_body, .. }) =>
                    *send_credentials_in_body,
                _ => None,
            };
            Authorization::OAuth2Client {
                id: update.id.clone(),
                name,
                access_token_url,
                client_id,
                client_secret,
                audience,
                scope,
                selected_certificate,
                selected_proxy,
                send_credentials_in_body,
                validation_state,
                validation_warnings: warnings,
                validation_errors: None,
            }
        },
        crate::updates::AuthorizationUpdateType::OAuth2Pkce => {
            let authorize_url = match (&update.authorize_url, a0) {
                (Some(v), _) => v.clone(),
                (None, Authorization::OAuth2Pkce { authorize_url, .. }) => authorize_url.clone(),
                _ => String::new(),
            };
            let access_token_url = match (&update.access_token_url, a0) {
                (Some(v), _) => v.clone(),
                (None, Authorization::OAuth2Pkce { access_token_url, .. }) =>
                    access_token_url.clone(),
                _ => String::new(),
            };
            let client_id = match (&update.client_id, a0) {
                (Some(v), _) => v.clone(),
                (None, Authorization::OAuth2Pkce { client_id, .. }) => client_id.clone(),
                _ => String::new(),
            };
            let scope = match (&update.scope, a0) {
                (Some(v), _) => crate::model::dup_opt_string(v),
                (None, Authorization::OAuth2Pkce { scope, .. }) => crate::model::dup_opt_string(
                    scope,
                ),
                _ => None,
            };
            let send_credentials_in_body = match (&update.send_credentials_in_body, a0) {
                (Some(v), _) => *v,
                (None, Authorization::OAuth2Pkce { send_credentials_in_body, .. }) =>
                    *send_credentials_in_body,
                _ => None,
            };
            let (token, refresh_token, expiration) = match a0 {
                Authorization::OAuth2Pkce { token, refresh_token, expiration, .. } => (
                    crate::model::dup_opt_string(token),
                    crate::model::dup_opt_string(refresh_token),
                    *expiration,
                ),
                _ => (None, None, None),
            };
            Authorization::OAuth2Pkce {
                id: update.id.clone(),
                name,
                authorize_url,
                access_token_url,
                client_id,
                scope,
                send_credentials_in_body,
                token,
                refresh_token,
                expiration,
                validation_state,
                validation_warnings: warnings,
                validation_errors: None,
            }
        },
        crate::updates::AuthorizationUpdateType::ApiKey => {
            let header = match (&update.header, a0) {
                (Some(v), _) => v.clone(),
                (None, Authorization::ApiKey { header, .. }) => header.clone(),
                _ => String::new(),
            };
            let value = match (&update.value, a0) {
                (Some(v), _) => v.clone(),
                (None, Authorization::ApiKey { value, .. }) => value.clone(),
                _ => String::new(),
            };
            Authorization::ApiKey {
                id: update.id.clone(),
                name,
                header,
                value,
                validation_state,
                validation_warnings: warnings,
                validation_errors: None,
            }
        },
    }
}


impl Workspaces {
    /// Applies a field-level certificate update: switches the format when
    /// asked, applies the present fields (old values carry over only within
    /// the same format), revalidates and patches the navigation entry.
    #[verifier::rlimit(100)]
    pub fn update_certificate(
        &mut self,
        workspace_id: &String,
        update: &crate::updates::CertificateUpdate,
    ) -> (r: Result<UpdateWithNavigationResponse, ApicizeAppError>)
        requires
            old(self).wf(),
        ensures
            final(self).wf(),
            match r {
                Ok(resp) => {
                    let ws0 = old(self).workspaces@[workspace_id@].workspace;
                    let ws1 = final(self).workspaces@[workspace_id@].workspace;
                    let c0 = ws0.certificates.entities@[update.id@];
                    let c1 = ws1.certificates.entities@[update.id@];
                    &&& old(self).workspaces@.contains_key(workspace_id@)
                    &&& ws0.certificates.entities@.contains_key(update.id@)
                    &&& final(self).workspaces@.dom() == old(self).workspaces@.dom()
                    &&& (forall|k: Seq<char>|
                        k != workspace_id@ && old(self).workspaces@.contains_key(k)
                            ==> (#[trigger] final(self).workspaces@[k]) == old(self).workspaces@[k])
                    &&& final(self).workspaces@[workspace_id@].dirty
                    &&& ws1.certificates.entities@.dom() == ws0.certificates.entities@.dom()
                    &&& c1.spec_id() == update.id@
                    &&& (match update.cert_type {
                        Some(crate::updates::CertificateUpdateType::Pkcs12) => c1 is Pkcs12,
                        Some(crate::updates::CertificateUpdateType::Pkcs8Pem) => c1 is Pkcs8Pem,
                        Some(crate::updates::CertificateUpdateType::Pem) => c1 is Pem,
                        None => (c0 is Pkcs12 <==> c1 is Pkcs12) && (c0 is Pkcs8Pem <==> c1
                            is Pkcs8Pem) && (c0 is Pem <==> c1 is Pem),
                    })
                    &&& c1.spec_name() == upd_str(update.name, c0.spec_name())
                    &&& (c1 matches Certificate::Pkcs12 { pfx, .. } ==> (match update.pfx {
                        Some(v) => pfx@ == v@,
                        None => c0 matches Certificate::Pkcs12 { pfx: p0, .. } ==> pfx@ == p0@,
                    }))
                    &&& (c1 matches Certificate::Pkcs8Pem { pem, key, .. } ==> ((
                    match update.pem {
                        Some(v) => pem@ == v@,
                        None => c0 matches Certificate::Pkcs8Pem { pem: p0, .. } ==> pem@ == p0@,
                    }) && (match update.key {
                        Some(v) => key@ == v@,
                        None => c0 matches Certificate::Pkcs8Pem { key: k0, .. } ==> key@ == k0@,
                    })))
                    &&& (c1 matches Certificate::Pem { pem, .. } ==> (match update.pem {
                        Some(v) => pem@ == v@,
                        None => c0 matches Certificate::Pem { pem: p0, .. } ==> pem@ == p0@,
                    }))
                    &&& c1.spec_validation_state() == c1.computed_validation()
                    &&& (forall|k: Seq<char>|
                        #[trigger] ws1.requests.entities@.contains_key(k)
                            ==> crate::tree::same_but_selected_certificate(
                            ws0.requests.entities@[k],
                            ws1.requests.entities@[k],
                        ) && crate::tree::sel_renamed_selected_certificate(
                            ws0.requests.entities@[k],
                            ws1.requests.entities@[k],
                            update.id@,
                            title_of(c1.spec_name()),
                        ))
                    &&& ws1.defaults == (crate::model::WorkbookDefaults {
                        selected_certificate: ws1.defaults.selected_certificate,
                        ..ws0.defaults
                    })
                    &&& (match (ws0.defaults.selected_certificate, ws1.defaults.selected_certificate) {
                        (Some(s0), Some(s1)) => s1.id == s0.id && s1.name@ == (if s0.id@
                            == update.id@ {
                            title_of(c1.spec_name())
                        } else {
                            s0.name@
                        }),
                        (None, None) => true,
                        _ => false,
                    })
                },
                Err(e) => registry_unchanged(*final(self), *old(self)) && (match e {
                    ApicizeAppError::InvalidWorkspace(w) => w@ == workspace_id@ && !old(
                        self,
                    ).workspaces@.contains_key(workspace_id@),
                    ApicizeAppError::InvalidCertificate(sid) => sid@ == update.id@ && old(
                        self,
                    ).workspaces@.contains_key(workspace_id@) && !old(
                        self,
                    ).workspaces@[workspace_id@].workspace.certificates.entities@.contains_key(
                        update.id@,
                    ),
                    _ => false,
                }),
            },
    {
        if !self.has_workspace(workspace_id) {
            return Err(ApicizeAppError::InvalidWorkspace(workspace_id.clone()));
        }
        let info = self.get_workspace_info_mut(workspace_id);
        if !info.workspace.certificates.entities.contains_key(&update.id) {
            return Err(ApicizeAppError::InvalidCertificate(update.id.clone()));
        }
        info.dirty = true;
        let ghost params0 = info.workspace.certificates;
        {
            let cert = info.workspace.certificates.get_entity_mut(&update.id);
            let next = build_updated_certificate(cert, update);
            *cert = next;
        }
        proof {
            crate::tree::lemma_params_wf_value_update(
                params0,
                info.workspace.certificates,
                update.id@,
            );
        }
        let (updated_name, updated_validation_state) = {
            let c = info.workspace.certificates.get(&update.id).unwrap();
            (c.get_title(), c.get_validation_state())
        };
        let navigation = info.check_parameter_navigation_update(
            &update.id,
            &updated_name,
            updated_validation_state,
            EntityType::Certificate,
        );
        info.workspace.requests.rename_selected_certificate_selections(&update.id, &updated_name);
        if let Some(sel) = &mut info.workspace.defaults.selected_certificate {
            if sel.id.eq(&update.id) {
                sel.name = updated_name.clone();
            }
        }
        Ok(UpdateWithNavigationResponse {
            navigation,
            validation_warnings: None,
            validation_errors: None,
        })
    }
}

/// Builds the certificate an update leaves behind: the requested format
/// with each payload taken from the update, carried over within the same
/// format, or reset.
#[verifier::rlimit(100)]
fn build_updated_certificate(
    c0: &Certificate,
    update: &crate::updates::CertificateUpdate,
) -> (r: Certificate)
    ensures
        r.spec_id() == update.id@,
        (match update.cert_type {
            Some(crate::updates::CertificateUpdateType::Pkcs12) => r is Pkcs12,
            Some(crate::updates::CertificateUpdateType::Pkcs8Pem) => r is Pkcs8Pem,
            Some(crate::updates::CertificateUpdateType::Pem) => r is Pem,
            None => (c0 is Pkcs12 <==> r is Pkcs12) && (c0 is Pkcs8Pem <==> r is Pkcs8Pem) && (c0
                is Pem <==> r is Pem),
        }),
        r.spec_name() == upd_str(update.name, c0.spec_name()),
        (r matches Certificate::Pkcs12 { pfx, .. } ==> (match update.pfx {
            Some(v) => pfx@ == v@,
            None => c0 matches Certificate::Pkcs12 { pfx: p0, .. } ==> pfx@ == p0@,
        })),
        (r matches Certificate::Pkcs8Pem { pem, key, .. } ==> ((match update.pem {
            Some(v) => pem@ == v@,
            None => c0 matches Certificate::Pkcs8Pem { pem: p0, .. } ==> pem@ == p0@,
        }) && (match update.key {
            Some(v) => key@ == v@,
            None => c0 matches Certificate::Pkcs8Pem { key: k0, .. } ==> key@ == k0@,
        }))),
        (r matches Certificate::Pem { pem, .. } ==> (match update.pem {
            Some(v) => pem@ == v@,
            None => c0 matches Certificate::Pem { pem: p0, .. } ==> pem@ == p0@,
        })),
        r.spec_validation_state() == r.computed_validation(),
{
    let is_p12 = match c0 {
        Certificate::Pkcs12 { .. } => true,
        _ => false,
    };
    let is_p8 = match c0 {
        Certificate::Pkcs8Pem { .. } => true,
        _ => false,
    };
    let target: crate::updates::CertificateUpdateType = match update.cert_type {
        Some(t) => t,
        None => if is_p12 {
            crate::updates::CertificateUpdateType::Pkcs12
        } else if is_p8 {
            crate::updates::CertificateUpdateType::Pkcs8Pem
        } else {
            crate::updates::CertificateUpdateType::Pem
        },
    };
    let name = match &update.name {
        Some(n) => n.clone(),
        None => c0.get_name().clone(),
    };
    let error = name.as_str().is_empty();
    let validation_state = ValidationState { warning: false, error };
    match target {
        crate::updates::CertificateUpdateType::Pkcs12 => {
            let pfx = match (&update.pfx, c0) {
                (Some(v), _) => crate::model::dup_bytes(v),
                (None, Certificate::Pkcs12 { pfx, .. }) => crate::model::dup_bytes(pfx),
                _ => Vec::new(),
            };
            let password = match (&update.password, c0) {
                (Some(v), _) => crate::model::dup_opt_string(v),
                (None, Certificate::Pkcs12 { password, .. }) => crate::model::dup_opt_string(
                    password,
                ),
                _ => None,
            };
            Certificate::Pkcs12 {
                id: update.id.clone(),
                name,
                pfx,
                password,
                validation_state,
                validation_warnings: None,
                validation_errors: None,
            }
        },
        crate::updates::CertificateUpdateType::Pkcs8Pem => {
            let pem = match (&update.pem, c0) {
                (Some(v), _) => crate::model::dup_bytes(v),
                (None, Certificate::Pkcs8Pem { pem, .. }) => crate::model::dup_bytes(pem),
                _ => Vec::new(),
            };
            let key = match (&update.key, c0) {
                (Some(v), _) => crate::model::dup_bytes(v),
                (None, Certificate::Pkcs8Pem { key, .. }) => crate::model::dup_bytes(key),
                _ => Vec::new(),
            };
            Certificate::Pkcs8Pem {
                id: update.id.clone(),
                name,
                pem,
                key,
                validation_state,
                validation_warnings: None,
                validation_errors: None,
            }
        },
        crate::updates::CertificateUpdateType::Pem => {
            let pem = match (&update.pem, c0) {
                (Some(v), _) => crate::model::dup_bytes(v),
                (None, Certificate::Pem { pem, .. }) => crate::model::dup_bytes(pem),
                _ => Vec::new(),
            };
            Certificate::Pem {
                id: update.id.clone(),
                name,
                pem,
                validation_state,
                validation_warnings: None,
                validation_errors: None,
            }
        },
    }
}


impl Workspaces {
    /// Adds a fresh data set, optionally cloned from an existing one along
    /// with its cached content.
    pub fn add_data_set(
        &mut self,
        workspace_id: &String,
        relative_to: Option<&String>,
        relative_position: Option<EntityPosition>,
        clone_from_id: Option<&String>,
    ) -> (r: Result<String, ApicizeAppError>)
        requires
            old(self).wf(),
        ensures
            final(self).wf(),
            match r {
                Ok(id) => {
                    &&& old(self).workspaces@.contains_key(workspace_id@)
                    &&& final(self).workspaces@.dom() == old(self).workspaces@.dom()
                    &&& (forall|k: Seq<char>|
                        k != workspace_id@ && old(self).workspaces@.contains_key(k)
                            ==> (#[trigger] final(self).workspaces@[k]) == old(self).workspaces@[k])
                    &&& final(self).workspaces@[workspace_id@].dirty
                    &&& !old(self).workspaces@[workspace_id@].workspace.data.entities@
                        .contains_key(id@)
                    &&& final(self).workspaces@[workspace_id@].workspace.data.entities@
                        .contains_key(id@)
                    &&& final(self).workspaces@[workspace_id@].workspace.data.entities@.dom()
                        == old(self).workspaces@[workspace_id@].workspace.data.entities@
                        .dom().insert(id@)
                },
                Err(e) => registry_unchanged(*final(self), *old(self)) && (match e {
                    ApicizeAppError::InvalidWorkspace(w) => w@ == workspace_id@ && !old(
                        self,
                    ).workspaces@.contains_key(workspace_id@),
                    ApicizeAppError::InvalidDataSet(_) => true,
                    ApicizeAppError::InvalidOperation(_) => true,
                    _ => false,
                }),
            },
    {
        if !self.has_workspace(workspace_id) {
            return Err(ApicizeAppError::InvalidWorkspace(workspace_id.clone()));
        }
        let info = self.get_workspace_info_mut(workspace_id);
        let id = fresh_id();
        let data_set = match clone_from_id {
            Some(other_id) => match info.workspace.data.get(other_id) {
                Some(other) => other.clone_as_new(id.clone()),
                None => {
                    return Err(ApicizeAppError::InvalidDataSet(other_id.clone()));
                },
            },
            None => DataSet::blank(id.clone(), String::new()),
        };
        match info.workspace.data.add(data_set, relative_to, relative_position) {
            Ok(()) => {
                info.dirty = true;
                if let Some(other_id) = clone_from_id {
                    let copied = match info.data_set_content.get(other_id) {
                        Some(content) => Some(dup_content(content)),
                        None => None,
                    };
                    if let Some(content) = copied {
                        info.data_set_content.insert(id.clone(), content);
                    }
                }
                Ok(id)
            },
            Err(()) => Err(ApicizeAppError::InvalidOperation(
                "the data set could not be placed".to_owned(),
            )),
        }
    }

    /// Deletes a data set, its cached content and its navigation entry.
    pub fn delete_data_set(&mut self, workspace_id: &String, data_set_id: &String) -> (r: Result<
        (),
        ApicizeAppError,
    >)
        requires
            old(self).wf(),
        ensures
            final(self).wf(),
            match r {
                Ok(()) => {
                    &&& old(self).workspaces@.contains_key(workspace_id@)
                    &&& final(self).workspaces@.dom() == old(self).workspaces@.dom()
                    &&& final(self).workspaces@[workspace_id@].dirty
                    &&& final(self).workspaces@[workspace_id@].workspace.data.entities@ == old(
                        self,
                    ).workspaces@[workspace_id@].workspace.data.entities@.remove(data_set_id@)
                    &&& final(self).workspaces@[workspace_id@].data_set_content@ == old(
                        self,
                    ).workspaces@[workspace_id@].data_set_content@.remove(data_set_id@)
                },
                Err(e) => registry_unchanged(*final(self), *old(self)) && (match e {
                    ApicizeAppError::InvalidWorkspace(w) => w@ == workspace_id@ && !old(
                        self,
                    ).workspaces@.contains_key(workspace_id@),
                    ApicizeAppError::InvalidDataSet(sid) => sid@ == data_set_id@,
                    _ => false,
                }),
            },
    {
        if !self.has_workspace(workspace_id) {
            return Err(ApicizeAppError::InvalidWorkspace(workspace_id.clone()));
        }
        let info = self.get_workspace_info_mut(workspace_id);
        if !info.workspace.data.entities.contains_key(data_set_id) {
            return Err(ApicizeAppError::InvalidDataSet(data_set_id.clone()));
        }
        info.dirty = true;
        info.workspace.data.remove(data_set_id);
        info.data_set_content.remove(data_set_id);
        let list = &mut info.navigation.data_sets;
        if let Some(i) = find_nav_entry(list, data_set_id) {
            list.remove(i);
        }
        Ok(())
    }

    /// Moves a data set beside another one; fails without change when an
    /// id is unknown.
    pub fn move_data_set(
        &mut self,
        workspace_id: &String,
        data_set_id: &String,
        relative_to: &String,
        relative_position: EntityPosition,
    ) -> (r: Result<bool, ApicizeAppError>)
        requires
            old(self).wf(),
        ensures
            final(self).wf(),
            match r {
                Ok(moved) => {
                    &&& old(self).workspaces@.contains_key(workspace_id@)
                    &&& final(self).workspaces@.dom() == old(self).workspaces@.dom()
                    &&& final(self).workspaces@[workspace_id@].workspace.data.entities@ == old(
                        self,
                    ).workspaces@[workspace_id@].workspace.data.entities@
                    &&& (forall|k: Seq<char>|
                        (#[trigger] final(self).workspaces@[workspace_id@].workspace.data.listed(
                            k,
                        )) <==> old(self).workspaces@[workspace_id@].workspace.data.listed(k))
                    &&& (moved <==> data_set_id@ != relative_to@)
                },
                Err(e) => registry_unchanged(*final(self), *old(self)) && (match e {
                    ApicizeAppError::InvalidWorkspace(s) => s@ == workspace_id@ && !old(
                        self,
                    ).workspaces@.contains_key(workspace_id@),
                    ApicizeAppError::InvalidDataSet(s) => s@ == data_set_id@ && old(
                        self,
                    ).workspaces@.contains_key(workspace_id@) && (!old(
                        self,
                    ).workspaces@[workspace_id@].workspace.data.entities@.contains_key(
                        data_set_id@,
                    ) || !old(self).workspaces@[workspace_id@].workspace.data.listed(
                        relative_to@,
                    )),
                    _ => false,
                }),
            },
    {
        if !self.has_workspace(workspace_id) {
            return Err(ApicizeAppError::InvalidWorkspace(workspace_id.clone()));
        }
        let info = self.get_workspace_info_mut(workspace_id);
        match info.workspace.data.move_entity(data_set_id, relative_to, relative_position) {
            Ok(moved) => Ok(moved),
            Err(()) => Err(ApicizeAppError::InvalidDataSet(data_set_id.clone())),
        }
    }

    /// Looks a data set up.
    pub fn get_data_set(&self, workspace_id: &String, data_id: &String) -> (r: Result<
        &DataSet,
        ApicizeAppError,
    >)
        requires
            self.wf(),
        ensures
            match r {
                Ok(v) => self.workspaces@.contains_key(workspace_id@)
                    && self.workspaces@[workspace_id@].workspace.data.entities@.contains_key(
                    data_id@,
                ) && *v == self.workspaces@[workspace_id@].workspace.data.entities@[data_id@],
                Err(e) => (match e {
                    ApicizeAppError::InvalidWorkspace(s) => s@ == workspace_id@
                        && !self.workspaces@.contains_key(workspace_id@),
                    ApicizeAppError::InvalidDataSet(s) => s@ == data_id@
                        && self.workspaces@.contains_key(workspace_id@)
                        && !self.workspaces@[workspace_id@].workspace.data.entities@
                        .contains_key(data_id@),
                    _ => false,
                }),
            },
    {
        let info = match self.get_workspace_info(workspace_id) {
            Ok(info) => info,
            Err(e) => {
                return Err(e);
            },
        };
        match info.workspace.data.get(data_id) {
            Some(v) => Ok(v),
            None => Err(ApicizeAppError::InvalidDataSet(data_id.clone())),
        }
    }

    /// The display title of a data set.
    pub fn get_data_title(&self, workspace_id: &String, data_id: &String) -> (r: Result<
        String,
        ApicizeAppError,
    >)
        requires
            self.wf(),
        ensures
            match r {
                Ok(t) => self.workspaces@.contains_key(workspace_id@)
                    && self.workspaces@[workspace_id@].workspace.data.entities@.contains_key(
                    data_id@,
                ) && t@ == title_of(
                    self.workspaces@[workspace_id@].workspace.data.entities@[data_id@].name@,
                ),
                Err(e) => (match e {
                    ApicizeAppError::InvalidWorkspace(s) => s@ == workspace_id@
                        && !self.workspaces@.contains_key(workspace_id@),
                    ApicizeAppError::InvalidDataSet(s) => s@ == data_id@
                        && self.workspaces@.contains_key(workspace_id@)
                        && !self.workspaces@[workspace_id@].workspace.data.entities@
                        .contains_key(data_id@),
                    _ => false,
                }),
            },
    {
        match self.get_data_set(workspace_id, data_id) {
            Ok(v) => Ok(v.get_title()),
            Err(e) => Err(e),
        }
    }

    /// Every data set of the workspace, in listed order.
    pub fn list_data(&self, workspace_id: &String) -> (r: Result<Vec<DataSet>, ApicizeAppError>)
        requires
            self.wf(),
        ensures
            match r {
                Ok(v) => {
                    let col = self.workspaces@[workspace_id@].workspace.data;
                    &&& self.workspaces@.contains_key(workspace_id@)
                    &&& v@.len() == col.public_ids@.len()
                    &&& (forall|i: int|
                        0 <= i < v@.len() ==> (#[trigger] v@[i]).id@ == col.public_ids@[i]@
                            && v@[i].name@ == col.entities@[col.public_ids@[i]@].name@ && v@[i]
                            .source_type == col.entities@[col.public_ids@[i]@].source_type)
                },
                Err(e) => !self.workspaces@.contains_key(workspace_id@) && (
                e matches ApicizeAppError::InvalidWorkspace(w) && w@ == workspace_id@),
            },
    {
        let info = match self.get_workspace_info(workspace_id) {
            Ok(info) => info,
            Err(e) => {
                return Err(e);
            },
        };
        let col = &info.workspace.data;
        let n = col.public_ids.len();
        let mut out: Vec<DataSet> = Vec::new();
        let mut i: usize = 0;
        while i < n
            invariant
                self.wf(),
                self.workspaces@.contains_key(workspace_id@),
                col == self.workspaces@[workspace_id@].workspace.data,
                col.wf(),
                n == col.public_ids@.len(),
                i <= n,
                out@.len() == i,
                forall|j: int|
                    0 <= j < i ==> (#[trigger] out@[j]).id@ == col.public_ids@[j]@ && out@[j]
                        .name@ == col.entities@[col.public_ids@[j]@].name@ && out@[j].source_type
                        == col.entities@[col.public_ids@[j]@].source_type,
            decreases n - i,
        {
            let id = &col.public_ids[i];
            proof {
                assert(id_in(col.public_ids@, col.public_ids@[i as int]@));
            }
            let ds = col.get(id).unwrap();
            let copy = DataSet {
                id: ds.id.clone(),
                name: ds.name.clone(),
                source_type: ds.source_type,
                source: ds.source.clone(),
                source_error: crate::model::dup_opt_string(&ds.source_error),
                validation_state: ds.validation_state,
                validation_warnings: crate::model::dup_opt_strings(&ds.validation_warnings),
                validation_errors: crate::model::dup_opt_errors(&ds.validation_errors),
            };
            out.push(copy);
            i += 1;
        }
        Ok(out)
    }

    /// Applies a field-level data-set update: name, source kind, file name
    /// or inline text, and cached CSV columns and rows; the cache turns
    /// dirty whenever its content changes.
    pub fn update_data_set(&mut self, workspace_id: &String, update: &crate::updates::DataSetUpdate)
        -> (r: Result<UpdateWithNavigationResponse, ApicizeAppError>)
        requires
            old(self).wf(),
        ensures
            final(self).wf(),
            match r {
                Ok(resp) => {
                    let ws0 = old(self).workspaces@[workspace_id@].workspace;
                    let ws1 = final(self).workspaces@[workspace_id@].workspace;
                    let d0 = ws0.data.entities@[update.id@];
                    let d1 = ws1.data.entities@[update.id@];
                    &&& old(self).workspaces@.contains_key(workspace_id@)
                    &&& ws0.data.entities@.contains_key(update.id@)
                    &&& final(self).workspaces@.dom() == old(self).workspaces@.dom()
                    &&& (forall|k: Seq<char>|
                        k != workspace_id@ && old(self).workspaces@.contains_key(k)
                            ==> (#[trigger] final(self).workspaces@[k]) == old(self).workspaces@[k])
                    &&& final(self).workspaces@[workspace_id@].dirty
                    &&& ws1.data.entities@.dom() == ws0.data.entities@.dom()
                    &&& d1.id == d0.id
                    &&& d1.name@ == upd_str(update.name, d0.name@)
                    &&& d1.source_type == (match update.source_type {
                        Some(t) => t,
                        None => d0.source_type,
                    })
                    &&& d1.validation_state == d1.computed_validation()
                    &&& final(self).workspaces@[workspace_id@].data_set_content@.contains_key(
                        update.id@,
                    )
                    &&& ws1.defaults == (crate::model::WorkbookDefaults {
                        selected_data: ws1.defaults.selected_data,
                        ..ws0.defaults
                    })
                    &&& (match (ws0.defaults.selected_data, ws1.defaults.selected_data) {
                        (Some(s0), Some(s1)) => s1.id == s0.id && s1.name@ == (if s0.id@
                            == update.id@ {
                            title_of(d1.name@)
                        } else {
                            s0.name@
                        }),
                        (None, None) => true,
                        _ => false,
                    })
                },
                Err(e) => registry_unchanged(*final(self), *old(self)) && (match e {
                    ApicizeAppError::InvalidWorkspace(w) => w@ == workspace_id@ && !old(
                        self,
                    ).workspaces@.contains_key(workspace_id@),
                    ApicizeAppError::InvalidDataSet(sid) => sid@ == update.id@ && old(
                        self,
                    ).workspaces@.contains_key(workspace_id@) && !old(
                        self,
                    ).workspaces@[workspace_id@].workspace.data.entities@.contains_key(
                        update.id@,
                    ),
                    _ => false,
                }),
            },
    {
        if !self.has_workspace(workspace_id) {
            return Err(ApicizeAppError::InvalidWorkspace(workspace_id.clone()));
        }
        let info = self.get_workspace_info_mut(workspace_id);
        if !info.workspace.data.entities.contains_key(&update.id) {
            return Err(ApicizeAppError::InvalidDataSet(update.id.clone()));
        }
        info.dirty = true;
        if !info.data_set_content.contains_key(&update.id) {
            info.data_set_content.insert(update.id.clone(), DataSetContent::empty());
        }
        let ghost params0 = info.workspace.data;
        let mut data_set_is_file = false;
        {
            let data_set = info.workspace.data.get_entity_mut(&update.id);
            if let Some(name) = &update.name {
                data_set.name = name.clone();
            }
            if let Some(source_type) = update.source_type {
                data_set.source_type = source_type;
            }
            data_set_is_file = match data_set.source_type {
                DataSourceType::Json => false,
                _ => true,
            };
            if let Some(source_file_name) = &update.source_file_name {
                if data_set_is_file {
                    data_set.source = source_file_name.clone();
                }
            }
            if let Some(source_text) = &update.source_text {
                let is_csv = match data_set.source_type {
                    DataSourceType::FileCsv => true,
                    _ => false,
                };
                if !is_csv && !data_set_is_file {
                    data_set.source = source_text.clone();
                }
            }
            data_set.revalidate();
        }
        proof {
            crate::tree::lemma_params_wf_value_update(params0, info.workspace.data, update.id@);
        }
        {
            let content = info.data_set_content.get_mut(&update.id);
            if let Some(source_file_name) = &update.source_file_name {
                if data_set_is_file {
                    content.dirty = true;
                }
            }
            if let Some(source_text) = &update.source_text {
                content.dirty = true;
                content.source_text = Some(source_text.clone());
            }
            if let Some(csv_columns) = &update.csv_columns {
                content.csv_columns = Some(crate::model::dup_strings(csv_columns));
                content.dirty = true;
            }
            if let Some(csv_rows) = &update.csv_rows {
                let mut rows: Vec<Vec<(String, String)>> = Vec::new();
                let nr = csv_rows.len();
                let mut i: usize = 0;
                while i < nr
                    invariant
                        nr == csv_rows@.len(),
                        i <= nr,
                        rows@.len() == i,
                    decreases nr - i,
                {
                    rows.push(crate::model::dup_errors(&csv_rows[i]));
                    i += 1;
                }
                content.csv_rows = Some(rows);
                content.dirty = true;
            }
        }
        let (updated_name, updated_validation_state) = {
            let d = info.workspace.data.get(&update.id).unwrap();
            (d.get_title(), d.validation_state)
        };
        let navigation = info.check_parameter_navigation_update(
            &update.id,
            &updated_name,
            updated_validation_state,
            EntityType::DataSet,
        );
        info.workspace.requests.rename_selected_data_selections(&update.id, &updated_name);
        if let Some(sel) = &mut info.workspace.defaults.selected_data {
            if sel.id.eq(&update.id) {
                sel.name = updated_name.clone();
            }
        }
        Ok(UpdateWithNavigationResponse {
            navigation,
            validation_warnings: None,
            validation_errors: None,
        })
    }
}

/// Copies cached data-set content.
fn dup_content(c: &DataSetContent) -> (r: DataSetContent)
    ensures
        (match (r.csv_columns, c.csv_columns) {
            (Some(a), Some(b)) => a@ == b@,
            (None, None) => true,
            _ => false,
        }),
        (match (r.csv_rows, c.csv_rows) {
            (Some(a), Some(b)) => a@.len() == b@.len() && (forall|i: int|
                0 <= i < a@.len() ==> (#[trigger] a@[i])@ == b@[i]@),
            (None, None) => true,
            _ => false,
        }),
        r.source_text == c.source_text,
        r.dirty == c.dirty,
{
    let csv_rows: Option<Vec<Vec<(String, String)>>> = match &c.csv_rows {
        Some(rows) => {
            let mut out: Vec<Vec<(String, String)>> = Vec::new();
            let n = rows.len();
            let mut i: usize = 0;
            while i < n
                invariant
                    n == rows@.len(),
                    i <= n,
                    out@.len() == i,
                    forall|j: int| 0 <= j < i ==> (#[trigger] out@[j])@ == rows@[j]@,
                decreases n - i,
            {
                out.push(crate::model::dup_errors(&rows[i]));
                i += 1;
            }
            Some(out)
        },
        None => None,
    };
    DataSetContent {
        csv_columns: crate::model::dup_opt_strings(&c.csv_columns),
        csv_rows,
        source_text: crate::model::dup_opt_string(&c.source_text),
        dirty: c.dirty,
    }
}


/// The MIME type reported for a request body.
pub open spec fn spec_body_type(body: RequestBody) -> Seq<char> {
    match body {
        RequestBody::Text { .. } => "text/plain"@,
        RequestBody::Json { .. } => "application/json"@,
        RequestBody::Xml { .. } => "application/xml"@,
        RequestBody::Form { .. } => "application/x-www-form-urlencoded"@,
        RequestBody::Raw { data } => match crate::csvdata::sniffed_media_type(data@) {
            Some(m) => m,
            None => "application/octet-stream"@,
        },
    }
}

/// The element length of a request body: characters of a text body, pairs
/// of a form body, bytes of a raw body.
pub open spec fn spec_body_length(body: RequestBody) -> int {
    match body {
        RequestBody::Text { data } => data@.len() as int,
        RequestBody::Json { data } => data@.len() as int,
        RequestBody::Xml { data } => data@.len() as int,
        RequestBody::Form { data } => data@.len() as int,
        RequestBody::Raw { data } => data@.len() as int,
    }
}

impl Workspaces {
    /// The MIME type of a body: fixed per family, sniffed for raw bytes.
    pub fn get_body_type(body: &RequestBody) -> (r: String)
        ensures
            r@ == spec_body_type(*body),
    {
        match body {
            RequestBody::Text { .. } => "text/plain".to_owned(),
            RequestBody::Json { .. } => "application/json".to_owned(),
            RequestBody::Xml { .. } => "application/xml".to_owned(),
            RequestBody::Form { .. } => "application/x-www-form-urlencoded".to_owned(),
            RequestBody::Raw { data } => match crate::csvdata::sniff_media_type(data) {
                Some(m) => m,
                None => "application/octet-stream".to_owned(),
            },
        }
    }

    /// The length of a body's content, in bytes or form fields.
    pub fn get_body_length(body: &RequestBody) -> (r: usize)
        ensures
            r == spec_body_length(*body),
    {
        match body {
            RequestBody::Text { data } => data.as_str().unicode_len(),
            RequestBody::Json { data } => data.as_str().unicode_len(),
            RequestBody::Xml { data } => data.as_str().unicode_len(),
            RequestBody::Form { data } => data.len(),
            RequestBody::Raw { data } => data.len(),
        }
    }

    /// A request or group for the UI, the request body stripped.
    pub fn get_request_entry(&self, workspace_id: &String, request_id: &String) -> (r: Result<
        RequestEntryInfo,
        ApicizeAppError,
    >)
        requires
            self.wf(),
        ensures
            match r {
                Ok(entry) => {
                    let e0 = self.workspaces@[workspace_id@].workspace.requests.entities@[
                        request_id@];
                    &&& self.workspaces@.contains_key(workspace_id@)
                    &&& self.workspaces@[workspace_id@].workspace.requests.entities@.contains_key(
                        request_id@,
                    )
                    &&& (match entry {
                        RequestEntryInfo::Request { request } => e0
                            matches crate::model::RequestEntry::Request(r0) && request.body
                            is None && request.id == r0.id && request.name == r0.name
                            && request.url == r0.url && request.method == r0.method
                            && request.runs == r0.runs,
                        RequestEntryInfo::Group { group } => e0
                            matches crate::model::RequestEntry::Group(g0) && group.id == g0.id
                            && group.name == g0.name && group.runs == g0.runs,
                    })
                },
                Err(_) => !self.workspaces@.contains_key(workspace_id@)
                    || !self.workspaces@[workspace_id@].workspace.requests.entities@.contains_key(
                    request_id@,
                ),
            },
    {
        let info = match self.get_workspace_info(workspace_id) {
            Ok(info) => info,
            Err(e) => {
                return Err(e);
            },
        };
        match info.workspace.requests.get(request_id) {
            Some(crate::model::RequestEntry::Request(req)) => {
                let request = Request {
                    id: req.id.clone(),
                    name: req.name.clone(),
                    key: crate::model::dup_opt_string(&req.key),
                    url: req.url.clone(),
                    method: req.method,
                    runs: req.runs,
                    multi_run_execution: req.multi_run_execution,
                    timeout: req.timeout,
                    keep_alive: req.keep_alive,
                    accept_invalid_certs: req.accept_invalid_certs,
                    number_of_redirects: req.number_of_redirects,
                    query_string_params: crate::model::dup_opt_pairs(&req.query_string_params),
                    headers: crate::model::dup_opt_pairs(&req.headers),
                    test: crate::model::dup_opt_string(&req.test),
                    body: None,
                    selected_scenario: crate::model::dup_selection(&req.selected_scenario),
                    selected_authorization: crate::model::dup_selection(
                        &req.selected_authorization,
                    ),
                    selected_certificate: crate::model::dup_selection(&req.selected_certificate),
                    selected_proxy: crate::model::dup_selection(&req.selected_proxy),
                    selected_data: crate::model::dup_selection(&req.selected_data),
                    validation_state: req.validation_state,
                    validation_warnings: crate::model::dup_opt_strings(&req.validation_warnings),
                    validation_errors: crate::model::dup_opt_errors(&req.validation_errors),
                };
                Ok(RequestEntryInfo::Request { request })
            },
            Some(crate::model::RequestEntry::Group(grp)) => {
                let group = grp.clone_as_new(grp.id.clone());
                let group = crate::model::RequestGroup {
                    id: grp.id.clone(),
                    name: grp.name.clone(),
                    ..group
                };
                Ok(RequestEntryInfo::Group { group })
            },
            None => Err(ApicizeAppError::InvalidRequest(request_id.clone())),
        }
    }

    /// A request's body with its derived MIME type and length.
    pub fn get_request_body(&self, workspace_id: &String, request_id: &String) -> (r: Result<
        RequestBodyInfo,
        ApicizeAppError,
    >)
        requires
            self.wf(),
        ensures
            match r {
                Ok(b) => {
                    let e0 = self.workspaces@[workspace_id@].workspace.requests.entities@[
                        request_id@];
                    &&& self.workspaces@.contains_key(workspace_id@)
                    &&& e0 matches crate::model::RequestEntry::Request(r0) && {
                        &&& b.id@ == request_id@
                        &&& (match (b.body, r0.body) {
                            (Some(x), Some(y)) => crate::model::body_eq(x, y) && (
                            b.body_mime_type matches Some(m) && m@ == spec_body_type(y)) && (
                            b.body_length matches Some(l) && l == spec_body_length(y)),
                            (None, None) => b.body_mime_type is None && b.body_length is None,
                            _ => false,
                        })
                    }
                },
                Err(e) => (match e {
                    ApicizeAppError::InvalidWorkspace(s) => s@ == workspace_id@
                        && !self.workspaces@.contains_key(workspace_id@),
                    ApicizeAppError::InvalidRequest(s) => s@ == request_id@
                        && self.workspaces@.contains_key(workspace_id@) && !(
                    self.workspaces@[workspace_id@].workspace.requests.entities@.contains_key(
                        request_id@,
                    ) && self.workspaces@[workspace_id@].workspace.requests.entities@[
                        request_id@] is Request),
                    _ => false,
                }),
            },
    {
        let info = match self.get_workspace_info(workspace_id) {
            Ok(info) => info,
            Err(e) => {
                return Err(e);
            },
        };
        match info.workspace.requests.get(request_id) {
            Some(crate::model::RequestEntry::Request(req)) => {
                let (body_mime_type, body_length): (Option<String>, Option<u64>) = match &req
                    .body {
                    Some(b) => (Some(Self::get_body_type(b)), Some(
                        Self::get_body_length(b) as u64,
                    )),
                    None => (None, None),
                };
                Ok(RequestBodyInfo {
                    id: request_id.clone(),
                    body: crate::model::dup_body(&req.body),
                    body_mime_type,
                    body_length,
                })
            },
            _ => Err(ApicizeAppError::InvalidRequest(request_id.clone())),
        }
    }

    /// The authorization a request effectively runs under: its own or the
    /// nearest ancestor's selection, the workbook default otherwise.  An
    /// explicit off-selection turns authorization off.
    pub fn get_request_active_authorization(
        &self,
        workspace_id: &String,
        request_id: &String,
    ) -> (r: Result<Option<Authorization>, ApicizeAppError>)
        requires
            self.wf(),
        ensures
            match r {
                Ok(a) => self.workspaces@.contains_key(workspace_id@) && (match a {
                    Some(auth) => self.workspaces@[workspace_id@].workspace.authorizations
                        .entities@.contains_key(auth.spec_id()),
                    None => true,
                }),
                Err(e) => (match e {
                    ApicizeAppError::InvalidWorkspace(s) => s@ == workspace_id@
                        && !self.workspaces@.contains_key(workspace_id@),
                    ApicizeAppError::InvalidAuthorization(s) => self.workspaces@.contains_key(
                        workspace_id@,
                    ) && !self.workspaces@[workspace_id@].workspace.authorizations.entities@
                        .contains_key(s@),
                    _ => false,
                }),
            },
    {
        let info = match self.get_workspace_info(workspace_id) {
            Ok(info) => info,
            Err(e) => {
                return Err(e);
            },
        };
        let ws = &info.workspace;
        let off_marker = crate::navigation::no_selection_id().to_owned();
        let mut result: Option<Authorization> = None;
        let mut stopped = false;
        let mut id_to_check = request_id.clone();
        let mut fuel = ws.requests.entities.num_entries();
        loop
            invariant
                self.wf(),
                self.workspaces@.contains_key(workspace_id@),
                ws == self.workspaces@[workspace_id@].workspace,
                ws.wf(),
                off_marker@ == "\tNONE\t"@,
                match result {
                    Some(auth) => ws.authorizations.entities@.contains_key(auth.spec_id()),
                    None => true,
                },
            decreases fuel,
        {
            if fuel == 0 {
                break;
            }
            fuel = fuel - 1;
            let entry = match ws.requests.get(&id_to_check) {
                Some(e) => e,
                None => {
                    break;
                },
            };
            if let Some(sel) = entry.selected_authorization() {
                if sel.id.eq(&off_marker) {
                    result = None;
                    stopped = true;
                    break;
                } else {
                    match ws.authorizations.get(&sel.id) {
                        Some(a) => {
                            result = Some(rebuild_auth(a));
                            stopped = true;
                            break;
                        },
                        None => {
                            return Err(ApicizeAppError::InvalidAuthorization(sel.id.clone()));
                        },
                    }
                }
            }
            match ws.requests.parent_of(&id_to_check) {
                Some(p) => {
                    id_to_check = p;
                },
                None => {
                    break;
                },
            }
        }
        if result.is_none() && !stopped {
            if let Some(sel) = &ws.defaults.selected_authorization {
                match ws.authorizations.get(&sel.id) {
                    Some(a) => {
                        result = Some(rebuild_auth(a));
                    },
                    None => {
                        return Err(ApicizeAppError::InvalidAuthorization(sel.id.clone()));
                    },
                }
            }
        }
        Ok(result)
    }

    /// The data set a request effectively runs with, by the same
    /// inheritance rule as authorizations.
    pub fn get_request_active_data(&self, workspace_id: &String, request_id: &String) -> (r:
        Result<Option<DataSet>, ApicizeAppError>)
        requires
            self.wf(),
        ensures
            match r {
                Ok(d) => self.workspaces@.contains_key(workspace_id@) && (match d {
                    Some(ds) => self.workspaces@[workspace_id@].workspace.data.entities@
                        .contains_key(ds.id@),
                    None => true,
                }),
                Err(e) => (match e {
                    ApicizeAppError::InvalidWorkspace(s) => s@ == workspace_id@
                        && !self.workspaces@.contains_key(workspace_id@),
                    ApicizeAppError::InvalidDataSet(s) => self.workspaces@.contains_key(
                        workspace_id@,
                    ) && !self.workspaces@[workspace_id@].workspace.data.entities@.contains_key(
                        s@,
                    ),
                    _ => false,
                }),
            },
    {
        let info = match self.get_workspace_info(workspace_id) {
            Ok(info) => info,
            Err(e) => {
                return Err(e);
            },
        };
        let ws = &info.workspace;
        let off_marker = crate::navigation::no_selection_id().to_owned();
        let mut result: Option<DataSet> = None;
        let mut stopped = false;
        let mut id_to_check = request_id.clone();
        let mut fuel = ws.requests.entities.num_entries();
        loop
            invariant
                self.wf(),
                self.workspaces@.contains_key(workspace_id@),
                ws == self.workspaces@[workspace_id@].workspace,
                ws.wf(),
                off_marker@ == "\tNONE\t"@,
                match result {
                    Some(ds) => ws.data.entities@.contains_key(ds.id@),
                    None => true,
                },
            decreases fuel,
        {
            if fuel == 0 {
                break;
            }
            fuel = fuel - 1;
            let entry = match ws.requests.get(&id_to_check) {
                Some(e) => e,
                None => {
                    break;
                },
            };
            if let Some(sel) = entry.selected_data() {
                if sel.id.eq(&off_marker) {
                    result = None;
                    stopped = true;
                    break;
                } else {
                    match ws.data.get(&sel.id) {
                        Some(d) => {
                            result = Some(rebuild_data_set(d));
                            stopped = true;
                            break;
                        },
                        None => {
                            return Err(ApicizeAppError::InvalidDataSet(sel.id.clone()));
                        },
                    }
                }
            }
            match ws.requests.parent_of(&id_to_check) {
                Some(p) => {
                    id_to_check = p;
                },
                None => {
                    break;
                },
            }
        }
        if result.is_none() && !stopped {
            if let Some(sel) = &ws.defaults.selected_data {
                match ws.data.get(&sel.id) {
                    Some(d) => {
                        result = Some(rebuild_data_set(d));
                    },
                    None => {
                        return Err(ApicizeAppError::InvalidDataSet(sel.id.clone()));
                    },
                }
            }
        }
        Ok(result)
    }

    /// The selection lists for every parameter kind, with an inherited
    /// default entry at the front of each when a request is given.
    pub fn list_parameters(&self, workspace_id: &String, active_request_id: Option<&String>)
        -> (r: Result<WorkspaceParameters, ApicizeAppError>)
        requires
            self.wf(),
        ensures
            match r {
                Ok(params) => {
                    let nav = self.workspaces@[workspace_id@].navigation;
                    let base: int = if active_request_id is Some {
                        1
                    } else {
                        0
                    };
                    &&& self.workspaces@.contains_key(workspace_id@)
                    &&& selections_match(nav.scenarios, params.scenarios@, base)
                    &&& selections_match(nav.authorizations, params.authorizations@, base)
                    &&& selections_match(nav.certificates, params.certificates@, base)
                    &&& selections_match(nav.proxies, params.proxies@, base)
                    &&& data_selections_match(nav.data_sets@, params.data@, base)
                    &&& (active_request_id is Some ==> params.scenarios@[0].id@
                        == "\tDEFAULT\t"@ && params.authorizations@[0].id@ == "\tDEFAULT\t"@
                        && params.certificates@[0].id@ == "\tDEFAULT\t"@
                        && params.proxies@[0].id@ == "\tDEFAULT\t"@ && params.data@[0].id@
                        == "\tDEFAULT\t"@)
                },
                Err(e) => !self.workspaces@.contains_key(workspace_id@) && (
                e matches ApicizeAppError::InvalidWorkspace(s) && s@ == workspace_id@),
            },
    {
        let info = match self.get_workspace_info(workspace_id) {
            Ok(info) => info,
            Err(e) => {
                return Err(e);
            },
        };
        let mut scenarios = info.navigation.scenarios.generate_selection_list(true);
        let mut authorizations = info.navigation.authorizations.generate_selection_list(true);
        let mut certificates = info.navigation.certificates.generate_selection_list(true);
        let mut proxies = info.navigation.proxies.generate_selection_list(true);
        let mut data: Vec<Selection> = Vec::new();
        data.push(Selection {
            id: crate::navigation::no_selection_id().to_owned(),
            name: "Off".to_owned(),
        });
        let nd = info.navigation.data_sets.len();
        let mut i: usize = 0;
        while i < nd
            invariant
                self.wf(),
                self.workspaces@.contains_key(workspace_id@),
                info == self.workspaces@[workspace_id@],
                nd == info.navigation.data_sets@.len(),
                i <= nd,
                data@.len() == i + 1,
                data@[0].id@ == "\tNONE\t"@,
                data@[0].name@ == "Off"@,
                forall|j: int|
                    0 <= j < i ==> (#[trigger] data@[1 + j]).id@
                        == info.navigation.data_sets@[j].id@ && data@[1 + j].name@ == title_of(
                        info.navigation.data_sets@[j].name@,
                    ),
            decreases nd - i,
        {
            let d = &info.navigation.data_sets[i];
            let name = crate::model::title_string(&d.name);
            data.push(Selection { id: d.id.clone(), name });
            i += 1;
        }
        if let Some(request_id) = active_request_id {
            let ws = &info.workspace;
            let mut default_scenario: Option<Selection> = None;
            let mut default_authorization: Option<Selection> = None;
            let mut default_certificate: Option<Selection> = None;
            let mut default_proxy: Option<Selection> = None;
            let mut default_data: Option<Selection> = None;
            let mut id = request_id.clone();
            let mut is_self = true;
            let mut fuel = ws.requests.entities.num_entries();
            loop
                invariant
                    self.wf(),
                    self.workspaces@.contains_key(workspace_id@),
                    ws == self.workspaces@[workspace_id@].workspace,
                    ws.wf(),
                decreases fuel,
            {
                if fuel == 0 {
                    break;
                }
                fuel = fuel - 1;
                let entry = match ws.requests.get(&id) {
                    Some(e) => e,
                    None => {
                        break;
                    },
                };
                if !is_self {
                    if default_scenario.is_none() {
                        if let Some(e) = entry.selected_scenario() {
                            default_scenario = Some(Selection {
                                id: e.id.clone(),
                                name: e.name.clone(),
                            });
                        }
                    }
                    if default_authorization.is_none() {
                        if let Some(e) = entry.selected_authorization() {
                            default_authorization = Some(Selection {
                                id: e.id.clone(),
                                name: e.name.clone(),
                            });
                        }
                    }
                    if default_certificate.is_none() {
                        if let Some(e) = entry.selected_certificate() {
                            default_certificate = Some(Selection {
                                id: e.id.clone(),
                                name: e.name.clone(),
                            });
                        }
                    }
                    if default_proxy.is_none() {
                        if let Some(e) = entry.selected_proxy() {
                            default_proxy = Some(Selection {
                                id: e.id.clone(),
                                name: e.name.clone(),
                            });
                        }
                    }
                    if default_data.is_none() {
                        if let Some(e) = entry.selected_data() {
                            default_data = Some(Selection {
                                id: e.id.clone(),
                                name: e.name.clone(),
                            });
                        }
                    }
                } else {
                    is_self = false;
                }
                if default_scenario.is_some() && default_authorization.is_some()
                    && default_certificate.is_some() && default_proxy.is_some()
                    && default_data.is_some() {
                    break;
                }
                match ws.requests.parent_of(&id) {
                    Some(p) => {
                        id = p;
                    },
                    None => {
                        break;
                    },
                }
            }
            if default_scenario.is_none() {
                if let Some(sel) = &ws.defaults.selected_scenario {
                    if let Some(e) = ws.scenarios.get(&sel.id) {
                        default_scenario = Some(Selection {
                            id: e.id.clone(),
                            name: e.name.clone(),
                        });
                    }
                }
            }
            if default_authorization.is_none() {
                if let Some(sel) = &ws.defaults.selected_authorization {
                    if let Some(e) = ws.authorizations.get(&sel.id) {
                        default_authorization = Some(Selection {
                            id: e.get_id().clone(),
                            name: e.get_name().clone(),
                        });
                    }
                }
            }
            if default_certificate.is_none() {
                if let Some(sel) = &ws.defaults.selected_certificate {
                    if let Some(e) = ws.certificates.get(&sel.id) {
                        default_certificate = Some(Selection {
                            id: e.get_id().clone(),
                            name: e.get_name().clone(),
                        });
                    }
                }
            }
            if default_proxy.is_none() {
                if let Some(sel) = &ws.defaults.selected_proxy {
                    if let Some(e) = ws.proxies.get(&sel.id) {
                        default_proxy = Some(Selection { id: e.id.clone(), name: e.name.clone() });
                    }
                }
            }
            if default_data.is_none() {
                if let Some(sel) = &ws.defaults.selected_data {
                    if let Some(e) = ws.data.get(&sel.id) {
                        default_data = Some(Selection { id: e.id.clone(), name: e.name.clone() });
                    }
                }
            }
            let ghost data_before = data@;
            insert_default_selection(&default_scenario, &mut scenarios);
            insert_default_selection(&default_authorization, &mut authorizations);
            insert_default_selection(&default_certificate, &mut certificates);
            insert_default_selection(&default_proxy, &mut proxies);
            insert_default_selection(&default_data, &mut data);
            proof {
                assert forall|i: int|
                    0 <= i < info.navigation.data_sets@.len() implies (#[trigger] data@[2 + i]).id@
                    == info.navigation.data_sets@[i].id@ && data@[2 + i].name@ == title_of(
                    info.navigation.data_sets@[i].name@,
                ) by {
                    assert(data@[2 + i] == data_before[1 + i]);
                    assert(data_before[1 + i].id@ == info.navigation.data_sets@[i].id@);
                }
            }
        }
        proof {
            let ghost base: int = if active_request_id is Some {
                1
            } else {
                0
            };
            assert(selections_match(info.navigation.scenarios, scenarios@, base));
            assert(selections_match(info.navigation.authorizations, authorizations@, base));
            assert(selections_match(info.navigation.certificates, certificates@, base));
            assert(selections_match(info.navigation.proxies, proxies@, base));
            assert(data@.len() == base + 1 + info.navigation.data_sets@.len());
            assert(data@[base].id@ == "\tNONE\t"@);
            assert(data@[base].name@ == "Off"@);
            assert forall|i: int|
                0 <= i < info.navigation.data_sets@.len() implies (#[trigger] data@[base + 1
                + i]).id@ == info.navigation.data_sets@[i].id@ && data@[base + 1 + i].name@
                == title_of(info.navigation.data_sets@[i].name@) by {
                if base == 1 {
                    assert(data@[base + 1 + i] == data@[2 + i]);
                } else {
                    assert(data@[base + 1 + i] == data@[1 + i]);
                }
            }
            assert(data_selections_match(info.navigation.data_sets@, data@, base));
        }
        Ok(WorkspaceParameters { scenarios, authorizations, certificates, proxies, data })
    }
}

/// Inserts the inherited-default entry at the front of a selection list:
/// the inherited name when one is configured, a none-configured marker
/// otherwise.
pub fn insert_default_selection(selection: &Option<Selection>, results: &mut Vec<Selection>)
    ensures
        final(results)@.len() == old(results)@.len() + 1,
        final(results)@[0].id@ == "\tDEFAULT\t"@,
        forall|i: int|
            1 <= i < final(results)@.len() ==> (#[trigger] final(results)@[i]) == old(results)@[i
                - 1],
        (match selection {
            Some(sel) => sel.id@ != "\tNONE\t"@ ==> final(results)@[0].name@ == "Default ("@
                + sel.name@ + ")"@,
            None => final(results)@[0].name@ == "Default (None Configured)"@,
        }),
{
    let off_marker = crate::navigation::no_selection_id().to_owned();
    let name: String = match selection {
        Some(sel) => {
            if sel.id.eq(&off_marker) {
                "Default (None Configured)".to_owned()
            } else {
                let mut t = "Default (".to_owned();
                t.append(sel.name.as_str());
                t.append(")");
                proof {
                    assert(t@ =~= "Default ("@ + sel.name@ + ")"@);
                }
                t
            }
        },
        None => "Default (None Configured)".to_owned(),
    };
    results.insert(0, Selection { id: crate::navigation::default_selection_id().to_owned(), name });
}

/// Rebuilds an authorization value field for field.
fn rebuild_auth(a: &Authorization) -> (r: Authorization)
    ensures
        r.spec_id() == a.spec_id(),
        r.spec_name() == a.spec_name(),
{
    let keep = a.clone_as_new(a.get_id().clone());
    let renamed = match keep {
        Authorization::Basic { id, username, password, validation_state, validation_warnings, validation_errors, .. } =>
            Authorization::Basic {
                id,
                name: a.get_name().clone(),
                username,
                password,
                validation_state,
                validation_warnings,
                validation_errors,
            },
        Authorization::OAuth2Client {
            id,
            access_token_url,
            client_id,
            client_secret,
            audience,
            scope,
            selected_certificate,
            selected_proxy,
            send_credentials_in_body,
            validation_state,
            validation_warnings,
            validation_errors,
            ..
        } => Authorization::OAuth2Client {
            id,
            name: a.get_name().clone(),
            access_token_url,
            client_id,
            client_secret,
            audience,
            scope,
            selected_certificate,
            selected_proxy,
            send_credentials_in_body,
            validation_state,
            validation_warnings,
            validation_errors,
        },
        Authorization::OAuth2Pkce {
            id,
            authorize_url,
            access_token_url,
            client_id,
            scope,
            send_credentials_in_body,
            token,
            refresh_token,
            expiration,
            validation_state,
            validation_warnings,
            validation_errors,
            ..
        } => Authorization::OAuth2Pkce {
            id,
            name: a.get_name().clone(),
            authorize_url,
            access_token_url,
            client_id,
            scope,
            send_credentials_in_body,
            token,
            refresh_token,
            expiration,
            validation_state,
            validation_warnings,
            validation_errors,
        },
        Authorization::ApiKey { id, header, value, validation_state, validation_warnings, validation_errors, .. } =>
            Authorization::ApiKey {
                id,
                name: a.get_name().clone(),
                header,
                value,
                validation_state,
                validation_warnings,
                validation_errors,
            },
    };
    renamed
}

/// Rebuilds a data set value field for field.
fn rebuild_data_set(d: &DataSet) -> (r: DataSet)
    ensures
        r.id == d.id,
        r.name == d.name,
        r.source_type == d.source_type,
        r.source == d.source,
{
    DataSet {
        id: d.id.clone(),
        name: d.name.clone(),
        source_type: d.source_type,
        source: d.source.clone(),
        source_error: crate::model::dup_opt_string(&d.source_error),
        validation_state: d.validation_state,
        validation_warnings: crate::model::dup_opt_strings(&d.validation_warnings),
        validation_errors: crate::model::dup_opt_errors(&d.validation_errors),
    }
}


/// Copies a summary value.
pub fn dup_summary(s: &ExecutionResultSummary) -> (r: ExecutionResultSummary)
    ensures
        r == *s,
{
    ExecutionResultSummary {
        exec_ctr: s.exec_ctr,
        parent_exec_ctr: s.parent_exec_ctr,
        name: s.name.clone(),
        success: s.success,
        level: s.level,
        run_number: s.run_number,
        run_count: s.run_count,
        row_number: s.row_number,
        row_count: s.row_count,
    }
}

/// Copies a summary batch.
pub fn dup_summaries(v: &Vec<ExecutionResultSummary>) -> (r: Vec<ExecutionResultSummary>)
    ensures
        r@ == v@,
{
    let n = v.len();
    let mut out: Vec<ExecutionResultSummary> = Vec::new();
    let mut i: usize = 0;
    while i < n
        invariant
            n == v@.len(),
            i <= n,
            out@ =~= v@.take(i as int),
        decreases n - i,
    {
        out.push(dup_summary(&v[i]));
        proof {
            assert(out@ =~= v@.take(i + 1));
        }
        i += 1;
    }
    proof {
        assert(v@.take(n as int) =~= v@);
    }
    out
}

/// The assembled correlation input is drawn from the retained batches of
/// the queried id and its subtree, the queried id's batch first, each
/// executing id named unless it is the queried one.
/// The executing ids, other than the queried one, whose retained batches
/// belong to the queried subtree, in the result store's entry order.
pub open spec fn subtree_batch_keys(
    kvs: Seq<(String, Vec<ExecutionResultSummary>)>,
    m: Map<Seq<char>, Vec<String>>,
    target: Seq<char>,
) -> Seq<Seq<char>>
    decreases kvs.len(),
{
    if kvs.len() == 0 {
        Seq::empty()
    } else {
        let rest = subtree_batch_keys(kvs.drop_first(), m, target);
        if kvs[0].0@ != target && crate::tree::in_subtree(m, target, kvs[0].0@) {
            seq![kvs[0].0@] + rest
        } else {
            rest
        }
    }
}

/// The correlation input is pinned by the state: the queried id's batch
/// first when one is retained, then the subtree members' batches in store
/// order, each carrying the stored summaries and the executing entity's
/// display title.
pub open spec fn assembled_from(
    info: WorkspaceInfo,
    target: Seq<char>,
    bs: Seq<crate::correlator::CorrelatorBatch>,
) -> bool {
    let off: int = if info.results.summaries@.contains_key(target) {
        1
    } else {
        0
    };
    let dk = subtree_batch_keys(
        info.results.summaries.kvs(),
        info.workspace.requests.child_ids@,
        target,
    );
    &&& forall|i: int|
        0 <= i < bs.len() ==> info.results.summaries@.contains_key(
            (#[trigger] bs[i]).executing_id@,
        ) && bs[i].summaries@ == info.results.summaries@[bs[i].executing_id@]@
    &&& forall|i: int|
        0 <= i < bs.len() ==> ((#[trigger] bs[i]).executing_id@ == target <==> bs[i]
            .executing_name is None)
    &&& forall|i: int|
        0 <= i < bs.len() ==> (match (#[trigger] bs[i]).executing_name {
            Some(n) => n@ == (if info.workspace.requests.entities@.contains_key(
                bs[i].executing_id@,
            ) {
                title_of(info.workspace.requests.entities@[bs[i].executing_id@].spec_name())
            } else {
                bs[i].executing_id@
            }),
            None => true,
        })
    &&& (info.results.summaries@.contains_key(target) ==> bs.len() > 0 && bs[0].executing_id@
        == target)
    &&& bs.len() == off + dk.len()
    &&& forall|i: int| off <= i < bs.len() ==> (#[trigger] bs[i]).executing_id@ == dk[i - off]
    &&& forall|i: int|
        0 <= i < bs.len() ==> crate::tree::in_subtree(
            info.workspace.requests.child_ids@,
            target,
            (#[trigger] bs[i]).executing_id@,
        )
}

impl WorkspaceInfo {
    /// Builds the navigable execution menu for a request or group from the
    /// retained batches of it and its subtree.  The menu realizes the
    /// correlator's specification of the assembled input exactly, so two
    /// builds over the same state yield identical menus.
    pub fn build_result_menu_items(&self, request_or_group_id: &String) -> (r: Vec<
        ExecutionMenuItem,
    >)
        requires
            self.wf(),
        ensures
            exists|bs: Seq<crate::correlator::CorrelatorBatch>|
                #[trigger] assembled_from(*self, request_or_group_id@, bs) && r@.len()
                    == spec_menu_items(request_or_group_id@, bs, self.results.retained@).len() && (
                forall|i: int|
                    0 <= i < r@.len() ==> item_matches(
                        #[trigger] r@[i],
                        spec_menu_items(request_or_group_id@, bs, self.results.retained@)[i],
                    )),
    {
        let batches = self.collect_correlator_batches(request_or_group_id);
        let items = correlate(request_or_group_id, &batches, &self.results.retained);
        proof {
            assert(assembled_from(*self, request_or_group_id@, batches@));
        }
        items
    }

    /// Collects the correlation input for the queried id: its own retained
    /// batch first, then each subtree member's batch in store order.
    pub fn collect_correlator_batches(&self, target: &String) -> (r: Vec<
        crate::correlator::CorrelatorBatch,
    >)
        requires
            self.wf(),
        ensures
            assembled_from(*self, target@, r@),
    {
        let ghost m = self.workspace.requests.child_ids@;
        let ghost kvs = self.results.summaries.kvs();
        let mut out: Vec<crate::correlator::CorrelatorBatch> = Vec::new();
        let ghost off: int = if self.results.summaries@.contains_key(target@) {
            1int
        } else {
            0
        };
        if let Some(batch) = self.results.summaries.get(target) {
            out.push(crate::correlator::CorrelatorBatch {
                executing_id: target.clone(),
                executing_name: None,
                summaries: dup_summaries(batch),
            });
            proof {
                crate::tree::lemma_subtree_root(m, target@);
            }
        }
        let sub = self.workspace.requests.collect_subtree(target);
        let n = self.results.summaries.num_entries();
        proof {
            self.results.summaries.lemma_kvs();
            assert(subtree_batch_keys(kvs.skip(0), m, target@) =~= subtree_batch_keys(
                kvs,
                m,
                target@,
            )) by {
                assert(kvs.skip(0) =~= kvs);
            }
        }
        let mut i: usize = 0;
        while i < n
            invariant
                self.wf(),
                m == self.workspace.requests.child_ids@,
                kvs == self.results.summaries.kvs(),
                off == (if self.results.summaries@.contains_key(target@) {
                    1int
                } else {
                    0
                }),
                n == kvs.len(),
                i <= n,
                forall|k: Seq<char>|
                    #[trigger] crate::tree::id_in(sub@, k) <==> crate::tree::in_subtree(
                        m,
                        target@,
                        k,
                    ),
                forall|j: int|
                    0 <= j < kvs.len() ==> self.results.summaries@.contains_key(
                        (#[trigger] kvs[j]).0@,
                    ) && self.results.summaries@[kvs[j].0@] == kvs[j].1,
                out@.len() == off + subtree_batch_keys(kvs.take(i as int), m, target@).len(),
                self.results.summaries@.contains_key(target@) ==> out@.len() > 0
                    && out@[0].executing_id@ == target@,
                forall|j: int|
                    off <= j < out@.len() ==> (#[trigger] out@[j]).executing_id@
                        == subtree_batch_keys(kvs.take(i as int), m, target@)[j - off],
                forall|j: int|
                    0 <= j < out@.len() ==> self.results.summaries@.contains_key(
                        (#[trigger] out@[j]).executing_id@,
                    ) && out@[j].summaries@ == self.results.summaries@[out@[j].executing_id@]@,
                forall|j: int|
                    0 <= j < out@.len() ==> ((#[trigger] out@[j]).executing_id@ == target@
                        <==> out@[j].executing_name is None),
                forall|j: int|
                    0 <= j < out@.len() ==> (match (#[trigger] out@[j]).executing_name {
                        Some(nm) => nm@ == (if self.workspace.requests.entities@.contains_key(
                            out@[j].executing_id@,
                        ) {
                            title_of(
                                self.workspace.requests.entities@[out@[j].executing_id@]
                                    .spec_name(),
                            )
                        } else {
                            out@[j].executing_id@
                        }),
                        None => true,
                    }),
                forall|j: int|
                    0 <= j < out@.len() ==> crate::tree::in_subtree(
                        m,
                        target@,
                        (#[trigger] out@[j]).executing_id@,
                    ),
            decreases n - i,
        {
            let ghost takei = kvs.take(i as int);
            proof {
                lemma_subtree_keys_step(kvs, m, target@, i as int);
            }
            let (key, batch) = self.results.summaries.entry_at(i);
            let is_target = key.eq(target);
            let in_tree = crate::tree::find_id(&sub, key).is_some();
            proof {
                if in_tree {
                    let jj = choose|jj: int|
                        0 <= jj < sub@.len() && (#[trigger] sub@[jj]@) == key@;
                    assert(crate::tree::id_in(sub@, key@));
                }
                if !in_tree && crate::tree::in_subtree(m, target@, key@) {
                    assert(crate::tree::id_in(sub@, key@));
                    let jj = choose|jj: int|
                        0 <= jj < sub@.len() && (#[trigger] sub@[jj]@) == key@;
                }
            }
            if !is_target && in_tree {
                let executing_name = match self.workspace.requests.get(key) {
                    Some(entry) => Some(entry.get_title()),
                    None => Some(key.clone()),
                };
                out.push(crate::correlator::CorrelatorBatch {
                    executing_id: key.clone(),
                    executing_name,
                    summaries: dup_summaries(batch),
                });
            }
            i += 1;
        }
        proof {
            assert(kvs.take(n as int) =~= kvs);
        }
        out
    }

    /// The cached execution view for an id, empty when none is cached.
    pub fn get_execution(&self, request_or_group_id: &String) -> (r: RequestExecution)
        requires
            self.wf(),
        ensures
            self.executions@.contains_key(request_or_group_id@) ==> {
                let cached = self.executions@[request_or_group_id@];
                &&& r.execution_state == cached.execution_state
                &&& r.menu@.len() == cached.menu@.len()
                &&& (forall|i: int|
                    0 <= i < r.menu@.len() ==> menu_item_view_eq(
                        #[trigger] r.menu@[i],
                        cached.menu@[i],
                    ))
                &&& r.active_summaries@ == cached.active_summaries@
            },
            !self.executions@.contains_key(request_or_group_id@) ==> r.execution_state
                == ExecutionState::spec_empty() && r.menu@.len() == 0,
    {
        match self.executions.get(request_or_group_id) {
            Some(e) => dup_request_execution(e),
            None => RequestExecution::empty(),
        }
    }

    /// Clears the cached executions and retained results of an id and its
    /// whole subtree; returns the ids whose cache was dropped.
    pub fn delete_executions(&mut self, request_or_group_id: &String) -> (r: Vec<String>)
        requires
            old(self).wf(),
        ensures
            final(self).wf(),
            final(self).workspace == old(self).workspace,
            forall|k: Seq<char>|
                #[trigger] final(self).executions@.contains_key(k) <==> (old(
                    self,
                ).executions@.contains_key(k) && !crate::tree::in_subtree(
                    old(self).workspace.requests.child_ids@,
                    request_or_group_id@,
                    k,
                )),
            forall|k: Seq<char>|
                #[trigger] final(self).results.summaries@.contains_key(k) <==> (old(
                    self,
                ).results.summaries@.contains_key(k) && !crate::tree::in_subtree(
                    old(self).workspace.requests.child_ids@,
                    request_or_group_id@,
                    k,
                )),
            crate::tree::ids_unique(r@),
            forall|k: Seq<char>|
                #[trigger] crate::tree::id_in(r@, k) <==> (crate::tree::in_subtree(
                    old(self).workspace.requests.child_ids@,
                    request_or_group_id@,
                    k,
                ) && old(self).executions@.contains_key(k)),
            forall|c: u64|
                #[trigger] final(self).results.details@.contains_key(c) ==> old(
                    self,
                ).results.details@.contains_key(c),
            forall|c: u64|
                #[trigger] final(self).results.retained@.contains_key(c) ==> old(
                    self,
                ).results.retained@.contains_key(c),
            forall|k: Seq<char>, i: int|
                old(self).results.summaries@.contains_key(k) && crate::tree::in_subtree(
                    old(self).workspace.requests.child_ids@,
                    request_or_group_id@,
                    k,
                ) && 0 <= i < old(self).results.summaries@[k]@.len()
                    ==> !final(self).results.details@.contains_key(
                    (#[trigger] old(self).results.summaries@[k]@[i]).exec_ctr,
                ) && !final(self).results.retained@.contains_key(
                    old(self).results.summaries@[k]@[i].exec_ctr,
                ),
    {
        let sub = self.workspace.requests.collect_subtree(request_or_group_id);
        let ghost m0 = self.workspace.requests.child_ids@;
        let ghost ex0 = self.executions@;
        let ghost su0 = self.results.summaries@;
        let ghost de0 = self.results.details@;
        let ghost re0 = self.results.retained@;
        let mut deleted: Vec<String> = Vec::new();
        let n = sub.len();
        let mut i: usize = 0;
        while i < n
            invariant
                n == sub@.len(),
                self.workspace == old(self).workspace,
                self.executions.wf(),
                self.results.wf(),
                self.data_set_content.wf(),
                forall|k: Seq<char>|
                    #[trigger] self.results.summaries@.contains_key(k) ==> batch_wf(
                        self.results.summaries@[k]@,
                    ),
                i <= n,
                crate::tree::ids_unique(sub@),
                forall|k: Seq<char>|
                    #[trigger] crate::tree::id_in(sub@, k) <==> crate::tree::in_subtree(
                        m0,
                        request_or_group_id@,
                        k,
                    ),
                forall|k: Seq<char>|
                    #[trigger] self.executions@.contains_key(k) <==> (ex0.contains_key(k)
                        && !crate::tree::id_in(sub@.take(i as int), k)),
                forall|k: Seq<char>|
                    #[trigger] self.results.summaries@.contains_key(k) <==> (su0.contains_key(k)
                        && !crate::tree::id_in(sub@.take(i as int), k)),
                forall|k: Seq<char>|
                    #[trigger] self.results.summaries@.contains_key(k)
                        ==> self.results.summaries@[k] == su0[k],
                crate::tree::ids_unique(deleted@),
                forall|k: Seq<char>|
                    #[trigger] crate::tree::id_in(deleted@, k) <==> (crate::tree::id_in(
                        sub@.take(i as int),
                        k,
                    ) && ex0.contains_key(k)),
                forall|c: u64|
                    #[trigger] self.results.details@.contains_key(c) ==> de0.contains_key(c),
                forall|c: u64|
                    #[trigger] self.results.retained@.contains_key(c) ==> re0.contains_key(c),
                forall|k: Seq<char>, i2: int|
                    su0.contains_key(k) && crate::tree::id_in(sub@.take(i as int), k) && 0 <= i2
                        < su0[k]@.len() ==> !self.results.details@.contains_key(
                        (#[trigger] su0[k]@[i2]).exec_ctr,
                    ) && !self.results.retained@.contains_key(su0[k]@[i2].exec_ctr),
            decreases n - i,
    {
            let ghost takei = sub@.take(i as int);
            proof {
                assert(sub@.take(i + 1) =~= takei.push(sub@[i as int]));
                crate::tree::lemma_push_id_membership(takei, sub@[i as int]);
                assert(!crate::tree::id_in(takei, sub@[i as int]@)) by {
                    if crate::tree::id_in(takei, sub@[i as int]@) {
                        let j = choose|j: int|
                            0 <= j < takei.len() && (#[trigger] takei[j]@) == sub@[i as int]@;
                        assert(sub@[j]@ == sub@[i as int]@);
                    }
                }
            }
            let id = &sub[i];
            let removed_batch = self.results.summaries.remove(id);
            if let Some(batch) = removed_batch {
                proof {
                    assert(su0.contains_key(id@) && batch@ == su0[id@]@);
                }
                let ghost mid = *self;
                let bn = batch.len();
                let mut j: usize = 0;
                while j < bn
                    invariant
                        bn == batch@.len(),
                        batch@ == su0[id@]@,
                        su0.contains_key(id@),
                        id@ == sub@[i as int]@,
                        j <= bn,
                        self.results.details.wf(),
                        self.results.retained.wf(),
                        self.results.summaries == mid.results.summaries,
                        self.executions == mid.executions,
                        self.workspace == mid.workspace,
                        self.data_set_content == mid.data_set_content,
                        self.navigation == mid.navigation,
                        self.dirty == mid.dirty,
                        self.warn_on_workspace_creds == mid.warn_on_workspace_creds,
                        self.file_name == mid.file_name,
                        self.directory == mid.directory,
                        self.display_name == mid.display_name,
                        forall|c: u64|
                            #[trigger] self.results.details@.contains_key(c) ==> de0.contains_key(
                                c,
                            ),
                        forall|c: u64|
                            #[trigger] self.results.retained@.contains_key(c)
                                ==> re0.contains_key(c),
                        forall|k: Seq<char>, i2: int|
                            su0.contains_key(k) && crate::tree::id_in(sub@.take(i as int), k) && 0
                                <= i2 < su0[k]@.len() ==> !self.results.details@.contains_key(
                                (#[trigger] su0[k]@[i2]).exec_ctr,
                            ) && !self.results.retained@.contains_key(su0[k]@[i2].exec_ctr),
                        forall|i2: int|
                            0 <= i2 < j ==> !self.results.details@.contains_key(
                                (#[trigger] batch@[i2]).exec_ctr,
                            ) && !self.results.retained@.contains_key(batch@[i2].exec_ctr),
                    decreases bn - j,
                {
                    self.results.details.remove(batch[j].exec_ctr);
                    self.results.retained.remove(batch[j].exec_ctr);
                    j += 1;
                }
            }
            let was_cached = self.executions.remove(id).is_some();
            if was_cached {
                let ghost d0 = deleted@;
                proof {
                    if crate::tree::id_in(d0, id@) {
                        assert(crate::tree::id_in(sub@.take(i as int), id@));
                        let jj = choose|jj: int|
                            0 <= jj < sub@.take(i as int).len() && (#[trigger] sub@.take(
                                i as int,
                            )[jj]@) == id@;
                        assert(sub@[jj]@ == sub@[i as int]@);
                    }
                }
                deleted.push(id.clone());
                proof {
                    crate::tree::lemma_push_id_membership(d0, deleted@.last());
                }
            }
            i += 1;
            proof {
                assert forall|k: Seq<char>|
                    #[trigger] crate::tree::id_in(deleted@, k) <==> (crate::tree::id_in(
                        sub@.take(i as int),
                        k,
                    ) && ex0.contains_key(k)) by {
                    if crate::tree::id_in(deleted@, k) {
                        if k == sub@[i - 1]@ {
                            assert(sub@.take(i as int)[i - 1]@ == k);
                            assert(crate::tree::id_in(sub@.take(i as int), k)) by {
                                assert(sub@.take(i as int)[i - 1]@ == k);
                            }
                        }
                    }
                    if crate::tree::id_in(sub@.take(i as int), k) && ex0.contains_key(k) {
                        if k == sub@[i - 1]@ {
                            if was_cached {
                                assert(deleted@[deleted@.len() - 1]@ == k);
                            } else {
                                assert(false) by {
                                    assert(!crate::tree::id_in(takei, k));
                                }
                            }
                        }
                    }
                }
            }
        }
        proof {
            assert(sub@.take(n as int) =~= sub@);
        }
        deleted
    }

    /// The ids whose cached execution carries the running flag — an
    /// in-flight run, whatever result bits have accumulated beside it.
    pub fn get_running_request_ids(&self) -> (r: Vec<String>)
        requires
            self.wf(),
        ensures
            crate::tree::ids_unique(r@),
            forall|i: int|
                0 <= i < r@.len() ==> self.executions@.contains_key(#[trigger] r@[i]@)
                    && self.executions@[r@[i]@].execution_state.running,
            forall|k: Seq<char>|
                self.executions@.contains_key(k) && (#[trigger] self.executions@[k]
                    .execution_state).running ==> crate::tree::id_in(r@, k),
    {
        let n = self.executions.num_entries();
        proof {
            self.executions.lemma_kvs();
        }
        let mut out: Vec<String> = Vec::new();
        let mut i: usize = 0;
        while i < n
            invariant
                self.wf(),
                n == self.executions.kvs().len(),
                i <= n,
                forall|i2: int, j2: int|
                    0 <= i2 < j2 < self.executions.kvs().len() ==> (
                    #[trigger] self.executions.kvs()[i2].0@) != (
                    #[trigger] self.executions.kvs()[j2].0@),
                forall|j: int|
                    0 <= j < self.executions.kvs().len() ==> self.executions@.contains_key(
                        (#[trigger] self.executions.kvs()[j]).0@,
                    ) && self.executions@[self.executions.kvs()[j].0@]
                        == self.executions.kvs()[j].1,
                crate::tree::ids_unique(out@),
                forall|k: Seq<char>|
                    #[trigger] crate::tree::id_in(out@, k) ==> exists|j: int|
                        0 <= j < i && (#[trigger] self.executions.kvs()[j].0@) == k,
                forall|i2: int|
                    0 <= i2 < out@.len() ==> self.executions@.contains_key(#[trigger] out@[i2]@)
                        && self.executions@[out@[i2]@].execution_state.running,
                forall|j: int|
                    0 <= j < i && (#[trigger] self.executions.kvs()[j]).1.execution_state.running
                        ==> crate::tree::id_in(out@, self.executions.kvs()[j].0@),
            decreases n - i,
        {
            let (id, exec) = self.executions.entry_at(i);
            if exec.execution_state.running {
                let ghost out0 = out@;
                proof {
                    if crate::tree::id_in(out0, id@) {
                        let j = choose|j: int|
                            0 <= j < i && (#[trigger] self.executions.kvs()[j].0@) == id@;
                        assert(self.executions.kvs()[j].0@
                            == self.executions.kvs()[i as int].0@);
                    }
                }
                out.push(id.clone());
                proof {
                    crate::tree::lemma_push_id_membership(out0, out@.last());
                }
            }
            i += 1;
            proof {
                assert forall|k: Seq<char>| #[trigger] crate::tree::id_in(out@, k) implies exists|
                    j: int,
                |
                    0 <= j < i && (#[trigger] self.executions.kvs()[j].0@) == k by {
                    if crate::tree::id_in(out@, k) && k == self.executions.kvs()[i - 1].0@ {
                        assert(0 <= i - 1 < i && self.executions.kvs()[i - 1].0@ == k);
                    }
                }
            }
        }
        proof {
            assert forall|k: Seq<char>|
                self.executions@.contains_key(k) && (#[trigger] self.executions@[k]
                    .execution_state).running implies crate::tree::id_in(out@, k) by {
                let j = choose|j: int|
                    0 <= j < self.executions.kvs().len() && (
                    #[trigger] self.executions.kvs()[j].0@) == k;
            }
        }
        out
    }
}

/// The two menu items display the same: every field equal, text compared
/// by content.
pub open spec fn menu_item_view_eq(a: ExecutionMenuItem, b: ExecutionMenuItem) -> bool {
    &&& a.name@ == b.name@
    &&& a.level == b.level
    &&& (match (a.executing_name, b.executing_name) {
        (Some(x), Some(y)) => x@ == y@,
        (None, None) => true,
        _ => false,
    })
    &&& a.execution_state == b.execution_state
    &&& a.executing_request_or_group_id@ == b.executing_request_or_group_id@
    &&& a.executing_offset == b.executing_offset
    &&& a.exec_ctr == b.exec_ctr
    &&& a.next_exec_ctr == b.next_exec_ctr
    &&& a.prev_exec_ctr == b.prev_exec_ctr
    &&& a.parent_exec_ctr == b.parent_exec_ctr
}

/// Copies a cached execution view, menu items and summaries included.
pub fn dup_request_execution(e: &RequestExecution) -> (r: RequestExecution)
    ensures
        r.execution_state == e.execution_state,
        r.menu@.len() == e.menu@.len(),
        forall|i: int|
            0 <= i < r.menu@.len() ==> menu_item_view_eq(#[trigger] r.menu@[i], e.menu@[i]),
        r.active_summaries@ == e.active_summaries@,
{
    let mut menu: Vec<ExecutionMenuItem> = Vec::new();
    let n = e.menu.len();
    let mut i: usize = 0;
    while i < n
        invariant
            n == e.menu@.len(),
            i <= n,
            menu@.len() == i,
            forall|j: int|
                0 <= j < i ==> menu_item_view_eq(#[trigger] menu@[j], e.menu@[j]),
        decreases n - i,
    {
        let m = &e.menu[i];
        menu.push(ExecutionMenuItem {
            name: m.name.clone(),
            level: m.level,
            executing_name: crate::model::dup_opt_string(&m.executing_name),
            execution_state: m.execution_state,
            executing_request_or_group_id: m.executing_request_or_group_id.clone(),
            executing_offset: m.executing_offset,
            exec_ctr: m.exec_ctr,
            next_exec_ctr: m.next_exec_ctr,
            prev_exec_ctr: m.prev_exec_ctr,
            parent_exec_ctr: m.parent_exec_ctr,
        });
        i += 1;
    }
    let mut active_summaries: Vec<(u64, ExecutionResultSummary)> = Vec::new();
    let an = e.active_summaries.len();
    let mut j: usize = 0;
    while j < an
        invariant
            an == e.active_summaries@.len(),
            j <= an,
            active_summaries@ =~= e.active_summaries@.take(j as int),
        decreases an - j,
    {
        let (c, s) = (&e.active_summaries[j].0, &e.active_summaries[j].1);
        active_summaries.push((*c, dup_summary(s)));
        proof {
            assert(active_summaries@ =~= e.active_summaries@.take(j + 1));
        }
        j += 1;
    }
    proof {
        assert(e.active_summaries@.take(an as int) =~= e.active_summaries@);
    }
    RequestExecution { menu, execution_state: e.execution_state, active_summaries }
}


/// What opening a data-set file reports back.
#[derive(Clone, Debug, PartialEq)]
pub struct OpenDataSetFileResponse {
    pub relative_file_name: String,
    pub data_set_content: Option<DataSetContent>,
    pub validation_errors: Option<Vec<(String, String)>>,
}

impl Workspaces {
    /// Loads a data set's content from file bytes: CSV sources are parsed
    /// and cached with generated row ids, other file sources keep the raw
    /// text; a parse failure is recorded as the set's source error.  The
    /// stored relative file name follows the given one.
    pub fn load_data_set_from_file(
        &mut self,
        workspace_id: &String,
        data_set_id: &String,
        file_bytes: &Vec<u8>,
        file_text: Option<&String>,
        relative_file_name: &String,
    ) -> (r: Result<OpenDataSetFileResponse, ApicizeAppError>)
        requires
            old(self).wf(),
        ensures
            final(self).wf(),
            match r {
                Ok(resp) => {
                    let d0 = old(self).workspaces@[workspace_id@].workspace.data.entities@[
                        data_set_id@];
                    let d1 = final(self).workspaces@[workspace_id@].workspace.data.entities@[
                        data_set_id@];
                    &&& old(self).workspaces@.contains_key(workspace_id@)
                    &&& old(self).workspaces@[workspace_id@].workspace.data.entities@
                        .contains_key(data_set_id@)
                    &&& resp.relative_file_name@ == relative_file_name@
                    &&& final(self).workspaces@[workspace_id@].workspace.data.entities@
                        .contains_key(data_set_id@)
                    &&& d1.source_type == d0.source_type
                    &&& d1.validation_state == d1.computed_validation()
                    &&& (d1.source_type != DataSourceType::Json ==> d1.source@
                        == relative_file_name@)
                    &&& (d0.source_type == DataSourceType::FileCsv ==> (match
                        crate::csvdata::csv_parse_of(file_bytes@) {
                        Some((h, rows)) => resp.data_set_content matches Some(c)
                            && crate::csvdata::csv_content_matches(c, h, rows) && d1.source_error
                            is None,
                        None => resp.data_set_content is None && d1.source_error is Some,
                    }))
                    &&& (d0.source_type != DataSourceType::FileCsv ==> (
                    resp.data_set_content matches Some(c) && c.csv_columns is None && c.csv_rows
                        is None && !c.dirty && (c.source_text matches Some(t) && t@ == (
                    match file_text {
                        Some(ft) => ft@,
                        None => Seq::<char>::empty(),
                    }))))
                    &&& (d0.source_type != DataSourceType::Json
                        && resp.data_set_content is Some ==> final(self).workspaces@[
                        workspace_id@].data_set_content@.contains_key(data_set_id@))
                },
                Err(e) => registry_unchanged(*final(self), *old(self)) && (match e {
                    ApicizeAppError::InvalidWorkspace(s) => s@ == workspace_id@ && !old(
                        self,
                    ).workspaces@.contains_key(workspace_id@),
                    ApicizeAppError::InvalidDataSet(s) => s@ == data_set_id@ && old(
                        self,
                    ).workspaces@.contains_key(workspace_id@) && !old(
                        self,
                    ).workspaces@[workspace_id@].workspace.data.entities@.contains_key(
                        data_set_id@,
                    ),
                    _ => false,
                }),
            },
    {
        if !self.has_workspace(workspace_id) {
            return Err(ApicizeAppError::InvalidWorkspace(workspace_id.clone()));
        }
        let info = self.get_workspace_info_mut(workspace_id);
        if !info.workspace.data.entities.contains_key(data_set_id) {
            return Err(ApicizeAppError::InvalidDataSet(data_set_id.clone()));
        }
        let ghost params0 = info.workspace.data;
        let mut data_set_content: Option<DataSetContent> = None;
        {
            let data_set = info.workspace.data.get_entity_mut(data_set_id);
            let is_csv = match data_set.source_type {
                DataSourceType::FileCsv => true,
                _ => false,
            };
            if is_csv {
                match crate::csvdata::parse_csv(file_bytes) {
                    Some((headers, records)) => {
                        data_set.source_error = None;
                        data_set_content = Some(
                            crate::csvdata::build_csv_content(headers, records),
                        );
                    },
                    None => {
                        data_set.source_error = Some(
                            "the file could not be read as CSV".to_owned(),
                        );
                    },
                }
            } else {
                let text: String = match file_text {
                    Some(t) => t.clone(),
                    None => String::new(),
                };
                data_set_content = Some(DataSetContent {
                    csv_columns: None,
                    csv_rows: None,
                    source_text: Some(text),
                    dirty: false,
                });
            }
            let is_json_inline = match data_set.source_type {
                DataSourceType::Json => true,
                _ => false,
            };
            if !is_json_inline {
                data_set.source = relative_file_name.clone();
            }
            data_set.revalidate();
        }
        proof {
            crate::tree::lemma_params_wf_value_update(
                params0,
                info.workspace.data,
                data_set_id@,
            );
        }
        let is_file_source = {
            let d = info.workspace.data.get(data_set_id).unwrap();
            match d.source_type {
                DataSourceType::Json => false,
                _ => true,
            }
        };
        if is_file_source {
            if let Some(content) = &data_set_content {
                info.data_set_content.insert(data_set_id.clone(), dup_content(content));
            }
        }
        let validation_errors = {
            let d = info.workspace.data.get(data_set_id).unwrap();
            crate::model::dup_opt_errors(&d.validation_errors)
        };
        Ok(OpenDataSetFileResponse {
            relative_file_name: relative_file_name.clone(),
            data_set_content,
            validation_errors,
        })
    }

    /// The retained detail for an execution counter; the result is gone
    /// exactly when it is no longer retained.
    pub fn get_result_detail(&self, workspace_id: &String, exec_ctr: u64) -> (r: Result<
        &ExecutionResultDetail,
        ApicizeAppError,
    >)
        requires
            self.wf(),
        ensures
            match r {
                Ok(d) => self.workspaces@.contains_key(workspace_id@)
                    && self.workspaces@[workspace_id@].results.details@.contains_key(exec_ctr)
                    && *d == self.workspaces@[workspace_id@].results.details@[exec_ctr],
                Err(e) => (match e {
                    ApicizeAppError::InvalidWorkspace(w) => w@ == workspace_id@
                        && !self.workspaces@.contains_key(workspace_id@),
                    ApicizeAppError::InvalidExecution(c) => c == exec_ctr
                        && self.workspaces@.contains_key(workspace_id@)
                        && !self.workspaces@[workspace_id@].results.details@.contains_key(
                        exec_ctr,
                    ),
                    _ => false,
                }),
            },
    {
        let info = match self.get_workspace_info(workspace_id) {
            Ok(info) => info,
            Err(e) => {
                return Err(e);
            },
        };
        match info.results.get_detail(exec_ctr) {
            Some(d) => Ok(d),
            None => Err(ApicizeAppError::InvalidExecution(exec_ctr)),
        }
    }
}

impl WorkspaceInfo {
    /// The clipboard payload for a request: its body or test text, or a
    /// retained response body.  Report rendering is left to the shell and
    /// refused here.
    pub fn get_clipboard_payload(&self, payload_request: &ClipboardPayloadRequest) -> (r: Result<
        Option<PersistableData>,
        ApicizeAppError,
    >)
        requires
            self.wf(),
        ensures
            match (r, payload_request) {
                (Ok(p), ClipboardPayloadRequest::RequestBody { request_id }) => {
                    let e0 = self.workspace.requests.entities@[request_id@];
                    &&& self.workspace.requests.entities@.contains_key(request_id@)
                    &&& e0 matches crate::model::RequestEntry::Request(r0) && (match (
                        p,
                        r0.body,
                    ) {
                        (Some(PersistableData::Text(t)), Some(RequestBody::Text { data })) => t@
                            == data@,
                        (Some(PersistableData::Text(t)), Some(RequestBody::Json { data })) => t@
                            == data@,
                        (Some(PersistableData::Text(t)), Some(RequestBody::Xml { data })) => t@
                            == data@,
                        (Some(PersistableData::Text(t)), Some(RequestBody::Form { data })) =>
                            crate::csvdata::urlencoded_of(crate::csvdata::pairs_view(data@))
                                matches Some(enc) && t@ == enc,
                        (Some(PersistableData::Binary(b)), Some(RequestBody::Raw { data })) => b@
                            == data@,
                        (None, None) => true,
                        (None, Some(RequestBody::Form { data })) => crate::csvdata::urlencoded_of(
                            crate::csvdata::pairs_view(data@),
                        ) is None,
                        _ => false,
                    })
                },
                (Ok(p), ClipboardPayloadRequest::RequestTest { request_id }) => {
                    let e0 = self.workspace.requests.entities@[request_id@];
                    &&& self.workspace.requests.entities@.contains_key(request_id@)
                    &&& e0 matches crate::model::RequestEntry::Request(r0) && (match (
                        p,
                        r0.test,
                    ) {
                        (Some(PersistableData::Text(t)), Some(test)) => t@ == test@ && test@.len()
                            > 0,
                        (None, Some(test)) => test@.len() == 0,
                        (None, None) => true,
                        _ => false,
                    })
                },
                (Ok(_), ClipboardPayloadRequest::ResponseBodyRaw { .. }) => true,
                (Ok(_), _) => false,
                (Err(_), _) => true,
            },
    {
        match payload_request {
            ClipboardPayloadRequest::RequestBody { request_id } => {
                match self.workspace.requests.get(request_id) {
                    Some(crate::model::RequestEntry::Request(req)) => match &req.body {
                        Some(RequestBody::Text { data }) => Ok(Some(PersistableData::Text(
                            data.clone(),
                        ))),
                        Some(RequestBody::Json { data }) => Ok(Some(PersistableData::Text(
                            data.clone(),
                        ))),
                        Some(RequestBody::Xml { data }) => Ok(Some(PersistableData::Text(
                            data.clone(),
                        ))),
                        Some(RequestBody::Form { data }) => match crate::csvdata::urlencode_pairs(
                            data,
                        ) {
                            Some(encoded) => Ok(Some(PersistableData::Text(encoded))),
                            None => Ok(None),
                        },
                        Some(RequestBody::Raw { data }) => Ok(Some(PersistableData::Binary(
                            crate::model::dup_bytes(data),
                        ))),
                        None => Ok(None),
                    },
                    _ => Err(ApicizeAppError::InvalidRequest(request_id.clone())),
                }
            },
            ClipboardPayloadRequest::RequestTest { request_id } => {
                match self.workspace.requests.get(request_id) {
                    Some(crate::model::RequestEntry::Request(req)) => match &req.test {
                        Some(test) => {
                            if test.as_str().is_empty() {
                                Ok(None)
                            } else {
                                Ok(Some(PersistableData::Text(test.clone())))
                            }
                        },
                        None => Ok(None),
                    },
                    _ => Err(ApicizeAppError::InvalidRequest(request_id.clone())),
                }
            },
            ClipboardPayloadRequest::ResponseBodyRaw { exec_ctr } => {
                match self.results.get_detail(*exec_ctr) {
                    Some(ExecutionResultDetail::Request { response_body, .. }) => {
                        match response_body {
                            Some(crate::results::ApicizeBody::Text { text }) => Ok(Some(
                                PersistableData::Text(text.clone()),
                            )),
                            Some(crate::results::ApicizeBody::Json { text }) => Ok(Some(
                                PersistableData::Text(text.clone()),
                            )),
                            Some(crate::results::ApicizeBody::Xml { text }) => Ok(Some(
                                PersistableData::Text(text.clone()),
                            )),
                            Some(crate::results::ApicizeBody::Form { data }) => {
                                match crate::csvdata::urlencode_pairs(data) {
                                    Some(encoded) => Ok(Some(PersistableData::Text(encoded))),
                                    None => Ok(None),
                                }
                            },
                            Some(crate::results::ApicizeBody::Binary { data }) => Ok(Some(
                                PersistableData::Binary(crate::model::dup_bytes(data)),
                            )),
                            None => Ok(None),
                        }
                    },
                    Some(ExecutionResultDetail::Group { .. }) => Err(
                        ApicizeAppError::InvalidExecution(*exec_ctr),
                    ),
                    None => Err(ApicizeAppError::InvalidExecution(*exec_ctr)),
                }
            },
            ClipboardPayloadRequest::ResponseSummaryJson { .. } => Err(
                ApicizeAppError::InvalidOperation(
                    "report rendering is handled by the shell".to_owned(),
                ),
            ),
            ClipboardPayloadRequest::ResponseSummaryCsv { .. } => Err(
                ApicizeAppError::InvalidOperation(
                    "report rendering is handled by the shell".to_owned(),
                ),
            ),
            ClipboardPayloadRequest::ResponseBodyPreview { .. } => Err(
                ApicizeAppError::InvalidOperation(
                    "body previews are rendered by the shell".to_owned(),
                ),
            ),
            ClipboardPayloadRequest::ResponseDetail { .. } => Err(
                ApicizeAppError::InvalidOperation(
                    "detail serialization is handled by the shell".to_owned(),
                ),
            ),
        }
    }
}


impl Workspaces {
    /// The workspace value under an id.
    pub fn get_workspace(&self, workspace_id: &String) -> (r: Result<&Workspace, ApicizeAppError>)
        requires
            self.wf(),
        ensures
            match r {
                Ok(ws) => self.workspaces@.contains_key(workspace_id@) && *ws
                    == self.workspaces@[workspace_id@].workspace,
                Err(e) => !self.workspaces@.contains_key(workspace_id@) && (
                e matches ApicizeAppError::InvalidWorkspace(s) && s@ == workspace_id@),
            },
    {
        match self.get_workspace_info(workspace_id) {
            Ok(info) => Ok(&info.workspace),
            Err(e) => Err(e),
        }
    }

    /// The navigation mirror of a workspace.
    pub fn get_navigation(&self, workspace_id: &String) -> (r: Result<
        &Navigation,
        ApicizeAppError,
    >)
        requires
            self.wf(),
        ensures
            match r {
                Ok(nav) => self.workspaces@.contains_key(workspace_id@),
                Err(e) => !self.workspaces@.contains_key(workspace_id@) && (
                e matches ApicizeAppError::InvalidWorkspace(s) && s@ == workspace_id@),
            },
    {
        match self.get_workspace_info(workspace_id) {
            Ok(info) => Ok(&info.navigation),
            Err(e) => Err(e),
        }
    }

    /// Mutable access to a known workspace's entity state.
    pub fn get_workspace_mut(&mut self, workspace_id: &String) -> (r: &mut Workspace)
        requires
            old(self).wf(),
            old(self).workspaces@.contains_key(workspace_id@),
        ensures
            *r == old(self).workspaces@[workspace_id@].workspace,
    {
        let info = self.get_workspace_info_mut(workspace_id);
        &mut info.workspace
    }

    /// The cached execution view for a request or group of a workspace.
    pub fn get_execution(&self, workspace_id: &String, request_or_group_id: &String) -> (r:
        Result<RequestExecution, ApicizeAppError>)
        requires
            self.wf(),
        ensures
            match r {
                Ok(_) => self.workspaces@.contains_key(workspace_id@),
                Err(e) => !self.workspaces@.contains_key(workspace_id@) && (
                e matches ApicizeAppError::InvalidWorkspace(s) && s@ == workspace_id@),
            },
    {
        match self.get_workspace_info(workspace_id) {
            Ok(info) => Ok(info.get_execution(request_or_group_id)),
            Err(e) => Err(e),
        }
    }

    /// The save-related status of a workspace: the credential warning only
    /// while public credentials exist, and whether any request entity
    /// carries validation warnings.
    pub fn get_workspace_save_status(&self, workspace_id: &String) -> (r: Result<
        WorkspaceSaveStatus,
        ApicizeAppError,
    >)
        requires
            self.wf(),
        ensures
            match r {
                Ok(status) => {
                    let info = self.workspaces@[workspace_id@];
                    &&& self.workspaces@.contains_key(workspace_id@)
                    &&& status.dirty == info.dirty
                    &&& status.file_name@ == info.file_name@
                    &&& status.display_name@ == info.display_name@
                    &&& status.directory@ == info.directory@
                    &&& status.warn_on_workspace_creds == (info.warn_on_workspace_creds && (
                    info.workspace.authorizations.public_ids@.len() > 0
                        || info.workspace.certificates.public_ids@.len() > 0))
                    &&& (status.any_invalid <==> exists|k: Seq<char>|
                        #[trigger] info.workspace.requests.entities@.contains_key(k)
                            && info.workspace.requests.entities@[k].spec_validation_state().error)
                },
                Err(e) => !self.workspaces@.contains_key(workspace_id@) && (
                e matches ApicizeAppError::InvalidWorkspace(s) && s@ == workspace_id@),
            },
    {
        let info = match self.get_workspace_info(workspace_id) {
            Ok(info) => info,
            Err(e) => {
                return Err(e);
            },
        };
        let any_public_auths = info.workspace.authorizations.public_ids.len() > 0;
        let any_public_certs = info.workspace.certificates.public_ids.len() > 0;
        let n = info.workspace.requests.entities.num_entries();
        proof {
            info.workspace.requests.entities.lemma_kvs();
        }
        let mut any_invalid = false;
        let mut i: usize = 0;
        while i < n
            invariant
                self.wf(),
                self.workspaces@.contains_key(workspace_id@),
                info == self.workspaces@[workspace_id@],
                info.wf(),
                n == info.workspace.requests.entities.kvs().len(),
                i <= n,
                forall|j: int|
                    0 <= j < info.workspace.requests.entities.kvs().len()
                        ==> info.workspace.requests.entities@.contains_key(
                        (#[trigger] info.workspace.requests.entities.kvs()[j]).0@,
                    ) && info.workspace.requests.entities@[info.workspace.requests.entities
                        .kvs()[j].0@] == info.workspace.requests.entities.kvs()[j].1,
                any_invalid ==> exists|k: Seq<char>|
                    #[trigger] info.workspace.requests.entities@.contains_key(k)
                        && info.workspace.requests.entities@[k].spec_validation_state().error,
                !any_invalid ==> forall|j: int|
                    0 <= j < i ==> !(#[trigger] info.workspace.requests.entities.kvs()[j]).1
                        .spec_validation_state().error,
            decreases n - i,
        {
            let (_, entry) = info.workspace.requests.entities.entry_at(i);
            if entry.get_validation_state().error {
                proof {
                    let k = info.workspace.requests.entities.kvs()[i as int].0@;
                    assert(info.workspace.requests.entities@.contains_key(k)
                        && info.workspace.requests.entities@[k].spec_validation_state().error);
                }
                any_invalid = true;
            }
            i += 1;
        }
        proof {
            if !any_invalid {
                if exists|k: Seq<char>|
                    #[trigger] info.workspace.requests.entities@.contains_key(k)
                        && info.workspace.requests.entities@[k].spec_validation_state().error {
                    let k = choose|k: Seq<char>|
                        #[trigger] info.workspace.requests.entities@.contains_key(k)
                            && info.workspace.requests.entities@[k].spec_validation_state().error;
                    let j = choose|j: int|
                        0 <= j < info.workspace.requests.entities.kvs().len() && (
                        #[trigger] info.workspace.requests.entities.kvs()[j].0@) == k;
                }
            }
        }
        Ok(WorkspaceSaveStatus {
            dirty: info.dirty,
            warn_on_workspace_creds: info.warn_on_workspace_creds && (any_public_auths
                || any_public_certs),
            any_invalid,
            file_name: info.file_name.clone(),
            display_name: info.display_name.clone(),
            directory: info.directory.clone(),
        })
    }

    /// The ids of the authorizations stored in the public or private
    /// workbook sections, in navigation order.
    pub fn list_workbook_authorization_ids(&self, workspace_id: &String) -> (r: Result<
        Vec<String>,
        ApicizeAppError,
    >)
        requires
            self.wf(),
        ensures
            match r {
                Ok(ids) => {
                    let nav = self.workspaces@[workspace_id@].navigation;
                    &&& self.workspaces@.contains_key(workspace_id@)
                    &&& ids@.len() == nav.authorizations.public@.len()
                        + nav.authorizations.private@.len()
                    &&& (forall|i: int|
                        0 <= i < nav.authorizations.public@.len() ==> (#[trigger] ids@[i])@
                            == nav.authorizations.public@[i].id@)
                    &&& (forall|i: int|
                        0 <= i < nav.authorizations.private@.len()
                            ==> (#[trigger] ids@[i + nav.authorizations.public@.len()])@
                            == nav.authorizations.private@[i].id@)
                },
                Err(e) => !self.workspaces@.contains_key(workspace_id@) && (
                e matches ApicizeAppError::InvalidWorkspace(s) && s@ == workspace_id@),
            },
    {
        let info = match self.get_workspace_info(workspace_id) {
            Ok(info) => info,
            Err(e) => {
                return Err(e);
            },
        };
        let mut out: Vec<String> = Vec::new();
        let np = info.navigation.authorizations.public.len();
        let mut i: usize = 0;
        while i < np
            invariant
                self.wf(),
                self.workspaces@.contains_key(workspace_id@),
                info == self.workspaces@[workspace_id@],
                np == info.navigation.authorizations.public@.len(),
                i <= np,
                out@.len() == i,
                forall|j: int|
                    0 <= j < i ==> (#[trigger] out@[j])@
                        == info.navigation.authorizations.public@[j].id@,
            decreases np - i,
        {
            out.push(info.navigation.authorizations.public[i].id.clone());
            i += 1;
        }
        let nq = info.navigation.authorizations.private.len();
        let mut j: usize = 0;
        while j < nq
            invariant
                self.wf(),
                self.workspaces@.contains_key(workspace_id@),
                info == self.workspaces@[workspace_id@],
                np == info.navigation.authorizations.public@.len(),
                nq == info.navigation.authorizations.private@.len(),
                j <= nq,
                out@.len() == np + j,
                forall|j2: int|
                    0 <= j2 < np ==> (#[trigger] out@[j2])@
                        == info.navigation.authorizations.public@[j2].id@,
                forall|j2: int|
                    0 <= j2 < j ==> (#[trigger] out@[j2 + np])@
                        == info.navigation.authorizations.private@[j2].id@,
            decreases nq - j,
        {
            out.push(info.navigation.authorizations.private[j].id.clone());
            j += 1;
        }
        Ok(out)
    }
}


impl Workspaces {
    /// The entity and navigation notifications reflecting a request or
    /// group's current parameter selections.
    pub fn generate_request_selection_update(
        &self,
        workspace_id: &String,
        request_or_group_id: &String,
    ) -> (r: Result<
        (crate::updates::EntityUpdateNotification, UpdatedNavigationEntry),
        ApicizeAppError,
    >)
        requires
            self.wf(),
        ensures
            match r {
                Ok((notification, navigation)) => {
                    let e0 = self.workspaces@[workspace_id@].workspace.requests.entities@[
                        request_or_group_id@];
                    &&& self.workspaces@.contains_key(workspace_id@)
                    &&& self.workspaces@[workspace_id@].workspace.requests.entities@.contains_key(
                        request_or_group_id@,
                    )
                    &&& navigation.id@ == request_or_group_id@
                    &&& navigation.entity_type == EntityType::RequestEntry
                    &&& navigation.name@ == title_of(e0.spec_name())
                    &&& navigation.validation_state == e0.spec_validation_state()
                    &&& (match notification.update {
                        crate::updates::EntityUpdate::Request(u) => e0 is Request && u.id@
                            == request_or_group_id@,
                        crate::updates::EntityUpdate::RequestGroup(u) => e0 is Group && u.id@
                            == request_or_group_id@,
                        _ => false,
                    })
                },
                Err(e) => (match e {
                    ApicizeAppError::InvalidWorkspace(s) => s@ == workspace_id@
                        && !self.workspaces@.contains_key(workspace_id@),
                    ApicizeAppError::InvalidRequest(s) => s@ == request_or_group_id@
                        && self.workspaces@.contains_key(workspace_id@)
                        && !self.workspaces@[workspace_id@].workspace.requests.entities@
                        .contains_key(request_or_group_id@),
                    _ => false,
                }),
            },
    {
        let info = match self.get_workspace_info(workspace_id) {
            Ok(info) => info,
            Err(e) => {
                return Err(e);
            },
        };
        let execution_state = match info.executions.get(request_or_group_id) {
            Some(e) => e.execution_state,
            None => ExecutionState::empty(),
        };
        match info.workspace.requests.get(request_or_group_id) {
            Some(crate::model::RequestEntry::Request(request)) => {
                let notification = crate::updates::EntityUpdateNotification {
                    update: crate::updates::EntityUpdate::Request(
                        crate::updates::RequestUpdate::from_selections(request),
                    ),
                    validation_warnings: crate::model::dup_opt_strings(
                        &request.validation_warnings,
                    ),
                    validation_errors: crate::model::dup_opt_errors(&request.validation_errors),
                };
                let navigation = UpdatedNavigationEntry {
                    id: request_or_group_id.clone(),
                    name: request.get_title(),
                    entity_type: EntityType::RequestEntry,
                    validation_state: request.validation_state,
                    execution_state,
                };
                Ok((notification, navigation))
            },
            Some(crate::model::RequestEntry::Group(group)) => {
                let notification = crate::updates::EntityUpdateNotification {
                    update: crate::updates::EntityUpdate::RequestGroup(
                        crate::updates::RequestGroupUpdate::from_selections(group),
                    ),
                    validation_warnings: crate::model::dup_opt_strings(
                        &group.validation_warnings,
                    ),
                    validation_errors: crate::model::dup_opt_errors(&group.validation_errors),
                };
                let navigation = UpdatedNavigationEntry {
                    id: request_or_group_id.clone(),
                    name: group.get_title(),
                    entity_type: EntityType::RequestEntry,
                    validation_state: group.validation_state,
                    execution_state,
                };
                Ok((notification, navigation))
            },
            None => Err(ApicizeAppError::InvalidRequest(request_or_group_id.clone())),
        }
    }

    /// The entity and navigation notifications reflecting an OAuth2 client
    /// authorization's certificate and proxy selections.
    pub fn generate_authorization_selection_update(
        &self,
        workspace_id: &String,
        authorization_id: &String,
    ) -> (r: Result<
        (crate::updates::EntityUpdateNotification, UpdatedNavigationEntry),
        ApicizeAppError,
    >)
        requires
            self.wf(),
        ensures
            match r {
                Ok((notification, navigation)) => {
                    let a0 = self.workspaces@[workspace_id@].workspace.authorizations.entities@[
                        authorization_id@];
                    &&& self.workspaces@.contains_key(workspace_id@)
                    &&& self.workspaces@[workspace_id@].workspace.authorizations.entities@
                        .contains_key(authorization_id@)
                    &&& a0 is OAuth2Client
                    &&& navigation.id@ == authorization_id@
                    &&& navigation.entity_type == EntityType::Authorization
                    &&& navigation.name@ == title_of(a0.spec_name())
                    &&& navigation.execution_state == ExecutionState::spec_empty()
                    &&& (notification.update matches crate::updates::EntityUpdate::Authorization(
                        u,
                    ) && u.id@ == authorization_id@)
                },
                Err(e) => (match e {
                    ApicizeAppError::InvalidWorkspace(s) => s@ == workspace_id@
                        && !self.workspaces@.contains_key(workspace_id@),
                    ApicizeAppError::InvalidAuthorization(s) => s@ == authorization_id@
                        && self.workspaces@.contains_key(workspace_id@) && !(
                    self.workspaces@[workspace_id@].workspace.authorizations.entities@
                        .contains_key(authorization_id@)
                        && self.workspaces@[workspace_id@].workspace.authorizations.entities@[
                        authorization_id@] is OAuth2Client),
                    _ => false,
                }),
            },
    {
        let info = match self.get_workspace_info(workspace_id) {
            Ok(info) => info,
            Err(e) => {
                return Err(e);
            },
        };
        match info.workspace.authorizations.get(authorization_id) {
            Some(auth) => match auth {
                Authorization::OAuth2Client {
                    id,
                    selected_certificate,
                    selected_proxy,
                    validation_warnings,
                    validation_errors,
                    ..
                } => {
                    let notification = crate::updates::EntityUpdateNotification {
                        update: crate::updates::EntityUpdate::Authorization(
                            crate::updates::AuthorizationUpdate::from_selections(
                                id,
                                selected_certificate,
                                selected_proxy,
                            ),
                        ),
                        validation_warnings: crate::model::dup_opt_strings(validation_warnings),
                        validation_errors: crate::model::dup_opt_errors(validation_errors),
                    };
                    let navigation = UpdatedNavigationEntry {
                        id: authorization_id.clone(),
                        name: auth.get_title(),
                        entity_type: EntityType::Authorization,
                        validation_state: auth.get_validation_state(),
                        execution_state: ExecutionState::empty(),
                    };
                    Ok((notification, navigation))
                },
                _ => Err(ApicizeAppError::InvalidAuthorization(authorization_id.clone())),
            },
            None => Err(ApicizeAppError::InvalidAuthorization(authorization_id.clone())),
        }
    }
}


/// Two correlation inputs assembled from the same state display the same.
pub proof fn lemma_assembly_deterministic(
    info: WorkspaceInfo,
    target: Seq<char>,
    a: Seq<crate::correlator::CorrelatorBatch>,
    b: Seq<crate::correlator::CorrelatorBatch>,
)
    requires
        assembled_from(info, target, a),
        assembled_from(info, target, b),
    ensures
        crate::correlator::batches_view_eq(a, b),
{
    let off: int = if info.results.summaries@.contains_key(target) {
        1
    } else {
        0
    };
    let dk = subtree_batch_keys(
        info.results.summaries.kvs(),
        info.workspace.requests.child_ids@,
        target,
    );
    assert forall|i: int|
        0 <= i < a.len() implies (#[trigger] a[i]).executing_id@ == b[i].executing_id@ && a[i]
        .summaries@ == b[i].summaries@ && (match (a[i].executing_name, b[i].executing_name) {
        (Some(x), Some(y)) => x@ == y@,
        (None, None) => true,
        _ => false,
    }) by {
        if i >= off {
            assert(a[i].executing_id@ == dk[i - off]);
            assert(b[i].executing_id@ == dk[i - off]);
        }
    }
}

/// Menu construction is idempotent at the workspace level: any two menus
/// built from the same state for the same id carry identical entries —
/// names, aggregated states and the forward and backward links included.
pub proof fn lemma_menu_build_idempotent(
    info: WorkspaceInfo,
    target: Seq<char>,
    a: Seq<crate::correlator::CorrelatorBatch>,
    b: Seq<crate::correlator::CorrelatorBatch>,
    r1: Seq<ExecutionMenuItem>,
    r2: Seq<ExecutionMenuItem>,
)
    requires
        assembled_from(info, target, a),
        assembled_from(info, target, b),
        r1.len() == spec_menu_items(target, a, info.results.retained@).len(),
        forall|i: int|
            0 <= i < r1.len() ==> item_matches(
                #[trigger] r1[i],
                spec_menu_items(target, a, info.results.retained@)[i],
            ),
        r2.len() == spec_menu_items(target, b, info.results.retained@).len(),
        forall|i: int|
            0 <= i < r2.len() ==> item_matches(
                #[trigger] r2[i],
                spec_menu_items(target, b, info.results.retained@)[i],
            ),
    ensures
        r1.len() == r2.len(),
        forall|i: int|
            0 <= i < r1.len() ==> (#[trigger] r1[i]).name@ == r2[i].name@ && r1[i].exec_ctr
                == r2[i].exec_ctr && r1[i].execution_state == r2[i].execution_state && r1[i]
                .next_exec_ctr == r2[i].next_exec_ctr && r1[i].prev_exec_ctr == r2[i]
                .prev_exec_ctr && r1[i].level == r2[i].level && r1[i].executing_offset == r2[i]
                .executing_offset && r1[i].parent_exec_ctr == r2[i].parent_exec_ctr,
{
    lemma_assembly_deterministic(info, target, a, b);
    crate::correlator::lemma_menu_spec_congruence(target, a, b, info.results.retained@);
}

} // verus!
