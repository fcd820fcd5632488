//! The execution controller: start and cancel bookkeeping around the
//! external test runner.  The cancellation-handle registry is independent
//! of the workspace state, so a cancel request never waits behind a
//! workspace write; at most one handle exists per target id, and every
//! completion path removes it.

use crate::error::ApicizeAppError;
use crate::exec_state::{ExecutionResultSuccess, ExecutionState};
use crate::results::{
    number_batch, ExecCounter, ExecutionResultDetail, ExecutionResultSummary, RawResultSummary,
    RequestExecution,
};
use crate::smap::StringMap;
use crate::workspaces::Workspaces;
use vstd::prelude::*;

verus! {

/// The registry of in-flight cancellation handles: a signalled flag per
/// target id.
pub struct CancelRegistry {
    pub tokens: StringMap<bool>,
}

impl CancelRegistry {
    pub open spec fn wf(&self) -> bool {
        self.tokens.wf()
    }

    pub fn new() -> (r: CancelRegistry)
        ensures
            r.wf(),
            r.tokens@ == Map::<Seq<char>, bool>::empty(),
    {
        CancelRegistry { tokens: StringMap::new() }
    }

    /// Registers a fresh, unsignalled handle for the target, silently
    /// replacing any stale one: last writer wins.
    pub fn register(&mut self, target_id: &String)
        requires
            old(self).wf(),
        ensures
            final(self).wf(),
            final(self).tokens@ == old(self).tokens@.insert(target_id@, false),
    {
        self.tokens.insert(target_id.clone(), false);
    }

    /// Signals the handle of the target.  Cancelling a target with no
    /// in-flight run changes nothing; cancelling twice leaves the same
    /// signalled handle.
    pub fn cancel(&mut self, target_id: &String) -> (r: bool)
        requires
            old(self).wf(),
        ensures
            final(self).wf(),
            r == old(self).tokens@.contains_key(target_id@),
            r ==> final(self).tokens@ == old(self).tokens@.insert(target_id@, true),
            !r ==> *final(self) == *old(self),
    {
        if self.tokens.contains_key(target_id) {
            self.tokens.insert(target_id.clone(), true);
            true
        } else {
            false
        }
    }

    /// Cancelling twice is the same as cancelling once, and cancelling a
    /// target with no in-flight run is a no-op.
    pub proof fn lemma_cancel_idempotent(m: Map<Seq<char>, bool>, k: Seq<char>)
        ensures
            m.insert(k, true).insert(k, true) == m.insert(k, true),
            !m.contains_key(k) ==> m.remove(k) == m,
    {
        assert(m.insert(k, true).insert(k, true) =~= m.insert(k, true));
        if !m.contains_key(k) {
            assert(m.remove(k) =~= m);
        }
    }

    /// Drops the handle of the target, if any.
    pub fn remove(&mut self, target_id: &String)
        requires
            old(self).wf(),
        ensures
            final(self).wf(),
            final(self).tokens@ == old(self).tokens@.remove(target_id@),
    {
        self.tokens.remove(target_id);
    }

    /// Whether the target's handle has been signalled.
    pub fn is_cancelled(&self, target_id: &String) -> (r: bool)
        requires
            self.wf(),
        ensures
            r == (self.tokens@.contains_key(target_id@) && self.tokens@[target_id@]),
    {
        match self.tokens.get(target_id) {
            Some(flag) => *flag,
            None => false,
        }
    }
}

/// The union of the classifications of a summary prefix.
pub open spec fn fold_states(s: Seq<ExecutionResultSummary>, n: int) -> ExecutionState
    decreases n,
{
    if n <= 0 {
        ExecutionState::spec_empty()
    } else {
        fold_states(s, n - 1).spec_union(ExecutionState::spec_of_success(s[n - 1].success))
    }
}

/// The overall state of a finished batch: the union of every summary's
/// classification, the worst of all runs.
pub fn batch_state(batch: &Vec<ExecutionResultSummary>) -> (r: ExecutionState)
    ensures
        r == fold_states(batch@, batch@.len() as int),
{
    let n = batch.len();
    let mut acc = ExecutionState::empty();
    let mut i: usize = 0;
    while i < n
        invariant
            n == batch@.len(),
            i <= n,
            acc == fold_states(batch@, i as int),
        decreases n - i,
    {
        acc = acc.union(ExecutionState::of_success(batch[i].success));
        i += 1;
    }
    acc
}

/// Start/cancel orchestration state: the cancellation handles and the
/// process-wide execution counter.
pub struct ExecutionController {
    pub cancels: CancelRegistry,
    pub counter: ExecCounter,
}

impl ExecutionController {
    pub open spec fn wf(&self) -> bool {
        self.cancels.wf()
    }

    pub fn new() -> (r: ExecutionController)
        ensures
            r.wf(),
            r.cancels.tokens@ == Map::<Seq<char>, bool>::empty(),
            r.counter.spec_next() == 1,
    {
        ExecutionController { cancels: CancelRegistry::new(), counter: ExecCounter::new() }
    }

    /// Phase A of a run: registers a cancellation handle for the target
    /// (replacing any stale one) and marks the target's cached execution
    /// state running.  Returns the previous state for rollback.
    pub fn begin_execution(
        &mut self,
        workspaces: &mut Workspaces,
        workspace_id: &String,
        target_id: &String,
    ) -> (r: Result<ExecutionState, ApicizeAppError>)
        requires
            old(self).wf(),
            old(workspaces).wf(),
        ensures
            final(self).wf(),
            final(workspaces).wf(),
            final(self).counter == old(self).counter,
            match r {
                Ok(prior) => {
                    &&& old(workspaces).workspaces@.contains_key(workspace_id@)
                    &&& final(self).cancels.tokens@ == old(self).cancels.tokens@.insert(
                        target_id@,
                        false,
                    )
                    &&& final(workspaces).workspaces@.dom() == old(workspaces).workspaces@.dom()
                    &&& (forall|k: Seq<char>|
                        k != workspace_id@ && old(workspaces).workspaces@.contains_key(k) ==> (
                        #[trigger] final(workspaces).workspaces@[k]) == old(
                            workspaces,
                        ).workspaces@[k])
                    &&& info_framed_for_target(
                        old(workspaces).workspaces@[workspace_id@],
                        final(workspaces).workspaces@[workspace_id@],
                        target_id@,
                    )
                    &&& final(workspaces).workspaces@[workspace_id@].results == old(
                        workspaces,
                    ).workspaces@[workspace_id@].results
                    &&& final(workspaces).workspaces@.contains_key(workspace_id@)
                    &&& final(workspaces).workspaces@[workspace_id@].executions@.contains_key(
                        target_id@,
                    )
                    &&& final(workspaces).workspaces@[workspace_id@].executions@[target_id@]
                        .execution_state == (ExecutionState {
                        running: true,
                        success: false,
                        failure: false,
                        error: false,
                    })
                    &&& prior == (if old(workspaces).workspaces@[workspace_id@].executions@
                        .contains_key(target_id@) {
                        old(workspaces).workspaces@[workspace_id@].executions@[target_id@]
                            .execution_state
                    } else {
                        ExecutionState::spec_empty()
                    })
                },
                Err(e) => {
                    &&& *final(self) == *old(self)
                    &&& *final(workspaces) == *old(workspaces)
                    &&& !old(workspaces).workspaces@.contains_key(workspace_id@)
                    &&& e matches ApicizeAppError::InvalidWorkspace(w) && w@ == workspace_id@
                },
            },
    {
        if !workspaces.has_workspace(workspace_id) {
            return Err(ApicizeAppError::InvalidWorkspace(workspace_id.clone()));
        }
        self.cancels.register(target_id);
        let info = workspaces.get_workspace_info_mut(workspace_id);
        let prior = match info.executions.get(target_id) {
            Some(e) => e.execution_state,
            None => ExecutionState::empty(),
        };
        let mut entry = match info.executions.get(target_id) {
            Some(e) => crate::workspaces::dup_request_execution(e),
            None => RequestExecution::empty(),
        };
        entry.execution_state = ExecutionState::running();
        info.executions.insert(target_id.clone(), entry);
        Ok(prior)
    }

    /// Phase C of a run: always removes the cancellation handle; on a
    /// result, numbers the batch, folds it into the result store and
    /// rebuilds the target's menu and aggregated state; on a missing,
    /// empty or malformed result, rolls the target's state back to its
    /// pre-run value.
    pub fn complete_execution(
        &mut self,
        workspaces: &mut Workspaces,
        workspace_id: &String,
        target_id: &String,
        outcome: Option<(Vec<RawResultSummary>, Vec<ExecutionResultDetail>)>,
        prior: ExecutionState,
    ) -> (r: Result<crate::workspaces::ExecutionEvent, ApicizeAppError>)
        requires
            old(self).wf(),
            old(workspaces).wf(),
        ensures
            final(self).wf(),
            final(workspaces).wf(),
            !final(self).cancels.tokens@.contains_key(target_id@),
            final(self).cancels.tokens@ == old(self).cancels.tokens@.remove(target_id@),
            final(workspaces).workspaces@.dom() == old(workspaces).workspaces@.dom(),
            forall|k: Seq<char>|
                k != workspace_id@ && old(workspaces).workspaces@.contains_key(k) ==> (
                #[trigger] final(workspaces).workspaces@[k]) == old(workspaces).workspaces@[k],
            (match r {
                Ok(crate::workspaces::ExecutionEvent::Complete(_)) => true,
                _ => final(self).counter == old(self).counter,
            }),
            old(workspaces).workspaces@.contains_key(workspace_id@) ==> info_framed_for_target(
                old(workspaces).workspaces@[workspace_id@],
                final(workspaces).workspaces@[workspace_id@],
                target_id@,
            ),
            match r {
                Ok(event) => {
                    &&& old(workspaces).workspaces@.contains_key(workspace_id@)
                    &&& (match event {
                        crate::workspaces::ExecutionEvent::Cancel { execution_state } => {
                            &&& outcome is None
                            &&& execution_state == prior
                            &&& target_rolled_back(
                                old(workspaces).workspaces@[workspace_id@],
                                final(workspaces).workspaces@[workspace_id@],
                                target_id@,
                                prior,
                            )
                        },
                        crate::workspaces::ExecutionEvent::Complete(exec) => {
                            let info1 = final(workspaces).workspaces@[workspace_id@];
                            &&& (outcome matches Some((raw, _)) && raw@.len() > 0 && {
                                let batch = info1.results.summaries@[target_id@]@;
                                &&& info1.results.summaries@.contains_key(target_id@)
                                &&& batch.len() == raw@.len()
                                &&& final(self).counter.spec_next() == old(
                                    self,
                                ).counter.spec_next() + raw@.len()
                                &&& (forall|i: int|
                                    0 <= i < batch.len() ==> (#[trigger] batch[i]).exec_ctr
                                        == old(self).counter.spec_next() + i)
                                &&& (forall|i: int|
                                    0 <= i < batch.len() ==> (#[trigger] batch[i]).parent_exec_ctr
                                        == (match raw@[i].parent_index {
                                        Some(p) => Some(
                                            (old(self).counter.spec_next() + p) as u64,
                                        ),
                                        None => None,
                                    }))
                                &&& (forall|i: int|
                                    0 <= i < batch.len() ==> (#[trigger] batch[i]).name
                                        == raw@[i].name && batch[i].success == raw@[i].success
                                        && batch[i].level == raw@[i].level)
                            })
                            &&& info1.executions@.contains_key(target_id@)
                            &&& exec.execution_state == fold_states(
                                info1.results.summaries@[target_id@]@,
                                info1.results.summaries@[target_id@]@.len() as int,
                            )
                            &&& info1.executions@[target_id@].execution_state
                                == exec.execution_state
                        },
                        _ => false,
                    })
                },
                Err(e) => (match e {
                    ApicizeAppError::InvalidWorkspace(w) => {
                        &&& w@ == workspace_id@
                        &&& !old(workspaces).workspaces@.contains_key(workspace_id@)
                        &&& final(workspaces).workspaces.kvs() == old(workspaces).workspaces.kvs()
                    },
                    ApicizeAppError::NoResults => {
                        &&& old(workspaces).workspaces@.contains_key(workspace_id@)
                        &&& (outcome matches Some((raw, _)) && (raw@.len() == 0 || (exists|i: int|
                            0 <= i < raw@.len() && (match (#[trigger] raw@[i]).parent_index {
                                Some(p) => p >= i,
                                None => false,
                            })) || old(self).counter.spec_next() + raw@.len() > u64::MAX))
                        &&& target_rolled_back(
                            old(workspaces).workspaces@[workspace_id@],
                            final(workspaces).workspaces@[workspace_id@],
                            target_id@,
                            prior,
                        )
                    },
                    _ => false,
                }),
            },
    {
        self.cancels.remove(target_id);
        if !workspaces.has_workspace(workspace_id) {
            return Err(ApicizeAppError::InvalidWorkspace(workspace_id.clone()));
        }
        match outcome {
            None => {
                let info = workspaces.get_workspace_info_mut(workspace_id);
                reset_target_state(info, target_id, prior);
                Ok(crate::workspaces::ExecutionEvent::Cancel { execution_state: prior })
            },
            Some((raw, details)) => {
                if raw.is_empty() {
                    let info = workspaces.get_workspace_info_mut(workspace_id);
                    reset_target_state(info, target_id, prior);
                    return Err(ApicizeAppError::NoResults);
                }
                let numbered = match number_batch(&mut self.counter, &raw) {
                    Ok(n) => n,
                    Err(()) => {
                        let info = workspaces.get_workspace_info_mut(workspace_id);
                        reset_target_state(info, target_id, prior);
                        return Err(ApicizeAppError::NoResults);
                    },
                };
                let state = batch_state(&numbered);
                let info = workspaces.get_workspace_info_mut(workspace_id);
                let bn = numbered.len();
                let mut j: usize = 0;
                let ghost info0 = *info;
                while j < bn
                    invariant
                        bn == numbered@.len(),
                        j <= bn,
                        info.results.details.wf(),
                        info.results.retained.wf(),
                        info.results.summaries == info0.results.summaries,
                        info.executions == info0.executions,
                        info.workspace == info0.workspace,
                        info.data_set_content == info0.data_set_content,
                        info.navigation == info0.navigation,
                        info.dirty == info0.dirty,
                        info.warn_on_workspace_creds == info0.warn_on_workspace_creds,
                        info.file_name == info0.file_name,
                        info.directory == info0.directory,
                        info.display_name == info0.display_name,
                        forall|i: int|
                            0 <= i < bn ==> (#[trigger] numbered@[i]).exec_ctr
                                == numbered@[0].exec_ctr + i,
                    decreases bn - j,
                {
                    info.results.retained.insert(
                        numbered[j].exec_ctr,
                        crate::workspaces::dup_summary(&numbered[j]),
                    );
                    if j < details.len() {
                        info.results.details.insert(
                            numbered[j].exec_ctr,
                            dup_detail(&details[j]),
                        );
                    }
                    j += 1;
                }
                proof {
                    assert(crate::correlator::batch_wf(numbered@)) by {
                        assert forall|i: int, j2: int|
                            0 <= i < j2 < numbered@.len() implies (
                        #[trigger] numbered@[i].exec_ctr) != (#[trigger] numbered@[j2].exec_ctr)
                            by {}
                        assert forall|i: int, j2: int|
                            0 <= i < numbered@.len() && 0 <= j2 < numbered@.len() && (
                            #[trigger] numbered@[i].parent_exec_ctr) == Some(
                                (#[trigger] numbered@[j2].exec_ctr),
                            ) implies j2 < i by {}
                    }
                }
                info.results.summaries.insert(target_id.clone(), numbered);
                let menu = info.build_result_menu_items(target_id);
                let mut entry = match info.executions.get(target_id) {
                    Some(e) => crate::workspaces::dup_request_execution(e),
                    None => RequestExecution::empty(),
                };
                entry.menu = menu;
                entry.execution_state = state;
                let event_exec = crate::workspaces::dup_request_execution(&entry);
                info.executions.insert(target_id.clone(), entry);
                Ok(crate::workspaces::ExecutionEvent::Complete(event_exec))
            },
        }
    }
}

/// Only the execution cache and result store of the target were touched:
/// the entity state, metadata, navigation and every other id's cache are
/// as before.
pub open spec fn info_framed_for_target(
    i0: crate::workspaces::WorkspaceInfo,
    i1: crate::workspaces::WorkspaceInfo,
    target: Seq<char>,
) -> bool {
    &&& i1.workspace == i0.workspace
    &&& i1.navigation == i0.navigation
    &&& i1.data_set_content == i0.data_set_content
    &&& i1.dirty == i0.dirty
    &&& i1.warn_on_workspace_creds == i0.warn_on_workspace_creds
    &&& i1.file_name == i0.file_name
    &&& i1.directory == i0.directory
    &&& i1.display_name == i0.display_name
    &&& (forall|k: Seq<char>|
        k != target ==> ((#[trigger] i1.executions@.contains_key(k))
            <==> i0.executions@.contains_key(k)))
    &&& (forall|k: Seq<char>|
        k != target && i0.executions@.contains_key(k) ==> (#[trigger] i1.executions@[k])
            == i0.executions@[k])
    &&& (forall|k: Seq<char>|
        k != target ==> ((#[trigger] i1.results.summaries@.contains_key(k))
            <==> i0.results.summaries@.contains_key(k)))
    &&& (forall|k: Seq<char>|
        k != target && i0.results.summaries@.contains_key(k) ==> (
        #[trigger] i1.results.summaries@[k]) == i0.results.summaries@[k])
}

/// The target's cached execution state was rolled back to its pre-run
/// value, and the retained results were left alone.
pub open spec fn target_rolled_back(
    i0: crate::workspaces::WorkspaceInfo,
    i1: crate::workspaces::WorkspaceInfo,
    target: Seq<char>,
    prior: ExecutionState,
) -> bool {
    &&& i1.executions@.contains_key(target)
    &&& i1.executions@[target].execution_state == prior
    &&& i1.results == i0.results
}

/// Rolls the target's cached state back to the given value, touching
/// nothing else.
fn reset_target_state(
    info: &mut crate::workspaces::WorkspaceInfo,
    target_id: &String,
    prior: ExecutionState,
)
    requires
        old(info).wf(),
    ensures
        final(info).wf(),
        final(info).executions@.contains_key(target_id@),
        final(info).executions@[target_id@].execution_state == prior,
        forall|k: Seq<char>|
            k != target_id@ ==> ((#[trigger] final(info).executions@.contains_key(k)) <==> old(
                info,
            ).executions@.contains_key(k)),
        forall|k: Seq<char>|
            k != target_id@ && old(info).executions@.contains_key(k) ==> (
            #[trigger] final(info).executions@[k]) == old(info).executions@[k],
        *final(info) == (crate::workspaces::WorkspaceInfo {
            executions: final(info).executions,
            ..*old(info)
        }),
{
    let mut entry = match info.executions.get(target_id) {
        Some(e) => crate::workspaces::dup_request_execution(e),
        None => RequestExecution::empty(),
    };
    entry.execution_state = prior;
    info.executions.insert(target_id.clone(), entry);
}

/// Copies a retained result detail.
fn dup_detail(d: &ExecutionResultDetail) -> (r: ExecutionResultDetail)
    ensures
        (d is Request <==> r is Request),
        (d is Group <==> r is Group),
{
    match d {
        ExecutionResultDetail::Request { exec_ctr, name, success, response_body, test_output } => {
            let body = match response_body {
                Some(crate::results::ApicizeBody::Text { text }) => Some(
                    crate::results::ApicizeBody::Text { text: text.clone() },
                ),
                Some(crate::results::ApicizeBody::Json { text }) => Some(
                    crate::results::ApicizeBody::Json { text: text.clone() },
                ),
                Some(crate::results::ApicizeBody::Xml { text }) => Some(
                    crate::results::ApicizeBody::Xml { text: text.clone() },
                ),
                Some(crate::results::ApicizeBody::Form { data }) => Some(
                    crate::results::ApicizeBody::Form { data: crate::model::dup_pairs(data) },
                ),
                Some(crate::results::ApicizeBody::Binary { data }) => Some(
                    crate::results::ApicizeBody::Binary { data: crate::model::dup_bytes(data) },
                ),
                None => None,
            };
            ExecutionResultDetail::Request {
                exec_ctr: *exec_ctr,
                name: name.clone(),
                success: *success,
                response_body: body,
                test_output: crate::model::dup_opt_string(test_output),
            }
        },
        ExecutionResultDetail::Group { exec_ctr, name, success } => ExecutionResultDetail::Group {
            exec_ctr: *exec_ctr,
            name: name.clone(),
            success: *success,
        },
    }
}

} // verus!
