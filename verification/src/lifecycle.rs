//! Workspace/session lifecycle: opening, attaching, closing and the orphan
//! sweep that keeps the two registries consistent.
//!
//! The governing invariant: a workspace exists in the registry exactly when
//! at least one session references its id — no orphans, and no premature
//! eviction while a session is bound.

use crate::error::ApicizeAppError;
use crate::sessions::{Session, Sessions};
use crate::tree::id_in;
use crate::workspaces::{Workspace, Workspaces};
use vstd::prelude::*;

verus! {

/// A workspace exists exactly when some session references it, and every
/// session points at an existing workspace.
pub open spec fn registries_consistent(w: Workspaces, s: Sessions) -> bool {
    &&& forall|k: Seq<char>|
        #[trigger] w.workspaces@.contains_key(k) ==> exists|sid: Seq<char>|
            #[trigger] s.sessions@.contains_key(sid) && s.sessions@[sid].workspace_id@ == k
    &&& forall|sid: Seq<char>|
        #[trigger] s.sessions@.contains_key(sid) ==> w.workspaces@.contains_key(
            s.sessions@[sid].workspace_id@,
        )
}

/// Removes every workspace that no session references.  Afterwards a
/// workspace remains exactly when some session references it.
pub fn sweep_orphan_workspaces(workspaces: &mut Workspaces, sessions: &Sessions)
    requires
        old(workspaces).wf(),
        sessions.wf(),
    ensures
        final(workspaces).wf(),
        forall|k: Seq<char>|
            #[trigger] final(workspaces).workspaces@.contains_key(k) <==> (old(workspaces).workspaces@.contains_key(k) && exists|sid: Seq<char>|
                #[trigger] sessions.sessions@.contains_key(sid)
                    && sessions.sessions@[sid].workspace_id@ == k),
        forall|k: Seq<char>|
            #[trigger] final(workspaces).workspaces@.contains_key(k) ==> final(workspaces).workspaces@[k] == old(workspaces).workspaces@[k],
{
    let n = workspaces.workspaces.num_entries();
    proof {
        workspaces.workspaces.lemma_kvs();
    }
    let mut doomed: Vec<String> = Vec::new();
    let mut i: usize = 0;
    while i < n
        invariant
            workspaces.wf(),
            sessions.wf(),
            *workspaces == *old(workspaces),
            n == workspaces.workspaces.kvs().len(),
            i <= n,
            forall|j: int|
                0 <= j < workspaces.workspaces.kvs().len()
                    ==> workspaces.workspaces@.contains_key(
                    (#[trigger] workspaces.workspaces.kvs()[j]).0@,
                ),
            forall|j: int|
                0 <= j < doomed@.len() ==> !(exists|sid: Seq<char>|
                    #[trigger] sessions.sessions@.contains_key(sid)
                        && sessions.sessions@[sid].workspace_id@ == (#[trigger] doomed@[j])@),
            forall|j: int|
                0 <= j < i && !(exists|sid: Seq<char>|
                    #[trigger] sessions.sessions@.contains_key(sid)
                        && sessions.sessions@[sid].workspace_id@
                        == (#[trigger] workspaces.workspaces.kvs()[j]).0@) ==> id_in(
                    doomed@,
                    workspaces.workspaces.kvs()[j].0@,
                ),
        decreases n - i,
    {
        let ghost dpre = doomed@;
        let (wid, _) = workspaces.workspaces.entry_at(i);
        let referencing = crate::sessions::notification_targets(sessions, wid, None);
        let ghost had_ref = referencing@.len() > 0;
        if referencing.is_empty() {
            let ghost d0 = doomed@;
            proof {
                if exists|sid: Seq<char>|
                    #[trigger] sessions.sessions@.contains_key(sid)
                        && sessions.sessions@[sid].workspace_id@
                        == workspaces.workspaces.kvs()[i as int].0@ {
                    let sid = choose|sid: Seq<char>|
                        #[trigger] sessions.sessions@.contains_key(sid)
                            && sessions.sessions@[sid].workspace_id@
                            == workspaces.workspaces.kvs()[i as int].0@;
                    assert(id_in(referencing@, sid));
                    let j = choose|j: int|
                        0 <= j < referencing@.len() && (#[trigger] referencing@[j]@) == sid;
                }
            }
            doomed.push(wid.clone());
            proof {
                assert forall|j: int|
                    0 <= j < doomed@.len() implies !(exists|sid: Seq<char>|
                    #[trigger] sessions.sessions@.contains_key(sid)
                        && sessions.sessions@[sid].workspace_id@ == (#[trigger] doomed@[j])@) by {
                    if j < d0.len() {
                        assert(doomed@[j] == d0[j]);
                    }
                }
            }
        }
        i += 1;
        proof {
            assert forall|j: int|
                0 <= j < i && !(exists|sid: Seq<char>|
                    #[trigger] sessions.sessions@.contains_key(sid)
                        && sessions.sessions@[sid].workspace_id@
                        == (#[trigger] workspaces.workspaces.kvs()[j]).0@) implies id_in(
                doomed@,
                workspaces.workspaces.kvs()[j].0@,
            ) by {
                if j == i - 1 {
                    if had_ref {
                        assert(sessions.sessions@.contains_key(referencing@[0]@)
                            && sessions.sessions@[referencing@[0]@].workspace_id@
                            == workspaces.workspaces.kvs()[j].0@);
                    } else {
                        assert(doomed@[doomed@.len() - 1]@
                            == workspaces.workspaces.kvs()[j].0@);
                    }
                } else {
                    if id_in(dpre, workspaces.workspaces.kvs()[j].0@) {
                        let idx = choose|idx: int|
                            0 <= idx < dpre.len() && (#[trigger] dpre[idx]@)
                                == workspaces.workspaces.kvs()[j].0@;
                        assert(doomed@[idx]@ == workspaces.workspaces.kvs()[j].0@);
                    }
                }
            }
        }
    }
    let ghost w0 = *workspaces;
    let nd = doomed.len();
    let mut k: usize = 0;
    while k < nd
        invariant
            workspaces.workspaces.wf(),
            nd == doomed@.len(),
            k <= nd,
            forall|k2: Seq<char>|
                #[trigger] workspaces.workspaces@.contains_key(k2) <==> (
                w0.workspaces@.contains_key(k2) && !id_in(doomed@.take(k as int), k2)),
            forall|k2: Seq<char>|
                #[trigger] workspaces.workspaces@.contains_key(k2)
                    ==> workspaces.workspaces@[k2] == w0.workspaces@[k2],
        decreases nd - k,
    {
        let ghost takei = doomed@.take(k as int);
        proof {
            assert(doomed@.take(k + 1) =~= takei.push(doomed@[k as int]));
            assert forall|k2: Seq<char>| #[trigger] id_in(doomed@.take(k + 1), k2) implies (id_in(
                takei,
                k2,
            ) || k2 == doomed@[k as int]@) by {
                let j = choose|j: int|
                    0 <= j < doomed@.take(k + 1).len() && (#[trigger] doomed@.take(k + 1)[j]@)
                        == k2;
                if j < takei.len() {
                    assert(takei[j]@ == k2);
                }
            }
            assert forall|k2: Seq<char>| id_in(takei, k2) implies #[trigger] id_in(
                doomed@.take(k + 1),
                k2,
            ) by {
                let j = choose|j: int| 0 <= j < takei.len() && (#[trigger] takei[j]@) == k2;
                assert(doomed@.take(k + 1)[j]@ == k2);
            }
            assert(id_in(doomed@.take(k + 1), doomed@[k as int]@)) by {
                assert(doomed@.take(k + 1)[k as int]@ == doomed@[k as int]@);
            }
        }
        workspaces.workspaces.remove(&doomed[k]);
        k += 1;
    }
    proof {
        assert(doomed@.take(nd as int) =~= doomed@);
        assert forall|k2: Seq<char>|
            #[trigger] final(workspaces).workspaces@.contains_key(k2) <==> (old(workspaces).workspaces@.contains_key(k2) && exists|sid: Seq<char>|
                #[trigger] sessions.sessions@.contains_key(sid)
                    && sessions.sessions@[sid].workspace_id@ == k2) by {
            w0.workspaces.lemma_kvs();
            if w0.workspaces@.contains_key(k2) {
                let j = choose|j: int|
                    0 <= j < w0.workspaces.kvs().len() && (#[trigger] w0.workspaces.kvs()[j].0@)
                        == k2;
                if id_in(doomed@, k2) {
                    let dj = choose|dj: int|
                        0 <= dj < doomed@.len() && (#[trigger] doomed@[dj]@) == k2;
                }
            }
        }
    }
}

/// Opens a workspace for a session.  A file that is already open in the
/// registry is attached to rather than duplicated — unless this open
/// replaces the file's sole remaining view, which resets it to the freshly
/// loaded copy.  Otherwise the loaded or created workspace is registered.
/// The session is re-pointed or freshly created, and orphaned workspaces
/// are swept, restoring the registry invariant.
pub fn open_or_attach_workspace(
    workspaces: &mut Workspaces,
    sessions: &mut Sessions,
    loaded: Option<Workspace>,
    file_name: &String,
    directory: &String,
    display_name: &String,
    is_new: bool,
    current_session_id: Option<&String>,
    open_in_new_session: bool,
) -> (r: Result<(String, String), ApicizeAppError>)
    requires
        old(workspaces).wf(),
        old(sessions).wf(),
        old(sessions).counter < u64::MAX,
        match loaded {
            Some(ws) => ws.wf(),
            None => true,
        },
    ensures
        final(workspaces).wf(),
        final(sessions).wf(),
        match r {
            Ok((session_id, workspace_id)) => {
                &&& final(sessions).sessions@.contains_key(session_id@)
                &&& final(sessions).sessions@[session_id@].workspace_id@ == workspace_id@
                &&& final(workspaces).workspaces@.contains_key(workspace_id@)
                &&& (file_name@.len() > 0 ==> final(workspaces).workspaces@[workspace_id@]
                    .file_name@ == file_name@)
                &&& (loaded is None ==> old(workspaces).workspaces@.contains_key(workspace_id@))
                &&& (loaded is Some && open_in_new_session && file_name@.len() > 0 && (exists|
                    k: Seq<char>,
                |
                    #[trigger] old(workspaces).workspaces@.contains_key(k) && old(workspaces).workspaces@[k].file_name@ == file_name@) ==> old(workspaces).workspaces@.contains_key(workspace_id@))
                &&& (forall|k: Seq<char>|
                    #[trigger] final(workspaces).workspaces@.contains_key(k) && k != workspace_id@
                        ==> old(workspaces).workspaces@.contains_key(k) && final(workspaces).workspaces@[k] == old(workspaces).workspaces@[k])
                &&& (forall|k: Seq<char>|
                    #[trigger] final(workspaces).workspaces@.contains_key(k) ==> exists|
                        sid: Seq<char>,
                    |
                        #[trigger] final(sessions).sessions@.contains_key(sid) && final(sessions).sessions@[sid].workspace_id@ == k)
            },
            Err(e) => (match e {
                ApicizeAppError::InvalidWorkspace(f) => {
                    &&& loaded is None
                    &&& f@ == file_name@
                    &&& !(exists|k: Seq<char>|
                        #[trigger] old(workspaces).workspaces@.contains_key(k) && old(workspaces).workspaces@[k].file_name@ == file_name@)
                    &&& final(workspaces).workspaces.kvs() == old(workspaces).workspaces.kvs()
                    &&& *final(sessions) == *old(sessions)
                },
                ApicizeAppError::InvalidOperation(_) => {
                    &&& loaded is Some
                    &&& final(workspaces).workspaces.kvs() == old(workspaces).workspaces.kvs()
                    &&& *final(sessions) == *old(sessions)
                },
                _ => false,
            }),
        },
{
    let ghost w0 = *workspaces;
    let mut reused_existing = false;
    let workspace_id: String = match loaded {
        Some(ws) => {
            let mut attach_to: Option<String> = None;
            let mut reset_stale: Option<String> = None;
            if !file_name.as_str().is_empty() {
                let existing = workspaces.find_workspace_by_filename(file_name, None);
                if !existing.is_empty() {
                    let candidate = existing[0].clone();
                    proof {
                        assert(existing@[0]@ == candidate@);
                    }
                    let referencing = sessions.get_workspace_session_ids(&candidate);
                    if open_in_new_session || referencing.len() != 1 {
                        attach_to = Some(candidate);
                    } else {
                        reset_stale = Some(candidate);
                    }
                }
            }
            match attach_to {
                Some(id) => {
                    reused_existing = true;
                    id
                },
                None => {
                    let added = workspaces.add_workspace(
                        ws,
                        file_name,
                        directory,
                        display_name,
                        is_new,
                    );
                    if added.error.is_some() {
                        return Err(ApicizeAppError::InvalidOperation(
                            "a fresh workspace identifier could not be generated".to_owned(),
                        ));
                    }
                    if let Some(stale) = &reset_stale {
                        if !stale.eq(&added.workspace_id) {
                            workspaces.remove_workspace(stale);
                        }
                    }
                    added.workspace_id
                },
            }
        },
        None => {
            let existing = workspaces.find_workspace_by_filename(file_name, None);
            if existing.is_empty() {
                proof {
                    if exists|k: Seq<char>|
                        #[trigger] w0.workspaces@.contains_key(k)
                            && w0.workspaces@[k].file_name@ == file_name@ {
                        let k = choose|k: Seq<char>|
                            #[trigger] w0.workspaces@.contains_key(k)
                                && w0.workspaces@[k].file_name@ == file_name@;
                        assert(crate::tree::id_in(existing@, k));
                    }
                }
                return Err(ApicizeAppError::InvalidWorkspace(file_name.clone()));
            }
            let id = existing[0].clone();
            proof {
                assert(existing@[0]@ == id@);
            }
            id
        },
    };
    proof {
        assert(workspaces.workspaces@.contains_key(workspace_id@));
    }
    let session_id: String = match (current_session_id, open_in_new_session) {
        (Some(active), false) => {
            if sessions.has_session(active) {
                let res = sessions.change_workspace(active, &workspace_id);
                active.clone()
            } else {
                sessions.add_session(Session::new(workspace_id.clone()))
            }
        },
        _ => sessions.add_session(Session::new(workspace_id.clone())),
    };
    sweep_orphan_workspaces(workspaces, sessions);
    proof {
        assert(sessions.sessions@.contains_key(session_id@));
        assert(sessions.sessions@[session_id@].workspace_id@ == workspace_id@);
        assert(workspaces.workspaces@.contains_key(workspace_id@));
    }
    Ok((session_id, workspace_id))
}

/// Closes a session; when it was the last session of its workspace, the
/// workspace is purged — exactly then.
pub fn close_workspace_session(
    workspaces: &mut Workspaces,
    sessions: &mut Sessions,
    session_id: &String,
) -> (r: Result<(), ApicizeAppError>)
    requires
        old(workspaces).wf(),
        old(sessions).wf(),
    ensures
        final(workspaces).wf(),
        final(sessions).wf(),
        match r {
            Ok(()) => {
                &&& old(sessions).sessions@.contains_key(session_id@)
                &&& final(sessions).sessions@ == old(sessions).sessions@.remove(session_id@)
                &&& ({
                    let wsid = old(sessions).sessions@[session_id@].workspace_id@;
                    forall|k: Seq<char>|
                        #[trigger] final(workspaces).workspaces@.contains_key(k) <==> (old(workspaces).workspaces@.contains_key(k) && exists|sid: Seq<char>|
                            #[trigger] final(sessions).sessions@.contains_key(sid) && final(sessions).sessions@[sid].workspace_id@ == k)
                })
                &&& (forall|k: Seq<char>|
                    #[trigger] final(workspaces).workspaces@.contains_key(k) ==> final(workspaces).workspaces@[k] == old(workspaces).workspaces@[k])
            },
            Err(e) => {
                &&& *final(workspaces) == *old(workspaces)
                &&& *final(sessions) == *old(sessions)
                &&& !old(sessions).sessions@.contains_key(session_id@)
                &&& e matches ApicizeAppError::InvalidSession(sid) && sid@ == session_id@
            },
        },
{
    match sessions.remove_session(session_id) {
        Ok(()) => {
            sweep_orphan_workspaces(workspaces, sessions);
            Ok(())
        },
        Err(e) => Err(e),
    }
}

/// The registries stay consistent through the sweep: after it, the no-
/// orphan invariant holds whatever state came in.
pub proof fn lemma_sweep_restores_invariant(
    w0: Workspaces,
    w1: Workspaces,
    s: Sessions,
)
    requires
        forall|k: Seq<char>|
            #[trigger] w1.workspaces@.contains_key(k) <==> (w0.workspaces@.contains_key(k)
                && exists|sid: Seq<char>|
                    #[trigger] s.sessions@.contains_key(sid) && s.sessions@[sid].workspace_id@
                        == k),
        forall|sid: Seq<char>|
            #[trigger] s.sessions@.contains_key(sid) ==> w0.workspaces@.contains_key(
                s.sessions@[sid].workspace_id@,
            ),
    ensures
        registries_consistent(w1, s),
{
    assert forall|sid: Seq<char>| #[trigger] s.sessions@.contains_key(sid) implies
        w1.workspaces@.contains_key(s.sessions@[sid].workspace_id@) by {
        assert(w0.workspaces@.contains_key(s.sessions@[sid].workspace_id@));
        assert(s.sessions@.contains_key(sid) && s.sessions@[sid].workspace_id@
            == s.sessions@[sid].workspace_id@);
    }
}

} // verus!
