use apicize_core::controller::{CancelRegistry, ExecutionController};
use apicize_core::correlator::{build_result_menu_items, CorrelatorBatch};
use apicize_core::exec_state::{ExecutionResultSuccess, ExecutionState};
use apicize_core::error::ApicizeAppError;
use apicize_core::ids::{dec_string, fresh_id, session_id_string};
use apicize_core::lifecycle::{close_workspace_session, open_or_attach_workspace};
use apicize_core::model::{EntityType, RequestBody};
use apicize_core::results::{number_batch, ExecCounter, ExecutionResultSummary, RawResultSummary};
use apicize_core::sessions::{notification_targets, Session, Sessions, WorkspaceMode};
use apicize_core::umap::CtrMap;
use apicize_core::workspaces::{Workspace, Workspaces};

fn raw(
    name: &str,
    success: ExecutionResultSuccess,
    level: u64,
    parent_index: Option<usize>,
) -> RawResultSummary {
    RawResultSummary {
        parent_index,
        name: name.to_string(),
        success,
        level,
        run_number: None,
        run_count: None,
        row_number: None,
        row_count: None,
    }
}

fn open_new(
    workspaces: &mut Workspaces,
    sessions: &mut Sessions,
) -> (String, String) {
    open_or_attach_workspace(
        workspaces,
        sessions,
        Some(Workspace::new()),
        &String::new(),
        &String::new(),
        &String::new(),
        true,
        None,
        true,
    )
    .expect("opening a fresh workspace succeeds")
}

#[test]
fn decimal_rendering_is_exact() {
    assert_eq!(dec_string(0).as_str(), "0");
    assert_eq!(dec_string(7).as_str(), "7");
    assert_eq!(dec_string(123).as_str(), "123");
    assert_eq!(dec_string(90210).as_str(), "90210");
}

#[test]
fn session_ids_are_monotonically_suffixed() {
    assert_eq!(session_id_string(0).as_str(), "main");
    assert_eq!(session_id_string(1).as_str(), "main-1");
    assert_eq!(session_id_string(42).as_str(), "main-42");
    let mut sessions = Sessions::new();
    let first = sessions.add_session(Session::new("w1".to_string()));
    let second = sessions.add_session(Session::new("w1".to_string()));
    assert_eq!(first.as_str(), "main");
    assert_eq!(second.as_str(), "main-1");
}

#[test]
fn fresh_ids_have_canonical_length() {
    let a = fresh_id();
    let b = fresh_id();
    assert_eq!(a.chars().count(), 36);
    assert_eq!(b.chars().count(), 36);
    assert_ne!(a, b);
}

#[test]
fn window_title_marks_new_and_dirty() {
    let title = apicize_core::workspaces::format_window_title(&String::new(), false);
    assert_eq!(title.as_str(), "(New) - Apicize ");
    let title = apicize_core::workspaces::format_window_title(&"demo".to_string(), true);
    assert_eq!(title.as_str(), "demo - Apicize *");
}

#[test]
fn entity_type_names() {
    assert_eq!(EntityType::RequestEntry.as_str(), "RequestEntry");
    assert_eq!(EntityType::DataSet.as_str(), "Data");
    assert_eq!(EntityType::Defaults.as_str(), "Defaults");
}

#[test]
fn workspace_mode_round_trip() {
    for n in 0u8..=10u8 {
        let mode = WorkspaceMode::from_number(n).expect("valid mode");
        assert_eq!(mode.to_number(), n);
    }
    assert!(WorkspaceMode::from_number(11).is_err());
}

#[test]
fn unknown_session_lookup_fails() {
    let sessions = Sessions::new();
    match sessions.get_session(&"nope".to_string()) {
        Err(ApicizeAppError::InvalidSession(id)) => assert_eq!(id.as_str(), "nope"),
        _ => panic!("expected an invalid-session error"),
    }
}

#[test]
fn unknown_workspace_lookup_fails() {
    let workspaces = Workspaces::new();
    match workspaces.get_workspace_info(&"nope".to_string()) {
        Err(ApicizeAppError::InvalidWorkspace(id)) => assert_eq!(id.as_str(), "nope"),
        _ => panic!("expected an invalid-workspace error"),
    }
}

#[test]
fn registry_invariant_through_open_and_close() {
    // P1: a workspace exists exactly while a session references it.
    let mut workspaces = Workspaces::new();
    let mut sessions = Sessions::new();
    let (session_1, workspace_id) = open_new(&mut workspaces, &mut sessions);
    assert!(workspaces.has_workspace(&workspace_id));
    // a second session attaches to the same open file via the registry
    let session_2 = sessions.add_session(Session::new(workspace_id.clone()));
    assert_eq!(sessions.count(), 2);
    // closing one session keeps the workspace alive
    close_workspace_session(&mut workspaces, &mut sessions, &session_1).unwrap();
    assert!(workspaces.has_workspace(&workspace_id));
    // closing the last session purges it
    close_workspace_session(&mut workspaces, &mut sessions, &session_2).unwrap();
    assert!(!workspaces.has_workspace(&workspace_id));
    assert_eq!(sessions.count(), 0);
}

#[test]
fn exec_ctrs_are_never_reused() {
    // P2: counters stay unique across delete and recreate of the target.
    let mut workspaces = Workspaces::new();
    let mut sessions = Sessions::new();
    let (_session, workspace_id) = open_new(&mut workspaces, &mut sessions);
    let target = workspaces
        .get_workspace_info(&workspace_id)
        .unwrap()
        .workspace
        .requests
        .top_ids[0]
        .clone();
    let mut controller = ExecutionController::new();
    let prior = controller
        .begin_execution(&mut workspaces, &workspace_id, &target)
        .unwrap();
    let batch1 = vec![raw("R1", ExecutionResultSuccess::Success, 0, None)];
    controller
        .complete_execution(&mut workspaces, &workspace_id, &target, Some((batch1, vec![])), prior)
        .unwrap();
    let first_batch: Vec<u64> = workspaces
        .get_workspace_info(&workspace_id)
        .unwrap()
        .results
        .summaries
        .get(&target)
        .unwrap()
        .iter()
        .map(|s| s.exec_ctr)
        .collect();
    // delete the request and recreate one under the same workspace
    workspaces.delete_request_entry(&workspace_id, &target).unwrap();
    let recreated = workspaces
        .add_request(&workspace_id, None, None, None)
        .unwrap();
    let prior = controller
        .begin_execution(&mut workspaces, &workspace_id, &recreated)
        .unwrap();
    let batch2 = vec![raw("R1", ExecutionResultSuccess::Success, 0, None)];
    controller
        .complete_execution(
            &mut workspaces,
            &workspace_id,
            &recreated,
            Some((batch2, vec![])),
            prior,
        )
        .unwrap();
    let second_batch: Vec<u64> = workspaces
        .get_workspace_info(&workspace_id)
        .unwrap()
        .results
        .summaries
        .get(&recreated)
        .unwrap()
        .iter()
        .map(|s| s.exec_ctr)
        .collect();
    assert_eq!(first_batch, vec![1]);
    assert_eq!(second_batch, vec![2]);
    for c in &first_batch {
        assert!(!second_batch.contains(c));
    }
}

#[test]
fn number_batch_assigns_consecutive_counters() {
    let mut ctr = ExecCounter::new();
    let raws = vec![
        raw("G", ExecutionResultSuccess::Success, 0, None),
        raw("A", ExecutionResultSuccess::Failure, 1, Some(0)),
        raw("B", ExecutionResultSuccess::Success, 1, Some(0)),
    ];
    let out = number_batch(&mut ctr, &raws).unwrap();
    assert_eq!(out[0].exec_ctr, 1);
    assert_eq!(out[1].exec_ctr, 2);
    assert_eq!(out[2].exec_ctr, 3);
    assert_eq!(out[1].parent_exec_ctr, Some(1));
    assert_eq!(out[2].parent_exec_ctr, Some(1));
    // a forward parent reference is refused
    let bad = vec![raw("X", ExecutionResultSuccess::Success, 0, Some(0))];
    assert!(number_batch(&mut ctr, &bad).is_err());
}

fn summaries(raws: Vec<RawResultSummary>) -> Vec<ExecutionResultSummary> {
    let mut ctr = ExecCounter::new();
    number_batch(&mut ctr, &raws).unwrap()
}

#[test]
fn aggregated_state_bubbles_up_failures() {
    // P3 on concrete values: the group's aggregated state carries the
    // failure of its child.
    let batch = summaries(vec![
        raw("G", ExecutionResultSuccess::Success, 0, None),
        raw("A", ExecutionResultSuccess::Failure, 1, Some(0)),
        raw("B", ExecutionResultSuccess::Success, 1, Some(0)),
    ]);
    let batches = vec![CorrelatorBatch {
        executing_id: "g".to_string(),
        executing_name: None,
        summaries: batch,
    }];
    let retained = CtrMap::new();
    let items = build_result_menu_items(&"g".to_string(), &batches, &retained);
    assert_eq!(items.len(), 3);
    let group_state = items[0].execution_state;
    assert!(group_state.success);
    assert!(group_state.failure);
    assert!(!group_state.error);
    // the failing child itself carries only its own classification
    assert!(items[1].execution_state.failure);
    assert!(!items[1].execution_state.success);
}

#[test]
fn correlator_is_idempotent() {
    // P4: running the correlator twice on the same input yields identical
    // menus, forward and backward links included.
    let batch = summaries(vec![
        raw("G", ExecutionResultSuccess::Success, 0, None),
        raw("A", ExecutionResultSuccess::Error, 1, Some(0)),
    ]);
    let mk = || {
        vec![CorrelatorBatch {
            executing_id: "g".to_string(),
            executing_name: None,
            summaries: batch.clone(),
        }]
    };
    let retained = CtrMap::new();
    let items1 = build_result_menu_items(&"g".to_string(), &mk(), &retained);
    let items2 = build_result_menu_items(&"g".to_string(), &mk(), &retained);
    assert_eq!(items1, items2);
    // the traversal chain is stitched in order
    assert_eq!(items1[0].prev_exec_ctr, None);
    assert_eq!(items1[0].next_exec_ctr, Some(items1[1].exec_ctr));
    assert_eq!(items1[1].prev_exec_ctr, Some(items1[0].exec_ctr));
    assert_eq!(items1[1].next_exec_ctr, None);
}

#[test]
fn cancel_without_run_is_a_no_op_and_twice_is_safe() {
    // P5
    let mut cancels = CancelRegistry::new();
    let target = "t1".to_string();
    assert!(!cancels.cancel(&target));
    assert!(!cancels.is_cancelled(&target));
    cancels.register(&target);
    assert!(!cancels.is_cancelled(&target));
    assert!(cancels.cancel(&target));
    assert!(cancels.is_cancelled(&target));
    assert!(cancels.cancel(&target));
    assert!(cancels.is_cancelled(&target));
    cancels.remove(&target);
    assert!(!cancels.cancel(&target));
}

#[test]
fn three_run_execution_and_clear() {
    // P6: a new workspace carries one starter request; running it with
    // three runs yields counters [1,2,3] with no parents; clearing removes
    // the retained details and resets the state.
    let mut workspaces = Workspaces::new();
    let mut sessions = Sessions::new();
    let (_session, workspace_id) = open_new(&mut workspaces, &mut sessions);
    let info = workspaces.get_workspace_info(&workspace_id).unwrap();
    assert_eq!(info.workspace.requests.top_ids.len(), 1);
    let target = info.workspace.requests.top_ids[0].clone();
    let mut controller = ExecutionController::new();
    let prior = controller
        .begin_execution(&mut workspaces, &workspace_id, &target)
        .unwrap();
    // the running transition is visible while the runner works
    {
        let info = workspaces.get_workspace_info(&workspace_id).unwrap();
        let exec = info.get_execution(&target);
        assert!(exec.execution_state.running);
    }
    let batch = vec![
        raw("Run A", ExecutionResultSuccess::Success, 0, None),
        raw("Run B", ExecutionResultSuccess::Failure, 0, None),
        raw("Run C", ExecutionResultSuccess::Success, 0, None),
    ];
    controller
        .complete_execution(&mut workspaces, &workspace_id, &target, Some((batch, vec![])), prior)
        .unwrap();
    let info = workspaces.get_workspace_info(&workspace_id).unwrap();
    let stored = info.results.summaries.get(&target).unwrap();
    let ctrs: Vec<u64> = stored.iter().map(|s| s.exec_ctr).collect();
    assert_eq!(ctrs, vec![1, 2, 3]);
    assert!(stored.iter().all(|s| s.parent_exec_ctr.is_none()));
    let exec = info.get_execution(&target);
    assert!(exec.execution_state.success);
    assert!(exec.execution_state.failure);
    assert!(!exec.execution_state.error);
    // clearing drops the cache and retained results
    let mut workspaces = workspaces;
    {
        let info = workspaces.get_workspace_info_mut(&workspace_id);
        let deleted = info.delete_executions(&target);
        assert_eq!(deleted, vec![target.clone()]);
    }
    let info = workspaces.get_workspace_info(&workspace_id).unwrap();
    assert!(info.results.summaries.get(&target).is_none());
    let exec = info.get_execution(&target);
    assert!(!exec.execution_state.running);
    assert!(!exec.execution_state.success);
    assert!(!exec.execution_state.failure);
    assert!(!exec.execution_state.error);
}

#[test]
fn group_aggregation_requires_both_children_to_succeed() {
    // P7: the group's state is plain success only when both children
    // succeeded, and each child is tagged with the group's counter.
    let ok = summaries(vec![
        raw("G", ExecutionResultSuccess::Success, 0, None),
        raw("A", ExecutionResultSuccess::Success, 1, Some(0)),
        raw("B", ExecutionResultSuccess::Success, 1, Some(0)),
    ]);
    assert_eq!(ok[1].parent_exec_ctr, Some(ok[0].exec_ctr));
    assert_eq!(ok[2].parent_exec_ctr, Some(ok[0].exec_ctr));
    let retained = CtrMap::new();
    let items = build_result_menu_items(
        &"g".to_string(),
        &vec![CorrelatorBatch {
            executing_id: "g".to_string(),
            executing_name: None,
            summaries: ok,
        }],
        &retained,
    );
    let g = items[0].execution_state;
    assert!(g.success && !g.failure && !g.error && !g.running);
    let mixed = summaries(vec![
        raw("G", ExecutionResultSuccess::Success, 0, None),
        raw("A", ExecutionResultSuccess::Success, 1, Some(0)),
        raw("B", ExecutionResultSuccess::Failure, 1, Some(0)),
    ]);
    let items = build_result_menu_items(
        &"g".to_string(),
        &vec![CorrelatorBatch {
            executing_id: "g".to_string(),
            executing_name: None,
            summaries: mixed,
        }],
        &retained,
    );
    let g = items[0].execution_state;
    assert!(g.success && g.failure);
}

#[test]
fn notifications_skip_the_originating_session() {
    // P8: the renaming session receives no echo; its sibling does.
    let mut workspaces = Workspaces::new();
    let mut sessions = Sessions::new();
    let (session_1, workspace_id) = open_new(&mut workspaces, &mut sessions);
    let session_2 = sessions.add_session(Session::new(workspace_id.clone()));
    let scenario_id = workspaces
        .add_scenario(&workspace_id, None, None, None)
        .unwrap();
    {
        let info = workspaces.get_workspace_info_mut(&workspace_id);
        info.refresh_navigation();
    }
    let update = apicize_core::updates::ScenarioUpdate {
        id: scenario_id.clone(),
        name: Some("Rename".to_string()),
        variables: None,
    };
    let response = workspaces.update_scenario(&workspace_id, &update).unwrap();
    let delta = response.navigation.expect("the rename changes the navigation entry");
    assert_eq!(delta.name.as_str(), "Rename");
    let targets = notification_targets(&sessions, &workspace_id, Some(&session_1));
    assert!(targets.contains(&session_2));
    assert!(!targets.contains(&session_1));
}

#[test]
fn empty_menu_clears_selected_counter() {
    let mut session = Session::new("w".to_string());
    let id = "r1".to_string();
    session.set_request_exec_ctr(&id, 5);
    let picked = session.check_execution_counter(&id, &None, &Vec::new());
    assert_eq!(picked, None);
}

#[test]
fn execution_state_union_adds_flags() {
    let a = ExecutionState {
        running: false,
        success: true,
        failure: false,
        error: false,
    };
    let b = ExecutionState {
        running: false,
        success: false,
        failure: true,
        error: false,
    };
    let u = a.union(b);
    assert!(u.success && u.failure && !u.error && !u.running);
    assert_eq!(u.union(b), u);
}

#[test]
fn raw_body_mime_type_is_sniffed() {
    let png: Vec<u8> = vec![0x89, 0x50, 0x4E, 0x47, 0x0D, 0x0A, 0x1A, 0x0A, 0, 0, 0, 0];
    let body = RequestBody::Raw { data: png };
    let mime = Workspaces::get_body_type(&body);
    assert_eq!(mime.as_str(), "image/png");
    let text = RequestBody::Text {
        data: "hello".to_string(),
    };
    assert_eq!(Workspaces::get_body_type(&text).as_str(), "text/plain");
    assert_eq!(Workspaces::get_body_length(&text), 5);
}

#[test]
fn missing_result_detail_reports_the_counter() {
    let mut workspaces = Workspaces::new();
    let mut sessions = Sessions::new();
    let (_s, wsid) = open_new(&mut workspaces, &mut sessions);
    match workspaces.get_result_detail(&wsid, 99) {
        Err(ApicizeAppError::InvalidExecution(c)) => assert_eq!(c, 99),
        _ => panic!("expected an invalid-execution error"),
    }
}

#[test]
fn runner_failure_rolls_the_state_back() {
    let mut workspaces = Workspaces::new();
    let mut sessions = Sessions::new();
    let (_s, wsid) = open_new(&mut workspaces, &mut sessions);
    let target = workspaces
        .get_workspace_info(&wsid)
        .unwrap()
        .workspace
        .requests
        .top_ids[0]
        .clone();
    let mut controller = ExecutionController::new();
    let prior = controller
        .begin_execution(&mut workspaces, &wsid, &target)
        .unwrap();
    // the runner returned nothing: the state is rolled back and the
    // cancellation handle is gone either way
    let event = controller
        .complete_execution(&mut workspaces, &wsid, &target, None, prior)
        .unwrap();
    match event {
        apicize_core::workspaces::ExecutionEvent::Cancel { execution_state } => {
            assert!(!execution_state.running);
        }
        _ => panic!("a missing result broadcasts a cancel event"),
    }
    assert!(!controller.cancels.is_cancelled(&target));
    let info = workspaces.get_workspace_info(&wsid).unwrap();
    assert!(!info.get_execution(&target).execution_state.running);
}

#[test]
fn selected_counter_keeps_its_position_across_rebuilds() {
    let batch = summaries(vec![
        raw("Run A", ExecutionResultSuccess::Success, 0, None),
        raw("Run B", ExecutionResultSuccess::Success, 0, None),
    ]);
    let retained = CtrMap::new();
    let menu1 = build_result_menu_items(
        &"r".to_string(),
        &vec![CorrelatorBatch {
            executing_id: "r".to_string(),
            executing_name: None,
            summaries: batch,
        }],
        &retained,
    );
    // a later invocation with the same run count: counters 3 and 4
    let mut ctr = ExecCounter::new();
    ctr.advance(2);
    let batch2 = number_batch(
        &mut ctr,
        &vec![
            raw("Run A", ExecutionResultSuccess::Success, 0, None),
            raw("Run B", ExecutionResultSuccess::Success, 0, None),
        ],
    )
    .unwrap();
    let menu2 = build_result_menu_items(
        &"r".to_string(),
        &vec![CorrelatorBatch {
            executing_id: "r".to_string(),
            executing_name: None,
            summaries: batch2,
        }],
        &retained,
    );
    let mut session = Session::new("w".to_string());
    let rid = "r".to_string();
    // the session was viewing the second run of the old menu
    session.set_request_exec_ctr(&rid, menu1[1].exec_ctr);
    let picked = session.check_execution_counter(&rid, &Some(menu1), &menu2);
    // the same position in the new menu is kept
    assert_eq!(picked, Some(menu2[1].exec_ctr));
}

#[test]
fn running_ids_include_combined_states() {
    let mut workspaces = Workspaces::new();
    let mut sessions = Sessions::new();
    let (_s, wsid) = open_new(&mut workspaces, &mut sessions);
    let target = workspaces
        .get_workspace_info(&wsid)
        .unwrap()
        .workspace
        .requests
        .top_ids[0]
        .clone();
    let mut controller = ExecutionController::new();
    controller
        .begin_execution(&mut workspaces, &wsid, &target)
        .unwrap();
    // mark an extra result bit beside the running flag
    {
        let info = workspaces.get_workspace_info_mut(&wsid);
        let mut exec = info.get_execution(&target);
        exec.execution_state = ExecutionState {
            running: true,
            success: true,
            failure: false,
            error: false,
        };
        info.executions.insert(target.clone(), exec);
    }
    let running = workspaces
        .get_workspace_info(&wsid)
        .unwrap()
        .get_running_request_ids();
    assert!(running.contains(&target));
}

#[test]
fn empty_result_batch_rolls_back_and_reports_no_results() {
    let mut workspaces = Workspaces::new();
    let mut sessions = Sessions::new();
    let (_s, wsid) = open_new(&mut workspaces, &mut sessions);
    let target = workspaces
        .get_workspace_info(&wsid)
        .unwrap()
        .workspace
        .requests
        .top_ids[0]
        .clone();
    let mut controller = ExecutionController::new();
    let prior = controller
        .begin_execution(&mut workspaces, &wsid, &target)
        .unwrap();
    let outcome = controller.complete_execution(
        &mut workspaces,
        &wsid,
        &target,
        Some((vec![], vec![])),
        prior,
    );
    assert!(matches!(outcome, Err(ApicizeAppError::NoResults)));
    let info = workspaces.get_workspace_info(&wsid).unwrap();
    assert!(!info.get_execution(&target).execution_state.running);
    assert!(!controller.cancels.is_cancelled(&target));
}

#[test]
fn parent_index_reports_partition_for_parameters() {
    let mut workspaces = Workspaces::new();
    let mut sessions = Sessions::new();
    let (_s, wsid) = open_new(&mut workspaces, &mut sessions);
    let scenario = workspaces.add_scenario(&wsid, None, None, None).unwrap();
    let chain = workspaces
        .find_parent_ids(&wsid, EntityType::Scenario, &scenario)
        .unwrap();
    assert_eq!(chain, vec!["W".to_string()]);
    // the defaults pseudo-entity has no parent index
    assert!(matches!(
        workspaces.find_parent_ids(&wsid, EntityType::Defaults, &scenario),
        Err(ApicizeAppError::InvalidOperation(_))
    ));
}

#[test]
fn opening_the_same_file_again_attaches_to_the_open_workspace() {
    let mut workspaces = Workspaces::new();
    let mut sessions = Sessions::new();
    let file = "book.apicize".to_string();
    let (_s1, ws1) = open_or_attach_workspace(
        &mut workspaces,
        &mut sessions,
        Some(Workspace::new()),
        &file,
        &String::new(),
        &"book".to_string(),
        true,
        None,
        true,
    )
    .unwrap();
    // a second window opens the same file: the open workspace is reused
    let (_s2, ws2) = open_or_attach_workspace(
        &mut workspaces,
        &mut sessions,
        Some(Workspace::new()),
        &file,
        &String::new(),
        &"book".to_string(),
        true,
        None,
        true,
    )
    .unwrap();
    assert_eq!(ws1, ws2);
    assert_eq!(sessions.count(), 2);
}
