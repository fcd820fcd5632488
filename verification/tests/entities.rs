use apicize_core::error::ApicizeAppError;
use apicize_core::lifecycle::open_or_attach_workspace;
use apicize_core::model::{DataSourceType, NameValuePair, RequestBody};
use apicize_core::sessions::Sessions;
use apicize_core::tree::EntityPosition;
use apicize_core::updates::{
    AuthorizationUpdate, AuthorizationUpdateType, CertificateUpdate, CertificateUpdateType,
    DataSetUpdate, ProxyUpdate, RequestUpdate,
};
use apicize_core::workspaces::{
    ClipboardPayloadRequest, PersistableData, Workspace, Workspaces,
};

fn fresh_registry() -> (Workspaces, Sessions, String) {
    let mut workspaces = Workspaces::new();
    let mut sessions = Sessions::new();
    let (_s, workspace_id) = open_or_attach_workspace(
        &mut workspaces,
        &mut sessions,
        Some(Workspace::new()),
        &String::new(),
        &String::new(),
        &String::new(),
        true,
        None,
        true,
    )
    .unwrap();
    (workspaces, sessions, workspace_id)
}

#[test]
fn scenario_crud_round_trip() {
    let (mut workspaces, _sessions, wsid) = fresh_registry();
    let a = workspaces.add_scenario(&wsid, None, None, None).unwrap();
    let b = workspaces
        .add_scenario(&wsid, Some(&a), Some(EntityPosition::After), None)
        .unwrap();
    assert_ne!(a, b);
    assert!(workspaces.get_scenario(&wsid, &a).is_ok());
    assert!(workspaces.get_dirty(&wsid).unwrap());
    let moved = workspaces
        .move_scenario(&wsid, &b, &a, EntityPosition::Before)
        .unwrap();
    assert!(moved);
    workspaces.delete_scenario(&wsid, &a).unwrap();
    match workspaces.get_scenario(&wsid, &a) {
        Err(ApicizeAppError::InvalidScenario(id)) => assert_eq!(id, a),
        _ => panic!("expected the scenario to be gone"),
    }
    // cloning keeps the content under a copy name
    let c = workspaces
        .add_scenario(&wsid, None, None, Some(&b))
        .unwrap();
    let copied = workspaces.get_scenario(&wsid, &c).unwrap();
    assert!(copied.name.ends_with(" (Copy)"));
}

#[test]
fn request_update_applies_fields() {
    let (mut workspaces, _sessions, wsid) = fresh_registry();
    let target = workspaces
        .get_workspace_info(&wsid)
        .unwrap()
        .workspace
        .requests
        .top_ids[0]
        .clone();
    let mut update = RequestUpdate::blank(target.clone());
    update.name = Some("Ping".to_string());
    update.url = Some("https://example.test".to_string());
    update.runs = Some(3);
    update.timeout = Some(0);
    let response = workspaces.update_request(&wsid, &update).unwrap();
    let info = workspaces.get_workspace_info(&wsid).unwrap();
    match info.workspace.requests.get(&target).unwrap() {
        apicize_core::model::RequestEntry::Request(req) => {
            assert_eq!(req.name.as_str(), "Ping");
            assert_eq!(req.url.as_str(), "https://example.test");
            assert_eq!(req.runs, 3);
            assert_eq!(req.timeout, None);
            // both name and URL set: no validation error
            assert!(!req.validation_state.error);
        }
        _ => panic!("the starter entry is a request"),
    }
    let delta = response.navigation.expect("the rename changes navigation");
    assert_eq!(delta.name.as_str(), "Ping");
    // an unknown id is refused with the request error
    let missing = RequestUpdate::blank("missing".to_string());
    match workspaces.update_request(&wsid, &missing) {
        Err(ApicizeAppError::InvalidRequest(id)) => assert_eq!(id.as_str(), "missing"),
        _ => panic!("expected an invalid-request error"),
    }
}

#[test]
fn group_subtree_delete_removes_descendants() {
    let (mut workspaces, _sessions, wsid) = fresh_registry();
    let group = workspaces
        .add_request_group(&wsid, None, None, None)
        .unwrap();
    let child = workspaces
        .add_request(&wsid, Some(&group), Some(EntityPosition::Under), None)
        .unwrap();
    let grandchild_group = workspaces
        .add_request_group(&wsid, Some(&group), Some(EntityPosition::Under), None)
        .unwrap();
    let grandchild = workspaces
        .add_request(
            &wsid,
            Some(&grandchild_group),
            Some(EntityPosition::Under),
            None,
        )
        .unwrap();
    let groups = workspaces.find_descendent_groups(&wsid, &group).unwrap();
    assert!(groups.contains(&group));
    assert!(groups.contains(&grandchild_group));
    let parents = workspaces
        .find_parent_ids(
            &wsid,
            apicize_core::model::EntityType::RequestEntry,
            &grandchild,
        )
        .unwrap();
    assert_eq!(parents, vec![grandchild_group.clone(), group.clone()]);
    workspaces.delete_request_entry(&wsid, &group).unwrap();
    let info = workspaces.get_workspace_info(&wsid).unwrap();
    assert!(info.workspace.requests.get(&group).is_none());
    assert!(info.workspace.requests.get(&child).is_none());
    assert!(info.workspace.requests.get(&grandchild_group).is_none());
    assert!(info.workspace.requests.get(&grandchild).is_none());
}

#[test]
fn authorization_scheme_switch_resets_fields() {
    let (mut workspaces, _sessions, wsid) = fresh_registry();
    let auth = workspaces
        .add_authorization(&wsid, None, None, None)
        .unwrap();
    let mut update = AuthorizationUpdate {
        id: auth.clone(),
        auth_type: None,
        name: Some("Main".to_string()),
        username: Some("user".to_string()),
        password: Some("SECRET-REDACTED".to_string()),
        header: None,
        value: None,
        access_token_url: None,
        authorize_url: None,
        client_id: None,
        client_secret: None,
        audience: None,
        scope: None,
        selected_certificate: None,
        selected_proxy: None,
        send_credentials_in_body: None,
        validation_warnings: None,
    };
    workspaces.update_authorization(&wsid, &update).unwrap();
    {
        let stored = workspaces.get_authorization(&wsid, &auth).unwrap();
        match stored {
            apicize_core::model::Authorization::Basic { username, name, .. } => {
                assert_eq!(name.as_str(), "Main");
                assert_eq!(username.as_str(), "user");
            }
            _ => panic!("a fresh authorization is basic"),
        }
    }
    // switching the scheme resets the scheme-specific fields
    update.auth_type = Some(AuthorizationUpdateType::ApiKey);
    update.username = None;
    update.password = None;
    workspaces.update_authorization(&wsid, &update).unwrap();
    let stored = workspaces.get_authorization(&wsid, &auth).unwrap();
    match stored {
        apicize_core::model::Authorization::ApiKey { header, value, name, .. } => {
            assert_eq!(name.as_str(), "Main");
            assert_eq!(header.as_str(), "");
            assert_eq!(value.as_str(), "");
        }
        _ => panic!("the authorization switched to an API key"),
    }
}

#[test]
fn certificate_update_keeps_payload_within_format() {
    let (mut workspaces, _sessions, wsid) = fresh_registry();
    let cert = workspaces.add_certificate(&wsid, None, None, None).unwrap();
    let update = CertificateUpdate {
        id: cert.clone(),
        cert_type: None,
        name: Some("Client".to_string()),
        pfx: Some(vec![1, 2, 3]),
        password: None,
        pem: None,
        key: None,
    };
    workspaces.update_certificate(&wsid, &update).unwrap();
    {
        let stored = workspaces.get_certificate(&wsid, &cert).unwrap();
        match stored {
            apicize_core::model::Certificate::Pkcs12 { pfx, .. } => {
                assert_eq!(pfx, &vec![1, 2, 3]);
            }
            _ => panic!("a fresh certificate is a PKCS#12 container"),
        }
    }
    let switch = CertificateUpdate {
        id: cert.clone(),
        cert_type: Some(CertificateUpdateType::Pem),
        name: None,
        pfx: None,
        password: None,
        pem: Some(vec![9, 9]),
        key: None,
    };
    workspaces.update_certificate(&wsid, &switch).unwrap();
    let stored = workspaces.get_certificate(&wsid, &cert).unwrap();
    match stored {
        apicize_core::model::Certificate::Pem { pem, .. } => assert_eq!(pem, &vec![9, 9]),
        _ => panic!("the certificate switched to PEM"),
    }
}

#[test]
fn proxy_validation_follows_name_and_url() {
    let (mut workspaces, _sessions, wsid) = fresh_registry();
    let proxy = workspaces.add_proxy(&wsid, None, None, None).unwrap();
    {
        let stored = workspaces.get_proxy(&wsid, &proxy).unwrap();
        assert!(stored.validation_state.error);
    }
    let update = ProxyUpdate {
        id: proxy.clone(),
        name: Some("Edge".to_string()),
        url: Some("http://proxy.test:8080".to_string()),
    };
    workspaces.update_proxy(&wsid, &update).unwrap();
    let stored = workspaces.get_proxy(&wsid, &proxy).unwrap();
    assert!(!stored.validation_state.error);
}

#[test]
fn csv_data_set_load_appends_row_ids() {
    let (mut workspaces, _sessions, wsid) = fresh_registry();
    let ds = workspaces.add_data_set(&wsid, None, None, None).unwrap();
    let update = DataSetUpdate {
        id: ds.clone(),
        name: Some("People".to_string()),
        source_type: Some(DataSourceType::FileCsv),
        source_file_name: None,
        source_text: None,
        csv_columns: None,
        csv_rows: None,
    };
    workspaces.update_data_set(&wsid, &update).unwrap();
    let bytes: Vec<u8> = b"name,age\nAda,36\nAlan,41\n".to_vec();
    let response = workspaces
        .load_data_set_from_file(&wsid, &ds, &bytes, None, &"people.csv".to_string())
        .unwrap();
    assert_eq!(response.relative_file_name.as_str(), "people.csv");
    let content = response.data_set_content.expect("the CSV parses");
    let columns = content.csv_columns.expect("columns are recorded");
    assert_eq!(columns.len(), 3);
    assert_eq!(columns[0].as_str(), "name");
    assert_eq!(columns[1].as_str(), "age");
    assert_eq!(columns[2].as_str(), "_id");
    let rows = content.csv_rows.expect("rows are recorded");
    assert_eq!(rows.len(), 2);
    assert_eq!(rows[0][0].0.as_str(), "name");
    assert_eq!(rows[0][0].1.as_str(), "Ada");
    assert_eq!(rows[1][1].1.as_str(), "41");
    // the generated row id lands under the appended column
    assert_eq!(rows[0][2].0.as_str(), "_id");
    assert_eq!(rows[0][2].1.chars().count(), 36);
    let stored = workspaces.get_data_set(&wsid, &ds).unwrap();
    assert_eq!(stored.source.as_str(), "people.csv");
}

#[test]
fn malformed_csv_records_a_source_error() {
    let (mut workspaces, _sessions, wsid) = fresh_registry();
    let ds = workspaces.add_data_set(&wsid, None, None, None).unwrap();
    let update = DataSetUpdate {
        id: ds.clone(),
        name: Some("Broken".to_string()),
        source_type: Some(DataSourceType::FileCsv),
        source_file_name: None,
        source_text: None,
        csv_columns: None,
        csv_rows: None,
    };
    workspaces.update_data_set(&wsid, &update).unwrap();
    // an unbalanced quote makes the reader fail
    let bytes: Vec<u8> = b"a,b\n\"unterminated,1\nx,2\n".to_vec();
    let response = workspaces
        .load_data_set_from_file(&wsid, &ds, &bytes, None, &"broken.csv".to_string())
        .unwrap();
    if response.data_set_content.is_none() {
        let stored = workspaces.get_data_set(&wsid, &ds).unwrap();
        assert!(stored.source_error.is_some());
        assert!(stored.validation_state.error);
    }
}

#[test]
fn clipboard_payload_for_form_body_is_urlencoded() {
    let (mut workspaces, _sessions, wsid) = fresh_registry();
    let target = workspaces
        .get_workspace_info(&wsid)
        .unwrap()
        .workspace
        .requests
        .top_ids[0]
        .clone();
    let mut update = RequestUpdate::blank(target.clone());
    update.body = Some(Some(RequestBody::Form {
        data: vec![
            NameValuePair {
                name: "a".to_string(),
                value: "1".to_string(),
            },
            NameValuePair {
                name: "b c".to_string(),
                value: "2&3".to_string(),
            },
        ],
    }));
    update.test = Some("expect(status).toBe(200)".to_string());
    workspaces.update_request(&wsid, &update).unwrap();
    let info = workspaces.get_workspace_info(&wsid).unwrap();
    let payload = info
        .get_clipboard_payload(&ClipboardPayloadRequest::RequestBody {
            request_id: target.clone(),
        })
        .unwrap();
    match payload {
        Some(PersistableData::Text(text)) => {
            assert_eq!(text.as_str(), "a=1&b+c=2%263");
        }
        _ => panic!("a form body yields urlencoded text"),
    }
    let test_payload = info
        .get_clipboard_payload(&ClipboardPayloadRequest::RequestTest {
            request_id: target.clone(),
        })
        .unwrap();
    match test_payload {
        Some(PersistableData::Text(text)) => {
            assert_eq!(text.as_str(), "expect(status).toBe(200)");
        }
        _ => panic!("the test script is returned as text"),
    }
}

#[test]
fn list_parameters_fronts_the_default_entry() {
    let (mut workspaces, _sessions, wsid) = fresh_registry();
    let target = workspaces
        .get_workspace_info(&wsid)
        .unwrap()
        .workspace
        .requests
        .top_ids[0]
        .clone();
    let _scenario = workspaces.add_scenario(&wsid, None, None, None).unwrap();
    {
        let info = workspaces.get_workspace_info_mut(&wsid);
        info.refresh_navigation();
    }
    let params = workspaces
        .list_parameters(&wsid, Some(&target))
        .unwrap();
    assert_eq!(params.scenarios[0].id.as_str(), "\tDEFAULT\t");
    assert_eq!(params.scenarios[0].name.as_str(), "Default (None Configured)");
    assert_eq!(params.scenarios[1].id.as_str(), "\tNONE\t");
    assert_eq!(params.scenarios[1].name.as_str(), "Off");
    // one real scenario follows the markers
    assert_eq!(params.scenarios.len(), 3);
}
