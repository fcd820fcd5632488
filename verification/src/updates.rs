//! Field-level update payloads sent by the UI-command layer: every field is
//! optional, and only the present ones are applied.

use crate::model::{
    ExecutionConcurrency, NameValuePair, RequestBody, RequestMethod, Selection,
};
use vstd::prelude::*;

verus! {

#[derive(Clone, Debug, PartialEq)]
pub struct RequestUpdate {
    pub id: String,
    pub name: Option<String>,
    pub key: Option<String>,
    pub url: Option<String>,
    pub method: Option<RequestMethod>,
    pub runs: Option<u64>,
    pub multi_run_execution: Option<ExecutionConcurrency>,
    pub timeout: Option<u64>,
    pub keep_alive: Option<bool>,
    pub accept_invalid_certs: Option<bool>,
    pub number_of_redirects: Option<u64>,
    pub query_string_params: Option<Vec<NameValuePair>>,
    pub headers: Option<Vec<NameValuePair>>,
    pub test: Option<String>,
    pub body: Option<Option<RequestBody>>,
    pub selected_scenario: Option<Selection>,
    pub selected_authorization: Option<Selection>,
    pub selected_certificate: Option<Selection>,
    pub selected_proxy: Option<Selection>,
    pub selected_data: Option<Selection>,
    pub validation_warnings: Option<Vec<String>>,
}

impl RequestUpdate {
    /// An update that touches nothing.
    pub fn blank(id: String) -> (r: RequestUpdate)
        ensures
            r.id == id,
            r.name is None,
            r.key is None,
            r.url is None,
            r.method is None,
            r.runs is None,
            r.multi_run_execution is None,
            r.timeout is None,
            r.keep_alive is None,
            r.accept_invalid_certs is None,
            r.number_of_redirects is None,
            r.query_string_params is None,
            r.headers is None,
            r.test is None,
            r.body is None,
            r.selected_scenario is None,
            r.selected_authorization is None,
            r.selected_certificate is None,
            r.selected_proxy is None,
            r.selected_data is None,
            r.validation_warnings is None,
    {
        RequestUpdate {
            id,
            name: None,
            key: None,
            url: None,
            method: None,
            runs: None,
            multi_run_execution: None,
            timeout: None,
            keep_alive: None,
            accept_invalid_certs: None,
            number_of_redirects: None,
            query_string_params: None,
            headers: None,
            test: None,
            body: None,
            selected_scenario: None,
            selected_authorization: None,
            selected_certificate: None,
            selected_proxy: None,
            selected_data: None,
            validation_warnings: None,
        }
    }
}

#[derive(Clone, Debug, PartialEq)]
pub struct RequestGroupUpdate {
    pub id: String,
    pub name: Option<String>,
    pub key: Option<String>,
    pub runs: Option<u64>,
    pub execution: Option<ExecutionConcurrency>,
    pub multi_run_execution: Option<ExecutionConcurrency>,
    pub selected_scenario: Option<Selection>,
    pub selected_authorization: Option<Selection>,
    pub selected_certificate: Option<Selection>,
    pub selected_proxy: Option<Selection>,
    pub selected_data: Option<Selection>,
    pub validation_warnings: Option<Vec<String>>,
}

#[derive(Clone, Debug, PartialEq)]
pub struct ScenarioUpdate {
    pub id: String,
    pub name: Option<String>,
    pub variables: Option<Vec<NameValuePair>>,
}

/// Which authorization scheme an update switches the entity to.
#[derive(Clone, Copy, PartialEq, Eq, Structural, Debug)]
pub enum AuthorizationUpdateType {
    Basic,
    OAuth2Client,
    OAuth2Pkce,
    ApiKey,
}

#[derive(Clone, Debug, PartialEq)]
pub struct AuthorizationUpdate {
    pub id: String,
    pub auth_type: Option<AuthorizationUpdateType>,
    pub name: Option<String>,
    pub username: Option<String>,
    pub password: Option<String>,
    pub header: Option<String>,
    pub value: Option<String>,
    pub access_token_url: Option<String>,
    pub authorize_url: Option<String>,
    pub client_id: Option<String>,
    pub client_secret: Option<String>,
    pub audience: Option<Option<String>>,
    pub scope: Option<Option<String>>,
    pub selected_certificate: Option<Selection>,
    pub selected_proxy: Option<Selection>,
    pub send_credentials_in_body: Option<Option<bool>>,
    pub validation_warnings: Option<Vec<String>>,
}

/// Which certificate format an update switches the entity to.
#[derive(Clone, Copy, PartialEq, Eq, Structural, Debug)]
pub enum CertificateUpdateType {
    Pkcs12,
    Pkcs8Pem,
    Pem,
}

#[derive(Clone, Debug, PartialEq)]
pub struct CertificateUpdate {
    pub id: String,
    pub cert_type: Option<CertificateUpdateType>,
    pub name: Option<String>,
    pub pfx: Option<Vec<u8>>,
    pub password: Option<Option<String>>,
    pub pem: Option<Vec<u8>>,
    pub key: Option<Vec<u8>>,
}

#[derive(Clone, Debug, PartialEq)]
pub struct ProxyUpdate {
    pub id: String,
    pub name: Option<String>,
    pub url: Option<String>,
}

#[derive(Clone, Debug, PartialEq)]
pub struct DataSetUpdate {
    pub id: String,
    pub name: Option<String>,
    pub source_type: Option<crate::model::DataSourceType>,
    pub source_file_name: Option<String>,
    pub source_text: Option<String>,
    pub csv_columns: Option<Vec<String>>,
    pub csv_rows: Option<Vec<Vec<(String, String)>>>,
}

#[derive(Clone, Debug, PartialEq)]
pub struct DefaultsUpdate {
    pub selected_scenario: Option<Selection>,
    pub selected_authorization: Option<Selection>,
    pub selected_certificate: Option<Selection>,
    pub selected_proxy: Option<Selection>,
    pub selected_data: Option<Selection>,
    pub validation_warnings: Option<Vec<String>>,
}

/// The update applied, tagged by entity kind.
#[derive(Clone, Debug, PartialEq)]
pub enum EntityUpdate {
    Request(RequestUpdate),
    RequestGroup(RequestGroupUpdate),
    Scenario(ScenarioUpdate),
    Authorization(AuthorizationUpdate),
    Certificate(CertificateUpdate),
    Proxy(ProxyUpdate),
    DataSet(DataSetUpdate),
    Defaults(DefaultsUpdate),
}

/// Notification sent to other sessions when an update is made.
#[derive(Clone, Debug, PartialEq)]
pub struct EntityUpdateNotification {
    pub update: EntityUpdate,
    pub validation_warnings: Option<Vec<String>>,
    pub validation_errors: Option<Vec<(String, String)>>,
}


impl RequestUpdate {
    /// An update carrying only a request's body change.
    pub fn from_body_info(body_info: crate::workspaces::RequestBodyInfo) -> (r: RequestUpdate)
        ensures
            r.id == body_info.id,
            (match (r.body, body_info.body) {
                (Some(a), b) => a == b,
                _ => false,
            }),
            r.name is None,
            r.url is None,
            r.selected_scenario is None,
    {
        let mut r = RequestUpdate::blank(body_info.id);
        r.body = Some(body_info.body);
        r
    }

    /// An update carrying a request's current parameter selections, the
    /// inherited-default marker standing in for an unset one.
    pub fn from_selections(request: &crate::model::Request) -> (r: RequestUpdate)
        ensures
            r.id == request.id,
            (match (r.selected_scenario, request.selected_scenario) {
                (Some(a), Some(b)) => a == b,
                (Some(a), None) => a.id@ == "\tDEFAULT\t"@,
                _ => false,
            }),
            (match (r.selected_authorization, request.selected_authorization) {
                (Some(a), Some(b)) => a == b,
                (Some(a), None) => a.id@ == "\tDEFAULT\t"@,
                _ => false,
            }),
            (match (r.selected_certificate, request.selected_certificate) {
                (Some(a), Some(b)) => a == b,
                (Some(a), None) => a.id@ == "\tDEFAULT\t"@,
                _ => false,
            }),
            (match (r.selected_proxy, request.selected_proxy) {
                (Some(a), Some(b)) => a == b,
                (Some(a), None) => a.id@ == "\tDEFAULT\t"@,
                _ => false,
            }),
            (match (r.selected_data, request.selected_data) {
                (Some(a), Some(b)) => a == b,
                (Some(a), None) => a.id@ == "\tDEFAULT\t"@,
                _ => false,
            }),
            r.name is None,
            r.body is None,
    {
        let mut r = RequestUpdate::blank(request.id.clone());
        r.selected_scenario = Some(selection_or_default(&request.selected_scenario));
        r.selected_authorization = Some(selection_or_default(&request.selected_authorization));
        r.selected_certificate = Some(selection_or_default(&request.selected_certificate));
        r.selected_proxy = Some(selection_or_default(&request.selected_proxy));
        r.selected_data = Some(selection_or_default(&request.selected_data));
        r
    }
}

impl RequestGroupUpdate {
    /// An update carrying a group's current parameter selections.
    pub fn from_selections(group: &crate::model::RequestGroup) -> (r: RequestGroupUpdate)
        ensures
            r.id == group.id,
            (match (r.selected_scenario, group.selected_scenario) {
                (Some(a), Some(b)) => a == b,
                (Some(a), None) => a.id@ == "\tDEFAULT\t"@,
                _ => false,
            }),
            (match (r.selected_data, group.selected_data) {
                (Some(a), Some(b)) => a == b,
                (Some(a), None) => a.id@ == "\tDEFAULT\t"@,
                _ => false,
            }),
            r.name is None,
    {
        RequestGroupUpdate {
            id: group.id.clone(),
            name: None,
            key: None,
            runs: None,
            execution: None,
            multi_run_execution: None,
            selected_scenario: Some(selection_or_default(&group.selected_scenario)),
            selected_authorization: Some(selection_or_default(&group.selected_authorization)),
            selected_certificate: Some(selection_or_default(&group.selected_certificate)),
            selected_proxy: Some(selection_or_default(&group.selected_proxy)),
            selected_data: Some(selection_or_default(&group.selected_data)),
            validation_warnings: None,
        }
    }
}

impl AuthorizationUpdate {
    /// An update carrying an OAuth2 client authorization's certificate and
    /// proxy selections.
    pub fn from_selections(
        id: &String,
        selected_certificate: &Option<Selection>,
        selected_proxy: &Option<Selection>,
    ) -> (r: AuthorizationUpdate)
        ensures
            r.id == *id,
            (match (r.selected_certificate, selected_certificate) {
                (Some(a), Some(b)) => a == *b,
                (Some(a), None) => a.id@ == "\tDEFAULT\t"@,
                _ => false,
            }),
            (match (r.selected_proxy, selected_proxy) {
                (Some(a), Some(b)) => a == *b,
                (Some(a), None) => a.id@ == "\tDEFAULT\t"@,
                _ => false,
            }),
            r.auth_type is None,
            r.name is None,
    {
        AuthorizationUpdate {
            id: id.clone(),
            auth_type: None,
            name: None,
            username: None,
            password: None,
            header: None,
            value: None,
            access_token_url: None,
            authorize_url: None,
            client_id: None,
            client_secret: None,
            audience: None,
            scope: None,
            selected_certificate: Some(selection_or_default(selected_certificate)),
            selected_proxy: Some(selection_or_default(selected_proxy)),
            send_credentials_in_body: None,
            validation_warnings: None,
        }
    }
}

/// A copy of the selection, or the inherited-default marker when unset.
fn selection_or_default(sel: &Option<Selection>) -> (r: Selection)
    ensures
        match sel {
            Some(s) => r == *s,
            None => r.id@ == "\tDEFAULT\t"@ && r.name@.len() == 0,
        },
{
    match sel {
        Some(s) => Selection { id: s.id.clone(), name: s.name.clone() },
        None => Selection {
            id: crate::navigation::default_selection_id().to_owned(),
            name: String::new(),
        },
    }
}

} // verus!
