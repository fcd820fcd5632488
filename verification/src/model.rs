//! The entity model a workspace owns: requests and groups, parameter
//! collections (scenarios, authorizations, certificates, proxies, data sets)
//! and the workbook defaults, each carrying a validation state.

use vstd::prelude::*;
use vstd::string::StringExecFns;

verus! {

/// Tag naming the kind of an entity in a workspace.
#[derive(Clone, Copy, PartialEq, Eq, Structural, Debug)]
pub enum EntityType {
    RequestEntry,
    Request,
    Group,
    Scenario,
    Authorization,
    Certificate,
    Proxy,
    DataSet,
    Defaults,
}

impl EntityType {
    /// Display name of the entity kind.
    pub open spec fn spec_name(self) -> Seq<char> {
        match self {
            EntityType::RequestEntry => "RequestEntry"@,
            EntityType::Request => "Request"@,
            EntityType::Group => "Group"@,
            EntityType::Scenario => "Scenario"@,
            EntityType::Authorization => "Authorization"@,
            EntityType::Certificate => "Certificate"@,
            EntityType::Proxy => "Proxy"@,
            EntityType::DataSet => "Data"@,
            EntityType::Defaults => "Defaults"@,
        }
    }

    pub fn as_str(&self) -> (r: &'static str)
        ensures
            r@ == self.spec_name(),
    {
        match self {
            EntityType::RequestEntry => "RequestEntry",
            EntityType::Request => "Request",
            EntityType::Group => "Group",
            EntityType::Scenario => "Scenario",
            EntityType::Authorization => "Authorization",
            EntityType::Certificate => "Certificate",
            EntityType::Proxy => "Proxy",
            EntityType::DataSet => "Data",
            EntityType::Defaults => "Defaults",
        }
    }
}

/// Validation flags carried by every entity.
#[derive(Clone, Copy, PartialEq, Eq, Structural, Debug)]
pub struct ValidationState {
    pub warning: bool,
    pub error: bool,
}

impl ValidationState {
    pub open spec fn spec_empty() -> ValidationState {
        ValidationState { warning: false, error: false }
    }

    pub fn empty() -> (r: ValidationState)
        ensures
            r == ValidationState::spec_empty(),
    {
        ValidationState { warning: false, error: false }
    }
}

/// A reference to another entity by id, with its display name.
#[derive(Clone, Debug, PartialEq)]
pub struct Selection {
    pub id: String,
    pub name: String,
}

/// A name/value text pair (variable, header, query parameter, form field).
#[derive(Clone, Debug, PartialEq)]
pub struct NameValuePair {
    pub name: String,
    pub value: String,
}

#[derive(Clone, Copy, PartialEq, Eq, Structural, Debug)]
pub enum RequestMethod {
    Get,
    Post,
    Put,
    Delete,
    Patch,
    Head,
    Options,
}

#[derive(Clone, Copy, PartialEq, Eq, Structural, Debug)]
pub enum ExecutionConcurrency {
    Sequential,
    Concurrent,
}

/// A request body, by MIME family.
#[derive(Clone, Debug, PartialEq)]
pub enum RequestBody {
    Text { data: String },
    Json { data: String },
    Xml { data: String },
    Form { data: Vec<NameValuePair> },
    Raw { data: Vec<u8> },
}

/// An entity's display title: its name, or a placeholder when unnamed.
pub open spec fn title_of(name: Seq<char>) -> Seq<char> {
    if name.len() == 0 {
        "(Unnamed)"@
    } else {
        name
    }
}

/// Builds the display title for a name.
pub fn title_string(name: &String) -> (r: String)
    ensures
        r@ == title_of(name@),
{
    if name.as_str().is_empty() {
        "(Unnamed)".to_owned()
    } else {
        name.clone()
    }
}

#[derive(Clone, Debug, PartialEq)]
pub struct Request {
    pub id: String,
    pub name: String,
    pub key: Option<String>,
    pub url: String,
    pub method: Option<RequestMethod>,
    pub runs: u64,
    pub multi_run_execution: ExecutionConcurrency,
    pub timeout: Option<u64>,
    pub keep_alive: bool,
    pub accept_invalid_certs: bool,
    pub number_of_redirects: u64,
    pub query_string_params: Option<Vec<NameValuePair>>,
    pub headers: Option<Vec<NameValuePair>>,
    pub test: Option<String>,
    pub body: Option<RequestBody>,
    pub selected_scenario: Option<Selection>,
    pub selected_authorization: Option<Selection>,
    pub selected_certificate: Option<Selection>,
    pub selected_proxy: Option<Selection>,
    pub selected_data: Option<Selection>,
    pub validation_state: ValidationState,
    pub validation_warnings: Option<Vec<String>>,
    pub validation_errors: Option<Vec<(String, String)>>,
}

impl Request {
    /// The validation state a request earns from its fields: an error when the
    /// name or the URL is empty, a warning when warnings are recorded.
    pub open spec fn computed_validation(self) -> ValidationState {
        ValidationState {
            warning: self.validation_warnings is Some,
            error: self.name@.len() == 0 || self.url@.len() == 0,
        }
    }

    /// Recomputes the validation state from the fields.
    pub fn revalidate(&mut self)
        ensures
            *final(self) == (Self { validation_state: old(self).computed_validation(), ..*old(self) }),
    {
        self.validation_state = ValidationState {
            warning: self.validation_warnings.is_some(),
            error: self.name.as_str().is_empty() || self.url.as_str().is_empty(),
        };
    }

    /// A blank request with the given id.
    pub fn blank(id: String, name: String) -> (r: Request)
        ensures
            r.id == id,
            r.name == name,
            r.url@.len() == 0,
            r.runs == 1,
            r.body is None,
            r.selected_scenario is None,
            r.selected_authorization is None,
            r.selected_certificate is None,
            r.selected_proxy is None,
            r.selected_data is None,
            r.validation_state == r.computed_validation(),
    {
        let mut r = Request {
            id,
            name,
            key: None,
            url: String::new(),
            method: None,
            runs: 1,
            multi_run_execution: ExecutionConcurrency::Sequential,
            timeout: None,
            keep_alive: true,
            accept_invalid_certs: false,
            number_of_redirects: 10,
            query_string_params: None,
            headers: None,
            test: None,
            body: None,
            selected_scenario: None,
            selected_authorization: None,
            selected_certificate: None,
            selected_proxy: None,
            selected_data: None,
            validation_state: ValidationState::empty(),
            validation_warnings: None,
            validation_errors: None,
        };
        r.revalidate();
        r
    }

    pub fn get_title(&self) -> (r: String)
        ensures
            r@ == title_of(self.name@),
    {
        title_string(&self.name)
    }
}

#[derive(Clone, Debug, PartialEq)]
pub struct RequestGroup {
    pub id: String,
    pub name: String,
    pub key: Option<String>,
    pub runs: u64,
    pub execution: ExecutionConcurrency,
    pub multi_run_execution: ExecutionConcurrency,
    pub selected_scenario: Option<Selection>,
    pub selected_authorization: Option<Selection>,
    pub selected_certificate: Option<Selection>,
    pub selected_proxy: Option<Selection>,
    pub selected_data: Option<Selection>,
    pub validation_state: ValidationState,
    pub validation_warnings: Option<Vec<String>>,
    pub validation_errors: Option<Vec<(String, String)>>,
}

impl RequestGroup {
    /// A group errs only on a missing name; warnings mirror the recorded list.
    pub open spec fn computed_validation(self) -> ValidationState {
        ValidationState {
            warning: self.validation_warnings is Some,
            error: self.name@.len() == 0,
        }
    }

    pub fn revalidate(&mut self)
        ensures
            *final(self) == (Self { validation_state: old(self).computed_validation(), ..*old(self) }),
    {
        self.validation_state = ValidationState {
            warning: self.validation_warnings.is_some(),
            error: self.name.as_str().is_empty(),
        };
    }

    pub fn blank(id: String, name: String) -> (r: RequestGroup)
        ensures
            r.id == id,
            r.name == name,
            r.runs == 1,
            r.selected_scenario is None,
            r.selected_authorization is None,
            r.selected_certificate is None,
            r.selected_proxy is None,
            r.selected_data is None,
            r.validation_state == r.computed_validation(),
    {
        let mut r = RequestGroup {
            id,
            name,
            key: None,
            runs: 1,
            execution: ExecutionConcurrency::Sequential,
            multi_run_execution: ExecutionConcurrency::Sequential,
            selected_scenario: None,
            selected_authorization: None,
            selected_certificate: None,
            selected_proxy: None,
            selected_data: None,
            validation_state: ValidationState::empty(),
            validation_warnings: None,
            validation_errors: None,
        };
        r.revalidate();
        r
    }

    pub fn get_title(&self) -> (r: String)
        ensures
            r@ == title_of(self.name@),
    {
        title_string(&self.name)
    }
}

/// A node of the entity tree: a single request, or a group of requests.
#[derive(Clone, Debug, PartialEq)]
pub enum RequestEntry {
    Request(Request),
    Group(RequestGroup),
}

impl RequestEntry {
    pub open spec fn spec_id(self) -> Seq<char> {
        match self {
            RequestEntry::Request(r) => r.id@,
            RequestEntry::Group(g) => g.id@,
        }
    }

    pub open spec fn spec_name(self) -> Seq<char> {
        match self {
            RequestEntry::Request(r) => r.name@,
            RequestEntry::Group(g) => g.name@,
        }
    }

    pub open spec fn spec_validation_state(self) -> ValidationState {
        match self {
            RequestEntry::Request(r) => r.validation_state,
            RequestEntry::Group(g) => g.validation_state,
        }
    }

    pub open spec fn spec_selected_scenario(self) -> Option<Selection> {
        match self {
            RequestEntry::Request(r) => r.selected_scenario,
            RequestEntry::Group(g) => g.selected_scenario,
        }
    }

    pub open spec fn spec_selected_authorization(self) -> Option<Selection> {
        match self {
            RequestEntry::Request(r) => r.selected_authorization,
            RequestEntry::Group(g) => g.selected_authorization,
        }
    }

    pub open spec fn spec_selected_certificate(self) -> Option<Selection> {
        match self {
            RequestEntry::Request(r) => r.selected_certificate,
            RequestEntry::Group(g) => g.selected_certificate,
        }
    }

    pub open spec fn spec_selected_proxy(self) -> Option<Selection> {
        match self {
            RequestEntry::Request(r) => r.selected_proxy,
            RequestEntry::Group(g) => g.selected_proxy,
        }
    }

    pub open spec fn spec_selected_data(self) -> Option<Selection> {
        match self {
            RequestEntry::Request(r) => r.selected_data,
            RequestEntry::Group(g) => g.selected_data,
        }
    }

    pub fn get_id(&self) -> (r: &String)
        ensures
            r@ == self.spec_id(),
    {
        match self {
            RequestEntry::Request(r) => &r.id,
            RequestEntry::Group(g) => &g.id,
        }
    }

    pub fn get_title(&self) -> (r: String)
        ensures
            r@ == title_of(self.spec_name()),
    {
        match self {
            RequestEntry::Request(r) => r.get_title(),
            RequestEntry::Group(g) => g.get_title(),
        }
    }

    pub fn get_validation_state(&self) -> (r: ValidationState)
        ensures
            r == self.spec_validation_state(),
    {
        match self {
            RequestEntry::Request(r) => r.validation_state,
            RequestEntry::Group(g) => g.validation_state,
        }
    }

    pub fn is_group(&self) -> (r: bool)
        ensures
            r == (self is Group),
    {
        match self {
            RequestEntry::Request(_) => false,
            RequestEntry::Group(_) => true,
        }
    }

    pub fn selected_scenario(&self) -> (r: &Option<Selection>)
        ensures
            *r == self.spec_selected_scenario(),
    {
        match self {
            RequestEntry::Request(r) => &r.selected_scenario,
            RequestEntry::Group(g) => &g.selected_scenario,
        }
    }

    pub fn selected_authorization(&self) -> (r: &Option<Selection>)
        ensures
            *r == self.spec_selected_authorization(),
    {
        match self {
            RequestEntry::Request(r) => &r.selected_authorization,
            RequestEntry::Group(g) => &g.selected_authorization,
        }
    }

    pub fn selected_certificate(&self) -> (r: &Option<Selection>)
        ensures
            *r == self.spec_selected_certificate(),
    {
        match self {
            RequestEntry::Request(r) => &r.selected_certificate,
            RequestEntry::Group(g) => &g.selected_certificate,
        }
    }

    pub fn selected_proxy(&self) -> (r: &Option<Selection>)
        ensures
            *r == self.spec_selected_proxy(),
    {
        match self {
            RequestEntry::Request(r) => &r.selected_proxy,
            RequestEntry::Group(g) => &g.selected_proxy,
        }
    }

    pub fn selected_data(&self) -> (r: &Option<Selection>)
        ensures
            *r == self.spec_selected_data(),
    {
        match self {
            RequestEntry::Request(r) => &r.selected_data,
            RequestEntry::Group(g) => &g.selected_data,
        }
    }
}

#[derive(Clone, Debug, PartialEq)]
pub struct Scenario {
    pub id: String,
    pub name: String,
    pub variables: Option<Vec<NameValuePair>>,
    pub validation_state: ValidationState,
    pub validation_warnings: Option<Vec<String>>,
    pub validation_errors: Option<Vec<(String, String)>>,
}

impl Scenario {
    pub open spec fn computed_validation(self) -> ValidationState {
        ValidationState {
            warning: self.validation_warnings is Some,
            error: self.name@.len() == 0,
        }
    }

    pub fn revalidate(&mut self)
        ensures
            *final(self) == (Self { validation_state: old(self).computed_validation(), ..*old(self) }),
    {
        self.validation_state = ValidationState {
            warning: self.validation_warnings.is_some(),
            error: self.name.as_str().is_empty(),
        };
    }

    pub fn blank(id: String, name: String) -> (r: Scenario)
        ensures
            r.id == id,
            r.name == name,
            r.variables is None,
            r.validation_state == r.computed_validation(),
    {
        let mut r = Scenario {
            id,
            name,
            variables: None,
            validation_state: ValidationState::empty(),
            validation_warnings: None,
            validation_errors: None,
        };
        r.revalidate();
        r
    }

    pub fn get_title(&self) -> (r: String)
        ensures
            r@ == title_of(self.name@),
    {
        title_string(&self.name)
    }
}

/// An authorization parameter, by scheme.
#[derive(Clone, Debug, PartialEq)]
pub enum Authorization {
    Basic {
        id: String,
        name: String,
        username: String,
        password: String,
        validation_state: ValidationState,
        validation_warnings: Option<Vec<String>>,
        validation_errors: Option<Vec<(String, String)>>,
    },
    OAuth2Client {
        id: String,
        name: String,
        access_token_url: String,
        client_id: String,
        client_secret: String,
        audience: Option<String>,
        scope: Option<String>,
        selected_certificate: Option<Selection>,
        selected_proxy: Option<Selection>,
        send_credentials_in_body: Option<bool>,
        validation_state: ValidationState,
        validation_warnings: Option<Vec<String>>,
        validation_errors: Option<Vec<(String, String)>>,
    },
    OAuth2Pkce {
        id: String,
        name: String,
        authorize_url: String,
        access_token_url: String,
        client_id: String,
        scope: Option<String>,
        send_credentials_in_body: Option<bool>,
        token: Option<String>,
        refresh_token: Option<String>,
        expiration: Option<u64>,
        validation_state: ValidationState,
        validation_warnings: Option<Vec<String>>,
        validation_errors: Option<Vec<(String, String)>>,
    },
    ApiKey {
        id: String,
        name: String,
        header: String,
        value: String,
        validation_state: ValidationState,
        validation_warnings: Option<Vec<String>>,
        validation_errors: Option<Vec<(String, String)>>,
    },
}

impl Authorization {
    pub open spec fn spec_id(self) -> Seq<char> {
        match self {
            Authorization::Basic { id, .. } => id@,
            Authorization::OAuth2Client { id, .. } => id@,
            Authorization::OAuth2Pkce { id, .. } => id@,
            Authorization::ApiKey { id, .. } => id@,
        }
    }

    pub open spec fn spec_name(self) -> Seq<char> {
        match self {
            Authorization::Basic { name, .. } => name@,
            Authorization::OAuth2Client { name, .. } => name@,
            Authorization::OAuth2Pkce { name, .. } => name@,
            Authorization::ApiKey { name, .. } => name@,
        }
    }

    pub open spec fn spec_validation_state(self) -> ValidationState {
        match self {
            Authorization::Basic { validation_state, .. } => validation_state,
            Authorization::OAuth2Client { validation_state, .. } => validation_state,
            Authorization::OAuth2Pkce { validation_state, .. } => validation_state,
            Authorization::ApiKey { validation_state, .. } => validation_state,
        }
    }

    pub open spec fn spec_warnings(self) -> Option<Vec<String>> {
        match self {
            Authorization::Basic { validation_warnings, .. } => validation_warnings,
            Authorization::OAuth2Client { validation_warnings, .. } => validation_warnings,
            Authorization::OAuth2Pkce { validation_warnings, .. } => validation_warnings,
            Authorization::ApiKey { validation_warnings, .. } => validation_warnings,
        }
    }

    pub open spec fn computed_validation(self) -> ValidationState {
        ValidationState {
            warning: self.spec_warnings() is Some,
            error: self.spec_name().len() == 0,
        }
    }

    pub fn get_id(&self) -> (r: &String)
        ensures
            r@ == self.spec_id(),
    {
        match self {
            Authorization::Basic { id, .. } => id,
            Authorization::OAuth2Client { id, .. } => id,
            Authorization::OAuth2Pkce { id, .. } => id,
            Authorization::ApiKey { id, .. } => id,
        }
    }

    pub fn get_name(&self) -> (r: &String)
        ensures
            r@ == self.spec_name(),
    {
        match self {
            Authorization::Basic { name, .. } => name,
            Authorization::OAuth2Client { name, .. } => name,
            Authorization::OAuth2Pkce { name, .. } => name,
            Authorization::ApiKey { name, .. } => name,
        }
    }

    pub fn get_validation_state(&self) -> (r: ValidationState)
        ensures
            r == self.spec_validation_state(),
    {
        match self {
            Authorization::Basic { validation_state, .. } => *validation_state,
            Authorization::OAuth2Client { validation_state, .. } => *validation_state,
            Authorization::OAuth2Pkce { validation_state, .. } => *validation_state,
            Authorization::ApiKey { validation_state, .. } => *validation_state,
        }
    }

    pub fn get_title(&self) -> (r: String)
        ensures
            r@ == title_of(self.spec_name()),
    {
        title_string(self.get_name())
    }

    pub fn blank(id: String, name: String) -> (r: Authorization)
        ensures
            r.spec_id() == id@,
            r.spec_name() == name@,
            r is Basic,
            r.spec_validation_state() == r.computed_validation(),
    {
        let error = name.as_str().is_empty();
        Authorization::Basic {
            id,
            name,
            username: String::new(),
            password: String::new(),
            validation_state: ValidationState { warning: false, error },
            validation_warnings: None,
            validation_errors: None,
        }
    }
}

/// A client certificate parameter, by format.
#[derive(Clone, Debug, PartialEq)]
pub enum Certificate {
    Pkcs12 {
        id: String,
        name: String,
        pfx: Vec<u8>,
        password: Option<String>,
        validation_state: ValidationState,
        validation_warnings: Option<Vec<String>>,
        validation_errors: Option<Vec<(String, String)>>,
    },
    Pkcs8Pem {
        id: String,
        name: String,
        pem: Vec<u8>,
        key: Vec<u8>,
        validation_state: ValidationState,
        validation_warnings: Option<Vec<String>>,
        validation_errors: Option<Vec<(String, String)>>,
    },
    Pem {
        id: String,
        name: String,
        pem: Vec<u8>,
        validation_state: ValidationState,
        validation_warnings: Option<Vec<String>>,
        validation_errors: Option<Vec<(String, String)>>,
    },
}

impl Certificate {
    pub open spec fn spec_id(self) -> Seq<char> {
        match self {
            Certificate::Pkcs12 { id, .. } => id@,
            Certificate::Pkcs8Pem { id, .. } => id@,
            Certificate::Pem { id, .. } => id@,
        }
    }

    pub open spec fn spec_name(self) -> Seq<char> {
        match self {
            Certificate::Pkcs12 { name, .. } => name@,
            Certificate::Pkcs8Pem { name, .. } => name@,
            Certificate::Pem { name, .. } => name@,
        }
    }

    pub open spec fn spec_validation_state(self) -> ValidationState {
        match self {
            Certificate::Pkcs12 { validation_state, .. } => validation_state,
            Certificate::Pkcs8Pem { validation_state, .. } => validation_state,
            Certificate::Pem { validation_state, .. } => validation_state,
        }
    }

    pub open spec fn spec_warnings(self) -> Option<Vec<String>> {
        match self {
            Certificate::Pkcs12 { validation_warnings, .. } => validation_warnings,
            Certificate::Pkcs8Pem { validation_warnings, .. } => validation_warnings,
            Certificate::Pem { validation_warnings, .. } => validation_warnings,
        }
    }

    pub open spec fn computed_validation(self) -> ValidationState {
        ValidationState {
            warning: self.spec_warnings() is Some,
            error: self.spec_name().len() == 0,
        }
    }

    pub fn get_id(&self) -> (r: &String)
        ensures
            r@ == self.spec_id(),
    {
        match self {
            Certificate::Pkcs12 { id, .. } => id,
            Certificate::Pkcs8Pem { id, .. } => id,
            Certificate::Pem { id, .. } => id,
        }
    }

    pub fn get_name(&self) -> (r: &String)
        ensures
            r@ == self.spec_name(),
    {
        match self {
            Certificate::Pkcs12 { name, .. } => name,
            Certificate::Pkcs8Pem { name, .. } => name,
            Certificate::Pem { name, .. } => name,
        }
    }

    pub fn get_validation_state(&self) -> (r: ValidationState)
        ensures
            r == self.spec_validation_state(),
    {
        match self {
            Certificate::Pkcs12 { validation_state, .. } => *validation_state,
            Certificate::Pkcs8Pem { validation_state, .. } => *validation_state,
            Certificate::Pem { validation_state, .. } => *validation_state,
        }
    }

    pub fn get_title(&self) -> (r: String)
        ensures
            r@ == title_of(self.spec_name()),
    {
        title_string(self.get_name())
    }

    pub fn blank(id: String, name: String) -> (r: Certificate)
        ensures
            r.spec_id() == id@,
            r.spec_name() == name@,
            r is Pkcs12,
            r.spec_validation_state() == r.computed_validation(),
    {
        let error = name.as_str().is_empty();
        Certificate::Pkcs12 {
            id,
            name,
            pfx: Vec::new(),
            password: None,
            validation_state: ValidationState { warning: false, error },
            validation_warnings: None,
            validation_errors: None,
        }
    }
}

#[derive(Clone, Debug, PartialEq)]
pub struct Proxy {
    pub id: String,
    pub name: String,
    pub url: String,
    pub validation_state: ValidationState,
    pub validation_warnings: Option<Vec<String>>,
    pub validation_errors: Option<Vec<(String, String)>>,
}

impl Proxy {
    pub open spec fn computed_validation(self) -> ValidationState {
        ValidationState {
            warning: self.validation_warnings is Some,
            error: self.name@.len() == 0 || self.url@.len() == 0,
        }
    }

    pub fn revalidate(&mut self)
        ensures
            *final(self) == (Self { validation_state: old(self).computed_validation(), ..*old(self) }),
    {
        self.validation_state = ValidationState {
            warning: self.validation_warnings.is_some(),
            error: self.name.as_str().is_empty() || self.url.as_str().is_empty(),
        };
    }

    pub fn blank(id: String, name: String) -> (r: Proxy)
        ensures
            r.id == id,
            r.name == name,
            r.url@.len() == 0,
            r.validation_state == r.computed_validation(),
    {
        let mut r = Proxy {
            id,
            name,
            url: String::new(),
            validation_state: ValidationState::empty(),
            validation_warnings: None,
            validation_errors: None,
        };
        r.revalidate();
        r
    }

    pub fn get_title(&self) -> (r: String)
        ensures
            r@ == title_of(self.name@),
    {
        title_string(&self.name)
    }
}

/// Where a data set's content comes from.
#[derive(Clone, Copy, PartialEq, Eq, Structural, Debug)]
pub enum DataSourceType {
    Json,
    FileCsv,
    FileJson,
}

#[derive(Clone, Debug, PartialEq)]
pub struct DataSet {
    pub id: String,
    pub name: String,
    pub source_type: DataSourceType,
    /// Inline JSON text, or the relative file name of an external source.
    pub source: String,
    pub source_error: Option<String>,
    pub validation_state: ValidationState,
    pub validation_warnings: Option<Vec<String>>,
    pub validation_errors: Option<Vec<(String, String)>>,
}

impl DataSet {
    pub open spec fn computed_validation(self) -> ValidationState {
        ValidationState {
            warning: self.validation_warnings is Some,
            error: self.name@.len() == 0 || self.source_error is Some,
        }
    }

    pub fn revalidate(&mut self)
        ensures
            *final(self) == (Self { validation_state: old(self).computed_validation(), ..*old(self) }),
    {
        self.validation_state = ValidationState {
            warning: self.validation_warnings.is_some(),
            error: self.name.as_str().is_empty() || self.source_error.is_some(),
        };
    }

    pub fn blank(id: String, name: String) -> (r: DataSet)
        ensures
            r.id == id,
            r.name == name,
            r.source_type == DataSourceType::Json,
            r.validation_state == r.computed_validation(),
    {
        let mut r = DataSet {
            id,
            name,
            source_type: DataSourceType::Json,
            source: String::new(),
            source_error: None,
            validation_state: ValidationState::empty(),
            validation_warnings: None,
            validation_errors: None,
        };
        r.revalidate();
        r
    }

    pub fn get_title(&self) -> (r: String)
        ensures
            r@ == title_of(self.name@),
    {
        title_string(&self.name)
    }
}

/// Workbook-level default parameter selections.
#[derive(Clone, Debug, PartialEq)]
pub struct WorkbookDefaults {
    pub selected_scenario: Option<Selection>,
    pub selected_authorization: Option<Selection>,
    pub selected_certificate: Option<Selection>,
    pub selected_proxy: Option<Selection>,
    pub selected_data: Option<Selection>,
    pub validation_state: ValidationState,
    pub validation_warnings: Option<Vec<String>>,
    pub validation_errors: Option<Vec<(String, String)>>,
}

impl WorkbookDefaults {
    pub open spec fn computed_validation(self) -> ValidationState {
        ValidationState { warning: self.validation_warnings is Some, error: false }
    }

    pub fn revalidate(&mut self)
        ensures
            *final(self) == (Self { validation_state: old(self).computed_validation(), ..*old(self) }),
    {
        self.validation_state = ValidationState {
            warning: self.validation_warnings.is_some(),
            error: false,
        };
    }

    pub fn blank() -> (r: WorkbookDefaults)
        ensures
            r.selected_scenario is None,
            r.selected_authorization is None,
            r.selected_certificate is None,
            r.selected_proxy is None,
            r.selected_data is None,
            r.validation_state == ValidationState::spec_empty(),
    {
        WorkbookDefaults {
            selected_scenario: None,
            selected_authorization: None,
            selected_certificate: None,
            selected_proxy: None,
            selected_data: None,
            validation_state: ValidationState::empty(),
            validation_warnings: None,
            validation_errors: None,
        }
    }
}

/// Cached, possibly dirty materialization of an external data source.
#[derive(Clone, Debug, PartialEq)]
pub struct DataSetContent {
    pub csv_columns: Option<Vec<String>>,
    /// Each row is a column-name/value pairing in column order.
    pub csv_rows: Option<Vec<Vec<(String, String)>>>,
    pub source_text: Option<String>,
    pub dirty: bool,
}

impl DataSetContent {
    pub fn empty() -> (r: DataSetContent)
        ensures
            r.csv_columns is None,
            r.csv_rows is None,
            r.source_text is None,
            !r.dirty,
    {
        DataSetContent { csv_columns: None, csv_rows: None, source_text: None, dirty: false }
    }
}


/// The name given to a copied entity.
pub open spec fn copy_name_of(name: Seq<char>) -> Seq<char> {
    name + " (Copy)"@
}

/// Builds the copy name for an entity.
pub fn create_copy_name(original_name: &String) -> (r: String)
    ensures
        r@ == copy_name_of(original_name@),
{
    let mut t = original_name.clone();
    t.append(" (Copy)");
    t
}

/// Copies a string vector; the copy equals the original.
pub fn dup_strings(v: &Vec<String>) -> (r: Vec<String>)
    ensures
        r@ == v@,
{
    let n = v.len();
    let mut out: Vec<String> = Vec::new();
    let mut i: usize = 0;
    while i < n
        invariant
            n == v@.len(),
            i <= n,
            out@ =~= v@.take(i as int),
        decreases n - i,
    {
        out.push(v[i].clone());
        proof {
            assert(out@ =~= v@.take(i + 1));
        }
        i += 1;
    }
    proof {
        assert(v@.take(n as int) =~= v@);
    }
    out
}

/// Copies a byte vector; the copy equals the original.
pub fn dup_bytes(v: &Vec<u8>) -> (r: Vec<u8>)
    ensures
        r@ == v@,
{
    let n = v.len();
    let mut out: Vec<u8> = Vec::new();
    let mut i: usize = 0;
    while i < n
        invariant
            n == v@.len(),
            i <= n,
            out@ =~= v@.take(i as int),
        decreases n - i,
    {
        out.push(v[i]);
        proof {
            assert(out@ =~= v@.take(i + 1));
        }
        i += 1;
    }
    proof {
        assert(v@.take(n as int) =~= v@);
    }
    out
}

/// Copies a name/value pair vector; the copy equals the original.
pub fn dup_pairs(v: &Vec<NameValuePair>) -> (r: Vec<NameValuePair>)
    ensures
        r@ == v@,
{
    let n = v.len();
    let mut out: Vec<NameValuePair> = Vec::new();
    let mut i: usize = 0;
    while i < n
        invariant
            n == v@.len(),
            i <= n,
            out@ =~= v@.take(i as int),
        decreases n - i,
    {
        out.push(NameValuePair { name: v[i].name.clone(), value: v[i].value.clone() });
        proof {
            assert(out@ =~= v@.take(i + 1));
        }
        i += 1;
    }
    proof {
        assert(v@.take(n as int) =~= v@);
    }
    out
}

/// Copies a validation-error list; the copy equals the original.
pub fn dup_errors(v: &Vec<(String, String)>) -> (r: Vec<(String, String)>)
    ensures
        r@ == v@,
{
    let n = v.len();
    let mut out: Vec<(String, String)> = Vec::new();
    let mut i: usize = 0;
    while i < n
        invariant
            n == v@.len(),
            i <= n,
            out@ =~= v@.take(i as int),
        decreases n - i,
    {
        out.push((v[i].0.clone(), v[i].1.clone()));
        proof {
            assert(out@ =~= v@.take(i + 1));
        }
        i += 1;
    }
    proof {
        assert(v@.take(n as int) =~= v@);
    }
    out
}

pub fn dup_opt_string(v: &Option<String>) -> (r: Option<String>)
    ensures
        r == *v,
{
    match v {
        Some(s) => Some(s.clone()),
        None => None,
    }
}

pub fn dup_opt_strings(v: &Option<Vec<String>>) -> (r: Option<Vec<String>>)
    ensures
        match (r, v) {
            (Some(a), Some(b)) => a@ == b@,
            (None, None) => true,
            _ => false,
        },
{
    match v {
        Some(s) => Some(dup_strings(s)),
        None => None,
    }
}

pub fn dup_opt_pairs(v: &Option<Vec<NameValuePair>>) -> (r: Option<Vec<NameValuePair>>)
    ensures
        match (r, v) {
            (Some(a), Some(b)) => a@ == b@,
            (None, None) => true,
            _ => false,
        },
{
    match v {
        Some(s) => Some(dup_pairs(s)),
        None => None,
    }
}

pub fn dup_opt_errors(v: &Option<Vec<(String, String)>>) -> (r: Option<Vec<(String, String)>>)
    ensures
        match (r, v) {
            (Some(a), Some(b)) => a@ == b@,
            (None, None) => true,
            _ => false,
        },
{
    match v {
        Some(s) => Some(dup_errors(s)),
        None => None,
    }
}

pub fn dup_selection(v: &Option<Selection>) -> (r: Option<Selection>)
    ensures
        r == *v,
{
    match v {
        Some(s) => Some(Selection { id: s.id.clone(), name: s.name.clone() }),
        None => None,
    }
}

impl Scenario {
    /// A copy under a fresh id and a copy name.
    pub fn clone_as_new(&self, id: String) -> (r: Scenario)
        ensures
            r.id == id,
            r.name@ == copy_name_of(self.name@),
            match (r.variables, self.variables) {
                (Some(a), Some(b)) => a@ == b@,
                (None, None) => true,
                _ => false,
            },
            r.validation_state == r.computed_validation(),
    {
        let mut r = Scenario {
            id,
            name: create_copy_name(&self.name),
            variables: dup_opt_pairs(&self.variables),
            validation_state: ValidationState::empty(),
            validation_warnings: dup_opt_strings(&self.validation_warnings),
            validation_errors: dup_opt_errors(&self.validation_errors),
        };
        r.revalidate();
        r
    }
}

impl Proxy {
    /// A copy under a fresh id and a copy name.
    pub fn clone_as_new(&self, id: String) -> (r: Proxy)
        ensures
            r.id == id,
            r.name@ == copy_name_of(self.name@),
            r.url == self.url,
            r.validation_state == r.computed_validation(),
    {
        let mut r = Proxy {
            id,
            name: create_copy_name(&self.name),
            url: self.url.clone(),
            validation_state: ValidationState::empty(),
            validation_warnings: dup_opt_strings(&self.validation_warnings),
            validation_errors: dup_opt_errors(&self.validation_errors),
        };
        r.revalidate();
        r
    }
}

impl DataSet {
    /// A copy under a fresh id and a copy name.
    pub fn clone_as_new(&self, id: String) -> (r: DataSet)
        ensures
            r.id == id,
            r.name@ == copy_name_of(self.name@),
            r.source_type == self.source_type,
            r.source == self.source,
            r.validation_state == r.computed_validation(),
    {
        let mut r = DataSet {
            id,
            name: create_copy_name(&self.name),
            source_type: self.source_type,
            source: self.source.clone(),
            source_error: dup_opt_string(&self.source_error),
            validation_state: ValidationState::empty(),
            validation_warnings: dup_opt_strings(&self.validation_warnings),
            validation_errors: dup_opt_errors(&self.validation_errors),
        };
        r.revalidate();
        r
    }
}

impl Authorization {
    /// A copy under a fresh id and a copy name; the scheme and its fields
    /// carry over.
    pub fn clone_as_new(&self, id: String) -> (r: Authorization)
        ensures
            r.spec_id() == id@,
            r.spec_name() == copy_name_of(self.spec_name()),
            (self is Basic <==> r is Basic),
            (self is OAuth2Client <==> r is OAuth2Client),
            (self is OAuth2Pkce <==> r is OAuth2Pkce),
            (self is ApiKey <==> r is ApiKey),
            r.spec_validation_state() == r.computed_validation(),
    {
        let name = create_copy_name(self.get_name());
        let error = name.as_str().is_empty();
        let warning = match self {
            Authorization::Basic { validation_warnings, .. } => validation_warnings.is_some(),
            Authorization::OAuth2Client { validation_warnings, .. } => validation_warnings
                .is_some(),
            Authorization::OAuth2Pkce { validation_warnings, .. } => validation_warnings.is_some(),
            Authorization::ApiKey { validation_warnings, .. } => validation_warnings.is_some(),
        };
        let validation_state = ValidationState { warning, error };
        match self {
            Authorization::Basic { username, password, validation_warnings, .. } => {
                Authorization::Basic {
                    id,
                    name,
                    username: username.clone(),
                    password: password.clone(),
                    validation_state,
                    validation_warnings: dup_opt_strings(validation_warnings),
                    validation_errors: None,
                }
            },
            Authorization::OAuth2Client {
                access_token_url,
                client_id,
                client_secret,
                audience,
                scope,
                selected_certificate,
                selected_proxy,
                send_credentials_in_body,
                validation_warnings,
                ..
            } => {
                Authorization::OAuth2Client {
                    id,
                    name,
                    access_token_url: access_token_url.clone(),
                    client_id: client_id.clone(),
                    client_secret: client_secret.clone(),
                    audience: dup_opt_string(audience),
                    scope: dup_opt_string(scope),
                    selected_certificate: dup_selection(selected_certificate),
                    selected_proxy: dup_selection(selected_proxy),
                    send_credentials_in_body: *send_credentials_in_body,
                    validation_state,
                    validation_warnings: dup_opt_strings(validation_warnings),
                    validation_errors: None,
                }
            },
            Authorization::OAuth2Pkce {
                authorize_url,
                access_token_url,
                client_id,
                scope,
                send_credentials_in_body,
                token,
                refresh_token,
                expiration,
                validation_warnings,
                ..
            } => {
                Authorization::OAuth2Pkce {
                    id,
                    name,
                    authorize_url: authorize_url.clone(),
                    access_token_url: access_token_url.clone(),
                    client_id: client_id.clone(),
                    scope: dup_opt_string(scope),
                    send_credentials_in_body: *send_credentials_in_body,
                    token: dup_opt_string(token),
                    refresh_token: dup_opt_string(refresh_token),
                    expiration: *expiration,
                    validation_state,
                    validation_warnings: dup_opt_strings(validation_warnings),
                    validation_errors: None,
                }
            },
            Authorization::ApiKey { header, value, validation_warnings, .. } => {
                Authorization::ApiKey {
                    id,
                    name,
                    header: header.clone(),
                    value: value.clone(),
                    validation_state,
                    validation_warnings: dup_opt_strings(validation_warnings),
                    validation_errors: None,
                }
            },
        }
    }
}

impl Certificate {
    /// A copy under a fresh id and a copy name; the format and its payload
    /// carry over.
    pub fn clone_as_new(&self, id: String) -> (r: Certificate)
        ensures
            r.spec_id() == id@,
            r.spec_name() == copy_name_of(self.spec_name()),
            (self is Pkcs12 <==> r is Pkcs12),
            (self is Pkcs8Pem <==> r is Pkcs8Pem),
            (self is Pem <==> r is Pem),
            r.spec_validation_state() == r.computed_validation(),
    {
        let name = create_copy_name(self.get_name());
        let error = name.as_str().is_empty();
        let warning = match self {
            Certificate::Pkcs12 { validation_warnings, .. } => validation_warnings.is_some(),
            Certificate::Pkcs8Pem { validation_warnings, .. } => validation_warnings.is_some(),
            Certificate::Pem { validation_warnings, .. } => validation_warnings.is_some(),
        };
        let validation_state = ValidationState { warning, error };
        match self {
            Certificate::Pkcs12 { pfx, password, validation_warnings, .. } => {
                Certificate::Pkcs12 {
                    id,
                    name,
                    pfx: dup_bytes(pfx),
                    password: dup_opt_string(password),
                    validation_state,
                    validation_warnings: dup_opt_strings(validation_warnings),
                    validation_errors: None,
                }
            },
            Certificate::Pkcs8Pem { pem, key, validation_warnings, .. } => {
                Certificate::Pkcs8Pem {
                    id,
                    name,
                    pem: dup_bytes(pem),
                    key: dup_bytes(key),
                    validation_state,
                    validation_warnings: dup_opt_strings(validation_warnings),
                    validation_errors: None,
                }
            },
            Certificate::Pem { pem, validation_warnings, .. } => {
                Certificate::Pem {
                    id,
                    name,
                    pem: dup_bytes(pem),
                    validation_state,
                    validation_warnings: dup_opt_strings(validation_warnings),
                    validation_errors: None,
                }
            },
        }
    }
}

/// Copies a request body; the copy equals the original.
pub fn dup_body(v: &Option<RequestBody>) -> (r: Option<RequestBody>)
    ensures
        match (r, v) {
            (Some(a), Some(b)) => body_eq(a, *b),
            (None, None) => true,
            _ => false,
        },
{
    match v {
        Some(RequestBody::Text { data }) => Some(RequestBody::Text { data: data.clone() }),
        Some(RequestBody::Json { data }) => Some(RequestBody::Json { data: data.clone() }),
        Some(RequestBody::Xml { data }) => Some(RequestBody::Xml { data: data.clone() }),
        Some(RequestBody::Form { data }) => Some(RequestBody::Form { data: dup_pairs(data) }),
        Some(RequestBody::Raw { data }) => Some(RequestBody::Raw { data: dup_bytes(data) }),
        None => None,
    }
}

/// Structural equality of request bodies, container views compared.
pub open spec fn body_eq(a: RequestBody, b: RequestBody) -> bool {
    match (a, b) {
        (RequestBody::Text { data: x }, RequestBody::Text { data: y }) => x == y,
        (RequestBody::Json { data: x }, RequestBody::Json { data: y }) => x == y,
        (RequestBody::Xml { data: x }, RequestBody::Xml { data: y }) => x == y,
        (RequestBody::Form { data: x }, RequestBody::Form { data: y }) => x@ == y@,
        (RequestBody::Raw { data: x }, RequestBody::Raw { data: y }) => x@ == y@,
        _ => false,
    }
}

impl Request {
    /// A copy under a fresh id and a copy name.
    pub fn clone_as_new(&self, id: String) -> (r: Request)
        ensures
            r.id == id,
            r.name@ == copy_name_of(self.name@),
            r.url == self.url,
            r.method == self.method,
            r.runs == self.runs,
            r.timeout == self.timeout,
            r.keep_alive == self.keep_alive,
            r.accept_invalid_certs == self.accept_invalid_certs,
            r.number_of_redirects == self.number_of_redirects,
            r.selected_scenario == self.selected_scenario,
            r.selected_authorization == self.selected_authorization,
            r.selected_certificate == self.selected_certificate,
            r.selected_proxy == self.selected_proxy,
            r.selected_data == self.selected_data,
            match (r.body, self.body) {
                (Some(a), Some(b)) => body_eq(a, b),
                (None, None) => true,
                _ => false,
            },
            r.validation_state == r.computed_validation(),
    {
        let mut r = Request {
            id,
            name: create_copy_name(&self.name),
            key: dup_opt_string(&self.key),
            url: self.url.clone(),
            method: self.method,
            runs: self.runs,
            multi_run_execution: self.multi_run_execution,
            timeout: self.timeout,
            keep_alive: self.keep_alive,
            accept_invalid_certs: self.accept_invalid_certs,
            number_of_redirects: self.number_of_redirects,
            query_string_params: dup_opt_pairs(&self.query_string_params),
            headers: dup_opt_pairs(&self.headers),
            test: dup_opt_string(&self.test),
            body: dup_body(&self.body),
            selected_scenario: dup_selection(&self.selected_scenario),
            selected_authorization: dup_selection(&self.selected_authorization),
            selected_certificate: dup_selection(&self.selected_certificate),
            selected_proxy: dup_selection(&self.selected_proxy),
            selected_data: dup_selection(&self.selected_data),
            validation_state: ValidationState::empty(),
            validation_warnings: dup_opt_strings(&self.validation_warnings),
            validation_errors: dup_opt_errors(&self.validation_errors),
        };
        r.revalidate();
        r
    }
}

impl RequestGroup {
    /// A copy under a fresh id and a copy name; descendants are not copied.
    pub fn clone_as_new(&self, id: String) -> (r: RequestGroup)
        ensures
            r.id == id,
            r.name@ == copy_name_of(self.name@),
            r.runs == self.runs,
            r.execution == self.execution,
            r.multi_run_execution == self.multi_run_execution,
            r.selected_scenario == self.selected_scenario,
            r.selected_authorization == self.selected_authorization,
            r.selected_certificate == self.selected_certificate,
            r.selected_proxy == self.selected_proxy,
            r.selected_data == self.selected_data,
            r.validation_state == r.computed_validation(),
    {
        let mut r = RequestGroup {
            id,
            name: create_copy_name(&self.name),
            key: dup_opt_string(&self.key),
            runs: self.runs,
            execution: self.execution,
            multi_run_execution: self.multi_run_execution,
            selected_scenario: dup_selection(&self.selected_scenario),
            selected_authorization: dup_selection(&self.selected_authorization),
            selected_certificate: dup_selection(&self.selected_certificate),
            selected_proxy: dup_selection(&self.selected_proxy),
            selected_data: dup_selection(&self.selected_data),
            validation_state: ValidationState::empty(),
            validation_warnings: dup_opt_strings(&self.validation_warnings),
            validation_errors: dup_opt_errors(&self.validation_errors),
        };
        r.revalidate();
        r
    }
}

} // verus!
