//! Data carried through the OAuth2 PKCE flow.  The authorization listener
//! and token exchange themselves are network services run by the shell;
//! only their plain-value payloads live here.

use vstd::prelude::*;

verus! {

/// The query parameters the authorization redirect carries back.
#[derive(Clone, Debug, PartialEq)]
pub struct PkceAuthParams {
    pub code: String,
    pub state: String,
}

/// What an authorization request is generated from.
#[derive(Clone, Debug, PartialEq)]
pub struct OAuth2PkceInfo {
    pub authorize_url: String,
    pub access_token_url: String,
    pub client_id: String,
    pub send_credentials_in_body: Option<bool>,
    pub scope: Option<String>,
    pub audience: Option<String>,
}

/// An in-flight authorization request handed to the browser.
#[derive(Clone, Debug, PartialEq)]
pub struct OAuth2PkceRequest {
    pub url: String,
    pub csrf_token: String,
    pub verifier: String,
    pub redirect_url: String,
}

/// The redirect parameters belong to the in-flight request exactly when
/// the returned state matches the issued anti-forgery token.
pub fn pkce_response_matches(request: &OAuth2PkceRequest, params: &PkceAuthParams) -> (r: bool)
    ensures
        r == (request.csrf_token@ == params.state@),
{
    request.csrf_token.eq(&params.state)
}

} // verus!
