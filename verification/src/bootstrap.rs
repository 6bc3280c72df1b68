//! Credential bootstrapping: deciding from the stored configuration what
//! remains to be done, building the registration and token-exchange requests,
//! and reading their responses.

use vstd::prelude::*;
use crate::config::{lookup, Config};
use crate::json::{json_ok, json_string_field, read_member};

verus! {

/// Why bootstrapping failed; any failure aborts the whole run.
#[derive(Clone, Copy, PartialEq, Eq, Debug)]
pub enum BootstrapError {
    /// The response was not a JSON document.
    InvalidJson,
    /// The response lacked a required string field.
    MissingField,
}

/// The model of the next bootstrap step.
pub ghost enum ActionView {
    Done(Seq<char>),
    NeedRegistration,
    NeedTokenExchange(Seq<char>, Seq<char>),
}

/// The next bootstrap step: nothing when a token is already stored, a token
/// exchange when the client credentials are stored, a registration first
/// otherwise.
pub enum BootstrapAction {
    Done(String),
    NeedRegistration,
    NeedTokenExchange(String, String),
}

impl View for BootstrapAction {
    type V = ActionView;

    open spec fn view(&self) -> ActionView {
        match self {
            BootstrapAction::Done(t) => ActionView::Done(t@),
            BootstrapAction::NeedRegistration => ActionView::NeedRegistration,
            BootstrapAction::NeedTokenExchange(i, s) => ActionView::NeedTokenExchange(i@, s@),
        }
    }
}

/// What the stored configuration calls for next.
pub open spec fn action_spec(cfg: Seq<(Seq<char>, Seq<char>)>) -> ActionView {
    match lookup(cfg, "PLUME_API_TOKEN"@) {
        Some(t) => ActionView::Done(t),
        None => match (lookup(cfg, "PLUME_CLIENT_ID"@), lookup(cfg, "PLUME_CLIENT_SECRET"@)) {
            (Some(i), Some(s)) => ActionView::NeedTokenExchange(i, s),
            _ => ActionView::NeedRegistration,
        },
    }
}

/// Decides the next bootstrap step from the stored configuration, exactly as
/// `action_spec` describes.
pub fn next_bootstrap_action(cfg: &Config) -> (r: BootstrapAction)
    ensures
        r@ == action_spec(cfg@),
{
    match cfg.get("PLUME_API_TOKEN") {
        Some(t) => BootstrapAction::Done(t.clone()),
        None => {
            let id = cfg.get("PLUME_CLIENT_ID");
            let secret = cfg.get("PLUME_CLIENT_SECRET");
            match (id, secret) {
                (Some(i), Some(s)) => BootstrapAction::NeedTokenExchange(i.clone(), s.clone()),
                _ => BootstrapAction::NeedRegistration,
            }
        },
    }
}

/// When a client id and secret are already stored, bootstrapping never asks
/// for a new registration: no registration request is made for a configured
/// client.
pub proof fn lemma_registration_skipped(cfg: Seq<(Seq<char>, Seq<char>)>)
    requires
        lookup(cfg, "PLUME_CLIENT_ID"@) is Some,
        lookup(cfg, "PLUME_CLIENT_SECRET"@) is Some,
    ensures
        !(action_spec(cfg) is NeedRegistration),
{
}

/// The application-registration request: a fixed application name and
/// website, no redirect.
pub struct AppRegistration {
    pub name: String,
    pub website: Option<String>,
    pub redirect_uri: Option<String>,
}

pub fn registration_request() -> (r: AppRegistration)
    ensures
        r.name@ == "Amsterdam"@,
        r.website matches Some(w) && w@ == "https://github.com/Plume-org/amsterdam"@,
        r.redirect_uri is None,
{
    AppRegistration {
        name: "Amsterdam".to_owned(),
        website: Some("https://github.com/Plume-org/amsterdam".to_owned()),
        redirect_uri: None,
    }
}

/// The registration endpoint on a given instance.
pub fn apps_url(domain: &str) -> (r: String)
    ensures
        r@ == "https://"@ + domain@ + "/api/v1/apps"@,
{
    let mut s = "https://".to_owned();
    s.append(domain);
    s.append("/api/v1/apps");
    s
}

/// The password-grant token endpoint with its query: username, password,
/// client id and secret, and the write scope, in that order.
pub fn oauth_url(
    domain: &str,
    username: &str,
    password: &str,
    client_id: &str,
    client_secret: &str,
) -> (r: String)
    ensures
        r@ == "https://"@ + domain@ + "/api/v1/oauth2?username="@ + username@ + "&password="@
            + password@ + "&client_id="@ + client_id@ + "&client_secret="@ + client_secret@
            + "&scopes=write"@,
{
    let mut s = "https://".to_owned();
    s.append(domain);
    s.append("/api/v1/oauth2?username=");
    s.append(username);
    s.append("&password=");
    s.append(password);
    s.append("&client_id=");
    s.append(client_id);
    s.append("&client_secret=");
    s.append(client_secret);
    s.append("&scopes=write");
    s
}

/// The client credentials read from a registration response: present string
/// fields are handed through unchanged, and a missing one is the error.
pub fn credentials_of_response(id: Option<String>, secret: Option<String>) -> (r: Result<
    (String, String),
    BootstrapError,
>)
    ensures
        id is Some && secret is Some ==> r == Ok::<_, BootstrapError>(
            (id.unwrap(), secret.unwrap()),
        ),
        id is None || secret is None ==> r == Err::<(String, String), _>(
            BootstrapError::MissingField,
        ),
{
    match (id, secret) {
        (Some(i), Some(s)) => Ok((i, s)),
        _ => Err(BootstrapError::MissingField),
    }
}

/// The token read from a token-exchange response: a present string field is
/// handed through unchanged, and a missing one is the error.
pub fn token_of_response(token: Option<String>) -> (r: Result<String, BootstrapError>)
    ensures
        token is Some ==> r == Ok::<_, BootstrapError>(token.unwrap()),
        token is None ==> r == Err::<String, _>(BootstrapError::MissingField),
{
    match token {
        Some(t) => Ok(t),
        None => Err(BootstrapError::MissingField),
    }
}

/// Reads a registration response body: the `client_id` and `client_secret`
/// string fields of the JSON document. A body that is not JSON is the JSON
/// error; a well-formed body missing either string field is the missing-field
/// error; otherwise the pair is returned as it stands.
pub fn interpret_registration_response(body: &str) -> (r: Result<(String, String), BootstrapError>)
    ensures
        !json_ok(body@) ==> r == Err::<(String, String), _>(BootstrapError::InvalidJson),
        json_ok(body@) && (json_string_field(body@, "client_id"@) is None || json_string_field(
            body@,
            "client_secret"@,
        ) is None) ==> r == Err::<(String, String), _>(BootstrapError::MissingField),
        json_ok(body@) && json_string_field(body@, "client_id"@) is Some && json_string_field(
            body@,
            "client_secret"@,
        ) is Some ==> (r matches Ok(p) && p.0@ == json_string_field(body@, "client_id"@).unwrap()
            && p.1@ == json_string_field(body@, "client_secret"@).unwrap()),
{
    match read_member(body, "client_id") {
        None => Err(BootstrapError::InvalidJson),
        Some((_, id)) => match read_member(body, "client_secret") {
            None => Err(BootstrapError::InvalidJson),
            Some((_, secret)) => credentials_of_response(id, secret),
        },
    }
}

/// Reads a token-exchange response body: the `token` string field of the JSON
/// document. A body that is not JSON is the JSON error; a well-formed body
/// without a string `token` member is the missing-field error; otherwise the
/// token is returned as it stands.
pub fn interpret_token_response(body: &str) -> (r: Result<String, BootstrapError>)
    ensures
        !json_ok(body@) ==> r == Err::<String, _>(BootstrapError::InvalidJson),
        json_ok(body@) && json_string_field(body@, "token"@) is None ==> r == Err::<String, _>(
            BootstrapError::MissingField,
        ),
        json_ok(body@) && json_string_field(body@, "token"@) is Some ==> (r matches Ok(tok)
            && tok@ == json_string_field(body@, "token"@).unwrap()),
{
    match read_member(body, "token") {
        None => Err(BootstrapError::InvalidJson),
        Some((_, text)) => token_of_response(text),
    }
}

} // verus!
