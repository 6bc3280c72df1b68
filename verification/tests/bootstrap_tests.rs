use amsterdam::bootstrap::{
    apps_url, interpret_registration_response, interpret_token_response, next_bootstrap_action,
    oauth_url, registration_request, BootstrapAction, BootstrapError,
};
use amsterdam::config::Config;

#[test]
fn empty_config_needs_registration() {
    let cfg = Config::new();
    assert!(matches!(next_bootstrap_action(&cfg), BootstrapAction::NeedRegistration));
}

#[test]
fn stored_credentials_skip_registration() {
    let mut cfg = Config::new();
    cfg.set("PLUME_CLIENT_ID", "id1");
    cfg.set("PLUME_CLIENT_SECRET", "sec1");
    match next_bootstrap_action(&cfg) {
        BootstrapAction::NeedTokenExchange(id, secret) => {
            assert_eq!(id, "id1");
            assert_eq!(secret, "sec1");
        }
        _ => panic!("expected a token exchange"),
    }
}

#[test]
fn stored_token_ends_bootstrap() {
    let mut cfg = Config::new();
    cfg.set("PLUME_CLIENT_ID", "id1");
    cfg.set("PLUME_CLIENT_SECRET", "sec1");
    cfg.set("PLUME_API_TOKEN", "tok1");
    match next_bootstrap_action(&cfg) {
        BootstrapAction::Done(tok) => assert_eq!(tok, "tok1"),
        _ => panic!("expected bootstrap to be done"),
    }
}

#[test]
fn token_alone_ends_bootstrap() {
    let mut cfg = Config::new();
    cfg.set("PLUME_API_TOKEN", "tok2");
    match next_bootstrap_action(&cfg) {
        BootstrapAction::Done(tok) => assert_eq!(tok, "tok2"),
        _ => panic!("expected bootstrap to be done"),
    }
}

#[test]
fn client_id_alone_is_not_enough() {
    let mut cfg = Config::new();
    cfg.set("PLUME_CLIENT_ID", "id1");
    assert!(matches!(next_bootstrap_action(&cfg), BootstrapAction::NeedRegistration));
}

#[test]
fn registration_request_is_fixed() {
    let r = registration_request();
    assert_eq!(r.name, "Amsterdam");
    assert_eq!(r.website, Some(String::from("https://github.com/Plume-org/amsterdam")));
    assert_eq!(r.redirect_uri, None);
}

#[test]
fn apps_url_shape() {
    assert_eq!(apps_url("example.com"), "https://example.com/api/v1/apps");
}

#[test]
fn oauth_url_shape() {
    assert_eq!(
        oauth_url("example.com", "alice", "pw", "id1", "sec1"),
        "https://example.com/api/v1/oauth2?username=alice&password=pw&client_id=id1&client_secret=sec1&scopes=write"
    );
}

#[test]
fn token_response_with_token() {
    assert_eq!(
        interpret_token_response("{\"token\":\"abc\"}"),
        Ok(String::from("abc"))
    );
}

#[test]
fn token_response_without_token() {
    assert_eq!(interpret_token_response("{}"), Err(BootstrapError::MissingField));
}

#[test]
fn token_response_with_non_string_token() {
    assert_eq!(
        interpret_token_response("{\"token\":5}"),
        Err(BootstrapError::MissingField)
    );
}

#[test]
fn token_response_not_json() {
    assert_eq!(
        interpret_token_response("not json at all"),
        Err(BootstrapError::InvalidJson)
    );
}

#[test]
fn registration_response_with_both_fields() {
    assert_eq!(
        interpret_registration_response("{\"client_id\":\"i\",\"client_secret\":\"s\"}"),
        Ok((String::from("i"), String::from("s")))
    );
}

#[test]
fn registration_response_missing_secret() {
    assert_eq!(
        interpret_registration_response("{\"client_id\":\"i\"}"),
        Err(BootstrapError::MissingField)
    );
}

#[test]
fn registration_response_not_json() {
    assert_eq!(
        interpret_registration_response("<html>"),
        Err(BootstrapError::InvalidJson)
    );
}
