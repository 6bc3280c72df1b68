use amsterdam::config::{parse_env_line, render_line, Config};

#[test]
fn empty_config_has_nothing() {
    let cfg = Config::new();
    assert!(cfg.get("PLUME_API_URL").is_none());
}

#[test]
fn set_then_get() {
    let mut cfg = Config::new();
    cfg.set("PLUME_API_URL", "example.com");
    assert_eq!(cfg.get("PLUME_API_URL"), Some(&String::from("example.com")));
    assert!(cfg.get("PLUME_API_TOKEN").is_none());
}

#[test]
fn later_entry_wins() {
    let mut cfg = Config::new();
    cfg.set("K", "first");
    cfg.set("OTHER", "x");
    cfg.set("K", "second");
    assert_eq!(cfg.get("K"), Some(&String::from("second")));
    assert_eq!(cfg.get("OTHER"), Some(&String::from("x")));
}

#[test]
fn render_line_is_key_equals_value() {
    assert_eq!(render_line("PLUME_API_URL", "example.com"), "PLUME_API_URL=example.com");
}

#[test]
fn parse_env_line_splits_at_first_equals() {
    assert_eq!(
        parse_env_line("K=V"),
        Some((String::from("K"), String::from("V")))
    );
    assert_eq!(
        parse_env_line("K=V=W"),
        Some((String::from("K"), String::from("V=W")))
    );
    assert_eq!(parse_env_line("KV"), None);
    assert_eq!(parse_env_line(""), None);
    assert_eq!(
        parse_env_line("K="),
        Some((String::from("K"), String::from("")))
    );
}

#[test]
fn render_then_parse_round_trips() {
    let line = render_line("PLUME_CLIENT_ID", "abc123");
    assert_eq!(
        parse_env_line(&line),
        Some((String::from("PLUME_CLIENT_ID"), String::from("abc123")))
    );
}
