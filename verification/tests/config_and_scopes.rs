use base_idp::types::required_value;
use base_idp::{
    join_scopes, matches_env, resolve_issuer, split_scopes, Config, Error, DEFAULT_ISSUER,
    DEFAULT_LOCAL_ISSUER,
};

fn strings(v: &[&str]) -> Vec<String> {
    v.iter().map(|s| s.to_string()).collect()
}

#[test]
fn config_new_trims_trailing_slashes_of_issuer() {
    let c = Config::new("anon-key", "https://id.example.com///");
    assert_eq!(c.key, "anon-key");
    assert_eq!(c.issuer, "https://id.example.com");
    assert!(c.secret.is_none());
    assert!(c.client_id.is_empty());
    assert!(c.redirect_uri.is_empty());
    assert!(c.scopes.is_empty());
    assert!(c.audience.is_empty());
    assert!(c.required_scope.is_none());
    assert!(!c.confidential);
    assert!(c.allowed_scopes.is_empty());
    assert!(!c.resolved);
}

#[test]
fn config_new_keeps_issuer_without_slash() {
    let c = Config::new("k", "http://localhost:8080");
    assert_eq!(c.issuer, "http://localhost:8080");
    let c = Config::new("k", "/");
    assert_eq!(c.issuer, "");
}

#[test]
fn from_env_values_requires_client_id() {
    let r = Config::from_env_values(None, "https://i".to_string(), None, None);
    match r {
        Err(Error::InvalidConfig(m)) => assert_eq!(m, "BASE_IDP_CLIENT_ID is required"),
        other => panic!("unexpected {other:?}"),
    }
    let r = Config::from_env_values(Some(String::new()), "https://i".to_string(), None, None);
    assert!(matches!(r, Err(Error::InvalidConfig(_))));
}

#[test]
fn from_env_values_prefers_client_secret_over_legacy_secret() {
    let c = Config::from_env_values(
        Some("console".to_string()),
        "https://i".to_string(),
        Some(String::new()),
        Some("legacy".to_string()),
    )
    .unwrap();
    assert_eq!(c.key, "console");
    assert_eq!(c.client_id, "console");
    assert_eq!(c.issuer, "https://i");
    assert_eq!(c.secret.as_deref(), Some("legacy"));
    assert!(!c.resolved);
    let c = Config::from_env_values(
        Some("console".to_string()),
        "https://i".to_string(),
        Some("primary".to_string()),
        Some("legacy".to_string()),
    )
    .unwrap();
    assert_eq!(c.secret.as_deref(), Some("primary"));
    let c = Config::from_env_values(
        Some("console".to_string()),
        "https://i".to_string(),
        None,
        Some(String::new()),
    )
    .unwrap();
    assert!(c.secret.is_none());
}

#[test]
fn required_value_names_the_missing_setting() {
    match required_value("BASE_IDP_ISSUER", None) {
        Err(Error::InvalidConfig(m)) => assert_eq!(m, "BASE_IDP_ISSUER is required"),
        other => panic!("unexpected {other:?}"),
    }
    assert_eq!(required_value("X", Some("v".to_string())).unwrap(), "v");
}

#[test]
fn split_scopes_splits_at_any_white_space() {
    assert_eq!(
        split_scopes("  openid  profile\tconsole:manage\n"),
        strings(&["openid", "profile", "console:manage"])
    );
    assert_eq!(split_scopes("a\u{3000}b\u{85}c"), strings(&["a", "b", "c"]));
    assert!(split_scopes("").is_empty());
    assert!(split_scopes(" \t ").is_empty());
    assert_eq!(split_scopes("single"), strings(&["single"]));
}

#[test]
fn join_scopes_separates_with_single_spaces() {
    assert_eq!(join_scopes(&strings(&["openid", "profile"])), "openid profile");
    assert_eq!(join_scopes(&strings(&["one"])), "one");
    assert_eq!(join_scopes(&[]), "");
    assert_eq!(join_scopes(&strings(&["", "x"])), " x");
}

#[test]
fn split_after_join_gives_the_scopes_back() {
    let scopes = strings(&["openid", "profile", "projects:read"]);
    assert_eq!(split_scopes(&join_scopes(&scopes)), scopes);
}

#[test]
fn join_after_split_normalises_spacing() {
    let s = "  openid\t\tprofile \n email ";
    let once = join_scopes(&split_scopes(s));
    assert_eq!(once, "openid profile email");
    assert_eq!(split_scopes(&once), split_scopes(s));
}

#[test]
fn matches_env_accepts_local_development_names() {
    assert!(matches_env(Some("dev")));
    assert!(matches_env(Some(" Development\t")));
    assert!(matches_env(Some("LOCAL")));
    assert!(!matches_env(Some("production")));
    assert!(!matches_env(Some("dev-1")));
    assert!(!matches_env(Some("")));
    assert!(!matches_env(None));
}

#[test]
fn resolve_issuer_prefers_a_configured_issuer() {
    assert_eq!(
        resolve_issuer(Some("https://auth.example.com/".to_string()), None, None),
        "https://auth.example.com"
    );
    assert_eq!(
        resolve_issuer(Some(" https://a/ ".to_string()), Some("dev".to_string()), None),
        " https://a/ "
    );
}

#[test]
fn resolve_issuer_falls_back_on_environment_names() {
    assert_eq!(
        resolve_issuer(Some("   ".to_string()), Some("development".to_string()), None),
        DEFAULT_LOCAL_ISSUER
    );
    assert_eq!(resolve_issuer(None, None, Some("Local".to_string())), DEFAULT_LOCAL_ISSUER);
    assert_eq!(resolve_issuer(None, Some("production".to_string()), None), DEFAULT_ISSUER);
    assert_eq!(resolve_issuer(None, None, None), "https://authlayer.square.com");
    assert_eq!(DEFAULT_LOCAL_ISSUER, "http://localhost:8080");
}
