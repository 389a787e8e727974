use library_core::config::{eq_ignore_ascii_case, Config, ConfigError, CredentialField};

#[test]
fn default_config_has_no_secrets() {
    let config = Config::default();
    assert!(config.humble_cookie.is_none());
    assert!(config.packt_cookies.is_none());
    assert!(config.manning_cookies.is_none());
}

#[test]
fn exclude_terms_are_trimmed_deduplicated_and_removed_ignoring_case() {
    let mut config = Config::default();
    assert_eq!(config.add_bundle_exclude_term("  Software "), Ok(true));
    assert_eq!(config.add_bundle_exclude_term("SOFTWARE"), Ok(false));
    assert_eq!(config.add_bundle_exclude_term("   "), Err(ConfigError::EmptyTerm));
    assert_eq!(config.add_bundle_exclude_term("board game"), Ok(true));
    assert_eq!(config.bundle_exclude_terms, vec!["Software".to_string(), "board game".to_string()]);
    assert!(config.remove_bundle_exclude_term(" software"));
    assert!(!config.remove_bundle_exclude_term("software"));
    assert_eq!(config.bundle_exclude_terms, vec!["board game".to_string()]);
}

#[test]
fn credentials_are_set_only_when_given() {
    let mut config = Config::default();
    assert_eq!(config.apply_credentials(None, None, None), Err(ConfigError::NothingToSet));
    let changed = config
        .apply_credentials(Some("h".to_string()), None, Some("m".to_string()))
        .unwrap();
    assert_eq!(changed, vec!["humble_cookie", "manning_cookies"]);
    assert_eq!(config.humble_cookie, Some("h".to_string()));
    assert_eq!(config.packt_cookies, None);
    assert_eq!(config.manning_cookies, Some("m".to_string()));
}

#[test]
fn credential_fields_by_key_and_source() {
    assert_eq!(CredentialField::from_key("packt_cookies"), Some(CredentialField::PacktCookies));
    assert_eq!(CredentialField::from_key("packt_token"), None);
    assert_eq!(CredentialField::for_source("humble_bundle"), Some(CredentialField::HumbleCookie));
    assert_eq!(CredentialField::for_source("kindle"), None);
    assert_eq!(CredentialField::ManningCookies.key(), "manning_cookies");
    let mut config = Config::default();
    config.set_credential(CredentialField::PacktCookies, "jar".to_string());
    assert_eq!(config.packt_cookies, Some("jar".to_string()));
    let status = config.status("/tmp/library.db".to_string());
    assert!(status.packt_cookies_set && !status.humble_cookie_set && !status.manning_cookies_set);
    assert_eq!(status.db_path, "/tmp/library.db");
}

#[test]
fn ascii_case_comparison() {
    assert!(eq_ignore_ascii_case("Board Game", "bOARD gAME"));
    assert!(!eq_ignore_ascii_case("Straße", "STRASSE"));
    assert!(!eq_ignore_ascii_case("a", "ab"));
}
