use portctl::config::{config_from_toml, config_to_toml, mask_token, Config, ConfigError};

#[test]
fn config_default_has_no_fields() {
    let cfg = Config::default();
    assert!(cfg.portainer_url.is_none());
    assert!(cfg.api_token.is_none());
}

#[test]
fn config_load_missing_file_returns_default() {
    let (cfg, err) = Config::from_file_text("");
    assert!(cfg.portainer_url.is_none());
    assert!(cfg.api_token.is_none());
    assert!(err.is_none());
}

#[test]
fn config_load_invalid_toml_returns_default() {
    let (cfg, err) = Config::from_file_text("not valid toml :::");
    assert!(cfg.portainer_url.is_none());
    assert!(cfg.api_token.is_none());
    assert_eq!(err, Some(ConfigError::Syntax));
}

#[test]
fn config_round_trip() {
    let mut cfg = Config::default();
    cfg.portainer_url = Some("https://portainer.example.com".to_string());
    cfg.api_token = Some("mytoken".to_string());
    let text = config_to_toml(&cfg);
    let loaded = config_from_toml(&text).unwrap();
    assert_eq!(loaded.portainer_url.as_deref(), Some("https://portainer.example.com"));
    assert_eq!(loaded.api_token.as_deref(), Some("mytoken"));
}

#[test]
fn config_set_url_persists() {
    let mut cfg = Config::default();
    let text = cfg.set_url("https://portainer.local".to_string());
    let (loaded, _) = Config::from_file_text(&text);
    assert_eq!(loaded.portainer_url.as_deref(), Some("https://portainer.local"));
}

#[test]
fn config_set_token_persists() {
    let mut cfg = Config::default();
    let text = cfg.set_token("secret-token-abc".to_string());
    let (loaded, _) = Config::from_file_text(&text);
    assert_eq!(loaded.api_token.as_deref(), Some("secret-token-abc"));
}

#[test]
fn config_set_url_overwrites_existing() {
    let mut cfg = Config::default();
    cfg.set_url("https://old.example.com".to_string());
    let text = cfg.set_url("https://new.example.com".to_string());
    let (loaded, _) = Config::from_file_text(&text);
    assert_eq!(loaded.portainer_url.as_deref(), Some("https://new.example.com"));
}

#[test]
fn config_set_token_does_not_clear_url() {
    let mut cfg = Config::default();
    cfg.set_url("https://portainer.local".to_string());
    let text = cfg.set_token("mytoken".to_string());
    let (loaded, _) = Config::from_file_text(&text);
    assert_eq!(loaded.portainer_url.as_deref(), Some("https://portainer.local"));
    assert_eq!(loaded.api_token.as_deref(), Some("mytoken"));
}

#[test]
fn config_load_partial_toml_only_url() {
    let (cfg, _) = Config::from_file_text("portainer_url = \"https://portainer.local\"\n");
    assert_eq!(cfg.portainer_url.as_deref(), Some("https://portainer.local"));
    assert!(cfg.api_token.is_none());
}

#[test]
fn config_load_partial_toml_only_token() {
    let (cfg, _) = Config::from_file_text("api_token = \"mytoken\"\n");
    assert!(cfg.portainer_url.is_none());
    assert_eq!(cfg.api_token.as_deref(), Some("mytoken"));
}

#[test]
fn config_field_of_wrong_type_is_rejected() {
    let (cfg, err) = Config::from_file_text("portainer_url = 5\n");
    assert!(cfg.portainer_url.is_none());
    assert_eq!(err, Some(ConfigError::InvalidField));
}

#[test]
fn config_file_text_is_toml() {
    let mut cfg = Config::default();
    let text = cfg.set_url("https://p.example".to_string());
    assert!(text.contains("portainer_url"));
    assert!(text.contains("https://p.example"));
    assert!(!text.contains("api_token"));
}

#[test]
fn config_file_lists_fields_in_their_order() {
    let cfg = Config { portainer_url: Some("https://p".to_string()), api_token: Some("t".to_string()) };
    assert_eq!(config_to_toml(&cfg), "portainer_url = \"https://p\"\napi_token = \"t\"\n");
    let cfg = Config { portainer_url: None, api_token: Some("t".to_string()) };
    assert_eq!(config_to_toml(&cfg), "api_token = \"t\"\n");
    assert_eq!(config_to_toml(&Config::default()), "");
}

#[test]
fn config_environment_overrides_non_empty_values() {
    let mut cfg = Config::default();
    cfg.portainer_url = Some("https://file.example".to_string());
    cfg.api_token = Some("filetoken".to_string());
    let c = cfg.with_overrides(Some("https://env.example".to_string()), Some(String::new()));
    assert_eq!(c.portainer_url.as_deref(), Some("https://env.example"));
    assert_eq!(c.api_token.as_deref(), Some("filetoken"));
    let c = c.with_overrides(None, Some("envtoken".to_string()));
    assert_eq!(c.portainer_url.as_deref(), Some("https://env.example"));
    assert_eq!(c.api_token.as_deref(), Some("envtoken"));
}

#[test]
fn config_token_is_masked() {
    assert_eq!(mask_token("short"), "*****");
    assert_eq!(mask_token("12345678"), "********");
    assert_eq!(mask_token("abcdefghijkl"), "abcd****ijkl");
    assert_eq!(mask_token(""), "");
}
