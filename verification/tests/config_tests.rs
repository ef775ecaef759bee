use emit_hub::config::{Config, ConfigOverrides};

#[test]
fn test_default_config() {
    let config = Config::default();
    assert_eq!(config.host, "127.0.0.1");
    assert_eq!(config.port, 8080);
    assert_eq!(config.max_connections_per_channel, 1000);
}

#[test]
fn test_config_validation() {
    let mut config = Config::default();

    assert!(config.validate().is_ok());

    config.port = 0;
    assert!(config.validate().is_err());

    config.port = 8080;
    config.max_connections_per_channel = 0;
    assert!(config.validate().is_err());
}

#[test]
fn test_apply_overrides_env_style() {
    let mut ov = ConfigOverrides::default();
    ov.host = Some("0.0.0.0".to_string());
    ov.port = Some("9000".to_string());
    ov.max_connections = Some("2000".to_string());
    let config = Config::default().apply_overrides(ov).unwrap();
    assert_eq!(config.host, "0.0.0.0");
    assert_eq!(config.port, 9000);
    assert_eq!(config.max_connections_per_channel, 2000);
}

#[test]
fn test_apply_overrides_defaults_kept() {
    let config = Config::default().apply_overrides(ConfigOverrides::default()).unwrap();
    assert_eq!(config, Config::default());
}

#[test]
fn test_apply_overrides_bad_number() {
    let mut ov = ConfigOverrides::default();
    ov.port = Some("not-a-port".to_string());
    assert!(Config::default().apply_overrides(ov).is_err());

    let mut ov = ConfigOverrides::default();
    ov.port = Some("70000".to_string());
    assert!(Config::default().apply_overrides(ov).is_err());

    let mut ov = ConfigOverrides::default();
    ov.port = Some("0".to_string());
    assert!(Config::default().apply_overrides(ov).is_err());
}

#[test]
fn test_parse_u64() {
    assert_eq!(emit_hub::config::parse_u64("9000"), Some(9000));
    assert_eq!(emit_hub::config::parse_u64("0"), Some(0));
    assert_eq!(emit_hub::config::parse_u64("18446744073709551615"), Some(u64::MAX));
    assert_eq!(emit_hub::config::parse_u64("18446744073709551616"), None);
    assert_eq!(emit_hub::config::parse_u64(""), None);
    assert_eq!(emit_hub::config::parse_u64("12a"), None);
    assert_eq!(emit_hub::config::parse_u64("-4"), None);
}

#[test]
fn test_parse_bool() {
    assert_eq!(emit_hub::config::parse_bool("true"), Some(true));
    assert_eq!(emit_hub::config::parse_bool("false"), Some(false));
    assert_eq!(emit_hub::config::parse_bool("yes"), None);
    assert_eq!(emit_hub::config::parse_bool(""), None);
}
