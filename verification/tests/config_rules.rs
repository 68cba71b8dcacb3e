use mia_secret::config::{
    resolve_config_path, write_default, write_default_if_missing, Config, ConfigOverrides,
    MIN_ARGON2_MEMORY_KB, MIN_ARGON2_PARALLELISM, MIN_ARGON2_TIME_COST,
};
use mia_secret::error::AppError;

#[test]
fn validate_accepts_default_and_localhost() {
    let mut cfg = Config::default();
    cfg.server.host = "localhost".to_owned();
    cfg.validate().expect("localhost should be accepted");
}

#[test]
fn validate_rejects_invalid_values() {
    let mut cfg = Config::default();
    cfg.server.request_timeout_secs = 0;
    assert!(matches!(cfg.validate(), Err(AppError::Validation(_))));

    cfg = Config::default();
    cfg.security.lock_timeout_secs = 0;
    assert!(matches!(cfg.validate(), Err(AppError::Validation(_))));

    cfg = Config::default();
    cfg.crypto.argon2_memory_kb = MIN_ARGON2_MEMORY_KB - 1;
    assert!(matches!(cfg.validate(), Err(AppError::Validation(_))));

    cfg = Config::default();
    cfg.crypto.argon2_time_cost = MIN_ARGON2_TIME_COST - 1;
    assert!(matches!(cfg.validate(), Err(AppError::Validation(_))));

    cfg = Config::default();
    cfg.crypto.argon2_parallelism = MIN_ARGON2_PARALLELISM - 1;
    assert!(matches!(cfg.validate(), Err(AppError::Validation(_))));

    cfg = Config::default();
    cfg.general.data_dir = " ".to_owned();
    assert!(matches!(cfg.validate(), Err(AppError::Validation(_))));

    cfg = Config::default();
    cfg.general.database_path = " ".to_owned();
    assert!(matches!(cfg.validate(), Err(AppError::Validation(_))));
}

#[test]
fn validate_rejects_non_loopback_host() {
    let mut cfg = Config::default();
    cfg.server.host = "192.168.1.10".to_owned();
    assert!(matches!(cfg.validate(), Err(AppError::Validation(_))));
}

#[test]
fn config_rejects_non_loopback_bind_host() {
    let mut cfg = Config::default();
    cfg.server.host = "0.0.0.0".to_owned();
    let result = cfg.validate();
    assert!(
        matches!(result, Err(AppError::Validation(ref message)) if message.contains("loopback")),
        "expected loopback validation error, got {result:?}"
    );
}

#[test]
fn resolve_config_path_prefers_explicit_path() {
    let explicit = "custom-config.toml".to_owned();
    let resolved = resolve_config_path(Some(explicit.clone()), true, None, false);
    assert_eq!(resolved, explicit);
}

#[test]
fn resolve_config_path_falls_back_in_order() {
    assert_eq!(resolve_config_path(None, true, Some("/etc/x.toml".to_owned()), true), "mia-secret.toml");
    assert_eq!(resolve_config_path(None, false, Some("/etc/x.toml".to_owned()), true), "/etc/x.toml");
    assert_eq!(resolve_config_path(None, false, Some("/etc/x.toml".to_owned()), false), "mia-secret.toml");
    assert_eq!(resolve_config_path(None, false, None, false), "mia-secret.toml");
}

#[test]
fn preferred_config_path_is_under_config_dir() {
    assert_eq!(
        mia_secret::config::preferred_config_path("/home/u/.config"),
        "/home/u/.config/mia-secret/mia-secret.toml"
    );
    assert_eq!(
        mia_secret::config::preferred_config_path("/home/u/.config/"),
        "/home/u/.config/mia-secret/mia-secret.toml"
    );
}

#[test]
fn write_default_if_missing_and_force_behaviour() {
    assert_eq!(write_default_if_missing(false, "cfg/mia-secret.toml"), Ok(true));
    assert_eq!(write_default_if_missing(true, "cfg/mia-secret.toml"), Ok(false));
    let err = write_default(true, false, "cfg/mia-secret.toml").expect_err("should fail without force");
    assert!(matches!(err, AppError::Config(ref message) if message.contains("already exists")));
    assert_eq!(err.to_string(), "config error: config already exists at cfg/mia-secret.toml");
    assert!(write_default(true, true, "cfg/mia-secret.toml").is_ok());
    assert!(write_default(false, false, "cfg/mia-secret.toml").is_ok());
}

#[test]
fn load_applies_cli_overrides() {
    let mut raw = Config::default();
    raw.server.port = 1111;
    raw.server.request_timeout_secs = 15;
    let cfg = mia_secret::config::load(
        raw,
        ConfigOverrides { host: Some("localhost".to_owned()), port: Some(4321) },
    )
    .expect("load config with overrides");
    assert_eq!(cfg.server.host, "localhost");
    assert_eq!(cfg.server.port, 4321);
    assert_eq!(cfg.server.request_timeout_secs, 15);
}

#[test]
fn load_rejects_non_loopback_override() {
    let err = mia_secret::config::load(
        Config::default(),
        ConfigOverrides { host: Some("0.0.0.0".to_owned()), port: None },
    )
    .expect_err("0.0.0.0 must be refused");
    assert_eq!(
        err,
        AppError::Validation("server.host must be a loopback address, got 0.0.0.0".to_owned())
    );
}

#[test]
fn default_config_values() {
    let cfg = Config::default();
    assert_eq!(cfg.server.host, "127.0.0.1");
    assert_eq!(cfg.server.port, 3765);
    assert_eq!(cfg.general.data_dir, "./data");
    assert_eq!(cfg.general.database_path, "./data/secrets.db");
    assert!(cfg.validate().is_ok());
}

#[test]
fn validate_messages_name_the_field() {
    let mut cfg = Config::default();
    cfg.server.request_timeout_secs = 0;
    assert_eq!(
        cfg.validate(),
        Err(AppError::Validation("server.request_timeout_secs must be greater than 0".to_owned()))
    );
    let mut cfg = Config::default();
    cfg.crypto.argon2_memory_kb = 1;
    assert_eq!(
        cfg.validate(),
        Err(AppError::Validation("crypto.argon2_memory_kb must be at least 65536".to_owned()))
    );
    let mut cfg = Config::default();
    cfg.server.host = "::1".to_owned();
    assert!(cfg.validate().is_ok());
    cfg.server.host = "127.8.9.10".to_owned();
    assert!(cfg.validate().is_ok());
    cfg.server.host = "LOCALHOST".to_owned();
    assert!(cfg.validate().is_ok());
    cfg.server.host = "::2".to_owned();
    assert!(cfg.validate().is_err());
}
