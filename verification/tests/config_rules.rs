use taxonia::config::AppEnv;
use taxonia::config::Config;
use taxonia::config::ConfigError;
use taxonia::config::parse_allowed_origins;
use taxonia::errors::ApiError;
use taxonia::errors::status_of;
use taxonia::health::health_check;

fn build_config(app_env: Option<&str>) -> Result<Config, ConfigError> {
    Config::from_values(
        "https://a.example, https://b.example",
        "postgres://localhost/taxonia".to_string(),
        "redis://localhost".to_string(),
        "127.0.0.1:8080".to_string(),
        "https://api.taxonia.app".to_string(),
        "client-id".to_string(),
        "client-secret".to_string(),
        "https://api.taxonia.app/auth/callback".to_string(),
        "https://www.inaturalist.org".to_string(),
        "https://taxonia.app/auth/callback".to_string(),
        app_env.map(|s| s.to_string()),
    )
}

#[test]
fn origins_are_split_and_trimmed() {
    let origins = parse_allowed_origins(" https://a.example ,https://b.example,  ,");
    assert_eq!(origins, vec!["https://a.example".to_string(), "https://b.example".to_string()]);
}

#[test]
fn origins_empty_string_gives_no_entries() {
    let origins = parse_allowed_origins("");
    assert!(origins.is_empty());
}

#[test]
fn origins_single_entry_without_commas() {
    let origins = parse_allowed_origins("https://only.example");
    assert_eq!(origins, vec!["https://only.example".to_string()]);
}

#[test]
fn origins_whitespace_only_entries_are_dropped() {
    let origins = parse_allowed_origins(" \t , \n ,");
    assert!(origins.is_empty());
}

#[test]
fn app_env_parse_accepts_both_deployments() {
    assert_eq!(AppEnv::parse("production".to_string()).unwrap(), AppEnv::Production);
    assert_eq!(AppEnv::parse("development".to_string()).unwrap(), AppEnv::Development);
}

#[test]
fn app_env_parse_rejects_anything_else() {
    let err = AppEnv::parse("staging".to_string()).unwrap_err();
    let ConfigError::InvalidAppEnv(msg) = err;
    assert_eq!(
        msg,
        "Invalid APP_ENV: Received staging. Expected \"production\" or \"development\""
    );
}

#[test]
fn config_defaults_to_development() {
    let cfg = build_config(None).unwrap();
    assert_eq!(cfg.app_env, AppEnv::Development);
    assert!(!cfg.is_prod());
}

#[test]
fn config_production_flag_is_recognized() {
    let cfg = build_config(Some("production")).unwrap();
    assert_eq!(cfg.app_env, AppEnv::Production);
    assert!(cfg.is_prod());
    assert_eq!(cfg.allowed_origins.len(), 2);
    assert_eq!(cfg.allowed_origins[0], "https://a.example");
}

#[test]
fn config_rejects_unknown_flag() {
    let err = build_config(Some("prod")).unwrap_err();
    assert!(err.message().contains("prod"));
    let ConfigError::InvalidAppEnv(msg) = err;
    assert_eq!(msg, "Invalid APP_ENV: Received prod. Expected \"production\" or \"development\"");
}

#[test]
fn statuses_collapse_by_taxonomy() {
    assert_eq!(status_of(&ApiError::InvalidOAuthState), 400);
    assert_eq!(status_of(&ApiError::Unauthorized), 401);
    assert_eq!(status_of(&ApiError::NotFound), 404);
    assert_eq!(status_of(&ApiError::Configuration), 500);
    assert_eq!(status_of(&ApiError::Transport), 500);
    assert_eq!(status_of(&ApiError::Persistence), 500);
}

#[test]
fn health_report_carries_probe_outcomes() {
    let resp = health_check(true, false);
    assert!(resp.db_ok);
    assert!(!resp.redis_ok);
    assert!(resp.server_ok);
    let resp = health_check(true, true);
    assert!(resp.db_ok && resp.redis_ok && resp.server_ok);
}
