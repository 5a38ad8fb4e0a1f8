//! Configuration keys: nested interpreter entries, the legacy scalar
//! setting, and the parsed scalar keys.

use gist_cache::config::{Config, InterpreterSetting, UserConfig};
use gist_cache::error::GistCacheError;

fn test_config() -> Config {
    Config {
        cache_dir: "/tmp/gist-cache".to_string(),
        cache_file: "/tmp/gist-cache/cache.json".to_string(),
        contents_dir: "/tmp/gist-cache/contents".to_string(),
        download_dir: "/tmp/downloads".to_string(),
        config_file: "/tmp/gist-cache/config.toml".to_string(),
        user_config: UserConfig::default(),
    }
}

#[test]
fn test_set_nested_interpreter_config() {
    let mut config = test_config();

    config.set_config_value("defaults.interpreter.py", "python3").unwrap();
    config.set_config_value("defaults.interpreter.rb", "ruby").unwrap();
    config.set_config_value("defaults.interpreter.*", "bash").unwrap();

    assert_eq!(
        config.get_config_value("defaults.interpreter.py"),
        Some("python3".to_string())
    );
    assert_eq!(
        config.get_config_value("defaults.interpreter.rb"),
        Some("ruby".to_string())
    );
    assert_eq!(
        config.get_config_value("defaults.interpreter.*"),
        Some("bash".to_string())
    );
}

#[test]
fn test_legacy_single_interpreter_config() {
    let mut config = test_config();

    config.set_config_value("defaults.interpreter", "python3").unwrap();

    if let Some(defaults) = &config.user_config.defaults {
        if let Some(InterpreterSetting::Single(s)) = &defaults.interpreter {
            assert_eq!(s, "python3");
        } else {
            panic!("Expected Single variant");
        }
    } else {
        panic!("Expected defaults to be set");
    }
}

#[test]
fn test_single_interpreter_answers_wildcard() {
    let mut config = test_config();
    config.set_config_value("defaults.interpreter", "python3").unwrap();

    assert_eq!(
        config.get_config_value("defaults.interpreter"),
        Some("python3".to_string())
    );
    assert_eq!(
        config.get_config_value("defaults.interpreter.*"),
        Some("python3".to_string())
    );
    assert_eq!(config.get_config_value("defaults.interpreter.py"), None);
}

#[test]
fn test_set_confirm_before_run() {
    let mut config = test_config();

    config.set_config_value("execution.confirm_before_run", "true").unwrap();
    assert_eq!(
        config.get_config_value("execution.confirm_before_run"),
        Some("true".to_string())
    );

    config.set_config_value("execution.confirm_before_run", "false").unwrap();
    assert_eq!(
        config.get_config_value("execution.confirm_before_run"),
        Some("false".to_string())
    );

    let err = config.set_config_value("execution.confirm_before_run", "maybe");
    assert!(matches!(err.unwrap_err(), GistCacheError::Config(_)));
}

#[test]
fn test_set_retention_days() {
    let mut config = test_config();

    config.set_config_value("cache.retention_days", "30").unwrap();
    assert_eq!(
        config.get_config_value("cache.retention_days"),
        Some("30".to_string())
    );

    let err = config.set_config_value("cache.retention_days", "soon");
    assert!(matches!(err.unwrap_err(), GistCacheError::Config(_)));

    // far beyond what fits in the field
    let err = config.set_config_value("cache.retention_days", "99999999999999999999");
    assert!(matches!(err.unwrap_err(), GistCacheError::Config(_)));
}

#[test]
fn test_set_unknown_key() {
    let mut config = test_config();
    let err = config.set_config_value("no.such.key", "value");
    assert!(matches!(err.unwrap_err(), GistCacheError::Config(_)));
    assert_eq!(config.get_config_value("no.such.key"), None);
}

#[test]
fn test_interpreter_summary_without_wildcard() {
    let mut config = test_config();
    config.set_config_value("defaults.interpreter.py", "python3").unwrap();
    config.set_config_value("defaults.interpreter.rb", "ruby").unwrap();

    assert_eq!(
        config.get_config_value("defaults.interpreter"),
        Some("2 extensions configured".to_string())
    );
}

#[test]
fn test_nested_set_replaces_existing_entry() {
    let mut config = test_config();
    config.set_config_value("defaults.interpreter.py", "python3").unwrap();
    config.set_config_value("defaults.interpreter.py", "uv").unwrap();

    assert_eq!(
        config.get_config_value("defaults.interpreter.py"),
        Some("uv".to_string())
    );
    assert_eq!(
        config.get_config_value("defaults.interpreter"),
        Some("1 extensions configured".to_string())
    );
}
