use aubo_rs::config::{validate_settings, HookConfig, HookFunction, LoggingConfig, StatsConfig};
use aubo_rs::error::ConfigError;

#[test]
fn test_hook_function_config() {
    let hook = HookFunction {
        name: "getaddrinfo".to_string(),
        library: "libc.so".to_string(),
        enabled: true,
        priority: 100,
    };

    assert_eq!(hook.name, "getaddrinfo");
    assert_eq!(hook.library, "libc.so");
    assert!(hook.enabled);
    assert_eq!(hook.priority, 100);
}

#[test]
fn default_hooks_are_the_three_libc_functions() {
    let config = HookConfig::default();
    assert!(config.enabled);
    let names: Vec<&str> = config.hook_functions.iter().map(|h| h.name.as_str()).collect();
    assert_eq!(names, vec!["getaddrinfo", "gethostbyname", "connect"]);
    assert_eq!(config.analysis_timeout, std::time::Duration::from_millis(100));
}

#[test]
fn log_levels() {
    let mut config = LoggingConfig::default();
    for level in &["error", "warn", "info", "debug", "trace"] {
        config.level = level.to_string();
        assert!(config.has_valid_level());
    }
    config.level = "invalid".to_string();
    assert!(!config.has_valid_level());
    assert!(StatsConfig::default().enabled);
}

#[test]
fn settings_are_checked_in_order() {
    let logging = LoggingConfig::default();
    assert!(validate_settings(64, 100000, 4, &logging).is_ok());
    let key_of = |r: Result<(), ConfigError>| match r {
        Err(ConfigError::InvalidValue { key, .. }) => key,
        other => panic!("unexpected {:?}", other),
    };
    assert_eq!(key_of(validate_settings(0, 0, 0, &logging)), "general.max_memory_mb");
    assert_eq!(key_of(validate_settings(64, 0, 0, &logging)), "filters.max_rules");
    assert_eq!(key_of(validate_settings(64, 1, 0, &logging)), "performance.worker_threads");
    let mut bad = LoggingConfig::default();
    bad.level = "invalid".to_string();
    assert_eq!(key_of(validate_settings(64, 1, 2, &bad)), "logging.level");
}
