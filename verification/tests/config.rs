use helix::config::loader::{
    apply_env_overrides, config_file_paths, config_home_dir, join_path_str, load_config, ConfigSource,
    EnvOverrides,
};
use helix::config::validator::validate;
use helix::config::{default_tracking_method, Config};
use helix::HelixError;

fn no_overrides() -> EnvOverrides {
    EnvOverrides { block_size: None, compression_level: None, repository_path: None, encryption_key: None, log_level: None }
}

#[test]
fn test_default_config_loads() {
    let config = match load_config(None, None, &no_overrides(), "linux") {
        ConfigSource::Settings(c) => c,
        ConfigSource::File(f) => panic!("unexpected file {}", f),
    };
    assert_eq!(config.block_size, 4096);
    assert_eq!(config.compression_level, 3);
}

#[test]
fn test_valid_default_config() {
    let config = Config::default_for("linux");
    assert!(validate(&config).is_ok());
}

#[test]
fn test_invalid_block_size() {
    let config = Config { block_size: 1234, ..Config::default_for("linux") };
    assert!(validate(&config).is_err());
}

#[test]
fn test_encryption_without_key() {
    let mut config = Config::default_for("linux");
    config.encryption.enabled = true;
    assert!(validate(&config).is_err());
}

#[test]
fn validation_message_lists_every_problem() {
    let mut config = Config::default_for("linux");
    config.block_size = 1000;
    config.compression_level = 0;
    match validate(&config) {
        Err(HelixError::Configuration(m)) => assert_eq!(
            m,
            "Configuration validation failed:\n  - Block size 1000 is not a power of two\n  - Compression level 0 is outside valid range (1-22)"
        ),
        _ => panic!("expected a configuration error"),
    }
}

#[test]
fn validation_of_names() {
    let mut config = Config::default_for("macos");
    config.logging.level = "loud".to_string();
    config.tracking.method = "manual".to_string();
    match validate(&config) {
        Err(HelixError::Configuration(m)) => assert_eq!(
            m,
            "Configuration validation failed:\n  - Invalid log level 'loud'. Valid options: [\"trace\", \"debug\", \"info\", \"warn\", \"error\"]"
        ),
        _ => panic!("expected a configuration error"),
    }
    let mut config = Config::default_for("linux");
    config.encryption.enabled = true;
    config.encryption.key_path = Some("k".to_string());
    config.encryption.cipher = "rot13".to_string();
    config.block_size = 2097152;
    match validate(&config) {
        Err(HelixError::Configuration(m)) => assert_eq!(
            m,
            "Configuration validation failed:\n  - Block size 2097152 is outside supported range (512 - 1,048,576)\n  - Unsupported cipher: rot13"
        ),
        _ => panic!("expected a configuration error"),
    }
}

#[test]
fn tracking_method_by_platform() {
    assert_eq!(default_tracking_method("linux"), "dm-era");
    assert_eq!(default_tracking_method("macos"), "fsevents");
    assert_eq!(default_tracking_method("windows"), "bitmap");
    assert_eq!(Config::default_for("freebsd").tracking.method, "bitmap");
}

#[test]
fn environment_overrides() {
    let vars = EnvOverrides {
        block_size: Some("8192".to_string()),
        compression_level: Some("-5".to_string()),
        repository_path: Some("/srv/backups".to_string()),
        encryption_key: Some("/etc/key".to_string()),
        log_level: Some("debug".to_string()),
    };
    let c = apply_env_overrides(Config::default_for("linux"), &vars).unwrap();
    assert_eq!(c.block_size, 8192);
    assert_eq!(c.compression_level, -5);
    assert_eq!(c.storage.repository_path, "/srv/backups");
    assert!(c.encryption.enabled);
    assert_eq!(c.encryption.key_path.as_deref(), Some("/etc/key"));
    assert_eq!(c.logging.level, "debug");
    assert_eq!(c.encryption.cipher, "aes-256-gcm");

    let bad = EnvOverrides { block_size: Some("big".to_string()), ..no_overrides() };
    assert!(apply_env_overrides(Config::default_for("linux"), &bad).is_none());
    match load_config(None, None, &bad, "linux") {
        ConfigSource::Settings(c) => assert_eq!(c.block_size, 4096),
        ConfigSource::File(_) => panic!("expected settings"),
    }
}

#[test]
fn load_config_prefers_files() {
    match load_config(Some("/tmp/a.yaml"), Some("/etc/helix/config.yaml"), &no_overrides(), "linux") {
        ConfigSource::File(f) => assert_eq!(f, "/tmp/a.yaml"),
        ConfigSource::Settings(_) => panic!("expected a file"),
    }
    match load_config(None, Some("/etc/helix/config.yaml"), &no_overrides(), "linux") {
        ConfigSource::File(f) => assert_eq!(f, "/etc/helix/config.yaml"),
        ConfigSource::Settings(_) => panic!("expected a file"),
    }
}

#[test]
fn candidate_files_in_order() {
    let paths = config_file_paths(Some("/work"), Some("/home/u/.config"));
    assert_eq!(
        paths,
        vec![
            "/work/helix.yaml",
            "/work/helix.yml",
            "/work/config.yaml",
            "/work/helix.config.yaml",
            "/home/u/.config/helix/config.yaml",
            "/etc/helix/config.yaml"
        ]
    );
    assert_eq!(config_file_paths(None, None), vec!["/etc/helix/config.yaml"]);
    assert_eq!(join_path_str("/a/", "b"), "/a/b");
    assert_eq!(join_path_str("", "b"), "b");
}

#[test]
fn config_home_by_platform() {
    assert_eq!(config_home_dir("linux", Some("/x"), Some("/home/u")).as_deref(), Some("/x"));
    assert_eq!(config_home_dir("linux", None, Some("/home/u")).as_deref(), Some("/home/u/.config"));
    assert_eq!(
        config_home_dir("macos", None, Some("/Users/u")).as_deref(),
        Some("/Users/u/Library/Application Support")
    );
    assert_eq!(config_home_dir("windows", Some("/x"), None), None);
    assert_eq!(config_home_dir("windows", None, Some("C:/u")).as_deref(), Some("C:/u"));
}
