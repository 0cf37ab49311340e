use sync_image::config::{
    default_config_base, default_hotkey, default_port, require_non_empty, AuthMethod, ClientConfig,
    ConfigBase, ConfigError, UploadConfig, DEFAULT_HOTKEY,
};

fn key_config() -> ClientConfig {
    ClientConfig {
        user_name: "alice".to_string(),
        hotkey: default_hotkey(),
        upload: UploadConfig {
            host: "upload.internal".to_string(),
            port: default_port(),
            user: "upload-user".to_string(),
            auth_method: AuthMethod::default(),
            private_key_path: "C:\\Users\\alice\\.ssh\\id_ed25519".to_string(),
            password: None,
            shared_image_root: "/mnt/share/images".to_string(),
        },
    }
}

fn password_config(password: Option<&str>) -> ClientConfig {
    let mut config = key_config();
    config.upload.auth_method = AuthMethod::Password;
    config.upload.private_key_path = String::new();
    config.upload.password = password.map(|p| p.to_string());
    config
}

#[test]
fn defaults_are_the_documented_ones() {
    assert_eq!(default_hotkey(), "Ctrl+Alt+U");
    assert_eq!(DEFAULT_HOTKEY, "Ctrl+Alt+U");
    assert_eq!(default_port(), 22);
    assert_eq!(AuthMethod::default(), AuthMethod::Key);
}

#[test]
fn accepts_minimal_key_config() {
    assert!(key_config().validate().is_ok());
}

#[test]
fn accepts_password_config_without_private_key() {
    assert!(password_config(Some("s3cret")).validate().is_ok());
}

#[test]
fn accepts_password_config_without_password() {
    assert!(password_config(None).validate().is_ok());
}

#[test]
fn rejects_empty_password_in_password_mode_config() {
    let err = password_config(Some("")).validate().expect_err("empty password should fail");
    assert!(matches!(err, ConfigError::EmptyPassword));
    assert!(err.message().contains("upload.password"));
}

#[test]
fn rejects_path_like_user_name_config() {
    let mut config = key_config();
    config.user_name = "../alice".to_string();
    let err = config.validate().expect_err("path-like user name should fail");
    assert!(err.message().contains("user_name"));
}

#[test]
fn rejects_key_mode_without_private_key() {
    let mut config = key_config();
    config.upload.private_key_path = String::new();
    let err = config.validate().expect_err("missing key");
    assert_eq!(
        err.message(),
        "upload.private_key_path is required when upload.auth_method = \"key\""
    );
}

#[test]
fn rejects_blank_fields_in_order() {
    let mut config = key_config();
    config.upload.user = " \t".to_string();
    config.upload.shared_image_root = String::new();
    assert_eq!(config.validate().unwrap_err().message(), "upload.user is required");
    config.upload.host = "\u{3000}".to_string();
    assert_eq!(config.validate().unwrap_err().message(), "upload.host is required");
}

#[test]
fn rejects_port_zero_and_bad_hotkey() {
    let mut config = key_config();
    config.upload.port = 0;
    assert_eq!(
        config.validate().unwrap_err().message(),
        "upload.port must be between 1 and 65535"
    );
    config.hotkey = "Ctrl".to_string();
    assert!(matches!(config.validate().unwrap_err(), ConfigError::Hotkey(_)));
}

#[test]
fn requires_non_blank_values() {
    assert!(require_non_empty("upload.host", "h").is_ok());
    let err = require_non_empty("upload.host", "   ").unwrap_err();
    assert_eq!(err.message(), "upload.host is required");
}

#[test]
fn picks_config_base_in_order() {
    assert_eq!(
        default_config_base(Some("A".to_string()), Some("H".to_string())),
        ConfigBase::AppData("A".to_string())
    );
    assert_eq!(
        default_config_base(None, Some("H".to_string())),
        ConfigBase::HomeConfig("H".to_string())
    );
    assert_eq!(default_config_base(None, None), ConfigBase::WorkingDirectory);
}
