//! The client configuration and its validation rules.

use vstd::prelude::*;
use vstd::string::*;

use crate::hotkey::{error_is, parse_hotkey, Hotkey, HotkeyError};
use crate::paths::{broken_user_name_rule, is_valid_user_name, validate_user_name, UserNameError};
use crate::text::{all_white_space, chars_of, is_blank, string_from_str};

verus! {

/// The hotkey used when the configuration names none.
pub const DEFAULT_HOTKEY: &'static str = "Ctrl+Alt+U";

/// The configuration file below the per-user configuration directory.
pub const DEFAULT_CONFIG_RELATIVE_PATH: &'static str = "image-sync/config.toml";

/// How the client authenticates to the upload host.
#[derive(Debug, Clone, Copy, PartialEq, Eq, Structural)]
pub enum AuthMethod {
    /// SSH public-key authentication using `private_key_path`.
    Key,
    /// SSH password authentication using `password`.
    Password,
}

impl Default for AuthMethod {
    fn default() -> (m: AuthMethod)
        ensures
            m == AuthMethod::Key,
    {
        AuthMethod::Key
    }
}

/// Where and how images are uploaded.
#[derive(Debug, Clone)]
pub struct UploadConfig {
    pub host: String,
    pub port: u16,
    pub user: String,
    /// Authentication method; key authentication unless the file says otherwise.
    pub auth_method: AuthMethod,
    /// Private key path, required for key authentication; empty when absent.
    pub private_key_path: String,
    /// SSH password for password authentication; when absent it is asked for.
    pub password: Option<String>,
    pub shared_image_root: String,
}

/// The Windows client configuration.
#[derive(Debug, Clone)]
pub struct ClientConfig {
    pub user_name: String,
    pub hotkey: String,
    pub upload: UploadConfig,
}

/// Why a configuration is rejected.
#[derive(Debug, Clone)]
pub enum ConfigError {
    UserName(UserNameError),
    Hotkey(HotkeyError),
    /// A required text field (named by its dotted path) is blank.
    MissingField(String),
    /// The port is 0.
    InvalidPort,
    /// Key authentication without a private key path.
    MissingPrivateKeyPath,
    /// Password authentication with an empty password.
    EmptyPassword,
}

/// The dotted names of the required text fields.
pub open spec fn field_host() -> Seq<char> {
    "upload.host"@
}

pub open spec fn field_user() -> Seq<char> {
    "upload.user"@
}

pub open spec fn field_root() -> Seq<char> {
    "upload.shared_image_root"@
}

pub open spec fn auth_is_valid(u: UploadConfig) -> bool {
    match u.auth_method {
        AuthMethod::Key => u.private_key_path@.len() > 0,
        AuthMethod::Password => match u.password {
            Some(p) => p@.len() > 0,
            None => true,
        },
    }
}

/// Every rule of a configuration holds.
pub open spec fn config_is_valid(c: ClientConfig) -> bool {
    &&& is_valid_user_name(c.user_name@)
    &&& parse_hotkey(c.hotkey@) is Ok
    &&& !is_blank(c.upload.host@)
    &&& !is_blank(c.upload.user@)
    &&& !is_blank(c.upload.shared_image_root@)
    &&& c.upload.port != 0
    &&& auth_is_valid(c.upload)
}

/// The error is the one for the first rule, in the order they are checked,
/// that the configuration breaks.
pub open spec fn error_fits(e: ConfigError, c: ClientConfig) -> bool {
    let name_ok = is_valid_user_name(c.user_name@);
    let hotkey_ok = parse_hotkey(c.hotkey@) is Ok;
    let host_ok = !is_blank(c.upload.host@);
    let user_ok = !is_blank(c.upload.user@);
    let root_ok = !is_blank(c.upload.shared_image_root@);
    match e {
        ConfigError::UserName(u) => broken_user_name_rule(c.user_name@) == Some(u.rule)
            && u.user_name@ == c.user_name@,
        ConfigError::Hotkey(h) => name_ok && (parse_hotkey(c.hotkey@) matches Err(f) && error_is(
            h,
            f,
        )),
        ConfigError::MissingField(f) => name_ok && hotkey_ok && (if !host_ok {
            f@ == field_host()
        } else if !user_ok {
            f@ == field_user()
        } else {
            !root_ok && f@ == field_root()
        }),
        ConfigError::InvalidPort => name_ok && hotkey_ok && host_ok && user_ok && root_ok
            && c.upload.port == 0,
        ConfigError::MissingPrivateKeyPath => name_ok && hotkey_ok && host_ok && user_ok
            && root_ok && c.upload.port != 0 && c.upload.auth_method == AuthMethod::Key
            && c.upload.private_key_path@.len() == 0,
        ConfigError::EmptyPassword => name_ok && hotkey_ok && host_ok && user_ok && root_ok
            && c.upload.port != 0 && c.upload.auth_method == AuthMethod::Password && (
        c.upload.password matches Some(p) && p@.len() == 0),
    }
}

/// The hotkey used when the configuration names none: `Ctrl+Alt+U`.
pub fn default_hotkey() -> (h: String)
    ensures
        h@ == DEFAULT_HOTKEY@,
{
    string_from_str(DEFAULT_HOTKEY)
}

/// The SSH port used when the configuration names none.
pub fn default_port() -> (p: u16)
    ensures
        p == 22,
{
    22
}

/// Fails, naming the field, when the value is empty or white space only.
pub fn require_non_empty(field: &str, value: &str) -> (r: Result<(), ConfigError>)
    ensures
        r is Ok <==> !is_blank(value@),
        r matches Err(e) ==> (e matches ConfigError::MissingField(f) && f@ == field@),
{
    let chars = chars_of(value);
    if all_white_space(&chars) {
        Err(ConfigError::MissingField(string_from_str(field)))
    } else {
        Ok(())
    }
}

impl ClientConfig {
    /// Checks every rule of the configuration: a single-component user name,
    /// a valid hotkey, non-blank host, user and storage root, a non-zero
    /// port, a private key path for key authentication and no empty password
    /// for password authentication.
    pub fn validate(&self) -> (r: Result<(), ConfigError>)
        ensures
            r is Ok <==> config_is_valid(*self),
            r matches Err(e) ==> error_fits(e, *self),
    {
        match validate_user_name(self.user_name.as_str()) {
            Err(e) => {
                return Err(ConfigError::UserName(e));
            },
            Ok(()) => {},
        }
        match Hotkey::parse(self.hotkey.as_str()) {
            Err(e) => {
                return Err(ConfigError::Hotkey(e));
            },
            Ok(_) => {},
        }
        require_non_empty("upload.host", self.upload.host.as_str())?;
        require_non_empty("upload.user", self.upload.user.as_str())?;
        require_non_empty("upload.shared_image_root", self.upload.shared_image_root.as_str())?;
        if self.upload.port == 0 {
            return Err(ConfigError::InvalidPort);
        }
        match self.upload.auth_method {
            AuthMethod::Key => {
                if self.upload.private_key_path.as_str().is_empty() {
                    return Err(ConfigError::MissingPrivateKeyPath);
                }
            },
            AuthMethod::Password => {
                match &self.upload.password {
                    Some(p) => {
                        if p.as_str().is_empty() {
                            return Err(ConfigError::EmptyPassword);
                        }
                    },
                    None => {},
                }
            },
        }
        Ok(())
    }
}

impl ConfigError {
    /// The message that explains the rejection.
    pub fn message(&self) -> (m: String)
        ensures
            m@ == config_message(*self),
    {
        match self {
            ConfigError::UserName(e) => e.message(),
            ConfigError::Hotkey(e) => e.message(),
            ConfigError::MissingField(f) => {
                let mut m = f.clone();
                m.append(" is required");
                m
            },
            ConfigError::InvalidPort => String::from_str("upload.port must be between 1 and 65535"),
            ConfigError::MissingPrivateKeyPath => String::from_str(
                "upload.private_key_path is required when upload.auth_method = \"key\"",
            ),
            ConfigError::EmptyPassword => String::from_str(
                "upload.password must not be empty when upload.auth_method = \"password\"",
            ),
        }
    }
}

pub open spec fn config_message(e: ConfigError) -> Seq<char> {
    match e {
        ConfigError::UserName(u) => crate::paths::user_name_message(u.rule, u.user_name@),
        ConfigError::Hotkey(h) => crate::hotkey::hotkey_message(h.rule, h.token@),
        ConfigError::MissingField(f) => f@ + " is required"@,
        ConfigError::InvalidPort => "upload.port must be between 1 and 65535"@,
        ConfigError::MissingPrivateKeyPath =>
            "upload.private_key_path is required when upload.auth_method = \"key\""@,
        ConfigError::EmptyPassword =>
            "upload.password must not be empty when upload.auth_method = \"password\""@,
    }
}

/// The port rule refuses port 0 and nothing else: two configurations that
/// differ only in a non-zero port are both valid or both invalid, and the
/// port error comes only for port 0.
pub proof fn lemma_any_nonzero_port(c: ClientConfig, port: u16)
    requires
        port != 0,
        c.upload.port != 0,
    ensures
        config_is_valid(c) <==> config_is_valid(
            ClientConfig { upload: UploadConfig { port: port, ..c.upload }, ..c },
        ),
        error_fits(ConfigError::InvalidPort, c) ==> c.upload.port == 0,
{
}

/// The directory that holds the configuration directory: `APPDATA` when it is
/// set, else `.config` below `HOME`, else the working directory.
#[derive(Debug, Clone, PartialEq, Eq)]
pub enum ConfigBase {
    AppData(String),
    HomeConfig(String),
    WorkingDirectory,
}

/// Picks the base of the default configuration path from the values of the
/// `APPDATA` and `HOME` environment variables.
pub fn default_config_base(appdata: Option<String>, home: Option<String>) -> (b: ConfigBase)
    ensures
        match appdata {
            Some(a) => b == ConfigBase::AppData(a),
            None => match home {
                Some(h) => b == ConfigBase::HomeConfig(h),
                None => b == ConfigBase::WorkingDirectory,
            },
        },
{
    match appdata {
        Some(a) => ConfigBase::AppData(a),
        None => match home {
            Some(h) => ConfigBase::HomeConfig(h),
            None => ConfigBase::WorkingDirectory,
        },
    }
}

} // verus!
