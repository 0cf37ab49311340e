//! The desktop control panel's editable configuration and its replies.

use vstd::prelude::*;
use vstd::string::*;

use crate::client::ClientActionState;
use crate::config::{
    config_is_valid, config_message, error_fits, AuthMethod, ClientConfig, ConfigError,
    UploadConfig,
};
use crate::interaction::{InteractionRequest, InteractionResponse};
use crate::runtime::RuntimeStatus;

verus! {

/// The configuration as the panel edits it.
#[derive(Debug, Clone)]
pub struct ConfigDraft {
    pub user_name: String,
    pub hotkey: String,
    pub upload: UploadDraft,
}

/// The upload settings as the panel edits them.
#[derive(Debug, Clone)]
pub struct UploadDraft {
    pub host: String,
    pub port: u16,
    pub user: String,
    pub private_key_path: String,
    pub shared_image_root: String,
}

/// The reply to a panel command: completed (with its message and, for
/// runtime commands, the runtime status), or a question for the user.
#[derive(Debug, Clone)]
pub enum CommandResponse {
    Completed { message: String, runtime_status: Option<&'static str> },
    NeedsInteraction { request: InteractionRequestDto },
}

/// A question for the panel to show.
#[derive(Debug, Clone)]
pub enum InteractionRequestDto {
    TrustHostKey { host: String, port: u16, fingerprint: String },
    PrivateKeyPassphrase { private_key_path: String },
    Password { host: String, port: u16, user: String },
}

/// The panel's answer to a question.
#[derive(Debug, Clone)]
pub enum InteractionReplyDto {
    TrustHostKey { trusted: bool },
    PrivateKeyPassphrase { passphrase: String },
    Password { password: String },
}

/// The configuration that a draft stands for: key authentication, no
/// stored password.
pub open spec fn draft_config(d: ConfigDraft) -> ClientConfig {
    ClientConfig {
        user_name: d.user_name,
        hotkey: d.hotkey,
        upload: UploadConfig {
            host: d.upload.host,
            port: d.upload.port,
            user: d.upload.user,
            auth_method: AuthMethod::Key,
            private_key_path: d.upload.private_key_path,
            password: None,
            shared_image_root: d.upload.shared_image_root,
        },
    }
}

impl ConfigDraft {
    /// The editable fields of a configuration.
    pub fn from_client_config(config: ClientConfig) -> (d: ConfigDraft)
        ensures
            d.user_name == config.user_name,
            d.hotkey == config.hotkey,
            d.upload.host == config.upload.host,
            d.upload.port == config.upload.port,
            d.upload.user == config.upload.user,
            d.upload.private_key_path == config.upload.private_key_path,
            d.upload.shared_image_root == config.upload.shared_image_root,
    {
        ConfigDraft {
            user_name: config.user_name,
            hotkey: config.hotkey,
            upload: UploadDraft {
                host: config.upload.host,
                port: config.upload.port,
                user: config.upload.user,
                private_key_path: config.upload.private_key_path,
                shared_image_root: config.upload.shared_image_root,
            },
        }
    }

    /// The configuration of the draft, if it is valid; else the message of
    /// the first rule it breaks.
    pub fn try_into_client_config(self) -> (r: Result<ClientConfig, String>)
        ensures
            r is Ok <==> config_is_valid(draft_config(self)),
            r matches Ok(c) ==> c == draft_config(self),
            r matches Err(m) ==> exists|e: ConfigError|
                error_fits(e, draft_config(self)) && m@ == #[trigger] config_message(e),
    {
        let config = ClientConfig {
            user_name: self.user_name,
            hotkey: self.hotkey,
            upload: UploadConfig {
                host: self.upload.host,
                port: self.upload.port,
                user: self.upload.user,
                auth_method: AuthMethod::Key,
                private_key_path: self.upload.private_key_path,
                password: None,
                shared_image_root: self.upload.shared_image_root,
            },
        };
        match config.validate() {
            Ok(()) => Ok(config),
            Err(e) => Err(e.message()),
        }
    }
}

impl Default for ConfigDraft {
    /// An empty draft with the default hotkey and port.
    fn default() -> (d: ConfigDraft)
        ensures
            d.user_name@ == Seq::<char>::empty(),
            d.hotkey@ == "Ctrl+Alt+U"@,
            d.upload.host@ == Seq::<char>::empty(),
            d.upload.port == 22,
            d.upload.user@ == Seq::<char>::empty(),
            d.upload.private_key_path@ == Seq::<char>::empty(),
            d.upload.shared_image_root@ == Seq::<char>::empty(),
    {
        ConfigDraft {
            user_name: String::new(),
            hotkey: String::from_str("Ctrl+Alt+U"),
            upload: UploadDraft {
                host: String::new(),
                port: 22,
                user: String::new(),
                private_key_path: String::new(),
                shared_image_root: String::new(),
            },
        }
    }
}

/// Editing a valid key-authentication configuration in the panel and saving
/// it without change gives back the same configuration.
pub proof fn lemma_draft_round_trip(c: ClientConfig, d: ConfigDraft)
    requires
        config_is_valid(c),
        c.upload.auth_method == AuthMethod::Key,
        c.upload.password is None,
        d.user_name == c.user_name,
        d.hotkey == c.hotkey,
        d.upload.host == c.upload.host,
        d.upload.port == c.upload.port,
        d.upload.user == c.upload.user,
        d.upload.private_key_path == c.upload.private_key_path,
        d.upload.shared_image_root == c.upload.shared_image_root,
    ensures
        draft_config(d) == c,
        config_is_valid(draft_config(d)),
{
}

impl InteractionRequestDto {
    /// The question in the panel's terms.
    pub fn from_request(request: InteractionRequest) -> (d: InteractionRequestDto)
        ensures
            match request {
                InteractionRequest::TrustHostKey(q) => d matches InteractionRequestDto::TrustHostKey {
                    host,
                    port,
                    fingerprint,
                } && host == q.host && port == q.port && fingerprint == q.fingerprint,
                InteractionRequest::PrivateKeyPassphrase(q) => d matches InteractionRequestDto::PrivateKeyPassphrase {
                    private_key_path,
                } && private_key_path == q.private_key_path,
                InteractionRequest::Password(q) => d matches InteractionRequestDto::Password {
                    host,
                    port,
                    user,
                } && host == q.host && port == q.port && user == q.user,
            },
    {
        match request {
            InteractionRequest::TrustHostKey(q) => InteractionRequestDto::TrustHostKey {
                host: q.host,
                port: q.port,
                fingerprint: q.fingerprint,
            },
            InteractionRequest::PrivateKeyPassphrase(q) => InteractionRequestDto::PrivateKeyPassphrase {
                private_key_path: q.private_key_path,
            },
            InteractionRequest::Password(q) => InteractionRequestDto::Password {
                host: q.host,
                port: q.port,
                user: q.user,
            },
        }
    }
}

impl InteractionReplyDto {
    /// The answer in the client's terms.
    pub fn into_interaction_response(self) -> (r: InteractionResponse)
        ensures
            r == match self {
                InteractionReplyDto::TrustHostKey { trusted } => InteractionResponse::TrustHostKey(
                    trusted,
                ),
                InteractionReplyDto::PrivateKeyPassphrase { passphrase } =>
                    InteractionResponse::PrivateKeyPassphrase(passphrase),
                InteractionReplyDto::Password { password } => InteractionResponse::Password(
                    password,
                ),
            },
    {
        match self {
            InteractionReplyDto::TrustHostKey { trusted } => InteractionResponse::TrustHostKey(
                trusted,
            ),
            InteractionReplyDto::PrivateKeyPassphrase { passphrase } =>
                InteractionResponse::PrivateKeyPassphrase(passphrase),
            InteractionReplyDto::Password { password } => InteractionResponse::Password(password),
        }
    }
}

/// The panel's reply to an action: the success message, or the question.
pub fn map_client_action(action: ClientActionState<()>, success_message: &str) -> (r: Result<
    CommandResponse,
    String,
>)
    ensures
        match action {
            ClientActionState::Ready(()) => r matches Ok(
                CommandResponse::Completed { message, runtime_status },
            ) && message@ == success_message@ && runtime_status is None,
            ClientActionState::NeedsInteraction(q) => r matches Ok(
                CommandResponse::NeedsInteraction { request },
            ) && request == InteractionRequestDto::from_request_spec(q),
        },
{
    match action {
        ClientActionState::Ready(()) => Ok(
            CommandResponse::Completed {
                message: String::from_str(success_message),
                runtime_status: None,
            },
        ),
        ClientActionState::NeedsInteraction(q) => {
            let request = InteractionRequestDto::from_request(q);
            proof {
                InteractionRequestDto::lemma_from_request(q, request);
            }
            Ok(CommandResponse::NeedsInteraction { request })
        },
    }
}

impl InteractionRequestDto {
    pub open spec fn from_request_spec(q: InteractionRequest) -> InteractionRequestDto {
        match q {
            InteractionRequest::TrustHostKey(t) => InteractionRequestDto::TrustHostKey {
                host: t.host,
                port: t.port,
                fingerprint: t.fingerprint,
            },
            InteractionRequest::PrivateKeyPassphrase(p) => InteractionRequestDto::PrivateKeyPassphrase {
                private_key_path: p.private_key_path,
            },
            InteractionRequest::Password(p) => InteractionRequestDto::Password {
                host: p.host,
                port: p.port,
                user: p.user,
            },
        }
    }

    proof fn lemma_from_request(q: InteractionRequest, d: InteractionRequestDto)
        requires
            match q {
                InteractionRequest::TrustHostKey(t) => d matches InteractionRequestDto::TrustHostKey {
                    host,
                    port,
                    fingerprint,
                } && host == t.host && port == t.port && fingerprint == t.fingerprint,
                InteractionRequest::PrivateKeyPassphrase(p) => d matches InteractionRequestDto::PrivateKeyPassphrase {
                    private_key_path,
                } && private_key_path == p.private_key_path,
                InteractionRequest::Password(p) => d matches InteractionRequestDto::Password {
                    host,
                    port,
                    user,
                } && host == p.host && port == p.port && user == p.user,
            },
        ensures
            d == Self::from_request_spec(q),
    {
    }
}

/// The panel's name of a runtime status.
pub fn runtime_status_label(status: RuntimeStatus) -> (s: &'static str)
    ensures
        s@ == match status {
            RuntimeStatus::Running => "running"@,
            RuntimeStatus::Stopped => "stopped"@,
        },
{
    match status {
        RuntimeStatus::Running => "running",
        RuntimeStatus::Stopped => "stopped",
    }
}

} // verus!
