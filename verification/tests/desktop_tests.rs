use sync_image::client::ClientActionState;
use sync_image::config::{AuthMethod, ClientConfig, UploadConfig};
use sync_image::desktop::{
    map_client_action, runtime_status_label, CommandResponse, ConfigDraft, InteractionReplyDto,
    InteractionRequestDto,
};
use sync_image::interaction::{InteractionRequest, InteractionResponse, TrustHostKeyRequest};
use sync_image::runtime::RuntimeStatus;

fn config() -> ClientConfig {
    ClientConfig {
        user_name: "alice".to_string(),
        hotkey: "Ctrl+Alt+U".to_string(),
        upload: UploadConfig {
            host: "upload.internal".to_string(),
            port: 22,
            user: "uploader".to_string(),
            auth_method: AuthMethod::Key,
            private_key_path: "key".to_string(),
            password: None,
            shared_image_root: "/srv/images".to_string(),
        },
    }
}

#[test]
fn draft_round_trips_a_key_config() {
    let back = ConfigDraft::from_client_config(config()).try_into_client_config().expect("valid");
    let original = config();
    assert_eq!(back.user_name, original.user_name);
    assert_eq!(back.upload.host, original.upload.host);
    assert_eq!(back.upload.private_key_path, original.upload.private_key_path);
    assert_eq!(back.upload.auth_method, AuthMethod::Key);
    assert!(back.upload.password.is_none());
}

#[test]
fn empty_draft_is_refused_with_message() {
    let draft = ConfigDraft::default();
    assert_eq!(draft.hotkey, "Ctrl+Alt+U");
    assert_eq!(draft.upload.port, 22);
    assert_eq!(draft.try_into_client_config().unwrap_err(), "user_name is required");
}

#[test]
fn maps_actions_and_questions() {
    match map_client_action(ClientActionState::Ready(()), "Connection check passed.").unwrap() {
        CommandResponse::Completed { message, runtime_status } => {
            assert_eq!(message, "Connection check passed.");
            assert!(runtime_status.is_none());
        }
        other => panic!("unexpected {other:?}"),
    }
    let q = InteractionRequest::TrustHostKey(TrustHostKeyRequest {
        host: "h".to_string(),
        port: 22,
        fingerprint: "ff".to_string(),
    });
    match map_client_action(ClientActionState::NeedsInteraction(q), "x").unwrap() {
        CommandResponse::NeedsInteraction {
            request: InteractionRequestDto::TrustHostKey { host, port, fingerprint },
        } => {
            assert_eq!((host.as_str(), port, fingerprint.as_str()), ("h", 22, "ff"));
        }
        other => panic!("unexpected {other:?}"),
    }
}

#[test]
fn replies_become_answers() {
    assert_eq!(
        InteractionReplyDto::TrustHostKey { trusted: true }.into_interaction_response(),
        InteractionResponse::TrustHostKey(true)
    );
    assert_eq!(
        InteractionReplyDto::PrivateKeyPassphrase { passphrase: "p".to_string() }
            .into_interaction_response(),
        InteractionResponse::PrivateKeyPassphrase("p".to_string())
    );
    assert_eq!(runtime_status_label(RuntimeStatus::Running), "running");
    assert_eq!(runtime_status_label(RuntimeStatus::Stopped), "stopped");
}
