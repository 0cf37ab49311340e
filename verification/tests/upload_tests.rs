use sync_image::upload::{upload_retry_step, UploadAction, UploadPhase};
use sync_image::client::ClientActionState;
use sync_image::config::{AuthMethod, ClientConfig, UploadConfig};
use sync_image::interaction::{InteractionRequest, InteractionResponse};
use sync_image::upload::{
    action_from_connect, after_key_attempt, capture_password, decide_host_key,
    host_key_cache_file_name, password_for_login, sha256_hex, ConnectError, ConnectFailure,
    HostKeyAction, KeyAttempt, KeyAuthStep,
};

fn config(auth_method: AuthMethod, password: Option<&str>) -> ClientConfig {
    ClientConfig {
        user_name: "alice".to_string(),
        hotkey: "Ctrl+Alt+U".to_string(),
        upload: UploadConfig {
            host: "upload.internal".to_string(),
            port: 2222,
            user: "uploader".to_string(),
            auth_method,
            private_key_path: "id_ed25519".to_string(),
            password: password.map(|p| p.to_string()),
            shared_image_root: "/srv/images".to_string(),
        },
    }
}

#[test]
fn unknown_host_key_asks_then_remembers() {
    match decide_host_key("h", 22, "abcd", None, None) {
        Err(ConnectError::NeedsInteraction(InteractionRequest::TrustHostKey(q))) => {
            assert_eq!(q.host, "h");
            assert_eq!(q.port, 22);
            assert_eq!(q.fingerprint, "abcd");
        }
        other => panic!("unexpected {other:?}"),
    }
    match decide_host_key("h", 22, "abcd", None, Some(InteractionResponse::TrustHostKey(false))) {
        Err(ConnectError::Failed(f)) => assert_eq!(f.message(), "host key was not trusted"),
        other => panic!("unexpected {other:?}"),
    }
    let contents = match decide_host_key(
        "h",
        22,
        "abcd",
        None,
        Some(InteractionResponse::TrustHostKey(true)),
    ) {
        Ok(HostKeyAction::Remember(contents)) => contents,
        other => panic!("unexpected {other:?}"),
    };
    assert_eq!(contents, "abcd\n");
    assert!(matches!(
        decide_host_key("h", 22, "abcd", Some(contents), None),
        Ok(HostKeyAction::AlreadyTrusted)
    ));
}

#[test]
fn changed_host_key_fails() {
    match decide_host_key("h", 22, "ffff", Some(" abcd \n".to_string()), None) {
        Err(ConnectError::Failed(f)) => assert_eq!(
            f.message(),
            "upload host key changed for h:22; expected abcd, got ffff"
        ),
        other => panic!("unexpected {other:?}"),
    }
}

#[test]
fn fingerprint_is_lower_hex_sha256() {
    assert_eq!(
        sha256_hex(b"abc"),
        "ba7816bf8f01cfea414140de5dae2223b00361a396177a9cb410ff61f20015ad"
    );
}

#[test]
fn cache_file_name_is_sanitized() {
    assert_eq!(
        host_key_cache_file_name("upload.internal:x y", 2222),
        "upload.internal_x_y_2222.sha256"
    );
    assert_eq!(host_key_cache_file_name("A-b", 22), "A-b_22.sha256");
}

#[test]
fn password_comes_from_config_then_answer() {
    let stored = config(AuthMethod::Password, Some("s3cret"));
    assert_eq!(password_for_login(&stored, None).unwrap(), "s3cret");
    let asked = config(AuthMethod::Password, None);
    assert_eq!(
        password_for_login(&asked, Some(InteractionResponse::Password("typed".to_string())))
            .unwrap(),
        "typed"
    );
    match password_for_login(&asked, Some(InteractionResponse::TrustHostKey(true))) {
        Err(ConnectError::NeedsInteraction(InteractionRequest::Password(q))) => {
            assert_eq!(q.host, "upload.internal");
            assert_eq!(q.port, 2222);
            assert_eq!(q.user, "uploader");
        }
        other => panic!("unexpected {other:?}"),
    }
}

#[test]
fn key_authentication_steps() {
    let cfg = config(AuthMethod::Key, None);
    assert!(matches!(after_key_attempt(KeyAttempt::Authenticated, &cfg, None), Ok(KeyAuthStep::Done)));
    match after_key_attempt(KeyAttempt::Incomplete, &cfg, None) {
        Err(ConnectError::Failed(f)) => {
            assert_eq!(f.message(), "private key authentication did not complete")
        }
        other => panic!("unexpected {other:?}"),
    }
    match after_key_attempt(
        KeyAttempt::Rejected,
        &cfg,
        Some(InteractionResponse::PrivateKeyPassphrase("pw".to_string())),
    ) {
        Ok(KeyAuthStep::RetryWithPassphrase(p)) => assert_eq!(p, "pw"),
        other => panic!("unexpected {other:?}"),
    }
    match after_key_attempt(KeyAttempt::Rejected, &cfg, None) {
        Err(ConnectError::NeedsInteraction(InteractionRequest::PrivateKeyPassphrase(q))) => {
            assert_eq!(q.private_key_path, "id_ed25519")
        }
        other => panic!("unexpected {other:?}"),
    }
}

#[test]
fn captures_only_a_typed_password() {
    let typed = Some(InteractionResponse::Password("typed".to_string()));
    let (cfg, captured) = capture_password(config(AuthMethod::Password, None), typed.clone());
    assert_eq!(captured.as_deref(), Some("typed"));
    assert_eq!(cfg.upload.password.as_deref(), Some("typed"));
    let (cfg, captured) = capture_password(config(AuthMethod::Password, Some("old")), typed.clone());
    assert!(captured.is_none());
    assert_eq!(cfg.upload.password.as_deref(), Some("old"));
    let (_, captured) = capture_password(config(AuthMethod::Key, None), typed);
    assert!(captured.is_none());
}

#[test]
fn connect_outcomes_become_actions() {
    assert!(matches!(action_from_connect(Ok::<u8, ConnectError>(3)), Ok(ClientActionState::Ready(3))));
    let q = InteractionRequest::Password(sync_image::interaction::PasswordRequest {
        host: "h".to_string(),
        port: 1,
        user: "u".to_string(),
    });
    match action_from_connect::<u8>(Err(ConnectError::NeedsInteraction(q.clone()))) {
        Ok(ClientActionState::NeedsInteraction(p)) => assert_eq!(p, q),
        other => panic!("unexpected {other:?}"),
    }
    assert!(matches!(
        action_from_connect::<u8>(Err(ConnectError::Failed(ConnectFailure::KeyAuthIncomplete))),
        Err(ConnectFailure::KeyAuthIncomplete)
    ));
}

#[test]
fn uploads_retry_once_after_reconnecting() {
    assert_eq!(upload_retry_step(UploadPhase::FirstTry, true), UploadAction::Done);
    assert_eq!(upload_retry_step(UploadPhase::FirstTry, false), UploadAction::Reconnect);
    assert_eq!(upload_retry_step(UploadPhase::Reconnecting, true), UploadAction::UploadAgain);
    assert_eq!(upload_retry_step(UploadPhase::Reconnecting, false), UploadAction::GiveUp);
    assert_eq!(upload_retry_step(UploadPhase::Retry, true), UploadAction::Done);
    assert_eq!(upload_retry_step(UploadPhase::Retry, false), UploadAction::GiveUp);
}
