use std::path::PathBuf;

use sync_image::client::{
    is_affirmative_answer, passphrase_response, resolve_interaction, trust_host_key_response,
    InteractionMismatch,
};
use sync_image::interaction::{
    InteractionRequest, InteractionResponse, PrivateKeyPassphraseRequest, TrustHostKeyRequest,
};

fn trust_request() -> InteractionRequest {
    InteractionRequest::TrustHostKey(TrustHostKeyRequest {
        host: "h".to_string(),
        port: 22,
        fingerprint: "ff".to_string(),
    })
}

fn passphrase_request() -> InteractionRequest {
    InteractionRequest::PrivateKeyPassphrase(PrivateKeyPassphraseRequest {
        private_key_path: PathBuf::from("id").to_string_lossy().into_owned(),
    })
}

#[test]
fn resolves_matching_answers_only() {
    assert_eq!(
        resolve_interaction(&trust_request(), Some(InteractionResponse::TrustHostKey(true))),
        Ok(InteractionResponse::TrustHostKey(true))
    );
    assert_eq!(
        resolve_interaction(
            &passphrase_request(),
            Some(InteractionResponse::PrivateKeyPassphrase("p".to_string()))
        ),
        Ok(InteractionResponse::PrivateKeyPassphrase("p".to_string()))
    );
    let err = resolve_interaction(&trust_request(), None).unwrap_err();
    assert_eq!(err.message(), "missing or mismatched interaction response");
    assert_eq!(
        resolve_interaction(
            &trust_request(),
            Some(InteractionResponse::PrivateKeyPassphrase("p".to_string()))
        ),
        Err(InteractionMismatch::MissingOrMismatchedResponse)
    );
}

#[test]
fn builds_answers_for_their_questions() {
    assert_eq!(
        trust_host_key_response(&trust_request(), false),
        Ok(InteractionResponse::TrustHostKey(false))
    );
    assert_eq!(
        trust_host_key_response(&passphrase_request(), true).unwrap_err().message(),
        "expected trust-host-key interaction"
    );
    assert_eq!(
        passphrase_response(&passphrase_request(), "x".to_string()),
        Ok(InteractionResponse::PrivateKeyPassphrase("x".to_string()))
    );
    assert_eq!(
        passphrase_response(&trust_request(), "x".to_string()).unwrap_err().message(),
        "expected passphrase interaction"
    );
}

#[test]
fn answers_expose_their_kind() {
    assert_eq!(InteractionResponse::TrustHostKey(true).expect_trust_host_key(), Some(true));
    assert_eq!(InteractionResponse::Password("p".to_string()).expect_trust_host_key(), None);
    assert_eq!(
        InteractionResponse::PrivateKeyPassphrase("k".to_string()).expect_private_key_passphrase(),
        Some("k".to_string())
    );
    assert_eq!(InteractionResponse::Password("p".to_string()).expect_password(), Some("p".to_string()));
    assert_eq!(InteractionResponse::TrustHostKey(false).expect_password(), None);
}

#[test]
fn yes_answers() {
    for yes in ["y", "Y", "yes", "YES", "  yes\n"] {
        assert!(is_affirmative_answer(yes), "{yes:?}");
    }
    for no in ["", "n", "Yes", "yess", "no"] {
        assert!(!is_affirmative_answer(no), "{no:?}");
    }
}

#[test]
fn each_answer_answers_one_question() {
    let answers = [
        InteractionResponse::TrustHostKey(true),
        InteractionResponse::PrivateKeyPassphrase("p".to_string()),
        InteractionResponse::Password("s".to_string()),
    ];
    for r in answers {
        let kinds = [
            r.clone().expect_trust_host_key().is_some(),
            r.clone().expect_private_key_passphrase().is_some(),
            r.clone().expect_password().is_some(),
        ];
        assert_eq!(kinds.iter().filter(|k| **k).count(), 1);
    }
    assert_eq!(
        InteractionResponse::Password("s".to_string()).expect_password().as_deref(),
        Some("s")
    );
}
