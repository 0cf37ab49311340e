//! Questions that a connection may need the user to answer, and the answers.

use vstd::prelude::*;

verus! {

/// A question that stops a connection until the user answers it.
#[derive(Debug, Clone, PartialEq, Eq)]
pub enum InteractionRequest {
    TrustHostKey(TrustHostKeyRequest),
    PrivateKeyPassphrase(PrivateKeyPassphraseRequest),
    Password(PasswordRequest),
}

/// Trust an unknown host key with this SHA-256 fingerprint?
#[derive(Debug, Clone, PartialEq, Eq)]
pub struct TrustHostKeyRequest {
    pub host: String,
    pub port: u16,
    pub fingerprint: String,
}

/// The passphrase of this private key?
#[derive(Debug, Clone, PartialEq, Eq)]
pub struct PrivateKeyPassphraseRequest {
    pub private_key_path: String,
}

/// The SSH password of this account?
#[derive(Debug, Clone, PartialEq, Eq)]
pub struct PasswordRequest {
    pub host: String,
    pub port: u16,
    pub user: String,
}

/// The user's answer to an interaction request.
#[derive(Debug, Clone, PartialEq, Eq)]
pub enum InteractionResponse {
    TrustHostKey(bool),
    PrivateKeyPassphrase(String),
    Password(String),
}

/// The trust decision that an answer carries, if it answers a host-key question.
pub open spec fn trust_of(r: InteractionResponse) -> Option<bool> {
    match r {
        InteractionResponse::TrustHostKey(v) => Some(v),
        _ => None,
    }
}

/// The passphrase that an answer carries, if it answers a passphrase question.
pub open spec fn passphrase_of(r: InteractionResponse) -> Option<String> {
    match r {
        InteractionResponse::PrivateKeyPassphrase(v) => Some(v),
        _ => None,
    }
}

/// The password that an answer carries, if it answers a password question.
pub open spec fn password_of(r: InteractionResponse) -> Option<String> {
    match r {
        InteractionResponse::Password(v) => Some(v),
        _ => None,
    }
}

/// Every answer answers exactly one kind of question: exactly one of the
/// three accessors gives a value, and that value is what the answer holds.
pub proof fn lemma_one_kind_of_answer(r: InteractionResponse)
    ensures
        (trust_of(r) is Some) as int + (passphrase_of(r) is Some) as int + (password_of(
            r,
        ) is Some) as int == 1,
        forall|b: bool| trust_of(r) == Some(b) <==> r == InteractionResponse::TrustHostKey(b),
        forall|p: String|
            passphrase_of(r) == Some(p) <==> r == InteractionResponse::PrivateKeyPassphrase(p),
        forall|p: String| password_of(r) == Some(p) <==> r == InteractionResponse::Password(p),
{
}

impl InteractionResponse {
    /// The trust decision, if this answers a host-key question.
    pub fn expect_trust_host_key(self) -> (r: Option<bool>)
        ensures
            r == trust_of(self),
    {
        match self {
            InteractionResponse::TrustHostKey(value) => Some(value),
            InteractionResponse::PrivateKeyPassphrase(_) | InteractionResponse::Password(_) => None,
        }
    }

    /// The passphrase, if this answers a passphrase question.
    pub fn expect_private_key_passphrase(self) -> (r: Option<String>)
        ensures
            r == passphrase_of(self),
    {
        match self {
            InteractionResponse::PrivateKeyPassphrase(value) => Some(value),
            InteractionResponse::TrustHostKey(_) | InteractionResponse::Password(_) => None,
        }
    }

    /// The password, if this answers a password question.
    pub fn expect_password(self) -> (r: Option<String>)
        ensures
            r == password_of(self),
    {
        match self {
            InteractionResponse::Password(value) => Some(value),
            InteractionResponse::TrustHostKey(_) | InteractionResponse::PrivateKeyPassphrase(_) => None,
        }
    }
}

} // verus!
