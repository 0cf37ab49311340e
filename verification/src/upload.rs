//! Decisions of the SSH/SFTP upload connection: trust on first use of the
//! host key, which secret to authenticate with, and what to remember.

use sha2::Digest;
use vstd::prelude::*;
use vstd::string::*;

use crate::client::ClientActionState;
use crate::config::{AuthMethod, ClientConfig};
use crate::interaction::{
    InteractionRequest, InteractionResponse, PasswordRequest, PrivateKeyPassphraseRequest,
    TrustHostKeyRequest,
};
use crate::text::{
    chars_equal, chars_of, decimal, is_ascii_alnum, is_ascii_alnum_char, is_white_space,
    push_decimal, string_from_chars, string_from_str, trim, trim_chars, trim_end, trim_start,
};

verus! {

/// The file written to and removed from the user directory by the check.
pub const CHECK_FILE_NAME: &'static str = ".image-sync-check.tmp";

/// The directory, next to the configuration file, that holds the host keys.
pub const KNOWN_HOSTS_DIR: &'static str = "known-hosts";

/// A file that was uploaded, by its name in the user directory.
#[derive(Debug, Clone)]
pub struct UploadedFile {
    pub file_name: String,
}

/// A connection failure that asks nothing of the user.
#[derive(Debug, Clone)]
pub enum ConnectFailure {
    /// The host presented another key than the one trusted before.
    HostKeyChanged { host: String, port: u16, expected: String, got: String },
    /// The user did not trust the host key.
    HostKeyNotTrusted,
    /// Password authentication ended without an authenticated session.
    PasswordAuthIncomplete,
    /// Key authentication ended without an authenticated session.
    KeyAuthIncomplete,
    /// A transport or server failure, by its message.
    Other(String),
}

/// Why a connection did not come up.
#[derive(Debug, Clone)]
pub enum ConnectError {
    NeedsInteraction(InteractionRequest),
    Failed(ConnectFailure),
}

/// What to do with the host key after the decision.
#[derive(Debug, Clone)]
pub enum HostKeyAction {
    /// The key matches the one remembered for the host.
    AlreadyTrusted,
    /// The user trusts the key: write these contents to the host's cache file.
    Remember(String),
}

/// The outcome of trust on first use, without its data.
#[derive(Debug, Clone, Copy, PartialEq, Eq, Structural)]
pub enum HostKeyVerdict {
    AlreadyTrusted,
    Remember,
    Ask,
    Changed,
    NotTrusted,
}

/// The trust decision carried by an answer, if it is one.
pub open spec fn trust_answer(response: Option<InteractionResponse>) -> Option<bool> {
    match response {
        Some(InteractionResponse::TrustHostKey(v)) => Some(v),
        _ => None,
    }
}

/// Trust on first use: a remembered fingerprint (trimmed) must match; with
/// none remembered the user is asked, and a yes is remembered.
pub open spec fn host_key_verdict(
    cached: Option<Seq<char>>,
    fingerprint: Seq<char>,
    trust: Option<bool>,
) -> HostKeyVerdict {
    match cached {
        Some(c) => if trim(c) == fingerprint {
            HostKeyVerdict::AlreadyTrusted
        } else {
            HostKeyVerdict::Changed
        },
        None => match trust {
            None => HostKeyVerdict::Ask,
            Some(false) => HostKeyVerdict::NotTrusted,
            Some(true) => HostKeyVerdict::Remember,
        },
    }
}

/// What the cache file holds for a trusted fingerprint.
pub open spec fn remembered_contents(fingerprint: Seq<char>) -> Seq<char> {
    fingerprint.push('\n')
}

pub open spec fn host_key_result_fits(
    r: Result<HostKeyAction, ConnectError>,
    host: Seq<char>,
    port: u16,
    fingerprint: Seq<char>,
    cached: Option<Seq<char>>,
    trust: Option<bool>,
) -> bool {
    match host_key_verdict(cached, fingerprint, trust) {
        HostKeyVerdict::AlreadyTrusted => r matches Ok(HostKeyAction::AlreadyTrusted),
        HostKeyVerdict::Remember => r matches Ok(HostKeyAction::Remember(c)) && c@
            == remembered_contents(fingerprint),
        HostKeyVerdict::Ask => r matches Err(
            ConnectError::NeedsInteraction(InteractionRequest::TrustHostKey(q)),
        ) && q.host@ == host && q.port == port && q.fingerprint@ == fingerprint,
        HostKeyVerdict::Changed => r matches Err(
            ConnectError::Failed(ConnectFailure::HostKeyChanged { host: h, port: p, expected, got }),
        ) && h@ == host && p == port && expected@ == trim(cached->0) && got@ == fingerprint,
        HostKeyVerdict::NotTrusted => r matches Err(
            ConnectError::Failed(ConnectFailure::HostKeyNotTrusted),
        ),
    }
}

/// Decides on the host key that the server presented, given the contents of
/// the host's cache file (when it exists) and the user's answer, if any.
pub fn decide_host_key(
    host: &str,
    port: u16,
    fingerprint: &str,
    cached: Option<String>,
    response: Option<InteractionResponse>,
) -> (r: Result<HostKeyAction, ConnectError>)
    ensures
        host_key_result_fits(
            r,
            host@,
            port,
            fingerprint@,
            match cached {
                Some(c) => Some(c@),
                None => None,
            },
            trust_answer(response),
        ),
{
    match cached {
        Some(expected) => {
            let expected_chars = chars_of(expected.as_str());
            let trimmed = trim_chars(&expected_chars);
            let got = chars_of(fingerprint);
            if chars_equal(&trimmed, &got) {
                Ok(HostKeyAction::AlreadyTrusted)
            } else {
                Err(
                    ConnectError::Failed(
                        ConnectFailure::HostKeyChanged {
                            host: string_from_str(host),
                            port,
                            expected: string_from_chars(&trimmed),
                            got: string_from_str(fingerprint),
                        },
                    ),
                )
            }
        },
        None => {
            let trusted = match response {
                Some(answer) => answer.expect_trust_host_key(),
                None => None,
            };
            match trusted {
                None => Err(
                    ConnectError::NeedsInteraction(
                        InteractionRequest::TrustHostKey(
                            TrustHostKeyRequest {
                                host: string_from_str(host),
                                port,
                                fingerprint: string_from_str(fingerprint),
                            },
                        ),
                    ),
                ),
                Some(false) => Err(ConnectError::Failed(ConnectFailure::HostKeyNotTrusted)),
                Some(true) => {
                    let mut contents = string_from_str(fingerprint);
                    contents.push('\n');
                    Ok(HostKeyAction::Remember(contents))
                },
            }
        },
    }
}

/// Trust on first use keeps its word: once a fingerprint is remembered, the
/// same fingerprint is trusted without asking, whatever the answer, and any
/// other fingerprint is reported as a changed host key.
pub proof fn lemma_remembered_host_key(
    fingerprint: Seq<char>,
    other: Seq<char>,
    trust: Option<bool>,
)
    requires
        fingerprint.len() > 0,
        !is_white_space(fingerprint[0]),
        !is_white_space(fingerprint.last()),
    ensures
        host_key_verdict(None, fingerprint, Some(true)) == HostKeyVerdict::Remember,
        host_key_verdict(Some(remembered_contents(fingerprint)), fingerprint, trust)
            == HostKeyVerdict::AlreadyTrusted,
        other != fingerprint ==> host_key_verdict(
            Some(remembered_contents(fingerprint)),
            other,
            trust,
        ) == HostKeyVerdict::Changed,
{
    let c = remembered_contents(fingerprint);
    assert(trim_start(c) == c);
    assert(c.drop_last() =~= fingerprint);
    assert(trim_end(c) == trim_end(fingerprint));
    assert(trim_end(fingerprint) == fingerprint);
}

/// Names the SHA-256 digest of a byte sequence.
pub uninterp spec fn sha256_digest(data: Seq<u8>) -> Seq<u8>;

/// `sha2::Sha256::digest`: the SHA-256 digest of the bytes, which is 32
/// bytes long; its value is named, not stated.
#[verifier::external_body]
fn sha256(bytes: &[u8]) -> (d: Vec<u8>)
    ensures
        d@ == sha256_digest(bytes@),
        d@.len() == 32,
{
    <sha2::Sha256 as Digest>::digest(bytes).to_vec()
}

pub open spec fn hex_digit(n: int) -> char {
    if n < 10 {
        (n + 48) as char
    } else {
        (n + 87) as char
    }
}

/// Two lower-case hexadecimal digits per byte, most significant first.
pub open spec fn lower_hex(bytes: Seq<u8>) -> Seq<char>
    decreases bytes.len(),
{
    if bytes.len() == 0 {
        Seq::<char>::empty()
    } else {
        lower_hex(bytes.drop_last()) + seq![
            hex_digit(bytes.last() as int / 16),
            hex_digit(bytes.last() as int % 16),
        ]
    }
}

fn hex_char(n: u8) -> (c: char)
    requires
        n < 16,
    ensures
        c == hex_digit(n as int),
{
    if n < 10 {
        ((n + 48) as u8) as char
    } else {
        ((n + 87) as u8) as char
    }
}

/// The lower-case hexadecimal text of the bytes.
pub fn to_lower_hex(bytes: &[u8]) -> (s: String)
    ensures
        s@ == lower_hex(bytes@),
{
    let mut s = String::new();
    let mut i: usize = 0;
    while i < bytes.len()
        invariant
            i <= bytes@.len(),
            s@ == lower_hex(bytes@.take(i as int)),
        decreases bytes@.len() - i,
    {
        let b = bytes[i];
        s.push(hex_char(b / 16));
        s.push(hex_char(b % 16));
        proof {
            assert(bytes@.take(i + 1).drop_last() =~= bytes@.take(i as int));
        }
        i = i + 1;
    }
    proof {
        assert(bytes@.take(bytes@.len() as int) =~= bytes@);
    }
    s
}

/// The SHA-256 fingerprint of a host key, in lower-case hexadecimal.
pub fn sha256_hex(bytes: &[u8]) -> (s: String)
    ensures
        s@ == lower_hex(sha256_digest(bytes@)),
        s@.len() == 64,
        forall|i: int| 0 <= i < s@.len() ==> !is_white_space(#[trigger] s@[i]),
{
    let digest = sha256(bytes);
    proof {
        lemma_hex_len(digest@);
    }
    to_lower_hex(digest.as_slice())
}

/// Hexadecimal text has two digits, never white space, per byte.
pub proof fn lemma_hex_len(bytes: Seq<u8>)
    ensures
        lower_hex(bytes).len() == 2 * bytes.len(),
        forall|i: int| 0 <= i < lower_hex(bytes).len() ==> !is_white_space(
            #[trigger] lower_hex(bytes)[i],
        ),
    decreases bytes.len(),
{
    if bytes.len() > 0 {
        lemma_hex_len(bytes.drop_last());
        let rest = lower_hex(bytes.drop_last());
        let h = lower_hex(bytes);
        assert forall|i: int| 0 <= i < h.len() implies !is_white_space(#[trigger] h[i]) by {
            if i < rest.len() {
                assert(h[i] == rest[i]);
            }
        }
    }
}

/// A host name reduced to ASCII letters, digits, `-` and `.`; every other
/// character becomes `_`.
pub open spec fn safe_host_char(c: char) -> char {
    if is_ascii_alnum(c) || c == '-' || c == '.' {
        c
    } else {
        '_'
    }
}

pub open spec fn host_key_file_name(host: Seq<char>, port: u16) -> Seq<char> {
    host.map_values(|c: char| safe_host_char(c)) + seq!['_'] + decimal(port as nat) + ".sha256"@
}

/// The name of the file that remembers the host key of `host:port`.
pub fn host_key_cache_file_name(host: &str, port: u16) -> (name: String)
    ensures
        name@ == host_key_file_name(host@, port),
{
    let chars = chars_of(host);
    let mut name = String::new();
    let mut i: usize = 0;
    while i < chars.len()
        invariant
            i <= chars.len(),
            chars@ == host@,
            name@ == chars@.take(i as int).map_values(|c: char| safe_host_char(c)),
        decreases chars.len() - i,
    {
        let c = chars[i];
        let safe = if is_ascii_alnum_char(c) || c == '-' || c == '.' {
            c
        } else {
            '_'
        };
        name.push(safe);
        proof {
            assert(chars@.take(i + 1).map_values(|c: char| safe_host_char(c)) =~= chars@.take(
                i as int,
            ).map_values(|c: char| safe_host_char(c)).push(safe_host_char(c)));
        }
        i = i + 1;
    }
    proof {
        assert(chars@.take(chars@.len() as int) =~= chars@);
    }
    name.push('_');
    push_decimal(&mut name, port as u64);
    name.append(".sha256");
    proof {
        assert(name@ =~= host_key_file_name(host@, port));
    }
    name
}

/// The password to log in with: the configured one, else the user's answer;
/// with neither, the user is asked for it.
pub fn password_for_login(config: &ClientConfig, response: Option<InteractionResponse>) -> (r:
    Result<String, ConnectError>)
    ensures
        match config.upload.password {
            Some(p) => r == Ok::<String, ConnectError>(p),
            None => match response {
                Some(InteractionResponse::Password(p)) => r == Ok::<String, ConnectError>(p),
                _ => r matches Err(ConnectError::NeedsInteraction(InteractionRequest::Password(q)))
                    && q.host == config.upload.host && q.port == config.upload.port && q.user
                    == config.upload.user,
            },
        },
{
    match &config.upload.password {
        Some(p) => Ok(p.clone()),
        None => {
            let answered = match response {
                Some(answer) => answer.expect_password(),
                None => None,
            };
            match answered {
                Some(p) => Ok(p),
                None => Err(
                    ConnectError::NeedsInteraction(
                        InteractionRequest::Password(
                            PasswordRequest {
                                host: config.upload.host.clone(),
                                port: config.upload.port,
                                user: config.upload.user.clone(),
                            },
                        ),
                    ),
                ),
            }
        },
    }
}

/// How the first key authentication, without a passphrase, ended.
#[derive(Debug, Clone, Copy, PartialEq, Eq, Structural)]
pub enum KeyAttempt {
    Authenticated,
    Incomplete,
    Rejected,
}

/// What follows the first key authentication.
#[derive(Debug, Clone)]
pub enum KeyAuthStep {
    Done,
    RetryWithPassphrase(String),
}

/// After key authentication without a passphrase: done when authenticated,
/// a failure when the server accepted the key but did not authenticate, and
/// otherwise a retry with the user's passphrase, asked for if not given.
pub fn after_key_attempt(
    attempt: KeyAttempt,
    config: &ClientConfig,
    response: Option<InteractionResponse>,
) -> (r: Result<KeyAuthStep, ConnectError>)
    ensures
        match attempt {
            KeyAttempt::Authenticated => r matches Ok(KeyAuthStep::Done),
            KeyAttempt::Incomplete => r matches Err(
                ConnectError::Failed(ConnectFailure::KeyAuthIncomplete),
            ),
            KeyAttempt::Rejected => match response {
                Some(InteractionResponse::PrivateKeyPassphrase(p)) => r matches Ok(
                    KeyAuthStep::RetryWithPassphrase(q),
                ) && q == p,
                _ => r matches Err(
                    ConnectError::NeedsInteraction(InteractionRequest::PrivateKeyPassphrase(q)),
                ) && q.private_key_path == config.upload.private_key_path,
            },
        },
{
    match attempt {
        KeyAttempt::Authenticated => Ok(KeyAuthStep::Done),
        KeyAttempt::Incomplete => Err(ConnectError::Failed(ConnectFailure::KeyAuthIncomplete)),
        KeyAttempt::Rejected => {
            let passphrase = match response {
                Some(answer) => answer.expect_private_key_passphrase(),
                None => None,
            };
            match passphrase {
                Some(p) => Ok(KeyAuthStep::RetryWithPassphrase(p)),
                None => Err(
                    ConnectError::NeedsInteraction(
                        InteractionRequest::PrivateKeyPassphrase(
                            PrivateKeyPassphraseRequest {
                                private_key_path: config.upload.private_key_path.clone(),
                            },
                        ),
                    ),
                ),
            }
        },
    }
}

/// The password that the user typed during this connection and that the
/// configuration does not hold yet.
pub open spec fn newly_captured(config: ClientConfig, response: Option<InteractionResponse>) -> Option<
    String,
> {
    if config.upload.auth_method == AuthMethod::Password && config.upload.password is None {
        match response {
            Some(InteractionResponse::Password(p)) => Some(p),
            _ => None,
        }
    } else {
        None
    }
}

/// After a successful connection: the configuration with the password that
/// the user typed, if any, and that password, to be written back to the file.
pub fn capture_password(config: ClientConfig, response: Option<InteractionResponse>) -> (r: (
    ClientConfig,
    Option<String>,
))
    ensures
        r.1 == newly_captured(config, response),
        r.0.user_name == config.user_name,
        r.0.hotkey == config.hotkey,
        r.0.upload.host == config.upload.host,
        r.0.upload.port == config.upload.port,
        r.0.upload.user == config.upload.user,
        r.0.upload.auth_method == config.upload.auth_method,
        r.0.upload.private_key_path == config.upload.private_key_path,
        r.0.upload.shared_image_root == config.upload.shared_image_root,
        r.0.upload.password == match newly_captured(config, response) {
            Some(p) => Some(p),
            None => config.upload.password,
        },
{
    let captured = match config.upload.auth_method {
        AuthMethod::Password => if config.upload.password.is_none() {
            match response {
                Some(answer) => answer.expect_password(),
                None => None,
            }
        } else {
            None
        },
        AuthMethod::Key => None,
    };
    let mut config = config;
    match &captured {
        Some(p) => {
            config.upload.password = Some(p.clone());
        },
        None => {},
    }
    (config, captured)
}

/// Remembering a typed password keeps a valid configuration valid, unless
/// the typed password is empty (which the configuration rules refuse, so
/// writing it back fails).
pub proof fn lemma_capture_keeps_config_valid(
    config: ClientConfig,
    response: Option<InteractionResponse>,
    after: ClientConfig,
)
    requires
        crate::config::config_is_valid(config),
        after.user_name == config.user_name,
        after.hotkey == config.hotkey,
        after.upload.host == config.upload.host,
        after.upload.port == config.upload.port,
        after.upload.user == config.upload.user,
        after.upload.auth_method == config.upload.auth_method,
        after.upload.private_key_path == config.upload.private_key_path,
        after.upload.shared_image_root == config.upload.shared_image_root,
        after.upload.password == match newly_captured(config, response) {
            Some(p) => Some(p),
            None => config.upload.password,
        },
    ensures
        crate::config::config_is_valid(after) <==> match newly_captured(config, response) {
            Some(p) => p@.len() > 0,
            None => true,
        },
{
}

/// Where an upload stands: its first try, the reconnection after the first
/// try failed, or the one retry after reconnecting.
#[derive(Debug, Clone, Copy, PartialEq, Eq, Structural)]
pub enum UploadPhase {
    FirstTry,
    Reconnecting,
    Retry,
}

/// What follows a step of an upload.
#[derive(Debug, Clone, Copy, PartialEq, Eq, Structural)]
pub enum UploadAction {
    /// The upload is done: return what the last try gave.
    Done,
    /// The first try failed: reconnect.
    Reconnect,
    /// The reconnection worked: upload once more.
    UploadAgain,
    /// The reconnection or the retry failed: return its error.
    GiveUp,
}

/// Upload once; on failure reconnect once and upload once more. A failed
/// reconnection or retry ends the upload with its error.
pub fn upload_retry_step(phase: UploadPhase, succeeded: bool) -> (a: UploadAction)
    ensures
        a == match phase {
            UploadPhase::FirstTry => if succeeded {
                UploadAction::Done
            } else {
                UploadAction::Reconnect
            },
            UploadPhase::Reconnecting => if succeeded {
                UploadAction::UploadAgain
            } else {
                UploadAction::GiveUp
            },
            UploadPhase::Retry => if succeeded {
                UploadAction::Done
            } else {
                UploadAction::GiveUp
            },
        },
{
    match phase {
        UploadPhase::FirstTry => if succeeded {
            UploadAction::Done
        } else {
            UploadAction::Reconnect
        },
        UploadPhase::Reconnecting => if succeeded {
            UploadAction::UploadAgain
        } else {
            UploadAction::GiveUp
        },
        UploadPhase::Retry => if succeeded {
            UploadAction::Done
        } else {
            UploadAction::GiveUp
        },
    }
}

/// A connection outcome as the client's flow sees it: a connection, a
/// question for the user, or a failure.
pub fn action_from_connect<T>(r: Result<T, ConnectError>) -> (a: Result<
    ClientActionState<T>,
    ConnectFailure,
>)
    ensures
        match r {
            Ok(v) => a matches Ok(ClientActionState::Ready(w)) && w == v,
            Err(ConnectError::NeedsInteraction(q)) => a matches Ok(
                ClientActionState::NeedsInteraction(p),
            ) && p == q,
            Err(ConnectError::Failed(f)) => a matches Err(g) && g == f,
        },
{
    match r {
        Ok(v) => Ok(ClientActionState::Ready(v)),
        Err(ConnectError::NeedsInteraction(q)) => Ok(ClientActionState::NeedsInteraction(q)),
        Err(ConnectError::Failed(f)) => Err(f),
    }
}

impl ConnectFailure {
    /// The message that explains the failure.
    pub fn message(&self) -> (m: String)
        ensures
            m@ == failure_message(*self),
    {
        match self {
            ConnectFailure::HostKeyChanged { host, port, expected, got } => {
                let mut m = String::from_str("upload host key changed for ");
                m.append(host.as_str());
                m.push(':');
                push_decimal(&mut m, *port as u64);
                m.append("; expected ");
                m.append(expected.as_str());
                m.append(", got ");
                m.append(got.as_str());
                m
            },
            ConnectFailure::HostKeyNotTrusted => String::from_str("host key was not trusted"),
            ConnectFailure::PasswordAuthIncomplete => String::from_str(
                "password authentication did not complete",
            ),
            ConnectFailure::KeyAuthIncomplete => String::from_str(
                "private key authentication did not complete",
            ),
            ConnectFailure::Other(m) => m.clone(),
        }
    }
}

pub open spec fn failure_message(f: ConnectFailure) -> Seq<char> {
    match f {
        ConnectFailure::HostKeyChanged { host, port, expected, got } =>
            "upload host key changed for "@ + host@ + seq![':'] + decimal(port as nat)
            + "; expected "@ + expected@ + ", got "@ + got@,
        ConnectFailure::HostKeyNotTrusted => "host key was not trusted"@,
        ConnectFailure::PasswordAuthIncomplete => "password authentication did not complete"@,
        ConnectFailure::KeyAuthIncomplete => "private key authentication did not complete"@,
        ConnectFailure::Other(m) => m@,
    }
}

} // verus!
