//! The client's answer-driven flow: an action either completes or stops with
//! a question for the user, and the user's answer is matched to the question.

use vstd::prelude::*;

use crate::interaction::{InteractionRequest, InteractionResponse};
use crate::text::{
    chars_of, is_blank, is_white_space, lemma_trim_ignores_trailing_white_space, trim, trim_chars,
    trim_start,
};

verus! {

/// An action that completed, or that needs the user to answer a question
/// before it is run again.
#[derive(Debug)]
pub enum ClientActionState<T> {
    Ready(T),
    NeedsInteraction(InteractionRequest),
}

/// An answer that does not fit the question it is given for.
#[derive(Debug, Clone, Copy, PartialEq, Eq, Structural)]
pub enum InteractionMismatch {
    MissingOrMismatchedResponse,
    ExpectedTrustHostKey,
    ExpectedPassphrase,
}

impl InteractionMismatch {
    pub fn message(&self) -> (m: String)
        ensures
            m@ == mismatch_message(*self),
    {
        match self {
            InteractionMismatch::MissingOrMismatchedResponse => String::from_str(
                "missing or mismatched interaction response",
            ),
            InteractionMismatch::ExpectedTrustHostKey => String::from_str(
                "expected trust-host-key interaction",
            ),
            InteractionMismatch::ExpectedPassphrase => String::from_str(
                "expected passphrase interaction",
            ),
        }
    }
}

pub open spec fn mismatch_message(m: InteractionMismatch) -> Seq<char> {
    match m {
        InteractionMismatch::MissingOrMismatchedResponse =>
            "missing or mismatched interaction response"@,
        InteractionMismatch::ExpectedTrustHostKey => "expected trust-host-key interaction"@,
        InteractionMismatch::ExpectedPassphrase => "expected passphrase interaction"@,
    }
}

/// Pairs a host-key or passphrase question with its answer; any other pair,
/// or no answer, is a mismatch.
pub fn resolve_interaction(request: &InteractionRequest, response: Option<InteractionResponse>) -> (r:
    Result<InteractionResponse, InteractionMismatch>)
    ensures
        match (*request, response) {
            (InteractionRequest::TrustHostKey(_), Some(InteractionResponse::TrustHostKey(v))) => r
                == Ok::<InteractionResponse, InteractionMismatch>(
                InteractionResponse::TrustHostKey(v),
            ),
            (
                InteractionRequest::PrivateKeyPassphrase(_),
                Some(InteractionResponse::PrivateKeyPassphrase(v)),
            ) => r == Ok::<InteractionResponse, InteractionMismatch>(
                InteractionResponse::PrivateKeyPassphrase(v),
            ),
            _ => r == Err::<InteractionResponse, InteractionMismatch>(
                InteractionMismatch::MissingOrMismatchedResponse,
            ),
        },
{
    match (request, response) {
        (InteractionRequest::TrustHostKey(_), Some(InteractionResponse::TrustHostKey(value))) => {
            Ok(InteractionResponse::TrustHostKey(value))
        },
        (
            InteractionRequest::PrivateKeyPassphrase(_),
            Some(InteractionResponse::PrivateKeyPassphrase(value)),
        ) => Ok(InteractionResponse::PrivateKeyPassphrase(value)),
        _ => Err(InteractionMismatch::MissingOrMismatchedResponse),
    }
}

/// The answer to a host-key question.
pub fn trust_host_key_response(request: &InteractionRequest, trusted: bool) -> (r: Result<
    InteractionResponse,
    InteractionMismatch,
>)
    ensures
        r == if request is TrustHostKey {
            Ok::<InteractionResponse, InteractionMismatch>(
                InteractionResponse::TrustHostKey(trusted),
            )
        } else {
            Err(InteractionMismatch::ExpectedTrustHostKey)
        },
{
    match request {
        InteractionRequest::TrustHostKey(_) => Ok(InteractionResponse::TrustHostKey(trusted)),
        _ => Err(InteractionMismatch::ExpectedTrustHostKey),
    }
}

/// The answer to a private-key passphrase question.
pub fn passphrase_response(request: &InteractionRequest, passphrase: String) -> (r: Result<
    InteractionResponse,
    InteractionMismatch,
>)
    ensures
        r == if request is PrivateKeyPassphrase {
            Ok::<InteractionResponse, InteractionMismatch>(
                InteractionResponse::PrivateKeyPassphrase(passphrase),
            )
        } else {
            Err(InteractionMismatch::ExpectedPassphrase)
        },
{
    match request {
        InteractionRequest::PrivateKeyPassphrase(_) => Ok(
            InteractionResponse::PrivateKeyPassphrase(passphrase),
        ),
        _ => Err(InteractionMismatch::ExpectedPassphrase),
    }
}

/// The answers to "Trust this host key? [y/N]" that mean yes: `y`, `Y`,
/// `yes` or `YES`, around which white space is ignored.
pub open spec fn is_yes(answer: Seq<char>) -> bool {
    let t = trim(answer);
    t =~= seq!['y'] || t =~= seq!['Y'] || t =~= seq!['y', 'e', 's'] || t =~= seq!['Y', 'E', 'S']
}

/// Whether a typed answer accepts the host key.
pub fn is_affirmative_answer(answer: &str) -> (r: bool)
    ensures
        r == is_yes(answer@),
{
    let chars = chars_of(answer);
    let t = trim_chars(&chars);
    let n = t.len();
    let r = (n == 1 && (t[0] == 'y' || t[0] == 'Y')) || (n == 3 && ((t[0] == 'y' && t[1] == 'e'
        && t[2] == 's') || (t[0] == 'Y' && t[1] == 'E' && t[2] == 'S')));
    proof {
        let ts = t@;
        if ts =~= seq!['y'] || ts =~= seq!['Y'] {
            assert(ts[0] == 'y' || ts[0] == 'Y');
        }
        if ts =~= seq!['y', 'e', 's'] {
            assert(ts[0] == 'y' && ts[1] == 'e' && ts[2] == 's');
        }
        if ts =~= seq!['Y', 'E', 'S'] {
            assert(ts[0] == 'Y' && ts[1] == 'E' && ts[2] == 'S');
        }
    }
    r
}

/// The line end that a console read leaves on an answer does not change
/// it: for every answer, `answer` followed by `\r\n` or by `\n` means yes
/// exactly when `answer` does, and `y`, `Y`, `yes` and `YES` mean yes.
pub proof fn lemma_answer_line_end_ignored(answer: Seq<char>)
    ensures
        is_yes(answer + seq!['\r', '\n']) == is_yes(answer),
        is_yes(answer + seq!['\n']) == is_yes(answer),
        is_yes(seq!['y']) && is_yes(seq!['Y']) && is_yes(seq!['y', 'e', 's']) && is_yes(
            seq!['Y', 'E', 'S'],
        ),
{
    let crlf = seq!['\r', '\n'];
    let lf = seq!['\n'];
    assert(is_blank(crlf)) by {
        assert forall|i: int| 0 <= i < crlf.len() implies is_white_space(#[trigger] crlf[i]) by {
            if i == 0 {
                assert(crlf[i] == '\r');
            } else {
                assert(crlf[i] == '\n');
            }
        }
    }
    assert(is_blank(lf)) by {
        assert forall|i: int| 0 <= i < lf.len() implies is_white_space(#[trigger] lf[i]) by {
            assert(lf[i] == '\n');
        }
    }
    lemma_trim_ignores_trailing_white_space(answer, crlf);
    lemma_trim_ignores_trailing_white_space(answer, lf);
    lemma_trim_plain(seq!['y']);
    lemma_trim_plain(seq!['Y']);
    lemma_trim_plain(seq!['y', 'e', 's']);
    lemma_trim_plain(seq!['Y', 'E', 'S']);
}

proof fn lemma_trim_plain(s: Seq<char>)
    requires
        s.len() > 0,
        !is_white_space(s[0]),
        !is_white_space(s.last()),
    ensures
        trim(s) == s,
{
    assert(trim_start(s) == s);
}

} // verus!
