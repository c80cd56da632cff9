//! Where signing in stands, and how each step of it moves on.

use vstd::prelude::*;

use crate::service::AuthError;
use crate::text::{is_blank, trim, trimmed};

verus! {

/// Which form a sign-in was started from.
#[derive(Debug, Clone, Copy, PartialEq, Eq, Structural)]
pub enum SignInStep {
    Credentials,
    Totp,
    MailboxPassword,
}

#[derive(Debug, PartialEq, Eq)]
pub enum AuthState {
    CheckingSession,
    SignedOut,
    SigningIn(SignInStep),
    NeedsTotp,
    NeedsMailboxPassword,
    /// Waiting for the user to finish Proton's check in the browser.
    NeedsHumanVerification { url: String },
    Authenticated { email: Option<String> },
    SigningOut,
}

impl Clone for AuthState {
    fn clone(&self) -> (r: Self)
        ensures
            r == *self,
    {
        match self {
            AuthState::CheckingSession => AuthState::CheckingSession,
            AuthState::SignedOut => AuthState::SignedOut,
            AuthState::SigningIn(step) => AuthState::SigningIn(*step),
            AuthState::NeedsTotp => AuthState::NeedsTotp,
            AuthState::NeedsMailboxPassword => AuthState::NeedsMailboxPassword,
            AuthState::NeedsHumanVerification { url } => AuthState::NeedsHumanVerification { url: url.clone() },
            AuthState::Authenticated { email } => AuthState::Authenticated {
                email: match email {
                    Some(e) => Some(e.clone()),
                    None => None,
                },
            },
            AuthState::SigningOut => AuthState::SigningOut,
        }
    }
}

/// The form a sign-in starts from in this state: the credentials when
/// signed out, or the code or mailbox password asked for. Nothing starts
/// from any other state.
pub open spec fn step_from(state: AuthState) -> Option<SignInStep> {
    match state {
        AuthState::SignedOut => Some(SignInStep::Credentials),
        AuthState::NeedsTotp => Some(SignInStep::Totp),
        AuthState::NeedsMailboxPassword => Some(SignInStep::MailboxPassword),
        _ => None,
    }
}

pub fn sign_in_step(state: &AuthState) -> (r: Option<SignInStep>)
    ensures
        r == step_from(*state),
{
    match state {
        AuthState::SignedOut => Some(SignInStep::Credentials),
        AuthState::NeedsTotp => Some(SignInStep::Totp),
        AuthState::NeedsMailboxPassword => Some(SignInStep::MailboxPassword),
        _ => None,
    }
}

/// What a sign-in from `step` is still missing, first things first: a
/// username, a password, then the code or mailbox password the step asks
/// for. A username or code of white space is missing; a password is taken
/// exactly as typed.
pub open spec fn missing(step: SignInStep, username: Seq<char>, password: Seq<char>, totp: Seq<char>, mailbox_password: Seq<char>) -> Option<AuthError> {
    if trimmed(username).len() == 0 {
        Some(AuthError::UsernameRequired)
    } else if password.len() == 0 {
        Some(AuthError::PasswordRequired)
    } else if step == SignInStep::Totp && trimmed(totp).len() == 0 {
        Some(AuthError::TotpRequired)
    } else if step == SignInStep::MailboxPassword && mailbox_password.len() == 0 {
        Some(AuthError::MailboxPasswordRequired)
    } else {
        None
    }
}

/// What a sign-in from `step` is still missing, if anything.
pub fn missing_for_sign_in(step: SignInStep, username: &str, password: &str, totp: &str, mailbox_password: &str) -> (r: Option<AuthError>)
    ensures
        r == missing(step, username@, password@, totp@, mailbox_password@),
{
    if is_blank(username) {
        proof {
            crate::text::lemma_trimmed_empty(username@);
        }
        return Some(AuthError::UsernameRequired);
    }
    proof {
        crate::text::lemma_trimmed_empty(username@);
    }
    if password.is_empty() {
        return Some(AuthError::PasswordRequired);
    }
    if step == SignInStep::Totp && is_blank(totp) {
        proof {
            crate::text::lemma_trimmed_empty(totp@);
        }
        return Some(AuthError::TotpRequired);
    }
    proof {
        crate::text::lemma_trimmed_empty(totp@);
    }
    if step == SignInStep::MailboxPassword && mailbox_password.is_empty() {
        return Some(AuthError::MailboxPasswordRequired);
    }
    None
}

/// What the code field gives a sign-in: the code without surrounding
/// white space, or nothing when there is none.
pub fn trimmed_code(value: &str) -> (r: Option<String>)
    ensures
        trimmed(value@).len() == 0 ==> r is None,
        trimmed(value@).len() > 0 ==> (r matches Some(s) && s@ == trimmed(value@)),
{
    let t = trim(value);
    if t.as_str().is_empty() {
        None
    } else {
        Some(t)
    }
}

/// What the mailbox password field gives a sign-in: exactly what was
/// typed, spaces included, or nothing when it is empty.
pub fn typed_secret(value: &str) -> (r: Option<String>)
    ensures
        value@.len() == 0 ==> r is None,
        value@.len() > 0 ==> (r matches Some(s) && s@ == value@),
{
    if value.is_empty() {
        None
    } else {
        Some(value.to_owned())
    }
}

/// How a running sign-in ended.
#[derive(Debug, Clone, Copy, PartialEq, Eq, Structural)]
pub enum SignInResult {
    Authenticated,
    Cancelled,
    NeedsMailboxPassword,
    Failed(AuthError),
}

/// Which fields of the sign-in form to wipe.
#[derive(Debug, Clone, Copy, PartialEq, Eq, Structural)]
pub enum Forget {
    /// The password, code and mailbox password.
    Secrets,
    /// The code, which expires.
    Totp,
    MailboxPassword,
}

/// Whether the end of a sign-in still matters: it belongs to the attempt
/// running now, and a sign-in is running.
pub open spec fn sign_in_current(same_attempt: bool, state: AuthState) -> bool {
    same_attempt && !(state is CheckingSession || state is SignedOut || state is Authenticated || state is SigningOut)
}

pub fn sign_in_is_current(same_attempt: bool, state: &AuthState) -> (r: bool)
    ensures
        r == sign_in_current(same_attempt, *state),
{
    same_attempt && match state {
        AuthState::CheckingSession | AuthState::SignedOut | AuthState::Authenticated { .. } | AuthState::SigningOut => false,
        _ => true,
    }
}

/// Where a sign-in that did not get through leaves the form: the state to
/// show, the error to show with it, and what to wipe. A wrong code asks for
/// the code again and a wrong mailbox password for that password; anything
/// else that failed goes back to the start. `None` when it got through.
pub open spec fn after_sign_in_spec(result: SignInResult) -> Option<(AuthState, Option<AuthError>, Forget)> {
    match result {
        SignInResult::Authenticated => None,
        SignInResult::Cancelled => Some((AuthState::SignedOut, None, Forget::Secrets)),
        SignInResult::NeedsMailboxPassword => Some((AuthState::NeedsMailboxPassword, None, Forget::MailboxPassword)),
        SignInResult::Failed(AuthError::InvalidTotp) => Some((AuthState::NeedsTotp, Some(AuthError::InvalidTotp), Forget::Totp)),
        SignInResult::Failed(AuthError::InvalidMailboxPassword) => Some((
            AuthState::NeedsMailboxPassword,
            Some(AuthError::InvalidMailboxPassword),
            Forget::MailboxPassword,
        )),
        SignInResult::Failed(e) => Some((AuthState::SignedOut, Some(e), Forget::Secrets)),
    }
}

pub fn after_sign_in(result: SignInResult) -> (r: Option<(AuthState, Option<AuthError>, Forget)>)
    ensures
        r == after_sign_in_spec(result),
{
    match result {
        SignInResult::Authenticated => None,
        SignInResult::Cancelled => Some((AuthState::SignedOut, None, Forget::Secrets)),
        SignInResult::NeedsMailboxPassword => Some((AuthState::NeedsMailboxPassword, None, Forget::MailboxPassword)),
        SignInResult::Failed(AuthError::InvalidTotp) => Some((AuthState::NeedsTotp, Some(AuthError::InvalidTotp), Forget::Totp)),
        SignInResult::Failed(AuthError::InvalidMailboxPassword) => Some((
            AuthState::NeedsMailboxPassword,
            Some(AuthError::InvalidMailboxPassword),
            Forget::MailboxPassword,
        )),
        SignInResult::Failed(e) => Some((AuthState::SignedOut, Some(e), Forget::Secrets)),
    }
}

/// Whether a sign-in can be called off: only while one is running or
/// waiting on an answer.
pub open spec fn cancellable_spec(state: AuthState) -> bool {
    state is SigningIn || state is NeedsTotp || state is NeedsMailboxPassword || state is NeedsHumanVerification
}

pub fn cancellable(state: &AuthState) -> (r: bool)
    ensures
        r == cancellable_spec(*state),
{
    match state {
        AuthState::SigningIn(_) | AuthState::NeedsTotp | AuthState::NeedsMailboxPassword | AuthState::NeedsHumanVerification { .. } => true,
        _ => false,
    }
}

/// What pressing the sign-in button does.
#[derive(Debug, Clone, PartialEq, Eq)]
pub enum Submission {
    /// No form is on show: nothing happens.
    Ignored,
    /// A field is missing; the form says which.
    Missing(AuthError),
    /// A sign-in starts from this step, with the trimmed username, the
    /// trimmed code if there is one, and the mailbox password as typed if
    /// there is one. The password goes as typed.
    Start { step: SignInStep, username: String, totp: Option<String>, mailbox_password: Option<String> },
}

/// The form's fields, checked in the order they are asked for: the step
/// comes from the state, the first missing field is named, and otherwise
/// a sign-in starts with what was typed.
pub open spec fn submission_spec(
    state: AuthState,
    username: Seq<char>,
    password: Seq<char>,
    totp: Seq<char>,
    mailbox_password: Seq<char>,
    r: Submission,
) -> bool {
    match step_from(state) {
        None => r is Ignored,
        Some(step) => match missing(step, username, password, totp, mailbox_password) {
            Some(e) => r == Submission::Missing(e),
            None => r matches Submission::Start { step: st, username: u, totp: t, mailbox_password: m } && {
                &&& st == step
                &&& u@ == trimmed(username)
                &&& (trimmed(totp).len() == 0 ==> t is None)
                &&& (trimmed(totp).len() > 0 ==> (t matches Some(c) && c@ == trimmed(totp)))
                &&& (mailbox_password.len() == 0 ==> m is None)
                &&& (mailbox_password.len() > 0 ==> (m matches Some(p) && p@ == mailbox_password))
            },
        },
    }
}

pub fn submit(state: &AuthState, username: &str, password: &str, totp: &str, mailbox_password: &str) -> (r: Submission)
    ensures
        submission_spec(*state, username@, password@, totp@, mailbox_password@, r),
{
    let step = match sign_in_step(state) {
        None => return Submission::Ignored,
        Some(step) => step,
    };
    if let Some(e) = missing_for_sign_in(step, username, password, totp, mailbox_password) {
        return Submission::Missing(e);
    }
    Submission::Start {
        step,
        username: trim(username),
        totp: trimmed_code(totp),
        mailbox_password: typed_secret(mailbox_password),
    }
}

/// What the end of a sign-in does.
#[derive(Debug, Clone, PartialEq, Eq)]
pub enum SignInEnd {
    /// It belongs to no running attempt: nothing changes.
    Ignored,
    /// The account opens.
    Authenticated,
    /// The form shows this state and error, with these fields wiped.
    Back(AuthState, Option<AuthError>, Forget),
}

/// The end of a sign-in, heard only while its attempt is the one running:
/// success opens the account, and anything else goes back to the form as
/// `after_sign_in` says.
pub fn finish_sign_in(same_attempt: bool, state: &AuthState, result: SignInResult) -> (r: SignInEnd)
    ensures
        !sign_in_current(same_attempt, *state) ==> r is Ignored,
        sign_in_current(same_attempt, *state) ==> r == (match after_sign_in_spec(result) {
            None => SignInEnd::Authenticated,
            Some((s, e, f)) => SignInEnd::Back(s, e, f),
        }),
{
    if !sign_in_is_current(same_attempt, state) {
        return SignInEnd::Ignored;
    }
    match after_sign_in(result) {
        None => SignInEnd::Authenticated,
        Some((s, e, f)) => SignInEnd::Back(s, e, f),
    }
}

} // verus!
