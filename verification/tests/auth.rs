//! How signing in moves from step to step.

use ruston_mail::auth::{
    after_sign_in, cancellable, finish_sign_in, missing_for_sign_in, sign_in_is_current, sign_in_step,
    submit, trimmed_code, typed_secret, AuthState, Forget, SignInEnd, SignInResult, SignInStep,
    Submission,
};
use ruston_mail::service::AuthError;

#[test]
fn a_sign_in_starts_only_from_a_form() {
    assert_eq!(sign_in_step(&AuthState::SignedOut), Some(SignInStep::Credentials));
    assert_eq!(sign_in_step(&AuthState::NeedsTotp), Some(SignInStep::Totp));
    assert_eq!(sign_in_step(&AuthState::NeedsMailboxPassword), Some(SignInStep::MailboxPassword));
    assert_eq!(sign_in_step(&AuthState::CheckingSession), None);
    assert_eq!(sign_in_step(&AuthState::SigningIn(SignInStep::Credentials)), None);
    assert_eq!(sign_in_step(&AuthState::Authenticated { email: None }), None);
}

#[test]
fn missing_fields_are_named_first_things_first() {
    assert_eq!(
        missing_for_sign_in(SignInStep::Credentials, "  ", "", "", ""),
        Some(AuthError::UsernameRequired)
    );
    assert_eq!(
        missing_for_sign_in(SignInStep::Credentials, "me", "", "", ""),
        Some(AuthError::PasswordRequired)
    );
    // A password is taken as typed: spaces are a password.
    assert_eq!(missing_for_sign_in(SignInStep::Credentials, "me", " ", "", ""), None);
    assert_eq!(
        missing_for_sign_in(SignInStep::Totp, "me", "pw", " ", ""),
        Some(AuthError::TotpRequired)
    );
    assert_eq!(
        missing_for_sign_in(SignInStep::MailboxPassword, "me", "pw", "", ""),
        Some(AuthError::MailboxPasswordRequired)
    );
    assert_eq!(missing_for_sign_in(SignInStep::MailboxPassword, "me", "pw", "", " "), None);
}

#[test]
fn a_code_is_trimmed_and_a_mailbox_password_is_not() {
    assert_eq!(trimmed_code(" 123456 ").as_deref(), Some("123456"));
    assert_eq!(trimmed_code("   "), None);
    assert_eq!(typed_secret(" secret ").as_deref(), Some(" secret "));
    assert_eq!(typed_secret(""), None);
}

#[test]
fn only_the_running_attempt_is_heard() {
    assert!(sign_in_is_current(true, &AuthState::SigningIn(SignInStep::Totp)));
    assert!(sign_in_is_current(true, &AuthState::NeedsTotp));
    assert!(!sign_in_is_current(false, &AuthState::SigningIn(SignInStep::Totp)));
    assert!(!sign_in_is_current(true, &AuthState::SignedOut));
    assert!(!sign_in_is_current(true, &AuthState::SigningOut));
    assert!(!sign_in_is_current(true, &AuthState::Authenticated { email: None }));
}

#[test]
fn a_failed_sign_in_asks_again_for_what_was_wrong() {
    assert_eq!(after_sign_in(SignInResult::Authenticated), None);
    assert_eq!(
        after_sign_in(SignInResult::Cancelled),
        Some((AuthState::SignedOut, None, Forget::Secrets))
    );
    assert_eq!(
        after_sign_in(SignInResult::NeedsMailboxPassword),
        Some((AuthState::NeedsMailboxPassword, None, Forget::MailboxPassword))
    );
    assert_eq!(
        after_sign_in(SignInResult::Failed(AuthError::InvalidTotp)),
        Some((AuthState::NeedsTotp, Some(AuthError::InvalidTotp), Forget::Totp))
    );
    assert_eq!(
        after_sign_in(SignInResult::Failed(AuthError::InvalidMailboxPassword)),
        Some((
            AuthState::NeedsMailboxPassword,
            Some(AuthError::InvalidMailboxPassword),
            Forget::MailboxPassword
        ))
    );
    assert_eq!(
        after_sign_in(SignInResult::Failed(AuthError::Connection)),
        Some((AuthState::SignedOut, Some(AuthError::Connection), Forget::Secrets))
    );
}

#[test]
fn only_a_running_sign_in_can_be_called_off() {
    assert!(cancellable(&AuthState::SigningIn(SignInStep::Credentials)));
    assert!(cancellable(&AuthState::NeedsTotp));
    assert!(cancellable(&AuthState::NeedsMailboxPassword));
    assert!(cancellable(&AuthState::NeedsHumanVerification { url: "https://verify.proton.me".to_owned() }));
    assert!(!cancellable(&AuthState::SignedOut));
    assert!(!cancellable(&AuthState::CheckingSession));
    assert!(!cancellable(&AuthState::Authenticated { email: None }));
}

#[test]
fn pressing_sign_in_starts_from_the_form_on_show() {
    assert_eq!(submit(&AuthState::CheckingSession, "me", "pw", "", ""), Submission::Ignored);
    assert_eq!(
        submit(&AuthState::SignedOut, " ", "pw", "", ""),
        Submission::Missing(AuthError::UsernameRequired)
    );
    assert_eq!(
        submit(&AuthState::SignedOut, " me@proton.me ", "pw", "", " secret "),
        Submission::Start {
            step: SignInStep::Credentials,
            username: "me@proton.me".to_owned(),
            totp: None,
            mailbox_password: Some(" secret ".to_owned()),
        }
    );
    assert_eq!(
        submit(&AuthState::NeedsTotp, "me", "pw", " 123456 ", ""),
        Submission::Start {
            step: SignInStep::Totp,
            username: "me".to_owned(),
            totp: Some("123456".to_owned()),
            mailbox_password: None,
        }
    );
}

#[test]
fn the_end_of_a_sign_in_counts_only_for_the_running_attempt() {
    let running = AuthState::SigningIn(SignInStep::Credentials);
    assert_eq!(finish_sign_in(false, &running, SignInResult::Authenticated), SignInEnd::Ignored);
    assert_eq!(
        finish_sign_in(true, &AuthState::SignedOut, SignInResult::Authenticated),
        SignInEnd::Ignored
    );
    assert_eq!(finish_sign_in(true, &running, SignInResult::Authenticated), SignInEnd::Authenticated);
    assert_eq!(
        finish_sign_in(true, &running, SignInResult::Failed(AuthError::InvalidTotp)),
        SignInEnd::Back(AuthState::NeedsTotp, Some(AuthError::InvalidTotp), Forget::Totp)
    );
}
