//! What sign-in errors say.

use ruston_mail::auth::{after_sign_in, missing_for_sign_in, AuthState, Forget, SignInResult, SignInStep};
use ruston_mail::service::AuthError;

#[test]
fn service_error_shows_status_and_code() {
    let error = AuthError::Service {
        http_status: 422,
        code: 5003,
    };

    assert_eq!(
        error.message(),
        "Proton Mail rejected the request. (HTTP 422, code 5003)"
    );
}

#[test]
fn other_errors_keep_their_messages() {
    assert_eq!(
        AuthError::InvalidCredentials.message(),
        "The username or password is incorrect."
    );
    assert_eq!(
        AuthError::HumanVerificationRequired.message(),
        "Proton requires human verification. Ruston Mail does not support this flow yet."
    );
}

#[test]
fn a_negative_code_keeps_its_sign() {
    let error = AuthError::Service {
        http_status: 500,
        code: -1,
    };
    assert_eq!(
        error.message(),
        "Proton Mail rejected the request. (HTTP 500, code -1)"
    );
}

#[test]
fn a_sign_in_asks_for_what_is_missing_first_things_first() {
    let step = SignInStep::Credentials;
    assert_eq!(
        missing_for_sign_in(step, "  ", "secret", "", ""),
        Some(AuthError::UsernameRequired)
    );
    assert_eq!(
        missing_for_sign_in(step, "alex", "", "", ""),
        Some(AuthError::PasswordRequired)
    );
    assert_eq!(missing_for_sign_in(step, "alex", " ", "", ""), None);
    assert_eq!(
        missing_for_sign_in(SignInStep::Totp, "alex", "pw", " ", ""),
        Some(AuthError::TotpRequired)
    );
    assert_eq!(
        missing_for_sign_in(SignInStep::MailboxPassword, "alex", "pw", "", ""),
        Some(AuthError::MailboxPasswordRequired)
    );
}

#[test]
fn a_refused_code_asks_for_the_code_again() {
    assert_eq!(
        after_sign_in(SignInResult::Failed(AuthError::InvalidTotp)),
        Some((AuthState::NeedsTotp, Some(AuthError::InvalidTotp), Forget::Totp))
    );
    assert_eq!(
        after_sign_in(SignInResult::Failed(AuthError::Connection)),
        Some((AuthState::SignedOut, Some(AuthError::Connection), Forget::Secrets))
    );
    assert_eq!(after_sign_in(SignInResult::Authenticated), None);
}
