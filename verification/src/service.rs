//! Why signing in or keeping a session failed, in words a person can act on.

use vstd::prelude::*;

use crate::text::{decimal, decimal_string};

verus! {

#[derive(Debug, Clone, Copy, PartialEq, Eq, Structural)]
pub enum AuthError {
    UsernameRequired,
    PasswordRequired,
    TotpRequired,
    MailboxPasswordRequired,
    InvalidCredentials,
    InvalidTotp,
    InvalidMailboxPassword,
    Connection,
    HumanVerificationRequired,
    SecurityKeyUnsupported,
    SessionUnavailable,
    SessionExpired,
    Service { http_status: u16, code: i64 },
    AuthenticationUnavailable,
}

/// A whole number in decimal, with a minus sign when it is negative.
pub open spec fn signed_decimal(n: int) -> Seq<char> {
    if n < 0 {
        "-"@ + decimal((-n) as nat)
    } else {
        decimal(n as nat)
    }
}

/// Writes a whole number in decimal, as `{}` formats it.
pub fn signed_decimal_string(n: i64) -> (r: String)
    ensures
        r@ == signed_decimal(n as int),
{
    if n < 0 {
        proof {
            reveal_strlit("-");
        }
        let magnitude = (-(n as i128)) as u64;
        "-".to_owned().concat(decimal_string(magnitude).as_str())
    } else {
        decimal_string(n as u64)
    }
}

/// What a sign-in error says. A refusal by the service shows only the
/// status and code, never what the service wrote.
pub open spec fn auth_error_text(e: AuthError) -> Seq<char> {
    match e {
        AuthError::UsernameRequired => "Enter your Proton username or email."@,
        AuthError::PasswordRequired => "Enter your Proton password."@,
        AuthError::TotpRequired => "Enter your authentication code."@,
        AuthError::MailboxPasswordRequired => "Enter your mailbox password."@,
        AuthError::InvalidCredentials => "The username or password is incorrect."@,
        AuthError::InvalidTotp => "The authentication code is invalid."@,
        AuthError::InvalidMailboxPassword => "The mailbox password is incorrect."@,
        AuthError::Connection => "Ruston Mail could not connect to Proton."@,
        AuthError::HumanVerificationRequired => "Proton requires human verification. Ruston Mail does not support this flow yet."@,
        AuthError::SecurityKeyUnsupported => "This account requires FIDO2/WebAuthn, which Ruston Mail does not support yet."@,
        AuthError::SessionUnavailable => "Ruston Mail could not access the saved Proton session."@,
        AuthError::SessionExpired => "Your Proton session has expired. Sign in again."@,
        AuthError::Service { http_status, code } => "Proton Mail rejected the request. (HTTP "@ + decimal(
            http_status as nat,
        ) + ", code "@ + signed_decimal(code as int) + ")"@,
        AuthError::AuthenticationUnavailable => "Ruston Mail could not complete authentication. Try again."@,
    }
}

impl AuthError {
    /// What the error says, as the sign-in form shows it.
    pub fn message(&self) -> (r: String)
        ensures
            r@ == auth_error_text(*self),
    {
        match self {
            AuthError::UsernameRequired => "Enter your Proton username or email.".to_owned(),
            AuthError::PasswordRequired => "Enter your Proton password.".to_owned(),
            AuthError::TotpRequired => "Enter your authentication code.".to_owned(),
            AuthError::MailboxPasswordRequired => "Enter your mailbox password.".to_owned(),
            AuthError::InvalidCredentials => "The username or password is incorrect.".to_owned(),
            AuthError::InvalidTotp => "The authentication code is invalid.".to_owned(),
            AuthError::InvalidMailboxPassword => "The mailbox password is incorrect.".to_owned(),
            AuthError::Connection => "Ruston Mail could not connect to Proton.".to_owned(),
            AuthError::HumanVerificationRequired => "Proton requires human verification. Ruston Mail does not support this flow yet.".to_owned(),
            AuthError::SecurityKeyUnsupported => "This account requires FIDO2/WebAuthn, which Ruston Mail does not support yet.".to_owned(),
            AuthError::SessionUnavailable => "Ruston Mail could not access the saved Proton session.".to_owned(),
            AuthError::SessionExpired => "Your Proton session has expired. Sign in again.".to_owned(),
            AuthError::Service { http_status, code } => {
                proof {
                    reveal_strlit("Proton Mail rejected the request. (HTTP ");
                    reveal_strlit(", code ");
                    reveal_strlit(")");
                }
                "Proton Mail rejected the request. (HTTP ".to_owned().concat(
                    decimal_string(*http_status as u64).as_str(),
                ).concat(", code ").concat(signed_decimal_string(*code).as_str()).concat(")")
            },
            AuthError::AuthenticationUnavailable => "Ruston Mail could not complete authentication. Try again.".to_owned(),
        }
    }
}

} // verus!
