//! Where human verification is sent, and what failures of the service mean.

use ruston_mail::auth::SignInResult;
use ruston_mail::model::MailboxError;
use ruston_mail::proton::{
    map_mailbox_error, map_sign_in_error, mentions_credentials, mentions_totp, percent_encode,
    verification_url, ServiceError,
};
use ruston_mail::service::AuthError;

#[test]
fn verification_page_stays_on_proton() {
    assert_eq!(
        verification_url("", "a b/c"),
        "https://verify.proton.me/?methods=captcha&token=a%20b%2Fc"
    );
    assert_eq!(
        verification_url("https://verify-api.proton.me/x?y=1", "t"),
        "https://verify-api.proton.me/?methods=captcha&token=t"
    );
    for untrusted in [
        "http://verify.proton.me/",
        "https://proton.me.example.com/",
        "https://evil@verify.proton.me/",
        "https://example.com/",
    ] {
        assert!(
            verification_url(untrusted, "t").starts_with("https://verify.proton.me/?"),
            "{untrusted}"
        );
    }
}

#[test]
fn tokens_are_percent_encoded_byte_by_byte() {
    assert_eq!(percent_encode("a-b_c.d~e"), "a-b_c.d~e");
    assert_eq!(percent_encode("é"), "%C3%A9");
    assert_eq!(percent_encode("a+b=c"), "a%2Bb%3Dc");
}

#[test]
fn sign_in_failures_say_what_to_fix() {
    assert_eq!(
        map_sign_in_error(&ServiceError::Other("sign-in cancelled".into()), false, false),
        SignInResult::Cancelled
    );
    assert_eq!(
        map_sign_in_error(
            &ServiceError::Other("this account uses a separate mailbox password".into()),
            false,
            false
        ),
        SignInResult::NeedsMailboxPassword
    );
    assert_eq!(
        map_sign_in_error(&ServiceError::Unauthorized, true, false),
        SignInResult::Failed(AuthError::InvalidTotp)
    );
    assert_eq!(
        map_sign_in_error(&ServiceError::Unauthorized, false, false),
        SignInResult::Failed(AuthError::InvalidCredentials)
    );
    let api = ServiceError::Api {
        http_status: 422,
        code: 8002,
        message: "Incorrect 2FA code".into(),
    };
    assert_eq!(
        map_sign_in_error(&api, true, false),
        SignInResult::Failed(AuthError::InvalidTotp)
    );
    assert_eq!(
        map_sign_in_error(&api, false, false),
        SignInResult::Failed(AuthError::Service {
            http_status: 422,
            code: 8002
        })
    );
    assert_eq!(
        map_sign_in_error(
            &ServiceError::Crypto("no user key could be unlocked".into()),
            false,
            true
        ),
        SignInResult::Failed(AuthError::InvalidMailboxPassword)
    );
}

#[test]
fn mailbox_failures_tell_an_expired_session_apart() {
    assert_eq!(
        map_mailbox_error(&ServiceError::Unauthorized),
        MailboxError::SessionExpired
    );
    assert_eq!(
        map_mailbox_error(&ServiceError::Api {
            http_status: 401,
            code: 0,
            message: String::new()
        }),
        MailboxError::SessionExpired
    );
    assert_eq!(map_mailbox_error(&ServiceError::Http), MailboxError::Connection);
    assert_eq!(map_mailbox_error(&ServiceError::Io), MailboxError::Unavailable);
}

#[test]
fn messages_are_read_without_regard_to_case() {
    assert!(mentions_totp("TOTP required"));
    assert!(mentions_totp("Two-Factor failed"));
    assert!(!mentions_totp("password"));
    assert!(mentions_credentials("Wrong Password"));
    assert!(!mentions_credentials("totp"));
}

fn person(name: &str, address: &str) -> ruston_mail::proton::Recipient {
    ruston_mail::proton::Recipient {
        name: name.to_owned(),
        address: address.to_owned(),
    }
}

#[test]
fn long_correspondent_lists_are_shortened() {
    let people: Vec<_> = ["A", "B", "C", "D"]
        .into_iter()
        .map(|name| person(name, ""))
        .collect();

    assert_eq!(ruston_mail::proton::display_names(&people).as_deref(), Some("A, B, C, …"));
}

#[test]
fn correspondents_are_named_by_name_then_address() {
    let people = vec![
        person("  Alex ", "alex@example.com"),
        person("", " sam@example.com "),
        person(" ", "  "),
    ];
    assert_eq!(
        ruston_mail::proton::display_names(&people).as_deref(),
        Some("Alex, sam@example.com")
    );
    assert_eq!(ruston_mail::proton::display_names(&vec![person("", "")]), None);
    assert_eq!(ruston_mail::proton::display_names(&Vec::new()), None);
    let three = vec![person("A", ""), person("B", ""), person("C", "")];
    assert_eq!(ruston_mail::proton::display_names(&three).as_deref(), Some("A, B, C"));
}
