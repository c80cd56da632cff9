//! Writing a message: what it needs before it can leave, and what leaves.

use ruston_mail::compose::{Compose, ComposeField, NotReady, Sending};
use ruston_mail::outgoing::{BodyFormat, Kind, SendError};

fn written(to: &str) -> Compose {
    let mut compose = Compose::default();
    compose.set(ComposeField::To, to.to_owned());
    compose.set(ComposeField::Subject, "  Thursday  ".to_owned());
    compose.set(ComposeField::Body, "See you then.".to_owned());
    compose
}

#[test]
fn a_message_needs_someone_to_go_to() {
    let mut compose = Compose::default();
    assert_eq!(compose.not_ready(), Some(NotReady::NoRecipients));

    compose.set(ComposeField::Subject, "Thursday".to_owned());
    assert_eq!(compose.not_ready(), Some(NotReady::NoRecipients));

    compose.set(ComposeField::To, "alex@example.com".to_owned());
    assert_eq!(compose.not_ready(), None);
}

#[test]
fn a_copy_field_alone_is_enough_to_send() {
    let mut compose = Compose::default();
    compose.set(ComposeField::Bcc, "alex@example.com".to_owned());

    assert_eq!(compose.not_ready(), None);
}

#[test]
fn one_bad_address_stops_the_whole_message() {
    // Sending to everyone else and quietly dropping the rest would reach
    // fewer people than the sender believes.
    let mut compose = written("alex@example.com, oops");
    compose.set(ComposeField::Cc, "also-wrong".to_owned());

    let Some(NotReady::BadAddresses(pieces)) = compose.not_ready() else {
        panic!("expected the addresses to be refused");
    };
    assert_eq!(pieces, ["oops", "also-wrong"]);
    assert!(compose.not_ready().unwrap().message().contains("oops"));
}

#[test]
fn a_ready_message_carries_what_was_typed() {
    let compose = written("alex@example.com; sam@example.org");
    let outgoing = compose.ready(BodyFormat::PlainText).unwrap();

    assert_eq!(outgoing.to, ["alex@example.com", "sam@example.org"]);
    // A subject is tidied, a body is not: its spacing is the message.
    assert_eq!(outgoing.subject, "Thursday");
    assert_eq!(outgoing.body, "See you then.");
    assert_eq!(outgoing.format, BodyFormat::PlainText);
}

#[test]
fn the_format_comes_from_the_settings_not_the_window() {
    let compose = written("alex@example.com");

    assert!(!compose.ready(BodyFormat::PlainText).unwrap().is_html());
    assert!(compose.ready(BodyFormat::Html).unwrap().is_html());
}

#[test]
fn a_message_with_no_subject_may_still_be_sent() {
    let mut compose = Compose::default();
    compose.set(ComposeField::To, "alex@example.com".to_owned());

    assert_eq!(compose.not_ready(), None);
    assert_eq!(compose.ready(BodyFormat::PlainText).unwrap().subject, "");
}

#[test]
fn typing_after_a_refusal_clears_it() {
    let mut compose = written("alex@example.com");
    compose.fail(SendError::DemoLimitReached);

    compose.set(ComposeField::Body, "Actually, Friday.".to_owned());

    assert_eq!(compose.sending(), Sending::Writing);
}

#[test]
fn editing_does_not_hide_an_unconfirmed_send_warning() {
    let mut compose = written("alex@example.com");
    compose.fail(SendError::Unconfirmed);

    compose.set(ComposeField::Body, "A revised body.".to_owned());
    compose.add_attachments(vec!["note.txt".to_owned()]);
    compose.remove_attachment(0);

    assert_eq!(compose.sending(), Sending::Failed(SendError::Unconfirmed));
}

#[test]
fn an_untouched_message_is_told_from_a_written_one() {
    assert!(Compose::default().is_untouched());
    assert!(!written("alex@example.com").is_untouched());

    let mut spaces = Compose::default();
    spaces.set(ComposeField::Body, "   \n ".to_owned());
    assert!(spaces.is_untouched(), "whitespace is not writing");
}

#[test]
fn attachments_make_a_message_touched() {
    let mut compose = Compose::default();
    assert!(compose.is_untouched());

    compose.add_attachments(vec!["/tmp/test.txt".to_owned()]);
    assert!(!compose.is_untouched());
    assert_eq!(compose.attachments(), &["/tmp/test.txt".to_owned()]);

    compose.remove_attachment(0);
    assert!(compose.attachments().is_empty());
    assert!(compose.is_untouched());
}

#[test]
fn attachments_are_deduplicated() {
    let mut compose = Compose::default();
    compose.add_attachments(vec!["/tmp/test.txt".to_owned(), "/tmp/test.txt".to_owned()]);
    assert_eq!(compose.attachments().len(), 1);
}

#[test]
fn ready_carries_attachments_without_blocking_io() {
    let mut compose = written("alex@example.com");
    let non_existent = "/tmp/this_file_does_not_exist_ruston_test.xyz".to_owned();
    compose.add_attachments(vec![non_existent.clone()]);

    // In-memory readiness must not perform blocking disk I/O.
    assert_eq!(compose.not_ready(), None);

    let outgoing = compose.ready(BodyFormat::PlainText).unwrap();
    assert_eq!(outgoing.attachments, vec![non_existent]);
}

#[test]
fn a_message_in_flight_cannot_be_edited_into_another_state() {
    let mut compose = written("alex@example.com");
    compose.start_sending();
    assert!(compose.in_flight());
    assert_eq!(compose.sending(), Sending::InFlight);
}

#[test]
fn the_window_asks_only_for_what_an_answer_still_needs() {
    let new = Compose::new(1, Kind::New, None);
    assert!(new.asks_for_recipients());
    assert!(new.asks_for_subject());
    let reply = Compose::new(2, Kind::Reply { message_id: "m".to_owned(), everyone: false }, None);
    assert!(!reply.asks_for_recipients());
    assert!(!reply.asks_for_subject());
    let forward = Compose::new(3, Kind::Forward { message_id: "m".to_owned() }, None);
    assert!(forward.asks_for_recipients());
    assert!(!forward.asks_for_subject());

    let mut draft = Compose::new(4, Kind::New, None);
    assert!(!draft.showing_more());
    draft.toggle_more();
    assert!(draft.showing_more());
}
