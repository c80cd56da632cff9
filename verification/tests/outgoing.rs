//! What leaves when a message is sent: recipients read from the fields,
//! and a body as plain text or as HTML that only ever shows what was typed.

use ruston_mail::outgoing::{recipients, BodyFormat, Kind, Outgoing, Recipients, SendError};

#[test]
fn a_field_can_name_several_people() {
    let read = recipients("alex@example.com, sam@example.org; jo@example.net");

    assert_eq!(
        read.accepted,
        ["alex@example.com", "sam@example.org", "jo@example.net"]
    );
    assert!(read.rejected.is_empty());
}

#[test]
fn the_same_person_is_only_written_to_once() {
    // However it was typed: a duplicate is a slip, not an instruction.
    let read = recipients("alex@example.com, Alex@Example.com , alex@example.com");

    assert_eq!(read.accepted, ["alex@example.com"]);
}

#[test]
fn what_is_not_an_address_is_kept_to_be_pointed_at() {
    // Dropping it silently would send the mail to fewer people than the
    // sender believes, which is worse than refusing.
    let read = recipients("alex@example.com, not-an-address, @nowhere, a@b");

    assert_eq!(read.accepted, ["alex@example.com"]);
    assert_eq!(read.rejected, ["not-an-address", "@nowhere", "a@b"]);
}

#[test]
fn an_empty_field_names_nobody() {
    assert_eq!(recipients(""), Recipients::default());
    assert_eq!(recipients("  ,  ; "), Recipients::default());
}

#[test]
fn ordinary_addresses_are_not_turned_away() {
    for address in [
        "a@b.co",
        "first.last@example.co.uk",
        "user+tag@example.com",
        "user_name@sub.example.org",
        "1@2.com",
    ] {
        assert_eq!(
            recipients(address).accepted,
            [address],
            "{address} was refused"
        );
    }
}

fn html(body: &str) -> String {
    Outgoing {
        kind: Kind::New,
        to: Vec::new(),
        cc: Vec::new(),
        bcc: Vec::new(),
        subject: String::new(),
        body: body.to_owned(),
        format: BodyFormat::Html,
        attachments: Vec::new(),
    }
    .wire_body()
}

#[test]
fn plain_text_leaves_exactly_as_it_was_typed() {
    let typed = "Hi Alex,\n\nThe < sign & the rest.\n";
    let message = Outgoing {
        kind: Kind::New,
        to: Vec::new(),
        cc: Vec::new(),
        bcc: Vec::new(),
        subject: String::new(),
        body: typed.to_owned(),
        format: BodyFormat::PlainText,
        attachments: Vec::new(),
    };

    assert_eq!(message.wire_body(), typed);
    assert!(!message.is_html());
}

#[test]
fn html_keeps_the_shape_of_what_was_typed() {
    assert_eq!(
        html("Hi Alex,\nHow are you?\n\nSee you Thursday."),
        "<p>Hi Alex,<br>How are you?</p>\n<p>See you Thursday.</p>"
    );
    // Blank lines around and between do not become empty paragraphs.
    assert_eq!(html("\n\nOnly this.\n\n\n"), "<p>Only this.</p>");
    assert_eq!(html("   "), "");
}

#[test]
fn a_tag_that_was_typed_is_shown_not_obeyed() {
    // Nothing anyone types may become markup in the recipient's client.
    assert_eq!(
        html("2 < 3 & \"quoted\" <b>not bold</b>"),
        "<p>2 &lt; 3 &amp; &quot;quoted&quot; &lt;b&gt;not bold&lt;/b&gt;</p>"
    );
    assert!(!html("<script>alert(1)</script>").contains("<script"));
}

#[test]
fn send_error_messages_match_expectation() {
    assert_eq!(
        SendError::MissingAttachment("photo.jpg".into()).message(),
        "Attachment cannot be found: photo.jpg"
    );
    assert!(SendError::DemoLimitReached.message().contains("Restart"));
    assert!(SendError::Unconfirmed.message().contains("Check Sent"));
    assert!(!SendError::Unconfirmed.message().contains("was not sent"));
}

