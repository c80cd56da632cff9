//! The short texts the interface shows.

use ruston_mail::labels::{
    address_label, message_count_label, recipients_label, size_label, title_label,
};
use ruston_mail::model::MailAddress;

fn address(name: Option<&str>, email: &str) -> MailAddress {
    MailAddress {
        name: name.map(str::to_owned),
        address: email.to_owned(),
    }
}

#[test]
fn the_title_carries_unread_mail_only_when_there_is_some() {
    assert_eq!(title_label(Some(3), false), "Ruston Mail (3)");
    assert_eq!(title_label(Some(0), false), "Ruston Mail");
    assert_eq!(title_label(None, false), "Ruston Mail");
    assert_eq!(title_label(Some(3), true), "Ruston Mail (demo) (3)");
}

#[test]
fn addresses_fall_back_safely() {
    assert_eq!(
        address_label(&address(Some("Alex Rivera"), "alex@example.com")),
        "Alex Rivera <alex@example.com>"
    );
    assert_eq!(
        address_label(&address(None, "team@example.org")),
        "team@example.org"
    );
    assert_eq!(
        address_label(&address(Some(""), "team@example.org")),
        "team@example.org"
    );
    assert_eq!(address_label(&address(Some("Alex"), "")), "Alex");
    assert_eq!(address_label(&MailAddress::default()), "(unknown)");
}

#[test]
fn recipients_keep_every_address() {
    let recipients: Vec<_> = (0..12)
        .map(|index| address(None, &format!("person{index}@example.com")))
        .collect();
    let label = recipients_label(&recipients);
    for recipient in &recipients {
        assert!(label.contains(&recipient.address));
    }
    assert_eq!(recipients_label(&Vec::new()), "(no recipients)");
}

#[test]
fn sizes_read_at_a_glance() {
    assert_eq!(size_label(0), "0.0 KB");
    assert_eq!(size_label(1_024), "1.0 KB");
    assert_eq!(size_label(20 * 1_024), "20 KB");
    assert_eq!(size_label(1_024 * 1_024), "1.0 MB");
    assert_eq!(size_label(15 * 1_024 * 1_024), "15 MB");
    assert_eq!(size_label(3 * 1_024 * 1_024 * 1_024), "3.0 GB");
}

#[test]
fn sizes_round_the_way_a_float_prints() {
    // 1536 bytes is exactly one and a half kilobytes.
    assert_eq!(size_label(1_536), "1.5 KB");
    // A quarter tenth rounds to the even digit, as float formatting does.
    assert_eq!(size_label(256), "0.2 KB");
    // Just under ten kilobytes rounds up to ten, still with one decimal.
    assert_eq!(size_label(10_239), "10.0 KB");
    assert_eq!(size_label(5 * 1_024 * 1_024 * 1_024 * 1_024), "5120 GB");
}

#[test]
fn message_counts_are_pluralized() {
    assert_eq!(message_count_label(0), "No messages");
    assert_eq!(message_count_label(1), "1 message");
    assert_eq!(message_count_label(7), "7 messages");
}

#[test]
fn search_scope_says_what_the_list_is_showing() {
    let narrowing = ruston_mail::labels::search_scope_label(None, 50);
    assert!(narrowing.contains("50 conversations loaded so far"));
    assert!(narrowing.contains("Enter"));
    assert!(ruston_mail::labels::search_scope_label(None, 1).contains("1 conversation loaded"));
    let found = ruston_mail::labels::search_scope_label(Some("invoice"), 50);
    assert!(found.contains("invoice"));
    assert!(!found.contains("Enter"));
    assert_eq!(found, "Showing what the server found for “invoice”.");
    assert_eq!(
        ruston_mail::labels::search_scope_label(None, 0),
        "Narrowing the 0 conversations loaded so far. Press Enter to search all mail."
    );
}
