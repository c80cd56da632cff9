//! When a conversation is shown as separate rows and when it stays one.

use ruston_mail::threading::{is_repeated_inbound, needs_inspection, normalize_address, MessageFacts};

const BANK: &str = "notifications@bank.example.com";
const FRIEND: &str = "friend@example.com";
const ME: &str = "me@proton.me";
const ME_ALIAS: &str = "me@pm.me";

fn own() -> Vec<String> {
    [ME, ME_ALIAS].into_iter().map(str::to_owned).collect()
}

fn from(sender: &str) -> MessageFacts {
    MessageFacts {
        sender: normalize_address(sender),
        answered: false,
    }
}

fn senders(addresses: &[&str]) -> Vec<String> {
    addresses.iter().map(|a| normalize_address(a)).collect()
}

#[test]
fn single_message_stays_a_single_row() {
    assert!(!needs_inspection(1, &senders(&[BANK]), &own()));
    assert!(!is_repeated_inbound(&vec![from(BANK)], &own()));
}

#[test]
fn repeated_inbound_mail_from_one_sender_is_split() {
    assert!(needs_inspection(3, &senders(&[BANK]), &own()));
    assert!(is_repeated_inbound(
        &vec![from(BANK), from(BANK), from(BANK)],
        &own()
    ));
}

#[test]
fn back_and_forth_exchange_stays_grouped() {
    assert!(!is_repeated_inbound(
        &vec![from(FRIEND), from(ME), from(FRIEND)],
        &own()
    ));
}

#[test]
fn conversation_started_by_the_user_stays_grouped() {
    assert!(!needs_inspection(2, &senders(&[ME, FRIEND]), &own()));
    assert!(!is_repeated_inbound(&vec![from(ME), from(FRIEND)], &own()));
}

#[test]
fn self_conversation_stays_grouped() {
    assert!(!needs_inspection(2, &senders(&[ME]), &own()));
    assert!(!is_repeated_inbound(&vec![from(ME), from(ME_ALIAS)], &own()));
    assert!(!is_repeated_inbound(&vec![from(ME), from(ME)], &own()));
}

#[test]
fn several_external_senders_stay_grouped() {
    assert!(!needs_inspection(2, &senders(&[BANK, FRIEND]), &own()));
    assert!(!is_repeated_inbound(&vec![from(BANK), from(FRIEND)], &own()));
}

#[test]
fn answered_messages_stay_grouped() {
    let mut replied = from(BANK);
    replied.answered = true;

    assert!(!is_repeated_inbound(&vec![from(BANK), replied], &own()));
}

#[test]
fn unknown_senders_stay_grouped() {
    assert!(!needs_inspection(2, &senders(&[""]), &own()));
    assert!(!needs_inspection(2, &Vec::new(), &own()));
    assert!(!is_repeated_inbound(&vec![from(""), from("")], &own()));
}

#[test]
fn addresses_compare_case_insensitively() {
    assert!(is_repeated_inbound(
        &vec![from(BANK), from(&BANK.to_uppercase())],
        &own()
    ));
    assert!(!needs_inspection(2, &senders(&["  ME@Proton.me "]), &own()));
}

#[test]
fn normalizing_trims_and_lowers_ascii() {
    assert_eq!(normalize_address("  Friend@Example.COM\t"), "friend@example.com");
    assert_eq!(normalize_address(""), "");
}
