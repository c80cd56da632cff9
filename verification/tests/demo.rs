//! The fictional mailbox: what it lists, finds and holds, and how actions
//! change it.

use ruston_mail::demo::{fixtures, garden_volunteers, long_body, DemoMailbox, MINUTE, PAGE_SIZE};
use ruston_mail::model::{ConversationDetail, ConversationPage, Folder, MailFolder, MailboxError, MessageBody};

const NOW: i64 = 1_789_000_000;

/// One of Proton's own folders, as a place to list from.
fn sys(folder: MailFolder) -> Folder {
    Folder::System(folder)
}

#[test]
fn search_reaches_every_folder() {
    let mut mailbox = DemoMailbox::new();
    let inbox = mailbox
        .list_conversations(&sys(MailFolder::Inbox), 0, PAGE_SIZE, NOW)
        .unwrap();
    // Taken from the data rather than written here, so the test survives
    // any rewrite of the fictional mail.
    let row = inbox
        .conversations
        .iter()
        .find(|row| row.subject.is_some())
        .expect("the demo inbox has mail with subjects");
    let id = row.id.clone();
    let word = row
        .subject
        .as_deref()
        .unwrap()
        .split_whitespace()
        .find(|word| word.len() >= 4)
        .expect("a subject has a word to search for")
        .to_owned();

    let found = mailbox.search(&word, PAGE_SIZE, NOW).unwrap();
    assert!(found.conversations.iter().any(|found| found.id == id));

    // The row keeps turning up once it has left the Inbox: a search that
    // stopped at the open folder would not be a search.
    assert!(mailbox.move_to(&id, &sys(MailFolder::Archive)));
    let found = mailbox.search(&word, PAGE_SIZE, NOW).unwrap();
    assert!(found.conversations.iter().any(|found| found.id == id));

    // An empty query matches nothing, and the limit is honoured.
    assert!(
        mailbox
            .search("   ", PAGE_SIZE, NOW)
            .unwrap()
            .conversations
            .is_empty()
    );
    assert!(mailbox.search(&word, 1, NOW).unwrap().conversations.len() <= 1);
}

fn page(folder: MailFolder, page: u32) -> ConversationPage {
    DemoMailbox::new()
        .list_conversations(&sys(folder), page, PAGE_SIZE, NOW)
        .unwrap()
}

fn detail(index: usize) -> ConversationDetail {
    DemoMailbox::new()
        .conversation_detail(&format!("demo-{index}"), NOW)
        .unwrap()
}

#[test]
fn counts_are_deterministic() {
    let counts = DemoMailbox::new().counts();

    assert_eq!(counts, DemoMailbox::new().counts());
    assert_eq!(counts.unread(&sys(MailFolder::Inbox)), Some(6));
    assert_eq!(counts.unread(&sys(MailFolder::Starred)), Some(1));
    assert_eq!(counts.unread(&sys(MailFolder::Archive)), Some(1));
    assert_eq!(counts.unread(&sys(MailFolder::Sent)), Some(0));
    assert_eq!(counts.unread(&sys(MailFolder::Trash)), Some(0));
}

#[test]
fn first_inbox_page_is_deterministic_and_newest_first() {
    let first = page(MailFolder::Inbox, 0);

    assert_eq!(first.total, 34);
    assert_eq!(first.conversations.len(), 10);
    assert_eq!(first.conversations[0].id, "demo-0");
    assert_eq!(first.conversations[0].time, Some(NOW - 12 * MINUTE));
    assert!(
        first
            .conversations
            .windows(2)
            .all(|pair| pair[0].time >= pair[1].time)
    );
    assert_eq!(
        first.conversations,
        page(MailFolder::Inbox, 0).conversations
    );
}

#[test]
fn pages_continue_and_end() {
    let second = page(MailFolder::Inbox, 1);
    let last = page(MailFolder::Inbox, 3);

    assert_eq!(second.conversations[0].id, "demo-10");
    assert_eq!(last.conversations.len(), 4);
    assert!(page(MailFolder::Inbox, 4).conversations.is_empty());
}

#[test]
fn trash_starts_empty_and_spam_is_available() {
    let trash = page(MailFolder::Trash, 0);
    let spam = page(MailFolder::Spam, 0);

    assert_eq!(trash.total, 0);
    assert!(trash.conversations.is_empty());
    assert_eq!(spam.total, 2);
    assert_eq!(spam.conversations.len(), 2);
}

#[test]
fn starred_collects_starred_conversations_from_other_folders() {
    let starred = page(MailFolder::Starred, 0);

    assert_eq!(starred.total, 5);
    assert!(starred.conversations.iter().all(|c| c.starred));
}

#[test]
fn fixtures_cover_edge_cases() {
    let inbox: Vec<_> = (0..4)
        .flat_map(|index| page(MailFolder::Inbox, index).conversations)
        .collect();

    assert!(inbox.iter().any(|c| c.subject.is_none()));
    assert!(inbox.iter().any(|c| c.correspondents.is_none()));
    assert!(inbox.iter().any(|c| c.message_count > 1));
    assert!(inbox.iter().any(|c| c.unread) && inbox.iter().any(|c| !c.unread));
}

#[test]
fn every_conversation_uses_its_fixture_bodies() {
    for (index, fixture) in fixtures().iter().enumerate() {
        let detail = detail(index);

        assert_eq!(detail.id, format!("demo-{index}"));
        assert_eq!(detail.messages.len(), fixture.bodies.len());
        for (message, expected) in detail.messages.iter().zip(&fixture.bodies) {
            assert!(!expected.trim().is_empty());
            assert_eq!(message.body, MessageBody::PlainText((*expected).to_owned()));
        }
        assert!(
            detail
                .messages
                .windows(2)
                .all(|pair| pair[0].time < pair[1].time)
        );
        assert_eq!(
            detail,
            DemoMailbox::new()
                .conversation_detail(&detail.id, NOW)
                .unwrap()
        );
    }
    let mut mailbox = DemoMailbox::new();
    assert_eq!(
        mailbox.conversation_detail("demo-999", NOW),
        Err(MailboxError::Unavailable)
    );
    assert_eq!(
        mailbox.conversation_detail("other", NOW),
        Err(MailboxError::Unavailable)
    );
}

#[test]
fn newest_message_matches_the_list_time() {
    let detail = detail(0);

    assert_eq!(
        detail.messages.last().unwrap().time,
        Some(NOW - 12 * MINUTE)
    );
}

#[test]
fn summaries_keep_only_a_bounded_preview() {
    let summary = state_page(&DemoMailbox::new(), MailFolder::Inbox)
        .conversations
        .into_iter()
        .find(|conversation| conversation.id == "demo-5")
        .unwrap();
    let preview = summary.preview.unwrap();
    let MessageBody::PlainText(body) = &detail(5).messages[0].body else {
        panic!("demo bodies are plain text");
    };

    assert!(preview.chars().count() <= 200);
    assert!(body.len() > preview.len());
}

#[test]
fn details_cover_reader_edge_cases() {
    let noreply = &detail(1).messages[0];
    assert_eq!(noreply.sender.name, None);
    assert_eq!(noreply.sender.display_name(), Some("noreply@example.org"));

    let unknown = &detail(22).messages[0];
    assert_eq!(unknown.sender.display_name(), None);

    let garden = &detail(6).messages[0];
    assert_eq!(garden.recipients.len(), garden_volunteers().len());

    let long = &detail(5).messages[0];
    assert_eq!(long.body, MessageBody::PlainText(long_body().to_owned()));

    assert_eq!(detail(3).subject, None);
}

#[test]
fn threads_alternate_with_the_demo_user() {
    let inbox = detail(0);
    let sent = detail(36);

    assert_eq!(
        inbox.messages[2].sender.name.as_deref(),
        Some("Alex Rivera")
    );
    assert_eq!(inbox.messages[1].sender.address, "demo@example.com");
    assert_eq!(sent.messages[0].sender.address, "demo@example.com");
}

#[test]
fn fixture_addresses_are_fictional() {
    for (index, _) in fixtures().iter().enumerate() {
        for message in detail(index).messages {
            for address in std::iter::once(&message.sender).chain(&message.recipients) {
                if let Some((_, domain)) = address.address.rsplit_once('@') {
                    assert!(
                        matches!(domain, "example.com" | "example.org" | "example.net"),
                        "non-example domain in demo data: {domain}"
                    );
                }
            }
        }
    }
}

#[test]
fn read_actions_update_state_and_counts_idempotently() {
    let mut mailbox = DemoMailbox::new();

    assert_eq!(mailbox.counts().unread(&sys(MailFolder::Inbox)), Some(6));
    assert!(mailbox.set_unread("demo-0", false));
    assert!(!state_page(&mailbox, MailFolder::Inbox).conversations[0].unread);
    assert_eq!(mailbox.counts().unread(&sys(MailFolder::Inbox)), Some(5));

    assert!(mailbox.set_unread("demo-0", false));
    assert_eq!(mailbox.counts().unread(&sys(MailFolder::Inbox)), Some(5));
    assert!(mailbox.set_unread("demo-0", true));
    assert!(mailbox.set_unread("demo-0", true));
    assert_eq!(mailbox.counts().unread(&sys(MailFolder::Inbox)), Some(6));
}

#[test]
fn star_actions_update_visibility_and_counts_idempotently() {
    let mut mailbox = DemoMailbox::new();

    assert!(mailbox.set_starred("demo-1", true));
    assert!(mailbox.set_starred("demo-1", true));
    let starred = state_page(&mailbox, MailFolder::Starred);
    assert_eq!(starred.total, 6);
    assert!(starred.conversations.iter().any(|c| c.id == "demo-1"));
    assert_eq!(mailbox.counts().unread(&sys(MailFolder::Starred)), Some(2));

    assert!(mailbox.set_starred("demo-1", false));
    assert!(mailbox.set_starred("demo-1", false));
    assert_eq!(state_page(&mailbox, MailFolder::Starred).total, 5);
    assert_eq!(mailbox.counts().unread(&sys(MailFolder::Starred)), Some(1));
}

#[test]
fn archive_moves_conversation_and_preserves_content() {
    let mut mailbox = DemoMailbox::new();
    let detail = mailbox.conversation_detail("demo-0", NOW).unwrap();

    assert!(mailbox.move_to("demo-0", &sys(MailFolder::Archive)));

    assert!(!contains(&mailbox, MailFolder::Inbox, "demo-0"));
    assert!(contains(&mailbox, MailFolder::Archive, "demo-0"));
    assert_eq!(mailbox.conversation_detail("demo-0", NOW), Ok(detail));
}

#[test]
fn trash_moves_conversation_without_deleting_it() {
    let mut mailbox = DemoMailbox::new();

    assert!(mailbox.move_to("demo-3", &sys(MailFolder::Trash)));

    assert!(!contains(&mailbox, MailFolder::Inbox, "demo-3"));
    assert!(contains(&mailbox, MailFolder::Trash, "demo-3"));
    assert!(mailbox.conversation_detail("demo-3", NOW).is_ok());
}

#[test]
fn spam_moves_conversation_without_network_behavior() {
    let mut mailbox = DemoMailbox::new();

    assert!(mailbox.move_to("demo-4", &sys(MailFolder::Spam)));

    assert!(!contains(&mailbox, MailFolder::Inbox, "demo-4"));
    assert!(contains(&mailbox, MailFolder::Spam, "demo-4"));
}

#[test]
fn derived_counts_match_every_folder_after_repeated_actions() {
    let mut mailbox = DemoMailbox::new();
    assert!(mailbox.set_unread("demo-0", false));
    assert!(mailbox.set_unread("demo-0", false));
    assert!(mailbox.set_starred("demo-1", true));
    assert!(mailbox.set_starred("demo-1", true));
    assert!(mailbox.move_to("demo-2", &sys(MailFolder::Archive)));
    assert!(mailbox.move_to("demo-3", &sys(MailFolder::Trash)));
    assert!(mailbox.move_to("demo-4", &sys(MailFolder::Spam)));

    let counts = mailbox.counts();
    for folder in MailFolder::all() {
        let unread = state_page(&mailbox, folder)
            .conversations
            .iter()
            .filter(|conversation| conversation.unread)
            .count() as u32;
        assert_eq!(counts.unread(&sys(folder)), Some(unread), "{folder:?}");
    }
}

fn state_page(mailbox: &DemoMailbox, folder: MailFolder) -> ConversationPage {
    mailbox
        .list_conversations(&sys(folder), 0, 1_000, NOW)
        .unwrap()
}

fn contains(mailbox: &DemoMailbox, folder: MailFolder, id: &str) -> bool {
    state_page(mailbox, folder)
        .conversations
        .iter()
        .any(|conversation| conversation.id == id)
}

