//! The app's own decisions: stale answers, settings changes, links,
//! Escape, new-mail notices and attachment saves.

use ruston_mail::downloads::SaveError;
use ruston_mail::model::{ConversationSummary, Folder, MailAddress, MailFolder, MailboxCounts, SummaryKind};
use ruston_mail::session::{
    answering_for, closing, demo_requested, Closing,
    dismissal, link_clicked, new_mail_notice, page_follow_up, reconcile_open_folder,
    should_notify_new_mail, AttachmentSlot, Counters, Dismissal, LinkDecision, PageFollowUp,
    Reconcile, SettingsLog,
};

fn summary(correspondents: Option<&str>, participants: Vec<MailAddress>, subject: Option<&str>) -> ConversationSummary {
    ConversationSummary {
        id: "c".to_owned(),
        kind: SummaryKind::Conversation,
        subject: subject.map(str::to_owned),
        correspondents: correspondents.map(str::to_owned),
        participants,
        preview: None,
        time: None,
        unread: true,
        starred: false,
        message_count: 1,
        has_attachments: false,
    }
}

#[test]
fn each_request_and_session_gets_a_new_number() {
    let mut counters = Counters::new();
    assert_eq!(counters.next_request(), 1);
    assert_eq!(counters.next_request(), 2);
    assert_eq!(counters.next_compose_id(), 1);
    assert_eq!(counters.advance_auth_attempt(), 1);
    assert!(counters.is_current_session(0));
    counters.advance_session_epoch();
    assert!(!counters.is_current_session(0));
    assert!(counters.is_current_session(1));
    assert_eq!(counters.last_request, 2);
}

#[test]
fn only_a_real_settings_change_counts_and_is_written_once() {
    let mut log = SettingsLog::new();
    assert!(!log.unsaved());
    log.record(false);
    assert_eq!(log.revision, 0);
    log.record(true);
    assert_eq!(log.revision, 1);
    assert!(log.unsaved());
    log.mark_written();
    assert!(!log.unsaved());
    log.mark_written();
    assert!(!log.unsaved());
    assert_eq!(log.revision, 1);
}

#[test]
fn a_clicked_link_opens_asks_or_is_refused() {
    match link_clicked(" https://example.com/a ", true) {
        LinkDecision::Confirm(link) => {
            assert_eq!(link.url, "https://example.com/a");
            assert_eq!(link.target, "example.com");
        }
        other => panic!("expected a question, got {other:?}"),
    }
    assert_eq!(
        link_clicked("https://example.com/a", false),
        LinkDecision::Open("https://example.com/a".to_owned())
    );
    assert_eq!(link_clicked("javascript:alert(1)", false), LinkDecision::Ignore);
    assert_eq!(link_clicked("javascript:alert(1)", true), LinkDecision::Ignore);
}

#[test]
fn escape_puts_away_one_layer_at_a_time() {
    assert_eq!(dismissal(true, Some((false, false)), true, true), Dismissal::LeaveSettings);
    assert_eq!(dismissal(false, Some((false, true)), true, true), Dismissal::CancelDiscard);
    assert_eq!(dismissal(false, Some((false, false)), true, true), Dismissal::CloseCompose);
    assert_eq!(dismissal(false, Some((true, false)), true, true), Dismissal::DropLink);
    assert_eq!(dismissal(false, None, false, true), Dismissal::ClearSearch);
    assert_eq!(dismissal(false, None, false, false), Dismissal::CloseReader);
}

#[test]
fn the_open_folder_follows_the_accounts_folders() {
    let open = Folder::custom("f1", "Receipts");
    assert_eq!(reconcile_open_folder(&open, &vec![Folder::custom("f1", "Receipts")]), Reconcile::Keep);
    assert_eq!(
        reconcile_open_folder(&open, &vec![Folder::custom("f2", "Other"), Folder::custom("f1", "Bills")]),
        Reconcile::Rename(Folder::custom("f1", "Bills"))
    );
    assert_eq!(reconcile_open_folder(&open, &vec![Folder::custom("f2", "Other")]), Reconcile::FallBack);
    assert_eq!(reconcile_open_folder(&Folder::inbox(), &Vec::new()), Reconcile::Keep);
}

#[test]
fn a_page_is_followed_by_a_reload_or_an_inspection() {
    assert_eq!(page_follow_up(true, true, true, 3), PageFollowUp::Nothing);
    assert_eq!(page_follow_up(false, true, true, 3), PageFollowUp::Refresh);
    assert_eq!(page_follow_up(false, false, true, 3), PageFollowUp::Inspect);
    assert_eq!(page_follow_up(false, false, true, 0), PageFollowUp::Nothing);
    assert_eq!(page_follow_up(false, false, false, 3), PageFollowUp::Nothing);
}

#[test]
fn only_more_unread_mail_found_in_the_background_is_announced() {
    assert!(should_notify_new_mail(true, true, Some(1), Some(2)));
    assert!(!should_notify_new_mail(true, true, Some(2), Some(2)));
    assert!(!should_notify_new_mail(false, true, Some(1), Some(2)));
    assert!(!should_notify_new_mail(true, false, Some(1), Some(2)));
    assert!(!should_notify_new_mail(true, true, None, Some(2)));
}

#[test]
fn a_notice_names_the_sender_and_the_subject() {
    let named = summary(Some("Alex"), Vec::new(), Some("Plans"));
    assert_eq!(new_mail_notice(&named), ("Alex".to_owned(), "Plans".to_owned()));

    let by_participant = summary(
        Some(""),
        vec![MailAddress { name: None, address: "sam@example.com".to_owned() }],
        Some("  "),
    );
    assert_eq!(
        new_mail_notice(&by_participant),
        ("sam@example.com".to_owned(), "(No subject)".to_owned())
    );

    let nobody = summary(None, Vec::new(), None);
    assert_eq!(new_mail_notice(&nobody), ("Proton Mail".to_owned(), "(No subject)".to_owned()));
}

#[test]
fn one_attachment_is_fetched_at_a_time() {
    let mut slot = AttachmentSlot::new();
    assert!(slot.begin("a1"));
    assert!(!slot.begin("a2"));
    assert_eq!(slot.saving.as_deref(), Some("a1"));
    slot.land(true, Ok("/tmp/a1.pdf".to_owned()));
    assert!(slot.saving.is_none());
    assert_eq!(slot.saved, Some(Ok("/tmp/a1.pdf".to_owned())));
    assert!(slot.begin("a2"));
    assert!(slot.saved.is_none());
    slot.land(false, Err(SaveError::Failed));
    assert!(slot.saved.is_none());
}

#[test]
fn demo_requires_explicit_one() {
    assert!(demo_requested(Some("1")));

    assert!(!demo_requested(None));
    for value in ["", "0", "true", "yes", " 1", "01"] {
        assert!(!demo_requested(Some(value)), "{value:?}");
    }
}

#[test]
fn an_answer_says_whom_and_what_it_answers() {
    let alex = MailAddress { name: Some("Alex".to_owned()), address: "alex@example.com".to_owned() };
    let answer = answering_for(&alex, Some("Plans"), true);
    assert_eq!(answer.sender, "Alex");
    assert_eq!(answer.subject, "Plans");
    assert!(answer.everyone);

    let nobody = MailAddress { name: None, address: String::new() };
    let answer = answering_for(&nobody, None, false);
    assert_eq!(answer.sender, "(unknown sender)");
    assert_eq!(answer.subject, "(No subject)");

    assert_eq!(closing(true, true), Closing::Stay);
    assert_eq!(closing(false, true), Closing::Close);
    assert_eq!(closing(false, false), Closing::Confirm);
}

#[test]
fn the_trash_key_waits_for_the_draft_and_spares_the_trash() {
    assert!(ruston_mail::session::trash_key_applies(false, &Folder::inbox()));
    assert!(!ruston_mail::session::trash_key_applies(true, &Folder::inbox()));
    assert!(!ruston_mail::session::trash_key_applies(false, &Folder::System(MailFolder::Trash)));
}

#[test]
fn the_badge_shows_unread_inbox_mail_only_when_wanted() {
    let counts = MailboxCounts::from_pairs(vec![(Folder::inbox(), 4), (Folder::System(MailFolder::Spam), 2)]);
    assert_eq!(ruston_mail::session::badge_count(true, Some(&counts)), Some(4));
    assert_eq!(ruston_mail::session::badge_count(false, Some(&counts)), None);
    assert_eq!(ruston_mail::session::badge_count(true, None), None);
    let none_unread = MailboxCounts::from_pairs(vec![(Folder::inbox(), 0)]);
    assert_eq!(ruston_mail::session::badge_count(true, Some(&none_unread)), None);
}
