//! When the mailbox refreshes on its own. Times are milliseconds.

use ruston_mail::mailbox::UndoMove;
use ruston_mail::model::{Folder, MailFolder, SummaryKind};
use ruston_mail::refresh::{sync_undo_notice, AutoRefresh};

const S: u64 = 1_000;

fn active_refresh() -> AutoRefresh {
    let mut refresh = AutoRefresh::new();
    assert!(!refresh.should_start(0, true, true, true));
    refresh
}

#[test]
fn foreground_mail_is_refreshed_once_a_minute() {
    let mut refresh = active_refresh();

    assert!(!refresh.should_start(59 * S, true, true, true));
    assert!(refresh.should_start(60 * S, true, true, true));
    refresh.started(7);
    assert!(!refresh.should_start(61 * S, true, true, true));

    refresh.page_finished(7, true, 61 * S);
    assert!(!refresh.should_start(120 * S, true, true, true));
    assert!(refresh.should_start(121 * S, true, true, true));
}

#[test]
fn returning_after_thirty_seconds_refreshes_immediately() {
    let mut refresh = active_refresh();

    assert!(!refresh.should_start(5 * S, false, true, true));
    assert!(!refresh.should_start(34 * S, false, true, true));
    assert!(refresh.should_start(35 * S, true, true, true));
}

#[test]
fn background_mail_is_paused_and_failures_back_off() {
    let mut refresh = active_refresh();
    assert!(!refresh.should_start(60 * S, false, true, true));
    assert!(!refresh.should_start(120 * S, false, true, true));

    assert!(refresh.should_start(120 * S, true, true, true));
    refresh.started(8);
    refresh.page_finished(8, false, 121 * S);

    assert!(!refresh.should_start(150 * S, false, true, true));
    assert!(!refresh.should_start(160 * S, true, true, true));
    assert!(!refresh.should_start(240 * S, true, true, true));
    assert!(refresh.should_start(241 * S, true, true, true));
}

#[test]
fn a_successful_manual_refresh_clears_the_backoff() {
    let mut refresh = active_refresh();
    assert!(refresh.should_start(60 * S, true, true, true));
    refresh.started(8);
    refresh.page_finished(8, false, 61 * S);

    refresh.page_finished(99, true, 70 * S);
    assert!(!refresh.should_start(129 * S, true, true, true));
    assert!(refresh.should_start(130 * S, true, true, true));
}

#[test]
fn an_inactive_mailbox_forgets_its_schedule() {
    let mut refresh = active_refresh();
    refresh.started(3);
    assert!(!refresh.should_start(90 * S, true, false, true));
    assert_eq!(refresh, AutoRefresh::new());
}

#[test]
fn the_wait_doubles_with_each_failure_up_to_five_minutes() {
    let mut refresh = active_refresh();
    let mut waits = Vec::new();
    for request in 1..=5 {
        refresh.started(request);
        refresh.page_finished(request, false, 0);
        waits.push(refresh.next_at);
    }
    assert_eq!(waits, [120 * S, 240 * S, 300 * S, 300 * S, 300 * S]);
    refresh.postpone(10 * S);
    assert_eq!(refresh.next_at, 310 * S);
}

#[test]
fn the_window_is_drawn_again_when_a_refresh_is_due() {
    let refresh = active_refresh();
    assert_eq!(refresh.repaint_after(10 * S, true), Some(50 * S));
    assert_eq!(refresh.repaint_after(60 * S, true), Some(50));
    assert_eq!(refresh.repaint_after(10 * S, false), None);
}

#[test]
fn an_undo_notice_expires_and_a_new_one_gets_its_own_time() {
    let offer = UndoMove {
        row_id: "first".into(),
        kind: SummaryKind::Conversation,
        from: Folder::inbox(),
        to: Folder::System(MailFolder::Trash),
    };
    let mut notice = None;

    assert_eq!(sync_undo_notice(&mut notice, &offer, 10 * S), Some(6 * S));
    assert_eq!(sync_undo_notice(&mut notice, &offer, 15 * S), Some(S));
    assert_eq!(sync_undo_notice(&mut notice, &offer, 16 * S), None);

    let next = UndoMove {
        row_id: "second".into(),
        ..offer
    };
    assert_eq!(sync_undo_notice(&mut notice, &next, 16 * S), Some(6 * S));
}
