//! Keyboard shortcuts of the mailbox.

use ruston_mail::keys::{shortcut, shortcut_allowed, Key, KeyPress, Shortcut};
use ruston_mail::mailbox::Step;

fn plain(key: Key) -> KeyPress {
    KeyPress {
        key,
        command: false,
        other_modifier: false,
    }
}

fn command(key: Key) -> KeyPress {
    KeyPress {
        key,
        command: true,
        other_modifier: false,
    }
}

#[test]
fn keys_map_to_mailbox_shortcuts() {
    assert_eq!(
        shortcut(plain(Key::Character('j'))),
        Some(Shortcut::Move(Step::Next))
    );
    assert_eq!(
        shortcut(plain(Key::ArrowDown)),
        Some(Shortcut::Move(Step::Next))
    );
    assert_eq!(
        shortcut(plain(Key::Character('k'))),
        Some(Shortcut::Move(Step::Previous))
    );
    assert_eq!(shortcut(plain(Key::Enter)), Some(Shortcut::Open));
    assert_eq!(shortcut(plain(Key::Escape)), Some(Shortcut::Dismiss));
    assert_eq!(
        shortcut(command(Key::Character('r'))),
        Some(Shortcut::Refresh)
    );
    assert_eq!(
        shortcut(command(Key::Character('f'))),
        Some(Shortcut::Search)
    );
    assert_eq!(
        shortcut(command(Key::Character(','))),
        Some(Shortcut::ToggleSettings)
    );
    assert_eq!(
        shortcut(command(Key::Character('n'))),
        Some(Shortcut::Compose)
    );
    assert_eq!(shortcut(command(Key::Enter)), Some(Shortcut::Send));
    assert_eq!(shortcut(command(Key::Backspace)), Some(Shortcut::Trash));
    assert_eq!(shortcut(command(Key::Delete)), Some(Shortcut::Trash));
    assert_eq!(shortcut(plain(Key::Delete)), Some(Shortcut::Trash));

    // A modifier turns a plain shortcut into somebody else's business.
    assert_eq!(shortcut(command(Key::Character('j'))), None);
    assert_eq!(shortcut(command(Key::ArrowDown)), None);
    assert_eq!(shortcut(plain(Key::Character('r'))), None);
    assert_eq!(shortcut(plain(Key::Character('z'))), None);
    assert_eq!(shortcut(plain(Key::Backspace)), None);
}

#[test]
fn covered_mailboxes_let_only_escape_through() {
    assert!(shortcut_allowed(Shortcut::Refresh, false, false));
    assert!(!shortcut_allowed(Shortcut::Refresh, true, false));
    assert!(shortcut_allowed(Shortcut::ToggleSettings, true, false));
    assert!(!shortcut_allowed(Shortcut::ToggleSettings, false, true));
    assert!(shortcut_allowed(Shortcut::Dismiss, true, true));
}
