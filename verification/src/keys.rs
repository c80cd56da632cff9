//! Mailbox keyboard shortcuts. The interface only reports raw key presses.

use vstd::prelude::*;

use crate::mailbox::Step;

verus! {

/// A key the mailbox listens to.
#[derive(Debug, Clone, Copy, PartialEq, Eq, Structural)]
pub enum Key {
    Character(char),
    ArrowDown,
    ArrowUp,
    Enter,
    Escape,
    Backspace,
    Delete,
}

/// A key and the modifiers held with it.
#[derive(Debug, Clone, Copy, PartialEq, Eq, Structural)]
pub struct KeyPress {
    pub key: Key,
    /// The platform's command key: Command on macOS, Control elsewhere.
    pub command: bool,
    /// Any other modifier.
    pub other_modifier: bool,
}

/// What a key press means to the mailbox.
#[derive(Debug, Clone, Copy, PartialEq, Eq, Structural)]
pub enum Shortcut {
    /// Open the conversation one step away in the list.
    Move(Step),
    /// Open the selected conversation, which also retries a failed one.
    Open,
    /// Back out of the topmost thing on screen.
    Dismiss,
    Refresh,
    Search,
    ToggleSettings,
    Compose,
    Send,
    Trash,
}

/// The meaning of a key press. With the command key: R refreshes, F
/// searches, the comma shows the settings, N writes a message, Enter sends
/// it and Backspace or Delete moves to Trash. Without any modifier: the
/// arrows and J and K move through the list, Enter opens, Escape backs out
/// and Delete moves to Trash. Any other modifier, or any other key, is not
/// a shortcut, so typing never moves the mailbox underneath.
pub open spec fn shortcut_of(press: KeyPress) -> Option<Shortcut> {
    if press.command {
        match press.key {
            Key::Character('r') => Some(Shortcut::Refresh),
            Key::Character('f') => Some(Shortcut::Search),
            Key::Character(',') => Some(Shortcut::ToggleSettings),
            Key::Character('n') => Some(Shortcut::Compose),
            Key::Enter => Some(Shortcut::Send),
            Key::Backspace => Some(Shortcut::Trash),
            Key::Delete => Some(Shortcut::Trash),
            _ => None,
        }
    } else if press.other_modifier {
        None
    } else {
        match press.key {
            Key::ArrowDown => Some(Shortcut::Move(Step::Next)),
            Key::Character('j') => Some(Shortcut::Move(Step::Next)),
            Key::ArrowUp => Some(Shortcut::Move(Step::Previous)),
            Key::Character('k') => Some(Shortcut::Move(Step::Previous)),
            Key::Enter => Some(Shortcut::Open),
            Key::Escape => Some(Shortcut::Dismiss),
            Key::Delete => Some(Shortcut::Trash),
            _ => None,
        }
    }
}

/// The meaning of a key press, or `None` when it is not a shortcut.
pub fn shortcut(press: KeyPress) -> (r: Option<Shortcut>)
    ensures
        r == shortcut_of(press),
{
    if press.command {
        return match press.key {
            Key::Character('r') => Some(Shortcut::Refresh),
            Key::Character('f') => Some(Shortcut::Search),
            Key::Character(',') => Some(Shortcut::ToggleSettings),
            Key::Character('n') => Some(Shortcut::Compose),
            Key::Enter => Some(Shortcut::Send),
            Key::Backspace | Key::Delete => Some(Shortcut::Trash),
            _ => None,
        };
    }
    if press.other_modifier {
        return None;
    }
    match press.key {
        Key::ArrowDown | Key::Character('j') => Some(Shortcut::Move(Step::Next)),
        Key::ArrowUp | Key::Character('k') => Some(Shortcut::Move(Step::Previous)),
        Key::Enter => Some(Shortcut::Open),
        Key::Escape => Some(Shortcut::Dismiss),
        Key::Delete => Some(Shortcut::Trash),
        _ => None,
    }
}

/// Whether a shortcut may act while something covers the mailbox: the
/// settings page lets only its own toggle and Escape through, and a link
/// waiting to be confirmed lets only Escape through.
pub open spec fn shortcut_allowed_spec(shortcut: Shortcut, showing_settings: bool, link_pending: bool) -> bool {
    let blocked = (showing_settings && shortcut != Shortcut::ToggleSettings) || link_pending;
    !blocked || shortcut == Shortcut::Dismiss
}

/// Whether a shortcut may act while the settings page or a link prompt
/// covers the mailbox.
pub fn shortcut_allowed(shortcut: Shortcut, showing_settings: bool, link_pending: bool) -> (r: bool)
    ensures
        r == shortcut_allowed_spec(shortcut, showing_settings, link_pending),
{
    let blocked = (showing_settings && shortcut != Shortcut::ToggleSettings) || link_pending;
    !blocked || shortcut == Shortcut::Dismiss
}

/// Typing never acts on the mailbox: without the command key, a
/// character other than J or K is not a shortcut, and no key held with
/// another modifier is one. Escape backs out whatever covers the mailbox; a
/// link waiting to be confirmed lets nothing else through, and the settings
/// page only its own toggle.
pub proof fn law_typing_is_no_shortcut_and_covers_hold_keys(press: KeyPress, shortcut: Shortcut, showing_settings: bool, link_pending: bool)
    ensures
        !press.command && (press.key matches Key::Character(c) && c != 'j' && c != 'k') ==> shortcut_of(press) is None,
        !press.command && press.other_modifier ==> shortcut_of(press) is None,
        shortcut == Shortcut::Dismiss ==> shortcut_allowed_spec(shortcut, showing_settings, link_pending),
        link_pending && shortcut != Shortcut::Dismiss ==> !shortcut_allowed_spec(shortcut, showing_settings, link_pending),
        showing_settings && shortcut != Shortcut::Dismiss && shortcut != Shortcut::ToggleSettings ==> !shortcut_allowed_spec(
            shortcut,
            showing_settings,
            link_pending,
        ),
        !showing_settings && !link_pending ==> shortcut_allowed_spec(shortcut, showing_settings, link_pending),
{
}

} // verus!
