//! Work the state machine asks the interface to do on its own thread.

use vstd::prelude::*;

verus! {

/// Work that must happen on the GUI thread.
#[derive(Debug, Clone, PartialEq)]
pub enum UiEffect {
    CopyText(String),
    FocusSearch,
    ScrollReaderTop,
    RevealConversation(String),
    NotifyNewMail { sender: String, subject: String },
    PickComposeAttachments,
}

impl UiEffect {
    /// Whether this effect changes layout, focus or scrolling, and so needs
    /// the window painted again at once.
    pub fn is_visual(&self) -> (r: bool)
        ensures
            r == (self is FocusSearch || self is ScrollReaderTop || self is RevealConversation),
    {
        match self {
            UiEffect::FocusSearch | UiEffect::ScrollReaderTop | UiEffect::RevealConversation(_) => true,
            _ => false,
        }
    }
}

} // verus!
