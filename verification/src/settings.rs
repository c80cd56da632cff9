//! The preferences that decide where the mailbox opens and where writing
//! happens. Window sizes and zoom stay with the interface.

use vstd::prelude::*;

use crate::model::{Folder, MailFolder};

verus! {

/// Which folder opens. Only stable system folders can be pinned.
#[derive(Debug, Clone, Copy, PartialEq, Eq, Structural)]
pub enum StartFolder {
    /// Wherever the mailbox was left.
    LastRead,
    /// The same folder every time, whatever was read last.
    Always(MailFolder),
}

impl Default for StartFolder {
    fn default() -> (r: Self)
        ensures
            r == StartFolder::LastRead,
    {
        StartFolder::LastRead
    }
}

/// The folder a run opens: the pinned one, or else the one last read.
pub open spec fn start_folder_spec(start: StartFolder, last_read: Folder) -> Folder {
    match start {
        StartFolder::LastRead => last_read,
        StartFolder::Always(f) => Folder::System(f),
    }
}

impl StartFolder {
    /// The folder a run opens, given the one last read.
    pub fn folder(self, last_read: &Folder) -> (r: Folder)
        ensures
            r == start_folder_spec(self, *last_read),
    {
        match self {
            StartFolder::LastRead => last_read.clone(),
            StartFolder::Always(f) => Folder::System(f),
        }
    }
}

/// Where the composer appears while the mailbox stays open.
#[derive(Debug, Clone, Copy, PartialEq, Eq, Structural)]
pub enum ComposePlacement {
    /// Replaces the reader in the right-hand pane.
    ReadingPane,
    /// Opens in a separate native window.
    Window,
}

impl Default for ComposePlacement {
    fn default() -> (r: Self)
        ensures
            r == ComposePlacement::ReadingPane,
    {
        ComposePlacement::ReadingPane
    }
}

/// The folder the demo opens: it has no account folders, so a remembered
/// account folder gives way to the Inbox.
pub open spec fn demo_start_spec(remembered: Folder) -> Folder {
    match remembered {
        Folder::System(_) => remembered,
        Folder::Custom { .. } => Folder::System(MailFolder::Inbox),
    }
}

/// The folder a session opens, given the one the settings name: the demo
/// always opens one of Proton's own folders.
pub fn opening_folder(remembered: Folder, demo: bool) -> (r: Folder)
    ensures
        r == if demo {
            demo_start_spec(remembered)
        } else {
            remembered
        },
{
    if demo && remembered.system().is_none() {
        Folder::System(MailFolder::Inbox)
    } else {
        remembered
    }
}

} // verus!
