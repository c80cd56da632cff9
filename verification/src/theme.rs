//! The marks the interface draws, and how an icon button is asked for.

use vstd::prelude::*;

verus! {

/// A mark the interface draws.
#[derive(Debug, Clone, Copy, PartialEq, Eq, Structural)]
pub enum Icon {
    Inbox,
    Drafts,
    Sent,
    Star,
    Archive,
    Spam,
    Trash,
    Folder,
    Label,
    Mail,
}

/// A small button showing an icon, with a label for its tooltip.
pub struct IconButton<'a> {
    pub icon: Icon,
    pub label: &'a str,
    /// Drawn as toggled on or off; `None` for an ordinary button.
    pub selected: Option<bool>,
    /// Drawn in the warning color.
    pub danger: bool,
}

impl<'a> IconButton<'a> {
    pub fn new(icon: Icon, label: &'a str) -> (r: Self)
        ensures
            r.icon == icon,
            r.label == label,
            r.selected is None,
            !r.danger,
    {
        IconButton { icon, label, selected: None, danger: false }
    }

    /// The same button, drawn as toggled on or off.
    pub fn selected(self, selected: bool) -> (r: Self)
        ensures
            r.icon == self.icon,
            r.label == self.label,
            r.selected == Some(selected),
            r.danger == self.danger,
    {
        IconButton { selected: Some(selected), ..self }
    }

    /// The same button, drawn in the warning color.
    pub fn danger(self) -> (r: Self)
        ensures
            r.icon == self.icon,
            r.label == self.label,
            r.selected == self.selected,
            r.danger,
    {
        IconButton { danger: true, ..self }
    }
}

} // verus!
