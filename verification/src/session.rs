//! The decisions the app makes between the mailbox, the sign-in and the
//! screen: which answers still belong to the open session, when a setting
//! counts as changed, what a clicked link does, what Escape puts away, and
//! what a new-mail notice says. The app's event loop performs what these
//! decide.

use vstd::prelude::*;

use crate::compose::Answering;
use crate::downloads::SaveError;
use crate::links::{link_view, offered, url_parse, PendingLink};
use crate::model::{
    display_name_of, folder_custom_id, same_folder, ConversationSummary, Folder, MailAddress,
    MailboxCounts,
};
use crate::text::{is_blank, trimmed, is_blank_seq};

verus! {

/// The numbers that tell one session, sign-in attempt, request and draft
/// from the next, so that a late answer can never reach the wrong one.
#[derive(Debug, Clone, Copy, PartialEq, Eq, Structural)]
pub struct Counters {
    pub session_epoch: u64,
    pub auth_attempt: u64,
    pub last_request: u64,
    pub last_compose_id: u64,
}

impl Counters {
    pub fn new() -> (r: Self)
        ensures
            r == (Counters { session_epoch: 0, auth_attempt: 0, last_request: 0, last_compose_id: 0 }),
    {
        Counters { session_epoch: 0, auth_attempt: 0, last_request: 0, last_compose_id: 0 }
    }

    /// A fresh request id, one past the last.
    pub fn next_request(&mut self) -> (r: u64)
        requires
            old(self).last_request < u64::MAX,
        ensures
            r == old(self).last_request + 1,
            *final(self) == (Counters { last_request: r, ..*old(self) }),
    {
        self.last_request = self.last_request + 1;
        self.last_request
    }

    /// A fresh draft id, one past the last.
    pub fn next_compose_id(&mut self) -> (r: u64)
        requires
            old(self).last_compose_id < u64::MAX,
        ensures
            r == old(self).last_compose_id + 1,
            *final(self) == (Counters { last_compose_id: r, ..*old(self) }),
    {
        self.last_compose_id = self.last_compose_id + 1;
        self.last_compose_id
    }

    /// Opens or closes an account: answers from before no longer count.
    pub fn advance_session_epoch(&mut self)
        requires
            old(self).session_epoch < u64::MAX,
        ensures
            *final(self) == (Counters { session_epoch: (old(self).session_epoch + 1) as u64, ..*old(self) }),
    {
        self.session_epoch = self.session_epoch + 1;
    }

    /// Starts a sign-in attempt: results of an aborted one no longer count.
    pub fn advance_auth_attempt(&mut self) -> (r: u64)
        requires
            old(self).auth_attempt < u64::MAX,
        ensures
            r == old(self).auth_attempt + 1,
            *final(self) == (Counters { auth_attempt: r, ..*old(self) }),
    {
        self.auth_attempt = self.auth_attempt + 1;
        self.auth_attempt
    }

    /// Whether an answer tagged with this epoch belongs to the open session.
    pub fn is_current_session(&self, epoch: u64) -> (r: bool)
        ensures
            r == (epoch == self.session_epoch),
    {
        self.session_epoch == epoch
    }
}

/// How many times the settings have changed this run, and how many of those
/// changes the file has seen.
#[derive(Debug, Clone, Copy, PartialEq, Eq, Structural)]
pub struct SettingsLog {
    pub revision: u64,
    pub written: u64,
}

impl SettingsLog {
    pub fn new() -> (r: Self)
        ensures
            r == (SettingsLog { revision: 0, written: 0 }),
    {
        SettingsLog { revision: 0, written: 0 }
    }

    /// Keeps a setting that was set: only a real change counts as one.
    pub fn record(&mut self, changed: bool)
        requires
            old(self).revision < u64::MAX,
        ensures
            final(self).written == old(self).written,
            final(self).revision == (if changed { old(self).revision + 1 } else { old(self).revision as int }),
    {
        if changed {
            self.revision = self.revision + 1;
        }
    }

    /// Whether a change is waiting to reach the file.
    pub fn unsaved(&self) -> (r: bool)
        ensures
            r == (self.written != self.revision),
    {
        self.written != self.revision
    }

    /// Notes that the file now holds every change so far.
    pub fn mark_written(&mut self)
        ensures
            *final(self) == (SettingsLog { written: old(self).revision, ..*old(self) }),
    {
        self.written = self.revision;
    }
}

/// Setting a value to what it already was changes nothing; a real change
/// waits for the file, and once written nothing waits until the next one.
/// The file never holds more changes than were made.
pub proof fn law_a_change_is_written_once(log: SettingsLog)
    requires
        log.revision < u64::MAX,
        log.written <= log.revision,
    ensures
        ({
            let changed = SettingsLog { revision: (log.revision + 1) as u64, ..log };
            let written = SettingsLog { written: changed.revision, ..changed };
            &&& changed.written != changed.revision
            &&& written.written == written.revision
        }),
{
}

/// What a click on a link in a message does.
#[derive(Debug, Clone, PartialEq, Eq)]
pub enum LinkDecision {
    /// Not a web or mail link: nothing happens.
    Ignore,
    /// Opens at once, with confirmation switched off.
    Open(String),
    /// Waits for the user to confirm where it goes.
    Confirm(PendingLink),
}

/// A clicked link: anything but a web or mail link is refused whatever the
/// setting; otherwise it opens at once or waits for confirmation.
pub open spec fn link_decision_spec(target: Seq<char>, confirm: bool, d: LinkDecision) -> bool {
    match offered(url_parse(trimmed(target))) {
        None => d is Ignore,
        Some((url, where_to)) => if confirm {
            d matches LinkDecision::Confirm(link) && link.url@ == url && link.target@ == where_to
        } else {
            d matches LinkDecision::Open(u) && u@ == url
        },
    }
}

pub fn link_clicked(target: &str, confirm_links: bool) -> (r: LinkDecision)
    ensures
        link_decision_spec(target@, confirm_links, r),
{
    match PendingLink::parse(target) {
        None => LinkDecision::Ignore,
        Some(link) => if confirm_links {
            LinkDecision::Confirm(link)
        } else {
            LinkDecision::Open(link.url)
        },
    }
}

/// What Escape puts away: one layer at a time, the most recent first.
#[derive(Debug, Clone, Copy, PartialEq, Eq, Structural)]
pub enum Dismissal {
    /// Leaves the settings page, before touching a message still open
    /// underneath.
    LeaveSettings,
    /// Returns from the question whether to discard a draft.
    CancelDiscard,
    /// Puts a draft away; written ones ask first.
    CloseCompose,
    /// Forgets a link waiting for confirmation.
    DropLink,
    /// Clears what is typed in the search field.
    ClearSearch,
    /// Closes the open conversation.
    CloseReader,
}

/// The draft as Escape sees it: whether it is on its way, and whether it
/// is asking to be discarded.
pub open spec fn dismissal_spec(
    showing_settings: bool,
    draft: Option<(bool, bool)>,
    link_pending: bool,
    searching: bool,
) -> Dismissal {
    if showing_settings {
        Dismissal::LeaveSettings
    } else if (match draft {
        Some((in_flight, _)) => !in_flight,
        None => false,
    }) {
        if (match draft {
            Some((_, confirming)) => confirming,
            None => false,
        }) {
            Dismissal::CancelDiscard
        } else {
            Dismissal::CloseCompose
        }
    } else if link_pending {
        Dismissal::DropLink
    } else if searching {
        Dismissal::ClearSearch
    } else {
        Dismissal::CloseReader
    }
}

pub fn dismissal(showing_settings: bool, draft: Option<(bool, bool)>, link_pending: bool, searching: bool) -> (r: Dismissal)
    ensures
        r == dismissal_spec(showing_settings, draft, link_pending, searching),
{
    if showing_settings {
        return Dismissal::LeaveSettings;
    }
    if let Some((in_flight, confirming)) = draft {
        if !in_flight {
            return if confirming { Dismissal::CancelDiscard } else { Dismissal::CloseCompose };
        }
    }
    if link_pending {
        Dismissal::DropLink
    } else if searching {
        Dismissal::ClearSearch
    } else {
        Dismissal::CloseReader
    }
}

/// A message that is on its way is never put away by Escape, and the
/// settings page always goes first.
pub proof fn law_escape_never_drops_a_message_in_flight(
    showing_settings: bool,
    confirming: bool,
    link_pending: bool,
    searching: bool,
)
    ensures
        dismissal_spec(showing_settings, Some((true, confirming)), link_pending, searching) != Dismissal::CloseCompose,
        dismissal_spec(showing_settings, Some((true, confirming)), link_pending, searching) != Dismissal::CancelDiscard,
        dismissal_spec(true, Some((false, confirming)), link_pending, searching) == Dismissal::LeaveSettings,
{
}

/// What becomes of the open folder once the account's folders are known.
#[derive(Debug, Clone, PartialEq, Eq)]
pub enum Reconcile {
    /// Still there as it was, or one of Proton's own.
    Keep,
    /// Gone from the account: the Inbox, which is always there, opens.
    FallBack,
    /// Renamed: the same folder under its new name.
    Rename(Folder),
}

/// The first of the account's folders with this identifier.
pub open spec fn first_with_id(folders: Seq<Folder>, id: Seq<char>) -> Option<Folder>
    decreases folders.len(),
{
    if folders.len() == 0 {
        None
    } else if folder_custom_id(folders[0]) == Some(id) {
        Some(folders[0])
    } else {
        first_with_id(folders.drop_first(), id)
    }
}

pub open spec fn reconcile_spec(open: Folder, folders: Seq<Folder>, r: Reconcile) -> bool {
    match folder_custom_id(open) {
        None => r is Keep,
        Some(id) => match first_with_id(folders, id) {
            None => r is FallBack,
            Some(current) => if same_folder(current, open) {
                r is Keep
            } else {
                r matches Reconcile::Rename(f) && f == current
            },
        },
    }
}

/// Reconciles the open folder with the account's current folders: Proton's
/// own always stay, a folder that is gone falls back to the Inbox, and a
/// renamed one keeps its place under the new name.
pub fn reconcile_open_folder(open: &Folder, folders: &Vec<Folder>) -> (r: Reconcile)
    ensures
        reconcile_spec(*open, folders@, r),
{
    let id = match open.custom_id() {
        None => return Reconcile::Keep,
        Some(id) => id,
    };
    let mut i: usize = 0;
    assert(folders@.skip(0) == folders@);
    while i < folders.len()
        invariant
            i <= folders.len(),
            folder_custom_id(*open) == Some(id@),
            first_with_id(folders@, id@) == first_with_id(folders@.skip(i as int), id@),
        decreases folders.len() - i,
    {
        let here = match folders[i].custom_id() {
            Some(other) => crate::text::same_text(other, id),
            None => false,
        };
        assert(folders@.skip(i as int).drop_first() == folders@.skip(i + 1));
        assert(folders@.skip(i as int)[0] == folders@[i as int]);
        if here {
            let current = folders[i].clone();
            if current.equals(open) {
                return Reconcile::Keep;
            }
            return Reconcile::Rename(current);
        }
        i += 1;
    }
    Reconcile::FallBack
}

/// What follows a page of the list that was taken in.
#[derive(Debug, Clone, Copy, PartialEq, Eq, Structural)]
pub enum PageFollowUp {
    Nothing,
    /// The list was found stale while loading; it loads again.
    Refresh,
    /// The rows that may hide separate messages are looked into.
    Inspect,
}

pub open spec fn page_follow_up_spec(failed: bool, revalidating: bool, loaded: bool, candidates: nat) -> PageFollowUp {
    if failed {
        PageFollowUp::Nothing
    } else if revalidating {
        PageFollowUp::Refresh
    } else if loaded && candidates > 0 {
        PageFollowUp::Inspect
    } else {
        PageFollowUp::Nothing
    }
}

pub fn page_follow_up(failed: bool, revalidating: bool, loaded: bool, candidates: usize) -> (r: PageFollowUp)
    ensures
        r == page_follow_up_spec(failed, revalidating, loaded, candidates as nat),
{
    if failed {
        PageFollowUp::Nothing
    } else if revalidating {
        PageFollowUp::Refresh
    } else if loaded && candidates > 0 {
        PageFollowUp::Inspect
    } else {
        PageFollowUp::Nothing
    }
}

/// Whether fresh counts are worth a notice: only a background refresh with
/// notices switched on, and only when the Inbox's unread mail grew.
pub open spec fn notify_spec(was_polling: bool, notices_on: bool, before: Option<u32>, after: Option<u32>) -> bool {
    was_polling && notices_on && before is Some && after is Some && after->0 > before->0
}

pub fn should_notify_new_mail(was_polling: bool, notices_on: bool, before: Option<u32>, after: Option<u32>) -> (r: bool)
    ensures
        r == notify_spec(was_polling, notices_on, before, after),
{
    if !was_polling || !notices_on {
        return false;
    }
    match (before, after) {
        (Some(old), Some(new)) => new > old,
        _ => false,
    }
}

/// Who a new-mail notice names: the correspondents, else the first
/// participant's name, else Proton Mail.
pub open spec fn notice_sender(c: ConversationSummary) -> Seq<char> {
    match c.correspondents {
        Some(s) if s@.len() > 0 => s@,
        _ => if c.participants@.len() > 0 && display_name_of(c.participants@[0]) is Some {
            display_name_of(c.participants@[0])->0
        } else {
            "Proton Mail"@
        },
    }
}

/// What a new-mail notice says of the subject: the subject unless it is
/// blank.
pub open spec fn notice_subject(c: ConversationSummary) -> Seq<char> {
    match c.subject {
        Some(s) if !is_blank_seq(s@) => s@,
        _ => "(No subject)"@,
    }
}

/// The sender and subject a new-mail notice shows for the newest
/// conversation.
pub fn new_mail_notice(conversation: &ConversationSummary) -> (r: (String, String))
    ensures
        r.0@ == notice_sender(*conversation),
        r.1@ == notice_subject(*conversation),
{
    let sender = match &conversation.correspondents {
        Some(s) if !s.as_str().is_empty() => s.clone(),
        _ => {
            let named = if conversation.participants.len() > 0 {
                conversation.participants[0].display_name()
            } else {
                None
            };
            match named {
                Some(n) => n.to_owned(),
                None => "Proton Mail".to_owned(),
            }
        },
    };
    let subject = match &conversation.subject {
        Some(s) if !is_blank(s.as_str()) => s.clone(),
        _ => "(No subject)".to_owned(),
    };
    (sender, subject)
}

/// The attachment being fetched, and what became of the last one.
#[derive(Debug, Clone, PartialEq, Eq)]
pub struct AttachmentSlot {
    pub saving: Option<String>,
    pub saved: Option<Result<String, SaveError>>,
}

impl AttachmentSlot {
    pub fn new() -> (r: Self)
        ensures
            r.saving is None,
            r.saved is None,
    {
        AttachmentSlot { saving: None, saved: None }
    }

    /// Starts fetching an attachment unless one is already on its way; the
    /// news of the last one is forgotten.
    pub fn begin(&mut self, attachment_id: &str) -> (r: bool)
        ensures
            r == (old(self).saving is None),
            r ==> (final(self).saving matches Some(s) && s@ == attachment_id@),
            r ==> final(self).saved is None,
            !r ==> *final(self) == *old(self),
    {
        if self.saving.is_some() {
            return false;
        }
        self.saved = None;
        self.saving = Some(attachment_id.to_owned());
        true
    }

    /// An attachment landed, or did not. A save that ends after the session
    /// closed has nobody left to tell.
    pub fn land(&mut self, mailbox_open: bool, outcome: Result<String, SaveError>)
        ensures
            final(self).saving is None,
            mailbox_open ==> final(self).saved == Some(outcome),
            !mailbox_open ==> final(self).saved == old(self).saved,
    {
        self.saving = None;
        if mailbox_open {
            self.saved = Some(outcome);
        }
    }

    /// Forgets the news of the last save, as leaving a folder does.
    pub fn forget(&mut self)
        ensures
            final(self).saving == old(self).saving,
            final(self).saved is None,
    {
        self.saved = None;
    }
}

/// A run opens the fictional mailbox only when asked with exactly `1`.
pub fn demo_requested(value: Option<&str>) -> (r: bool)
    ensures
        r == (value matches Some(v) && v@ == "1"@),
{
    match value {
        Some(v) => crate::text::same_text(v, "1"),
        None => false,
    }
}

/// What a reply or forward says it answers: the sender by name, falling
/// back to the address and then to "(unknown sender)", and the
/// conversation's subject or "(No subject)".
pub open spec fn answering_spec(sender: MailAddress, subject: Option<Seq<char>>, everyone: bool, a: Answering) -> bool {
    &&& a.sender@ == (match display_name_of(sender) {
        Some(n) => n,
        None => "(unknown sender)"@,
    })
    &&& a.subject@ == (match subject {
        Some(s) => s,
        None => "(No subject)"@,
    })
    &&& a.everyone == everyone
}

pub fn answering_for(sender: &MailAddress, subject: Option<&str>, everyone: bool) -> (r: Answering)
    ensures
        answering_spec(*sender, crate::html::opt_str(subject), everyone, r),
{
    let name = match sender.display_name() {
        Some(n) => n.to_owned(),
        None => "(unknown sender)".to_owned(),
    };
    let about = match subject {
        Some(s) => s.to_owned(),
        None => "(No subject)".to_owned(),
    };
    Answering { sender: name, subject: about, everyone }
}

/// What putting a draft away does.
#[derive(Debug, Clone, Copy, PartialEq, Eq, Structural)]
pub enum Closing {
    /// A message on its way stays.
    Stay,
    /// Nothing was written: it closes at once.
    Close,
    /// Something was written: the user is asked first.
    Confirm,
}

pub fn closing(in_flight: bool, untouched: bool) -> (r: Closing)
    ensures
        r == (if in_flight {
            Closing::Stay
        } else if untouched {
            Closing::Close
        } else {
            Closing::Confirm
        }),
{
    if in_flight {
        Closing::Stay
    } else if untouched {
        Closing::Close
    } else {
        Closing::Confirm
    }
}

/// Whether the Trash key moves the selected row: not while a message is
/// being written, and not from the Trash itself.
pub fn trash_key_applies(composing: bool, folder: &Folder) -> (r: bool)
    ensures
        r == (!composing && !same_folder(*folder, Folder::System(crate::model::MailFolder::Trash))),
{
    if composing {
        return false;
    }
    !folder.equals(&Folder::System(crate::model::MailFolder::Trash))
}

/// The number on the app's icon: the Inbox's unread mail, when there is
/// any, the counts are known and the badge is wanted.
pub fn badge_count(show_badge: bool, counts: Option<&MailboxCounts>) -> (r: Option<u32>)
    ensures
        r == (match counts {
            Some(c) if show_badge => match c.unread_of(Folder::System(crate::model::MailFolder::Inbox)) {
                Some(n) if n > 0 => Some(n),
                _ => None,
            },
            _ => None,
        }),
{
    if !show_badge {
        return None;
    }
    match counts {
        Some(c) => match c.unread(&Folder::inbox()) {
            Some(n) => if n > 0 { Some(n) } else { None },
            None => None,
        },
        None => None,
    }
}

/// Clicking a web link that parses with a host, over http or https, never
/// goes unanswered: with confirmation on, the question shows the link and
/// its host; with it off, the link opens.
pub proof fn law_web_links_are_answered(
    target: Seq<char>,
    confirm: bool,
    d: LinkDecision,
    url: Seq<char>,
    scheme: Seq<char>,
    host: Seq<char>,
    path: Seq<char>,
)
    requires
        url_parse(trimmed(target)) == Some((url, scheme, Some(host), path)),
        scheme == "http"@ || scheme == "https"@,
        link_decision_spec(target, confirm, d),
    ensures
        confirm ==> (d matches LinkDecision::Confirm(link) && link.url@ == url && link.target@ == host),
        !confirm ==> (d matches LinkDecision::Open(u) && u@ == url),
{
    crate::links::law_web_and_mail_links_are_offered(url, scheme, Some(host), path);
}

/// New mail is announced only after a background refresh, with notices
/// on, and only when the Inbox's unread count is known before and after
/// and grew: a count that stayed or fell, or a refresh the user asked for,
/// never raises a notice.
pub proof fn law_notices_only_when_unread_mail_grew(
    was_polling: bool,
    notices_on: bool,
    before: u32,
    after: u32,
)
    ensures
        after <= before ==> !notify_spec(was_polling, notices_on, Some(before), Some(after)),
        !was_polling ==> !notify_spec(was_polling, notices_on, Some(before), Some(after)),
        !notices_on ==> !notify_spec(was_polling, notices_on, Some(before), Some(after)),
        !notify_spec(was_polling, notices_on, None, Some(after)),
        !notify_spec(was_polling, notices_on, Some(before), None),
        was_polling && notices_on && after > before ==> notify_spec(was_polling, notices_on, Some(before), Some(after)),
{
}

} // verus!
