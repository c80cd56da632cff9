//! A fictional mailbox in memory, for working on the interface without
//! Proton. Nothing here touches the network, a session or the disk; every
//! name and address is invented, and addresses use the reserved
//! `example.*` domains.

use vstd::prelude::*;

use crate::text::{
    ascii_alnum, ascii_lower, at_most, chars_of, decimal, decimal_string, is_ascii_alnum, join_chars,
    has_infix, contains_text, joined, lowercase, push_char, same_text, split_whitespace, string_of, to_ascii_lower, to_lowercase,
    trim, trimmed, views, words,
};
use crate::model::{
    counts_lookup,
    ConversationDetail, ConversationPage, ConversationSummary, Folder, MailAddress, MailFolder,
    MailMessage, MailboxCounts, MailboxError, MessageBody, SummaryKind,
};

verus! {

/// Small enough that the fictional Inbox needs several pages.
pub const PAGE_SIZE: u32 = 10;

pub const MINUTE: i64 = 60;

pub const HOUR: i64 = 3600;

pub const DAY: i64 = 86400;

/// Time between consecutive messages of a thread: three hours and
/// seventeen minutes.
pub const THREAD_GAP: i64 = 11820;

/// No fictional conversation is older than this many seconds.
pub const OLDEST: i64 = 86400000;

/// No fictional thread holds more messages than this.
pub const LONGEST_THREAD: usize = 8;

/// The messages of the thread, oldest first.
pub open spec fn design_review_bodies() -> Seq<&'static str> {
    seq![
    "Hi Demo,\n\nI reviewed the settings screen. The account section reads clearly, but the notification toggles need stronger labels. I left comments on the latest mockup.\n\nCould you update those labels before tomorrow's review?\n\nThanks,\nAlex",
    "Hi Alex,\n\nI updated the notification labels and grouped the recovery options under Security. I also added helper text for the two settings that were ambiguous.\n\nThe revised mockup is ready for another pass.\n\nThanks,\nDemo",
    "Hi Demo,\n\nThe revised settings screen looks good. The new labels remove the ambiguity, and the Security grouping feels natural.\n\nI marked the review complete. No further changes from me.\n\nThanks,\nAlex",
    ]
}

fn design_review_thread() -> (r: Vec<&'static str>)
    ensures
        r@ == design_review_bodies(),
{
    vec![
    "Hi Demo,\n\nI reviewed the settings screen. The account section reads clearly, but the notification toggles need stronger labels. I left comments on the latest mockup.\n\nCould you update those labels before tomorrow's review?\n\nThanks,\nAlex",
    "Hi Alex,\n\nI updated the notification labels and grouped the recovery options under Security. I also added helper text for the two settings that were ambiguous.\n\nThe revised mockup is ready for another pass.\n\nThanks,\nDemo",
    "Hi Demo,\n\nThe revised settings screen looks good. The new labels remove the ambiguity, and the Security grouping feels natural.\n\nI marked the review complete. No further changes from me.\n\nThanks,\nAlex",
    ]
}

/// The messages of the thread, oldest first.
pub open spec fn offsite_bodies() -> Seq<&'static str> {
    seq![
    "Hi everyone,\n\nPlease add your topics for the offsite by Friday. I have reserved the morning for planning and the afternoon for team discussions.\n\nThanks,\nSam",
    "Hi Sam,\n\nPlease add a 30-minute onboarding retrospective. I would like to capture what helped recent hires and what we should change.\n\nThanks,\nDemo",
    "Hi all,\n\nI would like 45 minutes for customer interview themes. I can bring three recordings and a short summary of recurring feedback.\n\nPriya",
    "Hi Priya,\n\nI added the customer interview session after lunch. The agenda still has a 30-minute open slot before the closing discussion.\n\nThanks,\nDemo",
    "Hi everyone,\n\nCould we use the open slot for next quarter's technical risks? I can facilitate and send three prompts beforehand.\n\nJordan",
    "Hi Jordan,\n\nAdded. I also moved the break forward by 15 minutes so the afternoon sessions do not run together.\n\nThanks,\nDemo",
    "Hi all,\n\nThe agenda is now final. We will meet in Cedar Room at 09:00; breakfast and coffee arrive at 08:45.\n\nSee you Friday,\nSam",
    ]
}

fn offsite_thread() -> (r: Vec<&'static str>)
    ensures
        r@ == offsite_bodies(),
{
    vec![
    "Hi everyone,\n\nPlease add your topics for the offsite by Friday. I have reserved the morning for planning and the afternoon for team discussions.\n\nThanks,\nSam",
    "Hi Sam,\n\nPlease add a 30-minute onboarding retrospective. I would like to capture what helped recent hires and what we should change.\n\nThanks,\nDemo",
    "Hi all,\n\nI would like 45 minutes for customer interview themes. I can bring three recordings and a short summary of recurring feedback.\n\nPriya",
    "Hi Priya,\n\nI added the customer interview session after lunch. The agenda still has a 30-minute open slot before the closing discussion.\n\nThanks,\nDemo",
    "Hi everyone,\n\nCould we use the open slot for next quarter's technical risks? I can facilitate and send three prompts beforehand.\n\nJordan",
    "Hi Jordan,\n\nAdded. I also moved the break forward by 15 minutes so the afternoon sessions do not run together.\n\nThanks,\nDemo",
    "Hi all,\n\nThe agenda is now final. We will meet in Cedar Room at 09:00; breakfast and coffee arrive at 08:45.\n\nSee you Friday,\nSam",
    ]
}

/// The messages of the thread, oldest first.
pub open spec fn localization_bodies() -> Seq<&'static str> {
    seq![
    "Hi Demo,\n\nI attached the first proposal for the localization workflow. It covers string extraction, approver assignment, and the release cutoff.\n\nCould you check the engineering steps?\n\nThanks,\nRiley",
    "Hi Riley,\n\nThe flow looks workable. I added comments about plural forms and requested that screenshots include the string key.\n\nThanks,\nDemo",
    "Hi Demo,\n\nI reviewed the proposal too. Please add a step for documenting character limits before localizers begin. That should prevent late layout fixes.\n\nAlex",
    "Hi Alex,\n\nGood point. I added character limits to the handoff checklist and clarified who approves exceptions.\n\nThanks,\nDemo",
    "Hi both,\n\nI incorporated the comments and marked the remaining decisions. The proposal is ready for Friday's workflow review.\n\nThanks,\nRiley",
    ]
}

fn localization_thread() -> (r: Vec<&'static str>)
    ensures
        r@ == localization_bodies(),
{
    vec![
    "Hi Demo,\n\nI attached the first proposal for the localization workflow. It covers string extraction, approver assignment, and the release cutoff.\n\nCould you check the engineering steps?\n\nThanks,\nRiley",
    "Hi Riley,\n\nThe flow looks workable. I added comments about plural forms and requested that screenshots include the string key.\n\nThanks,\nDemo",
    "Hi Demo,\n\nI reviewed the proposal too. Please add a step for documenting character limits before localizers begin. That should prevent late layout fixes.\n\nAlex",
    "Hi Alex,\n\nGood point. I added character limits to the handoff checklist and clarified who approves exceptions.\n\nThanks,\nDemo",
    "Hi both,\n\nI incorporated the comments and marked the remaining decisions. The proposal is ready for Friday's workflow review.\n\nThanks,\nRiley",
    ]
}

/// The messages of the thread, oldest first.
pub open spec fn keyboard_shortcuts_bodies() -> Seq<&'static str> {
    seq![
    "Hi Drew,\n\nI drafted shortcuts for archive, delete, reply, and folder navigation. I avoided single-letter shortcuts while the cursor is inside a text field.\n\nCould you review the key choices?\n\nThanks,\nDemo",
    "Hi Demo,\n\nThe list is a good start. I suggest using bracket keys for conversation navigation and keeping J/K available for the message list.\n\nDrew",
    "Hi Drew,\n\nI revised the proposal and added a conflict table for macOS, Windows, and Linux. J/K now moves through the list as suggested.\n\nThanks,\nDemo",
    "Hi Demo,\n\nThe revised shortcuts look consistent across platforms. I approved the proposal and opened one follow-up for screen-reader announcements.\n\nThanks,\nDrew",
    ]
}

fn keyboard_shortcuts_thread() -> (r: Vec<&'static str>)
    ensures
        r@ == keyboard_shortcuts_bodies(),
{
    vec![
    "Hi Drew,\n\nI drafted shortcuts for archive, delete, reply, and folder navigation. I avoided single-letter shortcuts while the cursor is inside a text field.\n\nCould you review the key choices?\n\nThanks,\nDemo",
    "Hi Demo,\n\nThe list is a good start. I suggest using bracket keys for conversation navigation and keeping J/K available for the message list.\n\nDrew",
    "Hi Drew,\n\nI revised the proposal and added a conflict table for macOS, Windows, and Linux. J/K now moves through the list as suggested.\n\nThanks,\nDemo",
    "Hi Demo,\n\nThe revised shortcuts look consistent across platforms. I approved the proposal and opened one follow-up for screen-reader announcements.\n\nThanks,\nDrew",
    ]
}

/// The messages of the thread, oldest first.
pub open spec fn apartment_viewing_bodies() -> Seq<&'static str> {
    seq![
    "Hi Robin,\n\nI am interested in the apartment on Oak Avenue. Do you have any viewing times after 17:00 this week?\n\nThanks,\nDemo",
    "Hi Demo,\n\nI can show it Tuesday at 17:30 or Thursday at 18:15. The viewing takes about 30 minutes.\n\nBest,\nRobin",
    "Hi Robin,\n\nTuesday at 17:30 works for me. Is there bicycle parking in the building?\n\nThanks,\nDemo",
    "Hi Demo,\n\nYes, there is a locked bicycle room beside the rear entrance. Please bring a photo ID for the front desk.\n\nRobin",
    "Hi Robin,\n\nGreat, I will bring my ID. I expect to arrive a few minutes early.\n\nThanks,\nDemo",
    "Hi Demo,\n\nYou are confirmed for Tuesday at 17:30. Use the north entrance and ask the front desk for apartment 4B.\n\nBest,\nRobin",
    ]
}

fn apartment_viewing_thread() -> (r: Vec<&'static str>)
    ensures
        r@ == apartment_viewing_bodies(),
{
    vec![
    "Hi Robin,\n\nI am interested in the apartment on Oak Avenue. Do you have any viewing times after 17:00 this week?\n\nThanks,\nDemo",
    "Hi Demo,\n\nI can show it Tuesday at 17:30 or Thursday at 18:15. The viewing takes about 30 minutes.\n\nBest,\nRobin",
    "Hi Robin,\n\nTuesday at 17:30 works for me. Is there bicycle parking in the building?\n\nThanks,\nDemo",
    "Hi Demo,\n\nYes, there is a locked bicycle room beside the rear entrance. Please bring a photo ID for the front desk.\n\nRobin",
    "Hi Robin,\n\nGreat, I will bring my ID. I expect to arrive a few minutes early.\n\nThanks,\nDemo",
    "Hi Demo,\n\nYou are confirmed for Tuesday at 17:30. Use the north entrance and ask the front desk for apartment 4B.\n\nBest,\nRobin",
    ]
}

/// The messages of the thread, oldest first.
pub open spec fn garden_fence_bodies() -> Seq<&'static str> {
    seq![
    "Hi Emerson,\n\nTwo boards on the shared garden fence came loose in last night's wind. Could you look at them this weekend and estimate the repair?\n\nThanks,\nDemo",
    "Hi Demo,\n\nI checked the fence this morning. The posts are sound, so we only need three new boards and exterior screws. I can repair it Saturday after 10:00.\n\nEmerson",
    ]
}

fn garden_fence_thread() -> (r: Vec<&'static str>)
    ensures
        r@ == garden_fence_bodies(),
{
    vec![
    "Hi Emerson,\n\nTwo boards on the shared garden fence came loose in last night's wind. Could you look at them this weekend and estimate the repair?\n\nThanks,\nDemo",
    "Hi Demo,\n\nI checked the fence this morning. The posts are sound, so we only need three new boards and exterior screws. I can repair it Saturday after 10:00.\n\nEmerson",
    ]
}

/// The messages of the thread, oldest first.
pub open spec fn moving_boxes_bodies() -> Seq<&'static str> {
    seq![
    "Hi Demo,\n\nI saved twelve medium moving boxes and a roll of packing paper for you. They are folded in my garage.\n\nJordan",
    "Hi Jordan,\n\nThat is perfect. Could I pick them up Wednesday around 18:30?\n\nThanks,\nDemo",
    "Hi Demo,\n\nWednesday at 18:30 works. I will leave the garage light on and bring the boxes to the driveway.\n\nJordan",
    ]
}

fn moving_boxes_thread() -> (r: Vec<&'static str>)
    ensures
        r@ == moving_boxes_bodies(),
{
    vec![
    "Hi Demo,\n\nI saved twelve medium moving boxes and a roll of packing paper for you. They are folded in my garage.\n\nJordan",
    "Hi Jordan,\n\nThat is perfect. Could I pick them up Wednesday around 18:30?\n\nThanks,\nDemo",
    "Hi Demo,\n\nWednesday at 18:30 works. I will leave the garage light on and bring the boxes to the driveway.\n\nJordan",
    ]
}

/// The messages of the thread, oldest first.
pub open spec fn conference_travel_bodies() -> Seq<&'static str> {
    seq![
    "Hi Taylor,\n\nI found two train options for the conference. The 08:10 service arrives before registration and costs less than the later express.\n\nWhich one do you prefer?\n\nThanks,\nDemo",
    "Hi Demo,\n\nPlease book the 08:10 train. I will travel with one carry-on bag and do not need a flexible ticket.\n\nTaylor",
    "Hi Taylor,\n\nBooked. Your outbound seat is 12A, and the return train leaves at 18:40 on Friday.\n\nThanks,\nDemo",
    "Hi Demo,\n\nI received the tickets and added both trips to my calendar. Thanks for arranging everything.\n\nTaylor",
    ]
}

fn conference_travel_thread() -> (r: Vec<&'static str>)
    ensures
        r@ == conference_travel_bodies(),
{
    vec![
    "Hi Taylor,\n\nI found two train options for the conference. The 08:10 service arrives before registration and costs less than the later express.\n\nWhich one do you prefer?\n\nThanks,\nDemo",
    "Hi Demo,\n\nPlease book the 08:10 train. I will travel with one carry-on bag and do not need a flexible ticket.\n\nTaylor",
    "Hi Taylor,\n\nBooked. Your outbound seat is 12A, and the return train leaves at 18:40 on Friday.\n\nThanks,\nDemo",
    "Hi Demo,\n\nI received the tickets and added both trips to my calendar. Thanks for arranging everything.\n\nTaylor",
    ]
}

/// The text of a message long enough that it does not fit on one screen.
pub const LONG_BODY: &'static str = "\
Hi Demo,

This message is intentionally long so the reader can be checked with content that does not fit on one screen.

The first part describes the background. The team spent the last few weeks collecting feedback from people who tried the early builds. Most of the comments were about navigation, a few were about wording, and a handful were about how dates are shown in different places.

The second part lists what we agreed to change. Navigation between folders should feel instant. Long names and subjects should never push other content out of view. Dates in the list should stay short, while the reader can show the complete date and time.

The third part is about timing. Nothing here is urgent, and it is fine to pick this up after the current work is finished. If something is unclear, reply to this thread and we can talk it through.

Here is a deliberately long link without spaces, to check that it wraps instead of widening the panel: https://example.com/projects/demo/reader/a-very-long-path-segment-without-any-spaces-that-must-wrap-inside-the-reading-panel?section=layout&check=wrapping

Finally, a list of small follow-ups:
- keep the spacing consistent between messages
- make the collapsed header easy to recognize
- check the layout at a narrow window width
- confirm that scrolling reaches the end of this message

Thanks for reading all the way to the end.

Morgan";

/// A message long enough that it does not fit on one screen: the text of
/// `LONG_BODY`.
pub fn long_body() -> (r: &'static str)
    ensures
        r == LONG_BODY,
        r@ == LONG_BODY@,
{
    LONG_BODY
}

/// Everyone a volunteer schedule goes to.
pub open spec fn volunteer_addresses() -> Seq<&'static str> {
    seq![
    "demo@example.com",
    "volunteers@example.org",
    "sam.chen@example.com",
    "priya.natarajan@example.com",
    "jordan.lee@example.com",
    "casey.kim@example.com",
    "harper.singh@example.com",
    "robin.fischer@example.com",
    "spring-planting-weekend-volunteer-coordination-list@example.org",
    ]
}

/// Everyone a volunteer schedule goes to.
pub fn garden_volunteers() -> (r: Vec<&'static str>)
    ensures
        r@ == volunteer_addresses(),
{
    vec![
    "demo@example.com",
    "volunteers@example.org",
    "sam.chen@example.com",
    "priya.natarajan@example.com",
    "jordan.lee@example.com",
    "casey.kim@example.com",
    "harper.singh@example.com",
    "robin.fischer@example.com",
    "spring-planting-weekend-volunteer-coordination-list@example.org",
    ]
}

/// One fictional conversation.
pub struct Fixture {
    pub folder: MailFolder,
    /// Whether the demo user sent the first message.
    pub outgoing: bool,
    /// Senders, or recipients in Sent and Drafts; empty when unknown.
    pub correspondents: &'static str,
    pub subject: &'static str,
    /// Seconds before now.
    pub age: i64,
    pub unread: bool,
    pub starred: bool,
    /// Message bodies, oldest first; one per message.
    pub bodies: Vec<&'static str>,
    /// Replaces the recipients of every message when not empty.
    pub to: Vec<&'static str>,
}

/// A fixture the mailbox can show: at least one message and not too many,
/// an age that is not in the future nor too far back.
pub open spec fn fixture_wf(f: Fixture) -> bool {
    &&& 1 <= f.bodies@.len() <= LONGEST_THREAD
    &&& 0 <= f.age <= OLDEST
}

impl Fixture {
    fn unread(self) -> (r: Self)
        ensures
            r == (Fixture { unread: true, ..self }),
    {
        Fixture { unread: true, ..self }
    }

    fn starred(self) -> (r: Self)
        ensures
            r == (Fixture { starred: true, ..self }),
    {
        Fixture { starred: true, ..self }
    }

    fn thread(self, bodies: Vec<&'static str>) -> (r: Self)
        ensures
            r == (Fixture { bodies, ..self }),
    {
        Fixture { bodies, ..self }
    }

    fn to(self, to: Vec<&'static str>) -> (r: Self)
        ensures
            r == (Fixture { to, ..self }),
    {
        Fixture { to, ..self }
    }
}

/// A conversation of one message, read and not starred. Sent and Drafts
/// hold what the demo user wrote.
fn mail(folder: MailFolder, correspondents: &'static str, subject: &'static str, age: i64, body: &'static str) -> (r: Fixture)
    ensures
        r.folder == folder,
        r.outgoing == (folder == MailFolder::Sent || folder == MailFolder::Drafts),
        r.correspondents == correspondents,
        r.subject == subject,
        r.age == age,
        !r.unread,
        !r.starred,
        r.bodies@ == seq![body],
        r.to@.len() == 0,
{
    let outgoing = match folder {
        MailFolder::Sent | MailFolder::Drafts => true,
        _ => false,
    };
    Fixture {
        folder,
        outgoing,
        correspondents,
        subject,
        age,
        unread: false,
        starred: false,
        bodies: vec![body],
        to: Vec::new(),
    }
}

/// One fictional conversation as plain values.
pub struct FixtureShape {
    pub folder: MailFolder,
    pub outgoing: bool,
    pub correspondents: &'static str,
    pub subject: &'static str,
    pub age: int,
    pub unread: bool,
    pub starred: bool,
    pub bodies: Seq<&'static str>,
    pub to: Seq<&'static str>,
}

pub open spec fn fixture_shape(f: Fixture) -> FixtureShape {
    FixtureShape {
        folder: f.folder,
        outgoing: f.outgoing,
        correspondents: f.correspondents,
        subject: f.subject,
        age: f.age as int,
        unread: f.unread,
        starred: f.starred,
        bodies: f.bodies@,
        to: f.to@,
    }
}

pub open spec fn fixture_shapes(fs: Seq<Fixture>) -> Seq<FixtureShape> {
    fs.map_values(|f: Fixture| fixture_shape(f))
}

/// A conversation of one message, read and not starred; Sent and Drafts
/// hold what the demo user wrote.
pub open spec fn mail_shape(folder: MailFolder, correspondents: &'static str, subject: &'static str, age: int, body: &'static str) -> FixtureShape {
    FixtureShape {
        folder,
        outgoing: folder == MailFolder::Sent || folder == MailFolder::Drafts,
        correspondents,
        subject,
        age,
        unread: false,
        starred: false,
        bodies: seq![body],
        to: Seq::empty(),
    }
}

impl FixtureShape {
    pub open spec fn unread(self) -> FixtureShape {
        FixtureShape { unread: true, ..self }
    }

    pub open spec fn starred(self) -> FixtureShape {
        FixtureShape { starred: true, ..self }
    }

    pub open spec fn thread(self, bodies: Seq<&'static str>) -> FixtureShape {
        FixtureShape { bodies, ..self }
    }

    pub open spec fn to(self, to: Seq<&'static str>) -> FixtureShape {
        FixtureShape { to, ..self }
    }
}

/// The fictional mailbox as it starts, newest first within each folder.
pub open spec fn fixture_table() -> Seq<FixtureShape> {
    seq![
        mail_shape(
            MailFolder::Inbox,
            "Alex Rivera",
            "Design review notes for the settings screen",
            12 * MINUTE,
            design_review_bodies()[0],
        )
        .unread()
        .thread(design_review_bodies()),
        mail_shape(
            MailFolder::Inbox,
            "noreply@example.org",
            "Your weekly storage summary",
            48 * MINUTE,
            "You are using 1.8 GB of your 5 GB mailbox storage. That is 36% of your current plan.\n\nArchive or delete large messages to free space. No action is required at this time.",
        )
        .unread(),
        mail_shape(
            MailFolder::Inbox,
            "Sam Chen, Priya Natarajan, Jordan Lee",
            "Re: Offsite agenda, please add your topics by Friday",
            2 * HOUR,
            offsite_bodies()[0],
        )
        .unread()
        .starred()
        .thread(offsite_bodies()),
        mail_shape(
            MailFolder::Inbox,
            "Taylor Brooks",
            "",
            5 * HOUR,
            "Hi Demo,\n\nYou left your blue notebook in the meeting room. I put it in the top drawer beside the printer so it does not get lost.\n\nTaylor",
        ),
        mail_shape(
            MailFolder::Inbox,
            "Dr. Maximiliana Konstantinopoulou-Everhart, Office of Interdepartmental Coordination",
            "Room booking confirmed",
            9 * HOUR,
            "Hello Demo,\n\nCedar Room is confirmed for September 18 from 09:00 to 12:00. The room seats 18 people and includes a display, speakerphone, and whiteboard.\n\nPlease cancel by noon the previous day if your plans change.\n\nRegards,\nMaximiliana",
        ),
        mail_shape(
            MailFolder::Inbox,
            "Morgan Patel",
            "A very long subject line that keeps going to check how the conversation list \
             truncates text that does not fit in a single row of the layout",
            DAY as int,
            LONG_BODY,
        )
        .unread(),
        mail_shape(
            MailFolder::Inbox,
            "Community Garden Club",
            "Volunteer schedule for the spring planting weekend",
            2 * DAY,
            "Hello volunteers,\n\nThe spring planting weekend runs Saturday from 08:30 to 13:00. Meet beside the tool shed for assignments.\n\nTeams will prepare beds, spread compost, plant seedlings, and repair irrigation lines. Bring gloves, a water bottle, and clothes suitable for light rain.\n\nReply by Thursday if your availability changed.\n\nCommunity Garden Club",
        )
        .to(volunteer_addresses()),
        mail_shape(
            MailFolder::Inbox,
            "Casey Kim",
            "Lunch on Thursday?",
            2 * DAY + 3 * HOUR,
            "Hi Demo,\n\nAre you free for lunch Thursday at 12:30? The new noodle place near the station has outdoor tables.\n\nCasey",
        )
        .starred(),
        mail_shape(
            MailFolder::Inbox,
            "billing@example.com",
            "Invoice #1042 is available",
            3 * DAY,
            "Hello,\n\nInvoice #1042 for $48.00 is ready. Payment is due September 25.\n\nThis invoice covers your September workspace subscription. Sign in to your account to view the itemized invoice or update your payment method.",
        ),
        mail_shape(
            MailFolder::Inbox,
            "Riley Park, Alex Rivera",
            "Re: Draft proposal for the localization workflow",
            4 * DAY,
            localization_bodies()[0],
        )
        .thread(localization_bodies()),
        mail_shape(
            MailFolder::Inbox,
            "Jamie Ortiz",
            "Photos from the hiking trip",
            6 * DAY,
            "Hi Demo,\n\nI uploaded the photos from Saturday's hike. The folder includes the ridge viewpoint, the old fire tower, and our very muddy finish.\n\nMy favorite is IMG_1842. Feel free to add yours to the same album.\n\nJamie",
        )
        .starred(),
        mail_shape(
            MailFolder::Inbox,
            "Build Bot",
            "Nightly build succeeded",
            7 * DAY,
            "Nightly build 1847 completed successfully.\n\nTarget: main\nCommit: 8f31c2a\nTests: 76 passed\nWarnings: 0\nDuration: 4m 12s\n\nArtifacts remain available for 14 days.",
        ),
        mail_shape(
            MailFolder::Inbox,
            "Avery Quinn",
            "Question about the API rate limits",
            9 * DAY,
            "Hi Demo,\n\nI am integrating the reports endpoint and want to confirm the rate limit. Does the limit apply per API token or across the whole account?\n\nWe expect short bursts of about 20 requests when a dashboard opens, followed by one refresh every five minutes.\n\nThanks,\nAvery",
        )
        .unread(),
        mail_shape(
            MailFolder::Inbox,
            "Library Notifications",
            "Your reserved book is ready for pickup",
            12 * DAY,
            "Your hold is ready for pickup.\n\nTitle: The Left Hand of Darkness\nPickup location: Central Library\nHold shelf: C-17\nCollect by: September 16\n\nBring your library card or photo ID. The hold will return to circulation after the collection date.",
        ),
        mail_shape(
            MailFolder::Inbox,
            "Drew Nakamura",
            "Re: Keyboard shortcuts proposal",
            15 * DAY,
            keyboard_shortcuts_bodies()[0],
        )
        .thread(keyboard_shortcuts_bodies()),
        mail_shape(
            MailFolder::Inbox,
            "Neighborhood Newsletter",
            "Monthly updates and upcoming events",
            18 * DAY,
            "Hello neighbors,\n\nThis month, crews will resurface Pine Street from September 21 to 23. Street parking will be unavailable between 07:00 and 17:00.\n\nThe autumn swap meet is Saturday, September 26, in the community hall. Table reservations close next Monday.\n\nThe next neighborhood meeting is October 2 at 19:00.",
        ),
        mail_shape(
            MailFolder::Inbox,
            "Harper Singh",
            "The recipe you asked about",
            21 * DAY,
            "Hi Demo,\n\nHere is the lentil soup recipe. Cook one diced onion with cumin, add red lentils, tomatoes, and vegetable stock, then simmer for 25 minutes.\n\nFinish with lemon juice and chopped parsley. I usually add smoked paprika when the tomatoes are mild.\n\nHarper",
        ),
        mail_shape(
            MailFolder::Inbox,
            "Sam Chen",
            "Slides from yesterday's talk",
            25 * DAY,
            "Hi Demo,\n\nI attached the slides from yesterday's accessibility talk. Slides 18 through 24 contain the keyboard testing checklist we discussed afterward.\n\nThe speaker also shared the contrast tool here: https://example.org/tools/contrast-checker\n\nSam",
        ),
        mail_shape(
            MailFolder::Inbox,
            "Security Team",
            "New sign-in from a desktop app",
            30 * DAY,
            "A new sign-in to your account was detected.\n\nApplication: Ruston desktop\nPlatform: macOS\nApproximate location: Mexico City, Mexico\nTime: August 12 at 14:36\n\nIf this was you, no action is needed. If you do not recognize this sign-in, revoke the session and change your password.",
        )
        .unread(),
        mail_shape(
            MailFolder::Inbox,
            "Robin Fischer",
            "Re: Apartment viewing times",
            34 * DAY,
            apartment_viewing_bodies()[0],
        )
        .thread(apartment_viewing_bodies()),
        mail_shape(
            MailFolder::Inbox,
            "Event Tickets",
            "Your ticket for the Friday concert",
            40 * DAY,
            "Your mobile ticket is ready.\n\nEvent: The Paper Satellites\nDate: Friday, August 7 at 20:00\nVenue: North Hall\nSection: Floor\nEntry: Door B\n\nOpen the ticket before arriving. Screenshots cannot refresh if the event code changes.",
        ),
        mail_shape(
            MailFolder::Inbox,
            "Parker Diaz",
            "Book club: next month's pick",
            47 * DAY,
            "Hi everyone,\n\nNext month's book is Piranesi by Susanna Clarke. We will meet September 3 at 19:00 in the upstairs room at Page & Cup.\n\nI will send three discussion questions the week before.\n\nParker",
        ),
        mail_shape(
            MailFolder::Inbox,
            "",
            "Automated message without a sender name",
            55 * DAY,
            "This automated message intentionally has no sender display name.\n\nReference: DEMO-2048\nStatus: Delivery complete\nRecorded at: 10:42 UTC\n\nNo reply is monitored for this address.",
        ),
        mail_shape(
            MailFolder::Inbox,
            "Quinn Adler",
            "Old laptop for sale",
            63 * DAY,
            "Hi Demo,\n\nI am selling my 13-inch laptop from 2021. It has 16 GB of memory, a 512 GB drive, and a fresh battery replacement.\n\nI am asking $420 and can bring it to the office if you want to inspect it.\n\nQuinn",
        ),
        mail_shape(
            MailFolder::Inbox,
            "Travel Desk",
            "Itinerary changes for your trip",
            72 * DAY,
            "Hello Demo,\n\nYour outbound flight now departs at 16:20, 55 minutes later than scheduled. The flight number and arrival terminal are unchanged.\n\nYour airport transfer has been moved to 13:15. The updated itinerary is attached.\n\nTravel Desk",
        )
        .starred(),
        mail_shape(
            MailFolder::Inbox,
            "Emerson Cole",
            "Re: Garden fence repair",
            80 * DAY,
            garden_fence_bodies()[0],
        )
        .thread(garden_fence_bodies()),
        mail_shape(
            MailFolder::Inbox,
            "Language Exchange Group",
            "Meeting moved to the cafe on Elm Street",
            95 * DAY,
            "Hello everyone,\n\nTuesday's language exchange has moved to Elm Street Cafe because the library closes early. We will meet at 18:30 at the large table upstairs.\n\nThis week's themes are travel problems and asking for directions. New participants are welcome.",
        ),
        mail_shape(
            MailFolder::Inbox,
            "Kai Morgan",
            "Thanks for the help!",
            110 * DAY,
            "Hi Demo,\n\nThanks for helping me recover the presentation before the client call. The exported copy opened correctly, and we finished with time to spare.\n\nI owe you coffee.\n\nKai",
        ),
        mail_shape(
            MailFolder::Inbox,
            "Frankie Hale",
            "Podcast recommendations",
            130 * DAY,
            "Hi Demo,\n\nYou asked for podcasts for long walks. Try Articles of Interest for design stories, Cautionary Tales for history, and Twenty Thousand Hertz for sound.\n\nStart with the episodes about pockets, the cobra effect, and notification sounds.\n\nFrankie",
        ),
        mail_shape(
            MailFolder::Inbox,
            "Support",
            "Your ticket has been resolved",
            160 * DAY,
            "Hello Demo,\n\nSupport ticket #5821 has been resolved. We corrected the duplicate charge and returned $12.00 to your original payment method.\n\nThe credit may take three to five business days to appear. Reply within seven days if the issue remains.\n\nSupport Team",
        ),
        mail_shape(
            MailFolder::Inbox,
            "Jordan Lee",
            "Re: Moving boxes",
            200 * DAY,
            moving_boxes_bodies()[0],
        )
        .thread(moving_boxes_bodies()),
        mail_shape(
            MailFolder::Inbox,
            "Alumni Association",
            "Reunion save-the-date",
            400 * DAY,
            "Save the date for the Class of 2016 reunion.\n\nSaturday, November 14\n18:00 to 22:00\nRiverside Alumni Hall\n\nRegistration and hotel details will follow in August. Please update your contact information before June 30.",
        ),
        mail_shape(
            MailFolder::Inbox,
            "Sasha Bell",
            "Scanned documents",
            520 * DAY,
            "Hi Demo,\n\nI scanned the signed lease addendum and the two receipts from the repair shop. The PDF has six pages in the same order as the originals.\n\nLet me know if you need a higher-resolution copy.\n\nSasha",
        ),
        mail_shape(
            MailFolder::Inbox,
            "Old Mailing List",
            "Welcome to the mailing list",
            900 * DAY,
            "Welcome to the Riverside Makers mailing list.\n\nYou will receive workshop announcements, monthly meeting notes, and occasional requests for volunteers. Messages are usually sent twice a month.\n\nTo introduce yourself, reply with the projects or tools you are interested in.",
        ),
        mail_shape(
            MailFolder::Drafts,
            "Riley Park",
            "Re: Draft proposal for the localization workflow",
            30 * MINUTE,
            "Hi Riley,\n\nI reviewed the latest localization workflow. The ownership section is clear now. I still want to discuss how emergency string changes enter the queue after the release cutoff.\n\nCould we cover that in Friday's review?\n\nThanks,\nDemo",
        ),
        mail_shape(
            MailFolder::Drafts,
            "",
            "",
            3 * DAY,
            "Notes for next week:\n\n- confirm the dentist appointment\n- send the utility reading\n- ask Casey about Saturday\n\nThis unfinished draft intentionally has no subject or recipient.",
        ),
        mail_shape(
            MailFolder::Sent,
            "Alex Rivera",
            "Re: Design review notes for the settings screen",
            20 * MINUTE,
            "Hi Alex,\n\nI made the final label changes and uploaded the approved settings mockup. The handoff includes focus states and notes for narrow windows.\n\nThanks for the careful review.\n\nDemo",
        ),
        mail_shape(
            MailFolder::Sent,
            "Sam Chen, Priya Natarajan, Jordan Lee",
            "Re: Offsite agenda",
            3 * HOUR,
            "Hi everyone,\n\nI added the onboarding retrospective, customer interview themes, and technical risks to the offsite agenda. The final schedule is attached.\n\nPlease send dietary changes by Wednesday noon.\n\nThanks,\nDemo",
        ),
        mail_shape(
            MailFolder::Sent,
            "Casey Kim",
            "Re: Lunch on Thursday?",
            2 * DAY,
            "Hi Casey,\n\nThursday at 12:30 works. I will meet you outside the noodle place near the station.\n\nSee you then,\nDemo",
        ),
        mail_shape(
            MailFolder::Sent,
            "Harper Singh",
            "Recipe request",
            22 * DAY,
            "Hi Harper,\n\nCould you send me the lentil soup recipe you made last weekend? I especially want to know which spices you used.\n\nThanks,\nDemo",
        ),
        mail_shape(
            MailFolder::Sent,
            "landlord@example.net",
            "Lease renewal questions",
            45 * DAY,
            "Hello,\n\nI received the lease renewal offer and have two questions before signing. Does the new rent include the storage unit, and can the renewal begin on October 1 instead of September 15?\n\nThank you,\nDemo",
        ),
        mail_shape(
            MailFolder::Archive,
            "Project Updates",
            "First quarter retrospective summary",
            150 * DAY,
            "Hello team,\n\nThe first quarter retrospective is complete. We shipped three planned releases, reduced average review time from 2.4 days to 1.6 days, and closed 41 customer issues.\n\nThe main follow-ups are smaller release batches, earlier accessibility checks, and clearer ownership for migration work. Owners and dates are in the attached summary.",
        )
        .starred(),
        mail_shape(
            MailFolder::Archive,
            "Alex Rivera",
            "Onboarding checklist",
            300 * DAY,
            "Hi Demo,\n\nHere is the onboarding checklist we used for the support team. It covers account access, security training, product walkthroughs, and the first-week check-in.\n\nThe checklist is a good baseline, but update the team-specific links before reusing it.\n\nAlex",
        ),
        mail_shape(
            MailFolder::Archive,
            "Insurance Office",
            "Policy documents",
            450 * DAY,
            "Hello Demo,\n\nYour renewed renter's insurance policy is attached. Coverage begins June 1 and continues through May 31 next year.\n\nThe insured address and deductible are unchanged. Keep the declaration page with your lease records.\n\nInsurance Office",
        )
        .unread(),
        mail_shape(
            MailFolder::Archive,
            "Taylor Brooks",
            "Re: Conference travel",
            600 * DAY,
            conference_travel_bodies()[0],
        )
        .thread(conference_travel_bodies()),
        mail_shape(
            MailFolder::Archive,
            "newsletter@example.org",
            "Year in review",
            700 * DAY,
            "This year, our community library welcomed 3,420 new members, hosted 186 events, and lent more than 210,000 items.\n\nDonations funded a larger children's reading area and 12 new public computers. Thank you to every volunteer, donor, and visitor who made the work possible.",
        ),
        mail_shape(
            MailFolder::Spam,
            "Prize Department",
            "You may have won something",
            DAY as int,
            "Congratulations! Your address was selected for a possible promotional reward. Submit your personal details before midnight to check eligibility.\n\nThis fictional message exists only to demonstrate the Spam folder error state.",
        )
        .unread(),
        mail_shape(
            MailFolder::Spam,
            "unknown@example.net",
            "Urgent account notice",
            4 * DAY,
            "Your account will supposedly close today unless you confirm it through an unfamiliar link.\n\nThis fictional message demonstrates suspicious urgency and is not a real account notice.",
        ),
    ]
}

/// The fictional mailbox as it starts.
#[verifier::rlimit(100)]
pub fn fixtures() -> (r: Vec<Fixture>)
    ensures
        fixture_shapes(r@) == fixture_table(),
        r@.len() == 48,
        forall|i: int| 0 <= i < r@.len() ==> fixture_wf(#[trigger] r@[i]),
{
    let all = vec![
        mail(
            MailFolder::Inbox,
            "Alex Rivera",
            "Design review notes for the settings screen",
            12 * MINUTE,
            design_review_thread()[0],
        )
        .unread()
        .thread(design_review_thread()),
        mail(
            MailFolder::Inbox,
            "noreply@example.org",
            "Your weekly storage summary",
            48 * MINUTE,
            "You are using 1.8 GB of your 5 GB mailbox storage. That is 36% of your current plan.\n\nArchive or delete large messages to free space. No action is required at this time.",
        )
        .unread(),
        mail(
            MailFolder::Inbox,
            "Sam Chen, Priya Natarajan, Jordan Lee",
            "Re: Offsite agenda, please add your topics by Friday",
            2 * HOUR,
            offsite_thread()[0],
        )
        .unread()
        .starred()
        .thread(offsite_thread()),
        mail(
            MailFolder::Inbox,
            "Taylor Brooks",
            "",
            5 * HOUR,
            "Hi Demo,\n\nYou left your blue notebook in the meeting room. I put it in the top drawer beside the printer so it does not get lost.\n\nTaylor",
        ),
        mail(
            MailFolder::Inbox,
            "Dr. Maximiliana Konstantinopoulou-Everhart, Office of Interdepartmental Coordination",
            "Room booking confirmed",
            9 * HOUR,
            "Hello Demo,\n\nCedar Room is confirmed for September 18 from 09:00 to 12:00. The room seats 18 people and includes a display, speakerphone, and whiteboard.\n\nPlease cancel by noon the previous day if your plans change.\n\nRegards,\nMaximiliana",
        ),
        mail(
            MailFolder::Inbox,
            "Morgan Patel",
            "A very long subject line that keeps going to check how the conversation list \
             truncates text that does not fit in a single row of the layout",
            DAY,
            long_body(),
        )
        .unread(),
        mail(
            MailFolder::Inbox,
            "Community Garden Club",
            "Volunteer schedule for the spring planting weekend",
            2 * DAY,
            "Hello volunteers,\n\nThe spring planting weekend runs Saturday from 08:30 to 13:00. Meet beside the tool shed for assignments.\n\nTeams will prepare beds, spread compost, plant seedlings, and repair irrigation lines. Bring gloves, a water bottle, and clothes suitable for light rain.\n\nReply by Thursday if your availability changed.\n\nCommunity Garden Club",
        )
        .to(garden_volunteers()),
        mail(
            MailFolder::Inbox,
            "Casey Kim",
            "Lunch on Thursday?",
            2 * DAY + 3 * HOUR,
            "Hi Demo,\n\nAre you free for lunch Thursday at 12:30? The new noodle place near the station has outdoor tables.\n\nCasey",
        )
        .starred(),
        mail(
            MailFolder::Inbox,
            "billing@example.com",
            "Invoice #1042 is available",
            3 * DAY,
            "Hello,\n\nInvoice #1042 for $48.00 is ready. Payment is due September 25.\n\nThis invoice covers your September workspace subscription. Sign in to your account to view the itemized invoice or update your payment method.",
        ),
        mail(
            MailFolder::Inbox,
            "Riley Park, Alex Rivera",
            "Re: Draft proposal for the localization workflow",
            4 * DAY,
            localization_thread()[0],
        )
        .thread(localization_thread()),
        mail(
            MailFolder::Inbox,
            "Jamie Ortiz",
            "Photos from the hiking trip",
            6 * DAY,
            "Hi Demo,\n\nI uploaded the photos from Saturday's hike. The folder includes the ridge viewpoint, the old fire tower, and our very muddy finish.\n\nMy favorite is IMG_1842. Feel free to add yours to the same album.\n\nJamie",
        )
        .starred(),
        mail(
            MailFolder::Inbox,
            "Build Bot",
            "Nightly build succeeded",
            7 * DAY,
            "Nightly build 1847 completed successfully.\n\nTarget: main\nCommit: 8f31c2a\nTests: 76 passed\nWarnings: 0\nDuration: 4m 12s\n\nArtifacts remain available for 14 days.",
        ),
        mail(
            MailFolder::Inbox,
            "Avery Quinn",
            "Question about the API rate limits",
            9 * DAY,
            "Hi Demo,\n\nI am integrating the reports endpoint and want to confirm the rate limit. Does the limit apply per API token or across the whole account?\n\nWe expect short bursts of about 20 requests when a dashboard opens, followed by one refresh every five minutes.\n\nThanks,\nAvery",
        )
        .unread(),
        mail(
            MailFolder::Inbox,
            "Library Notifications",
            "Your reserved book is ready for pickup",
            12 * DAY,
            "Your hold is ready for pickup.\n\nTitle: The Left Hand of Darkness\nPickup location: Central Library\nHold shelf: C-17\nCollect by: September 16\n\nBring your library card or photo ID. The hold will return to circulation after the collection date.",
        ),
        mail(
            MailFolder::Inbox,
            "Drew Nakamura",
            "Re: Keyboard shortcuts proposal",
            15 * DAY,
            keyboard_shortcuts_thread()[0],
        )
        .thread(keyboard_shortcuts_thread()),
        mail(
            MailFolder::Inbox,
            "Neighborhood Newsletter",
            "Monthly updates and upcoming events",
            18 * DAY,
            "Hello neighbors,\n\nThis month, crews will resurface Pine Street from September 21 to 23. Street parking will be unavailable between 07:00 and 17:00.\n\nThe autumn swap meet is Saturday, September 26, in the community hall. Table reservations close next Monday.\n\nThe next neighborhood meeting is October 2 at 19:00.",
        ),
        mail(
            MailFolder::Inbox,
            "Harper Singh",
            "The recipe you asked about",
            21 * DAY,
            "Hi Demo,\n\nHere is the lentil soup recipe. Cook one diced onion with cumin, add red lentils, tomatoes, and vegetable stock, then simmer for 25 minutes.\n\nFinish with lemon juice and chopped parsley. I usually add smoked paprika when the tomatoes are mild.\n\nHarper",
        ),
        mail(
            MailFolder::Inbox,
            "Sam Chen",
            "Slides from yesterday's talk",
            25 * DAY,
            "Hi Demo,\n\nI attached the slides from yesterday's accessibility talk. Slides 18 through 24 contain the keyboard testing checklist we discussed afterward.\n\nThe speaker also shared the contrast tool here: https://example.org/tools/contrast-checker\n\nSam",
        ),
        mail(
            MailFolder::Inbox,
            "Security Team",
            "New sign-in from a desktop app",
            30 * DAY,
            "A new sign-in to your account was detected.\n\nApplication: Ruston desktop\nPlatform: macOS\nApproximate location: Mexico City, Mexico\nTime: August 12 at 14:36\n\nIf this was you, no action is needed. If you do not recognize this sign-in, revoke the session and change your password.",
        )
        .unread(),
        mail(
            MailFolder::Inbox,
            "Robin Fischer",
            "Re: Apartment viewing times",
            34 * DAY,
            apartment_viewing_thread()[0],
        )
        .thread(apartment_viewing_thread()),
        mail(
            MailFolder::Inbox,
            "Event Tickets",
            "Your ticket for the Friday concert",
            40 * DAY,
            "Your mobile ticket is ready.\n\nEvent: The Paper Satellites\nDate: Friday, August 7 at 20:00\nVenue: North Hall\nSection: Floor\nEntry: Door B\n\nOpen the ticket before arriving. Screenshots cannot refresh if the event code changes.",
        ),
        mail(
            MailFolder::Inbox,
            "Parker Diaz",
            "Book club: next month's pick",
            47 * DAY,
            "Hi everyone,\n\nNext month's book is Piranesi by Susanna Clarke. We will meet September 3 at 19:00 in the upstairs room at Page & Cup.\n\nI will send three discussion questions the week before.\n\nParker",
        ),
        mail(
            MailFolder::Inbox,
            "",
            "Automated message without a sender name",
            55 * DAY,
            "This automated message intentionally has no sender display name.\n\nReference: DEMO-2048\nStatus: Delivery complete\nRecorded at: 10:42 UTC\n\nNo reply is monitored for this address.",
        ),
        mail(
            MailFolder::Inbox,
            "Quinn Adler",
            "Old laptop for sale",
            63 * DAY,
            "Hi Demo,\n\nI am selling my 13-inch laptop from 2021. It has 16 GB of memory, a 512 GB drive, and a fresh battery replacement.\n\nI am asking $420 and can bring it to the office if you want to inspect it.\n\nQuinn",
        ),
        mail(
            MailFolder::Inbox,
            "Travel Desk",
            "Itinerary changes for your trip",
            72 * DAY,
            "Hello Demo,\n\nYour outbound flight now departs at 16:20, 55 minutes later than scheduled. The flight number and arrival terminal are unchanged.\n\nYour airport transfer has been moved to 13:15. The updated itinerary is attached.\n\nTravel Desk",
        )
        .starred(),
        mail(
            MailFolder::Inbox,
            "Emerson Cole",
            "Re: Garden fence repair",
            80 * DAY,
            garden_fence_thread()[0],
        )
        .thread(garden_fence_thread()),
        mail(
            MailFolder::Inbox,
            "Language Exchange Group",
            "Meeting moved to the cafe on Elm Street",
            95 * DAY,
            "Hello everyone,\n\nTuesday's language exchange has moved to Elm Street Cafe because the library closes early. We will meet at 18:30 at the large table upstairs.\n\nThis week's themes are travel problems and asking for directions. New participants are welcome.",
        ),
        mail(
            MailFolder::Inbox,
            "Kai Morgan",
            "Thanks for the help!",
            110 * DAY,
            "Hi Demo,\n\nThanks for helping me recover the presentation before the client call. The exported copy opened correctly, and we finished with time to spare.\n\nI owe you coffee.\n\nKai",
        ),
        mail(
            MailFolder::Inbox,
            "Frankie Hale",
            "Podcast recommendations",
            130 * DAY,
            "Hi Demo,\n\nYou asked for podcasts for long walks. Try Articles of Interest for design stories, Cautionary Tales for history, and Twenty Thousand Hertz for sound.\n\nStart with the episodes about pockets, the cobra effect, and notification sounds.\n\nFrankie",
        ),
        mail(
            MailFolder::Inbox,
            "Support",
            "Your ticket has been resolved",
            160 * DAY,
            "Hello Demo,\n\nSupport ticket #5821 has been resolved. We corrected the duplicate charge and returned $12.00 to your original payment method.\n\nThe credit may take three to five business days to appear. Reply within seven days if the issue remains.\n\nSupport Team",
        ),
        mail(
            MailFolder::Inbox,
            "Jordan Lee",
            "Re: Moving boxes",
            200 * DAY,
            moving_boxes_thread()[0],
        )
        .thread(moving_boxes_thread()),
        mail(
            MailFolder::Inbox,
            "Alumni Association",
            "Reunion save-the-date",
            400 * DAY,
            "Save the date for the Class of 2016 reunion.\n\nSaturday, November 14\n18:00 to 22:00\nRiverside Alumni Hall\n\nRegistration and hotel details will follow in August. Please update your contact information before June 30.",
        ),
        mail(
            MailFolder::Inbox,
            "Sasha Bell",
            "Scanned documents",
            520 * DAY,
            "Hi Demo,\n\nI scanned the signed lease addendum and the two receipts from the repair shop. The PDF has six pages in the same order as the originals.\n\nLet me know if you need a higher-resolution copy.\n\nSasha",
        ),
        mail(
            MailFolder::Inbox,
            "Old Mailing List",
            "Welcome to the mailing list",
            900 * DAY,
            "Welcome to the Riverside Makers mailing list.\n\nYou will receive workshop announcements, monthly meeting notes, and occasional requests for volunteers. Messages are usually sent twice a month.\n\nTo introduce yourself, reply with the projects or tools you are interested in.",
        ),
        mail(
            MailFolder::Drafts,
            "Riley Park",
            "Re: Draft proposal for the localization workflow",
            30 * MINUTE,
            "Hi Riley,\n\nI reviewed the latest localization workflow. The ownership section is clear now. I still want to discuss how emergency string changes enter the queue after the release cutoff.\n\nCould we cover that in Friday's review?\n\nThanks,\nDemo",
        ),
        mail(
            MailFolder::Drafts,
            "",
            "",
            3 * DAY,
            "Notes for next week:\n\n- confirm the dentist appointment\n- send the utility reading\n- ask Casey about Saturday\n\nThis unfinished draft intentionally has no subject or recipient.",
        ),
        mail(
            MailFolder::Sent,
            "Alex Rivera",
            "Re: Design review notes for the settings screen",
            20 * MINUTE,
            "Hi Alex,\n\nI made the final label changes and uploaded the approved settings mockup. The handoff includes focus states and notes for narrow windows.\n\nThanks for the careful review.\n\nDemo",
        ),
        mail(
            MailFolder::Sent,
            "Sam Chen, Priya Natarajan, Jordan Lee",
            "Re: Offsite agenda",
            3 * HOUR,
            "Hi everyone,\n\nI added the onboarding retrospective, customer interview themes, and technical risks to the offsite agenda. The final schedule is attached.\n\nPlease send dietary changes by Wednesday noon.\n\nThanks,\nDemo",
        ),
        mail(
            MailFolder::Sent,
            "Casey Kim",
            "Re: Lunch on Thursday?",
            2 * DAY,
            "Hi Casey,\n\nThursday at 12:30 works. I will meet you outside the noodle place near the station.\n\nSee you then,\nDemo",
        ),
        mail(
            MailFolder::Sent,
            "Harper Singh",
            "Recipe request",
            22 * DAY,
            "Hi Harper,\n\nCould you send me the lentil soup recipe you made last weekend? I especially want to know which spices you used.\n\nThanks,\nDemo",
        ),
        mail(
            MailFolder::Sent,
            "landlord@example.net",
            "Lease renewal questions",
            45 * DAY,
            "Hello,\n\nI received the lease renewal offer and have two questions before signing. Does the new rent include the storage unit, and can the renewal begin on October 1 instead of September 15?\n\nThank you,\nDemo",
        ),
        mail(
            MailFolder::Archive,
            "Project Updates",
            "First quarter retrospective summary",
            150 * DAY,
            "Hello team,\n\nThe first quarter retrospective is complete. We shipped three planned releases, reduced average review time from 2.4 days to 1.6 days, and closed 41 customer issues.\n\nThe main follow-ups are smaller release batches, earlier accessibility checks, and clearer ownership for migration work. Owners and dates are in the attached summary.",
        )
        .starred(),
        mail(
            MailFolder::Archive,
            "Alex Rivera",
            "Onboarding checklist",
            300 * DAY,
            "Hi Demo,\n\nHere is the onboarding checklist we used for the support team. It covers account access, security training, product walkthroughs, and the first-week check-in.\n\nThe checklist is a good baseline, but update the team-specific links before reusing it.\n\nAlex",
        ),
        mail(
            MailFolder::Archive,
            "Insurance Office",
            "Policy documents",
            450 * DAY,
            "Hello Demo,\n\nYour renewed renter's insurance policy is attached. Coverage begins June 1 and continues through May 31 next year.\n\nThe insured address and deductible are unchanged. Keep the declaration page with your lease records.\n\nInsurance Office",
        )
        .unread(),
        mail(
            MailFolder::Archive,
            "Taylor Brooks",
            "Re: Conference travel",
            600 * DAY,
            conference_travel_thread()[0],
        )
        .thread(conference_travel_thread()),
        mail(
            MailFolder::Archive,
            "newsletter@example.org",
            "Year in review",
            700 * DAY,
            "This year, our community library welcomed 3,420 new members, hosted 186 events, and lent more than 210,000 items.\n\nDonations funded a larger children's reading area and 12 new public computers. Thank you to every volunteer, donor, and visitor who made the work possible.",
        ),
        mail(
            MailFolder::Spam,
            "Prize Department",
            "You may have won something",
            DAY,
            "Congratulations! Your address was selected for a possible promotional reward. Submit your personal details before midnight to check eligibility.\n\nThis fictional message exists only to demonstrate the Spam folder error state.",
        )
        .unread(),
        mail(
            MailFolder::Spam,
            "unknown@example.net",
            "Urgent account notice",
            4 * DAY,
            "Your account will supposedly close today unless you confirm it through an unfamiliar link.\n\nThis fictional message demonstrates suspicious urgency and is not a real account notice.",
        ),
    ];
    assert(all@.len() == 48);
    assert(fixture_shape(all@[0]) == fixture_table()[0]) by {
        assert(fixture_shape(all@[0]).bodies =~= fixture_table()[0].bodies);
        assert(fixture_shape(all@[0]).to =~= fixture_table()[0].to);
    }
    assert(fixture_shape(all@[1]) == fixture_table()[1]) by {
        assert(fixture_shape(all@[1]).bodies =~= fixture_table()[1].bodies);
        assert(fixture_shape(all@[1]).to =~= fixture_table()[1].to);
    }
    assert(fixture_shape(all@[2]) == fixture_table()[2]) by {
        assert(fixture_shape(all@[2]).bodies =~= fixture_table()[2].bodies);
        assert(fixture_shape(all@[2]).to =~= fixture_table()[2].to);
    }
    assert(fixture_shape(all@[3]) == fixture_table()[3]) by {
        assert(fixture_shape(all@[3]).bodies =~= fixture_table()[3].bodies);
        assert(fixture_shape(all@[3]).to =~= fixture_table()[3].to);
    }
    assert(fixture_shape(all@[4]) == fixture_table()[4]) by {
        assert(fixture_shape(all@[4]).bodies =~= fixture_table()[4].bodies);
        assert(fixture_shape(all@[4]).to =~= fixture_table()[4].to);
    }
    assert(fixture_shape(all@[5]) == fixture_table()[5]) by {
        assert(fixture_shape(all@[5]).bodies =~= fixture_table()[5].bodies);
        assert(fixture_shape(all@[5]).to =~= fixture_table()[5].to);
    }
    assert(fixture_shape(all@[6]) == fixture_table()[6]) by {
        assert(fixture_shape(all@[6]).bodies =~= fixture_table()[6].bodies);
        assert(fixture_shape(all@[6]).to =~= fixture_table()[6].to);
    }
    assert(fixture_shape(all@[7]) == fixture_table()[7]) by {
        assert(fixture_shape(all@[7]).bodies =~= fixture_table()[7].bodies);
        assert(fixture_shape(all@[7]).to =~= fixture_table()[7].to);
    }
    assert(fixture_shape(all@[8]) == fixture_table()[8]) by {
        assert(fixture_shape(all@[8]).bodies =~= fixture_table()[8].bodies);
        assert(fixture_shape(all@[8]).to =~= fixture_table()[8].to);
    }
    assert(fixture_shape(all@[9]) == fixture_table()[9]) by {
        assert(fixture_shape(all@[9]).bodies =~= fixture_table()[9].bodies);
        assert(fixture_shape(all@[9]).to =~= fixture_table()[9].to);
    }
    assert(fixture_shape(all@[10]) == fixture_table()[10]) by {
        assert(fixture_shape(all@[10]).bodies =~= fixture_table()[10].bodies);
        assert(fixture_shape(all@[10]).to =~= fixture_table()[10].to);
    }
    assert(fixture_shape(all@[11]) == fixture_table()[11]) by {
        assert(fixture_shape(all@[11]).bodies =~= fixture_table()[11].bodies);
        assert(fixture_shape(all@[11]).to =~= fixture_table()[11].to);
    }
    assert(fixture_shape(all@[12]) == fixture_table()[12]) by {
        assert(fixture_shape(all@[12]).bodies =~= fixture_table()[12].bodies);
        assert(fixture_shape(all@[12]).to =~= fixture_table()[12].to);
    }
    assert(fixture_shape(all@[13]) == fixture_table()[13]) by {
        assert(fixture_shape(all@[13]).bodies =~= fixture_table()[13].bodies);
        assert(fixture_shape(all@[13]).to =~= fixture_table()[13].to);
    }
    assert(fixture_shape(all@[14]) == fixture_table()[14]) by {
        assert(fixture_shape(all@[14]).bodies =~= fixture_table()[14].bodies);
        assert(fixture_shape(all@[14]).to =~= fixture_table()[14].to);
    }
    assert(fixture_shape(all@[15]) == fixture_table()[15]) by {
        assert(fixture_shape(all@[15]).bodies =~= fixture_table()[15].bodies);
        assert(fixture_shape(all@[15]).to =~= fixture_table()[15].to);
    }
    assert(fixture_shape(all@[16]) == fixture_table()[16]) by {
        assert(fixture_shape(all@[16]).bodies =~= fixture_table()[16].bodies);
        assert(fixture_shape(all@[16]).to =~= fixture_table()[16].to);
    }
    assert(fixture_shape(all@[17]) == fixture_table()[17]) by {
        assert(fixture_shape(all@[17]).bodies =~= fixture_table()[17].bodies);
        assert(fixture_shape(all@[17]).to =~= fixture_table()[17].to);
    }
    assert(fixture_shape(all@[18]) == fixture_table()[18]) by {
        assert(fixture_shape(all@[18]).bodies =~= fixture_table()[18].bodies);
        assert(fixture_shape(all@[18]).to =~= fixture_table()[18].to);
    }
    assert(fixture_shape(all@[19]) == fixture_table()[19]) by {
        assert(fixture_shape(all@[19]).bodies =~= fixture_table()[19].bodies);
        assert(fixture_shape(all@[19]).to =~= fixture_table()[19].to);
    }
    assert(fixture_shape(all@[20]) == fixture_table()[20]) by {
        assert(fixture_shape(all@[20]).bodies =~= fixture_table()[20].bodies);
        assert(fixture_shape(all@[20]).to =~= fixture_table()[20].to);
    }
    assert(fixture_shape(all@[21]) == fixture_table()[21]) by {
        assert(fixture_shape(all@[21]).bodies =~= fixture_table()[21].bodies);
        assert(fixture_shape(all@[21]).to =~= fixture_table()[21].to);
    }
    assert(fixture_shape(all@[22]) == fixture_table()[22]) by {
        assert(fixture_shape(all@[22]).bodies =~= fixture_table()[22].bodies);
        assert(fixture_shape(all@[22]).to =~= fixture_table()[22].to);
    }
    assert(fixture_shape(all@[23]) == fixture_table()[23]) by {
        assert(fixture_shape(all@[23]).bodies =~= fixture_table()[23].bodies);
        assert(fixture_shape(all@[23]).to =~= fixture_table()[23].to);
    }
    assert(fixture_shape(all@[24]) == fixture_table()[24]) by {
        assert(fixture_shape(all@[24]).bodies =~= fixture_table()[24].bodies);
        assert(fixture_shape(all@[24]).to =~= fixture_table()[24].to);
    }
    assert(fixture_shape(all@[25]) == fixture_table()[25]) by {
        assert(fixture_shape(all@[25]).bodies =~= fixture_table()[25].bodies);
        assert(fixture_shape(all@[25]).to =~= fixture_table()[25].to);
    }
    assert(fixture_shape(all@[26]) == fixture_table()[26]) by {
        assert(fixture_shape(all@[26]).bodies =~= fixture_table()[26].bodies);
        assert(fixture_shape(all@[26]).to =~= fixture_table()[26].to);
    }
    assert(fixture_shape(all@[27]) == fixture_table()[27]) by {
        assert(fixture_shape(all@[27]).bodies =~= fixture_table()[27].bodies);
        assert(fixture_shape(all@[27]).to =~= fixture_table()[27].to);
    }
    assert(fixture_shape(all@[28]) == fixture_table()[28]) by {
        assert(fixture_shape(all@[28]).bodies =~= fixture_table()[28].bodies);
        assert(fixture_shape(all@[28]).to =~= fixture_table()[28].to);
    }
    assert(fixture_shape(all@[29]) == fixture_table()[29]) by {
        assert(fixture_shape(all@[29]).bodies =~= fixture_table()[29].bodies);
        assert(fixture_shape(all@[29]).to =~= fixture_table()[29].to);
    }
    assert(fixture_shape(all@[30]) == fixture_table()[30]) by {
        assert(fixture_shape(all@[30]).bodies =~= fixture_table()[30].bodies);
        assert(fixture_shape(all@[30]).to =~= fixture_table()[30].to);
    }
    assert(fixture_shape(all@[31]) == fixture_table()[31]) by {
        assert(fixture_shape(all@[31]).bodies =~= fixture_table()[31].bodies);
        assert(fixture_shape(all@[31]).to =~= fixture_table()[31].to);
    }
    assert(fixture_shape(all@[32]) == fixture_table()[32]) by {
        assert(fixture_shape(all@[32]).bodies =~= fixture_table()[32].bodies);
        assert(fixture_shape(all@[32]).to =~= fixture_table()[32].to);
    }
    assert(fixture_shape(all@[33]) == fixture_table()[33]) by {
        assert(fixture_shape(all@[33]).bodies =~= fixture_table()[33].bodies);
        assert(fixture_shape(all@[33]).to =~= fixture_table()[33].to);
    }
    assert(fixture_shape(all@[34]) == fixture_table()[34]) by {
        assert(fixture_shape(all@[34]).bodies =~= fixture_table()[34].bodies);
        assert(fixture_shape(all@[34]).to =~= fixture_table()[34].to);
    }
    assert(fixture_shape(all@[35]) == fixture_table()[35]) by {
        assert(fixture_shape(all@[35]).bodies =~= fixture_table()[35].bodies);
        assert(fixture_shape(all@[35]).to =~= fixture_table()[35].to);
    }
    assert(fixture_shape(all@[36]) == fixture_table()[36]) by {
        assert(fixture_shape(all@[36]).bodies =~= fixture_table()[36].bodies);
        assert(fixture_shape(all@[36]).to =~= fixture_table()[36].to);
    }
    assert(fixture_shape(all@[37]) == fixture_table()[37]) by {
        assert(fixture_shape(all@[37]).bodies =~= fixture_table()[37].bodies);
        assert(fixture_shape(all@[37]).to =~= fixture_table()[37].to);
    }
    assert(fixture_shape(all@[38]) == fixture_table()[38]) by {
        assert(fixture_shape(all@[38]).bodies =~= fixture_table()[38].bodies);
        assert(fixture_shape(all@[38]).to =~= fixture_table()[38].to);
    }
    assert(fixture_shape(all@[39]) == fixture_table()[39]) by {
        assert(fixture_shape(all@[39]).bodies =~= fixture_table()[39].bodies);
        assert(fixture_shape(all@[39]).to =~= fixture_table()[39].to);
    }
    assert(fixture_shape(all@[40]) == fixture_table()[40]) by {
        assert(fixture_shape(all@[40]).bodies =~= fixture_table()[40].bodies);
        assert(fixture_shape(all@[40]).to =~= fixture_table()[40].to);
    }
    assert(fixture_shape(all@[41]) == fixture_table()[41]) by {
        assert(fixture_shape(all@[41]).bodies =~= fixture_table()[41].bodies);
        assert(fixture_shape(all@[41]).to =~= fixture_table()[41].to);
    }
    assert(fixture_shape(all@[42]) == fixture_table()[42]) by {
        assert(fixture_shape(all@[42]).bodies =~= fixture_table()[42].bodies);
        assert(fixture_shape(all@[42]).to =~= fixture_table()[42].to);
    }
    assert(fixture_shape(all@[43]) == fixture_table()[43]) by {
        assert(fixture_shape(all@[43]).bodies =~= fixture_table()[43].bodies);
        assert(fixture_shape(all@[43]).to =~= fixture_table()[43].to);
    }
    assert(fixture_shape(all@[44]) == fixture_table()[44]) by {
        assert(fixture_shape(all@[44]).bodies =~= fixture_table()[44].bodies);
        assert(fixture_shape(all@[44]).to =~= fixture_table()[44].to);
    }
    assert(fixture_shape(all@[45]) == fixture_table()[45]) by {
        assert(fixture_shape(all@[45]).bodies =~= fixture_table()[45].bodies);
        assert(fixture_shape(all@[45]).to =~= fixture_table()[45].to);
    }
    assert(fixture_shape(all@[46]) == fixture_table()[46]) by {
        assert(fixture_shape(all@[46]).bodies =~= fixture_table()[46].bodies);
        assert(fixture_shape(all@[46]).to =~= fixture_table()[46].to);
    }
    assert(fixture_shape(all@[47]) == fixture_table()[47]) by {
        assert(fixture_shape(all@[47]).bodies =~= fixture_table()[47].bodies);
        assert(fixture_shape(all@[47]).to =~= fixture_table()[47].to);
    }
    assert(fixture_shapes(all@) =~= fixture_table());
    all
}

/// Mutable state of the fictional mailbox, for this process only.
pub struct DemoMailbox {
    fixtures: Vec<Fixture>,
}

impl DemoMailbox {
    /// The fixtures the mailbox holds now.
    pub closed spec fn state(self) -> Seq<Fixture> {
        self.fixtures@
    }

    pub fn new() -> (r: Self)
        ensures
            r.ok(),
            r.state().len() == 48,
            fixture_shapes(r.state()) == fixture_table(),
    {
        DemoMailbox { fixtures: fixtures() }
    }
}

impl Default for DemoMailbox {
    fn default() -> (r: Self)
        ensures
            r.ok(),
            r.state().len() == 48,
            fixture_shapes(r.state()) == fixture_table(),
    {
        DemoMailbox::new()
    }
}


/// Whether a fixture shows in `folder`: the folder it is in, and Starred
/// when it is starred. The fictional mailbox has no folders of its own.
pub open spec fn fixture_in(f: Fixture, folder: Folder) -> bool {
    match folder {
        Folder::System(s) => f.folder == s || (s == MailFolder::Starred && f.starred),
        Folder::Custom { .. } => false,
    }
}

/// The positions of the fixtures that satisfy `p`, in order.
pub open spec fn picked(fs: Seq<Fixture>, p: spec_fn(Fixture) -> bool) -> Seq<int>
    decreases fs.len(),
{
    if fs.len() == 0 {
        Seq::<int>::empty()
    } else {
        let r = picked(fs.drop_last(), p);
        if p(fs.last()) {
            r.push(fs.len() - 1)
        } else {
            r
        }
    }
}

/// Position `i` placed after every position in `s` whose fixture is not
/// older than it.
pub open spec fn insert_by_age(fs: Seq<Fixture>, s: Seq<int>, i: int) -> Seq<int>
    decreases s.len(),
{
    if s.len() == 0 {
        seq![i]
    } else if fs[s.last()].age <= fs[i].age {
        s.push(i)
    } else {
        insert_by_age(fs, s.drop_last(), i).push(s.last())
    }
}

/// The positions newest first, keeping the order of equal ages, as a
/// stable sort by age does.
pub open spec fn by_age(fs: Seq<Fixture>, s: Seq<int>) -> Seq<int>
    decreases s.len(),
{
    if s.len() == 0 {
        s
    } else {
        insert_by_age(fs, by_age(fs, s.drop_last()), s.last())
    }
}

/// The positions of the fixtures a folder lists, newest first.
pub open spec fn folder_order(fs: Seq<Fixture>, folder: Folder) -> Seq<int> {
    by_age(fs, picked(fs, |f: Fixture| fixture_in(f, folder)))
}

/// How many unread fixtures a folder shows.
pub open spec fn unread_in(fs: Seq<Fixture>, folder: Folder) -> nat {
    picked(fs, |f: Fixture| f.unread && fixture_in(f, folder)).len()
}

/// The part of `order` that page `page` of `page_size` rows shows.
pub open spec fn page_of(order: Seq<int>, page: u32, page_size: u32) -> Seq<int> {
    let start = page * page_size;
    if start >= order.len() {
        Seq::<int>::empty()
    } else if start + page_size >= order.len() {
        order.subrange(start, order.len() as int)
    } else {
        order.subrange(start, start + page_size)
    }
}

proof fn lemma_picked_valid(fs: Seq<Fixture>, p: spec_fn(Fixture) -> bool)
    ensures
        picked(fs, p).len() <= fs.len(),
        forall|k: int| 0 <= k < picked(fs, p).len() ==> 0 <= #[trigger] picked(fs, p)[k] < fs.len(),
        forall|k: int| 0 <= k < picked(fs, p).len() ==> p(fs[#[trigger] picked(fs, p)[k]]),
    decreases fs.len(),
{
    if fs.len() > 0 {
        lemma_picked_valid(fs.drop_last(), p);
        let r = picked(fs.drop_last(), p);
        assert forall|k: int| 0 <= k < r.len() implies fs[r[k]] == fs.drop_last()[r[k]] by {}
    }
}

proof fn lemma_insert_by_age_at(fs: Seq<Fixture>, s: Seq<int>, i: int, j: int)
    requires
        0 <= j <= s.len(),
        j == 0 || fs[s[j - 1]].age <= fs[i].age,
        forall|k: int| j <= k < s.len() ==> fs[#[trigger] s[k]].age > fs[i].age,
    ensures
        insert_by_age(fs, s, i) == s.take(j).push(i) + s.skip(j),
    decreases s.len(),
{
    if s.len() == 0 {
        assert(s.take(j).push(i) + s.skip(j) =~= seq![i]);
    } else if j == s.len() {
        assert(s.take(j).push(i) + s.skip(j) =~= s.push(i));
    } else {
        assert(fs[s.last()].age > fs[i].age);
        lemma_insert_by_age_at(fs, s.drop_last(), i, j);
        assert(s.drop_last().take(j) =~= s.take(j));
        assert(s.take(j).push(i) + s.skip(j) =~= (s.take(j).push(i) + s.drop_last().skip(j)).push(s.last()));
    }
}

/// The positions, newest first, equal ages keeping their order.
fn sort_by_age(fs: &Vec<Fixture>, positions: Vec<usize>) -> (r: Vec<usize>)
    requires
        forall|k: int| 0 <= k < positions@.len() ==> #[trigger] positions@[k] < fs@.len(),
    ensures
        r@.map_values(|k: usize| k as int) == by_age(fs@, positions@.map_values(|k: usize| k as int)),
        forall|k: int| 0 <= k < r@.len() ==> #[trigger] r@[k] < fs@.len(),
{
    let ghost all = positions@.map_values(|k: usize| k as int);
    let ghost raw = positions@;
    assert(all.len() == positions.len());
    let mut rest = positions;
    let mut out: Vec<usize> = Vec::new();
    let mut taken: usize = 0;
    while rest.len() > 0
        invariant
            taken + rest.len() == all.len(),
            all.len() <= usize::MAX,
            all == raw.map_values(|k: usize| k as int),
            rest@ == raw.skip(taken as int),
            forall|k: int| 0 <= k < raw.len() ==> #[trigger] raw[k] < fs@.len(),
            out@.map_values(|k: usize| k as int) == by_age(fs@, all.take(taken as int)),
            forall|k: int| 0 <= k < out@.len() ==> #[trigger] out@[k] < fs@.len(),
        decreases rest.len(),
    {
        let i = rest.remove(0);
        assert(i == raw[taken as int]);
        proof {
            assert(all.take(taken + 1).drop_last() =~= all.take(taken as int));
            assert(all.take(taken + 1).last() == i as int);
        }
        let ghost seen = out@.map_values(|k: usize| k as int);
        let mut j = out.len();
        while j > 0 && fs[out[j - 1]].age > fs[i].age
            invariant
                j <= out.len(),
                i < fs@.len(),
                seen == out@.map_values(|k: usize| k as int),
                forall|k: int| 0 <= k < out@.len() ==> #[trigger] out@[k] < fs@.len(),
                forall|k: int| j <= k < out@.len() ==> fs@[#[trigger] seen[k]].age > fs@[i as int].age,
            decreases j,
        {
            j -= 1;
        }
        proof {
            lemma_insert_by_age_at(fs@, seen, i as int, j as int);
        }
        out.insert(j, i);
        assert(out@.map_values(|k: usize| k as int) =~= seen.take(j as int).push(i as int) + seen.skip(j as int));
        taken += 1;
        assert(rest@ =~= raw.skip(taken as int));
    }
    assert(all.take(all.len() as int) =~= all);
    out
}

/// Whether a fixture shows in `folder`.
fn in_folder(fixture: &Fixture, folder: &Folder) -> (r: bool)
    ensures
        r == fixture_in(*fixture, *folder),
{
    match folder.system() {
        Some(f) => fixture.folder == f || (f == MailFolder::Starred && fixture.starred),
        None => false,
    }
}

/// The positions of the fixtures a folder lists, newest first.
fn order_in(fs: &Vec<Fixture>, folder: &Folder) -> (r: Vec<usize>)
    ensures
        r@.map_values(|k: usize| k as int) == folder_order(fs@, *folder),
        forall|k: int| 0 <= k < r@.len() ==> #[trigger] r@[k] < fs@.len(),
{
    let ghost p = |f: Fixture| fixture_in(f, *folder);
    let mut chosen: Vec<usize> = Vec::new();
    let mut i: usize = 0;
    while i < fs.len()
        invariant
            i <= fs.len(),
            p == (|f: Fixture| fixture_in(f, *folder)),
            chosen@.map_values(|k: usize| k as int) == picked(fs@.take(i as int), p),
            forall|k: int| 0 <= k < chosen@.len() ==> #[trigger] chosen@[k] < i,
        decreases fs.len() - i,
    {
        proof {
            assert(fs@.take(i + 1).drop_last() =~= fs@.take(i as int));
            assert(fs@.take(i + 1).last() == fs@[i as int]);
        }
        if in_folder(&fs[i], folder) {
            let ghost before = chosen@.map_values(|k: usize| k as int);
            chosen.push(i);
            assert(chosen@.map_values(|k: usize| k as int) =~= before.push(i as int));
        }
        i += 1;
    }
    assert(fs@.take(fs.len() as int) =~= fs@);
    sort_by_age(fs, chosen)
}

/// How many unread fixtures a folder shows.
fn count_unread(fs: &Vec<Fixture>, folder: &Folder) -> (r: u32)
    requires
        fs@.len() <= u32::MAX,
    ensures
        r == unread_in(fs@, *folder),
{
    let ghost p = |f: Fixture| f.unread && fixture_in(f, *folder);
    let mut n: u32 = 0;
    let mut i: usize = 0;
    while i < fs.len()
        invariant
            i <= fs.len(),
            fs@.len() <= u32::MAX,
            p == (|f: Fixture| f.unread && fixture_in(f, *folder)),
            n == picked(fs@.take(i as int), p).len(),
            n <= i,
        decreases fs.len() - i,
    {
        proof {
            assert(fs@.take(i + 1).drop_last() =~= fs@.take(i as int));
            assert(fs@.take(i + 1).last() == fs@[i as int]);
        }
        if fs[i].unread && in_folder(&fs[i], folder) {
            n += 1;
        }
        i += 1;
    }
    assert(fs@.take(fs.len() as int) =~= fs@);
    n
}

/// The unread count of each of Proton's own folders, derived from what
/// the fixtures hold.
fn counts_from(fs: &Vec<Fixture>) -> (r: MailboxCounts)
    requires
        fs@.len() <= u32::MAX,
    ensures
        forall|f: MailFolder| #[trigger] r.unread_of(Folder::System(f)) == Some(unread_in(fs@, Folder::System(f)) as u32),
        forall|f: Folder| (#[trigger] r.unread_of(f)) is Some ==> f is System,
{
    let folders = MailFolder::all();
    let mut pairs: Vec<(Folder, u32)> = Vec::new();
    let mut i: usize = 0;
    while i < folders.len()
        invariant
            i <= folders.len(),
            fs@.len() <= u32::MAX,
            folders@ == all_folders(),
            pairs@.len() == i,
            forall|k: int| 0 <= k < i ==> (#[trigger] pairs@[k]) == (Folder::System(folders@[k]), unread_in(fs@, Folder::System(folders@[k])) as u32),
        decreases folders.len() - i,
    {
        let folder = Folder::System(folders[i]);
        let n = count_unread(fs, &folder);
        pairs.push((folder, n));
        i += 1;
    }
    proof {
        lemma_counts_pairs(pairs@, fs@);
    }
    MailboxCounts::from_pairs(pairs)
}

/// Proton's own folders, in sidebar order.
pub open spec fn all_folders() -> Seq<MailFolder> {
    seq![
        MailFolder::Inbox,
        MailFolder::Drafts,
        MailFolder::Sent,
        MailFolder::Starred,
        MailFolder::Archive,
        MailFolder::Spam,
        MailFolder::Trash,
    ]
}

proof fn lemma_counts_pairs(pairs: Seq<(Folder, u32)>, fs: Seq<Fixture>)
    requires
        pairs.len() == 7,
        forall|k: int| 0 <= k < 7 ==> (#[trigger] pairs[k]) == (Folder::System(all_folders()[k]), unread_in(fs, Folder::System(all_folders()[k])) as u32),
    ensures
        forall|f: MailFolder| #[trigger] counts_lookup(pairs, Folder::System(f)) == Some(unread_in(fs, Folder::System(f)) as u32),
        forall|f: Folder| (#[trigger] counts_lookup(pairs, f)) is Some ==> f is System,
{
    reveal_with_fuel(counts_lookup, 8);
    assert(pairs[0] == (Folder::System(MailFolder::Inbox), unread_in(fs, Folder::System(MailFolder::Inbox)) as u32));
    assert(pairs[1] == (Folder::System(MailFolder::Drafts), unread_in(fs, Folder::System(MailFolder::Drafts)) as u32));
    assert(pairs[2] == (Folder::System(MailFolder::Sent), unread_in(fs, Folder::System(MailFolder::Sent)) as u32));
    assert(pairs[3] == (Folder::System(MailFolder::Starred), unread_in(fs, Folder::System(MailFolder::Starred)) as u32));
    assert(pairs[4] == (Folder::System(MailFolder::Archive), unread_in(fs, Folder::System(MailFolder::Archive)) as u32));
    assert(pairs[5] == (Folder::System(MailFolder::Spam), unread_in(fs, Folder::System(MailFolder::Spam)) as u32));
    assert(pairs[6] == (Folder::System(MailFolder::Trash), unread_in(fs, Folder::System(MailFolder::Trash)) as u32));
    assert(pairs.drop_last().len() == 6);
}


/// A name and an address as plain text.
pub open spec fn addr_view(a: MailAddress) -> (Option<Seq<char>>, Seq<char>) {
    (
        match a.name {
            Some(n) => Some(n@),
            None => None,
        },
        a.address@,
    )
}

/// The text of an optional string.
pub open spec fn opt_view(o: Option<String>) -> Option<Seq<char>> {
    match o {
        Some(s) => Some(s@),
        None => None,
    }
}

/// `None` for empty text, the text otherwise.
pub open spec fn non_empty_text(t: Seq<char>) -> Option<Seq<char>> {
    if t.len() == 0 {
        None
    } else {
        Some(t)
    }
}

/// The demo user, who takes part in every conversation.
pub open spec fn demo_user_view() -> (Option<Seq<char>>, Seq<char>) {
    (Some("Demo User"@), "demo@example.com"@)
}

/// The id a fixture's row goes by.
pub open spec fn demo_id(index: nat) -> Seq<char> {
    "demo-"@ + decimal(index)
}

/// The characters of a word that go into an invented address, in lower
/// case: ASCII letters, digits and hyphens.
pub open spec fn clean_word(w: Seq<char>) -> Seq<char>
    decreases w.len(),
{
    if w.len() == 0 {
        w
    } else {
        let r = clean_word(w.drop_last());
        let c = w.last();
        if is_ascii_alnum(c) || c == '-' {
            r.push(ascii_lower(c))
        } else {
            r
        }
    }
}

/// The cleaned words, leaving out those that end up empty.
pub open spec fn cleaned_words(ws: Seq<Seq<char>>) -> Seq<Seq<char>>
    decreases ws.len(),
{
    if ws.len() == 0 {
        ws
    } else {
        let r = cleaned_words(ws.drop_last());
        let c = clean_word(ws.last());
        if c.len() > 0 {
            r.push(c)
        } else {
            r
        }
    }
}

/// The address a participant goes by: a bare address as it is, without a
/// name; a name with an invented `first.last@example.com` address.
pub open spec fn participant_view(p: Seq<char>) -> (Option<Seq<char>>, Seq<char>) {
    if p.contains('@') {
        (None, p)
    } else {
        (Some(p), joined(cleaned_words(words(p)), "."@) + "@example.com"@)
    }
}

/// The pieces of a text between occurrences of ", ", as `str::split`
/// yields them.
pub open spec fn comma_pieces(s: Seq<char>) -> Seq<Seq<char>>
    decreases s.len(),
{
    if s.len() >= 2 && s[s.len() - 2] == ',' && s.last() == ' ' {
        comma_pieces(s.take(s.len() - 2)).push(Seq::<char>::empty())
    } else if s.len() == 0 {
        seq![Seq::<char>::empty()]
    } else {
        let r = comma_pieces(s.drop_last());
        r.update(r.len() - 1, r.last().push(s.last()))
    }
}

/// The pieces that are not empty.
pub open spec fn non_empty_pieces(ps: Seq<Seq<char>>) -> Seq<Seq<char>>
    decreases ps.len(),
{
    if ps.len() == 0 {
        ps
    } else {
        let r = non_empty_pieces(ps.drop_last());
        if ps.last().len() > 0 {
            r.push(ps.last())
        } else {
            r
        }
    }
}

/// The people a fixture names as its correspondents.
pub open spec fn named_people(f: Fixture) -> Seq<(Option<Seq<char>>, Seq<char>)> {
    non_empty_pieces(comma_pieces(f.correspondents@)).map_values(|p: Seq<char>| participant_view(p))
}

/// Where every message of a fixture goes when it names its recipients.
pub open spec fn named_recipients(f: Fixture) -> Seq<(Option<Seq<char>>, Seq<char>)> {
    f.to@.map_values(|t: &str| participant_view(t@))
}

/// Everyone a fixture's row lists: the demo user, the correspondents and
/// the named recipients.
pub open spec fn fixture_people(f: Fixture) -> Seq<(Option<Seq<char>>, Seq<char>)> {
    seq![demo_user_view()] + named_people(f) + named_recipients(f)
}

/// The preview a row shows of a body: its words on one line, at most two
/// hundred characters of them.
pub open spec fn preview_text(body: Seq<char>) -> Seq<char> {
    at_most(joined(words(body), " "@), 200)
}

/// `s` is the row of fixture `f` at position `index`, seen at `now`.
pub open spec fn summarizes(s: ConversationSummary, index: nat, f: Fixture, now: i64) -> bool {
    &&& s.id@ == demo_id(index)
    &&& s.kind == SummaryKind::Conversation
    &&& opt_view(s.subject) == non_empty_text(f.subject@)
    &&& opt_view(s.correspondents) == non_empty_text(f.correspondents@)
    &&& s.participants@.map_values(|a: MailAddress| addr_view(a)) == fixture_people(f)
    &&& opt_view(s.preview) == non_empty_text(preview_text(f.bodies@.last()@))
    &&& s.time == Some((now - f.age) as i64)
    &&& s.unread == f.unread
    &&& s.starred == f.starred
    &&& s.message_count == f.bodies@.len()
    &&& !s.has_attachments
}

/// `None` for empty text, a copy of the text otherwise.
fn non_empty(value: &str) -> (r: Option<String>)
    ensures
        opt_view(r) == non_empty_text(value@),
{
    if value.is_empty() {
        None
    } else {
        Some(value.to_owned())
    }
}

/// The id a fixture's row goes by.
fn demo_id_string(index: usize) -> (r: String)
    ensures
        r@ == demo_id(index as nat),
{
    proof {
        reveal_strlit("demo-");
    }
    "demo-".to_owned().concat(decimal_string(index as u64).as_str())
}

fn demo_user() -> (r: MailAddress)
    ensures
        addr_view(r) == demo_user_view(),
{
    MailAddress { name: Some("Demo User".to_owned()), address: "demo@example.com".to_owned() }
}

/// A word reduced to what goes into an invented address.
fn clean(word: &Vec<char>) -> (r: Vec<char>)
    ensures
        r@ == clean_word(word@),
{
    let mut out: Vec<char> = Vec::new();
    let mut i: usize = 0;
    while i < word.len()
        invariant
            i <= word.len(),
            out@ == clean_word(word@.take(i as int)),
        decreases word.len() - i,
    {
        proof {
            assert(word@.take(i + 1).drop_last() =~= word@.take(i as int));
            assert(word@.take(i + 1).last() == word@[i as int]);
        }
        let c = word[i];
        if ascii_alnum(c) || c == '-' {
            out.push(to_ascii_lower(c));
        }
        i += 1;
    }
    assert(word@.take(word.len() as int) =~= word@);
    out
}

/// The address a participant goes by.
fn participant_address(participant: &str) -> (r: MailAddress)
    ensures
        addr_view(r) == participant_view(participant@),
{
    let v = chars_of(participant);
    let mut i: usize = 0;
    while i < v.len()
        invariant
            i <= v.len(),
            v@ == participant@,
            forall|k: int| 0 <= k < i ==> v@[k] != '@',
        decreases v.len() - i,
    {
        if v[i] == '@' {
            assert(participant@.contains('@')) by {
                assert(participant@[i as int] == '@');
            }
            let address = participant.to_owned();
            assert(participant_view(participant@) == (None::<Seq<char>>, participant@));
            return MailAddress { name: None, address };
        }
        i += 1;
    }
    assert(!v@.contains('@'));
    let ws = split_whitespace(&v);
    let mut parts: Vec<Vec<char>> = Vec::new();
    let mut j: usize = 0;
    while j < ws.len()
        invariant
            j <= ws.len(),
            views(parts@) == cleaned_words(views(ws@).take(j as int)),
        decreases ws.len() - j,
    {
        proof {
            assert(views(ws@).take(j + 1).drop_last() =~= views(ws@).take(j as int));
            assert(views(ws@).take(j + 1).last() == ws@[j as int]@);
        }
        let c = clean(&ws[j]);
        if c.len() > 0 {
            let ghost before = parts@;
            let ghost cv = c@;
            parts.push(c);
            assert(views(parts@) =~= views(before).push(cv));
        }
        j += 1;
    }
    assert(views(ws@).take(ws.len() as int) =~= views(ws@));
    proof {
        reveal_strlit("@example.com");
    }
    let address = join_chars(&parts, ".").concat("@example.com");
    MailAddress { name: Some(participant.to_owned()), address }
}

proof fn lemma_comma_pieces_len(s: Seq<char>)
    ensures
        comma_pieces(s).len() >= 1,
    decreases s.len(),
{
    if s.len() >= 2 && s[s.len() - 2] == ',' && s.last() == ' ' {
        lemma_comma_pieces_len(s.take(s.len() - 2));
    } else if s.len() > 0 {
        lemma_comma_pieces_len(s.drop_last());
    }
}

/// The pieces of a text between occurrences of ", ".
fn split_commas(v: &Vec<char>) -> (r: Vec<Vec<char>>)
    ensures
        views(r@) == comma_pieces(v@),
{
    let mut done: Vec<Vec<char>> = Vec::new();
    let mut cur: Vec<char> = Vec::new();
    let mut i: usize = 0;
    assert(views(done@).push(cur@) =~= comma_pieces(v@.take(0)));
    while i < v.len()
        invariant
            i <= v.len(),
            views(done@).push(cur@) == comma_pieces(v@.take(i as int)),
            i > 0 && v@[i - 1] == ',' ==> cur@.len() > 0 && cur@.last() == ',' && (i < v.len() ==> v@[i as int] != ' '),
        decreases v.len() - i,
    {
        let c = v[i];
        if c == ',' && i + 1 < v.len() && v[i + 1] == ' ' {
            proof {
                let t = v@.take(i + 2);
                assert(t.take(t.len() - 2) =~= v@.take(i as int));
                lemma_comma_pieces_len(v@.take(i as int));
            }
            let ghost before = done@;
            let ghost word = cur@;
            let finished = cur;
            done.push(finished);
            cur = Vec::new();
            assert(views(done@) =~= views(before).push(word));
            assert(views(done@).push(cur@) =~= comma_pieces(v@.take(i + 2)));
            i += 2;
        } else {
            proof {
                let t = v@.take(i + 1);
                assert(t.drop_last() =~= v@.take(i as int));
                assert(t.last() == c);
                lemma_comma_pieces_len(v@.take(i as int));
                if i > 0 && v@[i - 1] == ',' {
                    assert(c != ' ');
                }
            }
            let ghost before = views(done@).push(cur@);
            cur.push(c);
            assert(views(done@).push(cur@) =~= before.update(before.len() - 1, before.last().push(c)));
            i += 1;
        }
    }
    assert(v@.take(v.len() as int) =~= v@);
    let ghost before = done@;
    let ghost word = cur@;
    done.push(cur);
    assert(views(done@) =~= views(before).push(word));
    done
}

/// The people a fixture names as its correspondents.
fn named(fixture: &Fixture) -> (r: Vec<MailAddress>)
    ensures
        r@.map_values(|a: MailAddress| addr_view(a)) == named_people(*fixture),
{
    let pieces = split_commas(&chars_of(fixture.correspondents));
    let ghost all = views(pieces@);
    let mut out: Vec<MailAddress> = Vec::new();
    let mut i: usize = 0;
    while i < pieces.len()
        invariant
            i <= pieces.len(),
            all == views(pieces@),
            all == comma_pieces(fixture.correspondents@),
            out@.map_values(|a: MailAddress| addr_view(a)) == non_empty_pieces(all.take(i as int)).map_values(|p: Seq<char>| participant_view(p)),
        decreases pieces.len() - i,
    {
        proof {
            assert(all.take(i + 1).drop_last() =~= all.take(i as int));
            assert(all.take(i + 1).last() == pieces@[i as int]@);
        }
        if pieces[i].len() > 0 {
            let text = string_of(&pieces[i]);
            let a = participant_address(text.as_str());
            let ghost before = out@;
            out.push(a);
            assert(out@.map_values(|a: MailAddress| addr_view(a)) =~= before.map_values(|a: MailAddress| addr_view(a)).push(addr_view(a)));
        }
        i += 1;
    }
    assert(all.take(pieces.len() as int) =~= all);
    out
}

/// Where every message of a fixture goes when it names its recipients.
fn recipients_named(fixture: &Fixture) -> (r: Vec<MailAddress>)
    ensures
        r@.map_values(|a: MailAddress| addr_view(a)) == named_recipients(*fixture),
{
    let mut out: Vec<MailAddress> = Vec::new();
    let mut i: usize = 0;
    while i < fixture.to.len()
        invariant
            i <= fixture.to.len(),
            out@.map_values(|a: MailAddress| addr_view(a)) == named_recipients(*fixture).take(i as int),
        decreases fixture.to.len() - i,
    {
        let a = participant_address(fixture.to[i]);
        let ghost before = out@;
        out.push(a);
        assert(named_recipients(*fixture)[i as int] == participant_view(fixture.to@[i as int]@));
        assert(out@.map_values(|a: MailAddress| addr_view(a)) =~= before.map_values(|a: MailAddress| addr_view(a)).push(addr_view(a)));
        assert(named_recipients(*fixture).take(i + 1) =~= named_recipients(*fixture).take(i as int).push(participant_view(fixture.to@[i as int]@)));
        i += 1;
    }
    assert(named_recipients(*fixture).take(fixture.to.len() as int) =~= named_recipients(*fixture));
    out
}

/// Everyone a fixture's row lists.
fn fixture_participants(fixture: &Fixture) -> (r: Vec<MailAddress>)
    ensures
        r@.map_values(|a: MailAddress| addr_view(a)) == fixture_people(*fixture),
{
    let mut out: Vec<MailAddress> = Vec::new();
    out.push(demo_user());
    let mut named = named(fixture);
    let mut to = recipients_named(fixture);
    let ghost a = out@;
    let ghost b = named@;
    let ghost c = to@;
    out.append(&mut named);
    out.append(&mut to);
    assert(out@ =~= a + b + c);
    assert(out@.map_values(|a: MailAddress| addr_view(a)) =~= a.map_values(|a: MailAddress| addr_view(a)) + b.map_values(|a: MailAddress| addr_view(a)) + c.map_values(|a: MailAddress| addr_view(a)));
    out
}

/// The preview a row shows of a body.
fn preview(body: &str) -> (r: String)
    ensures
        r@ == preview_text(body@),
{
    let ws = split_whitespace(&chars_of(body));
    let line = chars_of(join_chars(&ws, " ").as_str());
    let n: usize = if line.len() > 200 {
        200
    } else {
        line.len()
    };
    let mut out = String::new();
    let mut i: usize = 0;
    while i < n
        invariant
            i <= n,
            n <= line@.len(),
            out@ == line@.take(i as int),
        decreases n - i,
    {
        push_char(&mut out, line[i]);
        i += 1;
        assert(line@.take(i as int) =~= line@.take(i - 1).push(line@[i - 1]));
    }
    proof {
        reveal_strlit(" ");
    }
    assert(line@.take(n as int) =~= at_most(line@, 200));
    out
}

/// The row of fixture `fixture` at position `index`, seen at `now`.
fn summary(index: usize, fixture: &Fixture, now: i64) -> (r: ConversationSummary)
    requires
        fixture_wf(*fixture),
        now >= i64::MIN + OLDEST,
    ensures
        summarizes(r, index as nat, *fixture, now),
{
    let last = fixture.bodies[fixture.bodies.len() - 1];
    let p = preview(last);
    ConversationSummary {
        id: demo_id_string(index),
        kind: SummaryKind::Conversation,
        subject: non_empty(fixture.subject),
        correspondents: non_empty(fixture.correspondents),
        participants: fixture_participants(fixture),
        preview: non_empty(p.as_str()),
        time: Some(now - fixture.age),
        unread: fixture.unread,
        starred: fixture.starred,
        message_count: fixture.bodies.len() as u32,
        has_attachments: false,
    }
}


/// A clock reading early enough that the fictional times would not fit.
pub open spec fn fits_time(now: i64) -> bool {
    now >= i64::MIN + OLDEST + 8 * THREAD_GAP
}

/// `p` shows the fixtures at `positions`, in that order, out of `total`.
pub open spec fn shows(p: ConversationPage, fs: Seq<Fixture>, positions: Seq<int>, total: nat, now: i64) -> bool {
    &&& p.total == total
    &&& p.conversations@.len() == positions.len()
    &&& forall|i: int| 0 <= i < positions.len() ==> summarizes(#[trigger] p.conversations@[i], positions[i] as nat, fs[positions[i]], now)
}

/// The rows at these positions of the fixtures.
fn summaries(fs: &Vec<Fixture>, positions: &Vec<usize>, from: usize, to: usize, now: i64) -> (r: Vec<ConversationSummary>)
    requires
        from <= to <= positions@.len(),
        forall|k: int| 0 <= k < positions@.len() ==> #[trigger] positions@[k] < fs@.len(),
        forall|k: int| 0 <= k < fs@.len() ==> fixture_wf(#[trigger] fs@[k]),
        fits_time(now),
    ensures
        r@.len() == to - from,
        forall|i: int| 0 <= i < r@.len() ==> summarizes(#[trigger] r@[i], positions@[from + i] as nat, fs@[positions@[from + i] as int], now),
{
    let mut out: Vec<ConversationSummary> = Vec::new();
    let mut k = from;
    while k < to
        invariant
            from <= k <= to,
            to <= positions@.len(),
            forall|j: int| 0 <= j < positions@.len() ==> #[trigger] positions@[j] < fs@.len(),
            forall|j: int| 0 <= j < fs@.len() ==> fixture_wf(#[trigger] fs@[j]),
            fits_time(now),
            out@.len() == k - from,
            forall|i: int| 0 <= i < out@.len() ==> summarizes(#[trigger] out@[i], positions@[from + i] as nat, fs@[positions@[from + i] as int], now),
        decreases to - k,
    {
        let index = positions[k];
        out.push(summary(index, &fs[index], now));
        k += 1;
    }
    out
}

/// One page of a folder, newest first.
fn list_from(fs: &Vec<Fixture>, folder: &Folder, page: u32, page_size: u32, now: i64) -> (r: ConversationPage)
    requires
        fs@.len() <= u32::MAX,
        forall|k: int| 0 <= k < fs@.len() ==> fixture_wf(#[trigger] fs@[k]),
        fits_time(now),
    ensures
        shows(r, fs@, page_of(folder_order(fs@, *folder), page, page_size), folder_order(fs@, *folder).len(), now),
{
    let order = order_in(fs, folder);
    let ghost o = order@.map_values(|k: usize| k as int);
    proof {
        lemma_picked_valid(fs@, |f: Fixture| fixture_in(f, *folder));
        lemma_by_age_len(fs@, picked(fs@, |f: Fixture| fixture_in(f, *folder)));
    }
    let total = order.len() as u32;
    proof {
        lemma_page_start(page, page_size);
    }
    let start = page as u64 * page_size as u64;
    let n = order.len() as u64;
    let (from, to) = if start >= n {
        (order.len(), order.len())
    } else if start + page_size as u64 >= n {
        (start as usize, order.len())
    } else {
        (start as usize, (start + page_size as u64) as usize)
    };
    let conversations = summaries(fs, &order, from, to, now);
    proof {
        let want = page_of(o, page, page_size);
        assert(want.len() == to - from);
        assert forall|i: int| 0 <= i < want.len() implies want[i] == order@[from + i] as int by {}
    }
    ConversationPage { conversations, total }
}

proof fn lemma_page_start(page: u32, size: u32)
    ensures
        page as int * size as int + size as int <= u64::MAX,
{
    assert(page as int * size as int <= 0xffff_ffff * 0xffff_ffff) by (nonlinear_arith)
        requires
            page as int <= 0xffff_ffff,
            size as int <= 0xffff_ffff,
            0 <= page,
            0 <= size,
    ;
}

proof fn lemma_insert_by_age_len(fs: Seq<Fixture>, s: Seq<int>, i: int)
    ensures
        insert_by_age(fs, s, i).len() == s.len() + 1,
    decreases s.len(),
{
    if s.len() > 0 && fs[s.last()].age > fs[i].age {
        lemma_insert_by_age_len(fs, s.drop_last(), i);
    }
}

proof fn lemma_by_age_len(fs: Seq<Fixture>, s: Seq<int>)
    ensures
        by_age(fs, s).len() == s.len(),
    decreases s.len(),
{
    if s.len() > 0 {
        lemma_by_age_len(fs, s.drop_last());
        lemma_insert_by_age_len(fs, by_age(fs, s.drop_last()), s.last());
    }
}

/// The id of the message at `position` of fixture `index`.
pub open spec fn demo_message_id(index: nat, position: nat) -> Seq<char> {
    "demo-"@ + decimal(index) + "-"@ + decimal(position)
}

/// Whether the message at `position` is the demo user's: messages take
/// turns, and the newest is the demo user's only in Sent and Drafts.
pub open spec fn from_demo_user(f: Fixture, position: int) -> bool {
    let newer = f.bodies@.len() - 1 - position;
    (newer % 2 == 0) == f.outgoing
}

/// Who wrote the message at `position`.
pub open spec fn sender_view(f: Fixture, position: int) -> (Option<Seq<char>>, Seq<char>) {
    let people = named_people(f);
    if from_demo_user(f, position) {
        demo_user_view()
    } else if people.len() == 0 {
        (None, Seq::<char>::empty())
    } else {
        people[(position / 2) % (people.len() as int)]
    }
}

/// Who the message at `position` went to.
pub open spec fn recipients_view(f: Fixture, position: int) -> Seq<(Option<Seq<char>>, Seq<char>)> {
    let people = named_people(f);
    if f.to@.len() > 0 {
        named_recipients(f)
    } else if from_demo_user(f, position) {
        people
    } else {
        seq![demo_user_view()] + people.filter(|p: (Option<Seq<char>>, Seq<char>)| p != sender_view(f, position))
    }
}

/// `m` is the message at `position` of fixture `f` at position `index`.
pub open spec fn message_of(m: MailMessage, f: Fixture, index: nat, position: int, now: i64) -> bool {
    &&& m.id@ == demo_message_id(index, position as nat)
    &&& addr_view(m.sender) == sender_view(f, position)
    &&& m.recipients@.map_values(|a: MailAddress| addr_view(a)) == recipients_view(f, position)
    &&& m.time == Some((now - f.age - (f.bodies@.len() - 1 - position) * THREAD_GAP) as i64)
    &&& (m.body matches MessageBody::PlainText(b) && b@ == f.bodies@[position]@)
    &&& m.attachments@.len() == 0
}

/// `d` is the conversation of fixture `f` at position `index`, asked for
/// under `id`.
pub open spec fn detail_of(d: ConversationDetail, id: Seq<char>, f: Fixture, index: nat, now: i64) -> bool {
    &&& d.id@ == id
    &&& opt_view(d.subject) == non_empty_text(f.subject@)
    &&& d.labels@.len() == 0
    &&& d.messages@.len() == f.bodies@.len()
    &&& forall|p: int| 0 <= p < d.messages@.len() ==> message_of(#[trigger] d.messages@[p], f, index, p, now)
}

/// Whether two addresses name the same person the same way.
fn same_address(a: &MailAddress, b: &MailAddress) -> (r: bool)
    ensures
        r == (addr_view(*a) == addr_view(*b)),
{
    let names = match (&a.name, &b.name) {
        (Some(x), Some(y)) => same_text(x.as_str(), y.as_str()),
        (None, None) => true,
        _ => false,
    };
    names && same_text(a.address.as_str(), b.address.as_str())
}

/// A copy of a list of addresses.
fn copy_addresses(v: &Vec<MailAddress>) -> (r: Vec<MailAddress>)
    ensures
        r@ == v@,
{
    let mut out: Vec<MailAddress> = Vec::new();
    let mut i: usize = 0;
    while i < v.len()
        invariant
            i <= v.len(),
            out@ == v@.take(i as int),
        decreases v.len() - i,
    {
        out.push(v[i].clone());
        i += 1;
        assert(out@ =~= v@.take(i as int));
    }
    assert(v@.take(v.len() as int) =~= v@);
    out
}

/// The message at `position` of fixture `fixture` at position `index`.
fn message(fixture: &Fixture, participants: &Vec<MailAddress>, index: usize, position: usize, now: i64) -> (r: MailMessage)
    requires
        fixture_wf(*fixture),
        position < fixture.bodies@.len(),
        participants@.map_values(|a: MailAddress| addr_view(a)) == named_people(*fixture),
        fits_time(now),
    ensures
        message_of(r, *fixture, index as nat, position as int, now),
{
    let ghost people = named_people(*fixture);
    let count = fixture.bodies.len();
    let newer = count - 1 - position;
    let from_demo = (newer % 2 == 0) == fixture.outgoing;
    let sender;
    let mut recipients;
    if from_demo {
        sender = demo_user();
        recipients = copy_addresses(participants);
    } else {
        if participants.len() == 0 {
            sender = MailAddress::default();
            proof {
                reveal_strlit("");
            }
            assert(addr_view(sender) == (None::<Seq<char>>, Seq::<char>::empty()));
        } else {
            let k = (position / 2) % participants.len();
            sender = participants[k].clone();
            assert(people[k as int] == addr_view(participants@[k as int]));
        }
        recipients = Vec::new();
        recipients.push(demo_user());
        let mut i: usize = 0;
        let ghost keep = |p: (Option<Seq<char>>, Seq<char>)| p != sender_view(*fixture, position as int);
        while i < participants.len()
            invariant
                i <= participants.len(),
                participants@.map_values(|a: MailAddress| addr_view(a)) == people,
                addr_view(sender) == sender_view(*fixture, position as int),
                keep == (|p: (Option<Seq<char>>, Seq<char>)| p != sender_view(*fixture, position as int)),
                recipients@.map_values(|a: MailAddress| addr_view(a)) == seq![demo_user_view()] + people.take(i as int).filter(keep),
            decreases participants.len() - i,
        {
            proof {
                reveal(Seq::filter);
                assert(people.take(i + 1).drop_last() =~= people.take(i as int));
                assert(people.take(i + 1).last() == addr_view(participants@[i as int]));
            }
            if !same_address(&participants[i], &sender) {
                let ghost before = recipients@;
                recipients.push(participants[i].clone());
                assert(recipients@.map_values(|a: MailAddress| addr_view(a)) =~= before.map_values(|a: MailAddress| addr_view(a)).push(addr_view(participants@[i as int])));
            }
            i += 1;
        }
        assert(people.take(participants.len() as int) =~= people);
    }
    if fixture.to.len() > 0 {
        recipients = recipients_named(fixture);
    }
    let mut id = demo_id_string(index);
    proof {
        reveal_strlit("-");
    }
    id.append("-");
    id.append(decimal_string(position as u64).as_str());
    let time = now - fixture.age - (newer as i64) * THREAD_GAP;
    MailMessage {
        id,
        sender,
        recipients,
        time: Some(time),
        body: MessageBody::PlainText(fixture.bodies[position].to_owned()),
        attachments: Vec::new(),
    }
}


/// Whether `c` is an ASCII digit.
pub open spec fn is_digit(c: char) -> bool {
    '0' <= c <= '9'
}

/// The number a run of decimal digits writes.
pub open spec fn digits_value(s: Seq<char>) -> nat
    decreases s.len(),
{
    if s.len() == 0 {
        0
    } else {
        digits_value(s.drop_last()) * 10 + (s.last() as nat - '0' as nat) as nat
    }
}

/// A text without the `+` it may start with.
pub open spec fn unsigned_part(s: Seq<char>) -> Seq<char> {
    if s.len() > 0 && s[0] == '+' {
        s.drop_first()
    } else {
        s
    }
}

/// Whether a text is nothing but decimal digits.
pub open spec fn all_digits(s: Seq<char>) -> bool {
    forall|i: int| 0 <= i < s.len() ==> is_digit(#[trigger] s[i])
}

/// What `usize::from_str` makes of a text: an optional `+`, then at least
/// one decimal digit and nothing else, of a value that fits.
pub open spec fn parsed_index(s: Seq<char>) -> Option<nat> {
    let digits = unsigned_part(s);
    if digits.len() > 0 && all_digits(digits) && digits_value(digits) <= usize::MAX {
        Some(digits_value(digits))
    } else {
        None
    }
}

/// The fixture a row id names: `demo-` and its position.
pub open spec fn demo_index(id: Seq<char>) -> Option<nat> {
    if id.len() >= 5 && id.take(5) == "demo-"@ {
        parsed_index(id.skip(5))
    } else {
        None
    }
}

/// The number some decimal digits write, if it fits.
fn parse_index(s: &Vec<char>, from: usize) -> (r: Option<usize>)
    requires
        from <= s@.len(),
    ensures
        r matches Some(n) ==> parsed_index(s@.skip(from as int)) == Some(n as nat),
        r is None ==> parsed_index(s@.skip(from as int)) is None,
{
    let ghost t = s@.skip(from as int);
    let mut i = from;
    if i < s.len() && s[i] == '+' {
        i += 1;
    }
    let start = i;
    let ghost digits = s@.skip(start as int);
    assert(digits =~= unsigned_part(t));
    if start >= s.len() {
        return None;
    }
    let mut value: usize = 0;
    let mut overflow = false;
    while i < s.len()
        invariant
            start <= i <= s@.len(),
            start < s@.len(),
            digits == s@.skip(start as int),
            t == s@.skip(from as int),
            digits == unsigned_part(t),
            forall|k: int| start <= k < i ==> is_digit(#[trigger] s@[k]),
            !overflow ==> value == digits_value(s@.subrange(start as int, i as int)),
            overflow ==> digits_value(s@.subrange(start as int, i as int)) > usize::MAX,
        decreases s.len() - i,
    {
        let c = s[i];
        if !('0' <= c && c <= '9') {
            assert(!is_digit(digits[i - start]));
            assert(!all_digits(digits));
            return None;
        }
        let d = (c as u32 - '0' as u32) as usize;
        proof {
            let p = s@.subrange(start as int, i + 1);
            assert(p.drop_last() =~= s@.subrange(start as int, i as int));
            assert(p.last() == c);
        }
        if !overflow {
            match value.checked_mul(10) {
                Some(v) => match v.checked_add(d) {
                    Some(w) => {
                        value = w;
                    },
                    None => {
                        overflow = true;
                    },
                },
                None => {
                    overflow = true;
                },
            }
        }
        i += 1;
    }
    assert(s@.subrange(start as int, s@.len() as int) =~= digits);
    assert forall|k: int| 0 <= k < digits.len() implies is_digit(#[trigger] digits[k]) by {
        assert(digits[k] == s@[start + k]);
    }
    assert(all_digits(digits));
    if overflow {
        None
    } else {
        Some(value)
    }
}

/// The fixture a row id names.
fn fixture_index(id: &str) -> (r: Option<usize>)
    ensures
        r matches Some(n) ==> demo_index(id@) == Some(n as nat),
        r is None ==> demo_index(id@) is None,
{
    let v = chars_of(id);
    proof {
        reveal_strlit("demo-");
    }
    if v.len() < 5 || v[0] != 'd' || v[1] != 'e' || v[2] != 'm' || v[3] != 'o' || v[4] != '-' {
        proof {
            if v@.len() >= 5 {
                assert(v@.take(5) != "demo-"@) by {
                    assert("demo-"@[0] == 'd');
                    assert("demo-"@[1] == 'e');
                    assert("demo-"@[2] == 'm');
                    assert("demo-"@[3] == 'o');
                    assert("demo-"@[4] == '-');
                    if v@.take(5) == "demo-"@ {
                        assert(v@[0] == v@.take(5)[0]);
                        assert(v@[1] == v@.take(5)[1]);
                        assert(v@[2] == v@.take(5)[2]);
                        assert(v@[3] == v@.take(5)[3]);
                        assert(v@[4] == v@.take(5)[4]);
                    }
                }
            }
        }
        return None;
    }
    assert(v@.take(5) =~= "demo-"@);
    parse_index(&v, 5)
}

/// The conversation of the fixture a row id names, if it names one.
fn detail_from(fs: &Vec<Fixture>, id: &str, now: i64) -> (r: Option<ConversationDetail>)
    requires
        forall|k: int| 0 <= k < fs@.len() ==> fixture_wf(#[trigger] fs@[k]),
        fits_time(now),
    ensures
        match demo_index(id@) {
            Some(i) => if i < fs@.len() {
                r matches Some(d) && detail_of(d, id@, fs@[i as int], i, now)
            } else {
                r is None
            },
            None => r is None,
        },
{
    let index = match fixture_index(id) {
        Some(i) => i,
        None => return None,
    };
    if index >= fs.len() {
        return None;
    }
    let fixture = &fs[index];
    let participants = named(fixture);
    let count = fixture.bodies.len();
    let mut messages: Vec<MailMessage> = Vec::new();
    let mut position: usize = 0;
    while position < count
        invariant
            position <= count,
            count == fixture.bodies@.len(),
            fixture_wf(*fixture),
            fits_time(now),
            participants@.map_values(|a: MailAddress| addr_view(a)) == named_people(*fixture),
            messages@.len() == position,
            forall|p: int| 0 <= p < position ==> message_of(#[trigger] messages@[p], *fixture, index as nat, p, now),
        decreases count - position,
    {
        messages.push(message(fixture, &participants, index, position, now));
        position += 1;
    }
    Some(ConversationDetail { id: id.to_owned(), subject: non_empty(fixture.subject), messages, labels: Vec::new() })
}

/// Whether a fixture answers a query already trimmed and in lower case:
/// by subject, correspondents or any message body.
pub open spec fn query_hits(f: Fixture, q: Seq<char>) -> bool {
    &&& q.len() > 0
    &&& {
        ||| has_infix(lowercase(f.subject@), q)
        ||| has_infix(lowercase(f.correspondents@), q)
        ||| exists|b: int| 0 <= b < f.bodies@.len() && has_infix(lowercase(#[trigger] f.bodies@[b]@), q)
    }
}

/// Whether a fixture answers a query already trimmed and in lower case.
fn matches_query(fixture: &Fixture, query: &str) -> (r: bool)
    ensures
        r == query_hits(*fixture, query@),
{
    if query.is_empty() {
        return false;
    }
    if contains_text(to_lowercase(fixture.subject).as_str(), query) {
        return true;
    }
    if contains_text(to_lowercase(fixture.correspondents).as_str(), query) {
        return true;
    }
    let mut b: usize = 0;
    while b < fixture.bodies.len()
        invariant
            b <= fixture.bodies.len(),
            query@.len() > 0,
            !has_infix(lowercase(fixture.subject@), query@),
            !has_infix(lowercase(fixture.correspondents@), query@),
            forall|k: int| 0 <= k < b ==> !has_infix(lowercase(#[trigger] fixture.bodies@[k]@), query@),
        decreases fixture.bodies.len() - b,
    {
        if contains_text(to_lowercase(fixture.bodies[b]).as_str(), query) {
            assert(has_infix(lowercase(fixture.bodies@[b as int]@), query@));
            return true;
        }
        b += 1;
    }
    false
}

/// The fixtures that answer a query, in the order the search lists them:
/// newest first, from every folder.
pub open spec fn search_order(fs: Seq<Fixture>, q: Seq<char>) -> Seq<int> {
    by_age(fs, picked(fs, |f: Fixture| query_hits(f, q)))
}

/// The rows that answer `query` from anywhere in the mailbox, newest
/// first, at most `limit` of them. Folders are ignored on purpose: a
/// search that stopped at the open folder would not be a search.
fn search_from(fs: &Vec<Fixture>, query: &str, limit: u32, now: i64) -> (r: ConversationPage)
    requires
        fs@.len() <= u32::MAX,
        forall|k: int| 0 <= k < fs@.len() ==> fixture_wf(#[trigger] fs@[k]),
        fits_time(now),
    ensures
        ({
            let order = search_order(fs@, lowercase(trimmed(query@)));
            let shown = at_most(order, limit as nat);
            shows(r, fs@, shown, shown.len(), now)
        }),
{
    let q = to_lowercase(trim(query).as_str());
    let ghost p = |f: Fixture| query_hits(f, q@);
    let mut chosen: Vec<usize> = Vec::new();
    let mut i: usize = 0;
    while i < fs.len()
        invariant
            i <= fs.len(),
            p == (|f: Fixture| query_hits(f, q@)),
            chosen@.map_values(|k: usize| k as int) == picked(fs@.take(i as int), p),
            forall|k: int| 0 <= k < chosen@.len() ==> #[trigger] chosen@[k] < i,
        decreases fs.len() - i,
    {
        proof {
            assert(fs@.take(i + 1).drop_last() =~= fs@.take(i as int));
            assert(fs@.take(i + 1).last() == fs@[i as int]);
        }
        if matches_query(&fs[i], q.as_str()) {
            let ghost before = chosen@.map_values(|k: usize| k as int);
            chosen.push(i);
            assert(chosen@.map_values(|k: usize| k as int) =~= before.push(i as int));
        }
        i += 1;
    }
    assert(fs@.take(fs.len() as int) =~= fs@);
    let order = sort_by_age(fs, chosen);
    proof {
        lemma_picked_valid(fs@, p);
        lemma_by_age_len(fs@, picked(fs@, p));
    }
    let n: usize = if (limit as u64) < (order.len() as u64) {
        limit as usize
    } else {
        order.len()
    };
    let conversations = summaries(fs, &order, 0, n, now);
    proof {
        let o = order@.map_values(|k: usize| k as int);
        let shown = at_most(o, limit as nat);
        assert(shown.len() == n);
        assert forall|k: int| 0 <= k < n implies shown[k] == order@[0 + k] as int by {}
    }
    ConversationPage { conversations, total: n as u32 }
}


/// A reading of the system clock, `std::time::SystemTime`, carried
/// through without looking inside.
#[verifier::external_type_specification]
#[verifier::external_body]
pub struct ExSystemTime(std::time::SystemTime);

/// The clock's current time: `SystemTime::now`. Nothing is claimed of it.
#[verifier::external_body]
fn clock() -> std::time::SystemTime {
    std::time::SystemTime::now()
}

/// How long after the Unix epoch a time is: `SystemTime::duration_since`
/// from `UNIX_EPOCH`; `None` for a time before it. Nothing more is claimed.
#[verifier::external_body]
fn since_epoch(t: &std::time::SystemTime) -> Option<std::time::Duration> {
    t.duration_since(std::time::UNIX_EPOCH).ok()
}

/// The whole seconds of a duration: `Duration::as_secs`. Nothing is
/// claimed of the value, which this library cannot see into.
#[verifier::external_body]
fn whole_seconds(d: &std::time::Duration) -> u64 {
    d.as_secs()
}

/// Seconds since the Unix epoch as a timestamp: none for a clock before
/// the epoch counts as zero, and too many to hold saturate.
pub fn epoch_seconds(seconds: Option<u64>) -> (r: i64)
    ensures
        seconds is None ==> r == 0,
        seconds matches Some(s) ==> r == (if s <= i64::MAX { s as i64 } else { i64::MAX }),
{
    match seconds {
        Some(s) => if s <= i64::MAX as u64 {
            s as i64
        } else {
            i64::MAX
        },
        None => 0,
    }
}

/// The current time as seconds since the Unix epoch; zero for a clock set
/// before it.
pub fn now() -> (r: i64)
    ensures
        r >= 0,
{
    let t = clock();
    let seconds = match since_epoch(&t) {
        Some(d) => Some(whole_seconds(&d)),
        None => None,
    };
    epoch_seconds(seconds)
}

/// The fixtures after one of them changed.
pub open spec fn after_update(fs: Seq<Fixture>, id: Seq<char>, change: spec_fn(Fixture) -> Fixture) -> Seq<Fixture> {
    match demo_index(id) {
        Some(i) => if i < fs.len() {
            fs.update(i as int, change(fs[i as int]))
        } else {
            fs
        },
        None => fs,
    }
}

/// A fixture marked read or unread.
pub open spec fn marked_unread(unread: bool) -> spec_fn(Fixture) -> Fixture {
    |f: Fixture| Fixture { unread, ..f }
}

/// A fixture starred or not.
pub open spec fn marked_starred(starred: bool) -> spec_fn(Fixture) -> Fixture {
    |f: Fixture| Fixture { starred, ..f }
}

/// A fixture moved into one of Proton's own folders.
pub open spec fn moved_to(folder: MailFolder) -> spec_fn(Fixture) -> Fixture {
    |f: Fixture| Fixture { folder, ..f }
}

/// Whether a row id names one of the fixtures.
pub open spec fn names_fixture(fs: Seq<Fixture>, id: Seq<char>) -> bool {
    demo_index(id) matches Some(i) && i < fs.len()
}

impl DemoMailbox {
    /// Every fixture can be shown, and there are few enough to count.
    pub closed spec fn ok(self) -> bool {
        &&& self.fixtures@.len() <= u32::MAX
        &&& forall|i: int| 0 <= i < self.fixtures@.len() ==> fixture_wf(#[trigger] self.fixtures@[i])
    }

    /// One page of a folder, newest first. The fictional mailbox always
    /// answers.
    pub fn list_conversations(&self, folder: &Folder, page: u32, page_size: u32, now: i64) -> (r: Result<ConversationPage, MailboxError>)
        requires
            self.ok(),
            fits_time(now),
        ensures
            r matches Ok(p) && shows(p, self.state(), page_of(folder_order(self.state(), *folder), page, page_size), folder_order(self.state(), *folder).len(), now),
    {
        Ok(list_from(&self.fixtures, folder, page, page_size, now))
    }

    /// Searches every folder, the way the server does for a real account.
    pub fn search(&self, query: &str, limit: u32, now: i64) -> (r: Result<ConversationPage, MailboxError>)
        requires
            self.ok(),
            fits_time(now),
        ensures
            ({
                let shown = at_most(search_order(self.state(), lowercase(trimmed(query@))), limit as nat);
                r matches Ok(p) && shows(p, self.state(), shown, shown.len(), now)
            }),
    {
        Ok(search_from(&self.fixtures, query, limit, now))
    }

    /// The unread count of each of Proton's own folders.
    pub fn counts(&self) -> (r: MailboxCounts)
        requires
            self.ok(),
        ensures
            forall|f: MailFolder| #[trigger] r.unread_of(Folder::System(f)) == Some(unread_in(self.state(), Folder::System(f)) as u32),
            forall|f: Folder| (#[trigger] r.unread_of(f)) is Some ==> f is System,
    {
        counts_from(&self.fixtures)
    }

    /// The conversation a row id names; an id that names none is
    /// unavailable.
    pub fn conversation_detail(&self, id: &str, now: i64) -> (r: Result<ConversationDetail, MailboxError>)
        requires
            self.ok(),
            fits_time(now),
        ensures
            names_fixture(self.state(), id@) ==> (r matches Ok(d) && detail_of(d, id@, self.state()[demo_index(id@)->0 as int], demo_index(id@)->0, now)),
            !names_fixture(self.state(), id@) ==> r == Err::<ConversationDetail, MailboxError>(MailboxError::Unavailable),
    {
        match detail_from(&self.fixtures, id, now) {
            Some(d) => Ok(d),
            None => Err(MailboxError::Unavailable),
        }
    }

    /// The first page of a folder and the counts, as they stand after a
    /// local action.
    pub fn snapshot(&self, folder: &Folder, page_size: u32, now: i64) -> (r: (ConversationPage, MailboxCounts))
        requires
            self.ok(),
            fits_time(now),
        ensures
            shows(r.0, self.state(), page_of(folder_order(self.state(), *folder), 0, page_size), folder_order(self.state(), *folder).len(), now),
            forall|f: MailFolder| #[trigger] r.1.unread_of(Folder::System(f)) == Some(unread_in(self.state(), Folder::System(f)) as u32),
            forall|f: Folder| (#[trigger] r.1.unread_of(f)) is Some ==> f is System,
    {
        (list_from(&self.fixtures, folder, 0, page_size, now), counts_from(&self.fixtures))
    }

    /// Marks a conversation read or unread; `false` when the id names none.
    pub fn set_unread(&mut self, id: &str, unread: bool) -> (r: bool)
        requires
            old(self).ok(),
        ensures
            r == names_fixture(old(self).state(), id@),
            final(self).state() == after_update(old(self).state(), id@, marked_unread(unread)),
            final(self).ok(),
    {
        match fixture_index(id) {
            Some(i) => {
                if i < self.fixtures.len() {
                    self.fixtures[i].unread = unread;
                    true
                } else {
                    false
                }
            },
            None => false,
        }
    }

    /// Stars or unstars a conversation; `false` when the id names none.
    pub fn set_starred(&mut self, id: &str, starred: bool) -> (r: bool)
        requires
            old(self).ok(),
        ensures
            r == names_fixture(old(self).state(), id@),
            final(self).state() == after_update(old(self).state(), id@, marked_starred(starred)),
            final(self).ok(),
    {
        match fixture_index(id) {
            Some(i) => {
                if i < self.fixtures.len() {
                    self.fixtures[i].starred = starred;
                    true
                } else {
                    false
                }
            },
            None => false,
        }
    }

    /// Moves a conversation into one of Proton's own folders. The fictional
    /// mailbox has no folders of its own, so a move into one changes
    /// nothing.
    pub fn move_to(&mut self, id: &str, folder: &Folder) -> (r: bool)
        requires
            old(self).ok(),
        ensures
            match *folder {
                Folder::System(to) => {
                    &&& r == names_fixture(old(self).state(), id@)
                    &&& final(self).state() == after_update(old(self).state(), id@, moved_to(to))
                },
                Folder::Custom { .. } => !r && final(self).state() == old(self).state(),
            },
            final(self).ok(),
    {
        let to = match folder.system() {
            Some(f) => f,
            None => return false,
        };
        match fixture_index(id) {
            Some(i) => {
                if i < self.fixtures.len() {
                    self.fixtures[i].folder = to;
                    true
                } else {
                    false
                }
            },
            None => false,
        }
    }
}


/// Marking, starring or moving twice does what doing it once does.
pub proof fn law_actions_are_idempotent(fs: Seq<Fixture>, id: Seq<char>, unread: bool, starred: bool, folder: MailFolder)
    ensures
        after_update(after_update(fs, id, marked_unread(unread)), id, marked_unread(unread)) == after_update(fs, id, marked_unread(unread)),
        after_update(after_update(fs, id, marked_starred(starred)), id, marked_starred(starred)) == after_update(fs, id, marked_starred(starred)),
        after_update(after_update(fs, id, moved_to(folder)), id, moved_to(folder)) == after_update(fs, id, moved_to(folder)),
{
    if names_fixture(fs, id) {
        let i = demo_index(id)->0 as int;
        assert(after_update(after_update(fs, id, marked_unread(unread)), id, marked_unread(unread)) =~= after_update(fs, id, marked_unread(unread)));
        assert(after_update(after_update(fs, id, marked_starred(starred)), id, marked_starred(starred)) =~= after_update(fs, id, marked_starred(starred)));
        assert(after_update(after_update(fs, id, moved_to(folder)), id, moved_to(folder)) =~= after_update(fs, id, moved_to(folder)));
    }
}

/// A move never deletes: the conversation keeps everything it says, and
/// only the folder it is in changes.
pub proof fn law_moves_keep_content(fs: Seq<Fixture>, id: Seq<char>, folder: MailFolder)
    requires
        names_fixture(fs, id),
    ensures
        ({
            let i = demo_index(id)->0 as int;
            let moved = after_update(fs, id, moved_to(folder));
            &&& moved.len() == fs.len()
            &&& moved[i].folder == folder
            &&& moved[i].bodies == fs[i].bodies
            &&& moved[i].subject == fs[i].subject
            &&& moved[i].correspondents == fs[i].correspondents
            &&& moved[i].unread == fs[i].unread
            &&& moved[i].starred == fs[i].starred
            &&& forall|k: int| 0 <= k < fs.len() && k != i ==> #[trigger] moved[k] == fs[k]
        }),
{
}
/// A row as plain values: everything it shows.
pub open spec fn row_view(s: ConversationSummary) -> (
    Seq<char>,
    SummaryKind,
    Option<Seq<char>>,
    Option<Seq<char>>,
    Seq<(Option<Seq<char>>, Seq<char>)>,
    Option<Seq<char>>,
    Option<i64>,
    (bool, bool, u32, bool),
) {
    (
        s.id@,
        s.kind,
        opt_view(s.subject),
        opt_view(s.correspondents),
        s.participants@.map_values(|a: MailAddress| addr_view(a)),
        opt_view(s.preview),
        s.time,
        (s.unread, s.starred, s.message_count, s.has_attachments),
    )
}

/// What a snapshot returns is what listing the first page and counting
/// return on the same state: a page that shows the first page of the
/// folder is, row for row, the listed page, and counts that agree with
/// the unread mail of every folder agree with each other.
pub proof fn law_snapshot_is_first_page_and_counts(
    fs: Seq<Fixture>,
    folder: Folder,
    page_size: u32,
    now: i64,
    snapshot: (ConversationPage, MailboxCounts),
    listed: ConversationPage,
    counted: MailboxCounts,
)
    requires
        shows(snapshot.0, fs, page_of(folder_order(fs, folder), 0, page_size), folder_order(fs, folder).len(), now),
        forall|f: MailFolder| #[trigger] snapshot.1.unread_of(Folder::System(f)) == Some(unread_in(fs, Folder::System(f)) as u32),
        forall|f: Folder| (#[trigger] snapshot.1.unread_of(f)) is Some ==> f is System,
        shows(listed, fs, page_of(folder_order(fs, folder), 0, page_size), folder_order(fs, folder).len(), now),
        forall|f: MailFolder| #[trigger] counted.unread_of(Folder::System(f)) == Some(unread_in(fs, Folder::System(f)) as u32),
        forall|f: Folder| (#[trigger] counted.unread_of(f)) is Some ==> f is System,
    ensures
        snapshot.0.total == listed.total,
        snapshot.0.conversations@.map_values(|s: ConversationSummary| row_view(s))
            == listed.conversations@.map_values(|s: ConversationSummary| row_view(s)),
        forall|f: Folder| #[trigger] snapshot.1.unread_of(f) == counted.unread_of(f),
{
    let a = snapshot.0.conversations@.map_values(|s: ConversationSummary| row_view(s));
    let b = listed.conversations@.map_values(|s: ConversationSummary| row_view(s));
    let positions = page_of(folder_order(fs, folder), 0, page_size);
    assert forall|i: int| 0 <= i < a.len() implies a[i] == b[i] by {
        assert(summarizes(snapshot.0.conversations@[i], positions[i] as nat, fs[positions[i]], now));
        assert(summarizes(listed.conversations@[i], positions[i] as nat, fs[positions[i]], now));
    }
    assert(a =~= b);
    assert forall|f: Folder| #[trigger] snapshot.1.unread_of(f) == counted.unread_of(f) by {
        match f {
            Folder::System(m) => {
                assert(snapshot.1.unread_of(Folder::System(m)) == counted.unread_of(Folder::System(m)));
            },
            Folder::Custom { .. } => {
                if snapshot.1.unread_of(f) is Some {
                    assert(f is System);
                }
                if counted.unread_of(f) is Some {
                    assert(f is System);
                }
            },
        }
    }
}

/// How many of the rows are unread.
pub open spec fn unread_rows(rows: Seq<ConversationSummary>) -> nat
    decreases rows.len(),
{
    if rows.len() == 0 {
        0
    } else {
        unread_rows(rows.drop_last()) + (if rows.last().unread { 1nat } else { 0nat })
    }
}

/// How many of the fixtures at these positions are unread.
pub open spec fn unread_at(fs: Seq<Fixture>, positions: Seq<int>) -> nat
    decreases positions.len(),
{
    if positions.len() == 0 {
        0
    } else {
        unread_at(fs, positions.drop_last()) + (if fs[positions.last()].unread { 1nat } else { 0nat })
    }
}

proof fn lemma_unread_rows(rows: Seq<ConversationSummary>, fs: Seq<Fixture>, positions: Seq<int>)
    requires
        rows.len() == positions.len(),
        forall|i: int| 0 <= i < rows.len() ==> (#[trigger] rows[i]).unread == fs[positions[i]].unread,
    ensures
        unread_rows(rows) == unread_at(fs, positions),
    decreases rows.len(),
{
    if rows.len() > 0 {
        let r = rows.drop_last();
        let p = positions.drop_last();
        assert forall|i: int| 0 <= i < r.len() implies (#[trigger] r[i]).unread == fs[p[i]].unread by {
            assert(r[i] == rows[i]);
            assert(p[i] == positions[i]);
        }
        lemma_unread_rows(r, fs, p);
    }
}

proof fn lemma_insert_unread(fs: Seq<Fixture>, t: Seq<int>, x: int)
    ensures
        unread_at(fs, insert_by_age(fs, t, x)) == unread_at(fs, t) + (if fs[x].unread { 1nat } else { 0nat }),
    decreases t.len(),
{
    if t.len() == 0 {
        assert(seq![x].drop_last() =~= Seq::<int>::empty());
        assert(seq![x].last() == x);
        assert(unread_at(fs, Seq::<int>::empty()) == 0);
        assert(insert_by_age(fs, t, x) == seq![x]);
    } else if fs[t.last()].age <= fs[x].age {
        assert(t.push(x).drop_last() =~= t);
        assert(t.push(x).last() == x);
        assert(insert_by_age(fs, t, x) == t.push(x));
    } else {
        lemma_insert_unread(fs, t.drop_last(), x);
        let u = insert_by_age(fs, t.drop_last(), x);
        assert(u.push(t.last()).drop_last() =~= u);
        assert(u.push(t.last()).last() == t.last());
        assert(insert_by_age(fs, t, x) == u.push(t.last()));
    }
}

proof fn lemma_by_age_unread(fs: Seq<Fixture>, s: Seq<int>)
    ensures
        unread_at(fs, by_age(fs, s)) == unread_at(fs, s),
    decreases s.len(),
{
    if s.len() > 0 {
        lemma_by_age_unread(fs, s.drop_last());
        lemma_insert_unread(fs, by_age(fs, s.drop_last()), s.last());
    }
}

proof fn lemma_unread_at_prefix(fs: Seq<Fixture>, s: Seq<int>)
    requires
        fs.len() > 0,
        forall|k: int| 0 <= k < s.len() ==> 0 <= #[trigger] s[k] < fs.len() - 1,
    ensures
        unread_at(fs, s) == unread_at(fs.drop_last(), s),
    decreases s.len(),
{
    if s.len() > 0 {
        let t = s.drop_last();
        assert forall|k: int| 0 <= k < t.len() implies 0 <= #[trigger] t[k] < fs.len() - 1 by {
            assert(t[k] == s[k]);
        }
        lemma_unread_at_prefix(fs, t);
        assert(fs.drop_last()[s.last()] == fs[s.last()]);
    }
}

proof fn lemma_picked_unread(fs: Seq<Fixture>, p: spec_fn(Fixture) -> bool, q: spec_fn(Fixture) -> bool)
    requires
        forall|f: Fixture| #[trigger] q(f) == (f.unread && p(f)),
    ensures
        unread_at(fs, picked(fs, p)) == picked(fs, q).len(),
    decreases fs.len(),
{
    if fs.len() > 0 {
        let d = fs.drop_last();
        lemma_picked_unread(d, p, q);
        lemma_picked_valid(d, p);
        let r = picked(d, p);
        assert forall|k: int| 0 <= k < r.len() implies 0 <= #[trigger] r[k] < fs.len() - 1 by {}
        lemma_unread_at_prefix(fs, r);
        assert(q(fs.last()) == (fs.last().unread && p(fs.last())));
        if p(fs.last()) {
            assert(r.push(fs.len() - 1).drop_last() =~= r);
        }
    }
}

/// The unread count of every one of Proton's own folders is the number of
/// unread rows a listing of that folder shows, on the same state: a page
/// that holds the whole folder and counts as `counts` gives them agree,
/// and the account's own folders have no count.
pub proof fn law_counts_match_the_unread_rows_listed(
    d: DemoMailbox,
    folder: MailFolder,
    page_size: u32,
    now: i64,
    listed: ConversationPage,
    counted: MailboxCounts,
)
    requires
        d.ok(),
        page_size >= folder_order(d.state(), Folder::System(folder)).len(),
        shows(
            listed,
            d.state(),
            page_of(folder_order(d.state(), Folder::System(folder)), 0, page_size),
            folder_order(d.state(), Folder::System(folder)).len(),
            now,
        ),
        forall|f: MailFolder| #[trigger] counted.unread_of(Folder::System(f)) == Some(unread_in(d.state(), Folder::System(f)) as u32),
        forall|f: Folder| (#[trigger] counted.unread_of(f)) is Some ==> f is System,
    ensures
        counted.unread_of(Folder::System(folder)) == Some(unread_rows(listed.conversations@) as u32),
        unread_rows(listed.conversations@) == unread_in(d.state(), Folder::System(folder)),
        forall|f: Folder| f is Custom ==> #[trigger] counted.unread_of(f) is None,
{
    let fs = d.state();
    let place = Folder::System(folder);
    let p = |f: Fixture| fixture_in(f, place);
    let q = |f: Fixture| f.unread && fixture_in(f, place);
    let order = folder_order(fs, place);
    assert(order == by_age(fs, picked(fs, p)));
    let shown = page_of(order, 0, page_size);
    assert(shown =~= order);
    assert forall|i: int| 0 <= i < listed.conversations@.len() implies (#[trigger] listed.conversations@[i]).unread == fs[shown[i]].unread by {
        assert(summarizes(listed.conversations@[i], shown[i] as nat, fs[shown[i]], now));
    }
    lemma_unread_rows(listed.conversations@, fs, shown);
    lemma_by_age_unread(fs, picked(fs, p));
    lemma_picked_unread(fs, p, q);
    assert(unread_in(fs, place) == picked(fs, q).len());
    assert forall|f: Folder| f is Custom implies #[trigger] counted.unread_of(f) is None by {
        if counted.unread_of(f) is Some {
            assert(f is System);
        }
    }
}

} // verus!
