//! The mail the library shows: folders, conversations, messages and the
//! actions that change them.

use vstd::prelude::*;

use crate::text::{chars_of, lines, lines_of, same_text, str_views, string_of};

verus! {

/// Standard Proton Mail folders supported by the mailbox view.
#[derive(Debug, Clone, Copy, PartialEq, Eq, Hash, Structural)]
pub enum MailFolder {
    Inbox,
    Drafts,
    Sent,
    Starred,
    Archive,
    Spam,
    Trash,
}

/// Whether mail actually lives in this folder. Starred is a label, and Sent
/// and Drafts describe origin.
pub open spec fn mail_folder_is_location(f: MailFolder) -> bool {
    f == MailFolder::Inbox || f == MailFolder::Archive || f == MailFolder::Spam || f
        == MailFolder::Trash
}

pub open spec fn mail_folder_name(f: MailFolder) -> Seq<char> {
    match f {
        MailFolder::Inbox => "Inbox"@,
        MailFolder::Drafts => "Drafts"@,
        MailFolder::Sent => "Sent"@,
        MailFolder::Starred => "Starred"@,
        MailFolder::Archive => "Archive"@,
        MailFolder::Spam => "Spam"@,
        MailFolder::Trash => "Trash"@,
    }
}

impl MailFolder {
    /// Every standard folder, in sidebar order.
    pub fn all() -> (r: Vec<MailFolder>)
        ensures
            r@ == seq![
                MailFolder::Inbox,
                MailFolder::Drafts,
                MailFolder::Sent,
                MailFolder::Starred,
                MailFolder::Archive,
                MailFolder::Spam,
                MailFolder::Trash,
            ],
    {
        let r = vec![
            MailFolder::Inbox,
            MailFolder::Drafts,
            MailFolder::Sent,
            MailFolder::Starred,
            MailFolder::Archive,
            MailFolder::Spam,
            MailFolder::Trash,
        ];
        assert(r@ =~= seq![
            MailFolder::Inbox,
            MailFolder::Drafts,
            MailFolder::Sent,
            MailFolder::Starred,
            MailFolder::Archive,
            MailFolder::Spam,
            MailFolder::Trash,
        ]);
        r
    }

    /// Whether a row can be moved back into this folder.
    pub fn is_location(self) -> (r: bool)
        ensures
            r == mail_folder_is_location(self),
    {
        match self {
            MailFolder::Inbox | MailFolder::Archive | MailFolder::Spam | MailFolder::Trash => true,
            _ => false,
        }
    }

    pub fn name(self) -> (r: &'static str)
        ensures
            r@ == mail_folder_name(self),
    {
        match self {
            MailFolder::Inbox => "Inbox",
            MailFolder::Drafts => "Drafts",
            MailFolder::Sent => "Sent",
            MailFolder::Starred => "Starred",
            MailFolder::Archive => "Archive",
            MailFolder::Spam => "Spam",
            MailFolder::Trash => "Trash",
        }
    }
}

/// What a place the account made is: somewhere mail lives, or a name mail
/// carries while living somewhere else.
#[derive(Debug, Clone, Copy, PartialEq, Eq, Hash, Structural)]
pub enum CustomKind {
    /// Mail is in it, and moving a row elsewhere takes it out.
    Folder,
    /// Mail keeps its folder and carries this name as well.
    Label,
}

impl Default for CustomKind {
    fn default() -> (r: Self)
        ensures
            r == CustomKind::Folder,
    {
        CustomKind::Folder
    }
}

/// A system folder or a folder or label the account made.
#[derive(Debug, PartialEq, Eq, Hash)]
pub enum Folder {
    System(MailFolder),
    Custom { id: String, name: String, kind: CustomKind },
}

/// Two folders are the same when they hold the same values.
pub open spec fn same_folder(a: Folder, b: Folder) -> bool {
    match (a, b) {
        (Folder::System(x), Folder::System(y)) => x == y,
        (
            Folder::Custom { id: i1, name: n1, kind: k1 },
            Folder::Custom { id: i2, name: n2, kind: k2 },
        ) => i1@ == i2@ && n1@ == n2@ && k1 == k2,
        _ => false,
    }
}

pub open spec fn folder_name(f: Folder) -> Seq<char> {
    match f {
        Folder::System(s) => mail_folder_name(s),
        Folder::Custom { name, .. } => name@,
    }
}

/// The identifier of a place the account made; `None` for Proton's own.
pub open spec fn folder_custom_id(f: Folder) -> Option<Seq<char>> {
    match f {
        Folder::System(_) => None,
        Folder::Custom { id, .. } => Some(id@),
    }
}

pub open spec fn folder_is_location(f: Folder) -> bool {
    match f {
        Folder::System(s) => mail_folder_is_location(s),
        Folder::Custom { kind, .. } => kind == CustomKind::Folder,
    }
}

impl Clone for Folder {
    fn clone(&self) -> (r: Self)
        ensures
            r == *self,
    {
        match self {
            Folder::System(f) => Folder::System(*f),
            Folder::Custom { id, name, kind } => Folder::Custom {
                id: id.clone(),
                name: name.clone(),
                kind: *kind,
            },
        }
    }
}

impl Folder {
    /// The Inbox, where a mailbox opens by default.
    pub fn inbox() -> (r: Folder)
        ensures
            r == Folder::System(MailFolder::Inbox),
    {
        Folder::System(MailFolder::Inbox)
    }

    /// A folder the account made.
    pub fn custom(id: &str, name: &str) -> (r: Folder)
        ensures
            r matches Folder::Custom { id: i, name: n, kind } && i@ == id@ && n@ == name@ && kind
                == CustomKind::Folder,
    {
        Folder::Custom { id: id.to_owned(), name: name.to_owned(), kind: CustomKind::Folder }
    }

    /// A label the account made.
    pub fn label(id: &str, name: &str) -> (r: Folder)
        ensures
            r matches Folder::Custom { id: i, name: n, kind } && i@ == id@ && n@ == name@ && kind
                == CustomKind::Label,
    {
        Folder::Custom { id: id.to_owned(), name: name.to_owned(), kind: CustomKind::Label }
    }

    pub fn name(&self) -> (r: &str)
        ensures
            r@ == folder_name(*self),
    {
        match self {
            Folder::System(f) => f.name(),
            Folder::Custom { name, .. } => name.as_str(),
        }
    }

    /// The system folder this is, if it is one.
    pub fn system(&self) -> (r: Option<MailFolder>)
        ensures
            r == (match *self {
                Folder::System(f) => Some(f),
                _ => None,
            }),
    {
        match self {
            Folder::System(f) => Some(*f),
            Folder::Custom { .. } => None,
        }
    }

    /// What Proton calls a place the account made; `None` for its own folders.
    pub fn custom_id(&self) -> (r: Option<&str>)
        ensures
            r matches Some(s) ==> folder_custom_id(*self) == Some(s@),
            r is None ==> folder_custom_id(*self) is None,
    {
        match self {
            Folder::System(_) => None,
            Folder::Custom { id, .. } => Some(id.as_str()),
        }
    }

    /// What kind of place the account made this one as.
    pub fn kind(&self) -> (r: Option<CustomKind>)
        ensures
            r == (match *self {
                Folder::Custom { kind, .. } => Some(kind),
                _ => None,
            }),
    {
        match self {
            Folder::System(_) => None,
            Folder::Custom { kind, .. } => Some(*kind),
        }
    }

    /// Whether mail actually lives here, so a row can be moved back into it.
    pub fn is_location(&self) -> (r: bool)
        ensures
            r == folder_is_location(*self),
    {
        match self {
            Folder::System(f) => f.is_location(),
            Folder::Custom { kind, .. } => match kind {
                CustomKind::Folder => true,
                CustomKind::Label => false,
            },
        }
    }

    /// Whether the two are the same folder, as `==` compares them.
    pub fn equals(&self, other: &Folder) -> (r: bool)
        ensures
            r == same_folder(*self, *other),
    {
        match (self, other) {
            (Folder::System(x), Folder::System(y)) => *x == *y,
            (
                Folder::Custom { id: i1, name: n1, kind: k1 },
                Folder::Custom { id: i2, name: n2, kind: k2 },
            ) => *i1 == *i2 && *n1 == *n2 && *k1 == *k2,
            _ => false,
        }
    }
}


/// What a mailbox row opens in the reader.
#[derive(Debug, Clone, Copy, PartialEq, Eq, Structural)]
pub enum SummaryKind {
    /// A Proton conversation shown as one thread.
    Conversation,
    /// One message shown on its own instead of inside its conversation.
    Message,
}

/// A mail address. Either part may be missing in server data.
#[derive(Debug, PartialEq, Eq)]
pub struct MailAddress {
    pub name: Option<String>,
    pub address: String,
}

impl Clone for MailAddress {
    fn clone(&self) -> (r: Self)
        ensures
            r == *self,
    {
        MailAddress { name: clone_opt_string(&self.name), address: self.address.clone() }
    }
}

impl Default for MailAddress {
    fn default() -> (r: Self)
        ensures
            r.name is None,
            r.address@.len() == 0,
    {
        MailAddress { name: None, address: String::new() }
    }
}

/// A copy of an optional string.
pub fn clone_opt_string(s: &Option<String>) -> (r: Option<String>)
    ensures
        r == *s,
{
    match s {
        Some(v) => Some(v.clone()),
        None => None,
    }
}

/// The display name, falling back to the address; `None` when both are empty.
pub open spec fn display_name_of(a: MailAddress) -> Option<Seq<char>> {
    match a.name {
        Some(n) if n@.len() > 0 => Some(n@),
        _ => if a.address@.len() > 0 {
            Some(a.address@)
        } else {
            None
        },
    }
}

impl MailAddress {
    /// The display name, falling back to the address. `None` when both are empty.
    pub fn display_name(&self) -> (r: Option<&str>)
        ensures
            r matches Some(s) ==> display_name_of(*self) == Some(s@),
            r is None ==> display_name_of(*self) is None,
    {
        if let Some(name) = &self.name {
            if !name.as_str().is_empty() {
                return Some(name.as_str());
            }
        }
        if self.address.as_str().is_empty() {
            None
        } else {
            Some(self.address.as_str())
        }
    }
}

/// The conversation metadata shown in the mailbox list.
#[derive(Debug, PartialEq, Eq)]
pub struct ConversationSummary {
    /// Conversation ID, or message ID for `SummaryKind::Message` rows.
    pub id: String,
    pub kind: SummaryKind,
    pub subject: Option<String>,
    /// Senders, or recipients in Sent and Drafts.
    pub correspondents: Option<String>,
    /// Locally available senders and recipients used by mailbox search.
    pub participants: Vec<MailAddress>,
    /// Locally available conversation snippet.
    pub preview: Option<String>,
    /// Unix timestamp in seconds.
    pub time: Option<i64>,
    pub unread: bool,
    pub starred: bool,
    pub message_count: u32,
    /// Whether any message carries a file.
    pub has_attachments: bool,
}

/// A copy of a list of addresses.
pub fn clone_addresses(v: &Vec<MailAddress>) -> (r: Vec<MailAddress>)
    ensures
        r@ == v@,
{
    let mut r: Vec<MailAddress> = Vec::new();
    let mut i: usize = 0;
    while i < v.len()
        invariant
            i <= v.len(),
            r@ == v@.take(i as int),
        decreases v.len() - i,
    {
        r.push(v[i].clone());
        i += 1;
        assert(r@ =~= v@.take(i as int));
    }
    assert(v@.take(v.len() as int) =~= v@);
    r
}

/// A row and its copy: every field the same, the participants too.
pub open spec fn same_summary(a: ConversationSummary, b: ConversationSummary) -> bool {
    &&& a.id == b.id
    &&& a.kind == b.kind
    &&& a.subject == b.subject
    &&& a.correspondents == b.correspondents
    &&& a.participants@ == b.participants@
    &&& a.preview == b.preview
    &&& a.time == b.time
    &&& a.unread == b.unread
    &&& a.starred == b.starred
    &&& a.message_count == b.message_count
    &&& a.has_attachments == b.has_attachments
}

impl Clone for ConversationSummary {
    fn clone(&self) -> (r: Self)
        ensures
            same_summary(r, *self),
    {
        ConversationSummary {
            id: self.id.clone(),
            kind: self.kind,
            subject: clone_opt_string(&self.subject),
            correspondents: clone_opt_string(&self.correspondents),
            participants: clone_addresses(&self.participants),
            preview: clone_opt_string(&self.preview),
            time: self.time,
            unread: self.unread,
            starred: self.starred,
            message_count: self.message_count,
            has_attachments: self.has_attachments,
        }
    }
}

/// A run of text sharing one style.
#[derive(Debug, PartialEq, Eq)]
pub struct RichSpan {
    pub text: String,
    pub strong: bool,
    pub emphasis: bool,
    pub code: bool,
    pub struck: bool,
    /// Only absolute `http`, `https` and `mailto` links are kept.
    pub link: Option<String>,
}

impl Default for RichSpan {
    fn default() -> (r: Self)
        ensures
            r.text@.len() == 0,
            !r.strong && !r.emphasis && !r.code && !r.struck,
            r.link is None,
    {
        RichSpan {
            text: String::new(),
            strong: false,
            emphasis: false,
            code: false,
            struck: false,
            link: None,
        }
    }
}

impl Clone for RichSpan {
    fn clone(&self) -> (r: Self)
        ensures
            r == *self,
    {
        RichSpan {
            text: self.text.clone(),
            strong: self.strong,
            emphasis: self.emphasis,
            code: self.code,
            struck: self.struck,
            link: clone_opt_string(&self.link),
        }
    }
}

#[derive(Debug, Clone, PartialEq, Eq)]
pub enum BlockKind {
    Paragraph(Vec<RichSpan>),
    Heading { level: u8, spans: Vec<RichSpan> },
    /// A list item. `marker` is a bullet or number, and empty for further
    /// paragraphs of the same item.
    ListItem { marker: String, depth: u8, spans: Vec<RichSpan> },
    /// Text whose spacing matters, shown in a monospace font.
    Preformatted(String),
    /// An image that is not loaded; only its description is shown.
    Image { description: String },
    Rule,
}

#[derive(Debug, Clone, PartialEq, Eq)]
pub struct RichBlock {
    pub kind: BlockKind,
    /// How deeply the block sits inside quotes.
    pub quote_depth: u8,
}

/// The readable structure of an HTML body, in reading order.
#[derive(Debug, Clone, PartialEq, Eq)]
pub struct RichBody {
    pub blocks: Vec<RichBlock>,
}

impl Default for RichBody {
    fn default() -> (r: Self)
        ensures
            r.blocks@.len() == 0,
    {
        RichBody { blocks: Vec::new() }
    }
}

/// A message body.
#[derive(Debug, Clone, PartialEq, Eq)]
pub enum MessageBody {
    PlainText(String),
    /// Structure and inline styles taken from an HTML body.
    Rich(RichBody),
}

/// The texts of the spans, one after another.
pub open spec fn spans_text(spans: Seq<RichSpan>) -> Seq<char>
    decreases spans.len(),
{
    if spans.len() == 0 {
        Seq::<char>::empty()
    } else {
        spans_text(spans.drop_last()) + spans.last().text@
    }
}

/// The one line of text a block stands for, before it is split into lines.
pub open spec fn block_line(kind: BlockKind) -> Seq<char> {
    match kind {
        BlockKind::Paragraph(spans) => spans_text(spans@),
        BlockKind::Heading { spans, .. } => spans_text(spans@),
        BlockKind::ListItem { marker, spans, .. } => if marker@.len() == 0 {
            spans_text(spans@)
        } else {
            marker@ + " "@ + spans_text(spans@)
        },
        BlockKind::Preformatted(text) => text@,
        BlockKind::Image { description } => "[Image: "@ + description@ + "]"@,
        BlockKind::Rule => "---"@,
    }
}

/// The prefix of a line that sits `depth` quotes deep.
pub open spec fn quote_prefix(depth: nat) -> Seq<char>
    decreases depth,
{
    if depth == 0 {
        Seq::<char>::empty()
    } else {
        quote_prefix((depth - 1) as nat) + "> "@
    }
}

/// Each line behind the quote prefix and followed by a line ending.
pub open spec fn quoted_lines(quote: Seq<char>, ls: Seq<Seq<char>>) -> Seq<char>
    decreases ls.len(),
{
    if ls.len() == 0 {
        Seq::<char>::empty()
    } else {
        quoted_lines(quote, ls.drop_last()) + quote + ls.last() + "\n"@
    }
}

pub open spec fn block_text(b: RichBlock) -> Seq<char> {
    quoted_lines(quote_prefix(b.quote_depth as nat), lines_of(block_line(b.kind)))
}

/// A rich body as plain text: one block per line, quotes kept as prefixes.
pub open spec fn rich_plain_text(blocks: Seq<RichBlock>) -> Seq<char>
    decreases blocks.len(),
{
    if blocks.len() == 0 {
        Seq::<char>::empty()
    } else {
        rich_plain_text(blocks.drop_last()) + block_text(blocks.last())
    }
}

pub open spec fn body_plain_text(b: MessageBody) -> Seq<char> {
    match b {
        MessageBody::PlainText(t) => t@,
        MessageBody::Rich(r) => rich_plain_text(r.blocks@),
    }
}

/// The texts of the spans, one after another.
fn join(spans: &Vec<RichSpan>) -> (r: String)
    ensures
        r@ == spans_text(spans@),
{
    let mut out = String::new();
    let mut i: usize = 0;
    while i < spans.len()
        invariant
            i <= spans.len(),
            out@ == spans_text(spans@.take(i as int)),
        decreases spans.len() - i,
    {
        out.append(spans[i].text.as_str());
        i += 1;
        assert(spans@.take(i as int).drop_last() =~= spans@.take(i - 1));
    }
    assert(spans@.take(spans.len() as int) =~= spans@);
    out
}

fn line_of(kind: &BlockKind) -> (r: String)
    ensures
        r@ == block_line(*kind),
{
    match kind {
        BlockKind::Paragraph(spans) => join(spans),
        BlockKind::Heading { spans, .. } => join(spans),
        BlockKind::ListItem { marker, spans, .. } => {
            if marker.as_str().is_empty() {
                join(spans)
            } else {
                let mut out = marker.clone();
                out.append(" ");
                let rest = join(spans);
                out.append(rest.as_str());
                out
            }
        },
        BlockKind::Preformatted(text) => text.clone(),
        BlockKind::Image { description } => {
            let mut out = "[Image: ".to_owned();
            out.append(description.as_str());
            out.append("]");
            out
        },
        BlockKind::Rule => "---".to_owned(),
    }
}

impl RichBody {
    /// The body as plain text, one block per line. Styles and links are
    /// dropped; structure is kept with markers and quote prefixes.
    pub fn plain_text(&self) -> (r: String)
        ensures
            r@ == rich_plain_text(self.blocks@),
    {
        let mut out = String::new();
        let mut i: usize = 0;
        while i < self.blocks.len()
            invariant
                i <= self.blocks.len(),
                out@ == rich_plain_text(self.blocks@.take(i as int)),
            decreases self.blocks.len() - i,
        {
            let block = &self.blocks[i];
            let line = line_of(&block.kind);
            let mut quote = String::new();
            let mut d: u8 = 0;
            while d < block.quote_depth
                invariant
                    d <= block.quote_depth,
                    quote@ == quote_prefix(d as nat),
                decreases block.quote_depth - d,
            {
                quote.append("> ");
                d += 1;
            }
            let ls = lines(&chars_of(line.as_str()));
            let ghost start = out@;
            let mut j: usize = 0;
            while j < ls.len()
                invariant
                    j <= ls.len(),
                    out@ == start + quoted_lines(quote@, crate::text::views(ls@).take(j as int)),
                decreases ls.len() - j,
            {
                out.append(quote.as_str());
                let l = string_of(&ls[j]);
                out.append(l.as_str());
                out.append("\n");
                proof {
                    let t = crate::text::views(ls@).take(j + 1);
                    assert(t.drop_last() =~= crate::text::views(ls@).take(j as int));
                    assert(t.last() == ls@[j as int]@);
                }
                j += 1;
            }
            assert(crate::text::views(ls@).take(ls.len() as int) =~= crate::text::views(ls@));
            assert(self.blocks@.take(i + 1).drop_last() =~= self.blocks@.take(i as int));
            i += 1;
        }
        assert(self.blocks@.take(self.blocks.len() as int) =~= self.blocks@);
        out
    }
}

impl MessageBody {
    /// The body as plain text, for quoting it in an answer.
    pub fn plain_text(&self) -> (r: String)
        ensures
            r@ == body_plain_text(*self),
    {
        match self {
            MessageBody::PlainText(text) => text.clone(),
            MessageBody::Rich(rich) => rich.plain_text(),
        }
    }
}


/// A file on a message, without its contents.
#[derive(Debug, Clone, PartialEq, Eq)]
pub struct MailAttachment {
    pub id: String,
    pub name: String,
    /// Size in bytes, as the server reports it.
    pub size: u64,
}

#[derive(Debug, Clone, PartialEq, Eq)]
pub struct MailMessage {
    pub id: String,
    pub sender: MailAddress,
    pub recipients: Vec<MailAddress>,
    /// Unix timestamp in seconds.
    pub time: Option<i64>,
    pub body: MessageBody,
    /// Files the message carries, without their contents.
    pub attachments: Vec<MailAttachment>,
}

/// A conversation with its messages, as shown in the reader.
#[derive(Debug, Clone, PartialEq, Eq)]
pub struct ConversationDetail {
    pub id: String,
    pub subject: Option<String>,
    pub messages: Vec<MailMessage>,
    /// Folder and label identifiers reported by Proton.
    pub labels: Vec<String>,
}

/// The labels left after recording that `label` was given (`on`) or taken.
pub open spec fn labels_after(labels: Seq<Seq<char>>, id: Seq<char>, on: bool) -> Seq<Seq<char>> {
    let kept = labels.filter(|x: Seq<char>| x != id);
    if on {
        kept.push(id)
    } else {
        kept
    }
}

impl ConversationDetail {
    /// Whether the conversation carries a label the account made.
    pub fn carries(&self, label: &Folder) -> (r: bool)
        ensures
            r == (folder_custom_id(*label) matches Some(id) && str_views(self.labels@).contains(
                id,
            )),
    {
        match label.custom_id() {
            None => false,
            Some(id) => {
                let mut i: usize = 0;
                while i < self.labels.len()
                    invariant
                        i <= self.labels.len(),
                        folder_custom_id(*label) == Some(id@),
                        forall|k: int| 0 <= k < i ==> self.labels@[k]@ != id@,
                    decreases self.labels.len() - i,
                {
                    if same_text(self.labels[i].as_str(), id) {
                        assert(str_views(self.labels@)[i as int] == id@);
                        assert(str_views(self.labels@).contains(id@));
                        return true;
                    }
                    i += 1;
                }
                proof {
                    if str_views(self.labels@).contains(id@) {
                        let k = choose|k: int|
                            0 <= k < str_views(self.labels@).len() && str_views(self.labels@)[k]
                                == id@;
                        assert(self.labels@[k]@ == id@);
                    }
                }
                false
            },
        }
    }

    /// Records a label the conversation was just given or had taken away.
    pub fn set_label(&mut self, label: &Folder, on: bool)
        ensures
            final(self).id == old(self).id,
            final(self).subject == old(self).subject,
            final(self).messages == old(self).messages,
            folder_custom_id(*label) is None ==> final(self).labels == old(self).labels,
            folder_custom_id(*label) matches Some(id) ==> str_views(final(self).labels@)
                == labels_after(str_views(old(self).labels@), id, on),
    {
        let id = match label.custom_id() {
            None => return ,
            Some(id) => id,
        };
        let ghost before = str_views(self.labels@);
        let mut kept: Vec<String> = Vec::new();
        let mut i: usize = 0;
        while i < self.labels.len()
            invariant
                i <= self.labels.len(),
                before == str_views(self.labels@),
                str_views(kept@) == before.take(i as int).filter(|x: Seq<char>| x != id@),
            decreases self.labels.len() - i,
        {
            let ghost prev = kept@;
            proof {
                reveal(Seq::filter);
                assert(before.take(i + 1).drop_last() =~= before.take(i as int));
            }
            if !same_text(self.labels[i].as_str(), id) {
                kept.push(self.labels[i].clone());
                assert(str_views(kept@) =~= str_views(prev).push(before[i as int]));
            } else {
                assert(before[i as int] == id@);
            }
            i += 1;
        }
        assert(before.take(self.labels.len() as int) =~= before);
        if on {
            let ghost prev = kept@;
            kept.push(id.to_owned());
            assert(str_views(kept@) =~= str_views(prev).push(id@));
        }
        self.labels = kept;
    }
}

#[derive(Debug, Clone)]
pub struct ConversationPage {
    pub conversations: Vec<ConversationSummary>,
    /// Total conversations in the folder, across all pages.
    pub total: u32,
}

/// The count the last entry for `f` records; `None` when none does.
pub open spec fn counts_lookup(entries: Seq<(Folder, u32)>, f: Folder) -> Option<u32>
    decreases entries.len(),
{
    if entries.len() == 0 {
        None
    } else if same_folder(entries.last().0, f) {
        Some(entries.last().1)
    } else {
        counts_lookup(entries.drop_last(), f)
    }
}

/// Unread conversation counts per folder. A missing folder means unknown.
#[derive(Debug, Clone, PartialEq, Eq)]
pub struct MailboxCounts {
    unread: Vec<(Folder, u32)>,
}

impl Default for MailboxCounts {
    fn default() -> (r: Self)
        ensures
            forall|f: Folder| r.unread_of(f) is None,
    {
        MailboxCounts { unread: Vec::new() }
    }
}

impl MailboxCounts {
    /// The count recorded for `f`, if any.
    pub closed spec fn unread_of(self, f: Folder) -> Option<u32> {
        counts_lookup(self.unread@, f)
    }

    /// Counts from folder and count pairs; a later pair for the same folder
    /// replaces an earlier one, as collecting into a map does.
    pub fn from_pairs(pairs: Vec<(Folder, u32)>) -> (r: Self)
        ensures
            forall|f: Folder| #[trigger] r.unread_of(f) == counts_lookup(pairs@, f),
    {
        MailboxCounts { unread: pairs }
    }

    pub fn unread(&self, folder: &Folder) -> (r: Option<u32>)
        ensures
            r == self.unread_of(*folder),
    {
        let mut i = self.unread.len();
        assert(self.unread@.take(i as int) =~= self.unread@);
        while i > 0
            invariant
                i <= self.unread.len(),
                counts_lookup(self.unread@, *folder) == counts_lookup(self.unread@.take(i as int), *folder),
            decreases i,
        {
            let ghost t = self.unread@.take(i as int);
            assert(t.drop_last() =~= self.unread@.take(i - 1));
            assert(t.last() == self.unread@[i - 1]);
            if self.unread[i - 1].0.equals(folder) {
                return Some(self.unread[i - 1].1);
            }
            i -= 1;
        }
        None
    }
}

/// A change applied to the selected mailbox row.
#[derive(Debug, PartialEq, Eq)]
pub enum MailAction {
    /// Relabels the row into a folder; nothing is ever deleted.
    MoveTo(Folder),
    SetUnread(bool),
    SetStarred(bool),
    /// Gives the row a label the account made, or takes it away.
    SetLabel { label: Folder, on: bool },
}

impl Clone for MailAction {
    fn clone(&self) -> (r: Self)
        ensures
            r == *self,
    {
        match self {
            MailAction::MoveTo(f) => MailAction::MoveTo(f.clone()),
            MailAction::SetUnread(b) => MailAction::SetUnread(*b),
            MailAction::SetStarred(b) => MailAction::SetStarred(*b),
            MailAction::SetLabel { label, on } => MailAction::SetLabel { label: label.clone(), on: *on },
        }
    }
}

/// Two actions are the same when they hold the same values.
pub open spec fn same_action(a: MailAction, b: MailAction) -> bool {
    match (a, b) {
        (MailAction::MoveTo(x), MailAction::MoveTo(y)) => same_folder(x, y),
        (MailAction::SetUnread(x), MailAction::SetUnread(y)) => x == y,
        (MailAction::SetStarred(x), MailAction::SetStarred(y)) => x == y,
        (MailAction::SetLabel { label: l1, on: o1 }, MailAction::SetLabel { label: l2, on: o2 }) => same_folder(l1, l2) && o1 == o2,
        _ => false,
    }
}

/// The folder a move sends the row to; `None` for flag and label changes.
pub open spec fn action_destination(a: MailAction) -> Option<Folder> {
    match a {
        MailAction::MoveTo(f) => Some(f),
        _ => None,
    }
}

impl MailAction {
    /// The folder a move sends the row to; `None` for flag changes.
    pub fn destination(&self) -> (r: Option<&Folder>)
        ensures
            r matches Some(f) ==> action_destination(*self) == Some(*f),
            r is None ==> action_destination(*self) is None,
    {
        match self {
            MailAction::MoveTo(folder) => Some(folder),
            _ => None,
        }
    }

    /// Whether the two are the same action, as `==` compares them.
    pub fn equals(&self, other: &MailAction) -> (r: bool)
        ensures
            r == same_action(*self, *other),
    {
        match (self, other) {
            (MailAction::MoveTo(x), MailAction::MoveTo(y)) => x.equals(y),
            (MailAction::SetUnread(x), MailAction::SetUnread(y)) => *x == *y,
            (MailAction::SetStarred(x), MailAction::SetStarred(y)) => *x == *y,
            (MailAction::SetLabel { label: l1, on: o1 }, MailAction::SetLabel { label: l2, on: o2 }) => l1.equals(l2) && *o1 == *o2,
            _ => false,
        }
    }
}

#[derive(Debug, Clone, Copy, PartialEq, Eq, Structural)]
pub enum MailboxError {
    Connection,
    SessionExpired,
    Service,
    Unavailable,
}

pub open spec fn mailbox_error_message(e: MailboxError) -> Seq<char> {
    match e {
        MailboxError::Connection => "Ruston Mail could not connect to Proton."@,
        MailboxError::SessionExpired => "Your Proton session has expired. Sign in again."@,
        MailboxError::Service => "Proton Mail could not load this folder. Try again later."@,
        MailboxError::Unavailable => "Ruston Mail could not load this folder. Try again."@,
    }
}

pub open spec fn conversation_error_message(e: MailboxError) -> Seq<char> {
    match e {
        MailboxError::Connection => "Ruston Mail could not connect to load this conversation."@,
        MailboxError::SessionExpired => "Your Proton session has expired. Sign in again."@,
        MailboxError::Service => "Proton Mail could not load this conversation. Try again later."@,
        MailboxError::Unavailable => "Ruston Mail could not load this conversation. Try again."@,
    }
}

pub open spec fn action_error_message(e: MailboxError) -> Seq<char> {
    match e {
        MailboxError::Connection => "Ruston Mail could not connect to update this conversation."@,
        MailboxError::SessionExpired => "Your Proton session has expired. Sign in again."@,
        MailboxError::Service => "Proton Mail could not update this conversation. Try again later."@,
        MailboxError::Unavailable => "Ruston Mail could not update this conversation. Try again."@,
    }
}

impl MailboxError {
    pub fn message(self) -> (r: &'static str)
        ensures
            r@ == mailbox_error_message(self),
    {
        match self {
            MailboxError::Connection => "Ruston Mail could not connect to Proton.",
            MailboxError::SessionExpired => "Your Proton session has expired. Sign in again.",
            MailboxError::Service => "Proton Mail could not load this folder. Try again later.",
            MailboxError::Unavailable => "Ruston Mail could not load this folder. Try again.",
        }
    }

    pub fn conversation_message(self) -> (r: &'static str)
        ensures
            r@ == conversation_error_message(self),
    {
        match self {
            MailboxError::Connection => "Ruston Mail could not connect to load this conversation.",
            MailboxError::SessionExpired => "Your Proton session has expired. Sign in again.",
            MailboxError::Service => "Proton Mail could not load this conversation. Try again later.",
            MailboxError::Unavailable => "Ruston Mail could not load this conversation. Try again.",
        }
    }

    pub fn action_message(self) -> (r: &'static str)
        ensures
            r@ == action_error_message(self),
    {
        match self {
            MailboxError::Connection => "Ruston Mail could not connect to update this conversation.",
            MailboxError::SessionExpired => "Your Proton session has expired. Sign in again.",
            MailboxError::Service => "Proton Mail could not update this conversation. Try again later.",
            MailboxError::Unavailable => "Ruston Mail could not update this conversation. Try again.",
        }
    }
}

} // verus!
