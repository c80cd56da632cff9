//! What an open mailbox holds as pages, searches, actions and the reader
//! move through it, and which asynchronous answers it still accepts.

use vstd::prelude::*;

use crate::model::{
    action_destination, folder_custom_id, folder_is_location, same_action, same_folder,
    ConversationDetail, ConversationPage, ConversationSummary, Folder, MailAction, MailFolder,
    MailboxCounts, MailboxError, SummaryKind,
};
use crate::reader::{
    after_label, after_toggle, after_toggle_quote, opened_on, reader_conversation, ConversationReader, ReaderState,
};
use crate::text::{
    contains_ignoring_case, holds_ignoring_case, is_blank, lowercase, same_text, to_lowercase,
    trim, trimmed,
};

verus! {

/// Identifies an asynchronous mailbox request. Only the answer to the
/// request in flight is applied; anything else is stale.
pub type RequestId = u64;

#[derive(Debug, Clone, PartialEq, Eq)]
pub struct PageRequest {
    pub id: RequestId,
    pub folder: Folder,
    /// Zero-based server page.
    pub page: u32,
    pub page_size: u32,
}

#[derive(Debug, PartialEq, Eq)]
pub struct ReaderRequest {
    pub id: RequestId,
    pub conversation_id: String,
    pub kind: SummaryKind,
}

impl Clone for ReaderRequest {
    fn clone(&self) -> (r: Self)
        ensures
            r == *self,
    {
        ReaderRequest { id: self.id, conversation_id: self.conversation_id.clone(), kind: self.kind }
    }
}

/// An action sent to the backend for one row, remembered so only its own
/// answer is applied.
#[derive(Debug, PartialEq, Eq)]
pub struct ActionRequest {
    pub id: RequestId,
    pub row_id: String,
    pub kind: SummaryKind,
    /// The folder the action was started from.
    pub folder: Folder,
    /// The folder Proton should read the row in; `None` for a row only a
    /// search found.
    pub context: Option<Folder>,
    pub action: MailAction,
}

fn clone_opt_folder(f: &Option<Folder>) -> (r: Option<Folder>)
    ensures
        r == *f,
{
    match f {
        Some(f) => Some(f.clone()),
        None => None,
    }
}

impl Clone for ActionRequest {
    fn clone(&self) -> (r: Self)
        ensures
            r == *self,
    {
        ActionRequest {
            id: self.id,
            row_id: self.row_id.clone(),
            kind: self.kind,
            folder: self.folder.clone(),
            context: clone_opt_folder(&self.context),
            action: self.action.clone(),
        }
    }
}

pub open spec fn same_opt_folder(a: Option<Folder>, b: Option<Folder>) -> bool {
    match (a, b) {
        (None, None) => true,
        (Some(x), Some(y)) => same_folder(x, y),
        _ => false,
    }
}

/// Two action requests are the same when all they hold is the same.
pub open spec fn same_request(a: ActionRequest, b: ActionRequest) -> bool {
    &&& a.id == b.id
    &&& a.row_id@ == b.row_id@
    &&& a.kind == b.kind
    &&& same_folder(a.folder, b.folder)
    &&& same_opt_folder(a.context, b.context)
    &&& same_action(a.action, b.action)
}

impl ActionRequest {
    pub fn equals(&self, other: &ActionRequest) -> (r: bool)
        ensures
            r == same_request(*self, *other),
    {
        let context = match (&self.context, &other.context) {
            (None, None) => true,
            (Some(x), Some(y)) => x.equals(y),
            _ => false,
        };
        self.id == other.id && same_text(self.row_id.as_str(), other.row_id.as_str())
            && self.kind == other.kind && self.folder.equals(&other.folder) && context
            && self.action.equals(&other.action)
    }
}

/// A move the user can take back: the row, and where it came from.
#[derive(Debug, PartialEq, Eq)]
pub struct UndoMove {
    pub row_id: String,
    pub kind: SummaryKind,
    /// The folder the row was moved out of, and goes back to.
    pub from: Folder,
    /// Where it was moved, which is what the offer says.
    pub to: Folder,
}

impl Clone for UndoMove {
    fn clone(&self) -> (r: Self)
        ensures
            r == *self,
    {
        UndoMove {
            row_id: self.row_id.clone(),
            kind: self.kind,
            from: self.from.clone(),
            to: self.to.clone(),
        }
    }
}

pub open spec fn same_undo(a: UndoMove, b: UndoMove) -> bool {
    a.row_id@ == b.row_id@ && a.kind == b.kind && same_folder(a.from, b.from) && same_folder(
        a.to,
        b.to,
    )
}

impl UndoMove {
    pub fn equals(&self, other: &UndoMove) -> (r: bool)
        ensures
            r == same_undo(*self, *other),
    {
        same_text(self.row_id.as_str(), other.row_id.as_str()) && self.kind == other.kind
            && self.from.equals(&other.from) && self.to.equals(&other.to)
    }
}

/// Which way the keyboard moves through the conversation list.
#[derive(Debug, Clone, Copy, PartialEq, Eq, Structural)]
pub enum Step {
    Next,
    Previous,
}

#[derive(Debug, Clone, Copy, PartialEq, Eq, Structural)]
pub enum ListStatus {
    /// First page of the selected folder in flight; nothing to show yet.
    Loading(RequestId),
    /// First page in flight while the previous list stays visible.
    Refreshing(RequestId),
    LoadingMore(RequestId),
    Loaded,
    Failed(MailboxError),
}

/// One server search: what was asked, and what came back.
#[derive(Debug)]
pub struct SearchState {
    pub query: String,
    pub rows: Vec<ConversationSummary>,
    pub next_page: u32,
    pub has_more: bool,
}

/// The loaded part of one folder while another folder is open.
#[derive(Debug)]
pub struct CachedListing {
    pub conversations: Vec<ConversationSummary>,
    pub next_page: u32,
    pub has_more: bool,
    /// A confirmed change may have affected this folder; it must be
    /// refreshed before it is cached clean.
    pub dirty: bool,
}

/// A folder's stable identity: account folders go by Proton's id, so a
/// rename does not strand a cached listing.
#[derive(Debug, Clone, PartialEq, Eq)]
pub enum FolderKey {
    System(MailFolder),
    Custom(String),
}

pub open spec fn key_of(f: Folder) -> FolderKey {
    match f {
        Folder::System(s) => FolderKey::System(s),
        Folder::Custom { id, .. } => FolderKey::Custom(id),
    }
}

pub open spec fn same_key(a: FolderKey, b: FolderKey) -> bool {
    match (a, b) {
        (FolderKey::System(x), FolderKey::System(y)) => x == y,
        (FolderKey::Custom(x), FolderKey::Custom(y)) => x@ == y@,
        _ => false,
    }
}

impl FolderKey {
    fn of(folder: &Folder) -> (r: Self)
        ensures
            r == key_of(*folder),
    {
        match folder {
            Folder::System(f) => FolderKey::System(*f),
            Folder::Custom { id, .. } => FolderKey::Custom(id.clone()),
        }
    }

    fn equals(&self, other: &FolderKey) -> (r: bool)
        ensures
            r == same_key(*self, *other),
    {
        match (self, other) {
            (FolderKey::System(x), FolderKey::System(y)) => *x == *y,
            (FolderKey::Custom(x), FolderKey::Custom(y)) => same_text(x.as_str(), y.as_str()),
            _ => false,
        }
    }
}

/// A search sent to the backend, remembered so only its own answer is applied.
#[derive(Debug, PartialEq, Eq)]
pub struct SearchRequest {
    pub id: RequestId,
    pub query: String,
    pub page: u32,
    pub page_size: u32,
}

impl Clone for SearchRequest {
    fn clone(&self) -> (r: Self)
        ensures
            r == *self,
    {
        SearchRequest { id: self.id, query: self.query.clone(), page: self.page, page_size: self.page_size }
    }
}

/// Whether a row answers a query that is already trimmed and in lower
/// case: by subject, correspondents, preview, or a participant's name or
/// address.
pub open spec fn row_matches(row: ConversationSummary, q: Seq<char>) -> bool {
    ||| q.len() == 0
    ||| (row.subject matches Some(s) && holds_ignoring_case(s@, q))
    ||| (row.correspondents matches Some(s) && holds_ignoring_case(s@, q))
    ||| (row.preview matches Some(s) && holds_ignoring_case(s@, q))
    ||| exists|i: int|
        0 <= i < row.participants@.len() && ((#[trigger] row.participants@[i]).name matches Some(n)
            && holds_ignoring_case(n@, q) || holds_ignoring_case(row.participants@[i].address@, q))
}

/// The positions of the rows that answer the query, in order.
pub open spec fn matching_positions(rows: Seq<ConversationSummary>, q: Seq<char>) -> Seq<int>
    decreases rows.len(),
{
    if rows.len() == 0 {
        Seq::<int>::empty()
    } else {
        let r = matching_positions(rows.drop_last(), q);
        if row_matches(rows.last(), q) {
            r.push(rows.len() - 1)
        } else {
            r
        }
    }
}

/// Every position of a list of `n` rows.
pub open spec fn every_position(n: nat) -> Seq<int> {
    Seq::new(n, |i: int| i)
}

/// The rows at these positions.
pub open spec fn rows_at(rows: Seq<ConversationSummary>, positions: Seq<int>) -> Seq<ConversationSummary> {
    positions.map_values(|i: int| rows[i])
}

fn matches_search(conversation: &ConversationSummary, query: &str) -> (r: bool)
    ensures
        r == row_matches(*conversation, query@),
{
    if query.is_empty() {
        return true;
    }
    if let Some(s) = &conversation.subject {
        if contains_ignoring_case(s.as_str(), query) {
            return true;
        }
    }
    if let Some(s) = &conversation.correspondents {
        if contains_ignoring_case(s.as_str(), query) {
            return true;
        }
    }
    if let Some(s) = &conversation.preview {
        if contains_ignoring_case(s.as_str(), query) {
            return true;
        }
    }
    let mut i: usize = 0;
    while i < conversation.participants.len()
        invariant
            i <= conversation.participants.len(),
            query@.len() > 0,
            !(conversation.subject matches Some(s) && holds_ignoring_case(s@, query@)),
            !(conversation.correspondents matches Some(s) && holds_ignoring_case(s@, query@)),
            !(conversation.preview matches Some(s) && holds_ignoring_case(s@, query@)),
            forall|k: int|
                0 <= k < i ==> !((#[trigger] conversation.participants@[k]).name matches Some(n)
                    && holds_ignoring_case(n@, query@) || holds_ignoring_case(
                    conversation.participants@[k].address@,
                    query@,
                )),
        decreases conversation.participants.len() - i,
    {
        let p = &conversation.participants[i];
        if let Some(n) = &p.name {
            if contains_ignoring_case(n.as_str(), query) {
                return true;
            }
        }
        if contains_ignoring_case(p.address.as_str(), query) {
            return true;
        }
        i += 1;
    }
    false
}


pub struct Mailbox {
    folder: Folder,
    status: ListStatus,
    conversations: Vec<ConversationSummary>,
    /// Positions of the visible rows in the search results or the listing.
    visible_cache: Vec<usize>,
    page_size: u32,
    next_page: u32,
    has_more: bool,
    cached_listings: Vec<(FolderKey, CachedListing)>,
    /// Whether the open listing must be revalidated before it is cached clean.
    active_dirty: bool,
    counts: Option<MailboxCounts>,
    counts_request: Option<RequestId>,
    reader: ReaderState,
    search_query: String,
    /// Results of the last server search, while they are on screen.
    search: Option<SearchState>,
    /// The search in flight, so a late answer to an abandoned one is ignored.
    search_request: Option<RequestId>,
    action_request: Option<ActionRequest>,
    action_error: Option<MailboxError>,
    /// The last move, while it can still be taken back.
    undo: Option<UndoMove>,
    /// Automatic reads in flight, by row.
    pending_reads: Vec<(String, RequestId)>,
}

/// The request an automatic read of this row is waiting on, if any: the
/// last entry for the row.
pub open spec fn pending_for(reads: Seq<(String, RequestId)>, row: Seq<char>) -> Option<RequestId>
    decreases reads.len(),
{
    if reads.len() == 0 {
        None
    } else if reads.last().0@ == row {
        Some(reads.last().1)
    } else {
        pending_for(reads.drop_last(), row)
    }
}

/// Whether any copy of a row with this id is in the list.
pub open spec fn lists(rows: Seq<ConversationSummary>, id: Seq<char>) -> bool {
    exists|i: int| 0 <= i < rows.len() && (#[trigger] rows[i]).id@ == id
}

/// Whether some copy of the row with this id is unread.
pub open spec fn unread_copy(rows: Seq<ConversationSummary>, id: Seq<char>) -> bool {
    exists|i: int| 0 <= i < rows.len() && (#[trigger] rows[i]).id@ == id && rows[i].unread
}

/// Whether some copy of a row in the list is unread.
fn has_unread_copy(rows: &Vec<ConversationSummary>, id: &str) -> (r: bool)
    ensures
        r == unread_copy(rows@, id@),
{
    let mut i: usize = 0;
    while i < rows.len()
        invariant
            i <= rows.len(),
            forall|k: int| 0 <= k < i ==> !((#[trigger] rows@[k]).id@ == id@ && rows@[k].unread),
        decreases rows.len() - i,
    {
        if rows[i].unread && same_text(rows[i].id.as_str(), id) {
            return true;
        }
        i += 1;
    }
    false
}

/// The position of the first row with this id.
pub open spec fn position_of(rows: Seq<ConversationSummary>, id: Seq<char>) -> int
    decreases rows.len(),
{
    if rows.len() == 0 {
        -1
    } else if rows[0].id@ == id {
        0
    } else {
        let p = position_of(rows.drop_first(), id);
        if p < 0 {
            -1
        } else {
            p + 1
        }
    }
}

proof fn lemma_position_of(rows: Seq<ConversationSummary>, id: Seq<char>, k: int)
    requires
        -1 <= k < rows.len(),
        k >= 0 ==> rows[k].id@ == id,
        forall|j: int| 0 <= j < rows.len() && (k < 0 || j < k) ==> (#[trigger] rows[j]).id@ != id,
    ensures
        position_of(rows, id) == k,
        lists(rows, id) == (k >= 0),
    decreases rows.len(),
{
    if rows.len() == 0 {
    } else if k == 0 {
    } else {
        let t = rows.drop_first();
        assert(rows[0].id@ != id);
        assert forall|j: int| 0 <= j < t.len() && (k - 1 < 0 || j < k - 1) implies (#[trigger] t[j]).id@ != id by {
            assert(t[j] == rows[j + 1]);
        }
        if k > 0 {
            assert(t[k - 1] == rows[k]);
            lemma_position_of(t, id, k - 1);
        } else {
            lemma_position_of(t, id, -1);
        }
        if lists(rows, id) {
            let j = choose|j: int| 0 <= j < rows.len() && (#[trigger] rows[j]).id@ == id;
            if k < 0 {
                assert(false);
            }
        }
        if k > 0 {
            assert(rows[k].id@ == id);
        }
    }
}

/// Where a row with this id first sits.
fn find_row(rows: &Vec<ConversationSummary>, id: &str) -> (r: Option<usize>)
    ensures
        r matches Some(k) ==> k < rows@.len() && rows@[k as int].id@ == id@ && position_of(rows@, id@) == k,
        r is None ==> position_of(rows@, id@) == -1,
        r is Some == lists(rows@, id@),
{
    let mut k: usize = 0;
    while k < rows.len()
        invariant
            k <= rows.len(),
            forall|j: int| 0 <= j < k ==> (#[trigger] rows@[j]).id@ != id@,
        decreases rows.len() - k,
    {
        if same_text(rows[k].id.as_str(), id) {
            proof {
                lemma_position_of(rows@, id@, k as int);
            }
            return Some(k);
        }
        k += 1;
    }
    proof {
        lemma_position_of(rows@, id@, -1);
    }
    None
}


impl Mailbox {
    pub closed spec fn folder_spec(self) -> Folder {
        self.folder
    }

    pub closed spec fn status_spec(self) -> ListStatus {
        self.status
    }

    /// The loaded rows of the open folder.
    pub closed spec fn listing(self) -> Seq<ConversationSummary> {
        self.conversations@
    }

    pub closed spec fn page_size_spec(self) -> u32 {
        self.page_size
    }

    /// The next page of the folder to ask for.
    pub closed spec fn next_page_spec(self) -> u32 {
        self.next_page
    }

    /// Whether the folder listing has another page.
    pub closed spec fn folder_has_more(self) -> bool {
        self.has_more
    }

    /// Whether search results are on screen.
    pub closed spec fn searching_spec(self) -> bool {
        self.search is Some
    }

    /// The query whose results are on screen.
    pub closed spec fn results_query(self) -> Seq<char> {
        match self.search {
            Some(s) => s.query@,
            None => Seq::<char>::empty(),
        }
    }

    /// The rows the search returned.
    pub closed spec fn results(self) -> Seq<ConversationSummary> {
        match self.search {
            Some(s) => s.rows@,
            None => Seq::<ConversationSummary>::empty(),
        }
    }

    pub closed spec fn results_next_page(self) -> u32 {
        match self.search {
            Some(s) => s.next_page,
            None => 0,
        }
    }

    pub closed spec fn results_have_more(self) -> bool {
        match self.search {
            Some(s) => s.has_more,
            None => false,
        }
    }

    pub closed spec fn search_request_spec(self) -> Option<RequestId> {
        self.search_request
    }

    /// What is typed in the search field.
    pub closed spec fn query_spec(self) -> Seq<char> {
        self.search_query@
    }

    pub closed spec fn counts_spec(self) -> Option<MailboxCounts> {
        self.counts
    }

    pub closed spec fn counts_request_spec(self) -> Option<RequestId> {
        self.counts_request
    }

    pub closed spec fn reader_spec(self) -> ReaderState {
        self.reader
    }

    pub closed spec fn action_spec(self) -> Option<ActionRequest> {
        self.action_request
    }

    pub closed spec fn action_error_spec(self) -> Option<MailboxError> {
        self.action_error
    }

    pub closed spec fn undo_spec(self) -> Option<UndoMove> {
        self.undo
    }

    pub closed spec fn reads_spec(self) -> Seq<(String, RequestId)> {
        self.pending_reads@
    }

    pub closed spec fn active_dirty_spec(self) -> bool {
        self.active_dirty
    }

    pub closed spec fn cached_listings_spec(self) -> Seq<(FolderKey, CachedListing)> {
        self.cached_listings@
    }

    /// The rows the list shows from: search results while they are on
    /// screen, the folder listing otherwise.
    pub open spec fn source(self) -> Seq<ConversationSummary> {
        if self.searching_spec() {
            self.results()
        } else {
            self.listing()
        }
    }

    /// The positions that should be on screen: every search result, or
    /// the listing narrowed by what is typed, trimmed and in lower case.
    pub open spec fn expected_visible(self) -> Seq<int> {
        if self.searching_spec() {
            every_position(self.results().len())
        } else if trimmed(self.query_spec()).len() == 0 {
            every_position(self.listing().len())
        } else {
            matching_positions(self.listing(), lowercase(trimmed(self.query_spec())))
        }
    }

    pub closed spec fn visible_positions(self) -> Seq<int> {
        self.visible_cache@.map_values(|i: usize| i as int)
    }

    /// The positions on screen are the ones that should be.
    pub open spec fn consistent(self) -> bool {
        self.visible_positions() == self.expected_visible()
    }

    /// The rows on screen.
    pub open spec fn visible_rows(self) -> Seq<ConversationSummary> {
        rows_at(self.source(), self.visible_positions())
    }

    /// The conversation the reader is about, if any.
    pub open spec fn selected_spec(self) -> Option<Seq<char>> {
        reader_conversation(self.reader_spec())
    }

    /// Opens `folder`, which is the one last read, returning the first page
    /// to fetch. Counts are fetched under `counts_request`.
    pub fn open(folder: Folder, page_size: u32, page_request: RequestId, counts_request: RequestId) -> (r: (Self, PageRequest))
        ensures
            r.0.folder_spec() == folder,
            r.0.status_spec() == ListStatus::Loading(page_request),
            r.0.listing().len() == 0,
            r.0.page_size_spec() == page_size,
            r.0.next_page_spec() == 0,
            !r.0.folder_has_more(),
            !r.0.searching_spec(),
            r.0.search_request_spec() is None,
            r.0.query_spec().len() == 0,
            r.0.counts_spec() is None,
            r.0.counts_request_spec() == Some(counts_request),
            r.0.reader_spec() is Empty,
            r.0.action_spec() is None,
            r.0.action_error_spec() is None,
            r.0.undo_spec() is None,
            r.0.reads_spec().len() == 0,
            r.0.cached_listings_spec().len() == 0,
            r.0.consistent(),
            r.1 == (PageRequest { id: page_request, folder, page: 0, page_size }),
    {
        let mailbox = Mailbox {
            folder,
            status: ListStatus::Loading(page_request),
            conversations: Vec::new(),
            visible_cache: Vec::new(),
            page_size,
            next_page: 0,
            has_more: false,
            cached_listings: Vec::new(),
            active_dirty: false,
            counts: None,
            counts_request: Some(counts_request),
            reader: ReaderState::Empty,
            search_query: String::new(),
            search: None,
            search_request: None,
            action_request: None,
            action_error: None,
            undo: None,
            pending_reads: Vec::new(),
        };
        proof {
            reveal_strlit("");
            assert(trimmed(mailbox.query_spec()) =~= Seq::<char>::empty());
            assert(mailbox.visible_positions() =~= every_position(0));
        }
        let page = mailbox.page_request(page_request, 0);
        (mailbox, page)
    }

    fn page_request(&self, id: RequestId, page: u32) -> (r: PageRequest)
        ensures
            r == (PageRequest { id, folder: self.folder, page, page_size: self.page_size }),
    {
        PageRequest { id, folder: self.folder.clone(), page, page_size: self.page_size }
    }

    pub fn folder(&self) -> (r: &Folder)
        ensures
            *r == self.folder_spec(),
    {
        &self.folder
    }

    pub fn status(&self) -> (r: ListStatus)
        ensures
            r == self.status_spec(),
    {
        self.status
    }

    /// The loaded rows of the open folder.
    pub fn conversations(&self) -> (r: &Vec<ConversationSummary>)
        ensures
            r@ == self.listing(),
    {
        &self.conversations
    }

    fn source_rows(&self) -> (r: &Vec<ConversationSummary>)
        ensures
            r@ == self.source(),
    {
        match &self.search {
            Some(search) => &search.rows,
            None => &self.conversations,
        }
    }

    /// Recomputes which rows are on screen from the search state and query.
    fn recompute_visible(&mut self)
        ensures
            final(self).consistent(),
            final(self).folder == old(self).folder,
            final(self).status == old(self).status,
            final(self).conversations == old(self).conversations,
            final(self).page_size == old(self).page_size,
            final(self).next_page == old(self).next_page,
            final(self).has_more == old(self).has_more,
            final(self).cached_listings == old(self).cached_listings,
            final(self).active_dirty == old(self).active_dirty,
            final(self).counts == old(self).counts,
            final(self).counts_request == old(self).counts_request,
            final(self).reader == old(self).reader,
            final(self).search_query == old(self).search_query,
            final(self).search == old(self).search,
            final(self).search_request == old(self).search_request,
            final(self).action_request == old(self).action_request,
            final(self).action_error == old(self).action_error,
            final(self).undo == old(self).undo,
            final(self).pending_reads == old(self).pending_reads,
    {
        let mut cache: Vec<usize> = Vec::new();
        match &self.search {
            Some(search) => {
                cache = all_positions(search.rows.len());
            },
            None => {
                let trimmed_query = trim(self.search_query.as_str());
                if trimmed_query.as_str().is_empty() {
                    cache = all_positions(self.conversations.len());
                } else {
                    let query = to_lowercase(trimmed_query.as_str());
                    let mut i: usize = 0;
                    while i < self.conversations.len()
                        invariant
                            i <= self.conversations.len(),
                            cache@.map_values(|k: usize| k as int) == matching_positions(
                                self.conversations@.take(i as int),
                                query@,
                            ),
                        decreases self.conversations.len() - i,
                    {
                        let ghost before = cache@;
                        proof {
                            assert(self.conversations@.take(i + 1).drop_last() =~= self.conversations@.take(i as int));
                            assert(self.conversations@.take(i + 1).last() == self.conversations@[i as int]);
                        }
                        if matches_search(&self.conversations[i], query.as_str()) {
                            cache.push(i);
                            assert(cache@.map_values(|k: usize| k as int) =~= before.map_values(|k: usize| k as int).push(i as int));
                        }
                        i += 1;
                    }
                    assert(self.conversations@.take(self.conversations.len() as int) =~= self.conversations@);
                }
            },
        }
        self.visible_cache = cache;
    }

    /// Number of rows on screen.
    pub fn visible_count(&self) -> (r: usize)
        ensures
            r == self.visible_positions().len(),
    {
        self.visible_cache.len()
    }

    /// Whether no rows are on screen.
    pub fn is_empty_visible(&self) -> (r: bool)
        ensures
            r == (self.visible_positions().len() == 0),
    {
        self.visible_cache.len() == 0
    }

    /// The row on screen at this position.
    pub fn visible_row(&self, index: usize) -> (r: Option<&ConversationSummary>)
        ensures
            self.consistent() ==> (r matches Some(row) ==> index < self.visible_rows().len() && *row == self.visible_rows()[index as int]),
            self.consistent() ==> (r is None ==> index >= self.visible_rows().len()),
    {
        if index >= self.visible_cache.len() {
            return None;
        }
        let k = self.visible_cache[index];
        let rows = self.source_rows();
        proof {
            if self.consistent() {
                lemma_positions_valid(*self);
                assert(self.visible_positions()[index as int] == k as int);
            }
        }
        if k < rows.len() {
            Some(&rows[k])
        } else {
            None
        }
    }

    /// The rows on screen: search results while a search is showing,
    /// otherwise the loaded folder narrowed by what is typed.
    pub fn visible_conversations(&self) -> (r: Vec<&ConversationSummary>)
        ensures
            self.consistent() ==> r@.map_values(|x: &ConversationSummary| *x) == self.visible_rows(),
    {
        let rows = self.source_rows();
        let mut out: Vec<&ConversationSummary> = Vec::new();
        let mut i: usize = 0;
        proof {
            if self.consistent() {
                lemma_positions_valid(*self);
            }
        }
        while i < self.visible_cache.len()
            invariant
                i <= self.visible_cache.len(),
                rows@ == self.source(),
                self.consistent() ==> out@.map_values(|x: &ConversationSummary| *x) == self.visible_rows().take(i as int),
                self.consistent() ==> forall|j: int| 0 <= j < self.visible_positions().len() ==> 0 <= #[trigger] self.visible_positions()[j] < self.source().len(),
            decreases self.visible_cache.len() - i,
        {
            let k = self.visible_cache[i];
            if k < rows.len() {
                let ghost before = out@;
                out.push(&rows[k]);
                proof {
                    if self.consistent() {
                        assert(self.visible_positions()[i as int] == k as int);
                        assert(out@.map_values(|x: &ConversationSummary| *x) =~= self.visible_rows().take(i + 1));
                    }
                }
            } else {
                proof {
                    if self.consistent() {
                        assert(self.visible_positions()[i as int] == k as int);
                    }
                }
            }
            i += 1;
        }
        proof {
            if self.consistent() {
                assert(self.visible_rows().take(self.visible_cache.len() as int) =~= self.visible_rows());
            }
        }
        out
    }
}


impl Mailbox {
    /// The list, search and page state agree.
    pub closed spec fn same_list(self, other: Mailbox) -> bool {
        &&& self.folder == other.folder
        &&& self.status == other.status
        &&& self.conversations == other.conversations
        &&& self.visible_cache == other.visible_cache
        &&& self.page_size == other.page_size
        &&& self.next_page == other.next_page
        &&& self.has_more == other.has_more
        &&& self.cached_listings == other.cached_listings
        &&& self.active_dirty == other.active_dirty
        &&& self.search_query == other.search_query
        &&& self.search == other.search
        &&& self.search_request == other.search_request
    }

    /// The reader pane agrees.
    pub closed spec fn same_reader(self, other: Mailbox) -> bool {
        self.reader == other.reader
    }

    /// The actions, their errors, the undo offer and automatic reads agree.
    pub closed spec fn same_actions(self, other: Mailbox) -> bool {
        &&& self.action_request == other.action_request
        &&& self.action_error == other.action_error
        &&& self.undo == other.undo
        &&& self.pending_reads == other.pending_reads
    }

    /// The folder counts agree.
    pub closed spec fn same_counts(self, other: Mailbox) -> bool {
        &&& self.counts == other.counts
        &&& self.counts_request == other.counts_request
    }

    /// Replaces what the reader pane holds.
    fn set_reader(&mut self, reader: ReaderState)
        ensures
            final(self).reader == reader,
            final(self).same_list(*old(self)),
            final(self).same_actions(*old(self)),
            final(self).same_counts(*old(self)),
    {
        self.reader = reader;
    }

    /// Closes the reader when what it holds is no longer on screen.
    fn close_reader_if_hidden(&mut self)
        requires
            old(self).consistent(),
        ensures
            ({
                let hidden = old(self).selected_spec() matches Some(id) && !lists(old(self).visible_rows(), id);
                if hidden {
                    final(self).reader is Empty
                } else {
                    final(self).same_reader(*old(self))
                }
            }),
            final(self).same_list(*old(self)),
            final(self).same_actions(*old(self)),
            final(self).same_counts(*old(self)),
    {
        let hidden = match self.reader.conversation_id() {
            None => false,
            Some(selected) => {
                let rows = self.source_rows();
                let mut found = false;
                let mut i: usize = 0;
                proof {
                    lemma_positions_valid(*self);
                }
                while i < self.visible_cache.len()
                    invariant
                        i <= self.visible_cache.len(),
                        rows@ == self.source(),
                        forall|j: int| 0 <= j < self.visible_positions().len() ==> 0 <= #[trigger] self.visible_positions()[j] < self.source().len(),
                        found == exists|j: int| 0 <= j < i && self.visible_rows()[j].id@ == selected@,
                    decreases self.visible_cache.len() - i,
                {
                    let k = self.visible_cache[i];
                    proof {
                        assert(self.visible_positions()[i as int] == k as int);
                        assert(self.visible_rows()[i as int] == self.source()[k as int]);
                    }
                    if k < rows.len() && same_text(rows[k].id.as_str(), selected) {
                        found = true;
                    }
                    i += 1;
                }
                !found
            },
        };
        if hidden {
            self.set_reader(ReaderState::Empty);
        }
    }
}


/// The rows already known, then the incoming rows whose id is not among
/// them, in the order they came.
pub open spec fn append_new(known: Seq<ConversationSummary>, incoming: Seq<ConversationSummary>) -> Seq<ConversationSummary> {
    known + incoming.filter(|r: ConversationSummary| !lists(known, r.id@))
}

/// Whether there is a page after `page` of a folder of `total` rows.
pub open spec fn more_after(received: nat, page: u32, page_size: u32, total: u32) -> bool {
    received > 0 && (page + 1) * page_size < total
}

/// `new` is `old` with the reader closed if what it held is not among
/// the rows `new` shows.
pub open spec fn closes_hidden_reader(old: Mailbox, new: Mailbox) -> bool {
    let hidden = old.selected_spec() matches Some(id) && !lists(new.visible_rows(), id);
    if hidden {
        new.reader_spec() is Empty
    } else {
        new.reader_spec() == old.reader_spec()
    }
}

fn rows_with_new(known: &Vec<ConversationSummary>, incoming: Vec<ConversationSummary>) -> (r: Vec<ConversationSummary>)
    ensures
        r@ == incoming@.filter(|x: ConversationSummary| !lists(known@, x.id@)),
{
    let ghost all = incoming@;
    let mut rest = incoming;
    let mut out: Vec<ConversationSummary> = Vec::new();
    let mut taken: usize = 0;
    assert(all.len() == rest.len());
    while rest.len() > 0
        invariant
            taken + rest.len() == all.len(),
            all.len() <= usize::MAX,
            rest@ == all.skip(taken as int),
            out@ == all.take(taken as int).filter(|x: ConversationSummary| !lists(known@, x.id@)),
        decreases rest.len(),
    {
        let row = rest.remove(0);
        proof {
            reveal(Seq::filter);
            assert(all.take(taken + 1).drop_last() =~= all.take(taken as int));
            assert(all.take(taken + 1).last() == row);
        }
        if find_row(known, row.id.as_str()).is_none() {
            out.push(row);
        }
        taken += 1;
        assert(rest@ =~= all.skip(taken as int));
    }
    assert(all.take(all.len() as int) =~= all);
    out
}

impl Mailbox {
    /// The query whose results are on screen, if any.
    pub fn search_results(&self) -> (r: Option<&str>)
        ensures
            r is Some == self.searching_spec(),
            r matches Some(q) ==> q@ == self.results_query(),
    {
        match &self.search {
            Some(search) => Some(search.query.as_str()),
            None => None,
        }
    }

    pub fn search_query(&self) -> (r: &str)
        ensures
            r@ == self.query_spec(),
    {
        self.search_query.as_str()
    }

    /// Whether anything but white space is typed in the search field.
    pub fn is_searching(&self) -> (r: bool)
        ensures
            r == (trimmed(self.query_spec()).len() > 0),
    {
        !is_blank(self.search_query.as_str())
    }

    pub fn is_busy(&self) -> (r: bool)
        ensures
            r == (self.status_spec() is Loading || self.status_spec() is Refreshing || self.status_spec() is LoadingMore),
    {
        match self.status {
            ListStatus::Loading(_) | ListStatus::Refreshing(_) | ListStatus::LoadingMore(_) => true,
            _ => false,
        }
    }

    /// Goes back to the folder listing, leaving any results behind.
    pub fn clear_search(&mut self)
        requires
            old(self).consistent(),
        ensures
            !final(self).searching_spec(),
            final(self).search_request_spec() is None,
            final(self).status_spec() == (if old(self).search_request_spec() is Some || old(self).status_spec() is Failed {
                ListStatus::Loaded
            } else {
                old(self).status_spec()
            }),
            final(self).folder_spec() == old(self).folder_spec(),
            final(self).listing() == old(self).listing(),
            final(self).query_spec() == old(self).query_spec(),
            final(self).next_page_spec() == old(self).next_page_spec(),
            final(self).folder_has_more() == old(self).folder_has_more(),
            final(self).consistent(),
            closes_hidden_reader(*old(self), *final(self)),
            final(self).same_actions(*old(self)),
            final(self).same_counts(*old(self)),
    {
        self.search = None;
        if self.search_request.is_some() {
            self.status = ListStatus::Loaded;
        }
        self.search_request = None;
        match self.status {
            ListStatus::Failed(_) => self.status = ListStatus::Loaded,
            _ => {},
        }
        self.recompute_visible();
        self.close_reader_if_hidden();
    }

    /// Types into the search field. Emptying it leaves the results behind;
    /// otherwise the listing is narrowed to the rows that match.
    pub fn set_search_query(&mut self, query: String)
        requires
            old(self).consistent(),
        ensures
            final(self).query_spec() == query@,
            trimmed(query@).len() == 0 ==> {
                &&& !final(self).searching_spec()
                &&& final(self).search_request_spec() is None
                &&& final(self).status_spec() == (if old(self).search_request_spec() is Some || old(self).status_spec() is Failed {
                    ListStatus::Loaded
                } else {
                    old(self).status_spec()
                })
            },
            trimmed(query@).len() > 0 ==> {
                &&& final(self).searching_spec() == old(self).searching_spec()
                &&& final(self).results() == old(self).results()
                &&& final(self).search_request_spec() == old(self).search_request_spec()
                &&& final(self).status_spec() == old(self).status_spec()
            },
            final(self).folder_spec() == old(self).folder_spec(),
            final(self).listing() == old(self).listing(),
            final(self).consistent(),
            closes_hidden_reader(*old(self), *final(self)),
            final(self).same_actions(*old(self)),
            final(self).same_counts(*old(self)),
    {
        self.search_query = query;
        if is_blank(self.search_query.as_str()) {
            proof {
                crate::text::lemma_trimmed_empty(self.search_query@);
            }
            self.search = None;
            if self.search_request.is_some() {
                self.status = ListStatus::Loaded;
            }
            self.search_request = None;
            match self.status {
                ListStatus::Failed(_) => self.status = ListStatus::Loaded,
                _ => {},
            }
            self.recompute_visible();
            self.close_reader_if_hidden();
        } else {
            self.recompute_visible();
            self.close_reader_if_hidden();
        }
    }

    /// Starts a server search for what is typed, or clears empty input.
    pub fn start_search(&mut self, request: RequestId) -> (r: Option<SearchRequest>)
        requires
            old(self).consistent(),
        ensures
            trimmed(old(self).query_spec()).len() == 0 ==> {
                &&& r is None
                &&& !final(self).searching_spec()
                &&& final(self).search_request_spec() is None
                &&& final(self).status_spec() == (if old(self).search_request_spec() is Some || old(self).status_spec() is Failed {
                    ListStatus::Loaded
                } else {
                    old(self).status_spec()
                })
                &&& closes_hidden_reader(*old(self), *final(self))
            },
            trimmed(old(self).query_spec()).len() > 0 ==> {
                &&& r matches Some(q) && q.id == request && q.query@ == trimmed(old(self).query_spec()) && q.page == 0 && q.page_size == old(self).page_size_spec()
                &&& final(self).search_request_spec() == Some(request)
                &&& final(self).status_spec() == ListStatus::Loading(request)
                &&& final(self).searching_spec() == old(self).searching_spec()
                &&& final(self).results() == old(self).results()
                &&& final(self).same_reader(*old(self))
            },
            final(self).folder_spec() == old(self).folder_spec(),
            final(self).listing() == old(self).listing(),
            final(self).query_spec() == old(self).query_spec(),
            final(self).consistent(),
            final(self).same_actions(*old(self)),
            final(self).same_counts(*old(self)),
    {
        let query = trim(self.search_query.as_str());
        if query.as_str().is_empty() {
            self.clear_search();
            return None;
        }
        self.search_request = Some(request);
        self.status = ListStatus::Loading(request);
        Some(SearchRequest { id: request, query, page: 0, page_size: self.page_size })
    }

    /// Asks for the next page of the results on screen, unless the list is
    /// busy or the results are complete.
    pub fn load_more_search(&mut self, request: RequestId) -> (r: Option<SearchRequest>)
        ensures
            (old(self).status_spec() is Loading || old(self).status_spec() is Refreshing || old(self).status_spec() is LoadingMore || !old(self).searching_spec() || !old(self).results_have_more()) ==> {
                &&& r is None
                &&& *final(self) == *old(self)
            },
            !(old(self).status_spec() is Loading || old(self).status_spec() is Refreshing || old(self).status_spec() is LoadingMore || !old(self).searching_spec() || !old(self).results_have_more()) ==> {
                &&& r matches Some(q) && q.id == request && q.query@ == old(self).results_query() && q.page == old(self).results_next_page() && q.page_size == old(self).page_size_spec()
                &&& final(self).search_request_spec() == Some(request)
                &&& final(self).status_spec() == ListStatus::LoadingMore(request)
                &&& final(self).results() == old(self).results()
                &&& final(self).searching_spec()
                &&& final(self).folder_spec() == old(self).folder_spec()
                &&& final(self).listing() == old(self).listing()
                &&& (old(self).consistent() ==> final(self).consistent())
                &&& final(self).same_reader(*old(self))
                &&& final(self).same_actions(*old(self))
                &&& final(self).same_counts(*old(self))
            },
    {
        if self.is_busy() {
            return None;
        }
        let next = match &self.search {
            Some(search) => {
                if !search.has_more {
                    return None;
                }
                SearchRequest {
                    id: request,
                    query: search.query.clone(),
                    page: search.next_page,
                    page_size: self.page_size,
                }
            },
            None => return None,
        };
        self.search_request = Some(request);
        self.status = ListStatus::LoadingMore(request);
        Some(next)
    }

    /// Applies the answer to the search still in flight; anything else is
    /// a leftover from a query the user has moved on from.
    pub fn finish_search(&mut self, request: &SearchRequest, result: Result<ConversationPage, MailboxError>) -> (r: Option<MailboxError>)
        requires
            old(self).consistent(),
            old(self).search_request_spec() == Some(request.id) && request.page > 0 ==> old(self).searching_spec(),
        ensures
            old(self).search_request_spec() != Some(request.id) ==> r is None && *final(self) == *old(self),
            old(self).search_request_spec() == Some(request.id) ==> {
                &&& final(self).search_request_spec() is None
                &&& match result {
                    Ok(page) => {
                        &&& r is None
                        &&& final(self).status_spec() == ListStatus::Loaded
                        &&& final(self).searching_spec()
                        &&& final(self).results_have_more() == more_after(page.conversations@.len(), request.page, request.page_size, page.total)
                        &&& if request.page > 0 {
                            &&& final(self).results() == append_new(old(self).results(), page.conversations@)
                            &&& final(self).results_next_page() == (if request.page < u32::MAX { (request.page + 1) as u32 } else { u32::MAX })
                            &&& final(self).results_query() == old(self).results_query()
                            &&& final(self).same_reader(*old(self))
                        } else {
                            &&& final(self).results() == page.conversations@
                            &&& final(self).results_next_page() == 1
                            &&& final(self).results_query() == request.query@
                            &&& closes_hidden_reader(*old(self), *final(self))
                        }
                    },
                    Err(e) => {
                        &&& r == Some(e)
                        &&& final(self).status_spec() == ListStatus::Failed(e)
                        &&& final(self).searching_spec() == old(self).searching_spec()
                        &&& final(self).results() == old(self).results()
                        &&& final(self).same_reader(*old(self))
                    },
                }
                &&& final(self).folder_spec() == old(self).folder_spec()
                &&& final(self).listing() == old(self).listing()
                &&& final(self).query_spec() == old(self).query_spec()
                &&& final(self).consistent()
                &&& final(self).same_actions(*old(self))
                &&& final(self).same_counts(*old(self))
            },
    {
        if self.search_request != Some(request.id) {
            return None;
        }
        self.search_request = None;
        match result {
            Ok(page) => {
                let total = page.total;
                let received = page.conversations.len();
                proof {
                    lemma_page_product(request.page, request.page_size);
                }
                let has_more = received > 0 && (request.page as u64 + 1) * (request.page_size as u64) < total as u64;
                if request.page > 0 {
                    let mut search = match self.search.take() {
                        Some(s) => s,
                        None => return None,
                    };
                    let new = rows_with_new(&search.rows, page.conversations);
                    let mut new = new;
                    search.rows.append(&mut new);
                    search.next_page = if request.page < u32::MAX { request.page + 1 } else { u32::MAX };
                    search.has_more = has_more;
                    self.search = Some(search);
                    self.recompute_visible();
                } else {
                    self.search = Some(SearchState {
                        query: request.query.clone(),
                        rows: page.conversations,
                        next_page: 1,
                        has_more,
                    });
                    self.recompute_visible();
                    self.close_reader_if_hidden();
                }
                self.status = ListStatus::Loaded;
                None
            },
            Err(error) => {
                self.status = ListStatus::Failed(error);
                Some(error)
            },
        }
    }
}

proof fn lemma_page_product(page: u32, size: u32)
    ensures
        (page as int + 1) * (size as int) <= u64::MAX,
{
    assert((page as int + 1) * (size as int) <= 0x1_0000_0000 * 0xffff_ffff) by (nonlinear_arith)
        requires
            page as int + 1 <= 0x1_0000_0000,
            size as int <= 0xffff_ffff,
            0 <= size,
    ;
}

/// Every position of a list of `n` rows, in order.
fn all_positions(n: usize) -> (r: Vec<usize>)
    ensures
        r@.map_values(|k: usize| k as int) == every_position(n as nat),
{
    let mut cache: Vec<usize> = Vec::new();
    let mut i: usize = 0;
    while i < n
        invariant
            i <= n,
            cache@.len() == i,
            forall|j: int| 0 <= j < i ==> cache@[j] == j,
        decreases n - i,
    {
        cache.push(i);
        i += 1;
    }
    assert(cache@.map_values(|k: usize| k as int) =~= every_position(n as nat));
    cache
}

/// Positions that should be on screen are positions of real rows.
proof fn lemma_positions_valid(m: Mailbox)
    requires
        m.consistent(),
    ensures
        m.visible_positions().len() == m.expected_visible().len(),
        forall|j: int| 0 <= j < m.visible_positions().len() ==> 0 <= #[trigger] m.visible_positions()[j] < m.source().len(),
        m.visible_rows().len() == m.visible_positions().len(),
{
    if !m.searching_spec() && trimmed(m.query_spec()).len() != 0 {
        lemma_matching_valid(m.listing(), lowercase(trimmed(m.query_spec())));
    }
}

proof fn lemma_matching_valid(rows: Seq<ConversationSummary>, q: Seq<char>)
    ensures
        forall|j: int| 0 <= j < matching_positions(rows, q).len() ==> 0 <= #[trigger] matching_positions(rows, q)[j] < rows.len(),
        matching_positions(rows, q).len() <= rows.len(),
    decreases rows.len(),
{
    if rows.len() > 0 {
        lemma_matching_valid(rows.drop_last(), q);
    }
}


/// The first row with this id, if the list holds one.
pub open spec fn first_with(rows: Seq<ConversationSummary>, id: Seq<char>) -> Option<ConversationSummary> {
    if lists(rows, id) {
        Some(rows[position_of(rows, id)])
    } else {
        None
    }
}

/// The position the keyboard moves to from the selected row among `rows`:
/// the first row when nothing on screen is open, `None` before the first.
pub open spec fn step_target(rows: Seq<ConversationSummary>, selected: Option<Seq<char>>, step: Step) -> Option<int> {
    match selected {
        Some(id) => if lists(rows, id) {
            let p = position_of(rows, id);
            match step {
                Step::Next => Some(p + 1),
                Step::Previous => if p == 0 {
                    None
                } else {
                    Some(p - 1)
                },
            }
        } else {
            Some(0)
        },
        None => Some(0),
    }
}

impl Mailbox {
    /// Whether a page, search page or refresh is in flight.
    pub open spec fn busy(self) -> bool {
        self.status_spec() is Loading || self.status_spec() is Refreshing
            || self.status_spec() is LoadingMore
    }

    /// The row with this id that actions reach: the folder listing's copy,
    /// or else the search results' copy.
    pub open spec fn row_spec(self, id: Seq<char>) -> Option<ConversationSummary> {
        match first_with(self.listing(), id) {
            Some(r) => Some(r),
            None => first_with(self.results(), id),
        }
    }

    pub fn counts(&self) -> (r: Option<&MailboxCounts>)
        ensures
            r matches Some(c) ==> self.counts_spec() == Some(*c),
            r is None ==> self.counts_spec() is None,
    {
        match &self.counts {
            Some(c) => Some(c),
            None => None,
        }
    }

    /// Whether the search results, or else the folder listing, have
    /// another page.
    pub fn has_more(&self) -> (r: bool)
        ensures
            r == if self.searching_spec() {
                self.results_have_more()
            } else {
                self.folder_has_more()
            },
    {
        match &self.search {
            Some(search) => search.has_more,
            None => self.has_more,
        }
    }

    /// Whether the rows on screen hold this one, hidden by typing or not.
    pub fn has_row(&self, row_id: &str) -> (r: bool)
        ensures
            r == lists(self.source(), row_id@),
    {
        find_row(self.source_rows(), row_id).is_some()
    }

    /// How many conversations the folder listing holds.
    pub fn loaded_count(&self) -> (r: usize)
        ensures
            r == self.listing().len(),
    {
        self.conversations.len()
    }

    pub fn selected_conversation(&self) -> (r: Option<&str>)
        ensures
            r matches Some(s) ==> self.selected_spec() == Some(s@),
            r is None ==> self.selected_spec() is None,
    {
        self.reader.conversation_id()
    }

    /// The row with this id, from the folder listing or the search results.
    fn row(&self, row_id: &str) -> (r: Option<&ConversationSummary>)
        ensures
            r matches Some(x) ==> self.row_spec(row_id@) == Some(*x),
            r is None ==> self.row_spec(row_id@) is None,
    {
        match find_row(&self.conversations, row_id) {
            Some(k) => Some(&self.conversations[k]),
            None => match &self.search {
                Some(search) => match find_row(&search.rows, row_id) {
                    Some(k) => Some(&search.rows[k]),
                    None => None,
                },
                None => None,
            },
        }
    }

    /// The row the reader is about.
    pub fn selected_summary(&self) -> (r: Option<&ConversationSummary>)
        ensures
            self.selected_spec() is None ==> r is None,
            self.selected_spec() matches Some(id) ==> (r matches Some(x) ==> self.row_spec(id) == Some(*x))
                && (r is None ==> self.row_spec(id) is None),
    {
        match self.reader.conversation_id() {
            Some(selected) => self.row(selected),
            None => None,
        }
    }

    /// Whether the folder listing itself holds this row, which is what
    /// lets the row be read in the open folder.
    fn listed_in_folder(&self, row_id: &str) -> (r: bool)
        ensures
            r == lists(self.listing(), row_id@),
    {
        find_row(&self.conversations, row_id).is_some()
    }

    /// The loaded reader, if the reader pane holds one.
    pub fn reader(&self) -> (r: Option<&ConversationReader>)
        ensures
            r matches Some(x) ==> self.reader_spec() == ReaderState::Loaded(*x),
            r is None ==> !(self.reader_spec() is Loaded),
    {
        match &self.reader {
            ReaderState::Loaded(reader) => Some(reader),
            _ => None,
        }
    }

    pub fn reader_state(&self) -> (r: &ReaderState)
        ensures
            *r == self.reader_spec(),
    {
        &self.reader
    }

    pub fn action_pending(&self) -> (r: bool)
        ensures
            r == self.action_spec() is Some,
    {
        self.action_request.is_some()
    }

    pub fn action_error(&self) -> (r: Option<MailboxError>)
        ensures
            r == self.action_error_spec(),
    {
        self.action_error
    }

    /// Whether a periodic refresh may start: nothing loading, no action and
    /// no automatic read in flight.
    pub fn auto_refresh_available(&self) -> (r: bool)
        ensures
            r == (!self.busy() && self.action_spec() is None && self.reads_spec().len() == 0),
    {
        !self.is_busy() && self.action_request.is_none() && self.pending_reads.len() == 0
    }

    /// Whether the open listing must be loaded again before it can be
    /// trusted, and nothing is loading now.
    pub fn needs_revalidation(&self) -> (r: bool)
        ensures
            r == (self.active_dirty_spec() && !self.busy()),
    {
        self.active_dirty && !self.is_busy()
    }

    /// Where a row with this id first sits among the rows on screen.
    fn visible_index(&self, row_id: &str) -> (r: Option<usize>)
        requires
            self.consistent(),
        ensures
            r matches Some(k) ==> k < self.visible_rows().len() && position_of(self.visible_rows(), row_id@) == k
                && self.visible_rows()[k as int].id@ == row_id@,
            r is None ==> !lists(self.visible_rows(), row_id@),
            r is Some == lists(self.visible_rows(), row_id@),
    {
        let rows = self.source_rows();
        proof {
            lemma_positions_valid(*self);
        }
        let mut i: usize = 0;
        while i < self.visible_cache.len()
            invariant
                i <= self.visible_cache.len(),
                rows@ == self.source(),
                self.visible_rows().len() == self.visible_positions().len(),
                self.visible_positions().len() == self.visible_cache@.len(),
                forall|j: int| 0 <= j < self.visible_positions().len() ==> 0 <= #[trigger] self.visible_positions()[j] < self.source().len(),
                forall|j: int| 0 <= j < i ==> (#[trigger] self.visible_rows()[j]).id@ != row_id@,
            decreases self.visible_cache.len() - i,
        {
            let k = self.visible_cache[i];
            proof {
                assert(self.visible_positions()[i as int] == k as int);
                assert(self.visible_rows()[i as int] == self.source()[k as int]);
            }
            if k < rows.len() && same_text(rows[k].id.as_str(), row_id) {
                proof {
                    lemma_position_of(self.visible_rows(), row_id@, i as int);
                }
                return Some(i);
            }
            i += 1;
        }
        proof {
            lemma_position_of(self.visible_rows(), row_id@, -1);
        }
        None
    }

    /// The visible row one step away from the selected one, or the first
    /// visible row when nothing on screen is open. `None` at either end.
    pub fn neighbour(&self, step: Step) -> (r: Option<String>)
        requires
            self.consistent(),
        ensures
            ({
                let rows = self.visible_rows();
                match step_target(rows, self.selected_spec(), step) {
                    Some(i) => if 0 <= i < rows.len() {
                        r matches Some(s) && s@ == rows[i].id@
                    } else {
                        r is None
                    },
                    None => r is None,
                }
            }),
    {
        proof {
            lemma_positions_valid(*self);
        }
        let current = match self.reader.conversation_id() {
            Some(selected) => self.visible_index(selected),
            None => None,
        };
        let shown = self.visible_cache.len();
        let index = match current {
            None => 0,
            Some(i) => match step {
                Step::Next => {
                    if i >= shown {
                        return None;
                    }
                    i + 1
                },
                Step::Previous => {
                    if i == 0 {
                        return None;
                    }
                    i - 1
                },
            },
        };
        match self.visible_row(index) {
            Some(row) => Some(row.id.clone()),
            None => None,
        }
    }

    /// Closes the reader without touching the list, as Escape does.
    pub fn close_reader(&mut self)
        ensures
            final(self).reader_spec() is Empty,
            final(self).same_list(*old(self)),
            final(self).same_actions(*old(self)),
            final(self).same_counts(*old(self)),
    {
        self.set_reader(ReaderState::Empty);
    }

    /// Where a row sits among the visible ones: its position and the last
    /// position. `None` when it is not visible or is the only row.
    pub fn visible_place(&self, row_id: &str) -> (r: Option<(usize, usize)>)
        requires
            self.consistent(),
        ensures
            ({
                let rows = self.visible_rows();
                if rows.len() >= 2 && lists(rows, row_id@) {
                    r == Some((position_of(rows, row_id@) as usize, (rows.len() - 1) as usize))
                } else {
                    r is None
                }
            }),
    {
        proof {
            lemma_positions_valid(*self);
        }
        if self.visible_cache.len() < 2 {
            return None;
        }
        let last = self.visible_cache.len() - 1;
        match self.visible_index(row_id) {
            Some(index) => Some((index, last)),
            None => None,
        }
    }
}


impl Mailbox {
    /// Everything but the reader pane and the action error is as it was.
    pub closed spec fn same_but_reader(self, other: Mailbox) -> bool {
        &&& self.same_list(other)
        &&& self.same_counts(other)
        &&& self.action_request == other.action_request
        &&& self.undo == other.undo
        &&& self.pending_reads == other.pending_reads
    }

    /// Loads a visible conversation; reselecting a failed one retries it,
    /// and reselecting one that is loading or open changes nothing.
    pub fn start_conversation_load(&mut self, conversation_id: String, request: RequestId) -> (r: Option<ReaderRequest>)
        requires
            old(self).consistent(),
        ensures
            ({
                let rows = old(self).visible_rows();
                let id = conversation_id@;
                let reselecting = old(self).selected_spec() == Some(id) && !(old(self).reader_spec() is Failed);
                if reselecting || !lists(rows, id) {
                    r is None && *final(self) == *old(self)
                } else {
                    let kind = rows[position_of(rows, id)].kind;
                    &&& r == Some(ReaderRequest { id: request, conversation_id, kind })
                    &&& final(self).reader_spec() == (ReaderState::Loading { conversation_id, request })
                    &&& final(self).action_error_spec() is None
                    &&& final(self).same_but_reader(*old(self))
                }
            }),
            final(self).consistent(),
    {
        let reselecting = match self.reader.conversation_id() {
            Some(selected) => same_text(selected, conversation_id.as_str()),
            None => false,
        };
        let failed = match &self.reader {
            ReaderState::Failed { .. } => true,
            _ => false,
        };
        if reselecting && !failed {
            return None;
        }
        let kind = match self.visible_index(conversation_id.as_str()) {
            Some(k) => {
                let rows = self.visible_conversations();
                rows[k].kind
            },
            None => return None,
        };
        self.action_error = None;
        Some(self.open_conversation(conversation_id, kind, request))
    }

    /// Asks again for the conversation that failed to load. It reaches the
    /// row even while typing hides it.
    pub fn retry_conversation(&mut self, request: RequestId) -> (r: Option<ReaderRequest>)
        ensures
            match old(self).reader_spec() {
                ReaderState::Failed { conversation_id, .. } => match old(self).row_spec(conversation_id@) {
                    Some(row) => {
                        &&& r == Some(ReaderRequest { id: request, conversation_id, kind: row.kind })
                        &&& final(self).reader_spec() == (ReaderState::Loading { conversation_id, request })
                        &&& final(self).action_error_spec() == old(self).action_error_spec()
                        &&& final(self).same_but_reader(*old(self))
                    },
                    None => r is None && *final(self) == *old(self),
                },
                _ => r is None && *final(self) == *old(self),
            },
    {
        let conversation_id = match &self.reader {
            ReaderState::Failed { conversation_id, .. } => conversation_id.clone(),
            _ => return None,
        };
        let kind = match self.row(conversation_id.as_str()) {
            Some(row) => row.kind,
            None => return None,
        };
        Some(self.open_conversation(conversation_id, kind, request))
    }

    /// Sets the reader to wait for this conversation under `request`.
    fn open_conversation(&mut self, conversation_id: String, kind: SummaryKind, request: RequestId) -> (r: ReaderRequest)
        ensures
            r == (ReaderRequest { id: request, conversation_id, kind }),
            final(self).reader == (ReaderState::Loading { conversation_id, request }),
            final(self).same_list(*old(self)),
            final(self).same_actions(*old(self)),
            final(self).same_counts(*old(self)),
    {
        let id = conversation_id.clone();
        self.set_reader(ReaderState::Loading { conversation_id: id, request });
        ReaderRequest { id: request, conversation_id, kind }
    }

    /// Applies only the answer to the reader's own request. A detail of
    /// another conversation is refused, and the reader shows the failure.
    pub fn finish_conversation(&mut self, request: &ReaderRequest, result: Result<ConversationDetail, MailboxError>) -> (r: Option<MailboxError>)
        requires
            old(self).consistent(),
        ensures
            ({
                let accepted = old(self).reader_spec() matches ReaderState::Loading { conversation_id, request: current }
                    && conversation_id@ == request.conversation_id@ && current == request.id;
                if !accepted {
                    r is None && *final(self) == *old(self)
                } else {
                    &&& final(self).action_error_spec() == old(self).action_error_spec()
                    &&& final(self).same_but_reader(*old(self))
                    &&& match result {
                        Ok(detail) => if detail.id@ == request.conversation_id@ {
                            &&& r is None
                            &&& final(self).reader_spec() matches ReaderState::Loaded(reader) && opened_on(reader, detail)
                        } else {
                            &&& r == Some(MailboxError::Unavailable)
                            &&& final(self).reader_spec() == (ReaderState::Failed { conversation_id: request.conversation_id, error: MailboxError::Unavailable })
                        },
                        Err(e) => {
                            &&& r == Some(e)
                            &&& final(self).reader_spec() == (ReaderState::Failed { conversation_id: request.conversation_id, error: e })
                        },
                    }
                }
            }),
            final(self).consistent(),
    {
        let accepted = match &self.reader {
            ReaderState::Loading { conversation_id, request: current } => same_text(
                conversation_id.as_str(),
                request.conversation_id.as_str(),
            ) && *current == request.id,
            _ => false,
        };
        if !accepted {
            return None;
        }
        match result {
            Ok(detail) => {
                if same_text(detail.id.as_str(), request.conversation_id.as_str()) {
                    self.set_reader(ReaderState::Loaded(ConversationReader::new(detail)));
                    None
                } else {
                    let error = MailboxError::Unavailable;
                    self.set_reader(ReaderState::Failed { conversation_id: request.conversation_id.clone(), error });
                    Some(error)
                }
            },
            Err(error) => {
                self.set_reader(ReaderState::Failed { conversation_id: request.conversation_id.clone(), error });
                Some(error)
            },
        }
    }

    /// Folds or unfolds one message of the open conversation.
    pub fn toggle_message(&mut self, message_id: &str)
        ensures
            match old(self).reader_spec() {
                ReaderState::Loaded(before) => final(self).reader_spec() matches ReaderState::Loaded(after)
                    && after_toggle(before, after, message_id@),
                _ => final(self).reader_spec() == old(self).reader_spec(),
            },
            final(self).action_error_spec() == old(self).action_error_spec(),
            final(self).same_but_reader(*old(self)),
    {
        match &mut self.reader {
            ReaderState::Loaded(reader) => reader.toggle(message_id),
            _ => {},
        }
    }

    /// Folds or unfolds one quoted passage of the open conversation.
    pub fn toggle_quote(&mut self, message_id: &str, index: usize)
        ensures
            match old(self).reader_spec() {
                ReaderState::Loaded(before) => final(self).reader_spec() matches ReaderState::Loaded(after)
                    && after_toggle_quote(before, after, message_id@, index),
                _ => final(self).reader_spec() == old(self).reader_spec(),
            },
            final(self).action_error_spec() == old(self).action_error_spec(),
            final(self).same_but_reader(*old(self)),
    {
        match &mut self.reader {
            ReaderState::Loaded(reader) => reader.toggle_quote(message_id, index),
            _ => {},
        }
    }
}


/// A row after a confirmed action: reads and stars change the row, moves
/// and labels leave what the list shows of it as it was.
pub open spec fn updated(row: ConversationSummary, action: MailAction) -> ConversationSummary {
    match action {
        MailAction::SetUnread(u) => ConversationSummary { unread: u, ..row },
        MailAction::SetStarred(s) => ConversationSummary { starred: s, ..row },
        _ => row,
    }
}

/// Every copy of the row with this id, after a confirmed action.
pub open spec fn apply_to_copies(rows: Seq<ConversationSummary>, id: Seq<char>, action: MailAction) -> Seq<ConversationSummary> {
    rows.map_values(|r: ConversationSummary| if r.id@ == id { updated(r, action) } else { r })
}

/// The rows without any of this id.
pub open spec fn without_id(rows: Seq<ConversationSummary>, id: Seq<char>) -> Seq<ConversationSummary> {
    rows.filter(|r: ConversationSummary| r.id@ != id)
}

/// The automatic reads in flight without any for this row.
pub open spec fn reads_without(reads: Seq<(String, RequestId)>, id: Seq<char>) -> Seq<(String, RequestId)> {
    reads.filter(|e: (String, RequestId)| e.0@ != id)
}

/// Every cached listing marked as needing a reload.
pub open spec fn all_dirty(c: Seq<(FolderKey, CachedListing)>) -> Seq<(FolderKey, CachedListing)> {
    c.map_values(|e: (FolderKey, CachedListing)| (e.0, CachedListing { dirty: true, ..e.1 }))
}

/// What a search looks at in a row is untouched by a confirmed action.
proof fn lemma_copies_match(rows: Seq<ConversationSummary>, id: Seq<char>, action: MailAction, q: Seq<char>)
    ensures
        matching_positions(apply_to_copies(rows, id, action), q) == matching_positions(rows, q),
        apply_to_copies(rows, id, action).len() == rows.len(),
    decreases rows.len(),
{
    let a = apply_to_copies(rows, id, action);
    if rows.len() > 0 {
        assert(a.drop_last() =~= apply_to_copies(rows.drop_last(), id, action));
        lemma_copies_match(rows.drop_last(), id, action, q);
        let last = rows.last();
        assert(a.last() == (if last.id@ == id { updated(last, action) } else { last }));
        assert(row_matches(a.last(), q) == row_matches(last, q)) by {
            assert(a.last().participants == last.participants);
        }
    }
}

/// Applies a confirmed action to every copy of a row in the list, and
/// tells whether there was one.
fn update_copies(rows: &mut Vec<ConversationSummary>, id: &str, action: &MailAction) -> (found: bool)
    ensures
        final(rows)@ == apply_to_copies(old(rows)@, id@, *action),
        found == lists(old(rows)@, id@),
{
    let ghost start = rows@;
    let mut found = false;
    let mut i: usize = 0;
    while i < rows.len()
        invariant
            i <= rows.len(),
            rows@.len() == start.len(),
            forall|k: int| 0 <= k < i ==> rows@[k] == (if start[k].id@ == id@ { updated(start[k], *action) } else { start[k] }),
            forall|k: int| i <= k < rows@.len() ==> rows@[k] == start[k],
            found == exists|k: int| 0 <= k < i && (#[trigger] start[k]).id@ == id@,
        decreases rows.len() - i,
    {
        if same_text(rows[i].id.as_str(), id) {
            found = true;
            match action {
                MailAction::SetUnread(u) => rows[i].unread = *u,
                MailAction::SetStarred(s) => rows[i].starred = *s,
                _ => {},
            }
        }
        i += 1;
    }
    assert(rows@ =~= apply_to_copies(start, id@, *action));
    found
}

/// Takes every row of this id out of the list.
fn drop_rows(rows: &mut Vec<ConversationSummary>, id: &str)
    ensures
        final(rows)@ == without_id(old(rows)@, id@),
{
    let mut rest: Vec<ConversationSummary> = Vec::new();
    std::mem::swap(rows, &mut rest);
    let ghost all = rest@;
    let mut taken: usize = 0;
    assert(all.len() == rest.len());
    while rest.len() > 0
        invariant
            taken + rest.len() == all.len(),
            all.len() <= usize::MAX,
            rest@ == all.skip(taken as int),
            rows@ == without_id(all.take(taken as int), id@),
        decreases rest.len(),
    {
        let row = rest.remove(0);
        proof {
            reveal(Seq::filter);
            assert(all.take(taken + 1).drop_last() =~= all.take(taken as int));
            assert(all.take(taken + 1).last() == row);
        }
        if !same_text(row.id.as_str(), id) {
            rows.push(row);
        }
        taken += 1;
        assert(rest@ =~= all.skip(taken as int));
    }
    assert(all.take(all.len() as int) =~= all);
}

/// Takes every automatic read of this row out of the list.
fn drop_reads(reads: &mut Vec<(String, RequestId)>, id: &str)
    ensures
        final(reads)@ == reads_without(old(reads)@, id@),
{
    let mut rest: Vec<(String, RequestId)> = Vec::new();
    std::mem::swap(reads, &mut rest);
    let ghost all = rest@;
    let mut taken: usize = 0;
    assert(all.len() == rest.len());
    while rest.len() > 0
        invariant
            taken + rest.len() == all.len(),
            all.len() <= usize::MAX,
            rest@ == all.skip(taken as int),
            reads@ == reads_without(all.take(taken as int), id@),
        decreases rest.len(),
    {
        let entry = rest.remove(0);
        proof {
            reveal(Seq::filter);
            assert(all.take(taken + 1).drop_last() =~= all.take(taken as int));
            assert(all.take(taken + 1).last() == entry);
        }
        if !same_text(entry.0.as_str(), id) {
            reads.push(entry);
        }
        taken += 1;
        assert(rest@ =~= all.skip(taken as int));
    }
    assert(all.take(all.len() as int) =~= all);
}

/// The automatic read of this row in flight, if any.
fn read_in_flight(reads: &Vec<(String, RequestId)>, id: &str) -> (r: Option<RequestId>)
    ensures
        r == pending_for(reads@, id@),
{
    let mut i: usize = reads.len();
    assert(reads@.take(i as int) =~= reads@);
    while i > 0
        invariant
            i <= reads.len(),
            pending_for(reads@, id@) == pending_for(reads@.take(i as int), id@),
        decreases i,
    {
        let ghost t = reads@.take(i as int);
        assert(t.drop_last() =~= reads@.take(i - 1));
        if same_text(reads[i - 1].0.as_str(), id) {
            return Some(reads[i - 1].1);
        }
        i -= 1;
    }
    assert(reads@.take(0) =~= Seq::<(String, RequestId)>::empty());
    None
}


/// Whether a confirmed action takes the row out of what `folder` shows.
pub open spec fn leaves(folder: Folder, action: MailAction) -> bool {
    match action {
        MailAction::SetStarred(s) => !s && folder == Folder::System(MailFolder::Starred),
        MailAction::SetLabel { label, on } => !on && same_folder(label, folder),
        MailAction::SetUnread(_) => false,
        MailAction::MoveTo(to) => !same_folder(to, folder),
    }
}

/// The offer to take a move back: made only for a move out of a real
/// folder the row is listed in, to somewhere else.
pub open spec fn undo_offered(u: Option<UndoMove>, folder: Folder, listing: Seq<ConversationSummary>, row_id: Seq<char>, kind: SummaryKind, action: MailAction) -> bool {
    match action_destination(action) {
        Some(to) => if folder_is_location(folder) && lists(listing, row_id) && !same_folder(to, folder) {
            u matches Some(m) && m.row_id@ == row_id && m.kind == kind && m.from == folder && m.to == to
        } else {
            u is None
        },
        None => u is None,
    }
}

/// The id of the row that takes the place of the one at `index` once it
/// left `rows`: the one now there, or the last one.
pub open spec fn row_after(rows: Seq<ConversationSummary>, index: int) -> Option<Seq<char>> {
    if rows.len() == 0 {
        None
    } else if index < rows.len() {
        Some(rows[index].id@)
    } else {
        Some(rows.last().id@)
    }
}

/// `r` names the row `id` stands for.
pub open spec fn names(r: Option<String>, id: Option<Seq<char>>) -> bool {
    match r {
        Some(s) => id == Some(s@),
        None => id is None,
    }
}

/// The request an action on this row starts with.
pub open spec fn action_request_for(m: Mailbox, id: RequestId, row_id: String, kind: SummaryKind, action: MailAction) -> ActionRequest {
    ActionRequest {
        id,
        row_id,
        kind,
        folder: m.folder_spec(),
        context: if lists(m.listing(), row_id@) {
            Some(m.folder_spec())
        } else {
            None
        },
        action,
    }
}

impl Mailbox {
    /// Where the list stands: folder, paging, the search field, and which
    /// results are on screen, though not their rows.
    pub closed spec fn same_place(self, other: Mailbox) -> bool {
        &&& self.folder == other.folder
        &&& self.status == other.status
        &&& self.page_size == other.page_size
        &&& self.next_page == other.next_page
        &&& self.has_more == other.has_more
        &&& self.search_query == other.search_query
        &&& self.search_request == other.search_request
        &&& self.searching_spec() == other.searching_spec()
        &&& self.results_query() == other.results_query()
        &&& self.results_next_page() == other.results_next_page()
        &&& self.results_have_more() == other.results_have_more()
    }

    /// Marks every cached listing as needing a reload.
    pub fn invalidate_cached_listings(&mut self)
        ensures
            final(self).cached_listings_spec() == all_dirty(old(self).cached_listings_spec()),
            final(self).active_dirty_spec() == old(self).active_dirty_spec(),
            final(self).listing() == old(self).listing(),
            final(self).results() == old(self).results(),
            final(self).visible_positions() == old(self).visible_positions(),
            final(self).same_place(*old(self)),
            final(self).same_reader(*old(self)),
            final(self).same_actions(*old(self)),
            final(self).same_counts(*old(self)),
            old(self).consistent() ==> final(self).consistent(),
    {
        let mut listings: Vec<(FolderKey, CachedListing)> = Vec::new();
        std::mem::swap(&mut self.cached_listings, &mut listings);
        let ghost start = listings@;
        let mut i: usize = 0;
        while i < listings.len()
            invariant
                i <= listings.len(),
                listings@.len() == start.len(),
                forall|k: int| 0 <= k < i ==> listings@[k] == (start[k].0, CachedListing { dirty: true, ..start[k].1 }),
                forall|k: int| i <= k < listings@.len() ==> listings@[k] == start[k],
            decreases listings.len() - i,
        {
            listings[i].1.dirty = true;
            i += 1;
        }
        assert(listings@ =~= all_dirty(start));
        self.cached_listings = listings;
    }

    /// Marks the open listing and every cached one as needing a reload,
    /// after the server confirmed a change.
    pub fn invalidate_listings(&mut self)
        ensures
            final(self).cached_listings_spec() == all_dirty(old(self).cached_listings_spec()),
            final(self).active_dirty_spec(),
            final(self).listing() == old(self).listing(),
            final(self).results() == old(self).results(),
            final(self).visible_positions() == old(self).visible_positions(),
            final(self).same_place(*old(self)),
            final(self).same_reader(*old(self)),
            final(self).same_actions(*old(self)),
            final(self).same_counts(*old(self)),
            old(self).consistent() ==> final(self).consistent(),
    {
        self.active_dirty = true;
        self.invalidate_cached_listings();
    }

    /// Starts marking the opened row read once its content is shown. Only
    /// an unread row with no read already in flight qualifies.
    pub fn start_mark_read(&mut self, request: RequestId) -> (r: Option<ActionRequest>)
        ensures
            ({
                let target = match old(self).reader_spec() {
                    ReaderState::Loaded(reader) => old(self).row_spec(reader.shown().id@),
                    _ => None,
                };
                match target {
                    Some(row) => if row.unread && pending_for(old(self).reads_spec(), row.id@) is None {
                        &&& r matches Some(q) && q.row_id@ == row.id@ && q == action_request_for(*old(self), request, q.row_id, row.kind, MailAction::SetUnread(false))
                        &&& final(self).reads_spec() == old(self).reads_spec().push((r->0.row_id, request))
                        &&& final(self).action_spec() == old(self).action_spec()
                        &&& final(self).action_error_spec() == old(self).action_error_spec()
                        &&& final(self).undo_spec() == old(self).undo_spec()
                        &&& final(self).same_list(*old(self))
                        &&& final(self).same_reader(*old(self))
                        &&& final(self).same_counts(*old(self))
                    } else {
                        r is None && *final(self) == *old(self)
                    },
                    None => r is None && *final(self) == *old(self),
                }
            }),
    {
        let (row_id, kind) = match &self.reader {
            ReaderState::Loaded(reader) => match self.row(reader.conversation_id()) {
                Some(row) => {
                    if !row.unread {
                        return None;
                    }
                    (row.id.clone(), row.kind)
                },
                None => return None,
            },
            _ => return None,
        };
        if read_in_flight(&self.pending_reads, row_id.as_str()).is_some() {
            return None;
        }
        let context = if self.listed_in_folder(row_id.as_str()) {
            Some(self.folder.clone())
        } else {
            None
        };
        let request = ActionRequest {
            id: request,
            row_id,
            kind,
            folder: self.folder.clone(),
            context,
            action: MailAction::SetUnread(false),
        };
        self.pending_reads.push((request.row_id.clone(), request.id));
        Some(request)
    }

    /// Applies a confirmed automatic read, and tells whether a row changed:
    /// whether some loaded copy of it was still unread. A stale or failed
    /// answer leaves the row unread.
    pub fn finish_mark_read(&mut self, request: &ActionRequest, result: Result<(), MailboxError>) -> (r: Result<bool, MailboxError>)
        requires
            old(self).consistent(),
        ensures
            pending_for(old(self).reads_spec(), request.row_id@) != Some(request.id) ==> r == Ok::<bool, MailboxError>(false) && *final(self) == *old(self),
            pending_for(old(self).reads_spec(), request.row_id@) == Some(request.id) ==> {
                &&& final(self).reads_spec() == reads_without(old(self).reads_spec(), request.row_id@)
                &&& final(self).action_spec() == old(self).action_spec()
                &&& final(self).action_error_spec() == old(self).action_error_spec()
                &&& final(self).undo_spec() == old(self).undo_spec()
                &&& final(self).same_reader(*old(self))
                &&& final(self).same_counts(*old(self))
                &&& final(self).same_place(*old(self))
                &&& final(self).visible_positions() == old(self).visible_positions()
                &&& match result {
                    Err(e) => {
                        &&& r == Err::<bool, MailboxError>(e)
                        &&& final(self).listing() == old(self).listing()
                        &&& final(self).results() == old(self).results()
                        &&& final(self).cached_listings_spec() == old(self).cached_listings_spec()
                        &&& final(self).active_dirty_spec() == old(self).active_dirty_spec()
                    },
                    Ok(_) => {
                        &&& final(self).cached_listings_spec() == all_dirty(old(self).cached_listings_spec())
                        &&& final(self).active_dirty_spec()
                        &&& if same_folder(request.folder, old(self).folder_spec()) {
                            &&& final(self).listing() == apply_to_copies(old(self).listing(), request.row_id@, MailAction::SetUnread(false))
                            &&& final(self).results() == apply_to_copies(old(self).results(), request.row_id@, MailAction::SetUnread(false))
                            &&& r == Ok::<bool, MailboxError>(unread_copy(old(self).listing(), request.row_id@) || unread_copy(old(self).results(), request.row_id@))
                        } else {
                            &&& r == Ok::<bool, MailboxError>(false)
                            &&& final(self).listing() == old(self).listing()
                            &&& final(self).results() == old(self).results()
                        }
                    },
                }
            },
            final(self).consistent(),
    {
        match read_in_flight(&self.pending_reads, request.row_id.as_str()) {
            Some(id) => {
                if id != request.id {
                    return Ok(false);
                }
            },
            None => return Ok(false),
        }
        drop_reads(&mut self.pending_reads, request.row_id.as_str());
        match result {
            Err(e) => return Err(e),
            Ok(_) => {},
        }
        self.invalidate_listings();
        if !request.folder.equals(&self.folder) {
            return Ok(false);
        }
        let changed = has_unread_copy(&self.conversations, request.row_id.as_str()) || match &self.search {
            Some(search) => has_unread_copy(&search.rows, request.row_id.as_str()),
            None => false,
        };
        let _ = self.update_row_copies(request.row_id.as_str(), &MailAction::SetUnread(false));
        Ok(changed)
    }

    /// Applies a confirmed change to every loaded copy of a row, and tells
    /// whether there was one. What is on screen stays as it is.
    fn update_row_copies(&mut self, row_id: &str, action: &MailAction) -> (found: bool)
        requires
            old(self).consistent(),
        ensures
            final(self).listing() == apply_to_copies(old(self).listing(), row_id@, *action),
            final(self).results() == apply_to_copies(old(self).results(), row_id@, *action),
            found == (lists(old(self).listing(), row_id@) || lists(old(self).results(), row_id@)),
            final(self).visible_positions() == old(self).visible_positions(),
            final(self).cached_listings == old(self).cached_listings,
            final(self).active_dirty == old(self).active_dirty,
            final(self).same_place(*old(self)),
            final(self).same_reader(*old(self)),
            final(self).same_actions(*old(self)),
            final(self).same_counts(*old(self)),
            final(self).consistent(),
    {
        let in_listing = update_copies(&mut self.conversations, row_id, action);
        let in_results = match &mut self.search {
            Some(search) => update_copies(&mut search.rows, row_id, action),
            None => false,
        };
        proof {
            lemma_copies_match(old(self).listing(), row_id@, *action, lowercase(trimmed(old(self).query_spec())));
            lemma_copies_match(old(self).results(), row_id@, *action, lowercase(trimmed(old(self).query_spec())));
            assert(self.expected_visible() == old(self).expected_visible());
        }
        in_listing || in_results
    }

    /// The move the user can still take back, if any.
    pub fn undo(&self) -> (r: Option<&UndoMove>)
        ensures
            r matches Some(u) ==> self.undo_spec() == Some(*u),
            r is None ==> self.undo_spec() is None,
    {
        match &self.undo {
            Some(u) => Some(u),
            None => None,
        }
    }

    /// Replaces the offer to take a move back. Only a move out of a real
    /// folder the row is listed in, to another folder, can be taken back.
    pub fn offer_undo(&mut self, row_id: &str, kind: SummaryKind, action: MailAction)
        ensures
            undo_offered(final(self).undo_spec(), old(self).folder_spec(), old(self).listing(), row_id@, kind, action),
            final(self).action_spec() == old(self).action_spec(),
            final(self).action_error_spec() == old(self).action_error_spec(),
            final(self).reads_spec() == old(self).reads_spec(),
            final(self).same_list(*old(self)),
            final(self).same_reader(*old(self)),
            final(self).same_counts(*old(self)),
    {
        let from_here = self.folder.is_location() && self.listed_in_folder(row_id);
        self.undo = match action.destination() {
            Some(to) => {
                if from_here && !to.equals(&self.folder) {
                    Some(UndoMove { row_id: row_id.to_owned(), kind, from: self.folder.clone(), to: to.clone() })
                } else {
                    None
                }
            },
            None => None,
        };
    }

    /// Claims the offer, so it is made only once.
    pub fn take_undo(&mut self) -> (r: Option<UndoMove>)
        ensures
            r == old(self).undo_spec(),
            final(self).undo_spec() is None,
            final(self).action_spec() == old(self).action_spec(),
            final(self).action_error_spec() == old(self).action_error_spec(),
            final(self).reads_spec() == old(self).reads_spec(),
            final(self).same_list(*old(self)),
            final(self).same_reader(*old(self)),
            final(self).same_counts(*old(self)),
    {
        self.undo.take()
    }

    /// Dismisses only the offer whose time ran out.
    pub fn dismiss_undo(&mut self, offer: &UndoMove)
        ensures
            (old(self).undo_spec() matches Some(u) && same_undo(u, *offer)) ==> final(self).undo_spec() is None,
            !(old(self).undo_spec() matches Some(u) && same_undo(u, *offer)) ==> final(self).undo_spec() == old(self).undo_spec(),
            final(self).action_spec() == old(self).action_spec(),
            final(self).action_error_spec() == old(self).action_error_spec(),
            final(self).reads_spec() == old(self).reads_spec(),
            final(self).same_list(*old(self)),
            final(self).same_reader(*old(self)),
            final(self).same_counts(*old(self)),
    {
        let same = match &self.undo {
            Some(u) => u.equals(offer),
            None => false,
        };
        if same {
            self.undo = None;
        }
    }
}


/// `new` is `old` after the row left the list: a reader open on it, where
/// it was on screen, is closed, and `r` names the row that took its place.
pub open spec fn removed_reader(old: Mailbox, new: Mailbox, id: Seq<char>, r: Option<String>) -> bool {
    if old.selected_spec() == Some(id) && lists(old.visible_rows(), id) {
        &&& new.reader_spec() is Empty
        &&& names(r, row_after(new.visible_rows(), position_of(old.visible_rows(), id)))
    } else {
        &&& r is None
        &&& new.reader_spec() == old.reader_spec()
    }
}

/// `new` starts `action` on the row: `r` is its request, the action error
/// and the undo offer are gone, and an explicit read or unread replaces
/// the automatic read of the row.
pub open spec fn action_started(old: Mailbox, new: Mailbox, r: Option<ActionRequest>, request: RequestId, row_id: String, kind: SummaryKind, action: MailAction) -> bool {
    if old.busy() || old.action_spec() is Some {
        r is None && new == old
    } else {
        &&& r == Some(action_request_for(old, request, row_id, kind, action))
        &&& new.action_spec() == r
        &&& new.action_error_spec() is None
        &&& new.undo_spec() is None
        &&& new.reads_spec() == if action is SetUnread {
            reads_without(old.reads_spec(), row_id@)
        } else {
            old.reads_spec()
        }
        &&& new.same_list(old)
        &&& new.same_reader(old)
        &&& new.same_counts(old)
    }
}

/// What the reader shows after a confirmed label change on a row: the open
/// conversation, when it is that row, carries or drops the label.
pub open spec fn label_applied(old: ReaderState, new: ReaderState, row_id: Seq<char>, action: MailAction) -> bool {
    match (action, old) {
        (MailAction::SetLabel { label, on }, ReaderState::Loaded(before)) => if before.shown().id@ == row_id {
            new matches ReaderState::Loaded(after) && after_label(before, after, label, on)
        } else {
            new == old
        },
        _ => new == old,
    }
}

impl Mailbox {
    /// Starts an action on the selected row. Only one action runs at a
    /// time, and none while the list itself is loading.
    pub fn start_action(&mut self, action: MailAction, request: RequestId) -> (r: Option<ActionRequest>)
        ensures
            match old(self).selected_spec() {
                Some(id) => match old(self).row_spec(id) {
                    Some(row) => action_started(*old(self), *final(self), r, request, row.id, row.kind, action),
                    None => r is None && *final(self) == *old(self),
                },
                None => r is None && *final(self) == *old(self),
            },
    {
        let (row_id, kind) = match self.selected_summary() {
            Some(summary) => (summary.id.clone(), summary.kind),
            None => return None,
        };
        self.start_action_on(row_id, kind, action, request)
    }

    /// Starts an action on a row by name, for rows the list no longer
    /// shows, such as one being moved back where it came from.
    pub fn start_action_on(&mut self, row_id: String, kind: SummaryKind, action: MailAction, request: RequestId) -> (r: Option<ActionRequest>)
        ensures
            action_started(*old(self), *final(self), r, request, row_id, kind, action),
    {
        if self.is_busy() || self.action_request.is_some() {
            return None;
        }
        let context = if self.listed_in_folder(row_id.as_str()) {
            Some(self.folder.clone())
        } else {
            None
        };
        let unread = match action {
            MailAction::SetUnread(_) => true,
            _ => false,
        };
        let request = ActionRequest { id: request, row_id, kind, folder: self.folder.clone(), context, action };
        self.action_error = None;
        self.undo = None;
        if unread {
            drop_reads(&mut self.pending_reads, request.row_id.as_str());
        }
        self.action_request = Some(request.clone());
        Some(request)
    }

    /// Whether this action takes the row out of what `folder` shows.
    fn leaves_view(folder: &Folder, action: &MailAction) -> (r: bool)
        ensures
            r == leaves(*folder, *action),
    {
        match action {
            MailAction::SetStarred(starred) => !*starred && folder.system() == Some(MailFolder::Starred),
            MailAction::SetLabel { label, on } => !*on && label.equals(folder),
            MailAction::SetUnread(_) => false,
            MailAction::MoveTo(to) => !to.equals(folder),
        }
    }

    /// Applies the answer to the action in flight. A move out of the view
    /// takes the row away, offers to undo it, and names the row that takes
    /// its place when it was open; a failure is kept as the action error.
    pub fn finish_action(&mut self, request: &ActionRequest, result: Result<(), MailboxError>) -> (r: Result<Option<String>, MailboxError>)
        requires
            old(self).consistent(),
        ensures
            !(old(self).action_spec() matches Some(a) && same_request(a, *request)) ==> r == Ok::<Option<String>, MailboxError>(None) && *final(self) == *old(self),
            (old(self).action_spec() matches Some(a) && same_request(a, *request)) ==> {
                &&& final(self).action_spec() is None
                &&& final(self).reads_spec() == old(self).reads_spec()
                &&& final(self).same_counts(*old(self))
                &&& final(self).same_place(*old(self))
                &&& match result {
                    Err(e) => {
                        &&& r == Err::<Option<String>, MailboxError>(e)
                        &&& final(self).action_error_spec() == Some(e)
                        &&& final(self).undo_spec() == old(self).undo_spec()
                        &&& final(self).listing() == old(self).listing()
                        &&& final(self).results() == old(self).results()
                        &&& final(self).cached_listings_spec() == old(self).cached_listings_spec()
                        &&& final(self).active_dirty_spec() == old(self).active_dirty_spec()
                        &&& final(self).same_reader(*old(self))
                    },
                    Ok(_) => {
                        &&& final(self).action_error_spec() == old(self).action_error_spec()
                        &&& final(self).cached_listings_spec() == all_dirty(old(self).cached_listings_spec())
                        &&& final(self).active_dirty_spec()
                        &&& if !same_folder(request.folder, old(self).folder_spec()) {
                            &&& r == Ok::<Option<String>, MailboxError>(None)
                            &&& final(self).undo_spec() == old(self).undo_spec()
                            &&& final(self).listing() == old(self).listing()
                            &&& final(self).results() == old(self).results()
                            &&& final(self).same_reader(*old(self))
                        } else if leaves(request.folder, request.action) {
                            &&& undo_offered(final(self).undo_spec(), old(self).folder_spec(), old(self).listing(), request.row_id@, request.kind, request.action)
                            &&& final(self).listing() == without_id(old(self).listing(), request.row_id@)
                            &&& final(self).results() == without_id(old(self).results(), request.row_id@)
                            &&& r matches Ok(next) && removed_reader(*old(self), *final(self), request.row_id@, next)
                        } else {
                            &&& r == Ok::<Option<String>, MailboxError>(None)
                            &&& final(self).undo_spec() == old(self).undo_spec()
                            &&& final(self).listing() == apply_to_copies(old(self).listing(), request.row_id@, request.action)
                            &&& final(self).results() == apply_to_copies(old(self).results(), request.row_id@, request.action)
                            &&& label_applied(old(self).reader_spec(), final(self).reader_spec(), request.row_id@, request.action)
                        }
                    },
                }
            },
            final(self).consistent(),
    {
        let current = match &self.action_request {
            Some(a) => a.equals(request),
            None => false,
        };
        if !current {
            return Ok(None);
        }
        self.action_request = None;
        match result {
            Err(error) => {
                self.action_error = Some(error);
                return Err(error);
            },
            Ok(_) => {},
        }
        self.invalidate_listings();
        if !request.folder.equals(&self.folder) {
            return Ok(None);
        }
        if Self::leaves_view(&request.folder, &request.action) {
            self.offer_undo(request.row_id.as_str(), request.kind, request.action.clone());
            return Ok(self.remove_row(request.row_id.as_str()));
        }
        self.update_row_copies(request.row_id.as_str(), &request.action);
        match (&request.action, &mut self.reader) {
            (MailAction::SetLabel { label, on }, ReaderState::Loaded(reader)) => {
                if same_text(reader.conversation_id(), request.row_id.as_str()) {
                    reader.set_label(label, *on);
                }
            },
            _ => {},
        }
        Ok(None)
    }

    /// Applies a confirmed change to every loaded copy of the row. A change
    /// that takes the row out of the open folder's view also takes it out
    /// of the search results on screen.
    pub fn record_action(&mut self, row_id: &str, action: &MailAction)
        requires
            old(self).consistent(),
        ensures
            final(self).listing() == apply_to_copies(old(self).listing(), row_id@, *action),
            final(self).results() == if leaves(old(self).folder_spec(), *action) {
                without_id(apply_to_copies(old(self).results(), row_id@, *action), row_id@)
            } else {
                apply_to_copies(old(self).results(), row_id@, *action)
            },
            final(self).cached_listings_spec() == old(self).cached_listings_spec(),
            final(self).active_dirty_spec() == old(self).active_dirty_spec(),
            final(self).same_place(*old(self)),
            final(self).same_reader(*old(self)),
            final(self).same_actions(*old(self)),
            final(self).same_counts(*old(self)),
            final(self).consistent(),
    {
        self.update_row_copies(row_id, action);
        if Self::leaves_view(&self.folder, action) {
            match &mut self.search {
                Some(search) => {
                    drop_rows(&mut search.rows, row_id);
                },
                None => {},
            }
            self.recompute_visible();
        }
    }

    /// Takes a row out of the listing and the search results. When it was
    /// open and on screen, closes the reader and names the row on screen
    /// that took its place.
    fn remove_row(&mut self, row_id: &str) -> (r: Option<String>)
        requires
            old(self).consistent(),
        ensures
            final(self).listing() == without_id(old(self).listing(), row_id@),
            final(self).results() == without_id(old(self).results(), row_id@),
            removed_reader(*old(self), *final(self), row_id@, r),
            final(self).cached_listings == old(self).cached_listings,
            final(self).active_dirty == old(self).active_dirty,
            final(self).same_place(*old(self)),
            final(self).same_actions(*old(self)),
            final(self).same_counts(*old(self)),
            final(self).consistent(),
    {
        let was_selected = match self.reader.conversation_id() {
            Some(selected) => same_text(selected, row_id),
            None => false,
        };
        let index = self.visible_index(row_id);
        drop_rows(&mut self.conversations, row_id);
        match &mut self.search {
            Some(search) => {
                drop_rows(&mut search.rows, row_id);
            },
            None => {},
        }
        self.recompute_visible();
        if !was_selected {
            return None;
        }
        match index {
            Some(i) => self.open_row_after(i),
            None => None,
        }
    }

    /// Closes the reader and names the row on screen that took the place
    /// of the one at `index`, so reading goes on where it left off.
    fn open_row_after(&mut self, index: usize) -> (r: Option<String>)
        requires
            old(self).consistent(),
        ensures
            names(r, row_after(old(self).visible_rows(), index as int)),
            final(self).reader is Empty,
            final(self).same_list(*old(self)),
            final(self).same_actions(*old(self)),
            final(self).same_counts(*old(self)),
            final(self).consistent(),
    {
        self.set_reader(ReaderState::Empty);
        proof {
            lemma_positions_valid(*self);
        }
        let n = self.visible_cache.len();
        if n == 0 {
            return None;
        }
        let i = if index < n - 1 {
            index
        } else {
            n - 1
        };
        match self.visible_row(i) {
            Some(row) => Some(row.id.clone()),
            None => None,
        }
    }
}


/// The cached listing kept for this folder key: the last one stored.
pub open spec fn cached_for(c: Seq<(FolderKey, CachedListing)>, k: FolderKey) -> Option<CachedListing>
    decreases c.len(),
{
    if c.len() == 0 {
        None
    } else if same_key(c.last().0, k) {
        Some(c.last().1)
    } else {
        cached_for(c.drop_last(), k)
    }
}

/// The cached listings without any for this folder key.
pub open spec fn listings_without(c: Seq<(FolderKey, CachedListing)>, k: FolderKey) -> Seq<(FolderKey, CachedListing)> {
    c.filter(|e: (FolderKey, CachedListing)| !same_key(e.0, k))
}

/// Takes the listing cached for this folder key out of the cache.
fn take_listing(c: &mut Vec<(FolderKey, CachedListing)>, k: &FolderKey) -> (r: Option<CachedListing>)
    ensures
        r == cached_for(old(c)@, *k),
        final(c)@ == listings_without(old(c)@, *k),
{
    let mut rest: Vec<(FolderKey, CachedListing)> = Vec::new();
    std::mem::swap(c, &mut rest);
    let ghost all = rest@;
    let mut found: Option<CachedListing> = None;
    let mut taken: usize = 0;
    assert(all.len() == rest.len());
    while rest.len() > 0
        invariant
            taken + rest.len() == all.len(),
            all.len() <= usize::MAX,
            rest@ == all.skip(taken as int),
            c@ == listings_without(all.take(taken as int), *k),
            found == cached_for(all.take(taken as int), *k),
        decreases rest.len(),
    {
        let entry = rest.remove(0);
        proof {
            reveal(Seq::filter);
            assert(all.take(taken + 1).drop_last() =~= all.take(taken as int));
            assert(all.take(taken + 1).last() == entry);
        }
        if entry.0.equals(k) {
            found = Some(entry.1);
        } else {
            c.push(entry);
        }
        taken += 1;
        assert(rest@ =~= all.skip(taken as int));
    }
    assert(all.take(all.len() as int) =~= all);
    found
}

/// Stores a listing under this folder key, replacing what was there.
fn put_listing(c: &mut Vec<(FolderKey, CachedListing)>, k: FolderKey, listing: CachedListing)
    ensures
        final(c)@ == listings_without(old(c)@, k).push((k, listing)),
{
    let _ = take_listing(c, &k);
    c.push((k, listing));
}

impl Mailbox {
    /// The cached listings once the open folder is left: a listing that
    /// loaded a page is kept, dirty when it was changed or being
    /// refreshed; one still on its first load is not.
    pub closed spec fn listings_after_leaving(self) -> Seq<(FolderKey, CachedListing)> {
        if self.next_page == 0 {
            self.cached_listings@
        } else {
            let kept = CachedListing {
                conversations: self.conversations,
                next_page: self.next_page,
                has_more: self.has_more,
                dirty: self.active_dirty || self.status is Refreshing,
            };
            listings_without(self.cached_listings@, key_of(self.folder)).push((key_of(self.folder), kept))
        }
    }

    /// Updates an account folder's name when it is the open one; its
    /// stable id keeps the list and the reader.
    pub fn rename_folder(&mut self, folder: Folder)
        ensures
            (folder_custom_id(old(self).folder_spec()) matches Some(a) && folder_custom_id(folder) matches Some(b) && a == b)
                ==> final(self).folder_spec() == folder,
            !(folder_custom_id(old(self).folder_spec()) matches Some(a) && folder_custom_id(folder) matches Some(b) && a == b)
                ==> final(self).folder_spec() == old(self).folder_spec(),
            final(self).status_spec() == old(self).status_spec(),
            final(self).listing() == old(self).listing(),
            final(self).results() == old(self).results(),
            final(self).searching_spec() == old(self).searching_spec(),
            final(self).visible_positions() == old(self).visible_positions(),
            final(self).query_spec() == old(self).query_spec(),
            final(self).next_page_spec() == old(self).next_page_spec(),
            final(self).folder_has_more() == old(self).folder_has_more(),
            final(self).cached_listings_spec() == old(self).cached_listings_spec(),
            final(self).same_reader(*old(self)),
            final(self).same_actions(*old(self)),
            final(self).same_counts(*old(self)),
            old(self).consistent() ==> final(self).consistent(),
    {
        let same = match (self.folder.custom_id(), folder.custom_id()) {
            (Some(open), Some(current)) => same_text(open, current),
            _ => false,
        };
        if same {
            self.folder = folder;
        }
    }

    /// Keeps the open listing for a quick return, once it has loaded a
    /// page. Search results, the reader and actions stay out of it.
    fn cache_active_listing(&mut self)
        ensures
            final(self).cached_listings@ == old(self).listings_after_leaving(),
            old(self).next_page != 0 ==> final(self).conversations@.len() == 0,
            old(self).next_page == 0 ==> final(self).conversations == old(self).conversations,
            final(self).folder == old(self).folder,
            final(self).status == old(self).status,
            final(self).page_size == old(self).page_size,
            final(self).next_page == old(self).next_page,
            final(self).has_more == old(self).has_more,
            final(self).active_dirty == old(self).active_dirty,
            final(self).search_query == old(self).search_query,
            final(self).search == old(self).search,
            final(self).search_request == old(self).search_request,
            final(self).same_reader(*old(self)),
            final(self).same_actions(*old(self)),
            final(self).same_counts(*old(self)),
    {
        if self.next_page == 0 {
            return;
        }
        let dirty = self.active_dirty || match self.status {
            ListStatus::Refreshing(_) => true,
            _ => false,
        };
        let mut conversations: Vec<ConversationSummary> = Vec::new();
        std::mem::swap(&mut self.conversations, &mut conversations);
        let kept = CachedListing { conversations, next_page: self.next_page, has_more: self.has_more, dirty };
        put_listing(&mut self.cached_listings, FolderKey::of(&self.folder), kept);
    }

    /// Opens another folder: the one left is kept for a quick return, and
    /// the one opened comes from the cache, reloaded first when it is
    /// dirty, or is loaded from its first page.
    pub fn select_folder(&mut self, folder: Folder, request: RequestId) -> (r: Option<PageRequest>)
        requires
            old(self).consistent(),
        ensures
            same_folder(folder, old(self).folder_spec()) ==> r is None && *final(self) == *old(self),
            !same_folder(folder, old(self).folder_spec()) ==> {
                let stored = old(self).listings_after_leaving();
                let k = key_of(folder);
                &&& final(self).folder_spec() == folder
                &&& final(self).cached_listings_spec() == listings_without(stored, k)
                &&& final(self).reader_spec() is Empty
                &&& final(self).action_error_spec() is None
                &&& final(self).undo_spec() is None
                &&& !final(self).searching_spec()
                &&& final(self).search_request_spec() is None
                &&& final(self).action_spec() == old(self).action_spec()
                &&& final(self).reads_spec() == old(self).reads_spec()
                &&& final(self).query_spec() == old(self).query_spec()
                &&& final(self).page_size_spec() == old(self).page_size_spec()
                &&& final(self).same_counts(*old(self))
                &&& match cached_for(stored, k) {
                    Some(l) => {
                        &&& final(self).listing() == l.conversations@
                        &&& final(self).next_page_spec() == l.next_page
                        &&& final(self).folder_has_more() == l.has_more
                        &&& !final(self).active_dirty_spec()
                        &&& if l.dirty {
                            &&& final(self).status_spec() == ListStatus::Refreshing(request)
                            &&& r == Some(PageRequest { id: request, folder, page: 0, page_size: old(self).page_size_spec() })
                        } else {
                            &&& final(self).status_spec() == ListStatus::Loaded
                            &&& r is None
                        }
                    },
                    None => {
                        &&& final(self).listing().len() == 0
                        &&& final(self).next_page_spec() == 0
                        &&& !final(self).folder_has_more()
                        &&& !final(self).active_dirty_spec()
                        &&& final(self).status_spec() == ListStatus::Loading(request)
                        &&& r == Some(PageRequest { id: request, folder, page: 0, page_size: old(self).page_size_spec() })
                    },
                }
            },
            final(self).consistent(),
    {
        if folder.equals(&self.folder) {
            return None;
        }
        self.cache_active_listing();
        self.folder = folder;
        self.set_reader(ReaderState::Empty);
        self.action_error = None;
        self.undo = None;
        self.search = None;
        self.search_request = None;
        let key = FolderKey::of(&self.folder);
        match take_listing(&mut self.cached_listings, &key) {
            Some(cached) => {
                let dirty = cached.dirty;
                self.conversations = cached.conversations;
                self.next_page = cached.next_page;
                self.has_more = cached.has_more;
                self.active_dirty = false;
                self.recompute_visible();
                if dirty {
                    self.status = ListStatus::Refreshing(request);
                    Some(self.page_request(request, 0))
                } else {
                    self.status = ListStatus::Loaded;
                    None
                }
            },
            None => {
                self.conversations = Vec::new();
                self.next_page = 0;
                self.has_more = false;
                self.active_dirty = false;
                self.recompute_visible();
                self.status = ListStatus::Loading(request);
                Some(self.page_request(request, 0))
            },
        }
    }

    /// Reloads the first page of the open folder, unless the list is busy.
    /// The offer to undo goes: the reloaded list no longer shows its row.
    pub fn refresh(&mut self, request: RequestId) -> (r: Option<PageRequest>)
        ensures
            old(self).busy() ==> r is None && *final(self) == *old(self),
            !old(self).busy() ==> {
                &&& r == Some(PageRequest { id: request, folder: old(self).folder_spec(), page: 0, page_size: old(self).page_size_spec() })
                &&& final(self).status_spec() == if old(self).listing().len() == 0 {
                    ListStatus::Loading(request)
                } else {
                    ListStatus::Refreshing(request)
                }
                &&& final(self).undo_spec() is None
                &&& !final(self).active_dirty_spec()
                &&& final(self).folder_spec() == old(self).folder_spec()
                &&& final(self).listing() == old(self).listing()
                &&& final(self).results() == old(self).results()
                &&& final(self).searching_spec() == old(self).searching_spec()
                &&& final(self).visible_positions() == old(self).visible_positions()
                &&& final(self).query_spec() == old(self).query_spec()
                &&& final(self).next_page_spec() == old(self).next_page_spec()
                &&& final(self).folder_has_more() == old(self).folder_has_more()
                &&& final(self).search_request_spec() == old(self).search_request_spec()
                &&& final(self).cached_listings_spec() == old(self).cached_listings_spec()
                &&& final(self).action_spec() == old(self).action_spec()
                &&& final(self).action_error_spec() == old(self).action_error_spec()
                &&& final(self).reads_spec() == old(self).reads_spec()
                &&& final(self).same_reader(*old(self))
                &&& final(self).same_counts(*old(self))
            },
            old(self).consistent() ==> final(self).consistent(),
    {
        if self.is_busy() {
            return None;
        }
        self.undo = None;
        self.active_dirty = false;
        self.status = if self.conversations.len() == 0 {
            ListStatus::Loading(request)
        } else {
            ListStatus::Refreshing(request)
        };
        Some(self.page_request(request, 0))
    }

    /// Asks for the next page of the folder listing, unless the list is
    /// busy, search results are on screen, or there is no other page.
    pub fn load_more(&mut self, request: RequestId) -> (r: Option<PageRequest>)
        ensures
            (old(self).busy() || old(self).searching_spec() || !old(self).folder_has_more()) ==> r is None && *final(self) == *old(self),
            !(old(self).busy() || old(self).searching_spec() || !old(self).folder_has_more()) ==> {
                &&& r == Some(PageRequest { id: request, folder: old(self).folder_spec(), page: old(self).next_page_spec(), page_size: old(self).page_size_spec() })
                &&& final(self).status_spec() == ListStatus::LoadingMore(request)
                &&& final(self).folder_spec() == old(self).folder_spec()
                &&& final(self).listing() == old(self).listing()
                &&& final(self).results() == old(self).results()
                &&& final(self).searching_spec() == old(self).searching_spec()
                &&& final(self).visible_positions() == old(self).visible_positions()
                &&& final(self).query_spec() == old(self).query_spec()
                &&& final(self).next_page_spec() == old(self).next_page_spec()
                &&& final(self).folder_has_more() == old(self).folder_has_more()
                &&& final(self).active_dirty_spec() == old(self).active_dirty_spec()
                &&& final(self).cached_listings_spec() == old(self).cached_listings_spec()
                &&& final(self).same_reader(*old(self))
                &&& final(self).same_actions(*old(self))
                &&& final(self).same_counts(*old(self))
            },
            old(self).consistent() ==> final(self).consistent(),
    {
        if self.is_busy() || self.search.is_some() || !self.has_more {
            return None;
        }
        self.status = ListStatus::LoadingMore(request);
        Some(self.page_request(request, self.next_page))
    }

    /// Starts a counts refresh, superseding any older request.
    pub fn refresh_counts(&mut self, request: RequestId) -> (r: Option<RequestId>)
        ensures
            r == Some(request),
            final(self).counts_request_spec() == Some(request),
            final(self).counts_spec() == old(self).counts_spec(),
            final(self).same_list(*old(self)),
            final(self).same_reader(*old(self)),
            final(self).same_actions(*old(self)),
    {
        self.counts_request = Some(request);
        Some(request)
    }

    /// How many conversations the pages asked for so far hold, and at least
    /// one page's worth.
    pub fn loaded_conversation_limit(&self) -> (r: u32)
        ensures
            ({
                let pages = if self.next_page_spec() > 1 { self.next_page_spec() as int } else { 1 };
                r == if pages * self.page_size_spec() <= u32::MAX {
                    pages * self.page_size_spec()
                } else {
                    u32::MAX as int
                }
            }),
    {
        let pages = if self.next_page > 1 {
            self.next_page
        } else {
            1
        };
        proof {
            lemma_page_product((pages - 1) as u32, self.page_size);
        }
        let product = pages as u64 * self.page_size as u64;
        if product > u32::MAX as u64 {
            u32::MAX
        } else {
            product as u32
        }
    }

    /// Applies the answer to the counts request in flight. Counts loaded
    /// before stay when it failed.
    pub fn finish_counts(&mut self, request: RequestId, result: Result<MailboxCounts, MailboxError>) -> (r: Option<MailboxError>)
        ensures
            old(self).counts_request_spec() != Some(request) ==> r is None && *final(self) == *old(self),
            old(self).counts_request_spec() == Some(request) ==> {
                &&& final(self).counts_request_spec() is None
                &&& match result {
                    Ok(c) => r is None && final(self).counts_spec() == Some(c),
                    Err(e) => r == Some(e) && final(self).counts_spec() == old(self).counts_spec(),
                }
                &&& final(self).same_list(*old(self))
                &&& final(self).same_reader(*old(self))
                &&& final(self).same_actions(*old(self))
            },
    {
        if self.counts_request != Some(request) {
            return None;
        }
        self.counts_request = None;
        match result {
            Ok(counts) => {
                self.counts = Some(counts);
                None
            },
            Err(error) => Some(error),
        }
    }
}


/// The first time a row of the list carries, or the latest possible time
/// when none does.
pub open spec fn first_time(rows: Seq<ConversationSummary>) -> i64
    decreases rows.len(),
{
    if rows.len() == 0 {
        i64::MAX
    } else {
        match rows[0].time {
            Some(t) => t,
            None => first_time(rows.drop_first()),
        }
    }
}

/// The time the row at `i` sorts by: its own, or else the one the row
/// before it sorts by, so that an undated row keeps its neighbour's place.
pub open spec fn sort_key(rows: Seq<ConversationSummary>, i: int) -> i64
    decreases i,
{
    match rows[i].time {
        Some(t) => t,
        None => if i <= 0 {
            first_time(rows)
        } else {
            sort_key(rows, i - 1)
        },
    }
}

/// Each row with the time it sorts by.
pub open spec fn keyed(rows: Seq<ConversationSummary>) -> Seq<(i64, ConversationSummary)> {
    Seq::new(rows.len(), |i: int| (sort_key(rows, i), rows[i]))
}

/// `e` placed after every entry of `s` that sorts no later than it.
pub open spec fn insert_newest(s: Seq<(i64, ConversationSummary)>, e: (i64, ConversationSummary)) -> Seq<(i64, ConversationSummary)>
    decreases s.len(),
{
    if s.len() == 0 {
        seq![e]
    } else if s.last().0 >= e.0 {
        s.push(e)
    } else {
        insert_newest(s.drop_last(), e).push(s.last())
    }
}

/// The entries newest first, keeping the order of equal times, as a stable
/// sort does.
pub open spec fn sort_newest(s: Seq<(i64, ConversationSummary)>) -> Seq<(i64, ConversationSummary)>
    decreases s.len(),
{
    if s.len() == 0 {
        s
    } else {
        insert_newest(sort_newest(s.drop_last()), s.last())
    }
}

/// The rows newest first; an undated row sorts with the row before it.
pub open spec fn newest_first(rows: Seq<ConversationSummary>) -> Seq<ConversationSummary> {
    sort_newest(keyed(rows)).map_values(|e: (i64, ConversationSummary)| e.1)
}

proof fn lemma_insert_newest_at(s: Seq<(i64, ConversationSummary)>, e: (i64, ConversationSummary), j: int)
    requires
        0 <= j <= s.len(),
        j == 0 || s[j - 1].0 >= e.0,
        forall|k: int| j <= k < s.len() ==> (#[trigger] s[k]).0 < e.0,
    ensures
        insert_newest(s, e) == s.take(j).push(e) + s.skip(j),
    decreases s.len(),
{
    if s.len() == 0 {
        assert(s.take(j).push(e) + s.skip(j) =~= seq![e]);
    } else if j == s.len() {
        assert(s.take(j).push(e) + s.skip(j) =~= s.push(e));
    } else {
        assert(s.last().0 < e.0);
        lemma_insert_newest_at(s.drop_last(), e, j);
        assert(s.drop_last().take(j) =~= s.take(j));
        assert(s.take(j).push(e) + s.skip(j) =~= (s.take(j).push(e) + s.drop_last().skip(j)).push(s.last()));
    }
}

proof fn lemma_first_time_skip(rows: Seq<ConversationSummary>, i: int)
    requires
        0 <= i < rows.len(),
        forall|k: int| 0 <= k < i ==> (#[trigger] rows[k]).time is None,
    ensures
        first_time(rows) == first_time(rows.skip(i)),
    decreases i,
{
    if i > 0 {
        let t = rows.drop_first();
        assert(rows[0].time is None);
        assert forall|k: int| 0 <= k < i - 1 implies (#[trigger] t[k]).time is None by {
            assert(t[k] == rows[k + 1]);
        }
        lemma_first_time_skip(t, i - 1);
        assert(t.skip(i - 1) =~= rows.skip(i));
    } else {
        assert(rows.skip(0) =~= rows);
    }
}

proof fn lemma_first_time_none(rows: Seq<ConversationSummary>)
    requires
        forall|k: int| 0 <= k < rows.len() ==> (#[trigger] rows[k]).time is None,
    ensures
        first_time(rows) == i64::MAX,
    decreases rows.len(),
{
    if rows.len() > 0 {
        let t = rows.drop_first();
        assert(rows[0].time is None);
        assert forall|k: int| 0 <= k < t.len() implies (#[trigger] t[k]).time is None by {
            assert(t[k] == rows[k + 1]);
        }
        lemma_first_time_none(t);
    }
}

/// The first time a row carries, or the latest possible time.
fn first_time_of(rows: &Vec<ConversationSummary>) -> (r: i64)
    ensures
        r == first_time(rows@),
{
    let mut i: usize = 0;
    while i < rows.len()
        invariant
            i <= rows.len(),
            forall|k: int| 0 <= k < i ==> (#[trigger] rows@[k]).time is None,
        decreases rows.len() - i,
    {
        proof {
            lemma_first_time_skip(rows@, i as int);
        }
        match rows[i].time {
            Some(t) => return t,
            None => {},
        }
        proof {
            if i + 1 < rows.len() {
                assert(rows@.skip(i as int).drop_first() =~= rows@.skip(i + 1));
                lemma_first_time_skip(rows@, i + 1);
            }
        }
        i += 1;
    }
    proof {
        lemma_first_time_none(rows@);
    }
    i64::MAX
}

/// Sorts newest first while undated rows keep their place among their
/// neighbours.
pub fn sort_newest_first(rows: &mut Vec<ConversationSummary>)
    ensures
        final(rows)@ == newest_first(old(rows)@),
{
    let ghost start = rows@;
    let first = first_time_of(rows);
    let mut rest: Vec<ConversationSummary> = Vec::new();
    std::mem::swap(rows, &mut rest);
    let ghost all = keyed(start);
    assert(start.len() == rest.len());
    let mut out: Vec<(i64, ConversationSummary)> = Vec::new();
    let mut previous = first;
    let mut taken: usize = 0;
    while rest.len() > 0
        invariant
            taken + rest.len() == start.len(),
            start.len() <= usize::MAX,
            rest@ == start.skip(taken as int),
            all == keyed(start),
            first == first_time(start),
            taken > 0 ==> previous == sort_key(start, taken - 1),
            taken == 0 ==> previous == first,
            out@ == sort_newest(all.take(taken as int)),
        decreases rest.len(),
    {
        let row = rest.remove(0);
        assert(row == start[taken as int]);
        let key = match row.time {
            Some(t) => t,
            None => previous,
        };
        assert(key == sort_key(start, taken as int));
        let entry = (key, row);
        proof {
            assert(all.take(taken + 1).drop_last() =~= all.take(taken as int));
            assert(all.take(taken + 1).last() == entry);
        }
        let mut j = out.len();
        while j > 0 && out[j - 1].0 < key
            invariant
                j <= out.len(),
                forall|k: int| j <= k < out.len() ==> (#[trigger] out@[k]).0 < key,
            decreases j,
        {
            j -= 1;
        }
        proof {
            lemma_insert_newest_at(out@, entry, j as int);
        }
        let ghost before = out@;
        out.insert(j, entry);
        assert(out@ =~= before.take(j as int).push(entry) + before.skip(j as int));
        previous = key;
        taken += 1;
        assert(rest@ =~= start.skip(taken as int));
    }
    assert(all.take(all.len() as int) =~= all);
    let ghost sorted = out@;
    assert(sorted.len() == out.len());
    let mut moved: usize = 0;
    assert(rows@ =~= sorted.take(0).map_values(|e: (i64, ConversationSummary)| e.1));
    while out.len() > 0
        invariant
            moved + out.len() == sorted.len(),
            sorted.len() <= usize::MAX,
            out@ == sorted.skip(moved as int),
            rows@ == sorted.take(moved as int).map_values(|e: (i64, ConversationSummary)| e.1),
        decreases out.len(),
    {
        let e = out.remove(0);
        proof {
            assert(sorted.take(moved + 1) =~= sorted.take(moved as int).push(e));
        }
        rows.push(e.1);
        moved += 1;
        assert(rows@ =~= sorted.take(moved as int).map_values(|e: (i64, ConversationSummary)| e.1));
        assert(out@ =~= sorted.skip(moved as int));
    }
    assert(sorted.take(sorted.len() as int) =~= sorted);
}


/// The oldest time the rows carry, if any carries one.
pub open spec fn min_time(rows: Seq<ConversationSummary>) -> Option<i64>
    decreases rows.len(),
{
    if rows.len() == 0 {
        None
    } else {
        match (rows.last().time, min_time(rows.drop_last())) {
            (Some(t), Some(m)) => Some(if t < m { t } else { m }),
            (Some(t), None) => Some(t),
            (None, m) => m,
        }
    }
}

/// The loaded rows older than everything a refreshed first page holds,
/// and not on it: the deeper pages it leaves standing.
pub open spec fn below(rows: Seq<ConversationSummary>, fresh: Seq<ConversationSummary>) -> Seq<ConversationSummary> {
    match min_time(fresh) {
        None => Seq::<ConversationSummary>::empty(),
        Some(oldest) => rows.filter(|r: ConversationSummary| (r.time matches Some(t) && t < oldest) && !lists(fresh, r.id@)),
    }
}

/// The listing after a page came in: appended without rows already
/// known, or a first page followed by the deeper rows it leaves standing
/// when it was full; then newest first.
pub open spec fn merged_listing(rows: Seq<ConversationSummary>, incoming: Seq<ConversationSummary>, append: bool, page_size: u32) -> Seq<ConversationSummary> {
    newest_first(if append {
        append_new(rows, incoming)
    } else if incoming.len() >= page_size {
        incoming + below(rows, incoming)
    } else {
        incoming
    })
}

/// The oldest time a list of rows carries.
fn oldest_time(rows: &Vec<ConversationSummary>) -> (r: Option<i64>)
    ensures
        r == min_time(rows@),
{
    let mut m: Option<i64> = None;
    let mut i: usize = 0;
    while i < rows.len()
        invariant
            i <= rows.len(),
            m == min_time(rows@.take(i as int)),
        decreases rows.len() - i,
    {
        proof {
            assert(rows@.take(i + 1).drop_last() =~= rows@.take(i as int));
            assert(rows@.take(i + 1).last() == rows@[i as int]);
        }
        m = match (rows[i].time, m) {
            (Some(t), Some(x)) => Some(if t < x { t } else { x }),
            (Some(t), None) => Some(t),
            (None, x) => x,
        };
        i += 1;
    }
    assert(rows@.take(rows.len() as int) =~= rows@);
    m
}

/// The loaded rows a refreshed first page leaves standing below it.
fn rows_below(rows: Vec<ConversationSummary>, fresh: &Vec<ConversationSummary>) -> (r: Vec<ConversationSummary>)
    ensures
        r@ == below(rows@, fresh@),
{
    let oldest = match oldest_time(fresh) {
        Some(t) => t,
        None => return Vec::new(),
    };
    let ghost all = rows@;
    let mut rest = rows;
    let mut out: Vec<ConversationSummary> = Vec::new();
    let mut taken: usize = 0;
    assert(all.len() == rest.len());
    while rest.len() > 0
        invariant
            taken + rest.len() == all.len(),
            all.len() <= usize::MAX,
            rest@ == all.skip(taken as int),
            out@ == all.take(taken as int).filter(|r: ConversationSummary| (r.time matches Some(t) && t < oldest) && !lists(fresh@, r.id@)),
        decreases rest.len(),
    {
        let row = rest.remove(0);
        proof {
            reveal(Seq::filter);
            assert(all.take(taken + 1).drop_last() =~= all.take(taken as int));
            assert(all.take(taken + 1).last() == row);
        }
        let older = match row.time {
            Some(t) => t < oldest,
            None => false,
        };
        if older && find_row(fresh, row.id.as_str()).is_none() {
            out.push(row);
        }
        taken += 1;
        assert(rest@ =~= all.skip(taken as int));
    }
    assert(all.take(all.len() as int) =~= all);
    out
}

/// Whether the answer to `request` is the one the list is waiting on, and
/// whether it appends a page.
pub open spec fn awaited(status: ListStatus, request: RequestId) -> Option<bool> {
    match status {
        ListStatus::Loading(id) => if id == request { Some(false) } else { None },
        ListStatus::Refreshing(id) => if id == request { Some(false) } else { None },
        ListStatus::LoadingMore(id) => if id == request { Some(true) } else { None },
        _ => None,
    }
}

impl Mailbox {
    /// Merges a page into the listing, keeps it newest first, and closes a
    /// reader whose row a first page no longer holds.
    fn apply_page(&mut self, page: ConversationPage, append: bool)
        requires
            old(self).consistent(),
            append ==> old(self).next_page < u32::MAX,
        ensures
            final(self).conversations@ == merged_listing(old(self).conversations@, page.conversations@, append, old(self).page_size),
            final(self).next_page == if append {
                (old(self).next_page + 1) as u32
            } else if old(self).next_page > 1 {
                old(self).next_page
            } else {
                1
            },
            final(self).has_more == (page.conversations@.len() > 0 && final(self).next_page * old(self).page_size < page.total),
            final(self).folder == old(self).folder,
            final(self).status == old(self).status,
            final(self).page_size == old(self).page_size,
            final(self).cached_listings == old(self).cached_listings,
            final(self).active_dirty == old(self).active_dirty,
            final(self).search_query == old(self).search_query,
            final(self).search == old(self).search,
            final(self).search_request == old(self).search_request,
            append ==> final(self).same_reader(*old(self)),
            !append ==> closes_hidden_reader(*old(self), *final(self)),
            final(self).same_actions(*old(self)),
            final(self).same_counts(*old(self)),
            final(self).consistent(),
    {
        let received = page.conversations.len();
        let total = page.total;
        if append {
            let mut new = rows_with_new(&self.conversations, page.conversations);
            self.conversations.append(&mut new);
            self.next_page = self.next_page + 1;
        } else {
            let incoming = page.conversations;
            let deeper = if received >= self.page_size as usize {
                let mut rows: Vec<ConversationSummary> = Vec::new();
                std::mem::swap(&mut self.conversations, &mut rows);
                rows_below(rows, &incoming)
            } else {
                Vec::new()
            };
            let mut deeper = deeper;
            self.conversations = incoming;
            self.conversations.append(&mut deeper);
            if self.next_page < 1 {
                self.next_page = 1;
            }
        }
        sort_newest_first(&mut self.conversations);
        self.recompute_visible();
        if !append {
            self.close_reader_if_hidden();
        }
        proof {
            lemma_page_product((self.next_page - 1) as u32, self.page_size);
        }
        self.has_more = received > 0 && (self.next_page as u64) * (self.page_size as u64) < total as u64;
    }

    /// Applies a page answer. Only the answer to the page in flight is
    /// taken; a failed first page leaves the listing to be reloaded.
    pub fn finish_page(&mut self, request: RequestId, result: Result<ConversationPage, MailboxError>) -> (r: Option<MailboxError>)
        requires
            old(self).consistent(),
            old(self).status_spec() == ListStatus::LoadingMore(request) ==> old(self).next_page_spec() < u32::MAX,
        ensures
            awaited(old(self).status_spec(), request) is None ==> r is None && *final(self) == *old(self),
            awaited(old(self).status_spec(), request) matches Some(append) ==> match result {
                Ok(page) => {
                    &&& r is None
                    &&& final(self).status_spec() == ListStatus::Loaded
                    &&& final(self).listing() == merged_listing(old(self).listing(), page.conversations@, append, old(self).page_size_spec())
                    &&& final(self).next_page_spec() == if append {
                        (old(self).next_page_spec() + 1) as u32
                    } else if old(self).next_page_spec() > 1 {
                        old(self).next_page_spec()
                    } else {
                        1
                    }
                    &&& final(self).folder_has_more() == (page.conversations@.len() > 0 && final(self).next_page_spec() * old(self).page_size_spec() < page.total)
                    &&& final(self).folder_spec() == old(self).folder_spec()
                    &&& final(self).searching_spec() == old(self).searching_spec()
                    &&& final(self).results() == old(self).results()
                    &&& final(self).query_spec() == old(self).query_spec()
                    &&& final(self).search_request_spec() == old(self).search_request_spec()
                    &&& final(self).active_dirty_spec() == old(self).active_dirty_spec()
                    &&& final(self).cached_listings_spec() == old(self).cached_listings_spec()
                    &&& if append {
                        final(self).same_reader(*old(self))
                    } else {
                        closes_hidden_reader(*old(self), *final(self))
                    }
                },
                Err(e) => {
                    &&& r == Some(e)
                    &&& final(self).status_spec() == ListStatus::Failed(e)
                    &&& final(self).active_dirty_spec() == (old(self).active_dirty_spec() || !append)
                    &&& final(self).folder_spec() == old(self).folder_spec()
                    &&& final(self).listing() == old(self).listing()
                    &&& final(self).next_page_spec() == old(self).next_page_spec()
                    &&& final(self).folder_has_more() == old(self).folder_has_more()
                    &&& final(self).searching_spec() == old(self).searching_spec()
                    &&& final(self).results() == old(self).results()
                    &&& final(self).visible_positions() == old(self).visible_positions()
                    &&& final(self).query_spec() == old(self).query_spec()
                    &&& final(self).search_request_spec() == old(self).search_request_spec()
                    &&& final(self).cached_listings_spec() == old(self).cached_listings_spec()
                    &&& final(self).same_reader(*old(self))
                },
            },
            awaited(old(self).status_spec(), request) is Some ==> final(self).same_actions(*old(self)) && final(self).same_counts(*old(self)),
            awaited(old(self).status_spec(), request) is Some ==> awaited(final(self).status_spec(), request) is None,
            final(self).consistent(),
    {
        let append = match self.status {
            ListStatus::Loading(id) => {
                if id != request {
                    return None;
                }
                false
            },
            ListStatus::Refreshing(id) => {
                if id != request {
                    return None;
                }
                false
            },
            ListStatus::LoadingMore(id) => {
                if id != request {
                    return None;
                }
                true
            },
            _ => return None,
        };
        match result {
            Ok(page) => {
                self.apply_page(page, append);
                self.status = ListStatus::Loaded;
                None
            },
            Err(error) => {
                if !append {
                    self.active_dirty = true;
                }
                self.status = ListStatus::Failed(error);
                Some(error)
            },
        }
    }

    /// Replaces the listing with a snapshot taken after a local action.
    /// The snapshot is the truth for the open folder; the others must be
    /// loaded again. When the open conversation left, the reader closes and
    /// the row that took its place on screen is named.
    pub fn apply_action_snapshot(&mut self, page: ConversationPage, counts: MailboxCounts) -> (r: Option<String>)
        requires
            old(self).consistent(),
        ensures
            final(self).listing() == page.conversations@,
            final(self).counts_spec() == Some(counts),
            final(self).counts_request_spec() is None,
            final(self).status_spec() == ListStatus::Loaded,
            final(self).folder_has_more() == (page.conversations@.len() < page.total),
            final(self).cached_listings_spec() == all_dirty(old(self).cached_listings_spec()),
            !final(self).active_dirty_spec(),
            final(self).folder_spec() == old(self).folder_spec(),
            final(self).next_page_spec() == old(self).next_page_spec(),
            final(self).searching_spec() == old(self).searching_spec(),
            final(self).results() == old(self).results(),
            final(self).query_spec() == old(self).query_spec(),
            final(self).search_request_spec() == old(self).search_request_spec(),
            final(self).same_actions(*old(self)),
            final(self).consistent(),
            ({
                let index = match old(self).selected_spec() {
                    Some(id) => if lists(old(self).visible_rows(), id) {
                        position_of(old(self).visible_rows(), id)
                    } else {
                        0
                    },
                    None => 0,
                };
                if old(self).selected_spec() matches Some(id) && !lists(final(self).visible_rows(), id) {
                    &&& final(self).reader_spec() is Empty
                    &&& names(r, row_after(final(self).visible_rows(), index))
                } else {
                    r is None && final(self).same_reader(*old(self))
                }
            }),
    {
        let selected: Option<String> = match self.reader.conversation_id() {
            Some(id) => Some(id.to_owned()),
            None => None,
        };
        let index = match &selected {
            Some(id) => match self.visible_index(id.as_str()) {
                Some(k) => k,
                None => 0,
            },
            None => 0,
        };
        let total = page.total;
        self.conversations = page.conversations;
        self.counts = Some(counts);
        self.counts_request = None;
        self.status = ListStatus::Loaded;
        self.has_more = self.conversations.len() < total as usize;
        self.invalidate_cached_listings();
        self.active_dirty = false;
        self.recompute_visible();
        let left = match &selected {
            Some(id) => self.visible_index(id.as_str()).is_none(),
            None => false,
        };
        if !left {
            return None;
        }
        self.open_row_after(index)
    }
}


/// Entries newest first: no entry sorts later than one before it.
pub open spec fn newest_first_order(s: Seq<(i64, ConversationSummary)>) -> bool {
    forall|i: int, j: int| 0 <= i < j < s.len() ==> (#[trigger] s[i]).0 >= (#[trigger] s[j]).0
}

proof fn lemma_insert_newest(s: Seq<(i64, ConversationSummary)>, e: (i64, ConversationSummary))
    ensures
        insert_newest(s, e).len() == s.len() + 1,
        insert_newest(s, e).to_multiset() =~= s.to_multiset().insert(e),
        forall|k: int| 0 <= k < insert_newest(s, e).len() ==> #[trigger] insert_newest(s, e)[k] == e || s.contains(insert_newest(s, e)[k]),
        newest_first_order(s) ==> newest_first_order(insert_newest(s, e)),
    decreases s.len(),
{
    broadcast use vstd::seq_lib::group_seq_properties;
    let r = insert_newest(s, e);
    if s.len() == 0 {
        assert(r =~= Seq::<(i64, ConversationSummary)>::empty().push(e));
    } else if s.last().0 >= e.0 {
        assert forall|k: int| 0 <= k < r.len() implies #[trigger] r[k] == e || s.contains(r[k]) by {
            if k < s.len() {
                assert(r[k] == s[k]);
            }
        }
    } else {
        let t = s.drop_last();
        lemma_insert_newest(t, e);
        let r1 = insert_newest(t, e);
        assert(s =~= t.push(s.last()));
        assert forall|k: int| 0 <= k < r.len() implies #[trigger] r[k] == e || s.contains(r[k]) by {
            if k < r1.len() {
                assert(r[k] == r1[k]);
                if r1[k] != e {
                    let m = choose|m: int| 0 <= m < t.len() && t[m] == r1[k];
                    assert(s[m] == t[m]);
                }
            } else {
                assert(r[k] == s[s.len() - 1]);
            }
        }
        if newest_first_order(s) {
            assert(newest_first_order(t)) by {
                assert forall|i: int, j: int| 0 <= i < j < t.len() implies (#[trigger] t[i]).0 >= (#[trigger] t[j]).0 by {
                    assert(t[i] == s[i]);
                    assert(t[j] == s[j]);
                }
            }
            assert forall|i: int, j: int| 0 <= i < j < r.len() implies (#[trigger] r[i]).0 >= (#[trigger] r[j]).0 by {
                if j == r.len() - 1 {
                    assert(r[j] == s.last());
                    assert(r[i] == r1[i]);
                    if r1[i] != e {
                        let m = choose|m: int| 0 <= m < t.len() && t[m] == r1[i];
                        assert(s[m] == t[m]);
                        assert(s[m].0 >= s[s.len() - 1].0);
                    }
                } else {
                    assert(r[i] == r1[i]);
                    assert(r[j] == r1[j]);
                }
            }
        }
    }
}

/// A row that answers the query is among the matching positions.
proof fn lemma_matching_holds(rows: Seq<ConversationSummary>, q: Seq<char>, k: int)
    requires
        0 <= k < rows.len(),
        row_matches(rows[k], q),
    ensures
        matching_positions(rows, q).contains(k),
    decreases rows.len(),
{
    if k < rows.len() - 1 {
        lemma_matching_holds(rows.drop_last(), q, k);
        assert(rows.drop_last()[k] == rows[k]);
        let r = matching_positions(rows.drop_last(), q);
        let j = choose|j: int| 0 <= j < r.len() && r[j] == k;
        if row_matches(rows.last(), q) {
            assert(r.push(rows.len() - 1)[j] == k);
        }
    } else {
        let r = matching_positions(rows.drop_last(), q);
        assert(r.push(rows.len() - 1)[r.len() as int] == k);
    }
}

/// While the listing is narrowed by what is typed (no search results on
/// screen), a row stays on screen when one of its participants has a name,
/// or an address, that holds the typed text, trimmed and in lower case,
/// ignoring case; so does a row whose subject, correspondents or preview
/// holds it.
pub proof fn law_rows_a_participant_answers_stay_visible(m: Mailbox, k: int, i: int)
    requires
        m.consistent(),
        !m.searching_spec(),
        0 <= k < m.listing().len(),
        0 <= i < m.listing()[k].participants@.len(),
    ensures
        (m.listing()[k].participants@[i].name matches Some(n) && holds_ignoring_case(
            n@,
            lowercase(trimmed(m.query_spec())),
        )) ==> m.visible_positions().contains(k),
        holds_ignoring_case(
            m.listing()[k].participants@[i].address@,
            lowercase(trimmed(m.query_spec())),
        ) ==> m.visible_positions().contains(k),
        (m.listing()[k].subject matches Some(t) && holds_ignoring_case(
            t@,
            lowercase(trimmed(m.query_spec())),
        )) ==> m.visible_positions().contains(k),
        (m.listing()[k].correspondents matches Some(t) && holds_ignoring_case(
            t@,
            lowercase(trimmed(m.query_spec())),
        )) ==> m.visible_positions().contains(k),
        (m.listing()[k].preview matches Some(t) && holds_ignoring_case(
            t@,
            lowercase(trimmed(m.query_spec())),
        )) ==> m.visible_positions().contains(k),
{
    let q = lowercase(trimmed(m.query_spec()));
    let row = m.listing()[k];
    let p = row.participants@[i];
    let hit = (p.name matches Some(n) && holds_ignoring_case(n@, q)) || holds_ignoring_case(p.address@, q)
        || (row.subject matches Some(t) && holds_ignoring_case(t@, q))
        || (row.correspondents matches Some(t) && holds_ignoring_case(t@, q))
        || (row.preview matches Some(t) && holds_ignoring_case(t@, q));
    if hit {
        if trimmed(m.query_spec()).len() == 0 {
            assert(every_position(m.listing().len())[k] == k);
        } else {
            assert(row_matches(row, q));
            lemma_matching_holds(m.listing(), q, k);
        }
    }
}

/// A confirmed change reaches every loaded copy of its row and nothing
/// else: marking read or unread sets the unread flag, starring sets the
/// star, other actions leave the copies as they are, and other rows never
/// change. Recording the same change twice is recording it once. Marking
/// read or unread never takes a row out of view, and neither does a move
/// to the folder on screen.
pub proof fn law_confirmed_changes_reach_only_their_row(
    rows: Seq<ConversationSummary>,
    id: Seq<char>,
    action: MailAction,
    folder: Folder,
)
    ensures
        apply_to_copies(rows, id, action).len() == rows.len(),
        forall|i: int|
            0 <= i < rows.len() && rows[i].id@ != id ==> #[trigger] apply_to_copies(rows, id, action)[i] == rows[i],
        forall|i: int|
            0 <= i < rows.len() && rows[i].id@ == id ==> #[trigger] apply_to_copies(rows, id, action)[i] == (
            match action {
                MailAction::SetUnread(u) => ConversationSummary { unread: u, ..rows[i] },
                MailAction::SetStarred(s) => ConversationSummary { starred: s, ..rows[i] },
                _ => rows[i],
            }),
        apply_to_copies(apply_to_copies(rows, id, action), id, action) == apply_to_copies(rows, id, action),
        action is SetUnread ==> !leaves(folder, action),
        action matches MailAction::MoveTo(to) && same_folder(to, folder) ==> !leaves(folder, action),
{
    let once = apply_to_copies(rows, id, action);
    let twice = apply_to_copies(once, id, action);
    assert forall|i: int| 0 <= i < rows.len() implies #[trigger] twice[i] == once[i] by {
        assert(once[i].id@ == rows[i].id@);
    }
    assert(twice =~= once);
}

/// Rows stay newest first: the sort keeps every row, and leaves them
/// ordered from the latest time to the earliest.
pub proof fn law_newest_first(rows: Seq<ConversationSummary>)
    ensures
        newest_first(rows).len() == rows.len(),
        newest_first_order(sort_newest(keyed(rows))),
        sort_newest(keyed(rows)).to_multiset() == keyed(rows).to_multiset(),
        keyed(rows).map_values(|e: (i64, ConversationSummary)| e.1) == rows,
{
    lemma_sort_newest(keyed(rows));
    assert(keyed(rows).map_values(|e: (i64, ConversationSummary)| e.1) =~= rows);
}

proof fn lemma_sort_newest(s: Seq<(i64, ConversationSummary)>)
    ensures
        sort_newest(s).len() == s.len(),
        newest_first_order(sort_newest(s)),
        sort_newest(s).to_multiset() =~= s.to_multiset(),
    decreases s.len(),
{
    broadcast use vstd::seq_lib::group_seq_properties;
    if s.len() > 0 {
        let t = s.drop_last();
        lemma_sort_newest(t);
        lemma_insert_newest(sort_newest(t), s.last());
        assert(s =~= t.push(s.last()));
    }
}

/// What the relations between two mailboxes say, in terms of what a
/// caller sees of them: the same list keeps the folder, its status, rows,
/// what is on screen, the search and the paging; the same reader keeps
/// the reader; the same actions keep the action, its error, the undo offer
/// and the reads in flight; the same counts keep the counts; the same
/// place keeps the folder, status, paging and search; and the same but the
/// reader keeps the list, the counts, the action, the undo offer and the
/// reads in flight.
pub proof fn lemma_same_parts(a: Mailbox, b: Mailbox)
    ensures
        a.same_list(b) ==> {
            &&& a.folder_spec() == b.folder_spec()
            &&& a.status_spec() == b.status_spec()
            &&& a.listing() == b.listing()
            &&& a.visible_positions() == b.visible_positions()
            &&& a.page_size_spec() == b.page_size_spec()
            &&& a.next_page_spec() == b.next_page_spec()
            &&& a.folder_has_more() == b.folder_has_more()
            &&& a.cached_listings_spec() == b.cached_listings_spec()
            &&& a.active_dirty_spec() == b.active_dirty_spec()
            &&& a.query_spec() == b.query_spec()
            &&& a.searching_spec() == b.searching_spec()
            &&& a.results() == b.results()
            &&& a.results_query() == b.results_query()
            &&& a.results_next_page() == b.results_next_page()
            &&& a.results_have_more() == b.results_have_more()
            &&& a.search_request_spec() == b.search_request_spec()
        },
        a.same_reader(b) ==> a.reader_spec() == b.reader_spec(),
        a.same_actions(b) ==> {
            &&& a.action_spec() == b.action_spec()
            &&& a.action_error_spec() == b.action_error_spec()
            &&& a.undo_spec() == b.undo_spec()
            &&& a.reads_spec() == b.reads_spec()
        },
        a.same_counts(b) ==> a.counts_spec() == b.counts_spec() && a.counts_request_spec() == b.counts_request_spec(),
        a.same_place(b) ==> {
            &&& a.folder_spec() == b.folder_spec()
            &&& a.status_spec() == b.status_spec()
            &&& a.page_size_spec() == b.page_size_spec()
            &&& a.next_page_spec() == b.next_page_spec()
            &&& a.folder_has_more() == b.folder_has_more()
            &&& a.query_spec() == b.query_spec()
            &&& a.search_request_spec() == b.search_request_spec()
            &&& a.searching_spec() == b.searching_spec()
            &&& a.results_query() == b.results_query()
            &&& a.results_next_page() == b.results_next_page()
            &&& a.results_have_more() == b.results_have_more()
        },
        a.same_but_reader(b) ==> {
            &&& a.same_list(b)
            &&& a.same_counts(b)
            &&& a.action_spec() == b.action_spec()
            &&& a.undo_spec() == b.undo_spec()
            &&& a.reads_spec() == b.reads_spec()
        },
{
}

} // verus!
