//! The open conversation: its messages in order, which of them are open,
//! and which quoted passages are unfolded.

use vstd::prelude::*;

use crate::model::{
    body_plain_text, folder_custom_id, labels_after, ConversationDetail, Folder, MailMessage,
    MailboxError, MessageBody,
};
use crate::text::{lemma_take_contains, other_than, at_most, chars_of, joined, same_text, split_whitespace, str_views, views, words};

verus! {

/// How many words a folded message's preview holds.
pub const PREVIEW_WORDS: usize = 40;

/// The settings that control how a conversation opens.
#[derive(Debug, Clone, Copy, PartialEq, Eq, Structural)]
pub struct Reading {
    pub expand_all_messages: bool,
    pub show_quoted_text: bool,
}

impl Default for Reading {
    fn default() -> (r: Self)
        ensures
            !r.expand_all_messages && !r.show_quoted_text,
    {
        Reading { expand_all_messages: false, show_quoted_text: false }
    }
}

/// Whether time `a` sorts no later than `b`; a missing time sorts first.
pub open spec fn time_le(a: Option<i64>, b: Option<i64>) -> bool {
    match (a, b) {
        (None, _) => true,
        (Some(_), None) => false,
        (Some(x), Some(y)) => x <= y,
    }
}

/// `m` placed after every message of `s` that is not later than it.
pub open spec fn insert_by_time(s: Seq<MailMessage>, m: MailMessage) -> Seq<MailMessage>
    decreases s.len(),
{
    if s.len() == 0 {
        seq![m]
    } else if time_le(s.last().time, m.time) {
        s.push(m)
    } else {
        insert_by_time(s.drop_last(), m).push(s.last())
    }
}

/// The messages oldest first, keeping the order of equal times, as a
/// stable sort by time does.
pub open spec fn sort_by_time(s: Seq<MailMessage>) -> Seq<MailMessage>
    decreases s.len(),
{
    if s.len() == 0 {
        s
    } else {
        insert_by_time(sort_by_time(s.drop_last()), s.last())
    }
}

/// The one line that stands for a folded message: its first words.
pub open spec fn preview_of(body: MessageBody) -> Seq<char> {
    joined(at_most(words(body_plain_text(body)), PREVIEW_WORDS as nat), " "@)
}

proof fn lemma_insert_at(s: Seq<MailMessage>, m: MailMessage, j: int)
    requires
        0 <= j <= s.len(),
        j == 0 || time_le(s[j - 1].time, m.time),
        forall|k: int| j <= k < s.len() ==> !time_le(#[trigger] s[k].time, m.time),
    ensures
        insert_by_time(s, m) == s.take(j).push(m) + s.skip(j),
    decreases s.len(),
{
    if s.len() == 0 {
        assert(s.take(j).push(m) + s.skip(j) =~= seq![m]);
    } else if j == s.len() {
        assert(time_le(s.last().time, m.time));
        assert(s.take(j).push(m) + s.skip(j) =~= s.push(m));
    } else {
        assert(!time_le(s.last().time, m.time));
        lemma_insert_at(s.drop_last(), m, j);
        assert(s.drop_last().take(j) =~= s.take(j));
        assert(s.take(j).push(m) + s.skip(j) =~= (s.take(j).push(m) + s.drop_last().skip(j)).push(
            s.last(),
        ));
    }
}

fn time_before_or_same(a: Option<i64>, b: Option<i64>) -> (r: bool)
    ensures
        r == time_le(a, b),
{
    match (a, b) {
        (None, _) => true,
        (Some(_), None) => false,
        (Some(x), Some(y)) => x <= y,
    }
}

/// The messages oldest first; equal times keep their order.
fn sorted_by_time(messages: Vec<MailMessage>) -> (r: Vec<MailMessage>)
    ensures
        r@ == sort_by_time(messages@),
{
    let ghost all = messages@;
    assert(all.len() == messages.len());
    let mut rest = messages;
    let mut out: Vec<MailMessage> = Vec::new();
    let mut taken: usize = 0;
    while rest.len() > 0
        invariant
            taken + rest.len() == all.len(),
            all.len() <= usize::MAX,
            rest@ == all.skip(taken as int),
            out@ == sort_by_time(all.take(taken as int)),
        decreases rest.len(),
    {
        let m = rest.remove(0);
        proof {
            assert(all.take(taken + 1).drop_last() =~= all.take(taken as int));
            assert(all.take(taken + 1).last() == m);
        }
        let mut j = out.len();
        while j > 0 && !time_before_or_same(out[j - 1].time, m.time)
            invariant
                j <= out.len(),
                forall|k: int| j <= k < out.len() ==> !time_le(#[trigger] out@[k].time, m.time),
            decreases j,
        {
            j -= 1;
        }
        proof {
            lemma_insert_at(out@, m, j as int);
        }
        let ghost before = out@;
        out.insert(j, m);
        assert(out@ =~= before.take(j as int).push(m) + before.skip(j as int));
        taken += 1;
        assert(rest@ =~= all.skip(taken as int));
    }
    assert(all.take(all.len() as int) =~= all);
    out
}

/// The opening words of a message, flattened to one line.
fn preview(body: &MessageBody) -> (r: String)
    ensures
        r@ == preview_of(*body),
{
    let text = body.plain_text();
    let ws = split_whitespace(&chars_of(text.as_str()));
    let n = if ws.len() > PREVIEW_WORDS { PREVIEW_WORDS } else { ws.len() };
    let ghost all = views(ws@);
    let mut out = String::new();
    let mut i: usize = 0;
    while i < n
        invariant
            n <= ws.len(),
            i <= n,
            all == views(ws@),
            out@ == joined(all.take(i as int), " "@),
        decreases n - i,
    {
        proof {
            assert(all.take(i + 1).drop_last() =~= all.take(i as int));
            assert(all.take(i + 1).last() == ws@[i as int]@);
        }
        if i > 0 {
            out.append(" ");
        }
        let word = crate::text::string_of(&ws[i]);
        out.append(word.as_str());
        proof {
            if i == 0 {
                assert(out@ =~= all.take(1)[0]);
            }
        }
        i += 1;
    }
    proof {
        if all.len() > PREVIEW_WORDS {
            assert(at_most(all, PREVIEW_WORDS as nat) == all.take(n as int));
        } else {
            assert(all.take(n as int) =~= all);
        }
    }
    out
}

/// Each toggled passage as the message id's text and the position.
pub open spec fn passage_views(v: Seq<(String, usize)>) -> Seq<(Seq<char>, usize)> {
    v.map_values(|q: (String, usize)| (q.0@, q.1))
}

/// Whether a message of this id is in the list.
pub open spec fn has_message(messages: Seq<MailMessage>, id: Seq<char>) -> bool {
    exists|i: int| 0 <= i < messages.len() && (#[trigger] messages[i]).id@ == id
}

/// A reader just opened on `detail`: its messages oldest first, nothing
/// folded the other way, and each message's preview ready.
pub open spec fn opened_on(r: ConversationReader, detail: ConversationDetail) -> bool {
    &&& r.shown().id == detail.id
    &&& r.shown().subject == detail.subject
    &&& r.shown().labels == detail.labels
    &&& r.shown().messages@ == sort_by_time(detail.messages@)
    &&& r.toggled_ids() == Set::<Seq<char>>::empty()
    &&& r.toggled_passages() == Set::<(Seq<char>, usize)>::empty()
    &&& forall|i: int| #![trigger r.preview_spec(i)] 0 <= i < r.shown().messages@.len() ==> r.preview_spec(i) == preview_of(r.shown().messages@[i].body)
}

/// `b` is `a` with one message of the conversation folded the other way;
/// an id the conversation does not hold changes nothing.
pub open spec fn after_toggle(a: ConversationReader, b: ConversationReader, id: Seq<char>) -> bool {
    &&& b.shown() == a.shown()
    &&& b.toggled_passages() == a.toggled_passages()
    &&& forall|i: int| #[trigger] b.preview_spec(i) == a.preview_spec(i)
    &&& b.toggled_ids() == if !a.knows_spec(id) {
        a.toggled_ids()
    } else if a.toggled_ids().contains(id) {
        a.toggled_ids().remove(id)
    } else {
        a.toggled_ids().insert(id)
    }
}

/// `b` is `a` with one quoted passage folded the other way; an id the
/// conversation does not hold changes nothing.
pub open spec fn after_toggle_quote(a: ConversationReader, b: ConversationReader, id: Seq<char>, index: usize) -> bool {
    &&& b.shown() == a.shown()
    &&& b.toggled_ids() == a.toggled_ids()
    &&& forall|i: int| #[trigger] b.preview_spec(i) == a.preview_spec(i)
    &&& b.toggled_passages() == if !a.knows_spec(id) {
        a.toggled_passages()
    } else if a.toggled_passages().contains((id, index)) {
        a.toggled_passages().remove((id, index))
    } else {
        a.toggled_passages().insert((id, index))
    }
}

/// `b` is `a` with the label given to the conversation (`on`) or taken
/// away; a folder that is no account label changes nothing.
pub open spec fn after_label(a: ConversationReader, b: ConversationReader, label: Folder, on: bool) -> bool {
    &&& b.shown().id == a.shown().id
    &&& b.shown().subject == a.shown().subject
    &&& b.shown().messages == a.shown().messages
    &&& folder_custom_id(label) is None ==> b.shown().labels == a.shown().labels
    &&& folder_custom_id(label) matches Some(id) ==> str_views(b.shown().labels@)
        == labels_after(str_views(a.shown().labels@), id, on)
    &&& b.toggled_ids() == a.toggled_ids()
    &&& b.toggled_passages() == a.toggled_passages()
    &&& forall|i: int| #[trigger] b.preview_spec(i) == a.preview_spec(i)
}

/// View state for the selected conversation.
#[derive(Debug, Clone, PartialEq, Eq)]
pub struct ConversationReader {
    detail: ConversationDetail,
    /// Messages manually toggled away from the configured default.
    toggled: Vec<String>,
    /// Quoted passages folded the other way, as (message id, position).
    toggled_quotes: Vec<(String, usize)>,
    /// Cached collapsed previews in `detail.messages` order.
    previews: Vec<String>,
}

impl ConversationReader {
    /// The conversation this reader shows.
    pub closed spec fn shown(self) -> ConversationDetail {
        self.detail
    }

    /// The messages folded the other way from what the settings say.
    pub closed spec fn toggled_ids(self) -> Set<Seq<char>> {
        str_views(self.toggled@).to_set()
    }

    /// The quoted passages folded the other way from the settings.
    pub closed spec fn toggled_passages(self) -> Set<(Seq<char>, usize)> {
        passage_views(self.toggled_quotes@).to_set()
    }

    /// The previews of the messages, in the order they are shown.
    pub closed spec fn previews(self) -> Seq<Seq<char>> {
        str_views(self.previews@)
    }

    /// The preview of the message at this position, empty past the end.
    pub open spec fn preview_spec(self, index: int) -> Seq<char> {
        if 0 <= index < self.previews().len() {
            self.previews()[index]
        } else {
            Seq::<char>::empty()
        }
    }

    /// Whether a message is open: as the settings have it, unless it was
    /// folded the other way by hand.
    pub open spec fn expanded_spec(self, id: Seq<char>, reading: Reading) -> bool {
        self.opens_on_its_own_spec(id, reading) != self.toggled_ids().contains(id)
    }

    /// Whether a quoted passage is unfolded: as the settings have it,
    /// unless it was folded the other way by hand.
    pub open spec fn quote_expanded_spec(self, id: Seq<char>, index: usize, reading: Reading) -> bool {
        reading.show_quoted_text != self.toggled_passages().contains((id, index))
    }

    /// Orders messages oldest first. Which of them start open is left to
    /// the settings, read through [`Self::is_expanded`].
    pub fn new(detail: ConversationDetail) -> (r: Self)
        ensures
            opened_on(r, detail),
    {
        let ConversationDetail { id, subject, messages, labels } = detail;
        let messages = sorted_by_time(messages);
        let mut previews: Vec<String> = Vec::new();
        let mut i: usize = 0;
        while i < messages.len()
            invariant
                i <= messages.len(),
                previews@.len() == i,
                forall|k: int| 0 <= k < i ==> (#[trigger] previews@[k])@ == preview_of(messages@[k].body),
            decreases messages.len() - i,
        {
            previews.push(preview(&messages[i].body));
            i += 1;
        }
        let toggled: Vec<String> = Vec::new();
        let toggled_quotes: Vec<(String, usize)> = Vec::new();
        proof {
            assert(str_views(toggled@) =~= Seq::<Seq<char>>::empty());
            assert(str_views(toggled@).to_set() =~= Set::<Seq<char>>::empty());
            assert(passage_views(toggled_quotes@).to_set() =~= Set::<(Seq<char>, usize)>::empty());
        }
        ConversationReader {
            detail: ConversationDetail { id, subject, messages, labels },
            toggled,
            toggled_quotes,
            previews,
        }
    }

    /// The line that stands in for the message at this position while folded.
    pub fn preview_at(&self, index: usize) -> (r: &str)
        ensures
            r@ == self.preview_spec(index as int),
    {
        if index < self.previews.len() {
            self.previews[index].as_str()
        } else {
            proof {
                reveal_strlit("");
            }
            ""
        }
    }

    pub fn conversation_id(&self) -> (r: &str)
        ensures
            r@ == self.shown().id@,
    {
        self.detail.id.as_str()
    }

    pub fn detail(&self) -> (r: &ConversationDetail)
        ensures
            *r == self.shown(),
    {
        &self.detail
    }

    /// The messages folded the other way from what the settings say.
    pub fn toggled(&self) -> (r: &Vec<String>)
        ensures
            str_views(r@).to_set() == self.toggled_ids(),
    {
        &self.toggled
    }

    /// Records a label the open conversation was just given or had taken
    /// away, so the reader shows it without loading the thread again.
    pub fn set_label(&mut self, label: &Folder, on: bool)
        ensures
            after_label(*old(self), *final(self), *label, on),
    {
        self.detail.set_label(label, on);
    }

    /// Whether settings open this message before manual overrides: every
    /// message when asked to, otherwise only the newest.
    pub open spec fn opens_on_its_own_spec(self, id: Seq<char>, reading: Reading) -> bool {
        reading.expand_all_messages || (self.shown().messages@.len() > 0
            && self.shown().messages@.last().id@ == id)
    }

    fn opens_on_its_own(&self, message_id: &str, reading: Reading) -> (r: bool)
        ensures
            r == self.opens_on_its_own_spec(message_id@, reading),
    {
        if reading.expand_all_messages {
            return true;
        }
        let n = self.detail.messages.len();
        n > 0 && same_text(self.detail.messages[n - 1].id.as_str(), message_id)
    }

    fn is_toggled(&self, message_id: &str) -> (r: bool)
        ensures
            r == self.toggled_ids().contains(message_id@),
    {
        let mut i: usize = 0;
        while i < self.toggled.len()
            invariant
                i <= self.toggled.len(),
                forall|k: int| 0 <= k < i ==> self.toggled@[k]@ != message_id@,
            decreases self.toggled.len() - i,
        {
            if same_text(self.toggled[i].as_str(), message_id) {
                assert(str_views(self.toggled@)[i as int] == message_id@);
                return true;
            }
            i += 1;
        }
        proof {
            if str_views(self.toggled@).contains(message_id@) {
                let k = choose|k: int| 0 <= k < str_views(self.toggled@).len() && str_views(self.toggled@)[k] == message_id@;
                assert(self.toggled@[k]@ == message_id@);
            }
        }
        false
    }

    /// Open when the settings open it, unless it was toggled by hand.
    pub fn is_expanded(&self, message_id: &str, reading: Reading) -> (r: bool)
        ensures
            r == (self.opens_on_its_own_spec(message_id@, reading) != self.toggled_ids().contains(
                message_id@,
            )),
            r == self.expanded_spec(message_id@, reading),
    {
        self.opens_on_its_own(message_id, reading) != self.is_toggled(message_id)
    }

    /// Whether the conversation holds a message of this id.
    pub open spec fn knows_spec(self, id: Seq<char>) -> bool {
        has_message(self.shown().messages@, id)
    }

    fn knows(&self, message_id: &str) -> (r: bool)
        ensures
            r == self.knows_spec(message_id@),
    {
        let mut i: usize = 0;
        while i < self.detail.messages.len()
            invariant
                i <= self.detail.messages.len(),
                forall|k: int| 0 <= k < i ==> self.detail.messages@[k].id@ != message_id@,
            decreases self.detail.messages.len() - i,
        {
            if same_text(self.detail.messages[i].id.as_str(), message_id) {
                assert((self.detail.messages@[i as int]).id@ == message_id@);
                return true;
            }
            i += 1;
        }
        false
    }

    /// Folds or unfolds one message the other way from what the settings
    /// say. An id the conversation does not hold changes nothing.
    pub fn toggle(&mut self, message_id: &str)
        ensures
            after_toggle(*old(self), *final(self), message_id@),
    {
        if !self.knows(message_id) {
            return ;
        }
        let ghost before = str_views(self.toggled@);
        let mut kept: Vec<String> = Vec::new();
        let mut found = false;
        let mut i: usize = 0;
        while i < self.toggled.len()
            invariant
                i <= self.toggled.len(),
                before == str_views(self.toggled@),
                str_views(kept@) == before.take(i as int).filter(other_than(message_id@)),
                found == before.take(i as int).contains(message_id@),
            decreases self.toggled.len() - i,
        {
            proof {
                reveal(Seq::filter);
                assert(before.take(i + 1).drop_last() =~= before.take(i as int));
                assert(before.take(i + 1).last() == before[i as int]);
            }
            let ghost prev = kept@;
            if same_text(self.toggled[i].as_str(), message_id) {
                found = true;
            } else {
                kept.push(self.toggled[i].clone());
                assert(str_views(kept@) =~= str_views(prev).push(before[i as int]));
            }
            proof {
                lemma_take_contains(before, i as int);
            }
            i += 1;
        }
        assert(before.take(self.toggled.len() as int) =~= before);
        proof {
            let kv = str_views(kept@);
            if found {
                assert(kv.to_set() =~= before.to_set().remove(message_id@)) by {
                    lemma_filter_set(before, message_id@);
                }
            } else {
                assert(kv.to_set() =~= before.to_set()) by {
                    lemma_filter_set(before, message_id@);
                }
                assert(!before.to_set().contains(message_id@));
            }
        }
        if !found {
            let ghost prev = kept@;
            kept.push(message_id.to_owned());
            proof {
                assert(str_views(kept@) =~= str_views(prev).push(message_id@));
                lemma_push_to_set(str_views(prev), message_id@);
            }
        }
        self.toggled = kept;
    }

    /// Whether this quoted passage is unfolded: the setting, unless it was
    /// folded the other way by hand.
    pub fn is_quote_expanded(&self, message_id: &str, index: usize, reading: Reading) -> (r: bool)
        ensures
            r == (reading.show_quoted_text != self.toggled_passages().contains((message_id@, index))),
            r == self.quote_expanded_spec(message_id@, index, reading),
    {
        let mut toggled = false;
        let mut i: usize = 0;
        let ghost qv = passage_views(self.toggled_quotes@);
        while i < self.toggled_quotes.len()
            invariant
                i <= self.toggled_quotes.len(),
                qv == passage_views(self.toggled_quotes@),
                toggled == qv.take(i as int).contains((message_id@, index)),
            decreases self.toggled_quotes.len() - i,
        {
            let hit = same_text(self.toggled_quotes[i].0.as_str(), message_id)
                && self.toggled_quotes[i].1 == index;
            proof {
                assert(qv.take(i + 1).drop_last() =~= qv.take(i as int));
                assert(qv.take(i + 1)[i as int] == qv[i as int]);
                lemma_take_contains(qv, i as int);
            }
            if hit {
                toggled = true;
            }
            i += 1;
        }
        assert(qv.take(self.toggled_quotes.len() as int) =~= qv);
        reading.show_quoted_text != toggled
    }

    /// Folds or unfolds one quoted passage the other way. An id the
    /// conversation does not hold changes nothing.
    pub fn toggle_quote(&mut self, message_id: &str, index: usize)
        ensures
            after_toggle_quote(*old(self), *final(self), message_id@, index),
    {
        if !self.knows(message_id) {
            return ;
        }
        let ghost key = (message_id@, index);
        let ghost qv = passage_views(self.toggled_quotes@);
        let mut kept: Vec<(String, usize)> = Vec::new();
        let mut found = false;
        let mut i: usize = 0;
        while i < self.toggled_quotes.len()
            invariant
                i <= self.toggled_quotes.len(),
                qv == passage_views(self.toggled_quotes@),
                key == (message_id@, index),
                passage_views(kept@) == qv.take(i as int).filter(other_than(key)),
                found == qv.take(i as int).contains(key),
            decreases self.toggled_quotes.len() - i,
        {
            proof {
                reveal(Seq::filter);
                assert(qv.take(i + 1).drop_last() =~= qv.take(i as int));
                assert(qv.take(i + 1).last() == qv[i as int]);
                lemma_take_contains(qv, i as int);
                assert(qv.take(i + 1)[i as int] == qv[i as int]);
            }
            let ghost prev = kept@;
            let hit = same_text(self.toggled_quotes[i].0.as_str(), message_id)
                && self.toggled_quotes[i].1 == index;
            assert(qv[i as int] == (self.toggled_quotes@[i as int].0@, self.toggled_quotes@[i as int].1));
            assert(hit == (qv[i as int] == key));
            if hit {
                found = true;
            } else {
                let entry = (self.toggled_quotes[i].0.clone(), self.toggled_quotes[i].1);
                kept.push(entry);
                assert(passage_views(kept@) =~= passage_views(prev).push(qv[i as int]));
            }
            i += 1;
        }
        assert(qv.take(self.toggled_quotes.len() as int) =~= qv);
        let ghost kv = passage_views(kept@);
        proof {
            lemma_filter_set(qv, key);
            assert(found == qv.contains(key));
            assert(qv.to_set() == old(self).toggled_passages());
        }
        if !found {
            let ghost prev = kept@;
            kept.push((message_id.to_owned(), index));
            proof {
                assert(passage_views(kept@) =~= kv.push(key));
                lemma_push_to_set(kv, key);
                assert(!qv.to_set().contains(key));
                assert(qv.to_set().remove(key) =~= qv.to_set());
            }
        }
        proof {
            assert(kv == qv.filter(other_than(key)));
            assert(kv.to_set() == qv.to_set().remove(key));
        }
        self.toggled_quotes = kept;
        proof {
            if found {
                assert(self.toggled_passages() == passage_views(kept@).to_set());
            }
        }
    }
}

proof fn lemma_push_to_set<A>(s: Seq<A>, x: A)
    ensures
        s.push(x).to_set() == s.to_set().insert(x),
{
    assert forall|y: A| #[trigger] s.push(x).contains(y) <==> (s.contains(y) || y == x) by {
        if s.contains(y) {
            let k = choose|k: int| 0 <= k < s.len() && s[k] == y;
            assert(s.push(x)[k] == y);
        }
        if y == x {
            assert(s.push(x)[s.len() as int] == y);
        }
        if s.push(x).contains(y) {
            let k = choose|k: int| 0 <= k < s.push(x).len() && s.push(x)[k] == y;
            if k < s.len() {
                assert(s[k] == y);
            }
        }
    }
    assert(s.push(x).to_set() =~= s.to_set().insert(x));
}

proof fn lemma_filter_set<A>(s: Seq<A>, x: A)
    ensures
        s.filter(other_than(x)).to_set() == s.to_set().remove(x),
        s.to_set().contains(x) == s.contains(x),
{
    let p = other_than(x);
    let f = s.filter(p);
    assert forall|y: A| #[trigger] f.contains(y) <==> (s.contains(y) && y != x) by {
        if f.contains(y) {
            s.lemma_filter_contains_rev(p, y);
            let k = choose|k: int| 0 <= k < f.len() && f[k] == y;
            s.lemma_filter_pred(p, k);
        }
        if s.contains(y) && y != x {
            let k = choose|k: int| 0 <= k < s.len() && s[k] == y;
            s.lemma_filter_contains(p, k);
        }
    }
    assert(f.to_set() =~= s.to_set().remove(x));
}

/// What the reader pane holds.
#[derive(Debug, Clone, PartialEq, Eq)]
pub enum ReaderState {
    Empty,
    Loading { conversation_id: String, request: u64 },
    Loaded(ConversationReader),
    Failed { conversation_id: String, error: MailboxError },
}

impl Default for ReaderState {
    fn default() -> (r: Self)
        ensures
            r is Empty,
    {
        ReaderState::Empty
    }
}

/// The conversation the reader pane is about, if any.
pub open spec fn reader_conversation(r: ReaderState) -> Option<Seq<char>> {
    match r {
        ReaderState::Empty => None,
        ReaderState::Loading { conversation_id, .. } => Some(conversation_id@),
        ReaderState::Failed { conversation_id, .. } => Some(conversation_id@),
        ReaderState::Loaded(reader) => Some(reader.shown().id@),
    }
}

impl ReaderState {
    pub fn conversation_id(&self) -> (r: Option<&str>)
        ensures
            r matches Some(s) ==> reader_conversation(*self) == Some(s@),
            r is None ==> reader_conversation(*self) is None,
    {
        match self {
            ReaderState::Empty => None,
            ReaderState::Loading { conversation_id, .. } => Some(conversation_id.as_str()),
            ReaderState::Failed { conversation_id, .. } => Some(conversation_id.as_str()),
            ReaderState::Loaded(reader) => Some(reader.conversation_id()),
        }
    }
}


/// Folding a message the other way twice leaves the reader as it was.
pub proof fn law_toggling_twice_restores(a: ConversationReader, b: ConversationReader, c: ConversationReader, id: Seq<char>)
    requires
        after_toggle(a, b, id),
        after_toggle(b, c, id),
    ensures
        c.shown() == a.shown(),
        c.toggled_ids() == a.toggled_ids(),
        c.toggled_passages() == a.toggled_passages(),
        forall|i: int| #[trigger] c.preview_spec(i) == a.preview_spec(i),
{
    assert(b.knows_spec(id) == a.knows_spec(id));
    if a.knows_spec(id) {
        if a.toggled_ids().contains(id) {
            assert(c.toggled_ids() =~= a.toggled_ids());
        } else {
            assert(c.toggled_ids() =~= a.toggled_ids());
        }
    }
}

/// Folding a quoted passage the other way twice leaves the reader as it
/// was.
pub proof fn law_toggling_a_quote_twice_restores(a: ConversationReader, b: ConversationReader, c: ConversationReader, id: Seq<char>, index: usize)
    requires
        after_toggle_quote(a, b, id, index),
        after_toggle_quote(b, c, id, index),
    ensures
        c.shown() == a.shown(),
        c.toggled_ids() == a.toggled_ids(),
        c.toggled_passages() == a.toggled_passages(),
        forall|i: int| #[trigger] c.preview_spec(i) == a.preview_spec(i),
{
    assert(b.knows_spec(id) == a.knows_spec(id));
    if a.knows_spec(id) {
        assert(c.toggled_passages() =~= a.toggled_passages());
    }
}

/// Folding a message of the conversation the other way flips whether it
/// is open, whatever the settings, and leaves every other message, every
/// quoted passage and every preview as it was. A message the conversation
/// does not hold changes nothing.
pub proof fn law_toggle_flips_one_message(
    a: ConversationReader,
    b: ConversationReader,
    id: Seq<char>,
    other: Seq<char>,
    quoted: Seq<char>,
    index: usize,
    reading: Reading,
)
    requires
        after_toggle(a, b, id),
    ensures
        a.knows_spec(id) ==> b.expanded_spec(id, reading) == !a.expanded_spec(id, reading),
        !a.knows_spec(id) ==> b.expanded_spec(id, reading) == a.expanded_spec(id, reading),
        other != id ==> b.expanded_spec(other, reading) == a.expanded_spec(other, reading),
        b.quote_expanded_spec(quoted, index, reading) == a.quote_expanded_spec(quoted, index, reading),
        b.shown() == a.shown(),
{
}

/// Folding a quoted passage the other way flips whether it is unfolded,
/// whatever the settings, and leaves every other passage and every message
/// as it was. A message the conversation does not hold changes nothing.
pub proof fn law_toggle_quote_flips_one_passage(
    a: ConversationReader,
    b: ConversationReader,
    id: Seq<char>,
    index: usize,
    other: Seq<char>,
    other_index: usize,
    message: Seq<char>,
    reading: Reading,
)
    requires
        after_toggle_quote(a, b, id, index),
    ensures
        a.knows_spec(id) ==> b.quote_expanded_spec(id, index, reading) == !a.quote_expanded_spec(id, index, reading),
        !a.knows_spec(id) ==> b.quote_expanded_spec(id, index, reading) == a.quote_expanded_spec(id, index, reading),
        (other, other_index) != (id, index) ==> b.quote_expanded_spec(other, other_index, reading) == a.quote_expanded_spec(other, other_index, reading),
        b.expanded_spec(message, reading) == a.expanded_spec(message, reading),
        b.shown() == a.shown(),
{
}

} // verus!
