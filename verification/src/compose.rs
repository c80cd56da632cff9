//! A message being written: its fields, whether it can be sent, and how
//! far along sending it is.

use vstd::prelude::*;

use crate::outgoing::{read_recipients, recipients, BodyFormat, Kind, Outgoing, SendError};
use crate::text::{is_blank, is_blank_seq, joined, pieces, same_text, str_views, trim, trimmed};

verus! {

pub type ComposeId = u64;

/// One of the fields being typed into.
#[derive(Debug, Clone, Copy, PartialEq, Eq, Structural)]
pub enum ComposeField {
    To,
    Cc,
    Bcc,
    Subject,
    Body,
}

/// Why a message cannot leave yet.
#[derive(Debug, Clone, PartialEq, Eq)]
pub enum NotReady {
    /// Nobody to send it to.
    NoRecipients,
    /// Pieces of a recipient field that do not look like an address.
    BadAddresses(Vec<String>),
}

pub open spec fn not_ready_message(n: NotReady) -> Seq<char> {
    match n {
        NotReady::NoRecipients => "Add someone to send this to."@,
        NotReady::BadAddresses(pieces) => "This does not look like an address: "@ + joined(
            str_views(pieces@),
            ", "@,
        ),
    }
}

impl NotReady {
    pub fn message(&self) -> (r: String)
        ensures
            r@ == not_ready_message(*self),
    {
        match self {
            NotReady::NoRecipients => "Add someone to send this to.".to_owned(),
            NotReady::BadAddresses(pieces) => {
                let mut out = "This does not look like an address: ".to_owned();
                let list = crate::text::join_strings(pieces, ", ");
                out.append(list.as_str());
                out
            },
        }
    }
}

/// How far along a message is.
#[derive(Debug, PartialEq, Eq)]
pub enum Sending {
    /// Still being written.
    Writing,
    /// Handed over, waiting to hear back.
    InFlight,
    /// The send failed or its outcome could not be confirmed.
    Failed(SendError),
}

impl Clone for Sending {
    fn clone(&self) -> (r: Self)
        ensures
            r == *self,
    {
        match self {
            Sending::Writing => Sending::Writing,
            Sending::InFlight => Sending::InFlight,
            Sending::Failed(e) => Sending::Failed(e.clone()),
        }
    }
}

/// The message being answered. Proton determines recipients and subject.
#[derive(Debug, Clone, PartialEq, Eq)]
pub struct Answering {
    pub sender: String,
    pub subject: String,
    pub everyone: bool,
}

/// A message being written.
#[derive(Debug, PartialEq, Eq)]
pub struct Compose {
    id: ComposeId,
    kind: Kind,
    answering: Option<Answering>,
    to: String,
    cc: String,
    bcc: String,
    subject: String,
    body: String,
    attachments: Vec<String>,
    /// Whether the copy fields are on show. They start hidden.
    more: bool,
    state: Sending,
    confirming_discard: bool,
}

impl Default for Compose {
    fn default() -> (r: Self)
        ensures
            r.id_spec() == 0,
            r.kind_spec() == Kind::New,
            r.answering_spec() is None,
            forall|f: ComposeField| #[trigger] r.text(f).len() == 0,
            r.attachment_list().len() == 0,
            !r.more_spec(),
            r.state_spec() == Sending::Writing,
            !r.confirming_spec(),
    {
        Compose::new(0, Kind::New, None)
    }
}

/// A failure that editing the message clears; an unconfirmed send stays
/// on show until it is settled.
pub open spec fn cleared_by_editing(s: Sending) -> bool {
    s matches Sending::Failed(e) && !(e is Unconfirmed)
}

/// The recipients a field comes to.
pub open spec fn field_recipients(text: Seq<char>) -> (Seq<Seq<char>>, Seq<Seq<char>>) {
    read_recipients(pieces(text, set![',', ';']))
}

/// Every piece of every field is an address, and there is somebody to
/// send to unless a reply already knows.
pub open spec fn can_send(kind: Kind, to: Seq<char>, cc: Seq<char>, bcc: Seq<char>) -> bool {
    let (to_ok, to_bad) = field_recipients(to);
    let (cc_ok, cc_bad) = field_recipients(cc);
    let (bcc_ok, bcc_bad) = field_recipients(bcc);
    &&& to_bad.len() == 0 && cc_bad.len() == 0 && bcc_bad.len() == 0
    &&& (kind is Reply || to_ok.len() > 0 || cc_ok.len() > 0 || bcc_ok.len() > 0)
}

/// What a draft comes to: the message to send, or why it cannot be sent.
pub open spec fn ready_spec(
    kind: Kind,
    to: Seq<char>,
    cc: Seq<char>,
    bcc: Seq<char>,
    subject: Seq<char>,
    body: Seq<char>,
    attachments: Seq<Seq<char>>,
    format: BodyFormat,
    r: Result<Outgoing, NotReady>,
) -> bool {
    let (to_ok, to_bad) = field_recipients(to);
    let (cc_ok, cc_bad) = field_recipients(cc);
    let (bcc_ok, bcc_bad) = field_recipients(bcc);
    let bad = to_bad + cc_bad + bcc_bad;
    if bad.len() > 0 {
        r matches Err(NotReady::BadAddresses(pieces)) && str_views(pieces@) == bad
    } else if !(kind is Reply) && to_ok.len() == 0 && cc_ok.len() == 0 && bcc_ok.len() == 0 {
        r == Err::<Outgoing, NotReady>(NotReady::NoRecipients)
    } else {
        r matches Ok(o) && o.kind == kind && str_views(o.to@) == to_ok && str_views(o.cc@)
            == cc_ok && str_views(o.bcc@) == bcc_ok && o.subject@ == trimmed(subject) && o.body@
            == body && o.format == format && str_views(o.attachments@) == attachments
    }
}

impl Compose {
    /// A fresh message of this kind, answering what `answering` says.
    pub fn new(id: ComposeId, kind: Kind, answering: Option<Answering>) -> (r: Self)
        ensures
            r.id_spec() == id,
            r.kind_spec() == kind,
            r.answering_spec() == answering,
            forall|f: ComposeField| #[trigger] r.text(f).len() == 0,
            r.attachment_list().len() == 0,
            !r.more_spec(),
            r.state_spec() == Sending::Writing,
            !r.confirming_spec(),
    {
        let attachments: Vec<String> = Vec::new();
        assert(str_views(attachments@) =~= Seq::<Seq<char>>::empty());
        Compose {
            id,
            kind,
            answering,
            to: String::new(),
            cc: String::new(),
            bcc: String::new(),
            subject: String::new(),
            body: String::new(),
            attachments,
            more: false,
            state: Sending::Writing,
            confirming_discard: false,
        }
    }

    pub closed spec fn id_spec(self) -> ComposeId {
        self.id
    }

    pub closed spec fn kind_spec(self) -> Kind {
        self.kind
    }

    pub closed spec fn answering_spec(self) -> Option<Answering> {
        self.answering
    }

    /// What is typed in a field.
    pub closed spec fn text(self, f: ComposeField) -> Seq<char> {
        match f {
            ComposeField::To => self.to@,
            ComposeField::Cc => self.cc@,
            ComposeField::Bcc => self.bcc@,
            ComposeField::Subject => self.subject@,
            ComposeField::Body => self.body@,
        }
    }

    /// The paths of the attached files, in the order they were added.
    pub closed spec fn attachment_list(self) -> Seq<Seq<char>> {
        str_views(self.attachments@)
    }

    pub closed spec fn more_spec(self) -> bool {
        self.more
    }

    pub closed spec fn state_spec(self) -> Sending {
        self.state
    }

    pub closed spec fn confirming_spec(self) -> bool {
        self.confirming_discard
    }

    pub fn id(&self) -> (r: ComposeId)
        ensures
            r == self.id_spec(),
    {
        self.id
    }

    pub fn field(&self, field: ComposeField) -> (r: &str)
        ensures
            r@ == self.text(field),
    {
        match field {
            ComposeField::To => self.to.as_str(),
            ComposeField::Cc => self.cc.as_str(),
            ComposeField::Bcc => self.bcc.as_str(),
            ComposeField::Subject => self.subject.as_str(),
            ComposeField::Body => self.body.as_str(),
        }
    }

    /// Replaces what is typed in one field. Editing withdraws a pending
    /// discard question and clears a refusal, but not an unconfirmed send.
    pub fn set(&mut self, field: ComposeField, value: String)
        ensures
            final(self).text(field) == value@,
            forall|f: ComposeField| f != field ==> #[trigger] final(self).text(f) == old(self).text(f),
            !final(self).confirming_spec(),
            final(self).state_spec() == (if cleared_by_editing(old(self).state_spec()) {
                Sending::Writing
            } else {
                old(self).state_spec()
            }),
            final(self).id_spec() == old(self).id_spec(),
            final(self).kind_spec() == old(self).kind_spec(),
            final(self).answering_spec() == old(self).answering_spec(),
            final(self).attachment_list() == old(self).attachment_list(),
            final(self).more_spec() == old(self).more_spec(),
    {
        match field {
            ComposeField::To => self.to = value,
            ComposeField::Cc => self.cc = value,
            ComposeField::Bcc => self.bcc = value,
            ComposeField::Subject => self.subject = value,
            ComposeField::Body => self.body = value,
        }
        self.edited();
    }

    /// Editing withdraws a discard question and clears a refusal.
    fn edited(&mut self)
        ensures
            !final(self).confirming_spec(),
            final(self).state_spec() == (if cleared_by_editing(old(self).state_spec()) {
                Sending::Writing
            } else {
                old(self).state_spec()
            }),
            final(self).id == old(self).id,
            final(self).kind == old(self).kind,
            final(self).answering == old(self).answering,
            final(self).to == old(self).to,
            final(self).cc == old(self).cc,
            final(self).bcc == old(self).bcc,
            final(self).subject == old(self).subject,
            final(self).body == old(self).body,
            final(self).attachments == old(self).attachments,
            final(self).more == old(self).more,
    {
        self.confirming_discard = false;
        let clear = match &self.state {
            Sending::Failed(SendError::Unconfirmed) => false,
            Sending::Failed(_) => true,
            _ => false,
        };
        if clear {
            self.state = Sending::Writing;
        }
    }

    pub fn showing_more(&self) -> (r: bool)
        ensures
            r == self.more_spec(),
    {
        self.more
    }

    /// Shows or hides the copy fields.
    pub fn toggle_more(&mut self)
        ensures
            final(self).more_spec() == !old(self).more_spec(),
            final(self).id_spec() == old(self).id_spec(),
            final(self).kind_spec() == old(self).kind_spec(),
            final(self).answering_spec() == old(self).answering_spec(),
            forall|f: ComposeField| #[trigger] final(self).text(f) == old(self).text(f),
            final(self).attachment_list() == old(self).attachment_list(),
            final(self).state_spec() == old(self).state_spec(),
            final(self).confirming_spec() == old(self).confirming_spec(),
    {
        self.more = !self.more;
    }

    pub fn confirming_discard(&self) -> (r: bool)
        ensures
            r == self.confirming_spec(),
    {
        self.confirming_discard
    }

    pub fn attachments(&self) -> (r: &Vec<String>)
        ensures
            str_views(r@) == self.attachment_list(),
    {
        &self.attachments
    }

    /// Adds files, each path at most once, keeping the order they came in.
    #[verifier::loop_isolation(false)]
    pub fn add_attachments(&mut self, paths: Vec<String>)
        ensures
            final(self).attachment_list() == add_new(old(self).attachment_list(), str_views(paths@)),
            !final(self).confirming_spec(),
            final(self).state_spec() == (if cleared_by_editing(old(self).state_spec()) {
                Sending::Writing
            } else {
                old(self).state_spec()
            }),
            final(self).id_spec() == old(self).id_spec(),
            final(self).kind_spec() == old(self).kind_spec(),
            final(self).answering_spec() == old(self).answering_spec(),
            forall|f: ComposeField| #[trigger] final(self).text(f) == old(self).text(f),
            final(self).more_spec() == old(self).more_spec(),
    {
        let ghost incoming = str_views(paths@);
        let ghost start = str_views(self.attachments@);
        let mut i: usize = 0;
        while i < paths.len()
            invariant
                i <= paths.len(),
                incoming == str_views(paths@),
                str_views(self.attachments@) == add_new(start, incoming.take(i as int)),
                self.state == old(self).state,
                self.id == old(self).id,
                self.kind == old(self).kind,
                self.answering == old(self).answering,
                self.to == old(self).to,
                self.cc == old(self).cc,
                self.bcc == old(self).bcc,
                self.subject == old(self).subject,
                self.body == old(self).body,
                self.more == old(self).more,
            decreases paths.len() - i,
        {
            proof {
                assert(incoming.take(i + 1).drop_last() =~= incoming.take(i as int));
                assert(incoming.take(i + 1).last() == paths@[i as int]@);
            }
            let mut present = false;
            let mut k: usize = 0;
            while k < self.attachments.len()
                invariant
                    k <= self.attachments.len(),
                    present == str_views(self.attachments@).take(k as int).contains(paths@[i as int]@),
                decreases self.attachments.len() - k,
            {
                let same = same_text(self.attachments[k].as_str(), paths[i].as_str());
                proof {
                    let a = str_views(self.attachments@);
                    assert(a.take(k + 1).drop_last() =~= a.take(k as int));
                    assert(a.take(k + 1)[k as int] == a[k as int]);
                    crate::text::lemma_take_contains(a, k as int);
                }
                if same {
                    present = true;
                }
                k += 1;
            }
            assert(str_views(self.attachments@).take(self.attachments.len() as int) =~= str_views(self.attachments@));
            if !present {
                let ghost before = self.attachments@;
                self.attachments.push(paths[i].clone());
                assert(str_views(self.attachments@) =~= str_views(before).push(paths@[i as int]@));
            }
            i += 1;
        }
        assert(incoming.take(paths.len() as int) =~= incoming);
        self.edited();
    }

    /// Takes away the file at this position; a position past the end
    /// changes nothing.
    pub fn remove_attachment(&mut self, index: usize)
        ensures
            index < old(self).attachment_list().len() ==> {
                &&& final(self).attachment_list() == old(self).attachment_list().remove(index as int)
                &&& !final(self).confirming_spec()
                &&& final(self).state_spec() == (if cleared_by_editing(old(self).state_spec()) {
                    Sending::Writing
                } else {
                    old(self).state_spec()
                })
            },
            index >= old(self).attachment_list().len() ==> {
                &&& final(self).attachment_list() == old(self).attachment_list()
                &&& final(self).confirming_spec() == old(self).confirming_spec()
                &&& final(self).state_spec() == old(self).state_spec()
            },
            final(self).id_spec() == old(self).id_spec(),
            final(self).kind_spec() == old(self).kind_spec(),
            final(self).answering_spec() == old(self).answering_spec(),
            forall|f: ComposeField| #[trigger] final(self).text(f) == old(self).text(f),
            final(self).more_spec() == old(self).more_spec(),
    {
        if index < self.attachments.len() {
            let ghost before = self.attachments@;
            self.attachments.remove(index);
            assert(str_views(self.attachments@) =~= str_views(before).remove(index as int));
            self.edited();
        }
    }

    /// What is being answered, when something is.
    pub fn answering(&self) -> (r: Option<&Answering>)
        ensures
            r matches Some(a) ==> self.answering_spec() == Some(*a),
            r is None ==> self.answering_spec() is None,
    {
        match &self.answering {
            Some(a) => Some(a),
            None => None,
        }
    }

    /// Whether the window asks who the message goes to.
    pub fn asks_for_recipients(&self) -> (r: bool)
        ensures
            r == !(self.kind_spec() is Reply),
    {
        Outgoing::needs_recipients(&self.kind)
    }

    /// Whether the window asks for a subject. Proton writes one for an answer.
    pub fn asks_for_subject(&self) -> (r: bool)
        ensures
            r == (self.kind_spec() is New),
    {
        match self.kind {
            Kind::New => true,
            _ => false,
        }
    }

    pub fn sending(&self) -> (r: Sending)
        ensures
            r == self.state_spec(),
    {
        self.state.clone()
    }

    pub fn in_flight(&self) -> (r: bool)
        ensures
            r == (self.state_spec() is InFlight),
    {
        match self.state {
            Sending::InFlight => true,
            _ => false,
        }
    }

    /// Marks the message as handed over.
    pub fn start_sending(&mut self)
        ensures
            final(self).state_spec() == Sending::InFlight,
            final(self).id_spec() == old(self).id_spec(),
            final(self).kind_spec() == old(self).kind_spec(),
            final(self).answering_spec() == old(self).answering_spec(),
            forall|f: ComposeField| #[trigger] final(self).text(f) == old(self).text(f),
            final(self).attachment_list() == old(self).attachment_list(),
            final(self).more_spec() == old(self).more_spec(),
            final(self).confirming_spec() == old(self).confirming_spec(),
    {
        self.state = Sending::InFlight;
    }

    /// Records why the message did not leave, or that its fate is unknown.
    pub fn fail(&mut self, error: SendError)
        ensures
            final(self).state_spec() == Sending::Failed(error),
            final(self).id_spec() == old(self).id_spec(),
            final(self).kind_spec() == old(self).kind_spec(),
            final(self).answering_spec() == old(self).answering_spec(),
            forall|f: ComposeField| #[trigger] final(self).text(f) == old(self).text(f),
            final(self).attachment_list() == old(self).attachment_list(),
            final(self).more_spec() == old(self).more_spec(),
            final(self).confirming_spec() == old(self).confirming_spec(),
    {
        self.state = Sending::Failed(error);
    }

    /// Asks for, or withdraws, the question whether to discard the message.
    pub fn set_confirming_discard(&mut self, on: bool)
        ensures
            final(self).confirming_spec() == on,
            final(self).state_spec() == old(self).state_spec(),
            final(self).id_spec() == old(self).id_spec(),
            final(self).kind_spec() == old(self).kind_spec(),
            final(self).answering_spec() == old(self).answering_spec(),
            forall|f: ComposeField| #[trigger] final(self).text(f) == old(self).text(f),
            final(self).attachment_list() == old(self).attachment_list(),
            final(self).more_spec() == old(self).more_spec(),
    {
        self.confirming_discard = on;
    }

    /// Nothing typed in any field, nothing attached.
    pub closed spec fn untouched(self) -> bool {
        &&& is_blank_seq(self.to@)
        &&& is_blank_seq(self.cc@)
        &&& is_blank_seq(self.bcc@)
        &&& is_blank_seq(self.subject@)
        &&& is_blank_seq(self.body@)
        &&& self.attachments@.len() == 0
    }

    /// Whether anything has been typed. Closing an untouched message needs
    /// no second thought; closing a written one does.
    pub fn is_untouched(&self) -> (r: bool)
        ensures
            r == self.untouched(),
            r == ((forall|f: ComposeField| is_blank_seq(#[trigger] self.text(f)))
                && self.attachment_list().len() == 0),
    {
        proof {
            if forall|f: ComposeField| is_blank_seq(#[trigger] self.text(f)) {
                assert(is_blank_seq(self.text(ComposeField::To)));
                assert(is_blank_seq(self.text(ComposeField::Cc)));
                assert(is_blank_seq(self.text(ComposeField::Bcc)));
                assert(is_blank_seq(self.text(ComposeField::Subject)));
                assert(is_blank_seq(self.text(ComposeField::Body)));
            }
            assert(self.attachment_list().len() == self.attachments@.len());
        }
        is_blank(self.to.as_str()) && is_blank(self.cc.as_str()) && is_blank(self.bcc.as_str())
            && is_blank(self.subject.as_str()) && is_blank(self.body.as_str())
            && self.attachments.len() == 0
    }

    /// Why the message cannot be sent, if it cannot.
    pub fn not_ready(&self) -> (r: Option<NotReady>)
        ensures
            (r is None) == can_send(
                self.kind_spec(),
                self.text(ComposeField::To),
                self.text(ComposeField::Cc),
                self.text(ComposeField::Bcc),
            ),
            r matches Some(n) ==> ready_spec(
                self.kind_spec(),
                self.text(ComposeField::To),
                self.text(ComposeField::Cc),
                self.text(ComposeField::Bcc),
                self.text(ComposeField::Subject),
                self.text(ComposeField::Body),
                self.attachment_list(),
                BodyFormat::PlainText,
                Err(n),
            ),
    {
        match self.ready(BodyFormat::PlainText) {
            Ok(_) => None,
            Err(n) => Some(n),
        }
    }

    /// The message to send, or why it cannot go. Subjects are optional.
    #[verifier::loop_isolation(false)]
    pub fn ready(&self, format: BodyFormat) -> (r: Result<Outgoing, NotReady>)
        ensures
            ready_spec(
                self.kind_spec(),
                self.text(ComposeField::To),
                self.text(ComposeField::Cc),
                self.text(ComposeField::Bcc),
                self.text(ComposeField::Subject),
                self.text(ComposeField::Body),
                self.attachment_list(),
                format,
                r,
            ),
    {
        let to = recipients(self.to.as_str());
        let cc = recipients(self.cc.as_str());
        let bcc = recipients(self.bcc.as_str());
        let mut rejected: Vec<String> = Vec::new();
        let mut i: usize = 0;
        while i < to.rejected.len()
            invariant
                i <= to.rejected.len(),
                str_views(rejected@) == str_views(to.rejected@).take(i as int),
            decreases to.rejected.len() - i,
        {
            let ghost prev = rejected@;
            rejected.push(to.rejected[i].clone());
            assert(str_views(rejected@) =~= str_views(prev).push(to.rejected@[i as int]@));
            i += 1;
            assert(str_views(rejected@) =~= str_views(to.rejected@).take(i as int));
        }
        assert(str_views(to.rejected@).take(to.rejected.len() as int) =~= str_views(to.rejected@));
        let ghost first = str_views(rejected@);
        let mut i: usize = 0;
        while i < cc.rejected.len()
            invariant
                i <= cc.rejected.len(),
                str_views(rejected@) == first + str_views(cc.rejected@).take(i as int),
            decreases cc.rejected.len() - i,
        {
            let ghost prev = rejected@;
            rejected.push(cc.rejected[i].clone());
            assert(str_views(rejected@) =~= str_views(prev).push(cc.rejected@[i as int]@));
            i += 1;
            assert(str_views(rejected@) =~= first + str_views(cc.rejected@).take(i as int));
        }
        assert(str_views(cc.rejected@).take(cc.rejected.len() as int) =~= str_views(cc.rejected@));
        let ghost second = str_views(rejected@);
        let mut i: usize = 0;
        while i < bcc.rejected.len()
            invariant
                i <= bcc.rejected.len(),
                str_views(rejected@) == second + str_views(bcc.rejected@).take(i as int),
            decreases bcc.rejected.len() - i,
        {
            let ghost prev = rejected@;
            rejected.push(bcc.rejected[i].clone());
            assert(str_views(rejected@) =~= str_views(prev).push(bcc.rejected@[i as int]@));
            i += 1;
            assert(str_views(rejected@) =~= second + str_views(bcc.rejected@).take(i as int));
        }
        assert(str_views(bcc.rejected@).take(bcc.rejected.len() as int) =~= str_views(bcc.rejected@));
        if rejected.len() > 0 {
            return Err(NotReady::BadAddresses(rejected));
        }
        if Outgoing::needs_recipients(&self.kind) && to.accepted.len() == 0 && cc.accepted.len()
            == 0 && bcc.accepted.len() == 0 {
            return Err(NotReady::NoRecipients);
        }
        let mut attachments: Vec<String> = Vec::new();
        let mut i: usize = 0;
        while i < self.attachments.len()
            invariant
                i <= self.attachments.len(),
                str_views(attachments@) == str_views(self.attachments@).take(i as int),
            decreases self.attachments.len() - i,
        {
            let ghost prev = attachments@;
            attachments.push(self.attachments[i].clone());
            assert(str_views(attachments@) =~= str_views(prev).push(self.attachments@[i as int]@));
            i += 1;
            assert(str_views(attachments@) =~= str_views(self.attachments@).take(i as int));
        }
        assert(str_views(self.attachments@).take(self.attachments.len() as int) =~= str_views(self.attachments@));
        Ok(
            Outgoing {
                kind: self.kind.clone(),
                to: to.accepted,
                cc: cc.accepted,
                bcc: bcc.accepted,
                subject: trim(self.subject.as_str()),
                body: self.body.clone(),
                format,
                attachments,
            },
        )
    }
}

/// The paths of `incoming` that are not there yet, added in order, each
/// only once.
pub open spec fn add_new(existing: Seq<Seq<char>>, incoming: Seq<Seq<char>>) -> Seq<Seq<char>>
    decreases incoming.len(),
{
    if incoming.len() == 0 {
        existing
    } else {
        let before = add_new(existing, incoming.drop_last());
        if before.contains(incoming.last()) {
            before
        } else {
            before.push(incoming.last())
        }
    }
}

/// Adding files keeps what was attached, first and in its order, adds every
/// new path, brings in nothing else, and never lists a path twice.
pub proof fn law_each_attachment_once(existing: Seq<Seq<char>>, incoming: Seq<Seq<char>>)
    requires
        existing.no_duplicates(),
    ensures
        add_new(existing, incoming).no_duplicates(),
        add_new(existing, incoming).len() >= existing.len(),
        add_new(existing, incoming).take(existing.len() as int) == existing,
        forall|i: int| 0 <= i < incoming.len() ==> add_new(existing, incoming).contains(#[trigger] incoming[i]),
        forall|i: int|
            0 <= i < add_new(existing, incoming).len() ==> existing.contains(#[trigger] add_new(existing, incoming)[i])
                || incoming.contains(add_new(existing, incoming)[i]),
    decreases incoming.len(),
{
    if incoming.len() == 0 {
        assert(existing.take(existing.len() as int) =~= existing);
    } else {
        let rest = incoming.drop_last();
        law_each_attachment_once(existing, rest);
        let before = add_new(existing, rest);
        let x = incoming.last();
        let after = add_new(existing, incoming);
        assert forall|i: int| 0 <= i < incoming.len() implies after.contains(#[trigger] incoming[i]) by {
            if i < incoming.len() - 1 {
                assert(rest[i] == incoming[i]);
                assert(before.contains(rest[i]));
                if !before.contains(x) {
                    let j = choose|j: int| 0 <= j < before.len() && before[j] == rest[i];
                    assert(after[j] == rest[i]);
                }
            } else if !before.contains(x) {
                assert(after[before.len() as int] == x);
            }
        }
        assert forall|i: int| 0 <= i < after.len() implies existing.contains(#[trigger] after[i]) || incoming.contains(
            after[i],
        ) by {
            if i < before.len() {
                assert(after[i] == before[i]);
                if !existing.contains(before[i]) {
                    assert(rest.contains(before[i]));
                    let j = choose|j: int| 0 <= j < rest.len() && rest[j] == before[i];
                    assert(incoming[j] == rest[j]);
                }
            } else {
                assert(after[i] == x);
                assert(incoming[incoming.len() - 1] == x);
            }
        }
        if !before.contains(x) {
            assert(after.take(existing.len() as int) =~= before.take(existing.len() as int));
            assert forall|i: int, j: int| 0 <= i < after.len() && 0 <= j < after.len() && i != j implies after[i]
                != after[j] by {
                if i < before.len() && j < before.len() {
                    assert(after[i] == before[i] && after[j] == before[j]);
                } else if i < before.len() {
                    assert(after[i] == before[i]);
                    assert(after[j] == x);
                } else if j < before.len() {
                    assert(after[j] == before[j]);
                    assert(after[i] == x);
                }
            }
        }
    }
}

} // verus!
