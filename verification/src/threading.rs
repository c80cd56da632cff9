//! Decides when Proton conversations are shown as threads. Only proven
//! independent inbound mail is split; otherwise Proton's grouping stays.

use vstd::prelude::*;

use crate::text::{ascii_lower, chars_of, same_text, str_views, string_of, to_ascii_lower, trim_chars, trimmed};

verus! {

/// What the policy needs from one message of a conversation.
#[derive(Debug, Clone, PartialEq, Eq)]
pub struct MessageFacts {
    /// Normalized sender address; empty when unknown.
    pub sender: String,
    /// The user replied to or forwarded this message.
    pub answered: bool,
}

/// An address trimmed and with ASCII letters in lower case.
pub open spec fn normalized(address: Seq<char>) -> Seq<char> {
    trimmed(address).map_values(|c: char| ascii_lower(c))
}

pub fn normalize_address(address: &str) -> (r: String)
    ensures
        r@ == normalized(address@),
{
    let t = trim_chars(&chars_of(address));
    let mut out: Vec<char> = Vec::new();
    let mut i: usize = 0;
    while i < t.len()
        invariant
            i <= t.len(),
            out@ == t@.take(i as int).map_values(|c: char| ascii_lower(c)),
        decreases t.len() - i,
    {
        out.push(to_ascii_lower(t[i]));
        i += 1;
        assert(out@ =~= t@.take(i as int).map_values(|c: char| ascii_lower(c)));
    }
    assert(t@.take(t.len() as int) =~= t@);
    string_of(&out)
}

/// Whether the user's own addresses hold this one.
fn owns(own: &Vec<String>, address: &String) -> (r: bool)
    ensures
        r == str_views(own@).contains(address@),
{
    let mut i: usize = 0;
    while i < own.len()
        invariant
            i <= own.len(),
            forall|k: int| 0 <= k < i ==> own@[k]@ != address@,
        decreases own.len() - i,
    {
        if same_text(own[i].as_str(), address.as_str()) {
            assert(str_views(own@)[i as int] == address@);
            return true;
        }
        i += 1;
    }
    proof {
        if str_views(own@).contains(address@) {
            let k = choose|k: int| 0 <= k < str_views(own@).len() && str_views(own@)[k] == address@;
            assert(own@[k]@ == address@);
        }
    }
    false
}

/// A conversation of several messages whose one known sender is somebody
/// else is worth a closer look.
pub open spec fn needs_inspection_spec(count: i64, senders: Seq<Seq<char>>, own: Seq<Seq<char>>) -> bool {
    count > 1 && senders.len() == 1 && senders[0].len() > 0 && !own.contains(senders[0])
}

/// Whether a multi-message conversation needs metadata inspection.
pub fn needs_inspection(message_count: i64, senders: &Vec<String>, own: &Vec<String>) -> (r: bool)
    ensures
        r == needs_inspection_spec(message_count, str_views(senders@), str_views(own@)),
{
    message_count > 1 && senders.len() == 1 && !senders[0].as_str().is_empty() && !owns(
        own,
        &senders[0],
    )
}

/// Every message is independent inbound mail from the same external sender
/// and nothing shows that the user took part.
pub open spec fn repeated_inbound(messages: Seq<MessageFacts>, own: Seq<Seq<char>>) -> bool {
    &&& messages.len() >= 2
    &&& messages[0].sender@.len() > 0
    &&& !own.contains(messages[0].sender@)
    &&& forall|i: int|
        0 <= i < messages.len() ==> (#[trigger] messages[i]).sender@ == messages[0].sender@
            && !messages[i].answered
}

/// True only when every message is independent inbound mail from the same
/// external sender and nothing shows that the user took part.
pub fn is_repeated_inbound(messages: &Vec<MessageFacts>, own: &Vec<String>) -> (r: bool)
    ensures
        r == repeated_inbound(messages@, str_views(own@)),
{
    if messages.len() < 2 {
        return false;
    }
    let first = &messages[0].sender;
    if first.as_str().is_empty() || owns(own, first) {
        return false;
    }
    let mut i: usize = 0;
    while i < messages.len()
        invariant
            i <= messages.len(),
            first == messages@[0].sender,
            forall|k: int|
                0 <= k < i ==> (#[trigger] messages@[k]).sender@ == first@ && !messages@[k].answered,
        decreases messages.len() - i,
    {
        if !same_text(messages[i].sender.as_str(), first.as_str()) || messages[i].answered {
            return false;
        }
        i += 1;
    }
    true
}

/// A conversation is split only when the user took part in none of it and
/// one outside sender wrote all of it: an answered message, at any place
/// (the first one too), keeps it grouped; so do two different senders, a
/// message from one of the user's own addresses, or a single message. Two
/// or more unanswered messages that all come from one known sender who is
/// not the user are split.
pub proof fn law_split_only_unanswered_mail_from_one_outsider(
    messages: Seq<MessageFacts>,
    own: Seq<Seq<char>>,
    sender: Seq<char>,
)
    ensures
        (exists|i: int| 0 <= i < messages.len() && (#[trigger] messages[i]).answered) ==> !repeated_inbound(
            messages,
            own,
        ),
        (exists|i: int, j: int|
            0 <= i < messages.len() && 0 <= j < messages.len() && (#[trigger] messages[i]).sender@
                != (#[trigger] messages[j]).sender@) ==> !repeated_inbound(messages, own),
        (exists|i: int| 0 <= i < messages.len() && own.contains((#[trigger] messages[i]).sender@))
            ==> !repeated_inbound(messages, own),
        messages.len() < 2 ==> !repeated_inbound(messages, own),
        (messages.len() >= 2 && sender.len() > 0 && !own.contains(sender) && forall|i: int|
            0 <= i < messages.len() ==> (#[trigger] messages[i]).sender@ == sender && !messages[i].answered)
            ==> repeated_inbound(messages, own),
{
    if messages.len() >= 2 && sender.len() > 0 && !own.contains(sender) && forall|i: int|
        0 <= i < messages.len() ==> (#[trigger] messages[i]).sender@ == sender && !messages[i].answered {
        assert(messages[0].sender@ == sender);
    }
    if exists|i: int| 0 <= i < messages.len() && own.contains((#[trigger] messages[i]).sender@) {
        let i = choose|i: int| 0 <= i < messages.len() && own.contains((#[trigger] messages[i]).sender@);
        if repeated_inbound(messages, own) {
            assert(messages[i].sender@ == messages[0].sender@);
        }
    }
    if exists|i: int, j: int|
        0 <= i < messages.len() && 0 <= j < messages.len() && (#[trigger] messages[i]).sender@
            != (#[trigger] messages[j]).sender@ {
        let (i, j) = choose|i: int, j: int|
            0 <= i < messages.len() && 0 <= j < messages.len() && (#[trigger] messages[i]).sender@
                != (#[trigger] messages[j]).sender@;
        if repeated_inbound(messages, own) {
            assert(messages[i].sender@ == messages[0].sender@);
            assert(messages[j].sender@ == messages[0].sender@);
        }
    }
}

/// Only a conversation of several messages with exactly one known sender,
/// who is not the user, is looked at more closely: a single message, an
/// unknown sender, several senders, or the user's own address never is.
pub proof fn law_inspect_only_one_outside_sender(count: i64, senders: Seq<Seq<char>>, own: Seq<Seq<char>>)
    ensures
        count <= 1 ==> !needs_inspection_spec(count, senders, own),
        senders.len() != 1 ==> !needs_inspection_spec(count, senders, own),
        senders.len() == 1 && senders[0].len() == 0 ==> !needs_inspection_spec(count, senders, own),
        senders.len() == 1 && own.contains(senders[0]) ==> !needs_inspection_spec(count, senders, own),
        count > 1 && senders.len() == 1 && senders[0].len() > 0 && !own.contains(senders[0])
            ==> needs_inspection_spec(count, senders, own),
{
}

} // verus!
