//! Messages on their way out: recipient fields, the body as it is sent, and
//! what can stop a message from leaving.

use vstd::prelude::*;

use crate::model::MailboxError;
use crate::text::{
    all_blank, ascii_alnum, chars_of, eq_ignore_ascii_case, is_ascii_alnum, is_blank_seq, is_white_space,
    is_whitespace, joined, pieces, same_chars, same_ignoring_ascii_case, split_on, string_of,
    trim_chars, trimmed, views, str_views, join_strings, push_char, skip_back, skip_front, trim_matching,
};

verus! {

/// How the body is sent.
#[derive(Debug, Clone, Copy, PartialEq, Eq, Structural)]
pub enum BodyFormat {
    /// Sent as it was typed.
    PlainText,
    /// Sent as HTML built from what was typed, which stays text.
    Html,
}

impl Default for BodyFormat {
    fn default() -> (r: Self)
        ensures
            r == BodyFormat::PlainText,
    {
        BodyFormat::PlainText
    }
}

/// Whether mail is new or answers an existing message.
#[derive(Debug, PartialEq, Eq)]
pub enum Kind {
    New,
    Reply {
        message_id: String,
        /// Everyone the message reached, rather than only whoever sent it.
        everyone: bool,
    },
    Forward { message_id: String },
}

impl Default for Kind {
    fn default() -> (r: Self)
        ensures
            r == Kind::New,
    {
        Kind::New
    }
}

impl Clone for Kind {
    fn clone(&self) -> (r: Self)
        ensures
            r == *self,
    {
        match self {
            Kind::New => Kind::New,
            Kind::Reply { message_id, everyone } => Kind::Reply {
                message_id: message_id.clone(),
                everyone: *everyone,
            },
            Kind::Forward { message_id } => Kind::Forward { message_id: message_id.clone() },
        }
    }
}

/// A message ready to leave. Attachments are named by their paths.
#[derive(Debug, Clone, PartialEq, Eq)]
pub struct Outgoing {
    pub kind: Kind,
    pub to: Vec<String>,
    pub cc: Vec<String>,
    pub bcc: Vec<String>,
    pub subject: String,
    pub body: String,
    pub format: BodyFormat,
    pub attachments: Vec<String>,
}

/// What a recipient field came to: the addresses to send to, and the pieces
/// that do not look like an address.
#[derive(Debug, Clone, PartialEq, Eq)]
pub struct Recipients {
    pub accepted: Vec<String>,
    pub rejected: Vec<String>,
}

impl Default for Recipients {
    fn default() -> (r: Self)
        ensures
            r.accepted@.len() == 0,
            r.rejected@.len() == 0,
    {
        Recipients { accepted: Vec::new(), rejected: Vec::new() }
    }
}

/// A domain that starts and ends with a letter or digit, has a dot, and no
/// two dots in a row.
pub open spec fn domain_ok(d: Seq<char>) -> bool {
    &&& d.len() > 0
    &&& is_ascii_alnum(d[0])
    &&& is_ascii_alnum(d.last())
    &&& d.contains('.')
    &&& !(exists|i: int| 0 <= i < d.len() - 1 && d[i] == '.' && #[trigger] d[i + 1] == '.')
}

/// A piece that looks like an address: no white space, exactly one `@`
/// with something before it, and a plausible domain after it.
pub open spec fn is_address_spec(p: Seq<char>) -> bool {
    &&& forall|i: int| 0 <= i < p.len() ==> !is_white_space(#[trigger] p[i])
    &&& exists|k: int|
        0 < k < p.len() && p[k] == '@' && (forall|j: int|
            0 <= j < p.len() && j != k ==> #[trigger] p[j] != '@') && domain_ok(p.skip(k + 1))
}

/// Rejects obvious mistakes without reimplementing the full address grammar.
fn is_address(p: &Vec<char>) -> (r: bool)
    ensures
        r == is_address_spec(p@),
{
    let n = p.len();
    let mut at: usize = n;
    let mut count: usize = 0;
    let mut i: usize = 0;
    while i < n
        invariant
            n == p.len(),
            i <= n,
            forall|k: int| 0 <= k < i ==> !is_white_space(#[trigger] p@[k]),
            count <= i,
            count == 0 ==> at == n && forall|k: int| 0 <= k < i ==> #[trigger] p@[k] != '@',
            count >= 1 ==> at < i && p@[at as int] == '@' && forall|k: int|
                0 <= k < at ==> #[trigger] p@[k] != '@',
            count == 1 ==> forall|k: int| 0 <= k < i && k != at ==> #[trigger] p@[k] != '@',
            count >= 2 ==> exists|k: int| 0 <= k < i && k != at && #[trigger] p@[k] == '@',
        decreases n - i,
    {
        if is_whitespace(p[i]) {
            return false;
        }
        if p[i] == '@' {
            if count == 0 {
                at = i;
            }
            if count < 2 {
                count += 1;
            }
        }
        i += 1;
    }
    if count != 1 || at == 0 {
        proof {
            if count == 0 {
                assert forall|k: int| 0 < k < p@.len() && p@[k] == '@' implies false by {}
            } else if count >= 2 {
                let w = choose|w: int| 0 <= w < n && w != at && #[trigger] p@[w] == '@';
                assert forall|k: int|
                    0 < k < p@.len() && p@[k] == '@' && (forall|j: int|
                        0 <= j < p@.len() && j != k ==> #[trigger] p@[j] != '@') implies false by {
                    if k != at {
                        assert(p@[at as int] == '@');
                    } else {
                        assert(p@[w] == '@');
                    }
                }
            } else {
                assert forall|k: int|
                    0 < k < p@.len() && p@[k] == '@' && (forall|j: int|
                        0 <= j < p@.len() && j != k ==> #[trigger] p@[j] != '@') implies false by {
                    assert(p@[0] == '@');
                }
            }
        }
        return false;
    }
    let ghost d = p@.skip(at + 1);
    let start = at + 1;
    // The domain is p[start..n].
    if start >= n {
        proof {
            assert forall|k: int|
                0 < k < p@.len() && p@[k] == '@' && (forall|j: int|
                    0 <= j < p@.len() && j != k ==> #[trigger] p@[j] != '@') implies !domain_ok(
                p@.skip(k + 1),
            ) by {
                if k != at {
                    assert(p@[at as int] == '@');
                }
            }
        }
        return false;
    }
    let first_ok = ascii_alnum(p[start]);
    let last_ok = ascii_alnum(p[n - 1]);
    let mut dot = false;
    let mut double = false;
    let mut j: usize = start;
    while j < n
        invariant
            start <= j <= n,
            n == p.len(),
            start == at + 1,
            d == p@.skip(start as int),
            dot == (exists|q: int| start <= q < j && p@[q] == '.'),
            double == (exists|q: int| start <= q < j - 1 && p@[q] == '.' && #[trigger] p@[q + 1] == '.'),
        decreases n - j,
    {
        if p[j] == '.' {
            if j > start && p[j - 1] == '.' {
                double = true;
            }
            dot = true;
        }
        proof {
            if double && !(exists|q: int| start <= q < j - 1 && p@[q] == '.' && #[trigger] p@[q + 1] == '.') {
                assert(p@[j - 1] == '.' && p@[(j - 1) + 1] == '.');
            }
        }
        j += 1;
    }
    proof {
        assert(d.len() == n - start);
        assert(d[0] == p@[start as int]);
        assert(d.last() == p@[n - 1]);
        if dot {
            let q = choose|q: int| start <= q < n && p@[q] == '.';
            assert(d[q - start] == '.');
        }
        if d.contains('.') {
            let q = choose|q: int| 0 <= q < d.len() && d[q] == '.';
            assert(p@[q + start] == '.');
        }
        if double {
            let q = choose|q: int| start <= q < n - 1 && p@[q] == '.' && #[trigger] p@[q + 1] == '.';
            assert(d[q - start] == '.' && d[q - start + 1] == '.');
        }
        if exists|i: int| 0 <= i < d.len() - 1 && d[i] == '.' && #[trigger] d[i + 1] == '.' {
            let i = choose|i: int| 0 <= i < d.len() - 1 && d[i] == '.' && #[trigger] d[i + 1] == '.';
            assert(p@[i + start] == '.' && p@[(i + start) + 1] == '.');
        }
        let ok = first_ok && last_ok && dot && !double;
        assert(ok == domain_ok(d));
        assert forall|k: int|
            0 < k < p@.len() && p@[k] == '@' && (forall|j: int|
                0 <= j < p@.len() && j != k ==> #[trigger] p@[j] != '@') implies k == at by {
            if k != at {
                assert(p@[at as int] == '@');
            }
        }
        if ok {
            assert(0 < at < p@.len() && p@[at as int] == '@');
        }
    }
    first_ok && last_ok && dot && !double
}

/// The recipients a list of raw pieces comes to, in order: pieces are
/// trimmed and empty ones skipped; an address already accepted (ignoring
/// ASCII case) or a piece already rejected is not kept twice.
pub open spec fn read_recipients(ps: Seq<Seq<char>>) -> (Seq<Seq<char>>, Seq<Seq<char>>)
    decreases ps.len(),
{
    if ps.len() == 0 {
        (Seq::<Seq<char>>::empty(), Seq::<Seq<char>>::empty())
    } else {
        let (acc, rej) = read_recipients(ps.drop_last());
        let p = trimmed(ps.last());
        if p.len() == 0 {
            (acc, rej)
        } else if !is_address_spec(p) {
            if rej.contains(p) {
                (acc, rej)
            } else {
                (acc, rej.push(p))
            }
        } else if exists|i: int| 0 <= i < acc.len() && eq_ignore_ascii_case(#[trigger] acc[i], p) {
            (acc, rej)
        } else {
            (acc.push(p), rej)
        }
    }
}

/// Reads comma- or semicolon-separated recipients and removes duplicates.
pub fn recipients(field: &str) -> (r: Recipients)
    ensures
        (str_views(r.accepted@), str_views(r.rejected@)) == read_recipients(
            pieces(field@, set![',', ';']),
        ),
{
    let v = chars_of(field);
    let ps = split_on(&v, ',', ';');
    let ghost all = views(ps@);
    let mut accepted: Vec<String> = Vec::new();
    let mut rejected: Vec<String> = Vec::new();
    let mut acc_chars: Vec<Vec<char>> = Vec::new();
    let mut rej_chars: Vec<Vec<char>> = Vec::new();
    let mut i: usize = 0;
    while i < ps.len()
        invariant
            i <= ps.len(),
            all == views(ps@),
            (views(acc_chars@), views(rej_chars@)) == read_recipients(all.take(i as int)),
            str_views(accepted@) == views(acc_chars@),
            str_views(rejected@) == views(rej_chars@),
        decreases ps.len() - i,
    {
        proof {
            assert(all.take(i + 1).drop_last() =~= all.take(i as int));
            assert(all.take(i + 1).last() == ps@[i as int]@);
        }
        let piece = trim_chars(&ps[i]);
        if piece.len() == 0 {
        } else if !is_address(&piece) {
            let mut seen = false;
            let mut k: usize = 0;
            while k < rej_chars.len()
                invariant
                    k <= rej_chars.len(),
                    seen == (exists|q: int| 0 <= q < k && views(rej_chars@)[q] == piece@),
                decreases rej_chars.len() - k,
            {
                let same = same_chars(&rej_chars[k], &piece);
                if same {
                    seen = true;
                }
                proof {
                    assert(views(rej_chars@)[k as int] == rej_chars@[k as int]@);
                    if same {
                        assert(views(rej_chars@)[k as int] == piece@);
                    }
                }
                k += 1;
            }
            if !seen {
                let ghost a = rejected@;
                let ghost b = rej_chars@;
                rejected.push(string_of(&piece));
                rej_chars.push(piece);
                assert(str_views(rejected@) =~= str_views(a).push(piece@));
                assert(views(rej_chars@) =~= views(b).push(piece@));
            }
        } else {
            let mut seen = false;
            let mut k: usize = 0;
            while k < acc_chars.len()
                invariant
                    k <= acc_chars.len(),
                    seen == (exists|q: int| 0 <= q < k && eq_ignore_ascii_case(#[trigger] views(acc_chars@)[q], piece@)),
                decreases acc_chars.len() - k,
            {
                let same = same_ignoring_ascii_case(&acc_chars[k], &piece);
                if same {
                    seen = true;
                }
                proof {
                    if same {
                        assert(eq_ignore_ascii_case(views(acc_chars@)[k as int], piece@));
                    }
                }
                k += 1;
            }
            if !seen {
                let ghost a = accepted@;
                let ghost b = acc_chars@;
                accepted.push(string_of(&piece));
                acc_chars.push(piece);
                assert(str_views(accepted@) =~= str_views(a).push(piece@));
                assert(views(acc_chars@) =~= views(b).push(piece@));
            }
        }
        i += 1;
    }
    assert(all.take(ps.len() as int) =~= all);
    Recipients { accepted, rejected }
}


/// The text with every `\r\n` turned into `\n`.
pub open spec fn without_crlf(s: Seq<char>) -> Seq<char>
    decreases s.len(),
{
    if s.len() == 0 {
        s
    } else if s.len() >= 2 && s[0] == '\r' && s[1] == '\n' {
        seq!['\n'] + without_crlf(s.skip(2))
    } else {
        seq![s[0]] + without_crlf(s.drop_first())
    }
}

/// The text split at each blank line, as `split("\n\n")` finds them from
/// the left.
pub open spec fn blank_line_split(s: Seq<char>) -> Seq<Seq<char>>
    decreases s.len(),
{
    if s.len() < 2 {
        seq![s]
    } else if s[0] == '\n' && s[1] == '\n' {
        seq![Seq::<char>::empty()] + blank_line_split(s.skip(2))
    } else {
        let r = blank_line_split(s.drop_first());
        r.update(0, seq![s[0]] + r[0])
    }
}

pub proof fn lemma_blank_line_split_len(s: Seq<char>)
    ensures
        blank_line_split(s).len() >= 1,
    decreases s.len(),
{
    if s.len() >= 2 {
        if s[0] == '\n' && s[1] == '\n' {
            lemma_blank_line_split_len(s.skip(2));
        } else {
            lemma_blank_line_split_len(s.drop_first());
        }
    }
}

/// How one typed character is written in HTML.
pub open spec fn escape_char(c: char) -> Seq<char> {
    if c == '&' {
        "&amp;"@
    } else if c == '<' {
        "&lt;"@
    } else if c == '>' {
        "&gt;"@
    } else if c == '"' {
        "&quot;"@
    } else if c == '\'' {
        "&#39;"@
    } else {
        seq![c]
    }
}

/// Typed text written so that HTML shows it as it was typed.
pub open spec fn escaped(s: Seq<char>) -> Seq<char>
    decreases s.len(),
{
    if s.len() == 0 {
        Seq::<char>::empty()
    } else {
        escaped(s.drop_last()) + escape_char(s.last())
    }
}

/// A paragraph without the line endings around it.
pub open spec fn strip_newlines(p: Seq<char>) -> Seq<char> {
    skip_back(skip_front(p, set!['\n']), set!['\n'])
}

/// One paragraph as HTML: its lines escaped, with line breaks between.
pub open spec fn html_paragraph(p: Seq<char>) -> Seq<char> {
    "<p>"@ + joined(pieces(p, set!['\n']).map_values(|l: Seq<char>| escaped(l)), "<br>"@)
        + "</p>"@
}

/// The paragraphs that hold more than white space, as HTML.
pub open spec fn html_paragraphs(ps: Seq<Seq<char>>) -> Seq<Seq<char>>
    decreases ps.len(),
{
    if ps.len() == 0 {
        Seq::<Seq<char>>::empty()
    } else {
        let r = html_paragraphs(ps.drop_last());
        let q = strip_newlines(ps.last());
        if is_blank_seq(q) {
            r
        } else {
            r.push(html_paragraph(q))
        }
    }
}

/// Typed text as HTML: escaped, with paragraphs and line breaks kept.
pub open spec fn as_html_spec(body: Seq<char>) -> Seq<char> {
    joined(html_paragraphs(blank_line_split(without_crlf(body))), "\n"@)
}

fn without_crlf_chars(v: &Vec<char>) -> (r: Vec<char>)
    ensures
        r@ == without_crlf(v@),
{
    let n = v.len();
    let mut out: Vec<char> = Vec::new();
    let mut i: usize = 0;
    assert(v@.skip(0) =~= v@);
    while i < n
        invariant
            n == v.len(),
            i <= n,
            without_crlf(v@) == out@ + without_crlf(v@.skip(i as int)),
        decreases n - i,
    {
        let ghost s = v@.skip(i as int);
        if i + 1 < n && v[i] == '\r' && v[i + 1] == '\n' {
            assert(s.skip(2) =~= v@.skip(i + 2));
            assert(s[0] == '\r' && s[1] == '\n');
            out.push('\n');
            assert(without_crlf(v@) =~= out@ + without_crlf(v@.skip(i + 2)));
            i += 2;
        } else {
            assert(s.drop_first() =~= v@.skip(i + 1));
            assert(s[0] == v@[i as int]);
            out.push(v[i]);
            assert(without_crlf(v@) =~= out@ + without_crlf(v@.skip(i + 1)));
            i += 1;
        }
    }
    assert(v@.skip(n as int) =~= Seq::<char>::empty());
    assert(out@ + Seq::<char>::empty() =~= out@);
    out
}

/// The first piece lengthened at its front.
pub open spec fn prepend_first(cur: Seq<char>, r: Seq<Seq<char>>) -> Seq<Seq<char>> {
    r.update(0, cur + r[0])
}

fn split_blank_lines(v: &Vec<char>) -> (r: Vec<Vec<char>>)
    ensures
        views(r@) == blank_line_split(v@),
{
    let n = v.len();
    let mut done: Vec<Vec<char>> = Vec::new();
    let mut cur: Vec<char> = Vec::new();
    let mut i: usize = 0;
    proof {
        assert(v@.skip(0) =~= v@);
        lemma_blank_line_split_len(v@);
        assert(prepend_first(Seq::<char>::empty(), blank_line_split(v@)) =~= blank_line_split(v@));
        assert(views(done@) + blank_line_split(v@) =~= blank_line_split(v@));
    }
    while n > 0 && i < n - 1
        invariant
            n == v.len(),
            i <= n,
            blank_line_split(v@) == views(done@) + prepend_first(cur@, blank_line_split(v@.skip(i as int))),
        decreases n - i,
    {
        let ghost s = v@.skip(i as int);
        if v[i] == '\n' && v[i + 1] == '\n' {
            proof {
                assert(s[0] == '\n' && s[1] == '\n');
                assert(s.skip(2) =~= v@.skip(i + 2));
                lemma_blank_line_split_len(v@.skip(i + 2));
            }
            let ghost old_done = done@;
            let ghost old_cur = cur@;
            let finished = cur;
            done.push(finished);
            cur = Vec::new();
            proof {
                let rest = blank_line_split(v@.skip(i + 2));
                assert(blank_line_split(s) == seq![Seq::<char>::empty()] + rest);
                assert(prepend_first(old_cur, blank_line_split(s)) =~= seq![old_cur] + rest);
                assert(prepend_first(Seq::<char>::empty(), rest) =~= rest);
                assert(views(done@) =~= views(old_done).push(old_cur));
                assert(views(done@) + prepend_first(cur@, rest) =~= views(old_done) + (seq![old_cur] + rest));
            }
            i += 2;
        } else {
            proof {
                assert(s.drop_first() =~= v@.skip(i + 1));
                assert(s[0] == v@[i as int]);
                lemma_blank_line_split_len(v@.skip(i + 1));
            }
            let ghost old_cur = cur@;
            cur.push(v[i]);
            proof {
                let rest = blank_line_split(v@.skip(i + 1));
                assert(blank_line_split(s) == rest.update(0, seq![v@[i as int]] + rest[0]));
                assert(old_cur + (seq![v@[i as int]] + rest[0]) =~= cur@ + rest[0]);
                assert(prepend_first(old_cur, blank_line_split(s)) =~= prepend_first(cur@, rest));
            }
            i += 1;
        }
    }
    let ghost rest = v@.skip(i as int);
    assert(rest.len() < 2);
    assert(rest =~= v@.subrange(i as int, n as int));
    assert(blank_line_split(rest) == seq![rest]);
    let mut k: usize = i;
    while k < n
        invariant
            i <= k <= n,
            n == v.len(),
            cur@ == ({ let c = cur@; c }),
            cur@.len() >= k - i,
            blank_line_split(v@) == views(done@) + seq![cur@ + v@.subrange(k as int, n as int)],
        decreases n - k,
    {
        let ghost before = cur@;
        cur.push(v[k]);
        assert(before + v@.subrange(k as int, n as int) =~= cur@ + v@.subrange(k + 1, n as int));
        k += 1;
    }
    proof {
        assert(prepend_first(cur@, seq![rest]) =~= seq![cur@ + rest]);
    }
    assert(cur@ + v@.subrange(n as int, n as int) =~= cur@);
    let ghost old_done = done@;
    let ghost last = cur@;
    done.push(cur);
    assert(views(done@) =~= views(old_done).push(last));
    assert(views(done@) =~= views(old_done) + seq![last]);
    done
}

/// Appends `text` escaped for HTML.
fn push_escaped(out: &mut String, text: &Vec<char>)
    ensures
        final(out)@ == old(out)@ + escaped(text@),
{
    let ghost start = out@;
    let mut i: usize = 0;
    while i < text.len()
        invariant
            i <= text.len(),
            out@ == start + escaped(text@.take(i as int)),
        decreases text.len() - i,
    {
        let c = text[i];
        if c == '&' {
            out.append("&amp;");
        } else if c == '<' {
            out.append("&lt;");
        } else if c == '>' {
            out.append("&gt;");
        } else if c == '"' {
            out.append("&quot;");
        } else if c == '\'' {
            out.append("&#39;");
        } else {
            push_char(out, c);
            assert(out@ =~= start + escaped(text@.take(i as int)) + seq![c]);
        }
        assert(text@.take(i + 1).drop_last() =~= text@.take(i as int));
        assert(text@.take(i + 1).last() == c);
        i += 1;
    }
    assert(text@.take(text.len() as int) =~= text@);
}

fn html_paragraph_of(p: &Vec<char>) -> (r: String)
    ensures
        r@ == html_paragraph(p@),
{
    let ls = split_on(p, '\n', '\n');
    proof {
        assert(set!['\n', '\n'] =~= set!['\n']);
    }
    let ghost mapped = views(ls@).map_values(|l: Seq<char>| escaped(l));
    let mut out = "<p>".to_owned();
    let mut j: usize = 0;
    while j < ls.len()
        invariant
            j <= ls.len(),
            mapped == views(ls@).map_values(|l: Seq<char>| escaped(l)),
            out@ == "<p>"@ + joined(mapped.take(j as int), "<br>"@),
        decreases ls.len() - j,
    {
        let ghost before = out@;
        if j > 0 {
            out.append("<br>");
        }
        push_escaped(&mut out, &ls[j]);
        proof {
            let t = mapped.take(j + 1);
            assert(t.drop_last() =~= mapped.take(j as int));
            assert(t.last() == escaped(ls@[j as int]@));
            if j == 0 {
                assert(out@ =~= "<p>"@ + t[0]);
            } else {
                assert(out@ =~= "<p>"@ + (joined(mapped.take(j as int), "<br>"@) + "<br>"@ + t.last()));
            }
        }
        j += 1;
    }
    assert(mapped.take(ls.len() as int) =~= mapped);
    out.append("</p>");
    out
}

/// Escapes typed text, then keeps paragraphs and line breaks as HTML.
fn as_html(body: &str) -> (r: String)
    ensures
        r@ == as_html_spec(body@),
{
    let v = without_crlf_chars(&chars_of(body));
    let ps = split_blank_lines(&v);
    let ghost all = views(ps@);
    let mut paragraphs: Vec<String> = Vec::new();
    let mut i: usize = 0;
    while i < ps.len()
        invariant
            i <= ps.len(),
            all == views(ps@),
            str_views(paragraphs@) == html_paragraphs(all.take(i as int)),
        decreases ps.len() - i,
    {
        proof {
            assert(all.take(i + 1).drop_last() =~= all.take(i as int));
            assert(all.take(i + 1).last() == ps@[i as int]@);
        }
        let q = trim_matching(&ps[i], '\n');
        if !all_blank(&q) {
            let ghost before = paragraphs@;
            paragraphs.push(html_paragraph_of(&q));
            assert(str_views(paragraphs@) =~= str_views(before).push(html_paragraph(q@)));
        }
        i += 1;
    }
    assert(all.take(ps.len() as int) =~= all);
    join_strings(&paragraphs, "\n")
}

pub open spec fn wire_body_spec(o: Outgoing) -> Seq<char> {
    match o.format {
        BodyFormat::PlainText => o.body@,
        BodyFormat::Html => as_html_spec(o.body@),
    }
}

impl Outgoing {
    /// The body as it goes on the wire.
    pub fn wire_body(&self) -> (r: String)
        ensures
            r@ == wire_body_spec(*self),
    {
        match self.format {
            BodyFormat::PlainText => self.body.clone(),
            BodyFormat::Html => as_html(self.body.as_str()),
        }
    }

    pub fn is_html(&self) -> (r: bool)
        ensures
            r == (self.format == BodyFormat::Html),
    {
        self.format == BodyFormat::Html
    }

    /// Whether the sender has to say where this goes. A reply already knows,
    /// from the message it answers.
    pub fn needs_recipients(kind: &Kind) -> (r: bool)
        ensures
            r == !(kind is Reply),
    {
        match kind {
            Kind::Reply { .. } => false,
            _ => true,
        }
    }
}

/// What can stop a message from leaving.
#[derive(Debug, PartialEq, Eq)]
pub enum SendError {
    /// The fictional mailbox takes only a few messages per run.
    DemoLimitReached,
    Mailbox(MailboxError),
    /// Proton may have accepted the send, but the client could not confirm it.
    Unconfirmed,
    /// An attached file could not be found or read on disk.
    MissingAttachment(String),
}

impl Clone for SendError {
    fn clone(&self) -> (r: Self)
        ensures
            r == *self,
    {
        match self {
            SendError::DemoLimitReached => SendError::DemoLimitReached,
            SendError::Mailbox(e) => SendError::Mailbox(*e),
            SendError::Unconfirmed => SendError::Unconfirmed,
            SendError::MissingAttachment(n) => SendError::MissingAttachment(n.clone()),
        }
    }
}

pub open spec fn send_error_message(e: SendError) -> Seq<char> {
    match e {
        SendError::DemoLimitReached => "The demo mailbox takes only a few messages per run. Restart it to send more."@,
        SendError::Mailbox(MailboxError::Connection) => "Ruston Mail could not reach Proton. The message was not sent."@,
        SendError::Mailbox(MailboxError::SessionExpired) => "Your Proton session has expired. Sign in again; the message was not sent."@,
        SendError::Mailbox(_) => "Proton would not accept the message. It was not sent."@,
        SendError::Unconfirmed => "Could not confirm whether Proton sent this message. Check Sent before trying again."@,
        SendError::MissingAttachment(name) => "Attachment cannot be found: "@ + name@,
    }
}

impl SendError {
    pub fn message(&self) -> (r: String)
        ensures
            r@ == send_error_message(*self),
    {
        match self {
            SendError::DemoLimitReached => "The demo mailbox takes only a few messages per run. Restart it to send more.".to_owned(),
            SendError::Mailbox(MailboxError::Connection) => "Ruston Mail could not reach Proton. The message was not sent.".to_owned(),
            SendError::Mailbox(MailboxError::SessionExpired) => "Your Proton session has expired. Sign in again; the message was not sent.".to_owned(),
            SendError::Mailbox(_) => "Proton would not accept the message. It was not sent.".to_owned(),
            SendError::Unconfirmed => "Could not confirm whether Proton sent this message. Check Sent before trying again.".to_owned(),
            SendError::MissingAttachment(name) => {
                let mut out = "Attachment cannot be found: ".to_owned();
                out.append(name.as_str());
                out
            },
        }
    }
}


/// The same person is only written to once: no two accepted addresses
/// are the same ignoring ASCII case, and nothing is refused twice.
pub proof fn law_each_recipient_once(ps: Seq<Seq<char>>)
    ensures
        forall|i: int, j: int|
            0 <= i < j < read_recipients(ps).0.len() ==> !eq_ignore_ascii_case(
                #[trigger] read_recipients(ps).0[i],
                #[trigger] read_recipients(ps).0[j],
            ),
        forall|i: int, j: int|
            0 <= i < j < read_recipients(ps).1.len() ==> #[trigger] read_recipients(ps).1[i] != #[trigger] read_recipients(ps).1[j],
    decreases ps.len(),
{
    if ps.len() > 0 {
        law_each_recipient_once(ps.drop_last());
        let (acc, rej) = read_recipients(ps.drop_last());
        let p = trimmed(ps.last());
        let (acc2, rej2) = read_recipients(ps);
        if p.len() > 0 && !is_address_spec(p) && !rej.contains(p) {
            assert forall|i: int, j: int| 0 <= i < j < rej2.len() implies #[trigger] rej2[i] != #[trigger] rej2[j] by {
                if j == rej.len() {
                    assert(rej2[j] == p);
                    assert(rej2[i] == rej[i]);
                    if rej[i] == p {
                        assert(rej.contains(p));
                    }
                }
            }
        }
        if p.len() > 0 && is_address_spec(p) && !(exists|i: int| 0 <= i < acc.len() && eq_ignore_ascii_case(#[trigger] acc[i], p)) {
            assert forall|i: int, j: int| 0 <= i < j < acc2.len() implies !eq_ignore_ascii_case(#[trigger] acc2[i], #[trigger] acc2[j]) by {
                if j == acc.len() {
                    assert(acc2[j] == p);
                    assert(acc2[i] == acc[i]);
                }
            }
        }
    }
}

/// After the `@` of an address, no dot is followed by another dot.
pub open spec fn no_double_dot_after_at(a: Seq<char>) -> bool {
    forall|k: int, j: int|
        0 <= k < j && j + 1 < a.len() && #[trigger] a[k] == '@' ==> !(#[trigger] a[j] == '.' && a[j + 1] == '.')
}

proof fn lemma_address_has_no_double_dot(p: Seq<char>)
    requires
        is_address_spec(p),
    ensures
        no_double_dot_after_at(p),
{
    let k0 = choose|k: int|
        0 < k < p.len() && p[k] == '@' && (forall|j: int|
            0 <= j < p.len() && j != k ==> #[trigger] p[j] != '@') && domain_ok(p.skip(k + 1));
    let d = p.skip(k0 + 1);
    assert forall|k: int, j: int|
        0 <= k < j && j + 1 < p.len() && #[trigger] p[k] == '@' implies !(#[trigger] p[j] == '.' && p[j + 1] == '.') by {
        assert(k == k0);
        let i = j - k0 - 1;
        assert(d[i] == p[j]);
        assert(d[i + 1] == p[j + 1]);
    }
}

/// No accepted recipient has two dots in a row anywhere after its `@`:
/// a domain such as `example..com` is always refused.
pub proof fn law_accepted_domains_have_no_double_dots(ps: Seq<Seq<char>>)
    ensures
        forall|a: int| 0 <= a < read_recipients(ps).0.len() ==> no_double_dot_after_at(#[trigger] read_recipients(ps).0[a]),
    decreases ps.len(),
{
    if ps.len() > 0 {
        law_accepted_domains_have_no_double_dots(ps.drop_last());
        let (acc, rej) = read_recipients(ps.drop_last());
        let p = trimmed(ps.last());
        if p.len() > 0 && is_address_spec(p) {
            lemma_address_has_no_double_dot(p);
            let acc2 = read_recipients(ps).0;
            assert forall|a: int| 0 <= a < acc2.len() implies no_double_dot_after_at(#[trigger] acc2[a]) by {
                if a < acc.len() {
                    assert(acc2[a] == acc[a]);
                }
            }
        }
    }
}

/// What an accepted recipient looks like: no white space, one `@` only,
/// with text before it, and after it a domain that starts and ends with an
/// ASCII letter or digit and holds a dot.
pub open spec fn looks_like_address(a: Seq<char>) -> bool {
    &&& forall|i: int| 0 <= i < a.len() ==> !is_white_space(#[trigger] a[i])
    &&& forall|i: int, j: int| 0 <= i < j < a.len() && #[trigger] a[i] == '@' ==> #[trigger] a[j] != '@'
    &&& exists|k: int|
        {
            &&& 0 < k && k + 1 < a.len()
            &&& #[trigger] a[k] == '@'
            &&& ('0' <= a[k + 1] <= '9' || 'a' <= a[k + 1] <= 'z' || 'A' <= a[k + 1] <= 'Z')
            &&& ('0' <= a.last() <= '9' || 'a' <= a.last() <= 'z' || 'A' <= a.last() <= 'Z')
            &&& exists|j: int| k < j < a.len() && #[trigger] a[j] == '.'
        }
}

proof fn lemma_address_looks_like_one(p: Seq<char>)
    requires
        is_address_spec(p),
    ensures
        looks_like_address(p),
{
    let k0 = choose|k: int|
        0 < k < p.len() && p[k] == '@' && (forall|j: int|
            0 <= j < p.len() && j != k ==> #[trigger] p[j] != '@') && domain_ok(p.skip(k + 1));
    let d = p.skip(k0 + 1);
    assert(d[0] == p[k0 + 1]);
    assert(d.last() == p.last());
    let m = choose|m: int| 0 <= m < d.len() && d[m] == '.';
    assert(p[k0 + 1 + m] == '.');
    assert forall|i: int, j: int| 0 <= i < j < p.len() && #[trigger] p[i] == '@' implies #[trigger] p[j] != '@' by {
        if p[j] == '@' {
            assert(i == k0);
            assert(j == k0);
        }
    }
}

/// Every accepted recipient has no white space and exactly one `@`, with
/// text before it, and after it a domain that starts and ends with an
/// ASCII letter or digit and holds a dot.
pub proof fn law_accepted_recipients_look_like_addresses(ps: Seq<Seq<char>>)
    ensures
        forall|a: int| 0 <= a < read_recipients(ps).0.len() ==> looks_like_address(#[trigger] read_recipients(ps).0[a]),
    decreases ps.len(),
{
    if ps.len() > 0 {
        law_accepted_recipients_look_like_addresses(ps.drop_last());
        let (acc, rej) = read_recipients(ps.drop_last());
        let p = trimmed(ps.last());
        if p.len() > 0 && is_address_spec(p) {
            lemma_address_looks_like_one(p);
            let acc2 = read_recipients(ps).0;
            assert forall|a: int| 0 <= a < acc2.len() implies looks_like_address(#[trigger] acc2[a]) by {
                if a < acc.len() {
                    assert(acc2[a] == acc[a]);
                }
            }
        }
    }
}

} // verus!
