//! Character-level text handling shared by the rest of the library.

use vstd::prelude::*;

verus! {

/// The Unicode `White_Space` property, which is what Rust's
/// `char::is_whitespace` answers.
pub open spec fn is_white_space(c: char) -> bool {
    let u = c as u32;
    ||| 0x9 <= u <= 0xd
    ||| u == 0x20
    ||| u == 0x85
    ||| u == 0xa0
    ||| u == 0x1680
    ||| 0x2000 <= u <= 0x200a
    ||| u == 0x2028
    ||| u == 0x2029
    ||| u == 0x202f
    ||| u == 0x205f
    ||| u == 0x3000
}

pub fn is_whitespace(c: char) -> (r: bool)
    ensures
        r == is_white_space(c),
{
    let u = c as u32;
    (0x9 <= u && u <= 0xd) || u == 0x20 || u == 0x85 || u == 0xa0 || u == 0x1680 || (0x2000
        <= u && u <= 0x200a) || u == 0x2028 || u == 0x2029 || u == 0x202f || u == 0x205f || u
        == 0x3000
}

pub open spec fn is_ascii_char(c: char) -> bool {
    (c as u32) < 128
}

pub open spec fn ascii_lower(c: char) -> char {
    if 'A' <= c <= 'Z' {
        ((c as u32) + 32) as char
    } else {
        c
    }
}

pub fn to_ascii_lower(c: char) -> (r: char)
    ensures
        r == ascii_lower(c),
{
    if 'A' <= c && c <= 'Z' {
        let b = c as u8;
        (b + 32) as char
    } else {
        c
    }
}

/// Appends one character, as `String::push` does.
#[verifier::external_body]
pub(crate) fn push_char(s: &mut String, c: char)
    ensures
        final(s)@ == old(s)@.push(c),
{
    s.push(c)
}

/// The characters of a string, in order.
pub fn chars_of(s: &str) -> (v: Vec<char>)
    ensures
        v@ == s@,
{
    let mut v: Vec<char> = Vec::new();
    for c in it: s.chars()
        invariant
            v@ == it.seq().take(it.index() as int),
    {
        v.push(c);
    }
    v
}


/// A string holding exactly these characters.
pub fn string_of(v: &Vec<char>) -> (s: String)
    ensures
        s@ == v@,
{
    let mut s = String::new();
    let mut i: usize = 0;
    while i < v.len()
        invariant
            i <= v.len(),
            s@ == v@.take(i as int),
        decreases v.len() - i,
    {
        push_char(&mut s, v[i]);
        i += 1;
        assert(v@.take(i as int) == v@.take((i - 1) as int).push(v@[i - 1]));
    }
    assert(v@.take(v.len() as int) == v@);
    s
}

/// What is left after dropping leading white space.
pub open spec fn skip_ws_front(s: Seq<char>) -> Seq<char>
    decreases s.len(),
{
    if s.len() > 0 && is_white_space(s[0]) {
        skip_ws_front(s.drop_first())
    } else {
        s
    }
}

/// What is left after dropping trailing white space.
pub open spec fn skip_ws_back(s: Seq<char>) -> Seq<char>
    decreases s.len(),
{
    if s.len() > 0 && is_white_space(s.last()) {
        skip_ws_back(s.drop_last())
    } else {
        s
    }
}

/// The text without white space at either end, as `str::trim` leaves it.
pub open spec fn trimmed(s: Seq<char>) -> Seq<char> {
    skip_ws_back(skip_ws_front(s))
}

/// Text that holds nothing but white space, or nothing at all.
pub open spec fn is_blank_seq(s: Seq<char>) -> bool {
    forall|i: int| 0 <= i < s.len() ==> is_white_space(#[trigger] s[i])
}

pub proof fn lemma_skip_front(s: Seq<char>, i: int)
    requires
        0 <= i <= s.len(),
        forall|k: int| 0 <= k < i ==> is_white_space(#[trigger] s[k]),
        i == s.len() || !is_white_space(s[i]),
    ensures
        skip_ws_front(s) == s.skip(i),
    decreases i,
{
    if i == 0 {
        assert(s.skip(0) == s);
    } else {
        assert(is_white_space(s[0]));
        let t = s.drop_first();
        assert forall|k: int| 0 <= k < i - 1 implies is_white_space(#[trigger] t[k]) by {
            assert(t[k] == s[k + 1]);
        }
        lemma_skip_front(t, i - 1);
        assert(t.skip(i - 1) == s.skip(i));
    }
}

pub proof fn lemma_skip_back(s: Seq<char>, j: int)
    requires
        0 <= j <= s.len(),
        forall|k: int| j <= k < s.len() ==> is_white_space(#[trigger] s[k]),
        j == 0 || !is_white_space(s[j - 1]),
    ensures
        skip_ws_back(s) == s.take(j),
    decreases s.len() - j,
{
    if j == s.len() {
        assert(s.take(j) == s);
    } else {
        assert(is_white_space(s.last()));
        let t = s.drop_last();
        assert forall|k: int| j <= k < t.len() implies is_white_space(#[trigger] t[k]) by {
            assert(t[k] == s[k]);
        }
        lemma_skip_back(t, j);
        assert(t.take(j) == s.take(j));
    }
}

/// The characters of `v` without white space at either end.
pub fn trim_chars(v: &Vec<char>) -> (r: Vec<char>)
    ensures
        r@ == trimmed(v@),
{
    let mut i: usize = 0;
    while i < v.len() && is_whitespace(v[i])
        invariant
            i <= v.len(),
            forall|k: int| 0 <= k < i ==> is_white_space(#[trigger] v@[k]),
        decreases v.len() - i,
    {
        i += 1;
    }
    proof {
        lemma_skip_front(v@, i as int);
    }
    let mut j: usize = v.len();
    while j > i && is_whitespace(v[j - 1])
        invariant
            i <= j <= v.len(),
            forall|k: int| j <= k < v.len() ==> is_white_space(#[trigger] v@[k]),
        decreases j,
    {
        j -= 1;
    }
    let ghost front = v@.skip(i as int);
    proof {
        assert forall|k: int| j - i <= k < front.len() implies is_white_space(#[trigger] front[k]) by {
            assert(front[k] == v@[k + i]);
        }
        if j > i {
            assert(front[j - i - 1] == v@[j - 1]);
        }
        lemma_skip_back(front, j - i);
    }
    let mut r: Vec<char> = Vec::new();
    let mut k: usize = i;
    while k < j
        invariant
            i <= k <= j <= v.len(),
            r@ == v@.subrange(i as int, k as int),
        decreases j - k,
    {
        r.push(v[k]);
        k += 1;
    }
    assert(r@ == front.take(j - i));
    r
}

/// The string without white space at either end, as `str::trim` leaves it.
pub fn trim(s: &str) -> (r: String)
    ensures
        r@ == trimmed(s@),
{
    let v = chars_of(s);
    let t = trim_chars(&v);
    string_of(&t)
}

pub proof fn lemma_trimmed_empty(s: Seq<char>)
    ensures
        (trimmed(s).len() == 0) == is_blank_seq(s),
{
    let mut i: int = 0;
    lemma_trimmed_empty_from(s, 0);
    assert(s.skip(0) == s);
}

proof fn lemma_trimmed_empty_from(s: Seq<char>, i: int)
    requires
        0 <= i <= s.len(),
    ensures
        (trimmed(s.skip(i)).len() == 0) == (forall|k: int| i <= k < s.len() ==> is_white_space(#[trigger] s[k])),
    decreases s.len() - i,
{
    let t = s.skip(i);
    if i == s.len() {
        assert(t.len() == 0);
    } else if is_white_space(s[i]) {
        lemma_trimmed_empty_from(s, i + 1);
        assert(t[0] == s[i]);
        assert(t.drop_first() == s.skip(i + 1));
        assert(skip_ws_front(t) == skip_ws_front(s.skip(i + 1)));
    } else {
        assert(t[0] == s[i]);
        assert(skip_ws_front(t) == t);
        lemma_back_keeps_nonws(t);
    }
}

proof fn lemma_back_keeps_nonws(t: Seq<char>)
    requires
        t.len() > 0,
        !is_white_space(t[0]),
    ensures
        skip_ws_back(t).len() > 0,
    decreases t.len(),
{
    if is_white_space(t.last()) {
        assert(t.len() > 1);
        lemma_back_keeps_nonws(t.drop_last());
    }
}

/// Whether the string is empty once trimmed.
pub fn is_blank(s: &str) -> (r: bool)
    ensures
        r == (trimmed(s@).len() == 0),
        r == is_blank_seq(s@),
{
    proof {
        lemma_trimmed_empty(s@);
    }
    let v = chars_of(s);
    let mut i: usize = 0;
    while i < v.len()
        invariant
            i <= v.len(),
            v@ == s@,
            forall|k: int| 0 <= k < i ==> is_white_space(#[trigger] v@[k]),
        decreases v.len() - i,
    {
        if !is_whitespace(v[i]) {
            assert(!is_white_space(s@[i as int]));
            proof {
                lemma_trimmed_empty(s@);
            }
            return false;
        }
        i += 1;
    }
    true
}

/// The decimal digits of a number, most significant first.
pub open spec fn digit_char(d: nat) -> char {
    (('0' as u32) + d) as char
}

pub open spec fn decimal(n: nat) -> Seq<char>
    decreases n,
{
    if n < 10 {
        seq![digit_char(n)]
    } else {
        decimal(n / 10).push(digit_char(n % 10))
    }
}

/// Writes a number in decimal, as `{}` formats it.
pub fn decimal_string(n: u64) -> (s: String)
    ensures
        s@ == decimal(n as nat),
    decreases n,
{
    if n < 10 {
        let mut s = String::new();
        push_char(&mut s, ((n as u8) + 48) as char);
        assert(s@ =~= seq![digit_char(n as nat)]);
        s
    } else {
        let mut s = decimal_string(n / 10);
        push_char(&mut s, (((n % 10) as u8) + 48) as char);
        s
    }
}


/// The pieces between separators, as `str::split` with a set of
/// characters yields them: one more piece than there are separators.
pub open spec fn pieces(s: Seq<char>, seps: Set<char>) -> Seq<Seq<char>>
    decreases s.len(),
{
    if s.len() == 0 {
        seq![Seq::<char>::empty()]
    } else {
        let r = pieces(s.drop_last(), seps);
        if seps.contains(s.last()) {
            r.push(Seq::<char>::empty())
        } else {
            r.update(r.len() - 1, r.last().push(s.last()))
        }
    }
}

pub proof fn lemma_pieces_len(s: Seq<char>, seps: Set<char>)
    ensures
        pieces(s, seps).len() >= 1,
    decreases s.len(),
{
    if s.len() > 0 {
        lemma_pieces_len(s.drop_last(), seps);
    }
}

/// The contents of each vector, in order.
pub open spec fn views(v: Seq<Vec<char>>) -> Seq<Seq<char>> {
    v.map_values(|x: Vec<char>| x@)
}

/// Splits at every character equal to `a` or `b`.
pub fn split_on(v: &Vec<char>, a: char, b: char) -> (r: Vec<Vec<char>>)
    ensures
        views(r@) == pieces(v@, set![a, b]),
        r.len() >= 1,
{
    let ghost seps = set![a, b];
    let mut done: Vec<Vec<char>> = Vec::new();
    let mut cur: Vec<char> = Vec::new();
    let mut i: usize = 0;
    assert(v@.take(0) =~= Seq::<char>::empty());
    assert(views(done@).push(cur@) =~= seq![Seq::<char>::empty()]);
    while i < v.len()
        invariant
            i <= v.len(),
            seps == set![a, b],
            pieces(v@.take(i as int), seps) == views(done@).push(cur@),
        decreases v.len() - i,
    {
        let c = v[i];
        let ghost before = v@.take(i as int);
        let ghost after = v@.take(i + 1);
        proof {
            assert(after.drop_last() =~= before);
            assert(after.last() == c);
        }
        if c == a || c == b {
            let ghost old_done = done@;
            let finished = cur;
            done.push(finished);
            cur = Vec::new();
            assert(views(done@) =~= views(old_done).push(finished@));
            assert(views(done@).push(cur@) =~= pieces(before, seps).push(Seq::<char>::empty()));
        } else {
            cur.push(c);
            assert(views(done@).push(cur@) =~= pieces(before, seps).update(
                pieces(before, seps).len() - 1,
                pieces(before, seps).last().push(c),
            ));
        }
        i += 1;
    }
    assert(v@.take(v.len() as int) =~= v@);
    let ghost old_done = done@;
    let ghost last = cur@;
    done.push(cur);
    assert(views(done@) =~= views(old_done).push(last));
    done
}

/// Text made of the given pieces with `sep` between each two of them, as
/// `join` writes it.
pub open spec fn joined(parts: Seq<Seq<char>>, sep: Seq<char>) -> Seq<char>
    decreases parts.len(),
{
    if parts.len() == 0 {
        Seq::<char>::empty()
    } else if parts.len() == 1 {
        parts[0]
    } else {
        joined(parts.drop_last(), sep) + sep + parts.last()
    }
}

/// Writes the pieces with `sep` between them.
pub fn join_chars(parts: &Vec<Vec<char>>, sep: &str) -> (r: String)
    ensures
        r@ == joined(views(parts@), sep@),
{
    let mut out = String::new();
    let mut i: usize = 0;
    while i < parts.len()
        invariant
            i <= parts.len(),
            out@ == joined(views(parts@).take(i as int), sep@),
        decreases parts.len() - i,
    {
        let ghost prefix = views(parts@).take(i as int);
        let ghost next = views(parts@).take(i + 1);
        proof {
            assert(next.drop_last() =~= prefix);
            assert(next.last() == parts[i as int]@);
        }
        if i > 0 {
            out.append(sep);
        }
        let piece = string_of(&parts[i]);
        out.append(piece.as_str());
        proof {
            if i == 0 {
                assert(next.len() == 1);
                assert(out@ =~= next[0]);
            }
        }
        i += 1;
    }
    assert(views(parts@).take(parts.len() as int) =~= views(parts@));
    out
}


/// A line without the carriage return of a `\r\n` ending.
pub open spec fn strip_cr(p: Seq<char>) -> Seq<char> {
    if p.len() > 0 && p.last() == '\r' {
        p.drop_last()
    } else {
        p
    }
}

/// The lines of a text, as `str::lines` yields them: split at `\n`, with a
/// `\r` before it dropped, and no empty line after a final line ending.
pub open spec fn lines_of(s: Seq<char>) -> Seq<Seq<char>> {
    let p = pieces(s, set!['\n']);
    let t = p.drop_last().map_values(|x: Seq<char>| strip_cr(x));
    if p.last().len() > 0 {
        t.push(p.last())
    } else {
        t
    }
}

/// The lines of a text, as `str::lines` yields them.
pub fn lines(v: &Vec<char>) -> (r: Vec<Vec<char>>)
    ensures
        views(r@) == lines_of(v@),
{
    let parts = split_on(v, '\n', '\n');
    proof {
        assert(set!['\n', '\n'] =~= set!['\n']);
    }
    let ghost p = views(parts@);
    let n = parts.len();
    let mut r: Vec<Vec<char>> = Vec::new();
    let mut i: usize = 0;
    while i + 1 < n
        invariant
            n == parts.len(),
            n >= 1,
            p == views(parts@),
            i + 1 <= n,
            views(r@) == p.take(i as int).map_values(|x: Seq<char>| strip_cr(x)),
        decreases n - i,
    {
        let part = &parts[i];
        let mut line: Vec<char> = Vec::new();
        let mut end = part.len();
        if end > 0 && part[end - 1] == '\r' {
            end -= 1;
        }
        let mut k: usize = 0;
        while k < end
            invariant
                k <= end <= part.len(),
                line@ == part@.take(k as int),
            decreases end - k,
        {
            line.push(part[k]);
            k += 1;
        }
        assert(line@ =~= strip_cr(part@));
        let ghost before = r@;
        r.push(line);
        assert(views(r@) =~= views(before).push(strip_cr(p[i as int])));
        assert(p.take(i + 1).map_values(|x: Seq<char>| strip_cr(x)) =~= p.take(i as int).map_values(
            |x: Seq<char>| strip_cr(x),
        ).push(strip_cr(p[i as int])));
        i += 1;
    }
    assert(p.take(i as int) =~= p.drop_last());
    let last = &parts[n - 1];
    if last.len() > 0 {
        let mut copy: Vec<char> = Vec::new();
        let mut k: usize = 0;
        while k < last.len()
            invariant
                k <= last.len(),
                copy@ == last@.take(k as int),
            decreases last.len() - k,
        {
            copy.push(last[k]);
            k += 1;
        }
        assert(copy@ =~= last@);
        let ghost before = r@;
        r.push(copy);
        assert(views(r@) =~= views(before).push(p.last()));
    }
    r
}

/// All the pieces, one after another.
pub open spec fn concat_all(parts: Seq<Seq<char>>) -> Seq<char>
    decreases parts.len(),
{
    if parts.len() == 0 {
        Seq::<char>::empty()
    } else {
        concat_all(parts.drop_last()) + parts.last()
    }
}


/// Whether two texts hold the same characters.
pub fn same_text(a: &str, b: &str) -> (r: bool)
    ensures
        r == (a@ == b@),
{
    let x = chars_of(a);
    let y = chars_of(b);
    if x.len() != y.len() {
        return false;
    }
    let mut i: usize = 0;
    while i < x.len()
        invariant
            i <= x.len(),
            x.len() == y.len(),
            x@ == a@,
            y@ == b@,
            forall|k: int| 0 <= k < i ==> x@[k] == y@[k],
        decreases x.len() - i,
    {
        if x[i] != y[i] {
            return false;
        }
        i += 1;
    }
    assert(x@ =~= y@);
    true
}


/// What is left after dropping leading characters of the set.
pub open spec fn skip_front(s: Seq<char>, cs: Set<char>) -> Seq<char>
    decreases s.len(),
{
    if s.len() > 0 && cs.contains(s[0]) {
        skip_front(s.drop_first(), cs)
    } else {
        s
    }
}

/// What is left after dropping trailing characters of the set.
pub open spec fn skip_back(s: Seq<char>, cs: Set<char>) -> Seq<char>
    decreases s.len(),
{
    if s.len() > 0 && cs.contains(s.last()) {
        skip_back(s.drop_last(), cs)
    } else {
        s
    }
}

pub proof fn lemma_skip_set_front(s: Seq<char>, cs: Set<char>, i: int)
    requires
        0 <= i <= s.len(),
        forall|k: int| 0 <= k < i ==> cs.contains(#[trigger] s[k]),
        i == s.len() || !cs.contains(s[i]),
    ensures
        skip_front(s, cs) == s.skip(i),
    decreases i,
{
    if i == 0 {
        assert(s.skip(0) == s);
    } else {
        let t = s.drop_first();
        assert forall|k: int| 0 <= k < i - 1 implies cs.contains(#[trigger] t[k]) by {
            assert(t[k] == s[k + 1]);
        }
        lemma_skip_set_front(t, cs, i - 1);
        assert(t.skip(i - 1) == s.skip(i));
    }
}

proof fn lemma_skip_set_back(s: Seq<char>, cs: Set<char>, j: int)
    requires
        0 <= j <= s.len(),
        forall|k: int| j <= k < s.len() ==> cs.contains(#[trigger] s[k]),
        j == 0 || !cs.contains(s[j - 1]),
    ensures
        skip_back(s, cs) == s.take(j),
    decreases s.len() - j,
{
    if j == s.len() {
        assert(s.take(j) == s);
    } else {
        let t = s.drop_last();
        assert forall|k: int| j <= k < t.len() implies cs.contains(#[trigger] t[k]) by {
            assert(t[k] == s[k]);
        }
        lemma_skip_set_back(t, cs, j);
        assert(t.take(j) == s.take(j));
    }
}

/// The characters without the given one at either end, as
/// `str::trim_matches` with one character leaves them.
pub fn trim_matching(v: &Vec<char>, c: char) -> (r: Vec<char>)
    ensures
        r@ == skip_back(skip_front(v@, set![c]), set![c]),
{
    let ghost cs = set![c];
    let mut i: usize = 0;
    while i < v.len() && v[i] == c
        invariant
            i <= v.len(),
            cs == set![c],
            forall|k: int| 0 <= k < i ==> cs.contains(#[trigger] v@[k]),
        decreases v.len() - i,
    {
        i += 1;
    }
    proof {
        lemma_skip_set_front(v@, cs, i as int);
    }
    let mut j: usize = v.len();
    while j > i && v[j - 1] == c
        invariant
            i <= j <= v.len(),
            cs == set![c],
            forall|k: int| j <= k < v.len() ==> cs.contains(#[trigger] v@[k]),
        decreases j,
    {
        j -= 1;
    }
    let ghost front = v@.skip(i as int);
    proof {
        assert forall|k: int| j - i <= k < front.len() implies cs.contains(#[trigger] front[k]) by {
            assert(front[k] == v@[k + i]);
        }
        if j > i {
            assert(front[j - i - 1] == v@[j - 1]);
        }
        lemma_skip_set_back(front, cs, j - i);
    }
    let mut r: Vec<char> = Vec::new();
    let mut k: usize = i;
    while k < j
        invariant
            i <= k <= j <= v.len(),
            r@ == v@.subrange(i as int, k as int),
        decreases j - k,
    {
        r.push(v[k]);
        k += 1;
    }
    assert(r@ == front.take(j - i));
    r
}

/// Whether the characters are all white space, or there are none.
pub fn all_blank(v: &Vec<char>) -> (r: bool)
    ensures
        r == is_blank_seq(v@),
{
    let mut i: usize = 0;
    while i < v.len()
        invariant
            i <= v.len(),
            forall|k: int| 0 <= k < i ==> is_white_space(#[trigger] v@[k]),
        decreases v.len() - i,
    {
        if !is_whitespace(v[i]) {
            return false;
        }
        i += 1;
    }
    true
}

pub open spec fn is_ascii_alnum(c: char) -> bool {
    ('0' <= c <= '9') || ('a' <= c <= 'z') || ('A' <= c <= 'Z')
}

pub fn ascii_alnum(c: char) -> (r: bool)
    ensures
        r == is_ascii_alnum(c),
{
    ('0' <= c && c <= '9') || ('a' <= c && c <= 'z') || ('A' <= c && c <= 'Z')
}

/// Equal once ASCII letters are folded to lower case, as
/// `str::eq_ignore_ascii_case` compares.
pub open spec fn eq_ignore_ascii_case(a: Seq<char>, b: Seq<char>) -> bool {
    a.len() == b.len() && forall|i: int| 0 <= i < a.len() ==> ascii_lower(#[trigger] a[i])
        == ascii_lower(b[i])
}

pub fn same_ignoring_ascii_case(a: &Vec<char>, b: &Vec<char>) -> (r: bool)
    ensures
        r == eq_ignore_ascii_case(a@, b@),
{
    if a.len() != b.len() {
        return false;
    }
    let mut i: usize = 0;
    while i < a.len()
        invariant
            i <= a.len(),
            a.len() == b.len(),
            forall|k: int| 0 <= k < i ==> ascii_lower(#[trigger] a@[k]) == ascii_lower(b@[k]),
        decreases a.len() - i,
    {
        if to_ascii_lower(a[i]) != to_ascii_lower(b[i]) {
            return false;
        }
        i += 1;
    }
    true
}

/// Whether the vectors hold the same characters.
pub fn same_chars(a: &Vec<char>, b: &Vec<char>) -> (r: bool)
    ensures
        r == (a@ == b@),
{
    if a.len() != b.len() {
        return false;
    }
    let mut i: usize = 0;
    while i < a.len()
        invariant
            i <= a.len(),
            a.len() == b.len(),
            forall|k: int| 0 <= k < i ==> a@[k] == b@[k],
        decreases a.len() - i,
    {
        if a[i] != b[i] {
            return false;
        }
        i += 1;
    }
    assert(a@ =~= b@);
    true
}

/// The contents of each string, in order.
pub open spec fn str_views(v: Seq<String>) -> Seq<Seq<char>> {
    v.map_values(|s: String| s@)
}

/// Writes the strings with `sep` between them, as `join` does.
pub fn join_strings(parts: &Vec<String>, sep: &str) -> (r: String)
    ensures
        r@ == joined(str_views(parts@), sep@),
{
    let mut out = String::new();
    let mut i: usize = 0;
    while i < parts.len()
        invariant
            i <= parts.len(),
            out@ == joined(str_views(parts@).take(i as int), sep@),
        decreases parts.len() - i,
    {
        let ghost next = str_views(parts@).take(i + 1);
        proof {
            assert(next.drop_last() =~= str_views(parts@).take(i as int));
            assert(next.last() == parts@[i as int]@);
        }
        if i > 0 {
            out.append(sep);
        }
        out.append(parts[i].as_str());
        proof {
            if i == 0 {
                assert(out@ =~= next[0]);
            }
        }
        i += 1;
    }
    assert(str_views(parts@).take(parts.len() as int) =~= str_views(parts@));
    out
}


/// Words found so far and the word being read, scanning left to right.
pub open spec fn words_scan(s: Seq<char>) -> (Seq<Seq<char>>, Seq<char>)
    decreases s.len(),
{
    if s.len() == 0 {
        (Seq::<Seq<char>>::empty(), Seq::<char>::empty())
    } else {
        let (done, cur) = words_scan(s.drop_last());
        if is_white_space(s.last()) {
            if cur.len() > 0 {
                (done.push(cur), Seq::<char>::empty())
            } else {
                (done, Seq::<char>::empty())
            }
        } else {
            (done, cur.push(s.last()))
        }
    }
}

/// The runs of characters between white space, as `split_whitespace`
/// yields them.
pub open spec fn words(s: Seq<char>) -> Seq<Seq<char>> {
    let (done, cur) = words_scan(s);
    if cur.len() > 0 {
        done.push(cur)
    } else {
        done
    }
}

/// The runs of characters between white space.
pub fn split_whitespace(v: &Vec<char>) -> (r: Vec<Vec<char>>)
    ensures
        views(r@) == words(v@),
{
    let mut done: Vec<Vec<char>> = Vec::new();
    let mut cur: Vec<char> = Vec::new();
    let mut i: usize = 0;
    while i < v.len()
        invariant
            i <= v.len(),
            words_scan(v@.take(i as int)) == (views(done@), cur@),
        decreases v.len() - i,
    {
        proof {
            assert(v@.take(i + 1).drop_last() =~= v@.take(i as int));
            assert(v@.take(i + 1).last() == v@[i as int]);
        }
        if is_whitespace(v[i]) {
            if cur.len() > 0 {
                let ghost before = done@;
                let ghost word = cur@;
                let finished = cur;
                done.push(finished);
                cur = Vec::new();
                assert(views(done@) =~= views(before).push(word));
            } else {
                cur = Vec::new();
                assert(cur@ =~= Seq::<char>::empty());
            }
        } else {
            cur.push(v[i]);
        }
        i += 1;
    }
    assert(v@.take(v.len() as int) =~= v@);
    if cur.len() > 0 {
        let ghost before = done@;
        let ghost word = cur@;
        done.push(cur);
        assert(views(done@) =~= views(before).push(word));
    }
    done
}

/// At most the first `n` items.
pub open spec fn at_most<A>(s: Seq<A>, n: nat) -> Seq<A> {
    if s.len() > n {
        s.take(n as int)
    } else {
        s
    }
}

/// What the first `i + 1` items hold: what the first `i` hold, and one more.
pub proof fn lemma_take_contains<A>(s: Seq<A>, i: int)
    requires
        0 <= i < s.len(),
    ensures
        forall|x: A| #[trigger] s.take(i + 1).contains(x) <==> (s.take(i).contains(x) || x == s[i]),
{
    let a = s.take(i);
    let b = s.take(i + 1);
    assert forall|x: A| #[trigger] b.contains(x) <==> (a.contains(x) || x == s[i]) by {
        if a.contains(x) {
            let k = choose|k: int| 0 <= k < a.len() && a[k] == x;
            assert(b[k] == x);
        }
        if x == s[i] {
            assert(b[i] == x);
        }
        if b.contains(x) {
            let k = choose|k: int| 0 <= k < b.len() && b[k] == x;
            if k < i {
                assert(a[k] == x);
            }
        }
    }
}

/// Everything but `x`.
pub open spec fn other_than<A>(x: A) -> spec_fn(A) -> bool {
    |y: A| y != x
}


/// What `str::to_lowercase` makes of a text: Unicode lower case, with the
/// context-dependent rules of the whole-string conversion.
pub uninterp spec fn lowercase(s: Seq<char>) -> Seq<char>;

/// What `char::to_lowercase` yields for one character.
pub uninterp spec fn char_lowercase(c: char) -> Seq<char>;

/// The text in lower case, from `str::to_lowercase`.
#[verifier::external_body]
pub(crate) fn to_lowercase(s: &str) -> (r: String)
    ensures
        r@ == lowercase(s@),
{
    s.to_lowercase()
}

/// The characters `char::to_lowercase` yields for `c`.
#[verifier::external_body]
pub(crate) fn lower_char(c: char) -> (r: Vec<char>)
    ensures
        r@ == char_lowercase(c),
{
    c.to_lowercase().collect()
}

/// The lower-case characters of a text, taken one character at a time.
pub open spec fn lowered(s: Seq<char>) -> Seq<char>
    decreases s.len(),
{
    if s.len() == 0 {
        Seq::<char>::empty()
    } else {
        lowered(s.drop_last()) + char_lowercase(s.last())
    }
}

pub open spec fn is_ascii_seq(s: Seq<char>) -> bool {
    forall|i: int| 0 <= i < s.len() ==> is_ascii_char(#[trigger] s[i])
}

/// Whether `haystack` holds `needle`, which is expected in lower case: an
/// empty needle is everywhere; ASCII text holds no other needle; between
/// ASCII texts the comparison folds ASCII case; otherwise some suffix of
/// the haystack, lowered one character at a time, starts with the lowered
/// needle.
pub open spec fn holds_ignoring_case(haystack: Seq<char>, needle: Seq<char>) -> bool {
    if needle.len() == 0 {
        true
    } else if is_ascii_seq(haystack) && !is_ascii_seq(needle) {
        false
    } else if is_ascii_seq(haystack) && is_ascii_seq(needle) {
        exists|i: int|
            0 <= i && i + needle.len() <= haystack.len() && eq_ignore_ascii_case(
                #[trigger] haystack.subrange(i, i + needle.len()),
                needle,
            )
    } else {
        exists|start: int|
            0 <= start < haystack.len() && lowered(needle).len() <= lowered(
                #[trigger] haystack.skip(start),
            ).len() && lowered(haystack.skip(start)).take(lowered(needle).len() as int) == lowered(
                needle,
            )
    }
}

fn ascii_all(v: &Vec<char>) -> (r: bool)
    ensures
        r == is_ascii_seq(v@),
{
    let mut i: usize = 0;
    while i < v.len()
        invariant
            i <= v.len(),
            forall|k: int| 0 <= k < i ==> is_ascii_char(#[trigger] v@[k]),
        decreases v.len() - i,
    {
        if (v[i] as u32) >= 128 {
            return false;
        }
        i += 1;
    }
    true
}

/// Each character lowered, one after another.
fn lowered_chars(v: &Vec<char>) -> (r: Vec<char>)
    ensures
        r@ == lowered(v@),
{
    let mut out: Vec<char> = Vec::new();
    let mut i: usize = 0;
    while i < v.len()
        invariant
            i <= v.len(),
            out@ == lowered(v@.take(i as int)),
        decreases v.len() - i,
    {
        let l = lower_char(v[i]);
        let mut k: usize = 0;
        let ghost start = out@;
        while k < l.len()
            invariant
                k <= l.len(),
                out@ == start + l@.take(k as int),
            decreases l.len() - k,
        {
            out.push(l[k]);
            k += 1;
            assert(out@ =~= start + l@.take(k as int));
        }
        assert(l@.take(l.len() as int) =~= l@);
        assert(v@.take(i + 1).drop_last() =~= v@.take(i as int));
        i += 1;
    }
    assert(v@.take(v.len() as int) =~= v@);
    out
}

pub proof fn lemma_lowered_split(s: Seq<char>, k: int)
    requires
        0 <= k <= s.len(),
    ensures
        lowered(s) == lowered(s.take(k)) + lowered(s.skip(k)),
    decreases s.len() - k,
{
    if k == s.len() {
        assert(s.take(k) =~= s);
        assert(s.skip(k) =~= Seq::<char>::empty());
        assert(lowered(s) + Seq::<char>::empty() =~= lowered(s));
    } else {
        lemma_lowered_split(s, k + 1);
        let t = s.skip(k);
        assert(t.drop_last() =~= s.subrange(k, s.len() - 1));
        lemma_lowered_split_tail(s, k);
    }
}

proof fn lemma_lowered_split_tail(s: Seq<char>, k: int)
    requires
        0 <= k < s.len(),
        lowered(s) == lowered(s.take(k + 1)) + lowered(s.skip(k + 1)),
    ensures
        lowered(s) == lowered(s.take(k)) + lowered(s.skip(k)),
    decreases s.len() - k,
{
    assert(s.take(k + 1).drop_last() =~= s.take(k));
    assert(s.take(k + 1).last() == s[k]);
    lemma_lowered_prepend(s.skip(k));
    assert(s.skip(k).drop_first() =~= s.skip(k + 1));
    assert(s.skip(k)[0] == s[k]);
    assert(lowered(s.take(k + 1)) + lowered(s.skip(k + 1)) =~= lowered(s.take(k)) + (
    char_lowercase(s[k]) + lowered(s.skip(k + 1))));
}

/// Lowering a text is lowering its first character, then the rest.
pub proof fn lemma_lowered_prepend(s: Seq<char>)
    requires
        s.len() > 0,
    ensures
        lowered(s) == char_lowercase(s[0]) + lowered(s.drop_first()),
    decreases s.len(),
{
    if s.len() == 1 {
        assert(s.drop_last() =~= Seq::<char>::empty());
        assert(s.drop_first() =~= Seq::<char>::empty());
        assert(lowered(Seq::<char>::empty()) == Seq::<char>::empty());
        assert(s.last() == s[0]);
        assert(lowered(s) =~= char_lowercase(s[0]));
        assert(char_lowercase(s[0]) + Seq::<char>::empty() =~= char_lowercase(s[0]));
    } else {
        lemma_lowered_prepend(s.drop_last());
        assert(s.drop_last().drop_first() =~= s.drop_first().drop_last());
        assert(s.drop_first().last() == s.last());
        assert(s.drop_last()[0] == s[0]);
        assert(lowered(s) =~= char_lowercase(s[0]) + lowered(s.drop_first()));
    }
}

/// Whether `haystack` holds `needle`, which is already in lower case. ASCII
/// text is compared in place; other text a character at a time.
#[verifier::loop_isolation(false)]
pub fn contains_ignoring_case(haystack: &str, needle: &str) -> (r: bool)
    ensures
        r == holds_ignoring_case(haystack@, needle@),
{
    let h = chars_of(haystack);
    let n = chars_of(needle);
    if n.len() == 0 {
        return true;
    }
    let h_ascii = ascii_all(&h);
    let n_ascii = ascii_all(&n);
    if h_ascii && !n_ascii {
        return false;
    }
    if h_ascii && n_ascii {
        if n.len() > h.len() {
            return false;
        }
        let mut i: usize = 0;
        while i <= h.len() - n.len()
            invariant
                n.len() <= h.len(),
                i <= h.len() - n.len() + 1,
                h@ == haystack@,
                n@ == needle@,
                forall|k: int| 0 <= k < i ==> !eq_ignore_ascii_case(#[trigger] h@.subrange(k, k + n@.len()), n@),
            decreases h.len() - i,
        {
            let mut window: Vec<char> = Vec::new();
            let mut j: usize = 0;
            while j < n.len()
                invariant
                    j <= n.len(),
                    i + n.len() <= h.len(),
                    window@ == h@.subrange(i as int, i + j),
                decreases n.len() - j,
            {
                window.push(h[i + j]);
                j += 1;
            }
            if same_ignoring_ascii_case(&window, &n) {
                assert(eq_ignore_ascii_case(h@.subrange(i as int, i + n@.len()), n@));
                return true;
            }
            i += 1;
        }
        return false;
    }
    let lh = lowered_chars(&h);
    let ln = lowered_chars(&n);
    // Where each character of the haystack starts in its lowered form.
    let mut start: usize = 0;
    let mut offset: usize = 0;
    proof {
        assert(h@.take(0) =~= Seq::<char>::empty());
    }
    while start < h.len()
        invariant
            start <= h.len(),
            h@ == haystack@,
            n@ == needle@,
            lh@ == lowered(h@),
            ln@ == lowered(n@),
            offset == lowered(h@.take(start as int)).len(),
            offset <= lh@.len(),
            forall|k: int|
                0 <= k < start ==> !(ln@.len() <= (#[trigger] lowered(h@.skip(k))).len() && lowered(
                    h@.skip(k),
                ).take(ln@.len() as int) == ln@),
        decreases h.len() - start,
    {
        proof {
            lemma_lowered_split(h@, start as int);
        }
        let ghost rest = lowered(h@.skip(start as int));
        assert(lh@.skip(offset as int) =~= rest);
        let mut matched = ln.len() <= lh.len() - offset;
        let mut j: usize = 0;
        while matched && j < ln.len()
            invariant
                j <= ln.len(),
                matched ==> offset + ln.len() <= lh.len(),
                matched ==> forall|q: int| 0 <= q < j ==> lh@[offset + q] == ln@[q],
                !matched ==> (offset + ln.len() > lh.len() || exists|q: int| 0 <= q < ln.len() && lh@[offset + q] != ln@[q]),
            decreases ln.len() - j,
        {
            if lh[offset + j] != ln[j] {
                matched = false;
            }
            j += 1;
        }
        if matched {
            assert(rest.take(ln@.len() as int) =~= ln@);
            return true;
        }
        proof {
            if rest.len() >= ln@.len() && rest.take(ln@.len() as int) == ln@ {
                if offset + ln.len() > lh.len() {
                } else {
                    let q = choose|q: int| 0 <= q < ln.len() && lh@[offset + q] != ln@[q];
                    assert(rest.take(ln@.len() as int)[q] == lh@[offset + q]);
                }
            }
        }
        let l = lower_char(h[start]);
        proof {
            assert(h@.take(start + 1).drop_last() =~= h@.take(start as int));
            assert(h@.take(start + 1).last() == h@[start as int]);
            lemma_lowered_split(h@, start + 1);
        }
        offset = offset + l.len();
        start += 1;
    }
    false
}

/// Whether `q` occurs in `s`.
pub open spec fn has_infix(s: Seq<char>, q: Seq<char>) -> bool {
    exists|i: int| 0 <= i && i + q.len() <= s.len() && #[trigger] s.subrange(i, i + q.len()) == q
}

/// Whether `q` occurs in `s`, as `str::contains` finds it.
pub fn contains_text(s: &str, q: &str) -> (r: bool)
    ensures
        r == has_infix(s@, q@),
{
    let hay = chars_of(s);
    let needle = chars_of(q);
    if needle.len() > hay.len() {
        assert(!has_infix(s@, q@));
        return false;
    }
    let mut i: usize = 0;
    let last = hay.len() - needle.len();
    while i <= last
        invariant
            needle.len() <= hay.len(),
            last == hay.len() - needle.len(),
            hay@ == s@,
            needle@ == q@,
            forall|k: int| 0 <= k < i ==> #[trigger] s@.subrange(k, k + q@.len()) != q@,
        decreases hay.len() - i,
    {
        let mut j: usize = 0;
        while j < needle.len() && hay[i + j] == needle[j]
            invariant
                j <= needle.len(),
                i + needle.len() <= hay.len(),
                forall|k: int| 0 <= k < j ==> hay@[i + k] == needle@[k],
            decreases needle.len() - j,
        {
            j += 1;
        }
        if j == needle.len() {
            assert(s@.subrange(i as int, i + q@.len()) =~= q@);
            return true;
        }
        assert(s@.subrange(i as int, i + q@.len())[j as int] != q@[j as int]);
        i += 1;
    }
    false
}

} // verus!
