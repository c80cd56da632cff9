//! Names for saved attachments: a sender can never steer a write out of
//! the downloads folder, and an existing file is never overwritten.

use vstd::prelude::*;

use crate::text::{
    chars_of, decimal, decimal_string, lemma_skip_set_front, pieces, skip_front, split_on,
    string_of, trim, trimmed, views,
};

verus! {

/// Tried before giving up on a name, which only happens when a hundred
/// files already share it.
pub const MAX_ATTEMPTS: u32 = 100;

#[derive(Debug, Clone, Copy, PartialEq, Eq, Structural)]
pub enum SaveError {
    /// No downloads folder to write to.
    NoFolder,
    /// The folder exists but the file could not be written.
    Failed,
    /// Nothing was written because no attachment arrived.
    NotFetched,
}

pub open spec fn save_error_text(e: SaveError) -> Seq<char> {
    match e {
        SaveError::NoFolder => "Ruston Mail could not find a downloads folder to save into."@,
        SaveError::Failed => "Ruston Mail could not save the file."@,
        SaveError::NotFetched => "Ruston Mail could not download the file from Proton."@,
    }
}

impl SaveError {
    pub fn message(self) -> (r: &'static str)
        ensures
            r@ == save_error_text(self),
    {
        match self {
            SaveError::NoFolder => "Ruston Mail could not find a downloads folder to save into.",
            SaveError::Failed => "Ruston Mail could not save the file.",
            SaveError::NotFetched => "Ruston Mail could not download the file from Proton.",
        }
    }
}

/// One part of a path, as `Path::components` names it.
#[derive(Debug, Clone, PartialEq, Eq)]
pub enum PathPart {
    /// A drive or share prefix, which only Windows has.
    Prefix,
    RootDir,
    CurDir,
    ParentDir,
    Normal(String),
}

/// A name that is one ordinary path component on every platform: not
/// empty, no slash, backslash or colon, and not `.` or `..`.
pub open spec fn plain_everywhere(name: Seq<char>) -> bool {
    &&& name.len() > 0
    &&& !name.contains('/')
    &&& !name.contains('\\')
    &&& !name.contains(':')
    &&& name != "."@
    &&& name != ".."@
}

/// An ordinary part with this name.
pub open spec fn normal_named(part: PathPart, name: Seq<char>) -> bool {
    match part {
        PathPart::Normal(n) => n@ == name,
        _ => false,
    }
}

/// The parts `Path::new(name).components()` yields. How a name splits
/// depends on the platform (a drive prefix such as `C:` is one only on
/// Windows); what is claimed is only what holds everywhere: an empty name
/// has no parts, `.` and `..` are the current and parent directory, and a
/// name that is plain everywhere is one ordinary part, itself.
#[verifier::external_body]
fn path_parts(name: &str) -> (r: Vec<PathPart>)
    ensures
        name@.len() == 0 ==> r@.len() == 0,
        name@ == "."@ ==> r@.len() == 1 && r@[0] == PathPart::CurDir,
        name@ == ".."@ ==> r@.len() == 1 && r@[0] == PathPart::ParentDir,
        plain_everywhere(name@) ==> r@.len() == 1 && normal_named(r@[0], name@),
{
    std::path::Path::new(name)
        .components()
        .map(|part| match part {
            std::path::Component::Prefix(_) => PathPart::Prefix,
            std::path::Component::RootDir => PathPart::RootDir,
            std::path::Component::CurDir => PathPart::CurDir,
            std::path::Component::ParentDir => PathPart::ParentDir,
            std::path::Component::Normal(n) => PathPart::Normal(n.to_string_lossy().into_owned()),
        })
        .collect()
}

/// Whether a name is one bare path component: its parts are exactly one
/// ordinary name. A name that is plain everywhere is one; an empty name,
/// `.` and `..` are not. Whether a drive-qualified name such as `C:report`
/// is one depends on the platform.
pub fn is_plain_file_name(name: &str) -> (r: bool)
    ensures
        name@.len() == 0 ==> !r,
        name@ == "."@ ==> !r,
        name@ == ".."@ ==> !r,
        plain_everywhere(name@) ==> r,
{
    let parts = path_parts(name);
    if parts.len() != 1 {
        return false;
    }
    match &parts[0] {
        PathPart::Normal(_) => true,
        _ => false,
    }
}

/// The bare name a sender asked for: what follows the last slash or
/// backslash, without surrounding white space or leading dots.
pub open spec fn candidate_text(name: Seq<char>) -> Seq<char> {
    skip_front(trimmed(pieces(name, set!['/', '\\']).last()), set!['.'])
}

/// The bare name a sender asked for, before it is checked.
pub fn candidate_name(name: &str) -> (r: String)
    ensures
        r@ == candidate_text(name@),
{
    let parts = split_on(&chars_of(name), '/', '\\');
    proof {
        crate::text::lemma_pieces_len(name@, set!['/', '\\']);
    }
    let last = string_of(&parts[parts.len() - 1]);
    assert(views(parts@).last() == parts@[parts.len() - 1]@);
    let t = chars_of(trim(last.as_str()).as_str());
    let mut i: usize = 0;
    while i < t.len() && t[i] == '.'
        invariant
            i <= t.len(),
            forall|k: int| 0 <= k < i ==> set!['.'].contains(#[trigger] t@[k]),
        decreases t.len() - i,
    {
        i += 1;
    }
    proof {
        lemma_skip_set_front(t@, set!['.'], i as int);
    }
    let mut out = String::new();
    let mut k = i;
    while k < t.len()
        invariant
            i <= k <= t.len(),
            out@ == t@.subrange(i as int, k as int),
        decreases t.len() - k,
    {
        crate::text::push_char(&mut out, t[k]);
        k += 1;
        assert(out@ =~= t@.subrange(i as int, k as int));
    }
    assert(out@ =~= t@.skip(i as int));
    out
}

/// The name a file is saved under: the sender's, when it is a bare name,
/// or else `attachment`.
pub fn name_to_save(candidate: String, plain: bool) -> (r: String)
    ensures
        r@ == if plain {
            candidate@
        } else {
            "attachment"@
        },
{
    if plain {
        candidate
    } else {
        "attachment".to_owned()
    }
}

/// The bare file name a sender asked for, with anything that could point
/// outside the downloads folder taken away; `attachment` when nothing
/// usable is left.
pub fn safe_name(name: &str) -> (r: String)
    ensures
        r@ == candidate_text(name@) || r@ == "attachment"@,
        candidate_text(name@).len() == 0 ==> r@ == "attachment"@,
        candidate_text(name@).len() > 0 && !candidate_text(name@).contains(':') ==> r@ == candidate_text(name@),
{
    proof {
        law_name_stays_in_folder(name@);
        let c = candidate_text(name@);
        if c.len() > 0 && !c.contains(':') {
            assert(!c.contains('/')) by {
                if c.contains('/') {
                    let i = choose|i: int| 0 <= i < c.len() && c[i] == '/';
                    assert(c[i] != '/');
                }
            }
            assert(!c.contains('\\')) by {
                if c.contains('\\') {
                    let i = choose|i: int| 0 <= i < c.len() && c[i] == '\\';
                    assert(c[i] != '\\');
                }
            }
            reveal_strlit(".");
            reveal_strlit("..");
            assert(c != "."@);
            assert(c != ".."@);
        }
    }
    let candidate = candidate_name(name);
    let plain = is_plain_file_name(candidate.as_str());
    name_to_save(candidate, plain)
}

/// Where the extension of a name starts: at its last dot, when something
/// comes before that dot.
pub open spec fn extension_start(name: Seq<char>) -> int
    decreases name.len(),
{
    if name.len() == 0 {
        -1
    } else if name.last() == '.' {
        if name.len() > 1 {
            name.len() - 1
        } else {
            -1
        }
    } else {
        extension_start(name.drop_last())
    }
}

/// The name tried at each attempt: the name itself first, then the name
/// with ` (2)`, ` (3)` and so on before its extension.
pub open spec fn numbered_text(name: Seq<char>, attempt: nat) -> Seq<char> {
    if attempt == 0 {
        name
    } else {
        let k = extension_start(name);
        let (stem, extension) = if k >= 0 {
            (name.take(k), name.skip(k))
        } else {
            (name, Seq::<char>::empty())
        };
        stem + " ("@ + decimal(attempt + 1) + ")"@ + extension
    }
}

proof fn lemma_extension_start(name: Seq<char>, k: int)
    requires
        -1 <= k < name.len(),
        k >= 0 ==> name[k] == '.' && k > 0,
        k >= 0 ==> forall|j: int| k < j < name.len() ==> name[j] != '.',
        k < 0 ==> forall|j: int| 0 < j < name.len() ==> name[j] != '.',
    ensures
        extension_start(name) == k,
    decreases name.len(),
{
    if name.len() > 0 && name.last() != '.' {
        lemma_extension_start(name.drop_last(), k);
    }
}

/// The name to try at `attempt`, counting from zero.
pub fn numbered_name(name: &str, attempt: u32) -> (r: String)
    ensures
        r@ == numbered_text(name@, attempt as nat),
{
    if attempt == 0 {
        return name.to_owned();
    }
    let v = chars_of(name);
    let mut j: usize = v.len();
    while j > 0 && v[j - 1] != '.'
        invariant
            j <= v.len(),
            forall|i: int| j <= i < v.len() ==> v@[i] != '.',
        decreases j,
    {
        j -= 1;
    }
    let k: usize = if j >= 2 {
        j - 1
    } else {
        0
    };
    let has_stem = j >= 2;
    proof {
        if has_stem {
            lemma_extension_start(v@, k as int);
        } else {
            lemma_extension_start(v@, -1);
        }
    }
    let mut stem: Vec<char> = Vec::new();
    let mut extension: Vec<char> = Vec::new();
    let cut = if has_stem {
        k
    } else {
        v.len()
    };
    let mut i: usize = 0;
    while i < v.len()
        invariant
            i <= v.len(),
            cut <= v.len(),
            stem@ == v@.take(if i < cut { i as int } else { cut as int }),
            extension@ == (if i < cut { Seq::<char>::empty() } else { v@.subrange(cut as int, i as int) }),
        decreases v.len() - i,
    {
        if i < cut {
            stem.push(v[i]);
            assert(stem@ =~= v@.take(if i + 1 < cut { i + 1 } else { cut as int }));
        } else {
            extension.push(v[i]);
            assert(extension@ =~= v@.subrange(cut as int, i + 1));
        }
        i += 1;
    }
    proof {
        reveal_strlit(" (");
        reveal_strlit(")");
        if cut < v.len() {
            assert(extension@ =~= v@.skip(cut as int));
        } else {
            assert(v@.take(cut as int) =~= v@);
        }
    }
    let number = (attempt as u64) + 1;
    string_of(&stem).concat(" (").concat(decimal_string(number).as_str()).concat(")").concat(
        string_of(&extension).as_str(),
    )
}


proof fn lemma_pieces_free(s: Seq<char>, seps: Set<char>)
    ensures
        forall|k: int, i: int|
            0 <= k < pieces(s, seps).len() && 0 <= i < pieces(s, seps)[k].len() ==> !seps.contains(#[trigger] pieces(s, seps)[k][i]),
    decreases s.len(),
{
    if s.len() > 0 {
        lemma_pieces_free(s.drop_last(), seps);
        crate::text::lemma_pieces_len(s.drop_last(), seps);
        let r = pieces(s.drop_last(), seps);
        let p = pieces(s, seps);
        assert forall|k: int, i: int| 0 <= k < p.len() && 0 <= i < p[k].len() implies !seps.contains(#[trigger] p[k][i]) by {
            if seps.contains(s.last()) {
                if k < r.len() {
                    assert(p[k] == r[k]);
                }
            } else {
                if k < r.len() - 1 {
                    assert(p[k] == r[k]);
                } else {
                    assert(p[k] == r.last().push(s.last()));
                    if i < r.last().len() {
                        assert(p[k][i] == r.last()[i]);
                    }
                }
            }
        }
    }
}

proof fn lemma_front_part(s: Seq<char>)
    ensures
        exists|m: int| 0 <= m <= s.len() && #[trigger] s.skip(m) == crate::text::skip_ws_front(s),
    decreases s.len(),
{
    if s.len() > 0 && crate::text::is_white_space(s[0]) {
        lemma_front_part(s.drop_first());
        let m = choose|m: int| 0 <= m <= s.drop_first().len() && #[trigger] s.drop_first().skip(m) == crate::text::skip_ws_front(s.drop_first());
        assert(s.skip(m + 1) =~= s.drop_first().skip(m));
    } else {
        assert(s.skip(0) =~= s);
    }
}

proof fn lemma_back_part(s: Seq<char>)
    ensures
        exists|n: int| 0 <= n <= s.len() && #[trigger] s.take(n) == crate::text::skip_ws_back(s),
    decreases s.len(),
{
    if s.len() > 0 && crate::text::is_white_space(s.last()) {
        lemma_back_part(s.drop_last());
        let n = choose|n: int| 0 <= n <= s.drop_last().len() && #[trigger] s.drop_last().take(n) == crate::text::skip_ws_back(s.drop_last());
        assert(s.take(n) =~= s.drop_last().take(n));
    } else {
        assert(s.take(s.len() as int) =~= s);
    }
}

proof fn lemma_dots_skipped(s: Seq<char>)
    ensures
        exists|m: int| 0 <= m <= s.len() && #[trigger] s.skip(m) == skip_front(s, set!['.']),
        skip_front(s, set!['.']).len() > 0 ==> skip_front(s, set!['.'])[0] != '.',
    decreases s.len(),
{
    if s.len() > 0 && set!['.'].contains(s[0]) {
        lemma_dots_skipped(s.drop_first());
        let m = choose|m: int| 0 <= m <= s.drop_first().len() && #[trigger] s.drop_first().skip(m) == skip_front(s.drop_first(), set!['.']);
        assert(s.skip(m + 1) =~= s.drop_first().skip(m));
    } else {
        assert(s.skip(0) =~= s);
    }
}

/// A sender cannot steer a write out of the downloads folder: the name
/// they asked for is cut down to something with no slash or backslash in
/// it that does not start with a dot.
pub proof fn law_name_stays_in_folder(name: Seq<char>)
    ensures
        forall|i: int| 0 <= i < candidate_text(name).len() ==> #[trigger] candidate_text(name)[i] != '/' && candidate_text(name)[i] != '\\',
        candidate_text(name).len() > 0 ==> candidate_text(name)[0] != '.',
{
    let seps = set!['/', '\\'];
    crate::text::lemma_pieces_len(name, seps);
    lemma_pieces_free(name, seps);
    let last = pieces(name, seps).last();
    assert forall|i: int| 0 <= i < last.len() implies !seps.contains(#[trigger] last[i]) by {
        assert(last[i] == pieces(name, seps)[pieces(name, seps).len() - 1][i]);
    }
    lemma_front_part(last);
    let front = crate::text::skip_ws_front(last);
    let m = choose|m: int| 0 <= m <= last.len() && #[trigger] last.skip(m) == front;
    lemma_back_part(front);
    let t = trimmed(last);
    let n = choose|n: int| 0 <= n <= front.len() && #[trigger] front.take(n) == crate::text::skip_ws_back(front);
    assert forall|i: int| 0 <= i < t.len() implies !seps.contains(#[trigger] t[i]) by {
        assert(t[i] == front[i]);
        assert(front[i] == last[i + m]);
    }
    lemma_dots_skipped(t);
    let c = candidate_text(name);
    let k = choose|k: int| 0 <= k <= t.len() && #[trigger] t.skip(k) == skip_front(t, set!['.']);
    assert forall|i: int| 0 <= i < c.len() implies #[trigger] c[i] != '/' && c[i] != '\\' by {
        assert(c[i] == t[i + k]);
        assert(!seps.contains(t[i + k]));
    }
}

} // verus!
