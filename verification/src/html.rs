//! Turns the tokens of a sanitized HTML body into Ruston's rich body model,
//! keeping readable structure and inline styles without CSS or remote
//! content. The tokens themselves come from an HTML tokenizer; this module
//! decides what each of them does to the text being built.

use vstd::prelude::*;

use html5ever::tendril::StrTendril;
use html5ever::tokenizer::states::RawKind;
use html5ever::tokenizer::{
    BufferQueue, TagKind, Token, TokenSink, TokenSinkResult, Tokenizer, TokenizerOpts,
};

use crate::links::{parse_url, url_parse};
use crate::model::{clone_opt_string, BlockKind, RichBlock, RichBody, RichSpan};
use crate::text::{
    chars_of, decimal, decimal_string, is_blank_seq, is_white_space, is_whitespace, push_char,
    same_text, skip_ws_back, string_of, trim, trimmed,
};

verus! {

/// A run of text as plain values: text, bold, italic, code, struck
/// through, and link.
pub type SpanShape = (Seq<char>, bool, bool, bool, bool, Option<Seq<char>>);

/// A block as plain values.
pub enum BlockShape {
    Paragraph(Seq<SpanShape>),
    Heading(u8, Seq<SpanShape>),
    ListItem(Seq<char>, u8, Seq<SpanShape>),
    Preformatted(Seq<char>),
    Image(Seq<char>),
    Rule,
}

/// What the tokenizer is to read next: markup, or the raw text of a
/// script, a style sheet, or a title or text area.
#[derive(Debug, Clone, Copy, PartialEq, Eq, Structural)]
pub enum RawContent {
    Markup,
    Script,
    Rawtext,
    Rcdata,
}

pub open spec fn opt_seq(o: Option<String>) -> Option<Seq<char>> {
    match o {
        Some(s) => Some(s@),
        None => None,
    }
}

pub open spec fn span_shape(s: RichSpan) -> SpanShape {
    (s.text@, s.strong, s.emphasis, s.code, s.struck, opt_seq(s.link))
}

pub open spec fn span_shapes(s: Seq<RichSpan>) -> Seq<SpanShape> {
    s.map_values(|x: RichSpan| span_shape(x))
}

pub open spec fn block_shape(b: RichBlock) -> (BlockShape, u8) {
    let shape = match b.kind {
        BlockKind::Paragraph(spans) => BlockShape::Paragraph(span_shapes(spans@)),
        BlockKind::Heading { level, spans } => BlockShape::Heading(level, span_shapes(spans@)),
        BlockKind::ListItem { marker, depth, spans } => BlockShape::ListItem(
            marker@,
            depth,
            span_shapes(spans@),
        ),
        BlockKind::Preformatted(text) => BlockShape::Preformatted(text@),
        BlockKind::Image { description } => BlockShape::Image(description@),
        BlockKind::Rule => BlockShape::Rule,
    };
    (shape, b.quote_depth)
}

pub open spec fn block_shapes(s: Seq<RichBlock>) -> Seq<(BlockShape, u8)> {
    s.map_values(|b: RichBlock| block_shape(b))
}

/// Everything the builder holds, as plain values.
pub struct BuilderShape {
    pub blocks: Seq<(BlockShape, u8)>,
    pub spans: Seq<SpanShape>,
    /// A separating space was written since the last visible character.
    pub space: bool,
    pub strong: u16,
    pub emphasis: u16,
    pub code: u16,
    pub struck: u16,
    pub link: Option<Seq<char>>,
    pub heading: Option<u8>,
    /// Open lists, innermost last: the next number of ordered ones.
    pub lists: Seq<Option<u32>>,
    /// Marker for the next block of the current list item.
    pub item: Option<Seq<char>>,
    pub quote_depth: u8,
    pub pre: u16,
    pub pre_text: Seq<char>,
    /// The element whose content is being skipped.
    pub hidden: Option<Seq<char>>,
}

/// Elements that start and end a paragraph.
pub open spec fn is_block_element(name: Seq<char>) -> bool {
    ||| name == "address"@
    ||| name == "article"@
    ||| name == "aside"@
    ||| name == "center"@
    ||| name == "dd"@
    ||| name == "div"@
    ||| name == "dl"@
    ||| name == "dt"@
    ||| name == "figcaption"@
    ||| name == "figure"@
    ||| name == "footer"@
    ||| name == "form"@
    ||| name == "header"@
    ||| name == "main"@
    ||| name == "nav"@
    ||| name == "p"@
    ||| name == "section"@
    ||| name == "table"@
    ||| name == "tbody"@
    ||| name == "tfoot"@
    ||| name == "thead"@
    ||| name == "tr"@
}

/// Elements whose content is never shown.
pub open spec fn is_hidden_element(name: Seq<char>) -> bool {
    ||| name == "head"@
    ||| name == "noscript"@
    ||| name == "script"@
    ||| name == "style"@
    ||| name == "template"@
    ||| name == "textarea"@
    ||| name == "title"@
}

/// Elements that have no content and no end tag.
pub open spec fn is_void_element(name: Seq<char>) -> bool {
    ||| name == "area"@
    ||| name == "base"@
    ||| name == "br"@
    ||| name == "col"@
    ||| name == "embed"@
    ||| name == "hr"@
    ||| name == "img"@
    ||| name == "input"@
    ||| name == "link"@
    ||| name == "meta"@
    ||| name == "source"@
    ||| name == "track"@
    ||| name == "wbr"@
}

/// The heading level an element names, if it is a heading.
pub open spec fn heading_level(name: Seq<char>) -> Option<u8> {
    if name == "h1"@ {
        Some(1u8)
    } else if name == "h2"@ {
        Some(2u8)
    } else if name == "h3"@ {
        Some(3u8)
    } else if name == "h4"@ {
        Some(4u8)
    } else if name == "h5"@ {
        Some(5u8)
    } else if name == "h6"@ {
        Some(6u8)
    } else {
        None
    }
}

pub open spec fn is_strong_element(name: Seq<char>) -> bool {
    name == "b"@ || name == "strong"@
}

pub open spec fn is_emphasis_element(name: Seq<char>) -> bool {
    name == "i"@ || name == "em"@ || name == "cite"@
}

pub open spec fn is_code_element(name: Seq<char>) -> bool {
    name == "code"@ || name == "kbd"@ || name == "samp"@ || name == "tt"@
}

pub open spec fn is_struck_element(name: Seq<char>) -> bool {
    name == "s"@ || name == "strike"@ || name == "del"@
}

pub open spec fn up16(x: u16) -> u16 {
    if x < u16::MAX { (x + 1) as u16 } else { x }
}

pub open spec fn down16(x: u16) -> u16 {
    if x > 0 { (x - 1) as u16 } else { 0 }
}

pub open spec fn up8(x: u8) -> u8 {
    if x < u8::MAX { (x + 1) as u8 } else { x }
}

pub open spec fn down8(x: u8) -> u8 {
    if x > 0 { (x - 1) as u8 } else { 0 }
}

/// Only absolute web and mail links stay clickable, in their normalized
/// form.
pub open spec fn link_target(href: Option<Seq<char>>) -> Option<Seq<char>> {
    match href {
        None => None,
        Some(h) => match url_parse(trimmed(h)) {
            Some((url, scheme, _host, _path)) => if scheme == "http"@ || scheme == "https"@
                || scheme == "mailto"@ {
                Some(url)
            } else {
                None
            },
            None => None,
        },
    }
}

/// How deeply a list item sits, from the number of open lists.
pub open spec fn item_depth(open: nat) -> u8 {
    if open <= 1 {
        1u8
    } else if open >= 255 {
        255u8
    } else {
        open as u8
    }
}

/// What the tokenizer reads after a start tag.
pub open spec fn raw_content_spec(name: Seq<char>) -> RawContent {
    if name == "script"@ {
        RawContent::Script
    } else if name == "style"@ {
        RawContent::Rawtext
    } else if name == "title"@ || name == "textarea"@ {
        RawContent::Rcdata
    } else {
        RawContent::Markup
    }
}

impl BuilderShape {
    /// The style text written now takes on.
    pub open spec fn style_matches(self, sp: SpanShape) -> bool {
        &&& sp.1 == (self.strong > 0)
        &&& sp.2 == (self.emphasis > 0)
        &&& sp.3 == (self.code > 0)
        &&& sp.4 == (self.struck > 0)
        &&& sp.5 == self.link
    }

    /// One more character in the current style: it joins the last run when
    /// that has the same style, and starts a run of its own otherwise.
    pub open spec fn put(self, c: char) -> BuilderShape {
        let n = self.spans.len();
        if n > 0 && self.style_matches(self.spans[n - 1]) {
            let last = self.spans[n - 1];
            BuilderShape {
                spans: self.spans.update(n - 1, (last.0.push(c), last.1, last.2, last.3, last.4, last.5)),
                ..self
            }
        } else {
            BuilderShape {
                spans: self.spans.push(
                    (seq![c], self.strong > 0, self.emphasis > 0, self.code > 0, self.struck > 0, self.link),
                ),
                ..self
            }
        }
    }

    /// Whether a space may separate what comes next from the text so far:
    /// there is text, and it does not end a line.
    pub open spec fn wants_space(self) -> bool {
        let n = self.spans.len();
        n > 0 && !(self.spans[n - 1].0.len() > 0 && self.spans[n - 1].0.last() == '\n')
    }

    /// Writes a pending space in the current style, once.
    pub open spec fn separate(self) -> BuilderShape {
        if !self.space && self.wants_space() {
            BuilderShape { space: true, ..self.put(' ') }
        } else {
            self
        }
    }

    /// One character of running text, with white space collapsed.
    pub open spec fn text_char(self, c: char) -> BuilderShape {
        if is_white_space(c) {
            self.separate()
        } else {
            BuilderShape { space: false, ..self }.put(c)
        }
    }

    /// Running text, character by character.
    pub open spec fn typed(self, t: Seq<char>) -> BuilderShape
        decreases t.len(),
    {
        if t.len() == 0 {
            self
        } else {
            self.typed(t.drop_last()).text_char(t.last())
        }
    }

    /// Text from the tokenizer: skipped while hidden, kept verbatim inside
    /// preformatted text, and collapsed otherwise.
    pub open spec fn after_text(self, t: Seq<char>) -> BuilderShape {
        if self.hidden is Some {
            self
        } else if self.pre > 0 {
            BuilderShape { pre_text: self.pre_text + t, ..self }
        } else {
            self.typed(t)
        }
    }

    pub open spec fn line_break(self) -> BuilderShape {
        if self.pre > 0 {
            BuilderShape { pre_text: self.pre_text.push('\n'), ..self }
        } else if self.spans.len() > 0 {
            BuilderShape { space: false, ..self.put('\n') }
        } else {
            self
        }
    }

    pub open spec fn push_block(self, kind: BlockShape) -> BuilderShape {
        BuilderShape { blocks: self.blocks.push((kind, self.quote_depth)), ..self }
    }

    /// Ends the current paragraph, if it has any text: the last run loses
    /// its trailing white space, empty runs go, and what is left becomes a
    /// heading, a list item or a paragraph.
    pub open spec fn flush(self) -> BuilderShape {
        let n = self.spans.len();
        let cut = if n > 0 {
            let last = self.spans[n - 1];
            self.spans.update(n - 1, (skip_ws_back(last.0), last.1, last.2, last.3, last.4, last.5))
        } else {
            self.spans
        };
        let kept = non_empty_runs(cut);
        let s = BuilderShape { spans: kept, space: false, ..self };
        if kept.len() == 0 {
            s
        } else {
            let e = BuilderShape { spans: Seq::empty(), ..s };
            match self.heading {
                Some(level) => e.push_block(BlockShape::Heading(level, kept)),
                None => match self.item {
                    Some(marker) => BuilderShape { item: Some(Seq::empty()), ..e }.push_block(
                        BlockShape::ListItem(marker, item_depth(self.lists.len()), kept),
                    ),
                    None => e.push_block(BlockShape::Paragraph(kept)),
                },
            }
        }
    }

    /// The marker of the next item of the innermost list, and the lists
    /// after it was handed out.
    pub open spec fn next_marker(self) -> (Seq<char>, Seq<Option<u32>>) {
        let n = self.lists.len();
        if n > 0 && self.lists[n - 1] is Some {
            let number = self.lists[n - 1]->0;
            let next = if number < u32::MAX { (number + 1) as u32 } else { number };
            (decimal(number as nat) + "."@, self.lists.update(n - 1, Some(next)))
        } else {
            ("•"@, self.lists)
        }
    }

    /// Images are not loaded: a described one becomes a placeholder, and a
    /// decorative one is dropped.
    pub open spec fn image(self, alt: Option<Seq<char>>) -> BuilderShape {
        match alt {
            Some(a) if trimmed(a).len() > 0 => self.flush().push_block(BlockShape::Image(trimmed(a))),
            _ => self,
        }
    }

    /// A start tag.
    pub open spec fn start(self, name: Seq<char>, alt: Option<Seq<char>>, href: Option<Seq<char>>) -> BuilderShape {
        if self.hidden is Some {
            self
        } else if is_hidden_element(name) {
            BuilderShape { hidden: Some(name), ..self }
        } else if name == "br"@ {
            self.line_break()
        } else if name == "hr"@ {
            self.flush().push_block(BlockShape::Rule)
        } else if name == "img"@ {
            self.image(alt)
        } else if heading_level(name) is Some {
            BuilderShape { heading: heading_level(name), ..self.flush() }
        } else if name == "ul"@ {
            let f = self.flush();
            BuilderShape { lists: f.lists.push(None), ..f }
        } else if name == "ol"@ {
            let f = self.flush();
            BuilderShape { lists: f.lists.push(Some(1u32)), ..f }
        } else if name == "li"@ {
            let f = self.flush();
            let (marker, lists) = f.next_marker();
            BuilderShape { item: Some(marker), lists, ..f }
        } else if name == "blockquote"@ {
            let f = self.flush();
            BuilderShape { quote_depth: up8(f.quote_depth), ..f }
        } else if name == "pre"@ {
            let f = self.flush();
            BuilderShape { pre: up16(f.pre), ..f }
        } else if is_strong_element(name) {
            BuilderShape { strong: up16(self.strong), ..self }
        } else if is_emphasis_element(name) {
            BuilderShape { emphasis: up16(self.emphasis), ..self }
        } else if is_code_element(name) {
            BuilderShape { code: up16(self.code), ..self }
        } else if is_struck_element(name) {
            BuilderShape { struck: up16(self.struck), ..self }
        } else if name == "a"@ {
            BuilderShape { link: link_target(href), ..self }
        } else if name == "td"@ || name == "th"@ {
            self.separate()
        } else if is_block_element(name) {
            self.flush()
        } else {
            self
        }
    }

    /// The end of preformatted text: its content, without a newline right
    /// after the opening tag and without trailing white space, becomes a
    /// block unless it is blank.
    pub open spec fn end_pre(self) -> BuilderShape {
        if self.pre == 0 {
            self
        } else if self.pre > 1 {
            BuilderShape { pre: (self.pre - 1) as u16, ..self }
        } else {
            let t = self.pre_text;
            let body = skip_ws_back(
                if t.len() > 0 && t[0] == '\n' { t.drop_first() } else { t },
            );
            let s = BuilderShape { pre: 0, pre_text: Seq::empty(), ..self };
            if is_blank_seq(body) {
                s
            } else {
                s.push_block(BlockShape::Preformatted(body))
            }
        }
    }

    /// An end tag.
    pub open spec fn end(self, name: Seq<char>) -> BuilderShape {
        match self.hidden {
            Some(h) => if h == name {
                BuilderShape { hidden: None, ..self }
            } else {
                self
            },
            None => if name == "br"@ {
                self.line_break()
            } else if heading_level(name) is Some {
                BuilderShape { heading: None, ..self.flush() }
            } else if name == "ul"@ || name == "ol"@ {
                let f = self.flush();
                BuilderShape {
                    lists: if f.lists.len() > 0 { f.lists.drop_last() } else { f.lists },
                    item: None,
                    ..f
                }
            } else if name == "li"@ {
                BuilderShape { item: None, ..self.flush() }
            } else if name == "blockquote"@ {
                let f = self.flush();
                BuilderShape { quote_depth: down8(f.quote_depth), ..f }
            } else if name == "pre"@ {
                self.end_pre()
            } else if is_strong_element(name) {
                BuilderShape { strong: down16(self.strong), ..self }
            } else if is_emphasis_element(name) {
                BuilderShape { emphasis: down16(self.emphasis), ..self }
            } else if is_code_element(name) {
                BuilderShape { code: down16(self.code), ..self }
            } else if is_struck_element(name) {
                BuilderShape { struck: down16(self.struck), ..self }
            } else if name == "a"@ {
                BuilderShape { link: None, ..self }
            } else if is_block_element(name) {
                self.flush()
            } else {
                self
            },
        }
    }

    /// A start tag as the tokenizer reports it: a self-closing element that
    /// is not void ends at once.
    pub open spec fn after_start_tag(
        self,
        name: Seq<char>,
        self_closing: bool,
        alt: Option<Seq<char>>,
        href: Option<Seq<char>>,
    ) -> BuilderShape {
        let s = self.start(name, alt, href);
        if self_closing && !is_void_element(name) {
            s.end(name)
        } else {
            s
        }
    }

    /// The end of input: the open paragraph is closed, and unterminated
    /// preformatted text is kept.
    pub open spec fn finished(self) -> BuilderShape {
        let f = self.flush();
        if f.pre > 0 {
            BuilderShape { pre: 1, ..f }.end_pre()
        } else {
            f
        }
    }
}

/// The runs that hold text, in order.
pub open spec fn non_empty_runs(s: Seq<SpanShape>) -> Seq<SpanShape>
    decreases s.len(),
{
    if s.len() == 0 {
        s
    } else {
        let rest = non_empty_runs(s.drop_last());
        if s.last().0.len() > 0 {
            rest.push(s.last())
        } else {
            rest
        }
    }
}

/// The empty builder.
pub open spec fn fresh() -> BuilderShape {
    BuilderShape {
        blocks: Seq::empty(),
        spans: Seq::empty(),
        space: false,
        strong: 0,
        emphasis: 0,
        code: 0,
        struck: 0,
        link: None,
        heading: None,
        lists: Seq::empty(),
        item: None,
        quote_depth: 0,
        pre: 0,
        pre_text: Seq::empty(),
        hidden: None,
    }
}

/// The characters without white space at the end, as `str::trim_end`
/// leaves them.
fn trim_end_chars(v: &Vec<char>) -> (r: Vec<char>)
    ensures
        r@ == skip_ws_back(v@),
{
    let mut j: usize = v.len();
    while j > 0 && is_whitespace(v[j - 1])
        invariant
            j <= v.len(),
            forall|k: int| j <= k < v.len() ==> is_white_space(#[trigger] v@[k]),
        decreases j,
    {
        j -= 1;
    }
    proof {
        crate::text::lemma_skip_back(v@, j as int);
    }
    let mut r: Vec<char> = Vec::new();
    let mut k: usize = 0;
    while k < j
        invariant
            k <= j <= v.len(),
            r@ == v@.take(k as int),
        decreases j - k,
    {
        r.push(v[k]);
        k += 1;
        assert(v@.take(k as int) == v@.take(k - 1).push(v@[k - 1]));
    }
    r
}

fn same_opt(a: &Option<String>, b: &Option<String>) -> (r: bool)
    ensures
        r == (opt_seq(*a) == opt_seq(*b)),
{
    match (a, b) {
        (Some(x), Some(y)) => same_text(x.as_str(), y.as_str()),
        (None, None) => true,
        _ => false,
    }
}

fn one_char(c: char) -> (r: String)
    ensures
        r@ == seq![c],
{
    let mut s = String::new();
    push_char(&mut s, c);
    assert(s@ =~= seq![c]);
    s
}

/// Builds a rich body from the tokens of an HTML body, one token at a
/// time.
pub struct Builder {
    blocks: Vec<RichBlock>,
    spans: Vec<RichSpan>,
    space: bool,
    strong: u16,
    emphasis: u16,
    code: u16,
    struck: u16,
    link: Option<String>,
    heading: Option<u8>,
    lists: Vec<Option<u32>>,
    item: Option<String>,
    quote_depth: u8,
    pre: u16,
    pre_text: String,
    hidden: Option<String>,
}

impl View for Builder {
    type V = BuilderShape;

    closed spec fn view(&self) -> BuilderShape {
        BuilderShape {
            blocks: block_shapes(self.blocks@),
            spans: span_shapes(self.spans@),
            space: self.space,
            strong: self.strong,
            emphasis: self.emphasis,
            code: self.code,
            struck: self.struck,
            link: opt_seq(self.link),
            heading: self.heading,
            lists: self.lists@,
            item: opt_seq(self.item),
            quote_depth: self.quote_depth,
            pre: self.pre,
            pre_text: self.pre_text@,
            hidden: opt_seq(self.hidden),
        }
    }
}

impl Builder {
    pub fn new() -> (r: Self)
        ensures
            r@ == fresh(),
    {
        let r = Builder {
            blocks: Vec::new(),
            spans: Vec::new(),
            space: false,
            strong: 0,
            emphasis: 0,
            code: 0,
            struck: 0,
            link: None,
            heading: None,
            lists: Vec::new(),
            item: None,
            quote_depth: 0,
            pre: 0,
            pre_text: String::new(),
            hidden: None,
        };
        assert(r@.blocks =~= Seq::<(BlockShape, u8)>::empty());
        assert(r@.spans =~= Seq::<SpanShape>::empty());
        r
    }

    fn put(&mut self, c: char)
        ensures
            final(self)@ == old(self)@.put(c),
    {
        let n = self.spans.len();
        let strong = self.strong > 0;
        let emphasis = self.emphasis > 0;
        let code = self.code > 0;
        let struck = self.struck > 0;
        let joins = if n > 0 {
            let last = &self.spans[n - 1];
            last.strong == strong && last.emphasis == emphasis && last.code == code
                && last.struck == struck && same_opt(&last.link, &self.link)
        } else {
            false
        };
        let ghost before = self.spans@;
        if joins {
            let mut last = self.spans.pop().unwrap();
            push_char(&mut last.text, c);
            self.spans.push(last);
            assert(self.spans@ == before.update(n - 1, last));
            assert(span_shapes(self.spans@) =~= span_shapes(before).update(n - 1, span_shape(last)));
        } else {
            let span = RichSpan {
                text: one_char(c),
                strong,
                emphasis,
                code,
                struck,
                link: clone_opt_string(&self.link),
            };
            self.spans.push(span);
            assert(span_shapes(self.spans@) =~= span_shapes(before).push(span_shape(span)));
        }
    }

    fn wants_space(&self) -> (r: bool)
        ensures
            r == self@.wants_space(),
    {
        let n = self.spans.len();
        if n == 0 {
            return false;
        }
        let cs = chars_of(self.spans[n - 1].text.as_str());
        let m = cs.len();
        !(m > 0 && cs[m - 1] == '\n')
    }

    fn separate(&mut self)
        ensures
            final(self)@ == old(self)@.separate(),
    {
        if !self.space && self.wants_space() {
            self.put(' ');
            self.space = true;
        }
    }

    fn line_break(&mut self)
        ensures
            final(self)@ == old(self)@.line_break(),
    {
        if self.pre > 0 {
            push_char(&mut self.pre_text, '\n');
        } else if self.spans.len() > 0 {
            self.put('\n');
            self.space = false;
        }
    }

    /// Takes in a piece of running text.
    pub fn text(&mut self, text: &str)
        ensures
            final(self)@ == old(self)@.after_text(text@),
    {
        if self.hidden.is_some() {
            return;
        }
        let cs = chars_of(text);
        if self.pre > 0 {
            let mut i: usize = 0;
            while i < cs.len()
                invariant
                    i <= cs.len(),
                    cs@ == text@,
                    self@ == (BuilderShape { pre_text: old(self)@.pre_text + cs@.take(i as int), ..old(self)@ }),
                decreases cs.len() - i,
            {
                push_char(&mut self.pre_text, cs[i]);
                i += 1;
                assert(cs@.take(i as int) == cs@.take(i - 1).push(cs@[i - 1]));
            }
            assert(cs@.take(cs.len() as int) == cs@);
            return;
        }
        let mut i: usize = 0;
        while i < cs.len()
            invariant
                i <= cs.len(),
                cs@ == text@,
                self@ == old(self)@.typed(cs@.take(i as int)),
            decreases cs.len() - i,
        {
            let c = cs[i];
            if is_whitespace(c) {
                self.separate();
            } else {
                self.space = false;
                self.put(c);
            }
            i += 1;
            assert(cs@.take(i as int).drop_last() == cs@.take(i - 1));
        }
        assert(cs@.take(cs.len() as int) == cs@);
    }

    fn push_block(&mut self, kind: BlockKind)
        ensures
            final(self)@ == old(self)@.push_block(block_shape(RichBlock { kind, quote_depth: old(self).quote_depth }).0),
    {
        let ghost before = self.blocks@;
        let block = RichBlock { kind, quote_depth: self.quote_depth };
        self.blocks.push(block);
        assert(block_shapes(self.blocks@) =~= block_shapes(before).push(block_shape(block)));
    }

    /// Ends the current paragraph, if it has any text.
    fn flush(&mut self)
        ensures
            final(self)@ == old(self)@.flush(),
    {
        let ghost s0 = self@;
        let n = self.spans.len();
        if n > 0 {
            let ghost before = self.spans@;
            let mut last = self.spans.pop().unwrap();
            let cs = chars_of(last.text.as_str());
            last.text = string_of(&trim_end_chars(&cs));
            self.spans.push(last);
            assert(self.spans@ == before.update(n - 1, last));
            assert(span_shapes(self.spans@) =~= span_shapes(before).update(n - 1, span_shape(last)));
        }
        let ghost cut = span_shapes(self.spans@);
        let mut kept: Vec<RichSpan> = Vec::new();
        let mut i: usize = 0;
        while i < self.spans.len()
            invariant
                i <= self.spans.len(),
                cut == span_shapes(self.spans@),
                span_shapes(kept@) == non_empty_runs(cut.take(i as int)),
            decreases self.spans.len() - i,
        {
            assert(cut.take(i + 1).drop_last() == cut.take(i as int));
            if !self.spans[i].text.as_str().is_empty() {
                let ghost k0 = kept@;
                let span = self.spans[i].clone();
                kept.push(span);
                assert(span_shapes(kept@) =~= span_shapes(k0).push(span_shape(span)));
            }
            i += 1;
        }
        assert(cut.take(self.spans.len() as int) == cut);
        self.space = false;
        if kept.len() == 0 {
            self.spans = kept;
            return;
        }
        self.spans = Vec::new();
        assert(span_shapes(self.spans@) =~= Seq::<SpanShape>::empty());
        match self.heading {
            Some(level) => {
                self.push_block(BlockKind::Heading { level, spans: kept });
            },
            None => {
                let marker = self.item.take();
                match marker {
                    Some(marker) => {
                        let open = self.lists.len();
                        let depth: u8 = if open <= 1 {
                            1
                        } else if open >= 255 {
                            255
                        } else {
                            open as u8
                        };
                        self.item = Some(String::new());
                        self.push_block(BlockKind::ListItem { marker, depth, spans: kept });
                    },
                    None => {
                        self.push_block(BlockKind::Paragraph(kept));
                    },
                }
            },
        }
    }

    /// The marker of the next item of the innermost list.
    fn next_marker(&mut self) -> (r: String)
        ensures
            (r@, final(self)@.lists) == old(self)@.next_marker(),
            final(self)@ == (BuilderShape { lists: final(self)@.lists, ..old(self)@ }),
    {
        let n = self.lists.len();
        if n > 0 {
            if let Some(number) = self.lists[n - 1] {
                let mut marker = decimal_string(number as u64);
                push_char(&mut marker, '.');
                proof {
                    reveal_strlit(".");
                }
                assert(marker@ =~= decimal(number as nat) + "."@);
                let next = if number < u32::MAX { number + 1 } else { number };
                self.lists.set(n - 1, Some(next));
                return marker;
            }
        }
        "•".to_string()
    }

    fn image(&mut self, alt: Option<&str>)
        ensures
            final(self)@ == old(self)@.image(opt_str(alt)),
    {
        if let Some(a) = alt {
            let t = trim(a);
            if !t.as_str().is_empty() {
                self.flush();
                self.push_block(BlockKind::Image { description: t });
            }
        }
    }

    fn end_pre(&mut self)
        ensures
            final(self)@ == old(self)@.end_pre(),
    {
        if self.pre == 0 {
            return;
        }
        if self.pre > 1 {
            self.pre = self.pre - 1;
            return;
        }
        self.pre = 0;
        let cs = chars_of(self.pre_text.as_str());
        self.pre_text = String::new();
        let ghost t = cs@;
        let mut rest: Vec<char> = Vec::new();
        let start: usize = if cs.len() > 0 && cs[0] == '\n' { 1 } else { 0 };
        let mut k: usize = start;
        while k < cs.len()
            invariant
                start <= k <= cs.len(),
                rest@ == cs@.subrange(start as int, k as int),
            decreases cs.len() - k,
        {
            rest.push(cs[k]);
            k += 1;
        }
        assert(rest@ == (if t.len() > 0 && t[0] == '\n' { t.drop_first() } else { t }));
        let body = trim_end_chars(&rest);
        if !crate::text::all_blank(&body) {
            self.push_block(BlockKind::Preformatted(string_of(&body)));
        }
    }

    fn start(&mut self, name: &str, alt: Option<&str>, href: Option<&str>)
        ensures
            final(self)@ == old(self)@.start(name@, opt_str(alt), opt_str(href)),
    {
        if self.hidden.is_some() {
            return;
        }
        if hidden_element(name) {
            self.hidden = Some(name.to_owned());
            return;
        }
        if same_text(name, "br") {
            self.line_break();
        } else if same_text(name, "hr") {
            self.flush();
            self.push_block(BlockKind::Rule);
        } else if same_text(name, "img") {
            self.image(alt);
        } else if let Some(level) = heading_of(name) {
            self.flush();
            self.heading = Some(level);
        } else if same_text(name, "ul") {
            self.flush();
            self.lists.push(None);
        } else if same_text(name, "ol") {
            self.flush();
            self.lists.push(Some(1));
        } else if same_text(name, "li") {
            self.flush();
            let marker = self.next_marker();
            self.item = Some(marker);
        } else if same_text(name, "blockquote") {
            self.flush();
            if self.quote_depth < u8::MAX {
                self.quote_depth = self.quote_depth + 1;
            }
        } else if same_text(name, "pre") {
            self.flush();
            if self.pre < u16::MAX {
                self.pre = self.pre + 1;
            }
        } else if strong_element(name) {
            if self.strong < u16::MAX {
                self.strong = self.strong + 1;
            }
        } else if emphasis_element(name) {
            if self.emphasis < u16::MAX {
                self.emphasis = self.emphasis + 1;
            }
        } else if code_element(name) {
            if self.code < u16::MAX {
                self.code = self.code + 1;
            }
        } else if struck_element(name) {
            if self.struck < u16::MAX {
                self.struck = self.struck + 1;
            }
        } else if same_text(name, "a") {
            self.link = link_target_of(href);
        } else if same_text(name, "td") || same_text(name, "th") {
            self.separate();
        } else if block_element(name) {
            self.flush();
        }
    }

    fn end(&mut self, name: &str)
        ensures
            final(self)@ == old(self)@.end(name@),
    {
        if let Some(h) = &self.hidden {
            if same_text(h.as_str(), name) {
                self.hidden = None;
            }
            return;
        }
        if same_text(name, "br") {
            self.line_break();
        } else if heading_of(name).is_some() {
            self.flush();
            self.heading = None;
        } else if same_text(name, "ul") || same_text(name, "ol") {
            self.flush();
            let _ = self.lists.pop();
            self.item = None;
        } else if same_text(name, "li") {
            self.flush();
            self.item = None;
        } else if same_text(name, "blockquote") {
            self.flush();
            if self.quote_depth > 0 {
                self.quote_depth = self.quote_depth - 1;
            }
        } else if same_text(name, "pre") {
            self.end_pre();
        } else if strong_element(name) {
            if self.strong > 0 {
                self.strong = self.strong - 1;
            }
        } else if emphasis_element(name) {
            if self.emphasis > 0 {
                self.emphasis = self.emphasis - 1;
            }
        } else if code_element(name) {
            if self.code > 0 {
                self.code = self.code - 1;
            }
        } else if struck_element(name) {
            if self.struck > 0 {
                self.struck = self.struck - 1;
            }
        } else if same_text(name, "a") {
            self.link = None;
        } else if block_element(name) {
            self.flush();
        }
    }

    /// Takes in a start tag; says whether the tokenizer is to read markup
    /// or raw text after it.
    pub fn start_tag(&mut self, name: &str, self_closing: bool, alt: Option<&str>, href: Option<&str>) -> (r: RawContent)
        ensures
            final(self)@ == old(self)@.after_start_tag(name@, self_closing, opt_str(alt), opt_str(href)),
            r == (if self_closing && !is_void_element(name@) {
                RawContent::Markup
            } else {
                raw_content_spec(name@)
            }),
    {
        self.start(name, alt, href);
        if self_closing && !void_element(name) {
            self.end(name);
            return RawContent::Markup;
        }
        raw_content(name)
    }

    /// Takes in an end tag.
    pub fn end_tag(&mut self, name: &str)
        ensures
            final(self)@ == old(self)@.end(name@),
    {
        self.end(name);
    }

    /// Takes in the end of input.
    pub fn end_of_input(&mut self)
        ensures
            final(self)@ == old(self)@.flush(),
    {
        self.flush();
    }

    /// The body built so far, with the open paragraph and any unterminated
    /// preformatted text closed.
    pub fn finish(self) -> (r: RichBody)
        ensures
            block_shapes(r.blocks@) == self@.finished().blocks,
    {
        let mut b = self;
        b.flush();
        if b.pre > 0 {
            b.pre = 1;
            b.end_pre();
        }
        RichBody { blocks: b.blocks }
    }
}

pub open spec fn opt_str(o: Option<&str>) -> Option<Seq<char>> {
    match o {
        Some(s) => Some(s@),
        None => None,
    }
}

fn block_element(name: &str) -> (r: bool)
    ensures
        r == is_block_element(name@),
{
    same_text(name, "address")
        || same_text(name, "article")
        || same_text(name, "aside")
        || same_text(name, "center")
        || same_text(name, "dd")
        || same_text(name, "div")
        || same_text(name, "dl")
        || same_text(name, "dt")
        || same_text(name, "figcaption")
        || same_text(name, "figure")
        || same_text(name, "footer")
        || same_text(name, "form")
        || same_text(name, "header")
        || same_text(name, "main")
        || same_text(name, "nav")
        || same_text(name, "p")
        || same_text(name, "section")
        || same_text(name, "table")
        || same_text(name, "tbody")
        || same_text(name, "tfoot")
        || same_text(name, "thead")
        || same_text(name, "tr")
}

fn hidden_element(name: &str) -> (r: bool)
    ensures
        r == is_hidden_element(name@),
{
    same_text(name, "head")
        || same_text(name, "noscript")
        || same_text(name, "script")
        || same_text(name, "style")
        || same_text(name, "template")
        || same_text(name, "textarea")
        || same_text(name, "title")
}

fn void_element(name: &str) -> (r: bool)
    ensures
        r == is_void_element(name@),
{
    same_text(name, "area")
        || same_text(name, "base")
        || same_text(name, "br")
        || same_text(name, "col")
        || same_text(name, "embed")
        || same_text(name, "hr")
        || same_text(name, "img")
        || same_text(name, "input")
        || same_text(name, "link")
        || same_text(name, "meta")
        || same_text(name, "source")
        || same_text(name, "track")
        || same_text(name, "wbr")
}

fn strong_element(name: &str) -> (r: bool)
    ensures
        r == is_strong_element(name@),
{
    same_text(name, "b") || same_text(name, "strong")
}

fn emphasis_element(name: &str) -> (r: bool)
    ensures
        r == is_emphasis_element(name@),
{
    same_text(name, "i") || same_text(name, "em") || same_text(name, "cite")
}

fn code_element(name: &str) -> (r: bool)
    ensures
        r == is_code_element(name@),
{
    same_text(name, "code") || same_text(name, "kbd") || same_text(name, "samp") || same_text(name, "tt")
}

fn struck_element(name: &str) -> (r: bool)
    ensures
        r == is_struck_element(name@),
{
    same_text(name, "s") || same_text(name, "strike") || same_text(name, "del")
}

fn heading_of(name: &str) -> (r: Option<u8>)
    ensures
        r == heading_level(name@),
{
    if same_text(name, "h1") {
        Some(1)
    } else if same_text(name, "h2") {
        Some(2)
    } else if same_text(name, "h3") {
        Some(3)
    } else if same_text(name, "h4") {
        Some(4)
    } else if same_text(name, "h5") {
        Some(5)
    } else if same_text(name, "h6") {
        Some(6)
    } else {
        None
    }
}

/// Keeps the tokenizer from reading markup inside raw-text elements.
pub fn raw_content(name: &str) -> (r: RawContent)
    ensures
        r == raw_content_spec(name@),
{
    if same_text(name, "script") {
        RawContent::Script
    } else if same_text(name, "style") {
        RawContent::Rawtext
    } else if same_text(name, "title") || same_text(name, "textarea") {
        RawContent::Rcdata
    } else {
        RawContent::Markup
    }
}

/// Only absolute web and mail links stay clickable.
fn link_target_of(href: Option<&str>) -> (r: Option<String>)
    ensures
        opt_seq(r) == link_target(opt_str(href)),
{
    let h = match href {
        Some(h) => h,
        None => return None,
    };
    let t = trim(h);
    match parse_url(t.as_str()) {
        Some(u) => {
            let s = u.scheme.as_str();
            if same_text(s, "http") || same_text(s, "https") || same_text(s, "mailto") {
                Some(u.serialized)
            } else {
                None
            }
        },
        None => None,
    }
}

/// Runs of text that each hold at least one character, and at least one
/// of them.
pub open spec fn runs_hold_text(spans: Seq<SpanShape>) -> bool {
    spans.len() > 0 && forall|j: int| 0 <= j < spans.len() ==> (#[trigger] spans[j]).0.len() > 0
}

/// What a block shows: text, preformatted text that is not blank, an
/// image description, or a rule.
pub open spec fn shows_something(b: BlockShape) -> bool {
    match b {
        BlockShape::Paragraph(sp) => runs_hold_text(sp),
        BlockShape::Heading(_, sp) => runs_hold_text(sp),
        BlockShape::ListItem(_, _, sp) => runs_hold_text(sp),
        BlockShape::Preformatted(t) => !is_blank_seq(t),
        BlockShape::Image(d) => d.len() > 0,
        BlockShape::Rule => true,
    }
}

/// A link is what `link_target` makes of some address: an absolute web or
/// mail link.
pub open spec fn web_or_mail(l: Option<Seq<char>>) -> bool {
    match l {
        None => true,
        Some(u) => exists|t: Seq<char>| #[trigger] link_target(Some(t)) == Some(u),
    }
}

pub open spec fn runs_linked(spans: Seq<SpanShape>) -> bool {
    forall|j: int| 0 <= j < spans.len() ==> web_or_mail((#[trigger] spans[j]).5)
}

pub open spec fn block_linked(b: BlockShape) -> bool {
    match b {
        BlockShape::Paragraph(sp) => runs_linked(sp),
        BlockShape::Heading(_, sp) => runs_linked(sp),
        BlockShape::ListItem(_, _, sp) => runs_linked(sp),
        _ => true,
    }
}

impl BuilderShape {
    /// Every block built shows something, and every link held anywhere is
    /// a web or mail link.
    pub open spec fn sound(self) -> bool {
        &&& forall|i: int| 0 <= i < self.blocks.len() ==> shows_something(#[trigger] self.blocks[i].0)
        &&& forall|i: int| 0 <= i < self.blocks.len() ==> block_linked(#[trigger] self.blocks[i].0)
        &&& runs_linked(self.spans)
        &&& web_or_mail(self.link)
    }
}

proof fn lemma_non_empty_runs(s: Seq<SpanShape>)
    ensures
        forall|j: int| 0 <= j < non_empty_runs(s).len() ==> (#[trigger] non_empty_runs(s)[j]).0.len() > 0,
        runs_linked(s) ==> runs_linked(non_empty_runs(s)),
    decreases s.len(),
{
    if s.len() > 0 {
        lemma_non_empty_runs(s.drop_last());
        let rest = non_empty_runs(s.drop_last());
        if runs_linked(s) {
            assert forall|j: int| 0 <= j < s.drop_last().len() implies web_or_mail(
                (#[trigger] s.drop_last()[j]).5,
            ) by {
                assert(s.drop_last()[j] == s[j]);
            }
            assert(web_or_mail(s[s.len() - 1].5));
        }
        if s.last().0.len() > 0 {
            assert forall|j: int| 0 <= j < rest.push(s.last()).len() implies (#[trigger] rest.push(
                s.last(),
            )[j]).0.len() > 0 by {
                if j < rest.len() {
                    assert(rest.push(s.last())[j] == rest[j]);
                }
            }
        }
    }
}

proof fn lemma_put(s: BuilderShape, c: char)
    requires
        s.sound(),
    ensures
        s.put(c).sound(),
        s.put(c).blocks == s.blocks,
        s.put(c).spans.len() > 0,
{
    let t = s.put(c);
    let n = s.spans.len();
    assert forall|j: int| 0 <= j < t.spans.len() implies web_or_mail((#[trigger] t.spans[j]).5) by {
        if j < n {
            assert(web_or_mail(s.spans[j].5));
        }
    }
}

proof fn lemma_separate(s: BuilderShape)
    requires
        s.sound(),
    ensures
        s.separate().sound(),
        s.separate().blocks == s.blocks,
{
    lemma_put(s, ' ');
}

proof fn lemma_line_break(s: BuilderShape)
    requires
        s.sound(),
    ensures
        s.line_break().sound(),
        s.line_break().blocks == s.blocks,
{
    lemma_put(s, '\n');
}

proof fn lemma_typed(s: BuilderShape, t: Seq<char>)
    requires
        s.sound(),
    ensures
        s.typed(t).sound(),
    decreases t.len(),
{
    if t.len() > 0 {
        lemma_typed(s, t.drop_last());
        let u = s.typed(t.drop_last());
        lemma_separate(u);
        lemma_put(BuilderShape { space: false, ..u }, t.last());
    }
}

proof fn lemma_push_block(s: BuilderShape, kind: BlockShape)
    requires
        s.sound(),
        shows_something(kind),
        block_linked(kind),
    ensures
        s.push_block(kind).sound(),
{
    let t = s.push_block(kind);
    assert forall|i: int| 0 <= i < t.blocks.len() implies shows_something(#[trigger] t.blocks[i].0) by {
        if i < s.blocks.len() {
            assert(t.blocks[i] == s.blocks[i]);
        }
    }
    assert forall|i: int| 0 <= i < t.blocks.len() implies block_linked(#[trigger] t.blocks[i].0) by {
        if i < s.blocks.len() {
            assert(t.blocks[i] == s.blocks[i]);
        }
    }
}

proof fn lemma_flush(s: BuilderShape)
    requires
        s.sound(),
    ensures
        s.flush().sound(),
{
    let n = s.spans.len();
    let cut = if n > 0 {
        let last = s.spans[n - 1];
        s.spans.update(n - 1, (skip_ws_back(last.0), last.1, last.2, last.3, last.4, last.5))
    } else {
        s.spans
    };
    assert(runs_linked(cut)) by {
        assert forall|j: int| 0 <= j < cut.len() implies web_or_mail((#[trigger] cut[j]).5) by {
            assert(web_or_mail(s.spans[j].5));
        }
    }
    lemma_non_empty_runs(cut);
    let kept = non_empty_runs(cut);
    let e = BuilderShape { spans: Seq::empty(), space: false, ..s };
    if kept.len() > 0 {
        match s.heading {
            Some(level) => lemma_push_block(e, BlockShape::Heading(level, kept)),
            None => match s.item {
                Some(marker) => lemma_push_block(
                    BuilderShape { item: Some(Seq::empty()), ..e },
                    BlockShape::ListItem(marker, item_depth(s.lists.len()), kept),
                ),
                None => lemma_push_block(e, BlockShape::Paragraph(kept)),
            },
        }
    }
}

proof fn lemma_end_pre(s: BuilderShape)
    requires
        s.sound(),
    ensures
        s.end_pre().sound(),
{
    if s.pre == 1 {
        let t = s.pre_text;
        let body = skip_ws_back(if t.len() > 0 && t[0] == '\n' { t.drop_first() } else { t });
        let e = BuilderShape { pre: 0, pre_text: Seq::empty(), ..s };
        if !is_blank_seq(body) {
            lemma_push_block(e, BlockShape::Preformatted(body));
        }
    }
}

proof fn lemma_start(s: BuilderShape, name: Seq<char>, alt: Option<Seq<char>>, href: Option<Seq<char>>)
    requires
        s.sound(),
    ensures
        s.start(name, alt, href).sound(),
{
    lemma_flush(s);
    lemma_line_break(s);
    lemma_separate(s);
    lemma_push_block(s.flush(), BlockShape::Rule);
    if let Some(a) = alt {
        if trimmed(a).len() > 0 {
            lemma_push_block(s.flush(), BlockShape::Image(trimmed(a)));
        }
    }
    if let Some(h) = href {
        if link_target(Some(h)) is Some {
            assert(web_or_mail(link_target(Some(h))));
        }
    }
}

proof fn lemma_end(s: BuilderShape, name: Seq<char>)
    requires
        s.sound(),
    ensures
        s.end(name).sound(),
{
    lemma_flush(s);
    lemma_line_break(s);
    lemma_end_pre(s);
}

/// Whatever the tokens, every block of a body shows something (runs that
/// hold text, preformatted text that is not blank, an image description, or
/// a rule), and every link in it is an absolute web or mail link: each
/// token keeps both, from the empty builder to the finished body.
pub proof fn law_blocks_show_something_and_links_stay_web_or_mail(
    s: BuilderShape,
    name: Seq<char>,
    self_closing: bool,
    alt: Option<Seq<char>>,
    href: Option<Seq<char>>,
    text: Seq<char>,
)
    requires
        s.sound(),
    ensures
        fresh().sound(),
        s.after_start_tag(name, self_closing, alt, href).sound(),
        s.end(name).sound(),
        s.after_text(text).sound(),
        s.flush().sound(),
        s.finished().sound(),
{
    lemma_start(s, name, alt, href);
    lemma_end(s.start(name, alt, href), name);
    lemma_end(s, name);
    lemma_typed(s, text);
    lemma_flush(s);
    lemma_end_pre(BuilderShape { pre: 1, ..s.flush() });
}

/// Inside an element whose content is never shown, text and further tags
/// change nothing; only the element's own end tag lets content through
/// again.
pub proof fn law_hidden_content_is_dropped(
    s: BuilderShape,
    name: Seq<char>,
    alt: Option<Seq<char>>,
    href: Option<Seq<char>>,
    text: Seq<char>,
)
    requires
        s.hidden is Some,
    ensures
        s.after_text(text) == s,
        s.start(name, alt, href) == s,
        name != s.hidden->0 ==> s.end(name) == s,
        name == s.hidden->0 ==> s.end(name) == (BuilderShape { hidden: None, ..s }),
{
}

/// The elements that break paragraphs, written out once more by name.
pub open spec fn breaks_paragraphs(name: Seq<char>) -> bool {
    name == "address"@ || name == "article"@ || name == "aside"@ || name == "center"@
        || name == "dd"@ || name == "div"@ || name == "dl"@ || name == "dt"@
        || name == "figcaption"@ || name == "figure"@ || name == "footer"@ || name == "form"@
        || name == "header"@ || name == "main"@ || name == "nav"@ || name == "p"@
        || name == "section"@ || name == "table"@ || name == "tbody"@ || name == "tfoot"@
        || name == "thead"@ || name == "tr"@
}


/// The names of the elements that the builder tells apart, letter by
/// letter.
proof fn lemma_tag_names_spelled()
    ensures
        "address"@.len() == 7 && "address"@[0] == 'a' && "address"@[1] == 'd' && "address"@[2] == 'd' && "address"@[3] == 'r' && "address"@[4] == 'e' && "address"@[5] == 's' && "address"@[6] == 's',
        "article"@.len() == 7 && "article"@[0] == 'a' && "article"@[1] == 'r' && "article"@[2] == 't' && "article"@[3] == 'i' && "article"@[4] == 'c' && "article"@[5] == 'l' && "article"@[6] == 'e',
        "aside"@.len() == 5 && "aside"@[0] == 'a' && "aside"@[1] == 's' && "aside"@[2] == 'i' && "aside"@[3] == 'd' && "aside"@[4] == 'e',
        "center"@.len() == 6 && "center"@[0] == 'c' && "center"@[1] == 'e' && "center"@[2] == 'n' && "center"@[3] == 't' && "center"@[4] == 'e' && "center"@[5] == 'r',
        "dd"@.len() == 2 && "dd"@[0] == 'd' && "dd"@[1] == 'd',
        "div"@.len() == 3 && "div"@[0] == 'd' && "div"@[1] == 'i' && "div"@[2] == 'v',
        "dl"@.len() == 2 && "dl"@[0] == 'd' && "dl"@[1] == 'l',
        "dt"@.len() == 2 && "dt"@[0] == 'd' && "dt"@[1] == 't',
        "figcaption"@.len() == 10 && "figcaption"@[0] == 'f' && "figcaption"@[1] == 'i' && "figcaption"@[2] == 'g' && "figcaption"@[3] == 'c' && "figcaption"@[4] == 'a' && "figcaption"@[5] == 'p' && "figcaption"@[6] == 't' && "figcaption"@[7] == 'i' && "figcaption"@[8] == 'o' && "figcaption"@[9] == 'n',
        "figure"@.len() == 6 && "figure"@[0] == 'f' && "figure"@[1] == 'i' && "figure"@[2] == 'g' && "figure"@[3] == 'u' && "figure"@[4] == 'r' && "figure"@[5] == 'e',
        "footer"@.len() == 6 && "footer"@[0] == 'f' && "footer"@[1] == 'o' && "footer"@[2] == 'o' && "footer"@[3] == 't' && "footer"@[4] == 'e' && "footer"@[5] == 'r',
        "form"@.len() == 4 && "form"@[0] == 'f' && "form"@[1] == 'o' && "form"@[2] == 'r' && "form"@[3] == 'm',
        "header"@.len() == 6 && "header"@[0] == 'h' && "header"@[1] == 'e' && "header"@[2] == 'a' && "header"@[3] == 'd' && "header"@[4] == 'e' && "header"@[5] == 'r',
        "main"@.len() == 4 && "main"@[0] == 'm' && "main"@[1] == 'a' && "main"@[2] == 'i' && "main"@[3] == 'n',
        "nav"@.len() == 3 && "nav"@[0] == 'n' && "nav"@[1] == 'a' && "nav"@[2] == 'v',
        "p"@.len() == 1 && "p"@[0] == 'p',
        "section"@.len() == 7 && "section"@[0] == 's' && "section"@[1] == 'e' && "section"@[2] == 'c' && "section"@[3] == 't' && "section"@[4] == 'i' && "section"@[5] == 'o' && "section"@[6] == 'n',
        "table"@.len() == 5 && "table"@[0] == 't' && "table"@[1] == 'a' && "table"@[2] == 'b' && "table"@[3] == 'l' && "table"@[4] == 'e',
        "tbody"@.len() == 5 && "tbody"@[0] == 't' && "tbody"@[1] == 'b' && "tbody"@[2] == 'o' && "tbody"@[3] == 'd' && "tbody"@[4] == 'y',
        "tfoot"@.len() == 5 && "tfoot"@[0] == 't' && "tfoot"@[1] == 'f' && "tfoot"@[2] == 'o' && "tfoot"@[3] == 'o' && "tfoot"@[4] == 't',
        "thead"@.len() == 5 && "thead"@[0] == 't' && "thead"@[1] == 'h' && "thead"@[2] == 'e' && "thead"@[3] == 'a' && "thead"@[4] == 'd',
        "tr"@.len() == 2 && "tr"@[0] == 't' && "tr"@[1] == 'r',
        "head"@.len() == 4 && "head"@[0] == 'h' && "head"@[1] == 'e' && "head"@[2] == 'a' && "head"@[3] == 'd',
        "noscript"@.len() == 8 && "noscript"@[0] == 'n' && "noscript"@[1] == 'o' && "noscript"@[2] == 's' && "noscript"@[3] == 'c' && "noscript"@[4] == 'r' && "noscript"@[5] == 'i' && "noscript"@[6] == 'p' && "noscript"@[7] == 't',
        "script"@.len() == 6 && "script"@[0] == 's' && "script"@[1] == 'c' && "script"@[2] == 'r' && "script"@[3] == 'i' && "script"@[4] == 'p' && "script"@[5] == 't',
        "style"@.len() == 5 && "style"@[0] == 's' && "style"@[1] == 't' && "style"@[2] == 'y' && "style"@[3] == 'l' && "style"@[4] == 'e',
        "template"@.len() == 8 && "template"@[0] == 't' && "template"@[1] == 'e' && "template"@[2] == 'm' && "template"@[3] == 'p' && "template"@[4] == 'l' && "template"@[5] == 'a' && "template"@[6] == 't' && "template"@[7] == 'e',
        "textarea"@.len() == 8 && "textarea"@[0] == 't' && "textarea"@[1] == 'e' && "textarea"@[2] == 'x' && "textarea"@[3] == 't' && "textarea"@[4] == 'a' && "textarea"@[5] == 'r' && "textarea"@[6] == 'e' && "textarea"@[7] == 'a',
        "title"@.len() == 5 && "title"@[0] == 't' && "title"@[1] == 'i' && "title"@[2] == 't' && "title"@[3] == 'l' && "title"@[4] == 'e',
        "br"@.len() == 2 && "br"@[0] == 'b' && "br"@[1] == 'r',
        "hr"@.len() == 2 && "hr"@[0] == 'h' && "hr"@[1] == 'r',
        "img"@.len() == 3 && "img"@[0] == 'i' && "img"@[1] == 'm' && "img"@[2] == 'g',
        "h1"@.len() == 2 && "h1"@[0] == 'h' && "h1"@[1] == '1',
        "h2"@.len() == 2 && "h2"@[0] == 'h' && "h2"@[1] == '2',
        "h3"@.len() == 2 && "h3"@[0] == 'h' && "h3"@[1] == '3',
        "h4"@.len() == 2 && "h4"@[0] == 'h' && "h4"@[1] == '4',
        "h5"@.len() == 2 && "h5"@[0] == 'h' && "h5"@[1] == '5',
        "h6"@.len() == 2 && "h6"@[0] == 'h' && "h6"@[1] == '6',
        "ul"@.len() == 2 && "ul"@[0] == 'u' && "ul"@[1] == 'l',
        "ol"@.len() == 2 && "ol"@[0] == 'o' && "ol"@[1] == 'l',
        "li"@.len() == 2 && "li"@[0] == 'l' && "li"@[1] == 'i',
        "blockquote"@.len() == 10 && "blockquote"@[0] == 'b' && "blockquote"@[1] == 'l' && "blockquote"@[2] == 'o' && "blockquote"@[3] == 'c' && "blockquote"@[4] == 'k' && "blockquote"@[5] == 'q' && "blockquote"@[6] == 'u' && "blockquote"@[7] == 'o' && "blockquote"@[8] == 't' && "blockquote"@[9] == 'e',
        "pre"@.len() == 3 && "pre"@[0] == 'p' && "pre"@[1] == 'r' && "pre"@[2] == 'e',
        "b"@.len() == 1 && "b"@[0] == 'b',
        "strong"@.len() == 6 && "strong"@[0] == 's' && "strong"@[1] == 't' && "strong"@[2] == 'r' && "strong"@[3] == 'o' && "strong"@[4] == 'n' && "strong"@[5] == 'g',
        "i"@.len() == 1 && "i"@[0] == 'i',
        "em"@.len() == 2 && "em"@[0] == 'e' && "em"@[1] == 'm',
        "cite"@.len() == 4 && "cite"@[0] == 'c' && "cite"@[1] == 'i' && "cite"@[2] == 't' && "cite"@[3] == 'e',
        "code"@.len() == 4 && "code"@[0] == 'c' && "code"@[1] == 'o' && "code"@[2] == 'd' && "code"@[3] == 'e',
        "kbd"@.len() == 3 && "kbd"@[0] == 'k' && "kbd"@[1] == 'b' && "kbd"@[2] == 'd',
        "samp"@.len() == 4 && "samp"@[0] == 's' && "samp"@[1] == 'a' && "samp"@[2] == 'm' && "samp"@[3] == 'p',
        "tt"@.len() == 2 && "tt"@[0] == 't' && "tt"@[1] == 't',
        "s"@.len() == 1 && "s"@[0] == 's',
        "strike"@.len() == 6 && "strike"@[0] == 's' && "strike"@[1] == 't' && "strike"@[2] == 'r' && "strike"@[3] == 'i' && "strike"@[4] == 'k' && "strike"@[5] == 'e',
        "del"@.len() == 3 && "del"@[0] == 'd' && "del"@[1] == 'e' && "del"@[2] == 'l',
        "a"@.len() == 1 && "a"@[0] == 'a',
        "td"@.len() == 2 && "td"@[0] == 't' && "td"@[1] == 'd',
        "th"@.len() == 2 && "th"@[0] == 't' && "th"@[1] == 'h',
{
    reveal_strlit("address");
    reveal_strlit("article");
    reveal_strlit("aside");
    reveal_strlit("center");
    reveal_strlit("dd");
    reveal_strlit("div");
    reveal_strlit("dl");
    reveal_strlit("dt");
    reveal_strlit("figcaption");
    reveal_strlit("figure");
    reveal_strlit("footer");
    reveal_strlit("form");
    reveal_strlit("header");
    reveal_strlit("main");
    reveal_strlit("nav");
    reveal_strlit("p");
    reveal_strlit("section");
    reveal_strlit("table");
    reveal_strlit("tbody");
    reveal_strlit("tfoot");
    reveal_strlit("thead");
    reveal_strlit("tr");
    reveal_strlit("head");
    reveal_strlit("noscript");
    reveal_strlit("script");
    reveal_strlit("style");
    reveal_strlit("template");
    reveal_strlit("textarea");
    reveal_strlit("title");
    reveal_strlit("br");
    reveal_strlit("hr");
    reveal_strlit("img");
    reveal_strlit("h1");
    reveal_strlit("h2");
    reveal_strlit("h3");
    reveal_strlit("h4");
    reveal_strlit("h5");
    reveal_strlit("h6");
    reveal_strlit("ul");
    reveal_strlit("ol");
    reveal_strlit("li");
    reveal_strlit("blockquote");
    reveal_strlit("pre");
    reveal_strlit("b");
    reveal_strlit("strong");
    reveal_strlit("i");
    reveal_strlit("em");
    reveal_strlit("cite");
    reveal_strlit("code");
    reveal_strlit("kbd");
    reveal_strlit("samp");
    reveal_strlit("tt");
    reveal_strlit("s");
    reveal_strlit("strike");
    reveal_strlit("del");
    reveal_strlit("a");
    reveal_strlit("td");
    reveal_strlit("th");
}

/// The start tag and the end tag of each of address, article, aside,
/// center, dd, div, dl, dt, figcaption, figure, footer, form, header, main,
/// nav, p, section, table, tbody, tfoot, thead and tr end the paragraph
/// being written and do nothing else, wherever content is shown.
pub proof fn law_block_tags_end_the_paragraph(
    s: BuilderShape,
    name: Seq<char>,
    alt: Option<Seq<char>>,
    href: Option<Seq<char>>,
)
    requires
        breaks_paragraphs(name),
        s.hidden is None,
    ensures
        s.start(name, alt, href) == s.flush(),
        s.end(name) == s.flush(),
{
    lemma_tag_names_spelled();
}

/// Where content is shown, the start tag of head, noscript, script,
/// style, template, textarea or title hides everything up to its own end
/// tag; h1 to h6 end the paragraph and start a heading of that level; b and
/// strong make text bold, i, em and cite italic, code, kbd, samp and tt
/// code, and s, strike and del struck through, each until its end tag.
pub proof fn law_element_names(
    s: BuilderShape,
    name: Seq<char>,
    alt: Option<Seq<char>>,
    href: Option<Seq<char>>,
)
    requires
        s.hidden is None,
    ensures
        name == "head"@ || name == "noscript"@ || name == "script"@ || name == "style"@ || name
            == "template"@ || name == "textarea"@ || name == "title"@ ==> s.start(name, alt, href) == (
        BuilderShape { hidden: Some(name), ..s }),
        name == "h1"@ ==> s.start(name, alt, href) == (BuilderShape { heading: Some(1u8), ..s.flush() }),
        name == "h2"@ ==> s.start(name, alt, href) == (BuilderShape { heading: Some(2u8), ..s.flush() }),
        name == "h3"@ ==> s.start(name, alt, href) == (BuilderShape { heading: Some(3u8), ..s.flush() }),
        name == "h4"@ ==> s.start(name, alt, href) == (BuilderShape { heading: Some(4u8), ..s.flush() }),
        name == "h5"@ ==> s.start(name, alt, href) == (BuilderShape { heading: Some(5u8), ..s.flush() }),
        name == "h6"@ ==> s.start(name, alt, href) == (BuilderShape { heading: Some(6u8), ..s.flush() }),
        name == "h1"@ || name == "h2"@ || name == "h3"@ || name == "h4"@ || name == "h5"@ || name
            == "h6"@ ==> s.end(name) == (BuilderShape { heading: None, ..s.flush() }),
        name == "b"@ || name == "strong"@ ==> s.start(name, alt, href) == (BuilderShape {
            strong: up16(s.strong),
            ..s
        }) && s.end(name) == (BuilderShape { strong: down16(s.strong), ..s }),
        name == "i"@ || name == "em"@ || name == "cite"@ ==> s.start(name, alt, href) == (BuilderShape {
            emphasis: up16(s.emphasis),
            ..s
        }) && s.end(name) == (BuilderShape { emphasis: down16(s.emphasis), ..s }),
        name == "code"@ || name == "kbd"@ || name == "samp"@ || name == "tt"@ ==> s.start(name, alt, href)
            == (BuilderShape { code: up16(s.code), ..s }) && s.end(name) == (BuilderShape {
            code: down16(s.code),
            ..s
        }),
        name == "s"@ || name == "strike"@ || name == "del"@ ==> s.start(name, alt, href) == (BuilderShape {
            struck: up16(s.struck),
            ..s
        }) && s.end(name) == (BuilderShape { struck: down16(s.struck), ..s }),
{
    lemma_tag_names_spelled();
}

/// A style-free builder outside any hidden element, list item, heading or
/// preformatted text, with nothing written since the last paragraph.
pub open spec fn plain_and_empty(s: BuilderShape) -> bool {
    &&& s.spans.len() == 0
    &&& !s.space
    &&& s.strong == 0
    &&& s.emphasis == 0
    &&& s.code == 0
    &&& s.struck == 0
    &&& s.link is None
    &&& s.heading is None
    &&& s.item is None
    &&& s.pre == 0
    &&& s.hidden is None
}

/// Text without white space, from a plain and empty builder, is one plain
/// run.
proof fn lemma_typed_word(s: BuilderShape, t: Seq<char>)
    requires
        plain_and_empty(s),
        t.len() > 0,
        forall|i: int| 0 <= i < t.len() ==> !is_white_space(#[trigger] t[i]),
    ensures
        s.typed(t) == (BuilderShape { spans: seq![(t, false, false, false, false, None)], ..s }),
    decreases t.len(),
{
    let c = t.last();
    assert(!is_white_space(c));
    let run = (t, false, false, false, false, None::<Seq<char>>);
    if t.len() == 1 {
        assert(t.drop_last() =~= Seq::<char>::empty());
        assert(s.typed(t.drop_last()) == s);
        assert(seq![c] =~= t);
        assert(s.spans.push(run) =~= seq![run]);
    } else {
        let u = t.drop_last();
        lemma_typed_word(s, u);
        let w = s.typed(u);
        assert(w.spans.len() == 1);
        assert(w.style_matches(w.spans[0]));
        assert(u.push(c) =~= t);
        assert(w.spans.update(0, run) =~= seq![run]);
    }
}

/// A paragraph of one word, from a plain and empty builder, ends as one
/// paragraph block.
proof fn lemma_word_paragraph(s: BuilderShape, t: Seq<char>)
    requires
        plain_and_empty(s),
        t.len() > 0,
        forall|i: int| 0 <= i < t.len() ==> !is_white_space(#[trigger] t[i]),
    ensures
        s.typed(t).flush() == (BuilderShape {
            blocks: s.blocks.push(
                (BlockShape::Paragraph(seq![(t, false, false, false, false, None)]), s.quote_depth),
            ),
            ..s
        }),
{
    lemma_typed_word(s, t);
    let w = s.typed(t);
    let run = (t, false, false, false, false, None::<Seq<char>>);
    assert(skip_ws_back(t) == t);
    assert(w.spans.update(0, run) =~= seq![run]);
    let one = seq![run];
    assert(one.drop_last() =~= Seq::<SpanShape>::empty());
    assert(non_empty_runs(Seq::<SpanShape>::empty()) =~= Seq::<SpanShape>::empty());
    assert(Seq::<SpanShape>::empty().push(run) =~= one);
    assert(non_empty_runs(one) =~= one);
    assert(w.spans.update(0, (skip_ws_back(t), false, false, false, false, None::<Seq<char>>)) == one);
    assert(s.spans =~= Seq::<SpanShape>::empty());
    assert(w.flush().spans =~= Seq::<SpanShape>::empty());
    assert(w.flush().blocks == s.blocks.push((BlockShape::Paragraph(one), s.quote_depth)));
}

/// Two pieces of text without white space, each in a div of its own, are
/// read as two paragraph blocks, the first and then the second, each of
/// one plain run.
pub proof fn law_divs_make_separate_paragraphs(a: Seq<char>, b: Seq<char>)
    requires
        a.len() > 0,
        b.len() > 0,
        forall|i: int| 0 <= i < a.len() ==> !is_white_space(#[trigger] a[i]),
        forall|i: int| 0 <= i < b.len() ==> !is_white_space(#[trigger] b[i]),
    ensures
        built(
            seq![
                TokenShape::Start("div"@, false, Seq::empty()),
                TokenShape::Text(a),
                TokenShape::End("div"@),
                TokenShape::Start("div"@, false, Seq::empty()),
                TokenShape::Text(b),
                TokenShape::End("div"@),
                TokenShape::EndOfInput,
            ],
        ).finished().blocks == seq![
            (BlockShape::Paragraph(seq![(a, false, false, false, false, None::<Seq<char>>)]), 0u8),
            (BlockShape::Paragraph(seq![(b, false, false, false, false, None::<Seq<char>>)]), 0u8),
        ],
{
    lemma_tag_names_spelled();
    let toks = seq![
        TokenShape::Start("div"@, false, Seq::empty()),
        TokenShape::Text(a),
        TokenShape::End("div"@),
        TokenShape::Start("div"@, false, Seq::empty()),
        TokenShape::Text(b),
        TokenShape::End("div"@),
        TokenShape::EndOfInput,
    ];
    let s0 = fresh();
    assert(plain_and_empty(s0));
    let s1 = built(toks.take(1));
    assert(toks.take(1).drop_last() =~= Seq::<TokenShape>::empty());
    assert(s0.flush() == s0);
    assert(built(Seq::<TokenShape>::empty()) == s0);
    assert(toks.take(1).last() == toks[0]);
    assert(attribute_value(Seq::empty(), "alt"@) is None);
    assert(attribute_value(Seq::empty(), "href"@) is None);
    assert(s0.start("div"@, None, None) == s0);
    assert(s1 == s0);
    let s2 = built(toks.take(2));
    assert(toks.take(2).drop_last() =~= toks.take(1));
    assert(s2 == s0.typed(a));
    let s3 = built(toks.take(3));
    assert(toks.take(3).drop_last() =~= toks.take(2));
    lemma_word_paragraph(s0, a);
    assert(s3 == s0.typed(a).flush());
    assert(plain_and_empty(s3));
    let s4 = built(toks.take(4));
    assert(toks.take(4).drop_last() =~= toks.take(3));
    assert(s3.flush() == s3);
    assert(s4 == s3);
    let s5 = built(toks.take(5));
    assert(toks.take(5).drop_last() =~= toks.take(4));
    assert(s5 == s3.typed(b));
    let s6 = built(toks.take(6));
    assert(toks.take(6).drop_last() =~= toks.take(5));
    lemma_word_paragraph(s3, b);
    assert(s6 == s3.typed(b).flush());
    assert(plain_and_empty(s6));
    assert(s6.flush() == s6);
    assert(toks.take(7) =~= toks);
    assert(toks.drop_last() =~= toks.take(6));
    assert(built(toks) == s6);
    assert(s6.finished() == s6);
    assert(s6.blocks =~= seq![
        (BlockShape::Paragraph(seq![(a, false, false, false, false, None::<Seq<char>>)]), 0u8),
        (BlockShape::Paragraph(seq![(b, false, false, false, false, None::<Seq<char>>)]), 0u8),
    ]);
}

/// What the tokenizer reads after a start tag: markup again after a
/// self-closing element that is not void, and otherwise what the element's
/// content calls for.
pub open spec fn reading_after_spec(name: Seq<char>, self_closing: bool) -> RawContent {
    if self_closing && !is_void_element(name) {
        RawContent::Markup
    } else {
        raw_content_spec(name)
    }
}

/// A token of an HTML text, as plain values: a start tag with its
/// attributes by local name, an end tag, text, or the end of input.
#[derive(Debug, Clone, PartialEq, Eq)]
pub enum HtmlToken {
    Start { name: String, self_closing: bool, attributes: Vec<(String, String)> },
    End { name: String },
    Text(String),
    EndOfInput,
}

/// A token as plain values.
pub enum TokenShape {
    Start(Seq<char>, bool, Seq<(Seq<char>, Seq<char>)>),
    End(Seq<char>),
    Text(Seq<char>),
    EndOfInput,
}

pub open spec fn attribute_shapes(a: Seq<(String, String)>) -> Seq<(Seq<char>, Seq<char>)> {
    a.map_values(|p: (String, String)| (p.0@, p.1@))
}

pub open spec fn token_shape(t: HtmlToken) -> TokenShape {
    match t {
        HtmlToken::Start { name, self_closing, attributes } => TokenShape::Start(
            name@,
            self_closing,
            attribute_shapes(attributes@),
        ),
        HtmlToken::End { name } => TokenShape::End(name@),
        HtmlToken::Text(text) => TokenShape::Text(text@),
        HtmlToken::EndOfInput => TokenShape::EndOfInput,
    }
}

pub open spec fn token_shapes(ts: Seq<HtmlToken>) -> Seq<TokenShape> {
    ts.map_values(|t: HtmlToken| token_shape(t))
}

/// The value of the first attribute with this name.
pub open spec fn attribute_value(attributes: Seq<(Seq<char>, Seq<char>)>, name: Seq<char>) -> Option<Seq<char>>
    decreases attributes.len(),
{
    if attributes.len() == 0 {
        None
    } else if attributes[0].0 == name {
        Some(attributes[0].1)
    } else {
        attribute_value(attributes.drop_first(), name)
    }
}

/// What one token does to the builder.
pub open spec fn after_token(s: BuilderShape, t: TokenShape) -> BuilderShape {
    match t {
        TokenShape::Start(name, self_closing, attributes) => s.after_start_tag(
            name,
            self_closing,
            attribute_value(attributes, "alt"@),
            attribute_value(attributes, "href"@),
        ),
        TokenShape::End(name) => s.end(name),
        TokenShape::Text(text) => s.after_text(text),
        TokenShape::EndOfInput => s.flush(),
    }
}

/// The builder after the tokens, from the empty one.
pub open spec fn built(tokens: Seq<TokenShape>) -> BuilderShape
    decreases tokens.len(),
{
    if tokens.len() == 0 {
        fresh()
    } else {
        after_token(built(tokens.drop_last()), tokens.last())
    }
}

/// What html5ever's tokenizer yields for an HTML text, when each start
/// tag is answered with `reading_after`: a function of the text alone.
pub uninterp spec fn html_tokens(html: Seq<char>) -> Seq<TokenShape>;

/// What the tokenizer reads after a start tag.
pub fn reading_after(name: &str, self_closing: bool) -> (r: RawContent)
    ensures
        r == reading_after_spec(name@, self_closing),
{
    if self_closing && !void_element(name) {
        RawContent::Markup
    } else {
        raw_content(name)
    }
}

/// What the tokenizer reads after a token: what a start tag calls for,
/// and markup after anything else.
pub fn reading_after_token(token: &Option<HtmlToken>) -> (r: RawContent)
    ensures
        r == (match *token {
            Some(HtmlToken::Start { name, self_closing, .. }) => reading_after_spec(name@, self_closing),
            _ => RawContent::Markup,
        }),
{
    match token {
        Some(HtmlToken::Start { name, self_closing, .. }) => reading_after(name.as_str(), *self_closing),
        _ => RawContent::Markup,
    }
}

/// The value of the first attribute with this name.
fn first_attribute<'a>(attributes: &'a Vec<(String, String)>, name: &str) -> (r: Option<&'a str>)
    ensures
        opt_str(r) == attribute_value(attribute_shapes(attributes@), name@),
{
    let ghost all = attribute_shapes(attributes@);
    let mut i: usize = 0;
    assert(all.skip(0) =~= all);
    while i < attributes.len()
        invariant
            i <= attributes.len(),
            all == attribute_shapes(attributes@),
            attribute_value(all, name@) == attribute_value(all.skip(i as int), name@),
        decreases attributes.len() - i,
    {
        assert(all.skip(i as int).drop_first() == all.skip(i + 1));
        assert(all.skip(i as int)[0] == all[i as int]);
        if same_text(attributes[i].0.as_str(), name) {
            return Some(attributes[i].1.as_str());
        }
        i += 1;
    }
    None
}

/// Builds a rich body from the tokens of an HTML text, in order.
pub fn build(tokens: &Vec<HtmlToken>) -> (r: RichBody)
    ensures
        block_shapes(r.blocks@) == built(token_shapes(tokens@)).finished().blocks,
{
    let ghost shapes = token_shapes(tokens@);
    let mut builder = Builder::new();
    let mut i: usize = 0;
    assert(shapes.take(0) =~= Seq::<TokenShape>::empty());
    while i < tokens.len()
        invariant
            i <= tokens.len(),
            shapes == token_shapes(tokens@),
            builder@ == built(shapes.take(i as int)),
        decreases tokens.len() - i,
    {
        assert(shapes.take(i + 1).drop_last() =~= shapes.take(i as int));
        assert(shapes.take(i + 1).last() == token_shape(tokens@[i as int]));
        match &tokens[i] {
            HtmlToken::Start { name, self_closing, attributes } => {
                let alt = first_attribute(attributes, "alt");
                let href = first_attribute(attributes, "href");
                let _ = builder.start_tag(name.as_str(), *self_closing, alt, href);
            },
            HtmlToken::End { name } => builder.end_tag(name.as_str()),
            HtmlToken::Text(text) => builder.text(text.as_str()),
            HtmlToken::EndOfInput => builder.end_of_input(),
        }
        i += 1;
    }
    assert(shapes.take(tokens.len() as int) =~= shapes);
    builder.finish()
}

/// html5ever's token, carried through without looking inside.
#[verifier::external_type_specification]
#[verifier::external_body]
pub struct ExToken(Token);

/// What html5ever's tokenizer is told after a token.
#[verifier::external_type_specification]
#[verifier::external_body]
#[verifier::reject_recursive_types(Handle)]
pub struct ExTokenSinkResult<Handle>(TokenSinkResult<Handle>);

/// std's `RefCell`, carried through without looking inside.
#[verifier::external_type_specification]
#[verifier::external_body]
#[verifier::reject_recursive_types(T)]
pub struct ExRefCell<T: ?Sized>(std::cell::RefCell<T>);

/// Collects the tokens html5ever's tokenizer reports.
pub struct TokenList(std::cell::RefCell<Vec<HtmlToken>>);

/// One html5ever token as plain values: a start or end tag with its name
/// and the attributes by local name, text, or the end of input; `None`
/// for what this reader does not look at (comments, doctypes, nulls and
/// parse errors). Only converts; nothing is claimed of the result.
#[verifier::external_body]
fn token_of(token: Token) -> Option<HtmlToken> {
    match token {
        Token::TagToken(tag) => match tag.kind {
            TagKind::StartTag => Some(HtmlToken::Start {
                name: tag.name.to_string(),
                self_closing: tag.self_closing,
                attributes: tag.attrs.iter().map(|a| (a.name.local.to_string(), a.value.to_string())).collect(),
            }),
            TagKind::EndTag => Some(HtmlToken::End { name: tag.name.to_string() }),
        },
        Token::CharacterTokens(text) => Some(HtmlToken::Text(text.to_string())),
        Token::EOFToken => Some(HtmlToken::EndOfInput),
        _ => None,
    }
}

/// The answer html5ever's tokenizer takes for what to read next.
#[verifier::external_body]
fn sink_answer(next: RawContent) -> TokenSinkResult<()> {
    match next {
        RawContent::Markup => TokenSinkResult::Continue,
        RawContent::Script => TokenSinkResult::RawData(RawKind::ScriptData),
        RawContent::Rawtext => TokenSinkResult::RawData(RawKind::Rawtext),
        RawContent::Rcdata => TokenSinkResult::RawData(RawKind::Rcdata),
    }
}

impl TokenSink for TokenList {
    type Handle = ();

    /// Keeps the token and answers with what `reading_after_token` decides.
    #[verifier::external_body]
    fn process_token(&self, token: Token, _line_number: u64) -> TokenSinkResult<()> {
        let token = token_of(token);
        let next = reading_after_token(&token);
        if let Some(token) = token {
            self.0.borrow_mut().push(token);
        }
        sink_answer(next)
    }
}

/// The tokens html5ever's tokenizer reports for a whole HTML text, each
/// start tag answered with `reading_after`. The result is named
/// `html_tokens`.
#[verifier::external_body]
fn tokenize(html: &str) -> (r: Vec<HtmlToken>)
    ensures
        token_shapes(r@) == html_tokens(html@),
{
    let tokenizer = Tokenizer::new(TokenList(std::cell::RefCell::new(Vec::new())), TokenizerOpts::default());
    let input = BufferQueue::default();
    input.push_back(StrTendril::from_slice(html));
    let _ = tokenizer.feed(&input);
    tokenizer.end();
    tokenizer.sink.0.take()
}

/// Reads a sanitized HTML body into blocks and runs.
pub fn parse(html: &str) -> (r: RichBody)
    ensures
        block_shapes(r.blocks@) == built(html_tokens(html@)).finished().blocks,
{
    let tokens = tokenize(html);
    build(&tokens)
}

} // verus!
