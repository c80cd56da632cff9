//! What a sanitized HTML body becomes once read into blocks and runs.

use ruston_mail::html::{build, parse, reading_after, Builder, HtmlToken, RawContent};
use ruston_mail::model::{BlockKind, RichSpan};

/// One line per block: kind, quote depth as `>`, and its text.
fn outline(html: &str) -> Vec<String> {
    let text = |spans: &[RichSpan]| spans.iter().map(|s| s.text.as_str()).collect::<String>();
    parse(html)
        .blocks
        .iter()
        .map(|block| {
            let line = match &block.kind {
                BlockKind::Paragraph(spans) => format!("p {}", text(spans)),
                BlockKind::Heading { level, spans } => format!("h{level} {}", text(spans)),
                BlockKind::ListItem {
                    marker,
                    depth,
                    spans,
                } => format!("li{depth} {marker} {}", text(spans)),
                BlockKind::Preformatted(content) => format!("pre {content}"),
                BlockKind::Image { description } => format!("img {description}"),
                BlockKind::Rule => "hr".to_owned(),
            };
            format!("{}{line}", ">".repeat(usize::from(block.quote_depth)))
        })
        .collect()
}

fn spans(html: &str) -> Vec<RichSpan> {
    match parse(html)
        .blocks
        .into_iter()
        .next()
        .map(|block| block.kind)
    {
        Some(BlockKind::Paragraph(spans)) => spans,
        other => panic!("expected a paragraph, got {other:?}"),
    }
}

#[test]
fn paragraphs_and_line_breaks() {
    let html = "<div><p>Hello <b>Alex</b>,</p><p>Line one<br>Line two</p></div>";

    assert_eq!(outline(html), ["p Hello Alex,", "p Line one\nLine two"]);
}

#[test]
fn headings_lists_and_quotes_keep_their_structure() {
    let html = "<h1>Title</h1><ul><li>One</li><li>Two<ol><li>Nested</li></ol></li></ul>\
                <hr><blockquote><p>Quoted</p><blockquote>Deeper</blockquote></blockquote>";

    assert_eq!(
        outline(html),
        [
            "h1 Title",
            "li1 • One",
            "li1 • Two",
            "li2 1. Nested",
            "hr",
            ">p Quoted",
            ">>p Deeper",
        ]
    );
}

#[test]
fn inline_styles_become_spans() {
    let spans = spans(
        "<p>Plain <strong>bold</strong> <em>italic</em> <code>code</code> <s>old</s> \
         <a href=\"https://example.com/x\">link</a></p>",
    );
    let styled = |word: &str| spans.iter().find(|s| s.text.trim() == word).unwrap();

    assert!(!styled("Plain").strong && styled("Plain").link.is_none());
    assert!(styled("bold").strong);
    assert!(styled("italic").emphasis);
    assert!(styled("code").code);
    assert!(styled("old").struck);
    assert_eq!(
        styled("link").link.as_deref(),
        Some("https://example.com/x")
    );
}

#[test]
fn only_web_and_mail_links_stay_clickable() {
    let spans = spans(
        "<p><a href=\"javascript:alert(1)\">a</a> <a href=\"/relative\">b</a> \
         <a href=\"mailto:team@example.org\">c</a> <a href=\"ftp://example.com\">d</a></p>",
    );
    let link = |word: &str| {
        spans
            .iter()
            .find(|s| s.text.trim() == word)
            .and_then(|s| s.link.clone())
    };

    assert_eq!(link("a"), None);
    assert_eq!(link("b"), None);
    assert_eq!(link("c").as_deref(), Some("mailto:team@example.org"));
    assert_eq!(link("d"), None);
}

#[test]
fn preformatted_text_keeps_its_spacing() {
    let html = "<pre>\n  let x = 1;\n    indented\n</pre><p>After</p>";

    assert_eq!(outline(html), ["pre   let x = 1;\n    indented", "p After"]);
}

#[test]
fn hidden_content_is_dropped_and_entities_decoded() {
    let html = "<head><title>Subject</title><style>p { color: red } a < b</style></head>\
                <p>Fish &amp; chips &lt;3 &copy; &#x263A;</p>\
                <script>document.write(\"<p>x</p>\")</script>";

    assert_eq!(outline(html), ["p Fish & chips <3 © ☺"]);
}

#[test]
fn images_keep_only_their_description() {
    let html = "<p>Logo <img src=\"https://tracker.example/p.gif\" alt=\"\"> text</p>\
                <img src=\"cid:logo\" alt=\" Company logo \">";

    assert_eq!(outline(html), ["p Logo text", "img Company logo"]);
}

#[test]
fn tables_read_row_by_row() {
    let html = "<table><tr><td>Name</td><td>Value</td></tr>\
                <tr><th>A</th><th>B</th></tr></table>";

    assert_eq!(outline(html), ["p Name Value", "p A B"]);
}

#[test]
fn malformed_or_empty_input_is_handled() {
    assert!(parse("").blocks.is_empty());
    assert_eq!(outline("Text <b unterminated"), ["p Text"]);
    assert_eq!(outline("Plain text only"), ["p Plain text only"]);
    assert_eq!(outline(&"<b>".repeat(70_000)), Vec::<String>::new());
}

#[test]
fn text_follows_reading_order() {
    let body = parse("<p>One <b>two</b></p><img alt=\"Pic\"><pre>code</pre>");

    assert_eq!(body.plain_text(), "One two\n[Image: Pic]\ncode\n");
}

#[test]
fn a_styled_run_never_owns_the_space_beside_it() {
    let body = parse("<p>and a <s>withdrawn</s> point, plus <code>settings.json</code> here</p>");
    let BlockKind::Paragraph(spans) = &body.blocks[0].kind else {
        panic!("expected a paragraph");
    };
    for span in spans {
        assert!(
            !(span.code || span.struck) || span.text.trim() == span.text,
            "{span:?} carries a space its background or strikethrough would cover"
        );
    }
    assert_eq!(
        spans
            .iter()
            .map(|span| span.text.as_str())
            .collect::<String>(),
        "and a withdrawn point, plus settings.json here"
    );
}

#[test]
fn a_space_inside_a_styled_run_stays_inside_it() {
    let body = parse("<p><code>cargo test</code></p>");
    let BlockKind::Paragraph(spans) = &body.blocks[0].kind else {
        panic!("expected a paragraph");
    };
    assert_eq!(spans.len(), 1);
    assert_eq!(spans[0].text, "cargo test");
    assert!(spans[0].code);
}

#[test]
fn hidden_elements_skip_everything_until_they_close() {
    let mut builder = Builder::new();
    let _ = builder.start_tag("template", false, None, None);
    let _ = builder.start_tag("p", false, None, None);
    builder.text("never shown");
    builder.end_tag("p");
    builder.end_tag("template");
    builder.text("shown");
    let body = builder.finish();
    assert_eq!(body.blocks.len(), 1);
    assert_eq!(body.plain_text(), "shown\n");
}

#[test]
fn ordered_lists_count_their_items() {
    assert_eq!(
        outline("<ol><li>a</li><li>b</li><li>c<p>more</p></li></ol>"),
        ["li1 1. a", "li1 2. b", "li1 3. c", "li1  more"]
    );
}

#[test]
fn raw_text_elements_say_how_to_read_on() {
    let mut builder = Builder::new();
    assert_eq!(builder.start_tag("script", false, None, None), RawContent::Script);
    builder.end_tag("script");
    assert_eq!(builder.start_tag("style", false, None, None), RawContent::Rawtext);
    builder.end_tag("style");
    assert_eq!(builder.start_tag("title", false, None, None), RawContent::Rcdata);
    builder.end_tag("title");
    assert_eq!(builder.start_tag("div", true, None, None), RawContent::Markup);
    assert_eq!(builder.start_tag("p", false, None, None), RawContent::Markup);
}

#[test]
fn tokens_build_the_same_body_as_the_text() {
    let tokens = vec![
        HtmlToken::Start {
            name: "p".to_owned(),
            self_closing: false,
            attributes: Vec::new(),
        },
        HtmlToken::Text("Hello ".to_owned()),
        HtmlToken::Start {
            name: "a".to_owned(),
            self_closing: false,
            attributes: vec![("href".to_owned(), "https://example.com/x".to_owned())],
        },
        HtmlToken::Text("there".to_owned()),
        HtmlToken::End { name: "a".to_owned() },
        HtmlToken::End { name: "p".to_owned() },
        HtmlToken::EndOfInput,
    ];
    assert_eq!(build(&tokens), parse("<p>Hello <a href=\"https://example.com/x\">there</a></p>"));
}

#[test]
fn a_self_closing_element_reads_markup_after_it() {
    assert_eq!(reading_after("script", false), RawContent::Script);
    assert_eq!(reading_after("script", true), RawContent::Markup);
    assert_eq!(reading_after("br", true), RawContent::Markup);
    assert_eq!(reading_after("title", false), RawContent::Rcdata);
}
