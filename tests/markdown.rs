use mdview::markdown::{render_events, render_markdown, MarkupEvent, StyledDocument, StyledLine, StyledSpan};

fn span(text: &str, bold: bool, italic: bool) -> StyledSpan {
    StyledSpan { text: text.to_string(), bold, italic }
}

fn one_line(spans: Vec<StyledSpan>) -> StyledDocument {
    StyledDocument { lines: vec![StyledLine { spans }] }
}

fn compare_style(enclosing_str: &str, bold: bool, italic: bool) {
    let inner_str = "Test";
    let markdown_string = format!("{enclosing_str}{inner_str}{enclosing_str}");
    assert_eq!(one_line(vec![span(inner_str, bold, italic)]), render_markdown(markdown_string));
}

fn all_text(doc: &StyledDocument) -> String {
    let mut s = String::new();
    for line in &doc.lines {
        for sp in &line.spans {
            s.push_str(&sp.text);
        }
    }
    s
}

#[test]
fn strong_is_bold() {
    compare_style("**", true, false)
}

#[test]
fn emphasis_is_italics() {
    compare_style("*", false, true)
}

#[test]
fn nested_styles() {
    compare_style("***", true, true)
}

#[test]
fn tests_strong_is_bold() {
    compare_style("**", true, false)
}

#[test]
fn tests_emphasis_is_italics() {
    compare_style("*", false, true)
}

#[test]
fn line_contains_two_styles() {
    let markdown_str = "*italic* **bold**";
    let expected = one_line(vec![
        span("italic", false, true),
        span(" ", false, false),
        span("bold", true, false),
    ]);
    assert_eq!(expected, render_markdown(markdown_str.to_string()))
}

#[test]
fn no_newline_before_first_paragraph() {
    let doc = render_markdown("first\n\nsecond".to_string());
    assert_eq!(doc.lines.len(), 2);
    assert_eq!(doc.lines[0], StyledLine { spans: vec![span("first", false, false)] });
    assert_eq!(doc.lines[1], StyledLine { spans: vec![span("second", false, false)] });
}

#[test]
fn last_line_is_flushed() {
    let events = vec![
        MarkupEvent::Text("done".to_string()),
        MarkupEvent::EndParagraph,
        MarkupEvent::StartStrong,
        MarkupEvent::Text("tail".to_string()),
    ];
    let doc = render_events(&events);
    assert_eq!(doc.lines.len(), 2);
    assert_eq!(doc.lines[1], StyledLine { spans: vec![span("tail", true, false)] });
}

#[test]
fn bold_scenario() {
    let doc = render_markdown("**bold**".to_string());
    assert_eq!(doc.lines.len(), 1);
    assert_eq!(doc.lines[0].spans.len(), 1);
    assert_eq!(doc.lines[0].spans[0], span("bold", true, false));
}

#[test]
fn italic_scenario() {
    let doc = render_markdown("*italic*".to_string());
    assert_eq!(doc, one_line(vec![span("italic", false, true)]));
}

#[test]
fn bold_and_italic_scenario() {
    let doc = render_markdown("***both***".to_string());
    assert_eq!(doc, one_line(vec![span("both", true, true)]));
}

#[test]
fn rendered_text_is_markup_free() {
    let doc = render_markdown("Some *mixed* **text** here\n\nA ***second*** one".to_string());
    assert_eq!(all_text(&doc), "Some mixed text hereA second one");
    assert_eq!(doc.lines.len(), 2);
}

#[test]
fn empty_text_renders_nothing() {
    assert_eq!(render_markdown(String::new()), StyledDocument { lines: vec![] });
}

#[test]
fn empty_paragraph_line_is_kept() {
    let events = vec![MarkupEvent::EndParagraph, MarkupEvent::Text("x".to_string()), MarkupEvent::EndParagraph];
    let doc = render_events(&events);
    assert_eq!(doc.lines.len(), 2);
    assert!(doc.lines[0].spans.is_empty());
    assert_eq!(doc.lines[1].spans, vec![span("x", false, false)]);
}

#[test]
fn reentering_a_style_is_idempotent() {
    let events = vec![
        MarkupEvent::StartEmphasis,
        MarkupEvent::StartEmphasis,
        MarkupEvent::Text("a".to_string()),
        MarkupEvent::EndEmphasis,
        MarkupEvent::Text("b".to_string()),
        MarkupEvent::Other,
    ];
    let doc = render_events(&events);
    assert_eq!(doc, one_line(vec![span("a", false, true), span("b", false, false)]));
}
