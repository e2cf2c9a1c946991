//! Rendering of markdown text into lines of styled spans.
//!
//! The text is tokenised by pulldown-cmark; the library folds the resulting
//! event stream into a `StyledDocument`, tracking bold and italic as two
//! independent flags.
use pulldown_cmark::{Event, Parser, Tag};
use vstd::prelude::*;

verus! {

/// One run of text with its emphasis flags.
#[derive(Debug, PartialEq, Eq)]
pub struct StyledSpan {
    pub text: String,
    pub bold: bool,
    pub italic: bool,
}

/// The model of a span: its characters and flags.
pub struct SpanModel {
    pub text: Seq<char>,
    pub bold: bool,
    pub italic: bool,
}

impl View for StyledSpan {
    type V = SpanModel;

    open spec fn view(&self) -> SpanModel {
        SpanModel { text: self.text@, bold: self.bold, italic: self.italic }
    }
}

/// One displayed line: its spans, left to right.
#[derive(Debug, PartialEq, Eq)]
pub struct StyledLine {
    pub spans: Vec<StyledSpan>,
}

impl View for StyledLine {
    type V = Seq<SpanModel>;

    open spec fn view(&self) -> Seq<SpanModel> {
        self.spans@.map_values(|s: StyledSpan| s@)
    }
}

/// A rendered document: its lines, top to bottom.
#[derive(Debug, PartialEq, Eq)]
pub struct StyledDocument {
    pub lines: Vec<StyledLine>,
}

impl View for StyledDocument {
    type V = Seq<Seq<SpanModel>>;

    open spec fn view(&self) -> Seq<Seq<SpanModel>> {
        self.lines@.map_values(|l: StyledLine| l@)
    }
}

/// The part of a markdown event stream that the renderer acts on.
#[derive(Debug, PartialEq, Eq)]
pub enum MarkupEvent {
    StartStrong,
    EndStrong,
    StartEmphasis,
    EndEmphasis,
    EndParagraph,
    Text(String),
    /// Any other event: it leaves the output unchanged.
    Other,
}

/// The model of a `MarkupEvent`.
pub enum MarkupToken {
    StartStrong,
    EndStrong,
    StartEmphasis,
    EndEmphasis,
    EndParagraph,
    Text(Seq<char>),
    Other,
}

impl View for MarkupEvent {
    type V = MarkupToken;

    open spec fn view(&self) -> MarkupToken {
        match self {
            MarkupEvent::StartStrong => MarkupToken::StartStrong,
            MarkupEvent::EndStrong => MarkupToken::EndStrong,
            MarkupEvent::StartEmphasis => MarkupToken::StartEmphasis,
            MarkupEvent::EndEmphasis => MarkupToken::EndEmphasis,
            MarkupEvent::EndParagraph => MarkupToken::EndParagraph,
            MarkupEvent::Text(s) => MarkupToken::Text(s@),
            MarkupEvent::Other => MarkupToken::Other,
        }
    }
}

/// The models of a sequence of events.
pub open spec fn tokens_of(events: Seq<MarkupEvent>) -> Seq<MarkupToken> {
    events.map_values(|e: MarkupEvent| e@)
}

/// The accumulator threaded through the event stream.
pub struct RenderState {
    pub bold: bool,
    pub italic: bool,
    /// Spans of the line being built.
    pub line: Seq<SpanModel>,
    /// Lines already finished.
    pub lines: Seq<Seq<SpanModel>>,
}

pub open spec fn initial_state() -> RenderState {
    RenderState { bold: false, italic: false, line: Seq::empty(), lines: Seq::empty() }
}

/// The effect of one token on the accumulator.
pub open spec fn step(st: RenderState, tok: MarkupToken) -> RenderState {
    match tok {
        MarkupToken::StartStrong => RenderState { bold: true, ..st },
        MarkupToken::EndStrong => RenderState { bold: false, ..st },
        MarkupToken::StartEmphasis => RenderState { italic: true, ..st },
        MarkupToken::EndEmphasis => RenderState { italic: false, ..st },
        MarkupToken::EndParagraph => RenderState {
            line: Seq::empty(),
            lines: st.lines.push(st.line),
            ..st
        },
        MarkupToken::Text(t) => RenderState {
            line: st.line.push(SpanModel { text: t, bold: st.bold, italic: st.italic }),
            ..st
        },
        MarkupToken::Other => st,
    }
}

/// The accumulator after all of `toks`, from the initial state.
pub open spec fn fold_tokens(toks: Seq<MarkupToken>) -> RenderState
    decreases toks.len(),
{
    if toks.len() == 0 {
        initial_state()
    } else {
        step(fold_tokens(toks.drop_last()), toks.last())
    }
}

/// The document that a token stream renders to: the finished lines, then the
/// last line if it holds any span.
pub open spec fn render_tokens(toks: Seq<MarkupToken>) -> Seq<Seq<SpanModel>> {
    let st = fold_tokens(toks);
    if st.line.len() > 0 {
        st.lines.push(st.line)
    } else {
        st.lines
    }
}

/// Renders an event stream into a styled document.
pub fn render_events(events: &Vec<MarkupEvent>) -> (doc: StyledDocument)
    ensures
        doc@ == render_tokens(tokens_of(events@)),
{
    let mut bold = false;
    let mut italic = false;
    let mut line: Vec<StyledSpan> = Vec::new();
    let mut lines: Vec<StyledLine> = Vec::new();
    let n = events.len();
    let mut i: usize = 0;
    while i < n
        invariant
            n == events@.len(),
            i <= n,
            ({
                let st = fold_tokens(tokens_of(events@.take(i as int)));
                &&& st.bold == bold
                &&& st.italic == italic
                &&& st.line == line@.map_values(|s: StyledSpan| s@)
                &&& st.lines == lines@.map_values(|l: StyledLine| l@)
            }),
        decreases n - i,
    {
        assert(tokens_of(events@.take(i + 1)).drop_last() == tokens_of(events@.take(i as int)));
        assert(tokens_of(events@.take(i + 1)).last() == events@[i as int]@);
        match &events[i] {
            MarkupEvent::StartStrong => {
                bold = true;
            },
            MarkupEvent::EndStrong => {
                bold = false;
            },
            MarkupEvent::StartEmphasis => {
                italic = true;
            },
            MarkupEvent::EndEmphasis => {
                italic = false;
            },
            MarkupEvent::EndParagraph => {
                let finished = line;
                line = Vec::new();
                let ghost old_lines = lines@;
                lines.push(StyledLine { spans: finished });
                assert(lines@.map_values(|l: StyledLine| l@) == old_lines.map_values(
                    |l: StyledLine| l@,
                ).push(finished@.map_values(|s: StyledSpan| s@)));
                assert(line@.map_values(|s: StyledSpan| s@) == Seq::<SpanModel>::empty());
            },
            MarkupEvent::Text(t) => {
                let ghost old_line = line@;
                line.push(StyledSpan { text: t.clone(), bold, italic });
                assert(line@.map_values(|s: StyledSpan| s@) == old_line.map_values(
                    |s: StyledSpan| s@,
                ).push(SpanModel { text: t@, bold, italic }));
            },
            MarkupEvent::Other => {},
        }
        i = i + 1;
    }
    assert(events@.take(n as int) == events@);
    if line.len() > 0 {
        let ghost old_lines = lines@;
        lines.push(StyledLine { spans: line });
        assert(lines@.map_values(|l: StyledLine| l@) == old_lines.map_values(
            |l: StyledLine| l@,
        ).push(line@.map_values(|s: StyledSpan| s@)));
    }
    StyledDocument { lines }
}

/// The markdown event stream of `text`, as pulldown-cmark tokenises it.
pub uninterp spec fn markup_events_of(text: Seq<char>) -> Seq<MarkupToken>;

/// Relies on `pulldown_cmark::Parser::new` and its iterator: the events that it
/// yields for `text`, in order, each told apart into the variants above.
#[verifier::external_body]
fn parse_events(text: &str) -> (events: Vec<MarkupEvent>)
    ensures
        tokens_of(events@) == markup_events_of(text@),
{
    Parser::new(text).map(|event| match event {
        Event::Start(Tag::Strong) => MarkupEvent::StartStrong,
        Event::End(Tag::Strong) => MarkupEvent::EndStrong,
        Event::Start(Tag::Emphasis) => MarkupEvent::StartEmphasis,
        Event::End(Tag::Emphasis) => MarkupEvent::EndEmphasis,
        Event::End(Tag::Paragraph) => MarkupEvent::EndParagraph,
        Event::Text(text) => MarkupEvent::Text(text.into_string()),
        _ => MarkupEvent::Other,
    }).collect()
}

/// Renders markdown text into a styled document.
pub fn render_markdown(markdown_str: String) -> (doc: StyledDocument)
    ensures
        doc@ == render_tokens(markup_events_of(markdown_str@)),
{
    let events = parse_events(markdown_str.as_str());
    render_events(&events)
}

/// The characters of a line, span after span.
pub open spec fn line_text(line: Seq<SpanModel>) -> Seq<char>
    decreases line.len(),
{
    if line.len() == 0 {
        Seq::empty()
    } else {
        line_text(line.drop_last()) + line.last().text
    }
}

/// The characters of a document, line after line.
pub open spec fn document_text(lines: Seq<Seq<SpanModel>>) -> Seq<char>
    decreases lines.len(),
{
    if lines.len() == 0 {
        Seq::empty()
    } else {
        document_text(lines.drop_last()) + line_text(lines.last())
    }
}

/// The text runs of a token stream, concatenated: its content without markup.
pub open spec fn text_content(toks: Seq<MarkupToken>) -> Seq<char>
    decreases toks.len(),
{
    if toks.len() == 0 {
        Seq::empty()
    } else {
        text_content(toks.drop_last()) + match toks.last() {
            MarkupToken::Text(t) => t,
            _ => Seq::empty(),
        }
    }
}

proof fn lemma_fold_keeps_text(toks: Seq<MarkupToken>)
    ensures
        document_text(fold_tokens(toks).lines) + line_text(fold_tokens(toks).line)
            == text_content(toks),
    decreases toks.len(),
{
    if toks.len() == 0 {
        assert(Seq::<char>::empty() + Seq::<char>::empty() =~= Seq::<char>::empty());
    } else {
        let prev = toks.drop_last();
        lemma_fold_keeps_text(prev);
        let st = fold_tokens(prev);
        let doc = document_text(st.lines);
        let cur = line_text(st.line);
        match toks.last() {
            MarkupToken::EndParagraph => {
                assert(st.lines.push(st.line).drop_last() =~= st.lines);
                assert(line_text(Seq::<SpanModel>::empty()) == Seq::<char>::empty());
                assert((doc + cur) + Seq::<char>::empty() =~= doc + cur);
            },
            MarkupToken::Text(t) => {
                let span = SpanModel { text: t, bold: st.bold, italic: st.italic };
                assert(st.line.push(span).drop_last() =~= st.line);
                assert(doc + (cur + t) =~= (doc + cur) + t);
            },
            _ => {
                assert((doc + cur) + Seq::<char>::empty() =~= doc + cur);
            },
        }
    }
}

/// Rendering keeps the text: the spans of the rendered document, read in
/// order, hold exactly the text runs of the token stream.
pub proof fn lemma_rendered_tokens_keep_text(toks: Seq<MarkupToken>)
    ensures
        document_text(render_tokens(toks)) == text_content(toks),
{
    lemma_fold_keeps_text(toks);
    let st = fold_tokens(toks);
    if st.line.len() > 0 {
        assert(st.lines.push(st.line).drop_last() =~= st.lines);
    } else {
        assert(st.line =~= Seq::<SpanModel>::empty());
        assert(document_text(st.lines) + Seq::<char>::empty() =~= document_text(st.lines));
    }
}

/// Rendering markdown text keeps its text content: the rendered spans, read in
/// order, spell out the text of the markdown with every markup marker removed.
pub proof fn lemma_render_keeps_text(markdown: Seq<char>)
    ensures
        document_text(render_tokens(markup_events_of(markdown))) == text_content(
            markup_events_of(markdown),
        ),
{
    lemma_rendered_tokens_keep_text(markup_events_of(markdown));
}

} // verus!
