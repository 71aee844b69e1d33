//! What one redraw puts on the screen, as plain values.
//!
//! A frame has a header of fixed height, cut into columns of equal width, and
//! a body that takes the rest of the screen. The program that owns the
//! terminal turns a frame into widgets, one for one.

use vstd::prelude::*;

verus! {

/// How a stretch of text is shown.
#[derive(Clone, Copy, Debug, PartialEq, Eq, Structural)]
pub enum Style {
    Plain,
    Bold,
    BoldCyan,
    Red,
}

/// Where a title stands on its border.
#[derive(Clone, Copy, Debug, PartialEq, Eq, Structural)]
pub enum Alignment {
    Left,
    Center,
    Right,
}

/// Which sides of a block are drawn.
#[derive(Clone, Copy, Debug, PartialEq, Eq, Structural)]
pub enum Borders {
    Hidden,
    All,
}

/// A stretch of text in one style.
#[derive(Debug, PartialEq, Eq)]
pub struct Span {
    pub text: String,
    pub style: Style,
}

/// One line of text: its spans from left to right.
#[derive(Debug, PartialEq, Eq)]
pub struct Line {
    pub spans: Vec<Span>,
}

/// Lines of text from top to bottom.
#[derive(Debug, PartialEq, Eq)]
pub struct Text {
    pub lines: Vec<Line>,
}

/// A bordered area with a title.
#[derive(Debug, PartialEq, Eq)]
pub struct Block {
    pub title: Line,
    pub title_alignment: Alignment,
    pub borders: Borders,
}

/// One full screen.
#[derive(Debug, PartialEq, Eq)]
pub struct Frame {
    /// The number of rows that the header takes at the top of the screen.
    pub header_height: u16,
    /// The columns of the header from left to right, all of the same width.
    pub header: Vec<Text>,
    /// The block that fills the screen below the header.
    pub body: Block,
}

/// A span as a mathematical value.
pub struct SpanView {
    pub text: Seq<char>,
    pub style: Style,
}

/// A line as a mathematical value.
pub type LineView = Seq<SpanView>;

/// A text as a mathematical value.
pub type TextView = Seq<LineView>;

/// A block as a mathematical value.
pub struct BlockView {
    pub title: LineView,
    pub title_alignment: Alignment,
    pub borders: Borders,
}

/// A frame as a mathematical value.
pub struct FrameView {
    pub header_height: int,
    pub header: Seq<TextView>,
    pub body: BlockView,
}

impl View for Span {
    type V = SpanView;

    open spec fn view(&self) -> SpanView {
        SpanView { text: self.text@, style: self.style }
    }
}

impl View for Line {
    type V = LineView;

    open spec fn view(&self) -> LineView {
        self.spans@.map_values(|span: Span| span@)
    }
}

impl View for Text {
    type V = TextView;

    open spec fn view(&self) -> TextView {
        self.lines@.map_values(|line: Line| line@)
    }
}

impl View for Block {
    type V = BlockView;

    open spec fn view(&self) -> BlockView {
        BlockView {
            title: self.title@,
            title_alignment: self.title_alignment,
            borders: self.borders,
        }
    }
}

impl View for Frame {
    type V = FrameView;

    open spec fn view(&self) -> FrameView {
        FrameView {
            header_height: self.header_height as int,
            header: self.header@.map_values(|text: Text| text@),
            body: self.body@,
        }
    }
}

/// The span with the given text and style.
pub open spec fn styled(text: Seq<char>, style: Style) -> SpanView {
    SpanView { text, style }
}

/// The line that shows a label in the given style and a plain value after it.
pub open spec fn labelled(label: Seq<char>, style: Style, value: Seq<char>) -> LineView {
    seq![styled(label, style), styled(value, Style::Plain)]
}

impl Span {
    /// Makes a span of the given text in the given style.
    pub fn new(text: String, style: Style) -> (span: Span)
        ensures
            span@ == styled(text@, style),
    {
        Span { text, style }
    }
}

impl Line {
    /// Makes the line that holds one span.
    pub fn single(span: Span) -> (line: Line)
        ensures
            line@ == seq![span@],
    {
        let mut spans: Vec<Span> = Vec::new();
        spans.push(span);
        let line = Line { spans };
        line
    }

    /// Makes the line that shows a label in the given style and a plain
    /// value after it.
    pub fn labelled(label: &str, style: Style, value: String) -> (line: Line)
        ensures
            line@ == labelled(label@, style, value@),
    {
        let mut spans: Vec<Span> = Vec::new();
        spans.push(Span::new(String::from_str(label), style));
        spans.push(Span::new(value, Style::Plain));
        let line = Line { spans };
        line
    }
}

impl Text {
    /// Makes a text of no lines.
    pub fn new() -> (text: Text)
        ensures
            text@ == Seq::<LineView>::empty(),
    {
        let text = Text { lines: Vec::new() };
        text
    }

    /// Adds a line below the others.
    pub fn push(&mut self, line: Line)
        ensures
            final(self)@ == old(self)@.push(line@),
    {
        self.lines.push(line);
    }
}

} // verus!
