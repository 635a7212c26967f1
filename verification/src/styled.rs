//! Styled text: colours, spans and lines, as plain values.
use vstd::prelude::*;

use crate::viewport;

verus! {

/// A terminal colour.
#[derive(Clone, Copy, Debug, PartialEq, Eq, Structural)]
pub enum Color {
    Black,
    Red,
    Green,
    Yellow,
    Blue,
    LightBlue,
    White,
}

/// How a piece of text looks. `None` leaves a colour as it is.
#[derive(Clone, Copy, Debug, PartialEq, Eq, Structural)]
pub struct Style {
    pub fg: Option<Color>,
    pub bg: Option<Color>,
    pub bold: bool,
    pub dim: bool,
}

/// The style that changes nothing.
pub open spec fn plain() -> Style {
    Style { fg: None, bg: None, bold: false, dim: false }
}

impl Default for Style {
    fn default() -> (r: Self)
        ensures
            r == plain(),
    {
        Style { fg: None, bg: None, bold: false, dim: false }
    }
}

impl Style {
    /// This style with another foreground.
    pub fn fg(self, color: Color) -> (r: Self)
        ensures
            r == (Style { fg: Some(color), ..self }),
    {
        Style { fg: Some(color), bg: self.bg, bold: self.bold, dim: self.dim }
    }

    /// This style with another background.
    pub fn bg(self, color: Color) -> (r: Self)
        ensures
            r == (Style { bg: Some(color), ..self }),
    {
        Style { fg: self.fg, bg: Some(color), bold: self.bold, dim: self.dim }
    }

    /// This style in bold.
    pub fn bold(self) -> (r: Self)
        ensures
            r == (Style { bold: true, ..self }),
    {
        Style { fg: self.fg, bg: self.bg, bold: true, dim: self.dim }
    }

    /// This style, dimmed.
    pub fn dim(self) -> (r: Self)
        ensures
            r == (Style { dim: true, ..self }),
    {
        Style { fg: self.fg, bg: self.bg, bold: self.bold, dim: true }
    }
}

/// Where a line stands in its area.
#[derive(Clone, Copy, Debug, PartialEq, Eq, Structural)]
pub enum Alignment {
    Left,
    Center,
    Right,
}

/// A piece of text in one style.
#[derive(Debug)]
pub struct Span {
    pub content: String,
    pub style: Style,
}

/// The value of a [`Span`].
pub struct SpanView {
    pub content: Seq<char>,
    pub style: Style,
}

impl View for Span {
    type V = SpanView;

    open spec fn view(&self) -> SpanView {
        SpanView { content: self.content@, style: self.style }
    }
}

/// The values of a sequence of spans.
pub open spec fn span_views(spans: Seq<Span>) -> Seq<SpanView> {
    spans.map_values(|s: Span| s@)
}

impl Span {
    /// `content` in the style `style`.
    pub fn styled(content: String, style: Style) -> (r: Self)
        ensures
            r@ == (SpanView { content: content@, style }),
            r.content == content,
    {
        Span { content, style }
    }

    /// `content` with no style of its own.
    pub fn raw(content: String) -> (r: Self)
        ensures
            r@ == (SpanView { content: content@, style: plain() }),
            r.content == content,
    {
        Span { content, style: Style::default() }
    }
}

/// A line of spans.
#[derive(Debug)]
pub struct Line {
    pub spans: Vec<Span>,
    pub style: Style,
    pub alignment: Option<Alignment>,
}

/// The value of a [`Line`].
pub struct LineView {
    pub spans: Seq<SpanView>,
    pub style: Style,
    pub alignment: Option<Alignment>,
}

impl View for Line {
    type V = LineView;

    open spec fn view(&self) -> LineView {
        LineView { spans: span_views(self.spans@), style: self.style, alignment: self.alignment }
    }
}

/// The values of a sequence of lines.
pub open spec fn line_views(lines: Seq<Line>) -> Seq<LineView> {
    lines.map_values(|l: Line| l@)
}

/// A line without a style or an alignment of its own.
pub open spec fn plain_line(spans: Seq<SpanView>) -> LineView {
    LineView { spans, style: plain(), alignment: None }
}

/// The text of the first `n` spans.
pub open spec fn spans_text(spans: Seq<SpanView>, n: int) -> Seq<char>
    decreases n,
{
    if n <= 0 {
        Seq::empty()
    } else {
        spans_text(spans, n - 1) + spans[n - 1].content
    }
}

/// Number of columns of the first `n` spans.
pub open spec fn spans_width(spans: Seq<SpanView>, n: int) -> nat
    decreases n,
{
    if n <= 0 {
        0
    } else {
        spans_width(spans, n - 1) + viewport::text_width(spans[n - 1].content)
    }
}

impl Line {
    /// A line of these spans.
    pub fn from_spans(spans: Vec<Span>) -> (r: Self)
        ensures
            r@ == plain_line(span_views(spans@)),
            r.spans == spans,
    {
        Line { spans, style: Style::default(), alignment: None }
    }

    /// A line of one span without a style.
    pub fn raw(content: String) -> (r: Self)
        ensures
            r@ == plain_line(seq![SpanView { content: content@, style: plain() }]),
    {
        let mut spans: Vec<Span> = Vec::new();
        spans.push(Span::raw(content));
        let r: Line = Line { spans, style: Style::default(), alignment: None };
        assert(r@.spans =~= seq![SpanView { content: content@, style: plain() }]);
        r
    }

    /// The text of the line.
    pub fn to_text(&self) -> (r: String)
        ensures
            r@ == spans_text(self@.spans, self@.spans.len() as int),
    {
        let mut r: String = String::new();
        let mut i: usize = 0;
        while i < self.spans.len()
            invariant
                i <= self.spans@.len(),
                r@ == spans_text(self@.spans, i as int),
            decreases self.spans@.len() - i,
        {
            r.append(self.spans[i].content.as_str());
            i += 1;
        }
        r
    }

    /// Number of columns that the line takes; one that does not fit in a
    /// `usize` counts as the largest.
    pub fn width(&self) -> (r: usize)
        ensures
            r == viewport::clamp(spans_width(self@.spans, self@.spans.len() as int)),
    {
        let mut r: usize = 0;
        let mut i: usize = 0;
        while i < self.spans.len()
            invariant
                i <= self.spans@.len(),
                r == viewport::clamp(spans_width(self@.spans, i as int)),
            decreases self.spans@.len() - i,
        {
            let w: usize = viewport::display_width(self.spans[i].content.as_str());
            r = r.saturating_add(w);
            i += 1;
        }
        r
    }
}

} // verus!
