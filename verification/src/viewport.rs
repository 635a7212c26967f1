//! Panes, their scrolled view of wider content, and the clipping and wrapping
//! of text by display columns.
use vstd::prelude::*;

use crate::geometry::{Rect, rect_contains};
use crate::geometry;
use crate::plain;
use crate::styled::{Line, LineView, Span, SpanView, Style};
use crate::styled;
use crate::text;

use unicode_segmentation::UnicodeSegmentation;
use unicode_width::UnicodeWidthStr;

verus! {

/// `n`, or the largest `usize` where `n` is larger.
pub open spec fn clamp(n: nat) -> usize {
    if n <= usize::MAX {
        n as usize
    } else {
        usize::MAX
    }
}

/// Number of columns that a terminal shows a text in: what
/// `unicode_width::UnicodeWidthStr::width` returns for it.
pub uninterp spec fn text_width(s: Seq<char>) -> nat;

/// The extended grapheme clusters of a text, in order: what
/// `unicode_segmentation::UnicodeSegmentation::graphemes` yields for it.
pub uninterp spec fn clusters(s: Seq<char>) -> Seq<Seq<char>>;

/// Whether a text holds printable ASCII characters only.
pub open spec fn printable_ascii(s: Seq<char>) -> bool {
    forall|i: int| 0 <= i < s.len() ==> ' ' <= #[trigger] s[i] && s[i] <= '~'
}

/// The characters of a text, each as a text of its own.
pub open spec fn singles(s: Seq<char>) -> Seq<Seq<char>> {
    s.map_values(|c: char| seq![c])
}

/// The text of the pieces `i..j`, joined.
pub open spec fn joined(pieces: Seq<Seq<char>>, i: int, j: int) -> Seq<char>
    decreases j - i,
{
    if j <= i {
        Seq::empty()
    } else {
        joined(pieces, i, j - 1) + pieces[j - 1]
    }
}

/// The values of a sequence of strings.
pub open spec fn str_views(s: Seq<&str>) -> Seq<Seq<char>> {
    s.map_values(|t: &str| t@)
}

/// Number of columns of a text. Calls `UnicodeWidthStr::width`: the result is
/// named [`text_width`], and printable ASCII takes one column per character.
#[verifier::external_body]
pub fn display_width(text: &str) -> (r: usize)
    ensures
        r == text_width(text@),
        printable_ascii(text@) ==> r == text@.len(),
{
    UnicodeWidthStr::width(text)
}

/// The grapheme clusters of a text. Calls `UnicodeSegmentation::graphemes`: the
/// result is named [`clusters`], no cluster is empty, and joined they are the
/// text. In a text of printable ASCII characters, each character is a cluster.
#[verifier::external_body]
pub(crate) fn graphemes(text: &str) -> (r: Vec<&str>)
    ensures
        str_views(r@) == clusters(text@),
        joined(str_views(r@), 0, r@.len() as int) == text@,
        forall|i: int| 0 <= i < r@.len() ==> (#[trigger] r@[i])@.len() > 0,
        printable_ascii(text@) ==> str_views(r@) == singles(text@),
{
    UnicodeSegmentation::graphemes(text, true).collect()
}

/// The panes of the screen.
#[derive(Clone, Copy, Debug, PartialEq, Eq, Structural)]
pub enum Pane {
    Jobs,
    Details,
    Output,
}

impl Default for Pane {
    fn default() -> (r: Self)
        ensures
            r == Pane::Jobs,
    {
        Pane::Jobs
    }
}

impl Pane {
    /// The pane after this one, in the order in which the focus moves.
    pub open spec fn after(self) -> Pane {
        match self {
            Pane::Jobs => Pane::Details,
            Pane::Details => Pane::Output,
            Pane::Output => Pane::Jobs,
        }
    }

    /// The pane before this one, in the order in which the focus moves.
    pub open spec fn before(self) -> Pane {
        match self {
            Pane::Jobs => Pane::Output,
            Pane::Details => Pane::Jobs,
            Pane::Output => Pane::Details,
        }
    }

    /// The pane that the focus moves to next.
    pub fn next(self) -> (r: Self)
        ensures
            r == self.after(),
    {
        match self {
            Pane::Jobs => Pane::Details,
            Pane::Details => Pane::Output,
            Pane::Output => Pane::Jobs,
        }
    }

    /// The pane that the focus moves back to.
    pub fn previous(self) -> (r: Self)
        ensures
            r == self.before(),
    {
        match self {
            Pane::Jobs => Pane::Output,
            Pane::Details => Pane::Jobs,
            Pane::Output => Pane::Details,
        }
    }
}

/// Moving the focus forwards and backwards undo each other, and three moves
/// visit all panes and lead back.
pub proof fn law_focus_cycles(pane: Pane)
    ensures
        pane.after().before() == pane,
        pane.before().after() == pane,
        pane.after() != pane,
        pane.after().after() != pane,
        pane.after().after().after() == pane,
{
}

/// The area of a pane, and the part of its content that is scrolled into view.
#[derive(Clone, Copy, Debug, PartialEq, Eq, Structural)]
pub struct PaneViewport {
    pub area: Rect,
    pub content_width: usize,
    pub horizontal_offset: usize,
}

impl Default for PaneViewport {
    fn default() -> (r: Self)
        ensures
            r == (PaneViewport {
                area: geometry::empty_rect(),
                content_width: 0,
                horizontal_offset: 0,
            }),
            r.wf(),
    {
        PaneViewport { area: Rect::default(), content_width: 0, horizontal_offset: 0 }
    }
}

impl PaneViewport {
    /// Columns inside the border.
    pub open spec fn visible(self) -> int {
        geometry::floor0(self.area.width - 2)
    }

    /// How far the content can be scrolled: until its last column is visible.
    pub open spec fn max_offset(self) -> int {
        geometry::floor0(self.content_width - self.visible())
    }

    /// The content is not scrolled beyond its end.
    pub open spec fn wf(self) -> bool {
        self.horizontal_offset <= self.max_offset()
    }

    /// The pane with another area and content width. The offset stays where it
    /// is, or moves back to the new end of the content.
    pub open spec fn fitted(self, area: Rect, content_width: usize) -> PaneViewport {
        let resized = PaneViewport { area, content_width, ..self };
        PaneViewport {
            horizontal_offset: geometry::least(
                self.horizontal_offset as int,
                resized.max_offset(),
            ) as usize,
            ..resized
        }
    }

    /// The pane scrolled to the left, up to the start.
    pub open spec fn scrolled_left(self, amount: usize) -> PaneViewport {
        PaneViewport {
            horizontal_offset: geometry::floor0(self.horizontal_offset - amount) as usize,
            ..self
        }
    }

    /// The pane scrolled to the right, up to the end.
    pub open spec fn scrolled_right(self, amount: usize) -> PaneViewport {
        PaneViewport {
            horizontal_offset: geometry::least(
                self.horizontal_offset + amount,
                self.max_offset(),
            ) as usize,
            ..self
        }
    }

    /// The pane scrolled back to the start.
    pub open spec fn at_start(self) -> PaneViewport {
        PaneViewport { horizontal_offset: 0, ..self }
    }

    /// Takes over a new area and content width. The offset stays where it is,
    /// or moves back to the new end of the content.
    pub fn update(&mut self, area: Rect, content_width: usize)
        ensures
            *final(self) == old(self).fitted(area, content_width),
            final(self).wf(),
    {
        self.area = area;
        self.content_width = content_width;
        self.clamp();
    }

    /// The area of the pane.
    pub fn area(self) -> (r: Rect)
        ensures
            r == self.area,
    {
        self.area
    }

    /// Whether the pane holds the cell at `column`, `row`.
    pub fn contains(self, column: u16, row: u16) -> (r: bool)
        ensures
            r == self.area.holds(column as int, row as int),
    {
        rect_contains(self.area, column, row)
    }

    /// Number of columns inside the border.
    pub fn visible_width(self) -> (r: usize)
        ensures
            r == self.visible(),
    {
        self.area.width.saturating_sub(2) as usize
    }

    /// Number of content columns that are scrolled out on the left.
    pub fn horizontal_offset(self) -> (r: usize)
        ensures
            r == self.horizontal_offset,
    {
        self.horizontal_offset
    }

    /// The largest offset.
    pub fn max_horizontal_offset(self) -> (r: usize)
        ensures
            r == self.max_offset(),
    {
        self.content_width.saturating_sub(self.visible_width())
    }

    /// Scrolls to the left, up to the start, and says whether anything moved.
    pub fn scroll_left_by(&mut self, amount: usize) -> (changed: bool)
        ensures
            *final(self) == old(self).scrolled_left(amount),
            changed == (final(self).horizontal_offset != old(self).horizontal_offset),
            old(self).wf() ==> final(self).wf(),
    {
        let previous: usize = self.horizontal_offset;
        self.horizontal_offset = self.horizontal_offset.saturating_sub(amount);
        previous != self.horizontal_offset
    }

    /// Scrolls to the right, up to the end, and says whether anything moved.
    pub fn scroll_right_by(&mut self, amount: usize) -> (changed: bool)
        ensures
            *final(self) == old(self).scrolled_right(amount),
            changed == (final(self).horizontal_offset != old(self).horizontal_offset),
            final(self).wf(),
    {
        let previous: usize = self.horizontal_offset;
        let moved: usize = self.horizontal_offset.saturating_add(amount);
        let max: usize = self.max_horizontal_offset();
        self.horizontal_offset = if moved < max {
            moved
        } else {
            max
        };
        previous != self.horizontal_offset
    }

    /// Scrolls back to the start, and says whether anything moved.
    pub fn reset_horizontal(&mut self) -> (changed: bool)
        ensures
            *final(self) == old(self).at_start(),
            changed == (old(self).horizontal_offset != 0),
            final(self).wf(),
    {
        let changed: bool = self.horizontal_offset != 0;
        self.horizontal_offset = 0;
        changed
    }

    fn clamp(&mut self)
        ensures
            final(self).area == old(self).area,
            final(self).content_width == old(self).content_width,
            final(self).horizontal_offset == geometry::least(
                old(self).horizontal_offset as int,
                old(self).max_offset(),
            ),
    {
        let max: usize = self.max_horizontal_offset();
        if self.horizontal_offset > max {
            self.horizontal_offset = max;
        }
    }
}

/// A pane whose content fits is not scrolled.
pub proof fn law_fitting_content_is_not_scrolled(viewport: PaneViewport)
    requires
        viewport.wf(),
        viewport.content_width <= viewport.visible(),
    ensures
        viewport.horizontal_offset == 0,
{
}

/// The sum, or the largest `usize` where it does not fit.
pub open spec fn capped_sum(a: int, b: int) -> int {
    geometry::least(a + b, usize::MAX as int)
}

/// `n` spaces.
pub open spec fn spaces(n: int) -> Seq<char> {
    Seq::new(n as nat, |i: int| ' ')
}

/// The columns of each of a sequence of texts.
pub open spec fn widths_of(cells: Seq<Seq<char>>) -> Seq<usize> {
    cells.map_values(|c: Seq<char>| text_width(c) as usize)
}

/// What is shown of a run of cells, and where that leaves off.
pub struct Clip {
    /// The text that is shown.
    pub content: Seq<char>,
    /// Columns of the source read so far.
    pub column: int,
    /// Columns shown so far.
    pub visible: int,
    /// Nothing that follows can be shown.
    pub full: bool,
}

/// What is shown of the cells from `i` on, where `column` source columns were
/// read and `visible` columns were shown before. Cells left of `offset` are
/// skipped, and one that `offset` cuts is shown as spaces. A cell that would
/// not fit whole in `width` columns ends the run.
pub open spec fn clip_from(
    cells: Seq<Seq<char>>,
    widths: Seq<usize>,
    i: int,
    offset: int,
    width: int,
    column: int,
    visible: int,
) -> Clip
    decreases cells.len() - i,
{
    if i >= cells.len() {
        Clip { content: Seq::empty(), column, visible, full: false }
    } else {
        let columns = widths[i] as int;
        let end = capped_sum(column, columns);
        let cut = column < offset;
        let shown = if cut {
            geometry::least(end - offset, geometry::floor0(width - visible))
        } else {
            columns
        };
        let piece = if cut {
            spaces(shown)
        } else {
            cells[i]
        };
        let now = capped_sum(visible, shown);
        if end <= offset {
            clip_from(cells, widths, i + 1, offset, width, end, visible)
        } else if !cut && now > width {
            Clip { content: Seq::empty(), column: end, visible, full: true }
        } else if now >= width {
            Clip { content: piece, column: end, visible: now, full: true }
        } else {
            let rest = clip_from(cells, widths, i + 1, offset, width, end, now);
            Clip { content: piece + rest.content, ..rest }
        }
    }
}

/// What is shown of a text.
pub open spec fn clip_text(
    content: Seq<char>,
    offset: int,
    width: int,
    column: int,
    visible: int,
) -> Clip {
    let cells = clusters(content);
    clip_from(cells, widths_of(cells), 0, offset, width, column, visible)
}

/// What is shown of the spans from `i` on. A span of which nothing is shown is
/// left out, and each keeps its style.
pub open spec fn clip_spans(
    spans: Seq<SpanView>,
    i: int,
    offset: int,
    width: int,
    column: int,
    visible: int,
) -> Seq<SpanView>
    decreases spans.len() - i,
{
    if i >= spans.len() {
        Seq::empty()
    } else {
        let clip = clip_text(spans[i].content, offset, width, column, visible);
        let head = if clip.content.len() > 0 {
            seq![SpanView { content: clip.content, style: spans[i].style }]
        } else {
            Seq::empty()
        };
        if clip.full || clip.visible >= width {
            head
        } else {
            head + clip_spans(spans, i + 1, offset, width, clip.column, clip.visible)
        }
    }
}

/// The part of a line in the columns `offset..offset + width`.
pub open spec fn clipped(line: LineView, offset: int, width: int) -> LineView {
    LineView { spans: clip_spans(line.spans, 0, offset, width, 0, 0), ..line }
}

/// Appends `n` spaces.
pub fn push_spaces(out: &mut String, n: usize)
    ensures
        final(out)@ == old(out)@ + spaces(n as int),
{
    let mut k: usize = 0;
    assert(out@ + spaces(0) =~= out@);
    while k < n
        invariant
            k <= n,
            out@ == old(out)@ + spaces(k as int),
        decreases n - k,
    {
        assert((old(out)@ + spaces(k as int)).push(' ') =~= old(out)@ + spaces(k + 1));
        out.push(' ');
        k += 1;
    }
}

/// The columns of each of `parts`.
pub fn measure(parts: &Vec<&str>) -> (r: Vec<usize>)
    ensures
        r@ == widths_of(str_views(parts@)),
        forall|k: int|
            #![trigger r@[k]]
            0 <= k < r@.len() && printable_ascii(parts@[k]@) ==> r@[k] == parts@[k]@.len(),
{
    let mut r: Vec<usize> = Vec::new();
    let mut i: usize = 0;
    while i < parts.len()
        invariant
            i <= parts@.len(),
            r@.len() == i,
            forall|k: int|
                #![trigger r@[k]]
                0 <= k < r@.len() && printable_ascii(parts@[k]@) ==> r@[k] == parts@[k]@.len(),
            r@ == widths_of(str_views(parts@)).take(i as int),
        decreases parts@.len() - i,
    {
        let w: usize = display_width(parts[i]);
        r.push(w);
        assert(r@ =~= widths_of(str_views(parts@)).take(i + 1));
        i += 1;
    }
    assert(r@ =~= widths_of(str_views(parts@)));
    r
}

/// What [`clip_cells`] shows, and where that leaves off.
#[derive(Debug)]
pub struct Clipped {
    pub content: String,
    pub column: usize,
    pub visible: usize,
    pub full: bool,
}

impl View for Clipped {
    type V = Clip;

    open spec fn view(&self) -> Clip {
        Clip {
            content: self.content@,
            column: self.column as int,
            visible: self.visible as int,
            full: self.full,
        }
    }
}

/// What is shown of `parts`, which are `widths` columns wide, where `read`
/// source columns were read and `shown` columns were shown before.
pub fn clip_cells(
    parts: &Vec<&str>,
    widths: &Vec<usize>,
    offset: usize,
    width: usize,
    read: usize,
    shown: usize,
) -> (r: Clipped)
    requires
        parts@.len() == widths@.len(),
    ensures
        r@ == clip_from(
            str_views(parts@),
            widths@,
            0,
            offset as int,
            width as int,
            read as int,
            shown as int,
        ),
{
    let ghost cells = str_views(parts@);
    let ghost goal = clip_from(
        cells,
        widths@,
        0,
        offset as int,
        width as int,
        read as int,
        shown as int,
    );
    let mut out: String = String::new();
    let mut column: usize = read;
    let mut visible: usize = shown;
    let mut i: usize = 0;
    assert(out@ + goal.content =~= goal.content);
    while i < parts.len()
        invariant
            i <= parts@.len(),
            parts@.len() == widths@.len(),
            cells == str_views(parts@),
            goal == clip_from(
                cells,
                widths@,
                0,
                offset as int,
                width as int,
                read as int,
                shown as int,
            ),
            ({
                let rest = clip_from(
                    cells,
                    widths@,
                    i as int,
                    offset as int,
                    width as int,
                    column as int,
                    visible as int,
                );
                goal == (Clip { content: out@ + rest.content, ..rest })
            }),
        decreases parts@.len() - i,
    {
        let part: &str = parts[i];
        assert(part@ == cells[i as int]);
        let columns: usize = widths[i];
        let start: usize = column;
        let end: usize = column.saturating_add(columns);
        column = end;
        if end > offset {
            if start < offset {
                let room: usize = width.saturating_sub(visible);
                let cut: usize = if end - offset < room {
                    end - offset
                } else {
                    room
                };
                push_spaces(&mut out, cut);
                visible = visible.saturating_add(cut);
            } else if visible.saturating_add(columns) <= width {
                out.append(part);
                visible = visible.saturating_add(columns);
            } else {
                assert(goal.content =~= out@);
                return Clipped { content: out, column, visible, full: true };
            }
            if visible >= width {
                assert(goal.content =~= out@);
                return Clipped { content: out, column, visible, full: true };
            }
            proof {
                let rest = clip_from(
                    cells,
                    widths@,
                    i + 1,
                    offset as int,
                    width as int,
                    column as int,
                    visible as int,
                );
                assert(goal.content =~= out@ + rest.content);
            }
        }
        i += 1;
    }
    assert(goal.content =~= out@);
    Clipped { content: out, column, visible, full: false }
}

/// What a span adds to what is shown of a plain line.
proof fn lemma_plain_step(
    source: Seq<SpanView>,
    out: Seq<SpanView>,
    i: int,
    widths: Seq<usize>,
    offset: int,
    width: int,
    column: int,
    style: Style,
)
    requires
        plain::plain_spans(source),
        0 <= i < source.len(),
        plain::all_one(widths),
        widths.len() == source[i].content.len(),
        0 <= offset <= usize::MAX,
        0 <= width <= usize::MAX,
        plain_progress(
            source,
            out,
            i,
            offset,
            width,
            column,
            geometry::floor0(column - offset),
        ),
    ensures
        ({
            let clip = clip_from(
                singles(source[i].content),
                widths,
                0,
                offset,
                width,
                column,
                geometry::floor0(column - offset),
            );
            let more = if clip.content.len() > 0 {
                out.push(SpanView { content: clip.content, style })
            } else {
                out
            };
            let read = styled::spans_text(source, i + 1);
            &&& styled::spans_text(more, more.len() as int) == plain::part(read, offset, width)
            &&& clip.full || clip.visible >= width ==> read.len() >= offset + width || width == 0
            &&& !clip.full ==> plain_progress(
                source,
                more,
                i + 1,
                offset,
                width,
                clip.column,
                clip.visible,
            )
        }),
{
    let content = source[i].content;
    let read = styled::spans_text(source, i);
    plain::lemma_spans_text_grows(source, i + 1, source.len() as int);
    plain::lemma_clip(content, widths, 0, offset, width, column);
    plain::lemma_part_concat(read, content, offset, width);
    let clip = clip_from(
        singles(content),
        widths,
        0,
        offset,
        width,
        column,
        geometry::floor0(column - offset),
    );
    let more = out.push(SpanView { content: clip.content, style });
    plain::lemma_spans_text_prefix(out, more, out.len() as int);
    if clip.content.len() == 0 {
        assert(plain::part(read, offset, width) + clip.content =~= plain::part(
            read,
            offset,
            width,
        ));
    }
}

/// How far a plain line was clipped, once `out` is shown of its first `i` spans.
spec fn plain_progress(
    source: Seq<SpanView>,
    out: Seq<SpanView>,
    i: int,
    offset: int,
    width: int,
    column: int,
    visible: int,
) -> bool {
    let read = styled::spans_text(source, i);
    &&& column == read.len()
    &&& visible == geometry::floor0(column - offset)
    &&& visible <= width
    &&& styled::spans_text(out, out.len() as int) == plain::part(read, offset, width)
}

/// The part of `line` in the columns `offset..offset + width`, with the styles
/// of its spans. Of plain text these are the characters at these places.
pub fn clip_line(line: &Line, offset: usize, width: usize) -> (r: Line)
    ensures
        r@ == clipped(line@, offset as int, width as int),
        plain::plain_spans(line@.spans) ==> styled::spans_text(r@.spans, r@.spans.len() as int)
            == plain::part(
            styled::spans_text(line@.spans, line@.spans.len() as int),
            offset as int,
            width as int,
        ),
{
    let ghost source = line@.spans;
    let ghost goal = clip_spans(source, 0, offset as int, width as int, 0, 0);
    let mut spans: Vec<Span> = Vec::new();
    let mut column: usize = 0;
    let mut visible: usize = 0;
    let mut i: usize = 0;
    let ghost is_plain = plain::plain_spans(source);
    assert(styled::span_views(spans@) + goal =~= goal);
    assert(plain::part(Seq::empty(), offset as int, width as int) =~= Seq::empty());
    while i < line.spans.len()
        invariant
            i <= line.spans@.len(),
            source == styled::span_views(line.spans@),
            is_plain == plain::plain_spans(source),
            is_plain ==> plain_progress(
                source,
                styled::span_views(spans@),
                i as int,
                offset as int,
                width as int,
                column as int,
                visible as int,
            ),
            goal == clip_spans(source, 0, offset as int, width as int, 0, 0),
            goal == styled::span_views(spans@) + clip_spans(
                source,
                i as int,
                offset as int,
                width as int,
                column as int,
                visible as int,
            ),
        decreases line.spans@.len() - i,
    {
        let span: &Span = &line.spans[i];
        assert(source[i as int] == span@);
        let ghost before = styled::span_views(spans@);
        let parts: Vec<&str> = graphemes(span.content.as_str());
        let widths: Vec<usize> = measure(&parts);
        let shown: Clipped = clip_cells(&parts, &widths, offset, width, column, visible);
        proof {
            if is_plain {
                plain::lemma_widths(span@.content, parts@, widths@);
                lemma_plain_step(
                    source,
                    before,
                    i as int,
                    widths@,
                    offset as int,
                    width as int,
                    column as int,
                    span.style,
                );
            }
        }
        column = shown.column;
        visible = shown.visible;
        let full: bool = shown.full;
        if !shown.content.as_str().is_empty() {
            let piece: Span = Span::styled(shown.content, span.style);
            let ghost view = piece@;
            spans.push(piece);
            assert(styled::span_views(spans@) =~= before + seq![view]);
            assert(before + seq![view] =~= before.push(view));
        }
        if full || visible >= width {
            assert(goal =~= styled::span_views(spans@));
            proof {
                if is_plain {
                    plain::lemma_part_done(
                        source,
                        i + 1,
                        source.len() as int,
                        offset as int,
                        width as int,
                    );
                }
            }
            let r: Line = Line { spans, style: line.style, alignment: line.alignment };
            return r;
        }
        proof {
            assert(goal =~= styled::span_views(spans@) + clip_spans(
                source,
                i + 1,
                offset as int,
                width as int,
                column as int,
                visible as int,
            ));
        }
        i += 1;
    }
    assert(goal =~= styled::span_views(spans@));
    Line { spans, style: line.style, alignment: line.alignment }
}

/// Number of columns of the cells `i..j`.
pub open spec fn columns(widths: Seq<usize>, i: int, j: int) -> int
    decreases j - i,
{
    if j <= i {
        0
    } else {
        capped_sum(columns(widths, i, j - 1), widths[j - 1] as int)
    }
}

/// Where the row that starts at cell `start` ends, given that it reaches `end`.
/// A row takes cells until it is full, or the next one would overflow it; it
/// takes at least one. A row of width zero has no limit.
pub open spec fn row_end(widths: Seq<usize>, start: int, end: int, available: int) -> int
    decreases widths.len() - end,
{
    if end >= widths.len() {
        widths.len() as int
    } else if available > 0 && end > start && (columns(widths, start, end) >= available
        || columns(widths, start, end + 1) > available) {
        end
    } else {
        row_end(widths, start, end + 1, available)
    }
}

/// The rows, as ranges of cells, that the cells from `start` on are wrapped
/// into: the first one `available` columns wide, the others `continuation`.
pub open spec fn rows_from(
    widths: Seq<usize>,
    start: int,
    available: int,
    continuation: int,
) -> Seq<(int, int)>
    decreases widths.len() - start,
    via rows_from_decreases
{
    if start >= widths.len() {
        Seq::empty()
    } else {
        let end = row_end(widths, start, start, available);
        seq![(start, end)] + rows_from(widths, end, continuation, continuation)
    }
}

#[via_fn]
proof fn rows_from_decreases(
    widths: Seq<usize>,
    start: int,
    available: int,
    continuation: int,
) {
    if start < widths.len() {
        lemma_row_end(widths, start, start, available);
    }
}

/// A row holds at least one cell.
pub proof fn lemma_row_end(widths: Seq<usize>, start: int, end: int, available: int)
    requires
        start <= end,
        start < widths.len(),
    ensures
        end <= row_end(widths, start, end, available) || end > widths.len(),
        start < row_end(widths, start, end, available) <= widths.len(),
    decreases widths.len() - end,
{
    if end < widths.len() && !(available > 0 && end > start && (columns(widths, start, end)
        >= available || columns(widths, start, end + 1) > available)) {
        lemma_row_end(widths, start, end + 1, available);
    }
}

/// The rows of cells that are `widths` columns wide. A first width of zero
/// means that the first row is as wide as the others.
pub open spec fn wrap_rows_spec(widths: Seq<usize>, first: int, continuation: int) -> Seq<
    (int, int),
> {
    rows_from(
        widths,
        0,
        if first == 0 {
            continuation
        } else {
            first
        },
        continuation,
    )
}

/// The rows of a sequence of cells as ranges.
pub open spec fn row_views(rows: Seq<(usize, usize)>) -> Seq<(int, int)> {
    rows.map_values(|r: (usize, usize)| (r.0 as int, r.1 as int))
}

/// Wraps cells that are `widths` columns wide into rows of `first_width` and
/// then `continuation_width` columns, as ranges of cells.
pub fn wrap_rows(widths: &Vec<usize>, first_width: usize, continuation_width: usize) -> (r: Vec<
    (usize, usize),
>)
    ensures
        row_views(r@) == wrap_rows_spec(
            widths@,
            first_width as int,
            continuation_width as int,
        ),
{
    let mut rows: Vec<(usize, usize)> = Vec::new();
    let mut available: usize = if first_width == 0 {
        continuation_width
    } else {
        first_width
    };
    let ghost goal = wrap_rows_spec(widths@, first_width as int, continuation_width as int);
    let mut start: usize = 0;
    let mut current: usize = 0;
    let mut end: usize = 0;
    assert(row_views(rows@) + goal =~= goal);
    while end < widths.len()
        invariant
            start <= end <= widths@.len(),
            start < widths@.len() || end == start,
            current == columns(widths@, start as int, end as int),
            available > 0 && end > start ==> current < available,
            start < widths@.len() ==> {
                let stop = row_end(widths@, start as int, end as int, available as int);
                goal == row_views(rows@) + (seq![(start as int, stop)] + rows_from(
                    widths@,
                    stop,
                    continuation_width as int,
                    continuation_width as int,
                ))
            },
            start >= widths@.len() ==> goal == row_views(rows@),
        decreases widths@.len() - end,
    {
        let w: usize = widths[end];
        if available > 0 && end > start && current.saturating_add(w) > available {
            let ghost before = row_views(rows@);
            rows.push((start, end));
            proof {
                assert(columns(widths@, start as int, end + 1) == capped_sum(
                    current as int,
                    w as int,
                ));
                assert(row_views(rows@) =~= before + seq![(start as int, end as int)]);
                assert(goal =~= row_views(rows@) + rows_from(
                    widths@,
                    end as int,
                    continuation_width as int,
                    continuation_width as int,
                ));
            }
            start = end;
            current = 0;
            available = continuation_width;
        }
        assert(columns(widths@, start as int, end as int) == current);
        current = current.saturating_add(w);
        end += 1;
        proof {
            assert(columns(widths@, start as int, end as int) == current);
        }
        if available > 0 && current >= available {
            let ghost before = row_views(rows@);
            rows.push((start, end));
            proof {
                assert(row_end(widths@, start as int, end as int, available as int) == end);
                assert(row_views(rows@) =~= before + seq![(start as int, end as int)]);
                assert(goal =~= row_views(rows@) + rows_from(
                    widths@,
                    end as int,
                    continuation_width as int,
                    continuation_width as int,
                ));
                if end >= widths@.len() {
                    assert(goal =~= row_views(rows@));
                }
            }
            start = end;
            current = 0;
            available = continuation_width;
        }
    }
    if start < widths.len() {
        let ghost before = row_views(rows@);
        rows.push((start, widths.len()));
        proof {
            assert(row_views(rows@) =~= before + seq![(start as int, widths@.len() as int)]);
            assert(goal =~= row_views(rows@));
        }
    }
    rows
}

/// The rows of a text, as texts. An empty text is one empty row.
pub open spec fn wrapped(cells: Seq<Seq<char>>, rows: Seq<(int, int)>) -> Seq<Seq<char>> {
    if cells.len() == 0 {
        seq![Seq::empty()]
    } else {
        rows.map_values(|r: (int, int)| joined(cells, r.0, r.1))
    }
}

/// The rows of a text, as byte ranges. An empty text is one empty row.
pub open spec fn wrapped_ranges(cells: Seq<Seq<char>>, rows: Seq<(int, int)>) -> Seq<(int, int)> {
    if cells.len() == 0 {
        seq![(0, 0)]
    } else {
        rows.map_values(
            |r: (int, int)|
                (
                    text::byte_len(joined(cells, 0, r.0)) as int,
                    text::byte_len(joined(cells, 0, r.1)) as int,
                ),
        )
    }
}

/// The rows that a text is wrapped into.
pub open spec fn text_rows(s: Seq<char>, first: int, continuation: int) -> Seq<(int, int)> {
    wrap_rows_spec(widths_of(clusters(s)), first, continuation)
}

/// The values of a sequence of strings.
pub open spec fn string_views(s: Seq<String>) -> Seq<Seq<char>> {
    s.map_values(|t: String| t@)
}

/// Joined pieces, cut in two.
pub proof fn lemma_joined_split(pieces: Seq<Seq<char>>, i: int, m: int, j: int)
    requires
        i <= m <= j,
    ensures
        joined(pieces, i, j) == joined(pieces, i, m) + joined(pieces, m, j),
    decreases j - m,
{
    if m < j {
        lemma_joined_split(pieces, i, m, j - 1);
    }
    assert(joined(pieces, i, j) =~= joined(pieces, i, m) + joined(pieces, m, j));
}

/// The rows `rows` of the pieces of a text, as texts.
pub fn join_rows(parts: &Vec<&str>, rows: &Vec<(usize, usize)>) -> (r: Vec<String>)
    requires
        forall|k: int|
            0 <= k < rows@.len() ==> (#[trigger] rows@[k]).0 <= rows@[k].1 <= parts@.len(),
    ensures
        string_views(r@) == wrapped(str_views(parts@), row_views(rows@)),
{
    let ghost cells = str_views(parts@);
    let ghost goal = wrapped(cells, row_views(rows@));
    let mut lines: Vec<String> = Vec::new();
    if parts.len() == 0 {
        lines.push(String::new());
        assert(string_views(lines@) =~= goal);
        return lines;
    }
    let mut k: usize = 0;
    while k < rows.len()
        invariant
            k <= rows@.len(),
            cells == str_views(parts@),
            goal == row_views(rows@).map_values(|r: (int, int)| joined(cells, r.0, r.1)),
            forall|k: int|
                0 <= k < rows@.len() ==> (#[trigger] rows@[k]).0 <= rows@[k].1 <= parts@.len(),
            string_views(lines@) == goal.take(k as int),
        decreases rows@.len() - k,
    {
        let (from, to) = rows[k];
        let mut line: String = String::new();
        let mut i: usize = from;
        while i < to
            invariant
                from <= i <= to <= parts@.len(),
                cells == str_views(parts@),
                line@ == joined(cells, from as int, i as int),
            decreases to - i,
        {
            line.append(parts[i]);
            i += 1;
        }
        let ghost view = line@;
        let ghost before = string_views(lines@);
        lines.push(line);
        assert(string_views(lines@) =~= before.push(view));
        assert(goal.take(k + 1) =~= goal.take(k as int).push(goal[k as int]));
        k += 1;
    }
    assert(goal.take(k as int) =~= goal);
    lines
}

/// Whether ranges follow each other without gaps from `start` to `stop`, none
/// of them empty.
pub open spec fn tiles(rows: Seq<(int, int)>, start: int, stop: int) -> bool {
    &&& rows.len() == 0 ==> start == stop
    &&& rows.len() > 0 ==> rows[0].0 == start && rows.last().1 == stop
    &&& forall|k: int|
        0 <= k < rows.len() ==> start <= (#[trigger] rows[k]).0 < rows[k].1 <= stop
    &&& forall|j: int, k: int|
        #![trigger rows[j], rows[k]]
        0 <= j && k == j + 1 && k < rows.len() ==> rows[j].1 == rows[k].0
}

/// Wrapping loses, repeats and reorders nothing: the rows tile the cells.
pub proof fn law_rows_tile(widths: Seq<usize>, start: int, available: int, continuation: int)
    requires
        0 <= start <= widths.len(),
    ensures
        tiles(rows_from(widths, start, available, continuation), start, widths.len() as int),
    decreases widths.len() - start,
{
    if start < widths.len() {
        let end = row_end(widths, start, start, available);
        lemma_row_end(widths, start, start, available);
        law_rows_tile(widths, end, continuation, continuation);
        let rest = rows_from(widths, end, continuation, continuation);
        let rows = rows_from(widths, start, available, continuation);
        assert(rows =~= seq![(start, end)] + rest);
        assert forall|k: int| 0 <= k < rows.len() implies start <= (#[trigger] rows[k]).0
            < rows[k].1 <= widths.len() by {
            if k > 0 {
                assert(rows[k] == rest[k - 1]);
            }
        }
        assert forall|j: int, k: int|
            #![trigger rows[j], rows[k]]
            0 <= j && k == j + 1 && k < rows.len() implies rows[j].1 == rows[k].0 by {
            assert(rows[k] == rest[k - 1]);
            if j > 0 {
                assert(rows[j] == rest[j - 1]);
            }
        }
        if rest.len() > 0 {
            assert(rows.last() == rest.last());
        }
    }
}

/// Wraps a text into rows of `first_width` and then `continuation_width`
/// columns. Plain text is wrapped by counting its characters.
pub fn wrap_line(text: &str, first_width: usize, continuation_width: usize) -> (r: Vec<String>)
    ensures
        string_views(r@) == wrapped(
            clusters(text@),
            text_rows(text@, first_width as int, continuation_width as int),
        ),
        joined(string_views(r@), 0, r@.len() as int) == text@,
        printable_ascii(text@) ==> string_views(r@) == plain::rows(
            text@,
            first_width as int,
            continuation_width as int,
        ),
{
    let parts: Vec<&str> = graphemes(text);
    let widths: Vec<usize> = measure(&parts);
    let rows: Vec<(usize, usize)> = wrap_rows(&widths, first_width, continuation_width);
    proof {
        let available = if first_width == 0 {
            continuation_width as int
        } else {
            first_width as int
        };
        law_rows_tile(widths@, 0, available, continuation_width as int);
        assert forall|k: int| 0 <= k < rows@.len() implies (#[trigger] rows@[k]).0 <= rows@[k].1
            <= parts@.len() by {
            assert(row_views(rows@)[k] == (rows@[k].0 as int, rows@[k].1 as int));
        }
        law_wrapping_keeps_text(str_views(parts@), row_views(rows@));
        if printable_ascii(text@) {
            plain::lemma_widths(text@, parts@, widths@);
            plain::lemma_wrapped(
                text@,
                widths@,
                first_width as int,
                continuation_width as int,
            );
        }
    }
    join_rows(&parts, &rows)
}

/// The wrapped rows of a text, joined, are the text.
pub proof fn law_wrapping_keeps_text(cells: Seq<Seq<char>>, rows: Seq<(int, int)>)
    requires
        tiles(rows, 0, cells.len() as int),
    ensures
        joined(wrapped(cells, rows), 0, wrapped(cells, rows).len() as int) == joined(
            cells,
            0,
            cells.len() as int,
        ),
{
    let lines = wrapped(cells, rows);
    if cells.len() == 0 {
        assert(joined(lines, 0, 0) =~= Seq::<char>::empty());
        assert(joined(lines, 0, 1) =~= Seq::<char>::empty());
    } else {
        lemma_wrapped_prefix(cells, rows, rows.len() as int);
    }
}

proof fn lemma_wrapped_prefix(cells: Seq<Seq<char>>, rows: Seq<(int, int)>, k: int)
    requires
        cells.len() > 0,
        tiles(rows, 0, cells.len() as int),
        0 <= k <= rows.len(),
    ensures
        joined(wrapped(cells, rows), 0, k) == joined(
            cells,
            0,
            if k == 0 {
                0
            } else {
                rows[k - 1].1
            },
        ),
    decreases k,
{
    if k > 0 {
        lemma_wrapped_prefix(cells, rows, k - 1);
        let from = if k == 1 {
            0
        } else {
            rows[k - 2].1
        };
        if k > 1 {
            assert(rows[k - 2].1 == rows[k - 1].0);
        }
        assert(rows[k - 1].0 == from);
        lemma_joined_split(cells, 0, from, rows[k - 1].1);
    }
}

/// A row is never wider than its limit, unless it is a single cell.
pub proof fn law_rows_fit(widths: Seq<usize>, start: int, available: int)
    requires
        0 <= start < widths.len(),
        available > 0,
    ensures
        ({
            let end = row_end(widths, start, start, available);
            end == start + 1 || columns(widths, start, end) <= available
        }),
{
    lemma_row_fits(widths, start, start, available);
}

proof fn lemma_row_fits(widths: Seq<usize>, start: int, end: int, available: int)
    requires
        0 <= start <= end <= widths.len(),
        start < widths.len(),
        available > 0,
        end <= start + 1 || columns(widths, start, end) <= available,
    ensures
        ({
            let stop = row_end(widths, start, end, available);
            stop == start + 1 || columns(widths, start, stop) <= available
        }),
    decreases widths.len() - end,
{
    if end < widths.len() && !(end > start && (columns(widths, start, end) >= available || columns(
        widths,
        start,
        end + 1,
    ) > available)) {
        lemma_row_fits(widths, start, end + 1, available);
    }
}

/// What is shown never takes more columns than there are.
pub proof fn law_clip_fits(
    cells: Seq<Seq<char>>,
    widths: Seq<usize>,
    i: int,
    offset: int,
    width: int,
    column: int,
    visible: int,
)
    requires
        0 <= i,
        0 <= column,
        0 <= visible <= width <= usize::MAX,
    ensures
        visible <= clip_from(cells, widths, i, offset, width, column, visible).visible <= width,
    decreases cells.len() - i,
{
    if i < cells.len() {
        let columns = widths[i] as int;
        let end = capped_sum(column, columns);
        let cut = column < offset;
        let shown = if cut {
            geometry::least(end - offset, geometry::floor0(width - visible))
        } else {
            columns
        };
        let now = capped_sum(visible, shown);
        if end <= offset {
            law_clip_fits(cells, widths, i + 1, offset, width, end, visible);
        } else if !cut && now > width {
        } else if now < width {
            law_clip_fits(cells, widths, i + 1, offset, width, end, now);
        }
    }
}

/// Cells that fit, from the first column on, are shown as they are. Cells
/// without columns at either edge are outside of what is visible.
pub proof fn law_clip_shows_what_fits(cells: Seq<Seq<char>>, widths: Seq<usize>, width: int)
    requires
        cells.len() == widths.len(),
        width <= usize::MAX,
        cells.len() > 0 ==> widths[0] > 0,
        forall|k: int| 0 <= k < cells.len() ==> #[trigger] columns(widths, 0, k) < width,
        columns(widths, 0, cells.len() as int) <= width,
    ensures
        clip_from(cells, widths, 0, 0, width, 0, 0).content == joined(
            cells,
            0,
            cells.len() as int,
        ),
{
    lemma_clip_shows_rest(cells, widths, 0, width);
}

proof fn lemma_clip_shows_rest(cells: Seq<Seq<char>>, widths: Seq<usize>, i: int, width: int)
    requires
        0 <= i <= cells.len() == widths.len(),
        width <= usize::MAX,
        i < cells.len() ==> columns(widths, 0, i) + widths[i] > 0,
        forall|k: int| i <= k < cells.len() ==> #[trigger] columns(widths, 0, k) < width,
        columns(widths, 0, cells.len() as int) <= width,
        columns(widths, 0, i) >= 0,
    ensures
        clip_from(
            cells,
            widths,
            i,
            0,
            width,
            columns(widths, 0, i),
            columns(widths, 0, i),
        ).content == joined(cells, i, cells.len() as int),
    decreases cells.len() - i,
{
    let here = columns(widths, 0, i);
    if i < cells.len() {
        assert(columns(widths, 0, i + 1) == capped_sum(here, widths[i] as int));
        lemma_joined_split(cells, i, i + 1, cells.len() as int);
        assert(joined(cells, i, i + 1) =~= cells[i]) by {
            assert(joined(cells, i, i) =~= Seq::<char>::empty());
        }
        if i + 1 < cells.len() {
            assert(columns(widths, 0, i + 1) < width);
        }
        lemma_clip_shows_rest(cells, widths, i + 1, width);
        if i + 1 >= cells.len() {
            assert(joined(cells, i + 1, cells.len() as int) =~= Seq::<char>::empty());
        }
        assert(clip_from(cells, widths, i, 0, width, here, here).content =~= joined(
            cells,
            i,
            cells.len() as int,
        ));
    } else {
        assert(joined(cells, i, cells.len() as int) =~= Seq::<char>::empty());
    }
}

/// A row of a wrapped text is the text of its byte range.
pub proof fn law_rows_and_ranges_agree(cells: Seq<Seq<char>>, rows: Seq<(int, int)>, k: int)
    requires
        tiles(rows, 0, cells.len() as int),
        0 <= k < wrapped(cells, rows).len(),
    ensures
        ({
            let s = joined(cells, 0, cells.len() as int);
            let range = wrapped_ranges(cells, rows)[k];
            &&& wrapped_ranges(cells, rows).len() == wrapped(cells, rows).len()
            &&& text::on_boundary(s, range.0)
            &&& text::on_boundary(s, range.1)
            &&& text::byte_slice(s, range.0, range.1) == wrapped(cells, rows)[k]
        }),
{
    let s = joined(cells, 0, cells.len() as int);
    if cells.len() == 0 {
        text::lemma_ends_on_boundary(s);
        assert(text::byte_slice(s, 0, 0) =~= Seq::<char>::empty());
    } else {
        let (i, j) = rows[k];
        lemma_joined_split(cells, 0, i, cells.len() as int);
        lemma_joined_split(cells, i, j, cells.len() as int);
        lemma_joined_split(cells, 0, i, j);
        let a = joined(cells, 0, i);
        let b = joined(cells, 0, j);
        assert(s.take(a.len() as int) =~= a);
        assert(s.take(b.len() as int) =~= b);
        text::lemma_char_pos(s, a.len() as int);
        text::lemma_char_pos(s, b.len() as int);
        assert(s.subrange(a.len() as int, b.len() as int) =~= joined(cells, i, j));
    }
}

} // verus!
