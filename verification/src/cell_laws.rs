//! Which cells a column shows, and what is left of a line where only some of its
//! columns are in view.
use vstd::prelude::*;

use crate::app;
use crate::app::AppView;
use crate::output;
use crate::styled::{LineView, SpanView};
use crate::text;
use crate::viewport;

verus! {

proof fn lemma_columns_grow(widths: Seq<usize>, k: int, n: int)
    requires
        0 <= k <= n <= widths.len(),
    ensures
        0 <= viewport::columns(widths, 0, k) <= viewport::columns(widths, 0, n),
    decreases n,
{
    if k < n {
        lemma_columns_grow(widths, k, n - 1);
    } else if n > 0 {
        lemma_columns_grow(widths, n - 1, n - 1);
    }
}

/// The columns of some cells are those of the cells one by one, where they can
/// be counted.
pub proof fn law_columns_add_up(widths: Seq<usize>, k: int)
    requires
        0 <= k < widths.len(),
        viewport::columns(widths, 0, widths.len() as int) < usize::MAX,
    ensures
        viewport::columns(widths, 0, 0) == 0,
        viewport::columns(widths, 0, k + 1) == viewport::columns(widths, 0, k) + widths[k],
{
    lemma_columns_grow(widths, k + 1, widths.len() as int);
}

proof fn lemma_cell(widths: Seq<usize>, column: int, i: int)
    requires
        0 <= i <= widths.len(),
        viewport::columns(widths, 0, i) <= column,
    ensures
        ({
            let at = output::column_cell(widths, column, i);
            &&& i <= at <= widths.len()
            &&& viewport::columns(widths, 0, at) <= column
            &&& at < widths.len() ==> column < viewport::columns(widths, 0, at + 1)
        }),
    decreases widths.len() - i,
{
    if i < widths.len() && column >= viewport::columns(widths, 0, i + 1) {
        lemma_cell(widths, column, i + 1);
    }
}

/// The cell that a column shows starts at that column or in front of it, and ends
/// behind it. Behind the last cell there is none.
pub proof fn law_which_cell_a_column_shows(widths: Seq<usize>, column: int)
    requires
        0 <= column,
    ensures
        ({
            let at = output::column_cell(widths, column, 0);
            &&& 0 <= at <= widths.len()
            &&& viewport::columns(widths, 0, at) <= column
            &&& at < widths.len() ==> column < viewport::columns(widths, 0, at + 1)
        }),
{
    lemma_cell(widths, column, 0);
}

/// The bytes of a column of a part of a line are those of the cell that it shows;
/// behind the last cell they are none, at the end of the part.
pub proof fn law_which_bytes_a_column_shows(source: Seq<char>, start: int, end: int, column: int)
    requires
        0 <= column,
    ensures
        ({
            let cells = viewport::clusters(text::byte_slice(source, start, end));
            let widths = viewport::widths_of(cells);
            let bytes = output::cell_bytes(source, start, end, column);
            &&& viewport::columns(widths, 0, cells.len() as int) <= column ==> bytes == (end, end)
            &&& column < viewport::columns(widths, 0, cells.len() as int) ==> exists|i: int| {
                &&& 0 <= i < cells.len()
                &&& viewport::columns(widths, 0, i) <= column
                &&& column < viewport::columns(widths, 0, i + 1)
                &&& bytes.0 == start + text::byte_len(#[trigger] viewport::joined(cells, 0, i))
                &&& bytes.1 == start + text::byte_len(viewport::joined(cells, 0, i + 1))
            }
        }),
{
    let cells = viewport::clusters(text::byte_slice(source, start, end));
    let widths = viewport::widths_of(cells);
    law_which_cell_a_column_shows(widths, column);
    let at = output::column_cell(widths, column, 0);
    if at < widths.len() {
        lemma_columns_grow(widths, at + 1, widths.len() as int);
        assert(output::cell_bytes(source, start, end, column).0 == start + text::byte_len(
            viewport::joined(cells, 0, at),
        ));
    }
}

/// What a place in the output shows. Without wrapping, the column of its source
/// line that is scrolled there. With wrapping, a column of the part of the line
/// that its row shows; but on a row that continues a line, the first two columns
/// are the mark, which shows nothing, and the part starts behind it.
#[verifier::spinoff_prover]
pub proof fn law_what_a_place_shows(state: AppView, column: u16, row: u16, index: int)
    requires
        state.error is None,
        state.inner_area.x <= column < state.inner_area.x + state.inner_area.width,
        state.inner_area.y <= row < state.inner_area.y + state.inner_area.height,
        index == row - state.inner_area.y,
        index < state.rows.len(),
        state.rows[index].source_line < output::source_lines(state.screen.text).len(),
        state.output_pane.horizontal_offset + column < usize::MAX,
    ensures
        ({
            let shown = state.rows[index];
            let source = output::source_lines(state.screen.text)[shown.source_line as int];
            let across = column - state.inner_area.x;
            let found = state.cell_at(column, row);
            let bytes = if !state.wrap {
                output::cell_bytes(
                    source,
                    0,
                    text::byte_len(source) as int,
                    across + state.output_pane.horizontal_offset,
                )
            } else if !shown.continuation {
                output::cell_bytes(
                    source,
                    shown.start_byte as int,
                    shown.end_byte as int,
                    across,
                )
            } else if across < 2 {
                (shown.start_byte as int, shown.start_byte as int)
            } else {
                output::cell_bytes(
                    source,
                    shown.start_byte as int,
                    shown.end_byte as int,
                    across - 2,
                )
            };
            &&& found is Some
            &&& found->0.start.line == shown.source_line
            &&& found->0.end.line == shown.source_line
            &&& found->0.start.byte == bytes.0 as usize
            &&& found->0.end.byte == bytes.1 as usize
        }),
{
    assert(state.nearest_column(column as int) == column);
    assert(state.nearest_row(row as int) == row);
}

/// Whether `shown` is what is left of a run of cells in the columns
/// `offset..offset + width`: the cells from `i` to `j`, behind `gap` spaces for a
/// cell in front of them that is cut. Cell `i` is the first one that does not
/// start in front of `offset`, and cell `j` the first one that does not fit.
pub open spec fn is_clip(
    cells: Seq<Seq<char>>,
    widths: Seq<usize>,
    offset: int,
    width: int,
    i: int,
    j: int,
    gap: int,
    shown: Seq<char>,
) -> bool {
    let at = |k: int| viewport::columns(widths, 0, k);
    &&& 0 <= i <= j <= cells.len()
    &&& forall|k: int| 0 <= k < i ==> #[trigger] viewport::columns(widths, 0, k) < offset
    &&& i < cells.len() ==> at(i) >= offset
    &&& gap == if at(i) <= offset {
        0
    } else if at(i) - offset < width {
        at(i) - offset
    } else {
        width
    }
    &&& shown == viewport::spaces(gap) + viewport::joined(cells, i, j)
    &&& gap + (at(j) - at(i)) <= width
    &&& j < cells.len() ==> gap + (at(j + 1) - at(i)) > width
}

proof fn lemma_clip_rest(
    cells: Seq<Seq<char>>,
    widths: Seq<usize>,
    i: int,
    offset: int,
    width: int,
    visible: int,
) -> (j: int)
    requires
        cells.len() == widths.len(),
        forall|k: int| 0 <= k < widths.len() ==> #[trigger] widths[k] >= 1,
        viewport::columns(widths, 0, widths.len() as int) < usize::MAX,
        0 <= i <= cells.len(),
        viewport::columns(widths, 0, i) >= offset,
        0 <= visible <= width < usize::MAX,
    ensures
        i <= j <= cells.len(),
        viewport::clip_from(
            cells,
            widths,
            i,
            offset,
            width,
            viewport::columns(widths, 0, i),
            visible,
        ).content == viewport::joined(cells, i, j),
        visible + viewport::columns(widths, 0, j) - viewport::columns(widths, 0, i) <= width,
        j < cells.len() ==> visible + viewport::columns(widths, 0, j + 1) - viewport::columns(
            widths,
            0,
            i,
        ) > width,
    decreases cells.len() - i,
{
    let column = viewport::columns(widths, 0, i);
    let clip = viewport::clip_from(cells, widths, i, offset, width, column, visible);
    if i >= cells.len() {
        assert(clip.content =~= viewport::joined(cells, i, i));
        i
    } else {
        law_columns_add_up(widths, i);
        lemma_columns_grow(widths, i + 1, widths.len() as int);
        let now = visible + widths[i];
        assert(widths[i] >= 1);
        if now > width {
            assert(clip.content =~= viewport::joined(cells, i, i));
            i
        } else if now == width {
            assert(viewport::joined(cells, i, i) =~= Seq::<char>::empty());
            assert(clip.content =~= viewport::joined(cells, i, i + 1));
            if i + 1 < cells.len() {
                law_columns_add_up(widths, i + 1);
                assert(widths[i + 1] >= 1);
            }
            i + 1
        } else {
            let j = lemma_clip_rest(cells, widths, i + 1, offset, width, now);
            viewport::lemma_joined_split(cells, i, i + 1, j);
            assert(viewport::joined(cells, i, i) =~= Seq::<char>::empty());
            assert(viewport::joined(cells, i, i + 1) =~= cells[i]);
            assert(clip.content =~= viewport::joined(cells, i, j));
            j
        }
    }
}

proof fn lemma_clip_from(
    cells: Seq<Seq<char>>,
    widths: Seq<usize>,
    k: int,
    offset: int,
    width: int,
) -> (r: (int, int, int))
    requires
        cells.len() == widths.len(),
        forall|n: int| 0 <= n < widths.len() ==> #[trigger] widths[n] >= 1,
        viewport::columns(widths, 0, widths.len() as int) < usize::MAX,
        0 <= k <= cells.len(),
        forall|n: int| 0 <= n < k ==> #[trigger] viewport::columns(widths, 0, n) < offset,
        k > 0 ==> viewport::columns(widths, 0, k) <= offset,
        0 <= offset,
        0 <= width < usize::MAX,
    ensures
        is_clip(
            cells,
            widths,
            offset,
            width,
            r.0,
            r.1,
            r.2,
            viewport::clip_from(
                cells,
                widths,
                k,
                offset,
                width,
                viewport::columns(widths, 0, k),
                0,
            ).content,
        ),
    decreases cells.len() - k,
{
    let column = viewport::columns(widths, 0, k);
    let clip = viewport::clip_from(cells, widths, k, offset, width, column, 0);
    lemma_columns_grow(widths, 0, k);
    if k < cells.len() && column < offset {
        law_columns_add_up(widths, k);
        lemma_columns_grow(widths, k + 1, widths.len() as int);
        let end = viewport::columns(widths, 0, k + 1);
        if end <= offset {
            lemma_clip_from(cells, widths, k + 1, offset, width)
        } else {
            let gap = if end - offset < width {
                end - offset
            } else {
                width
            };
            if gap >= width {
                assert(viewport::joined(cells, k + 1, k + 1) =~= Seq::<char>::empty());
                assert(clip.content =~= viewport::spaces(gap) + viewport::joined(
                    cells,
                    k + 1,
                    k + 1,
                ));
                if k + 1 < cells.len() {
                    law_columns_add_up(widths, k + 1);
                    assert(widths[k + 1] >= 1);
                }
                (k + 1, k + 1, gap)
            } else {
                let j = lemma_clip_rest(cells, widths, k + 1, offset, width, gap);
                assert(clip.content =~= viewport::spaces(gap) + viewport::joined(cells, k + 1, j));
                (k + 1, j, gap)
            }
        }
    } else {
        if k < cells.len() {
            let j = lemma_clip_rest(cells, widths, k, offset, width, 0);
            assert(clip.content =~= viewport::spaces(0) + viewport::joined(cells, k, j));
            (k, j, 0)
        } else {
            assert(viewport::joined(cells, k, k) =~= Seq::<char>::empty());
            assert(clip.content =~= viewport::spaces(0) + viewport::joined(cells, k, k));
            (k, k, 0)
        }
    }
}

/// What is left of a run of cells in the columns that are in view: the cells that
/// lie in these columns as a whole, in their order; and spaces for the columns of
/// a cell that is cut on the left. A cell that would be cut on the right is left
/// out, with all that follows.
pub proof fn law_what_is_in_view(
    cells: Seq<Seq<char>>,
    widths: Seq<usize>,
    offset: int,
    width: int,
)
    requires
        cells.len() == widths.len(),
        forall|k: int| 0 <= k < widths.len() ==> #[trigger] widths[k] >= 1,
        viewport::columns(widths, 0, widths.len() as int) < usize::MAX,
        0 <= offset,
        0 <= width < usize::MAX,
    ensures
        exists|i: int, j: int, gap: int| #[trigger]
            is_clip(
                cells,
                widths,
                offset,
                width,
                i,
                j,
                gap,
                viewport::clip_from(cells, widths, 0, offset, width, 0, 0).content,
            ),
{
    let (i, j, gap) = lemma_clip_from(cells, widths, 0, offset, width);
}

/// A line that is clipped keeps its style. Its spans keep theirs, and one of which
/// nothing is in view is left out.
pub proof fn law_clipping_keeps_styles(line: LineView, span: SpanView, offset: int, width: int)
    ensures
        viewport::clipped(line, offset, width).style == line.style,
        viewport::clipped(line, offset, width).alignment == line.alignment,
        ({
            let content = viewport::clip_text(span.content, offset, width, 0, 0).content;
            let shown = viewport::clip_spans(seq![span], 0, offset, width, 0, 0);
            &&& content.len() > 0 ==> shown == seq![SpanView { content, style: span.style }]
            &&& content.len() == 0 ==> shown.len() == 0
        }),
{
    reveal_with_fuel(viewport::clip_spans, 2);
    let content = viewport::clip_text(span.content, offset, width, 0, 0).content;
    let shown = viewport::clip_spans(seq![span], 0, offset, width, 0, 0);
    if content.len() > 0 {
        assert(shown =~= seq![SpanView { content, style: span.style }]);
    }
}

proof fn lemma_styles(
    spans: Seq<SpanView>,
    i: int,
    offset: int,
    width: int,
    column: int,
    visible: int,
    k: int,
)
    requires
        0 <= i,
        0 <= k < viewport::clip_spans(spans, i, offset, width, column, visible).len(),
    ensures
        exists|n: int|
            i + k <= n < spans.len() && (#[trigger] spans[n]).style == viewport::clip_spans(
                spans,
                i,
                offset,
                width,
                column,
                visible,
            )[k].style,
    decreases spans.len() - i,
{
    if i < spans.len() {
        let clip = viewport::clip_text(spans[i].content, offset, width, column, visible);
        let rest = viewport::clip_spans(
            spans,
            i + 1,
            offset,
            width,
            clip.column,
            clip.visible,
        );
        let shown = viewport::clip_spans(spans, i, offset, width, column, visible);
        let done = clip.full || clip.visible >= width;
        if clip.content.len() > 0 {
            if k == 0 {
                assert(spans[i].style == shown[k].style);
            } else {
                lemma_styles(spans, i + 1, offset, width, clip.column, clip.visible, k - 1);
                assert(shown[k] == rest[k - 1]);
            }
        } else {
            lemma_styles(spans, i + 1, offset, width, clip.column, clip.visible, k);
            assert(shown =~= rest);
            let n = choose|n: int|
                i + 1 + k <= n < spans.len() && (#[trigger] spans[n]).style == rest[k].style;
            assert(spans[n].style == shown[k].style);
        }
    }
}

/// Each span that is left of a clipped line has the style of a span of the line.
pub proof fn law_clipped_spans_have_the_styles_of_the_line(
    line: LineView,
    offset: int,
    width: int,
    k: int,
)
    requires
        0 <= k < viewport::clipped(line, offset, width).spans.len(),
    ensures
        exists|n: int|
            k <= n < line.spans.len() && (#[trigger] line.spans[n]).style == viewport::clipped(
                line,
                offset,
                width,
            ).spans[k].style,
{
    lemma_styles(line.spans, 0, offset, width, 0, 0, k);
}

/// A number that lies in a range is kept, and any other one goes to the nearer
/// end.
pub proof fn law_nearest_in_a_range(n: int, low: int, high: int)
    requires
        low <= high,
    ensures
        low <= n <= high ==> app::within(n, low, high) == n,
        n < low ==> app::within(n, low, high) == low,
        n > high ==> app::within(n, low, high) == high,
{
}

} // verus!
