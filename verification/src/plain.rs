//! Plain text, of printable ASCII characters only: each character takes one
//! column, so that wrapping and clipping cut it by counting.
use vstd::prelude::*;

use crate::geometry;
use crate::output;
use crate::styled;
use crate::styled::SpanView;
use crate::text;
use crate::viewport;

verus! {

/// The rows, as ranges of characters, that `n` characters are wrapped into from
/// `start` on: the first one takes `available` of them, and the others
/// `continuation`. A row of width zero has no limit.
pub open spec fn ranges(n: int, start: int, available: int, continuation: int) -> Seq<(int, int)>
    decreases n - start,
{
    if start >= n {
        Seq::empty()
    } else if available <= 0 || n - start <= available {
        seq![(start, n)]
    } else {
        seq![(start, start + available)] + ranges(n, start + available, continuation, continuation)
    }
}

/// The rows of `n` characters. A first width of zero means that the first row
/// is as wide as the others.
pub open spec fn row_ranges(n: int, first: int, continuation: int) -> Seq<(int, int)> {
    ranges(
        n,
        0,
        if first == 0 {
            continuation
        } else {
            first
        },
        continuation,
    )
}

/// The rows that a plain text is wrapped into. An empty text is one empty row.
pub open spec fn rows(s: Seq<char>, first: int, continuation: int) -> Seq<Seq<char>> {
    if s.len() == 0 {
        seq![Seq::empty()]
    } else {
        row_ranges(s.len() as int, first, continuation).map_values(
            |r: (int, int)| s.subrange(r.0, r.1),
        )
    }
}

/// Whether every cell takes one column.
pub open spec fn all_one(widths: Seq<usize>) -> bool {
    forall|k: int| 0 <= k < widths.len() ==> #[trigger] widths[k] == 1
}

/// The characters of a plain text take one column each.
pub proof fn lemma_widths(s: Seq<char>, parts: Seq<&str>, widths: Seq<usize>)
    requires
        viewport::printable_ascii(s),
        viewport::str_views(parts) == viewport::singles(s),
        widths == viewport::widths_of(viewport::str_views(parts)),
        forall|k: int|
            #![trigger widths[k]]
            0 <= k < widths.len() && viewport::printable_ascii(parts[k]@) ==> widths[k]
                == parts[k]@.len(),
    ensures
        all_one(widths),
        widths.len() == s.len() == parts.len(),
{
    assert forall|k: int| 0 <= k < widths.len() implies #[trigger] widths[k] == 1 by {
        assert(viewport::str_views(parts)[k] == parts[k]@);
        assert(parts[k]@ == seq![s[k]]);
    }
}

/// Cells of one column are counted.
proof fn lemma_columns(widths: Seq<usize>, i: int, j: int)
    requires
        all_one(widths),
        0 <= i <= j <= widths.len() <= usize::MAX,
    ensures
        viewport::columns(widths, i, j) == j - i,
    decreases j - i,
{
    if i < j {
        lemma_columns(widths, i, j - 1);
    }
}

/// A row of cells of one column takes as many cells as it has columns.
proof fn lemma_row_end(widths: Seq<usize>, start: int, end: int, available: int)
    requires
        all_one(widths),
        0 <= start <= end <= widths.len() <= usize::MAX,
        start < widths.len(),
        0 <= available <= usize::MAX,
        available > 0 ==> end - start <= available,
    ensures
        viewport::row_end(widths, start, end, available) == if available == 0 || widths.len()
            - start <= available {
            widths.len() as int
        } else {
            start + available
        },
    decreases widths.len() - end,
{
    if end < widths.len() {
        lemma_columns(widths, start, end);
        lemma_columns(widths, start, end + 1);
        if !(available > 0 && end > start && end - start >= available) {
            lemma_row_end(widths, start, end + 1, available);
        }
    }
}

/// The rows of cells of one column.
pub proof fn lemma_rows_from(widths: Seq<usize>, start: int, available: int, continuation: int)
    requires
        all_one(widths),
        0 <= start <= widths.len() <= usize::MAX,
        0 <= available <= usize::MAX,
        0 <= continuation <= usize::MAX,
    ensures
        viewport::rows_from(widths, start, available, continuation) == ranges(
            widths.len() as int,
            start,
            available,
            continuation,
        ),
    decreases widths.len() - start,
{
    if start < widths.len() {
        lemma_row_end(widths, start, start, available);
        let end = viewport::row_end(widths, start, start, available);
        lemma_rows_from(widths, end, continuation, continuation);
        if end == widths.len() {
            assert(ranges(widths.len() as int, end, continuation, continuation) =~= Seq::empty());
            assert(seq![(start, end)] + Seq::<(int, int)>::empty() =~= seq![(start, end)]);
        }
    }
}

/// The rows lie in the text.
proof fn lemma_ranges_bounds(n: int, start: int, available: int, continuation: int, k: int)
    requires
        0 <= start <= n,
        0 <= k < ranges(n, start, available, continuation).len(),
    ensures
        ({
            let range = ranges(n, start, available, continuation)[k];
            start <= range.0 <= range.1 <= n
        }),
    decreases n - start,
{
    if start < n && available > 0 && n - start > available && k > 0 {
        lemma_ranges_bounds(n, start + available, continuation, continuation, k - 1);
    }
}

/// Characters of a text, joined, are a part of it.
pub proof fn lemma_joined(s: Seq<char>, i: int, j: int)
    requires
        0 <= i <= j <= s.len(),
    ensures
        viewport::joined(viewport::singles(s), i, j) == s.subrange(i, j),
    decreases j - i,
{
    if i < j {
        lemma_joined(s, i, j - 1);
        assert(s.subrange(i, j - 1) + seq![s[j - 1]] =~= s.subrange(i, j));
    } else {
        assert(s.subrange(i, j) =~= Seq::empty());
    }
}

/// A plain text has as many bytes as characters.
pub proof fn lemma_byte_len(s: Seq<char>)
    requires
        viewport::printable_ascii(s),
    ensures
        text::byte_len(s) == s.len(),
    decreases s.len(),
{
    if s.len() > 0 {
        let before = s.drop_last();
        lemma_byte_len(before);
        text::lemma_encode_push(before, s.last());
        assert(before.push(s.last()) =~= s);
    }
}

/// A plain text is wrapped by counting.
pub proof fn lemma_wrapped(s: Seq<char>, widths: Seq<usize>, first: int, continuation: int)
    requires
        all_one(widths),
        widths.len() == s.len() <= usize::MAX,
        0 <= first <= usize::MAX,
        0 <= continuation <= usize::MAX,
    ensures
        viewport::wrapped(
            viewport::singles(s),
            viewport::wrap_rows_spec(widths, first, continuation),
        ) == rows(s, first, continuation),
{
    let available = if first == 0 {
        continuation
    } else {
        first
    };
    lemma_rows_from(widths, 0, available, continuation);
    let n = s.len() as int;
    let cells = viewport::singles(s);
    let found = row_ranges(n, first, continuation);
    if n > 0 {
        assert forall|k: int| 0 <= k < found.len() implies viewport::joined(
            cells,
            (#[trigger] found[k]).0,
            found[k].1,
        ) == s.subrange(found[k].0, found[k].1) by {
            lemma_ranges_bounds(n, 0, available, continuation, k);
            lemma_joined(s, found[k].0, found[k].1);
        }
        assert(viewport::wrapped(cells, found) =~= rows(s, first, continuation));
    }
}

/// The byte ranges of the rows of a plain text are its ranges of characters.
pub proof fn lemma_wrapped_ranges(s: Seq<char>, widths: Seq<usize>, first: int, continuation: int)
    requires
        viewport::printable_ascii(s),
        all_one(widths),
        0 < s.len(),
        widths.len() == s.len() <= usize::MAX,
        0 <= first <= usize::MAX,
        0 <= continuation <= usize::MAX,
    ensures
        viewport::wrapped_ranges(
            viewport::singles(s),
            viewport::wrap_rows_spec(widths, first, continuation),
        ) == row_ranges(s.len() as int, first, continuation),
{
    let available = if first == 0 {
        continuation
    } else {
        first
    };
    lemma_rows_from(widths, 0, available, continuation);
    let n = s.len() as int;
    let cells = viewport::singles(s);
    let found = row_ranges(n, first, continuation);
    assert forall|k: int| 0 <= k < found.len() implies text::byte_len(
        viewport::joined(cells, 0, (#[trigger] found[k]).0),
    ) == found[k].0 && text::byte_len(viewport::joined(cells, 0, found[k].1)) == found[k].1 by {
        lemma_ranges_bounds(n, 0, available, continuation, k);
        lemma_joined(s, 0, found[k].0);
        lemma_joined(s, 0, found[k].1);
        lemma_byte_len(s.subrange(0, found[k].0));
        lemma_byte_len(s.subrange(0, found[k].1));
    }
    assert(viewport::wrapped_ranges(cells, found) =~= found);
}

/// `n`, brought into the range from 0 to `most`.
pub open spec fn bound(n: int, most: int) -> int {
    geometry::least(geometry::floor0(n), most)
}

/// The part of a plain text in the columns `offset..offset + width`.
pub open spec fn part(s: Seq<char>, offset: int, width: int) -> Seq<char> {
    s.subrange(bound(offset, s.len() as int), bound(offset + width, s.len() as int))
}

/// Whether all spans of a line are plain text. There are no more characters
/// than columns can be counted.
pub open spec fn plain_spans(spans: Seq<SpanView>) -> bool {
    &&& forall|k: int|
        0 <= k < spans.len() ==> viewport::printable_ascii((#[trigger] spans[k]).content)
    &&& styled::spans_text(spans, spans.len() as int).len() <= usize::MAX
}

/// What is shown of a plain text from character `i` on, where `column` columns
/// come before that character: the characters in the columns that are visible.
pub proof fn lemma_clip(
    s: Seq<char>,
    widths: Seq<usize>,
    i: int,
    offset: int,
    width: int,
    column: int,
)
    requires
        all_one(widths),
        widths.len() == s.len(),
        0 <= i <= s.len(),
        0 <= column,
        column + s.len() - i <= usize::MAX,
        0 <= offset <= usize::MAX,
        0 <= width <= usize::MAX,
        geometry::floor0(column - offset) <= width,
    ensures
        ({
            let visible = geometry::floor0(column - offset);
            let clip = viewport::clip_from(
                viewport::singles(s),
                widths,
                i,
                offset,
                width,
                column,
                visible,
            );
            let rest = s.len() - i;
            &&& clip.content == s.subrange(
                i + bound(offset - column, rest),
                i + bound(offset + width - column, rest),
            )
            &&& !clip.full ==> clip.column == column + rest && clip.visible == geometry::floor0(
                column + rest - offset,
            ) && clip.visible <= width
            &&& clip.full ==> column + rest >= offset + width
        }),
    decreases s.len() - i,
{
    let cells = viewport::singles(s);
    let visible = geometry::floor0(column - offset);
    let clip = viewport::clip_from(cells, widths, i, offset, width, column, visible);
    let rest = s.len() - i;
    let shown = s.subrange(
        i + bound(offset - column, rest),
        i + bound(offset + width - column, rest),
    );
    if i >= s.len() {
        assert(clip.content =~= shown);
    } else {
        assert(widths[i] == 1);
        assert(cells[i] == seq![s[i]]);
        if column < offset {
            lemma_clip(s, widths, i + 1, offset, width, column + 1);
            assert(clip.content =~= shown);
        } else if visible + 1 > width {
            assert(clip.content =~= shown);
        } else if visible + 1 >= width {
            assert(clip.content =~= shown);
        } else {
            lemma_clip(s, widths, i + 1, offset, width, column + 1);
            assert(clip.content =~= shown);
        }
    }
}

/// The visible part of a text goes on in what is appended to the text.
pub proof fn lemma_part_concat(a: Seq<char>, b: Seq<char>, offset: int, width: int)
    requires
        0 <= offset,
        0 <= width,
    ensures
        part(a + b, offset, width) == part(a, offset, width) + b.subrange(
            bound(offset - a.len(), b.len() as int),
            bound(offset + width - a.len(), b.len() as int),
        ),
        a.len() >= offset + width || width == 0 ==> part(a + b, offset, width) == part(
            a,
            offset,
            width,
        ),
{
    assert(part(a + b, offset, width) =~= part(a, offset, width) + b.subrange(
        bound(offset - a.len(), b.len() as int),
        bound(offset + width - a.len(), b.len() as int),
    ));
    if a.len() >= offset + width || width == 0 {
        assert(part(a + b, offset, width) =~= part(a, offset, width));
    }
}

/// Once the visible columns are filled, the spans from `i` on show nothing.
pub proof fn lemma_part_done(spans: Seq<SpanView>, i: int, n: int, offset: int, width: int)
    requires
        0 <= i <= n,
        0 <= offset,
        0 <= width,
        styled::spans_text(spans, i).len() >= offset + width || width == 0,
    ensures
        part(styled::spans_text(spans, n), offset, width) == part(
            styled::spans_text(spans, i),
            offset,
            width,
        ),
        styled::spans_text(spans, i).len() <= styled::spans_text(spans, n).len(),
    decreases n - i,
{
    if i < n {
        lemma_part_done(spans, i, n - 1, offset, width);
        lemma_part_concat(
            styled::spans_text(spans, n - 1),
            spans[n - 1].content,
            offset,
            width,
        );
    }
}

/// The first spans have no more text than all of them.
pub proof fn lemma_spans_text_grows(spans: Seq<SpanView>, i: int, n: int)
    requires
        0 <= i <= n,
    ensures
        styled::spans_text(spans, i).len() <= styled::spans_text(spans, n).len(),
    decreases n - i,
{
    if i < n {
        lemma_spans_text_grows(spans, i, n - 1);
    }
}

/// The text of the first spans does not depend on the others.
pub proof fn lemma_spans_text_prefix(spans: Seq<SpanView>, more: Seq<SpanView>, n: int)
    requires
        0 <= n <= spans.len() <= more.len(),
        forall|k: int| 0 <= k < n ==> spans[k] == more[k],
    ensures
        styled::spans_text(spans, n) == styled::spans_text(more, n),
    decreases n,
{
    if n > 0 {
        lemma_spans_text_prefix(spans, more, n - 1);
    }
}

/// The bytes `start..end` of a plain text that show column `column`, or the end
/// where they have no such column.
pub open spec fn cell(start: int, end: int, column: int) -> (int, int) {
    if start + column < end {
        (start + column, start + column + 1)
    } else {
        (end, end)
    }
}

/// The cell of one column that shows column `column` has that number.
pub proof fn lemma_column_cell(widths: Seq<usize>, column: int, i: int)
    requires
        all_one(widths),
        widths.len() <= usize::MAX,
        0 <= i <= widths.len(),
        i <= column,
    ensures
        output::column_cell(widths, column, i) == geometry::least(column, widths.len() as int),
    decreases widths.len() - i,
{
    if i < widths.len() {
        lemma_columns(widths, 0, i + 1);
        if column >= i + 1 {
            lemma_column_cell(widths, column, i + 1);
        }
    }
}

} // verus!
