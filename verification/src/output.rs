//! The output pane: its source lines, the rows that are visible, and the
//! selection of text in them.
use vstd::prelude::*;

use crate::geometry;
use crate::plain;
use crate::styled::{Color, Line, LineView, Span, SpanView, Style};
use crate::styled;
use crate::text;
use crate::viewport::clip_line;
use crate::viewport;

verus! {

/// The end of the output that scrolling counts from.
#[derive(Clone, Copy, Debug, PartialEq, Eq, Structural)]
pub enum ScrollAnchor {
    Top,
    Bottom,
}

/// Which of a job's output files is shown.
#[derive(Clone, Copy, Debug, PartialEq, Eq, Structural)]
pub enum OutputFileView {
    Stdout,
    Stderr,
}

impl Default for OutputFileView {
    fn default() -> (r: Self)
        ensures
            r == OutputFileView::Stdout,
    {
        OutputFileView::Stdout
    }
}

/// A position in the output: a source line, and a byte offset in it.
#[derive(Clone, Copy, Debug, PartialEq, Eq, Structural)]
pub struct OutputPoint {
    pub line: usize,
    pub byte: usize,
}

impl OutputPoint {
    /// Whether this point stands in front of `other`.
    pub open spec fn lt(self, other: OutputPoint) -> bool {
        self.line < other.line || (self.line == other.line && self.byte < other.byte)
    }

    /// Whether this point stands in front of `other`.
    pub fn is_before(self, other: OutputPoint) -> (r: bool)
        ensures
            r == self.lt(other),
    {
        self.line < other.line || (self.line == other.line && self.byte < other.byte)
    }
}

/// The part of the output that one cell of the screen shows.
#[derive(Clone, Copy, Debug, PartialEq, Eq, Structural)]
pub struct OutputCell {
    pub start: OutputPoint,
    pub end: OutputPoint,
}

/// A selected part of the output.
#[derive(Clone, Copy, Debug, PartialEq, Eq, Structural)]
pub struct OutputSelection {
    pub start: OutputPoint,
    pub end: OutputPoint,
}

/// A row of the output pane: the part of a source line that it shows, and
/// whether that line started on an earlier row.
#[derive(Clone, Copy, Debug, PartialEq, Eq, Structural)]
pub struct RenderedOutputLine {
    pub source_line: usize,
    pub start_byte: usize,
    pub end_byte: usize,
    pub continuation: bool,
}

/// The value of a [`RenderedOutputLine`].
pub struct Row {
    pub source_line: int,
    pub start_byte: int,
    pub end_byte: int,
    pub continuation: bool,
}

impl View for RenderedOutputLine {
    type V = Row;

    open spec fn view(&self) -> Row {
        Row {
            source_line: self.source_line as int,
            start_byte: self.start_byte as int,
            end_byte: self.end_byte as int,
            continuation: self.continuation,
        }
    }
}

/// The values of a sequence of rows.
pub open spec fn rows_view(rows: Seq<RenderedOutputLine>) -> Seq<Row> {
    rows.map_values(|r: RenderedOutputLine| r@)
}

/// The pieces of a line from index `from` on, cut at carriage returns.
pub open spec fn split_returns(line: Seq<char>, from: int) -> Seq<Seq<char>>
    decreases line.len() - from,
    when 0 <= from <= line.len()
    via split_returns_decreases
{
    let end = text::find(line, '\r', from);
    if end >= line.len() {
        seq![line.skip(from)]
    } else {
        seq![line.subrange(from, end)] + split_returns(line, end + 1)
    }
}

#[via_fn]
proof fn split_returns_decreases(line: Seq<char>, from: int) {
    text::lemma_find_bounds(line, '\r', from);
}

/// A line without the carriage return in front of its line feed.
pub open spec fn without_return(line: Seq<char>) -> Seq<char> {
    if line.len() > 0 && line.last() == '\r' {
        line.drop_last()
    } else {
        line
    }
}

/// The lines of a text from index `from` on. A line feed ends a line, with the
/// carriage return in front of it, and nothing after the last one is no line.
pub open spec fn lines(s: Seq<char>, from: int) -> Seq<Seq<char>>
    decreases s.len() - from,
    when 0 <= from
    via lines_decreases
{
    if from >= s.len() {
        Seq::empty()
    } else {
        let end = text::find(s, '\n', from);
        let line = s.subrange(from, end);
        if end >= s.len() {
            seq![line]
        } else {
            seq![without_return(line)] + lines(s, end + 1)
        }
    }
}

#[via_fn]
proof fn lines_decreases(s: Seq<char>, from: int) {
    if from < s.len() {
        text::lemma_find_bounds(s, '\n', from);
    }
}

/// The pieces of the first `n` lines, each cut at carriage returns.
pub open spec fn pieces(all: Seq<Seq<char>>, n: int) -> Seq<Seq<char>>
    decreases n,
{
    if n <= 0 {
        Seq::empty()
    } else {
        pieces(all, n - 1) + split_returns(all[n - 1], 0)
    }
}

/// The source lines of a text: its lines, each cut further at carriage returns.
pub open spec fn source_lines(s: Seq<char>) -> Seq<Seq<char>> {
    pieces(lines(s, 0), lines(s, 0).len() as int)
}

/// Appends the pieces of `line` to `lines`.
fn push_pieces<'a>(line: &'a str, lines: &mut Vec<&'a str>)
    ensures
        viewport::str_views(final(lines)@) == viewport::str_views(old(lines)@) + split_returns(
            line@,
            0,
        ),
{
    let ghost before = viewport::str_views(lines@);
    let ghost goal = before + split_returns(line@, 0);
    let mut from: usize = 0;
    let len: usize = line.as_bytes().len();
    proof {
        text::lemma_ends_on_boundary(line@);
    }
    loop
        invariant_except_break
            goal == viewport::str_views(lines@) + split_returns(
                line@,
                text::char_pos(line@, from as int),
            ),
        invariant
            from <= len,
            len == text::byte_len(line@),
            text::on_boundary(line@, from as int),
            0 <= text::char_pos(line@, from as int) <= line@.len(),
        ensures
            goal == viewport::str_views(lines@),
        decreases len - from,
    {
        let end: usize = text::find_ascii(line, '\r', from);
        let ghost i = text::char_pos(line@, from as int);
        let ghost j = text::char_pos(line@, end as int);
        proof {
            text::lemma_boundary(line@, end as int);
            text::lemma_byte_slice(line@, from as int, end as int);
            text::lemma_ends_on_boundary(line@);
            if end == len {
                assert(line@.subrange(i, j) =~= line@.skip(i));
            } else {
                text::lemma_byte_pos_mono(line@, j, j);
                text::lemma_boundary(line@, end + 1);
            }
        }
        let piece: &str = text::slice(line, from, end);
        let ghost so_far = viewport::str_views(lines@);
        lines.push(piece);
        assert(viewport::str_views(lines@) =~= so_far.push(piece@));
        if end >= len {
            assert(goal =~= viewport::str_views(lines@));
            break;
        }
        proof {
            assert(j < line@.len());
            assert(goal =~= viewport::str_views(lines@) + split_returns(line@, j + 1));
        }
        from = end + 1;
    }
}

/// The lines of a text.
pub fn text_lines(output: &str) -> (r: Vec<&str>)
    ensures
        viewport::str_views(r@) == lines(output@, 0),
{
    let ghost s = output@;
    let ghost goal = lines(s, 0);
    let mut found: Vec<&str> = Vec::new();
    let bytes: &[u8] = output.as_bytes();
    let len: usize = bytes.len();
    let mut from: usize = 0;
    proof {
        text::lemma_ends_on_boundary(s);
        assert(viewport::str_views(found@) + goal =~= goal);
        text::lemma_byte_len_bounds(s);
    }
    while from < len
        invariant_except_break
            from >= len ==> goal == viewport::str_views(found@),
            goal == viewport::str_views(found@) + lines(s, text::char_pos(s, from as int)),
        invariant
            s == output@,
            from <= len,
            bytes@ == vstd::utf8::encode_utf8(s),
            len == text::byte_len(s),
            text::on_boundary(s, from as int),
            0 <= text::char_pos(s, from as int) <= s.len(),
            text::byte_pos(s, text::char_pos(s, from as int)) == from,
        ensures
            goal == viewport::str_views(found@),
        decreases len - from,
    {
        let ghost i = text::char_pos(s, from as int);
        let end: usize = text::find_ascii(output, '\n', from);
        let ghost j = text::char_pos(s, end as int);
        let ghost so_far = viewport::str_views(found@);
        proof {
            text::lemma_boundary(s, end as int);
            text::lemma_byte_slice(s, from as int, end as int);
            text::lemma_ends_on_boundary(s);
            if i == s.len() {
                text::lemma_byte_pos_mono(s, i, i);
            }
        }
        if end >= len {
            let line: &str = text::slice(output, from, end);
            found.push(line);
            assert(viewport::str_views(found@) =~= so_far.push(line@));
            assert(goal =~= viewport::str_views(found@));
            break;
        }
        let mut stop: usize = end;
        if end > from {
            let last: usize = text::previous_boundary(output, end);
            proof {
                text::lemma_boundary(s, last as int);
                text::lemma_byte_slice(s, last as int, end as int);
                if j - 1 < i {
                    text::lemma_byte_pos_mono(s, j, i);
                } else {
                    text::lemma_byte_pos_mono(s, i, j - 1);
                }
                text::lemma_ascii_byte(s, j - 1, '\r');
            }
            if bytes[last] == 0x0d {
                stop = last;
            }
        }
        proof {
            if end == from {
                assert(i == j);
            }
            text::lemma_byte_slice(s, from as int, stop as int);
            assert(text::byte_slice(s, from as int, stop as int) =~= without_return(
                s.subrange(i, j),
            ));
        }
        let line: &str = text::slice(output, from, stop);
        found.push(line);
        assert(viewport::str_views(found@) =~= so_far.push(line@));
        proof {
            text::lemma_byte_pos_mono(s, j, j);
            text::lemma_boundary(s, end + 1);
            assert(j < s.len());
            assert(goal =~= viewport::str_views(found@) + lines(s, j + 1));
        }
        from = end + 1;
        proof {
            if from >= len {
                let k = text::char_pos(s, from as int);
                if k < s.len() {
                    text::lemma_byte_pos_mono(s, k, s.len() as int);
                }
                assert(goal =~= viewport::str_views(found@));
            }
        }
    }
    found
}

/// The source lines of the output.
pub fn output_lines(output: &str) -> (r: Vec<&str>)
    ensures
        viewport::str_views(r@) == source_lines(output@),
{
    let whole: Vec<&str> = text_lines(output);
    let ghost all = lines(output@, 0);
    let mut found: Vec<&str> = Vec::new();
    let mut i: usize = 0;
    assert(viewport::str_views(found@) =~= pieces(all, 0));
    while i < whole.len()
        invariant
            i <= whole@.len(),
            viewport::str_views(whole@) == all,
            viewport::str_views(found@) == pieces(all, i as int),
        decreases whole@.len() - i,
    {
        assert(whole@[i as int]@ == all[i as int]);
        push_pieces(whole[i], &mut found);
        i += 1;
    }
    found
}

/// The rows `rows` of the pieces of a text, as byte ranges.
pub fn row_ranges(parts: &Vec<&str>, rows: &Vec<(usize, usize)>) -> (r: Vec<(usize, usize)>)
    requires
        forall|k: int|
            0 <= k < rows@.len() ==> (#[trigger] rows@[k]).0 <= rows@[k].1 <= parts@.len(),
        text::byte_len(
            viewport::joined(viewport::str_views(parts@), 0, parts@.len() as int),
        ) <= usize::MAX,
    ensures
        viewport::row_views(r@) == viewport::wrapped_ranges(
            viewport::str_views(parts@),
            viewport::row_views(rows@),
        ),
{
    let ghost cells = viewport::str_views(parts@);
    let ghost goal = viewport::wrapped_ranges(cells, viewport::row_views(rows@));
    let mut ranges: Vec<(usize, usize)> = Vec::new();
    if parts.len() == 0 {
        ranges.push((0, 0));
        assert(viewport::row_views(ranges@) =~= goal);
        return ranges;
    }
    let mut offsets: Vec<usize> = Vec::new();
    offsets.push(0);
    let mut i: usize = 0;
    while i < parts.len()
        invariant
            i <= parts@.len(),
            cells == viewport::str_views(parts@),
            text::byte_len(viewport::joined(cells, 0, parts@.len() as int)) <= usize::MAX,
            offsets@.len() == i + 1,
            forall|k: int|
                0 <= k <= i ==> #[trigger] offsets@[k] == text::byte_len(
                    viewport::joined(cells, 0, k),
                ),
        decreases parts@.len() - i,
    {
        let part: &str = parts[i];
        proof {
            assert(part@ == cells[i as int]);
            text::lemma_encode_concat(viewport::joined(cells, 0, i as int), part@);
            viewport::lemma_joined_split(cells, 0, i + 1, parts@.len() as int);
            text::lemma_encode_concat(
                viewport::joined(cells, 0, i + 1),
                viewport::joined(cells, i + 1, parts@.len() as int),
            );
        }
        let size: usize = part.as_bytes().len();
        let next: usize = offsets[i] + size;
        offsets.push(next);
        i += 1;
    }
    let mut k: usize = 0;
    while k < rows.len()
        invariant
            k <= rows@.len(),
            cells == viewport::str_views(parts@),
            cells.len() > 0,
            goal == viewport::wrapped_ranges(cells, viewport::row_views(rows@)),
            offsets@.len() == parts@.len() + 1,
            forall|k: int|
                0 <= k <= parts@.len() ==> #[trigger] offsets@[k] == text::byte_len(
                    viewport::joined(cells, 0, k),
                ),
            forall|k: int|
                0 <= k < rows@.len() ==> (#[trigger] rows@[k]).0 <= rows@[k].1 <= parts@.len(),
            viewport::row_views(ranges@) == goal.take(k as int),
        decreases rows@.len() - k,
    {
        let (from, to) = rows[k];
        let ghost before = viewport::row_views(ranges@);
        ranges.push((offsets[from], offsets[to]));
        proof {
            assert(viewport::row_views(rows@)[k as int] == (from as int, to as int));
            assert(viewport::row_views(ranges@) =~= before.push(
                (offsets@[from as int] as int, offsets@[to as int] as int),
            ));
            assert(goal.take(k + 1) =~= goal.take(k as int).push(goal[k as int]));
        }
        k += 1;
    }
    assert(goal.take(k as int) =~= goal);
    ranges
}

/// The rows that `line` is wrapped into, as byte ranges.
pub open spec fn line_ranges(line: Seq<char>, first: int, continuation: int) -> Seq<(int, int)> {
    viewport::wrapped_ranges(
        viewport::clusters(line),
        viewport::text_rows(line, first, continuation),
    )
}

/// Whether ranges of bytes of `line` lie between characters.
pub open spec fn ranges_fit(ranges: Seq<(int, int)>, line: Seq<char>) -> bool {
    forall|k: int|
        0 <= k < ranges.len() ==> {
            &&& 0 <= (#[trigger] ranges[k]).0 <= ranges[k].1 <= text::byte_len(line)
            &&& text::on_boundary(line, ranges[k].0)
            &&& text::on_boundary(line, ranges[k].1)
        }
}

/// Wraps `text` into rows of `first_width` and then `continuation_width`
/// columns, as byte ranges. Plain text is wrapped by counting its characters.
pub fn wrap_byte_ranges(text: &str, first_width: usize, continuation_width: usize) -> (r: Vec<
    (usize, usize),
>)
    ensures
        viewport::row_views(r@) == line_ranges(
            text@,
            first_width as int,
            continuation_width as int,
        ),
        ranges_fit(viewport::row_views(r@), text@),
        text@.len() > 0 ==> viewport::tiles(
            viewport::row_views(r@),
            0,
            text::byte_len(text@) as int,
        ),
        text@.len() == 0 ==> viewport::row_views(r@) == seq![(0int, 0int)],
        text@.len() > 0 && viewport::printable_ascii(text@) ==> viewport::row_views(r@)
            == plain::row_ranges(
            text@.len() as int,
            first_width as int,
            continuation_width as int,
        ),
{
    let parts: Vec<&str> = viewport::graphemes(text);
    let widths: Vec<usize> = viewport::measure(&parts);
    let rows: Vec<(usize, usize)> = viewport::wrap_rows(&widths, first_width, continuation_width);
    let len: usize = text.as_bytes().len();
    let ghost cells = viewport::str_views(parts@);
    proof {
        let available = if first_width == 0 {
            continuation_width as int
        } else {
            first_width as int
        };
        viewport::law_rows_tile(widths@, 0, available, continuation_width as int);
        assert forall|k: int| 0 <= k < rows@.len() implies (#[trigger] rows@[k]).0 <= rows@[k].1
            <= parts@.len() by {
            assert(viewport::row_views(rows@)[k] == (rows@[k].0 as int, rows@[k].1 as int));
        }
    }
    let ranges: Vec<(usize, usize)> = row_ranges(&parts, &rows);
    proof {
        lemma_ranges(cells, viewport::row_views(rows@));
        if parts@.len() > 0 {
            let last = parts@.len() - 1;
            assert(cells[last] == parts@[last]@);
            assert(text@ == viewport::joined(cells, 0, last) + cells[last]);
        }
        assert forall|i: int| 0 <= i < cells.len() implies (#[trigger] cells[i]).len() > 0 by {
            assert(cells[i] == parts@[i]@);
        }
        if cells.len() > 0 {
            lemma_ranges_tile(cells, viewport::row_views(rows@));
            if viewport::printable_ascii(text@) {
                plain::lemma_widths(text@, parts@, widths@);
                plain::lemma_wrapped_ranges(
                    text@,
                    widths@,
                    first_width as int,
                    continuation_width as int,
                );
            }
        }
    }
    ranges
}

/// Wrapped ranges lie between characters.
proof fn lemma_ranges(cells: Seq<Seq<char>>, rows: Seq<(int, int)>)
    requires
        viewport::tiles(rows, 0, cells.len() as int),
    ensures
        ranges_fit(
            viewport::wrapped_ranges(cells, rows),
            viewport::joined(cells, 0, cells.len() as int),
        ),
{
    let s = viewport::joined(cells, 0, cells.len() as int);
    let ranges = viewport::wrapped_ranges(cells, rows);
    assert forall|k: int| 0 <= k < ranges.len() implies {
        &&& 0 <= (#[trigger] ranges[k]).0 <= ranges[k].1 <= text::byte_len(s)
        &&& text::on_boundary(s, ranges[k].0)
        &&& text::on_boundary(s, ranges[k].1)
    } by {
        viewport::law_rows_and_ranges_agree(cells, rows, k);
        text::lemma_boundary(s, ranges[k].1);
        if cells.len() > 0 {
            let (i, j) = rows[k];
            viewport::lemma_joined_split(cells, 0, i, j);
            text::lemma_encode_concat(
                viewport::joined(cells, 0, i),
                viewport::joined(cells, i, j),
            );
        }
    }
}

/// Wrapped ranges tile the bytes of the text.
pub proof fn lemma_ranges_tile(cells: Seq<Seq<char>>, rows: Seq<(int, int)>)
    requires
        cells.len() > 0,
        viewport::tiles(rows, 0, cells.len() as int),
        forall|i: int| 0 <= i < cells.len() ==> (#[trigger] cells[i]).len() > 0,
    ensures
        viewport::tiles(
            viewport::wrapped_ranges(cells, rows),
            0,
            text::byte_len(viewport::joined(cells, 0, cells.len() as int)) as int,
        ),
{
    let s = viewport::joined(cells, 0, cells.len() as int);
    let ranges = viewport::wrapped_ranges(cells, rows);
    lemma_ranges(cells, rows);
    assert(viewport::joined(cells, 0, 0) =~= Seq::<char>::empty());
    assert forall|k: int| 0 <= k < ranges.len() implies 0 <= (#[trigger] ranges[k]).0
        < ranges[k].1 <= text::byte_len(s) by {
        let (i, j) = rows[k];
        viewport::lemma_joined_split(cells, 0, i, j);
        text::lemma_encode_concat(viewport::joined(cells, 0, i), viewport::joined(cells, i, j));
        assert(cells[j - 1].len() > 0);
        text::lemma_byte_len_bounds(viewport::joined(cells, i, j));
    }
    assert forall|j: int, k: int|
        #![trigger ranges[j], ranges[k]]
        0 <= j && k == j + 1 && k < ranges.len() implies ranges[j].1 == ranges[k].0 by {
        assert(rows[j].1 == rows[k].0);
    }
    assert(rows.last() == rows[rows.len() - 1]);
    assert(ranges.last() == ranges[rows.len() - 1]);
}

/// The rows that show source line `index`: its wrapped rows, or the whole line
/// as one row.
pub open spec fn line_rows(line: Seq<char>, index: int, width: int, wrap: bool) -> Seq<Row> {
    let ranges = if wrap {
        line_ranges(line, width, geometry::floor0(width - 2))
    } else {
        seq![(0int, text::byte_len(line) as int)]
    };
    Seq::new(
        ranges.len(),
        |k: int|
            Row {
                source_line: index,
                start_byte: ranges[k].0,
                end_byte: ranges[k].1,
                continuation: k > 0,
            },
    )
}

/// The rows that show the source lines `a..b`.
pub open spec fn rows_between(
    lines: Seq<Seq<char>>,
    a: int,
    b: int,
    width: int,
    wrap: bool,
) -> Seq<Row>
    decreases b - a,
{
    if b <= a {
        Seq::empty()
    } else {
        rows_between(lines, a, b - 1, width, wrap) + line_rows(lines[b - 1], b - 1, width, wrap)
    }
}

/// The rows that are visible. From the top, the first rows of the lines from
/// `offset` on; from the bottom, the last rows of all lines but the last
/// `offset`. There are up to `height` of them, and one where `height` is zero.
pub open spec fn visible_rows(
    lines: Seq<Seq<char>>,
    height: int,
    width: int,
    anchor: ScrollAnchor,
    offset: int,
    wrap: bool,
) -> Seq<Row> {
    let count = if height > 0 {
        height
    } else {
        1
    };
    match anchor {
        ScrollAnchor::Top => {
            let rows = rows_between(lines, offset, lines.len() as int, width, wrap);
            rows.take(geometry::least(rows.len() as int, count))
        },
        ScrollAnchor::Bottom => {
            let rows = rows_between(lines, 0, lines.len() - offset, width, wrap);
            rows.skip(geometry::floor0(rows.len() - count))
        },
    }
}

/// Whether rows show parts of the source lines, cut between characters.
pub open spec fn rows_fit(rows: Seq<Row>, lines: Seq<Seq<char>>) -> bool {
    forall|k: int| 0 <= k < rows.len() ==> row_fits(#[trigger] rows[k], lines)
}

/// Whether a row shows a part of a source line, cut between characters.
pub open spec fn row_fits(row: Row, lines: Seq<Seq<char>>) -> bool {
    &&& 0 <= row.source_line < lines.len()
    &&& 0 <= row.start_byte <= row.end_byte <= text::byte_len(lines[row.source_line])
    &&& text::on_boundary(lines[row.source_line], row.start_byte)
    &&& text::on_boundary(lines[row.source_line], row.end_byte)
}

proof fn lemma_rows_split(
    lines: Seq<Seq<char>>,
    a: int,
    m: int,
    b: int,
    width: int,
    wrap: bool,
)
    requires
        a <= m <= b,
    ensures
        rows_between(lines, a, b, width, wrap) == rows_between(lines, a, m, width, wrap)
            + rows_between(lines, m, b, width, wrap),
    decreases b - m,
{
    if m < b {
        lemma_rows_split(lines, a, m, b - 1, width, wrap);
    }
    assert(rows_between(lines, a, b, width, wrap) =~= rows_between(lines, a, m, width, wrap)
        + rows_between(lines, m, b, width, wrap));
}

/// The rows of one source line.
fn rows_of_line(lines: &[&str], index: usize, width: usize, wrap: bool) -> (r: Vec<
    RenderedOutputLine,
>)
    requires
        index < lines@.len(),
    ensures
        rows_view(r@) == line_rows(lines@[index as int]@, index as int, width as int, wrap),
        rows_fit(rows_view(r@), viewport::str_views(lines@)),
{
    let line: &str = lines[index];
    let mut ranges: Vec<(usize, usize)> = Vec::new();
    let len: usize = line.as_bytes().len();
    if wrap {
        ranges = wrap_byte_ranges(line, width, width.saturating_sub(2));
    } else {
        ranges.push((0, len));
        proof {
            text::lemma_ends_on_boundary(line@);
            assert(viewport::row_views(ranges@) =~= seq![(0int, len as int)]);
        }
    }
    let ghost goal = line_rows(line@, index as int, width as int, wrap);
    let mut rows: Vec<RenderedOutputLine> = Vec::new();
    let mut k: usize = 0;
    while k < ranges.len()
        invariant
            k <= ranges@.len(),
            index < lines@.len(),
            line == lines@[index as int],
            goal == line_rows(line@, index as int, width as int, wrap),
            viewport::row_views(ranges@) == (if wrap {
                line_ranges(line@, width as int, geometry::floor0(width - 2))
            } else {
                seq![(0int, text::byte_len(line@) as int)]
            }),
            ranges_fit(viewport::row_views(ranges@), line@),
            rows_view(rows@) == goal.take(k as int),
            rows_fit(rows_view(rows@), viewport::str_views(lines@)),
        decreases ranges@.len() - k,
    {
        let (from, to) = ranges[k];
        let row: RenderedOutputLine = RenderedOutputLine {
            source_line: index,
            start_byte: from,
            end_byte: to,
            continuation: k > 0,
        };
        let ghost before = rows_view(rows@);
        rows.push(row);
        proof {
            assert(viewport::row_views(ranges@)[k as int] == (from as int, to as int));
            assert(viewport::str_views(lines@)[index as int] == line@);
            assert(rows_view(rows@) =~= before.push(row@));
            assert(row_fits(row@, viewport::str_views(lines@)));
            assert(goal.take(k + 1) =~= goal.take(k as int).push(goal[k as int]));
        }
        k += 1;
    }
    assert(goal.take(k as int) =~= goal);
    rows
}

/// The rows of the output pane, which is `height` rows high and `width` columns
/// wide, scrolled by `offset` lines from `anchor`.
pub fn visible_output_lines(
    source_lines: &[&str],
    height: usize,
    width: usize,
    anchor: ScrollAnchor,
    offset: usize,
    wrap: bool,
) -> (r: Vec<RenderedOutputLine>)
    ensures
        rows_view(r@) == visible_rows(
            viewport::str_views(source_lines@),
            height as int,
            width as int,
            anchor,
            offset as int,
            wrap,
        ),
        rows_fit(rows_view(r@), viewport::str_views(source_lines@)),
{
    match anchor {
        ScrollAnchor::Top => first_rows(source_lines, height, width, offset, wrap),
        ScrollAnchor::Bottom => last_rows(source_lines, height, width, offset, wrap),
    }
}

fn first_rows(source_lines: &[&str], height: usize, width: usize, offset: usize, wrap: bool) -> (r:
    Vec<RenderedOutputLine>)
    ensures
        rows_view(r@) == visible_rows(
            viewport::str_views(source_lines@),
            height as int,
            width as int,
            ScrollAnchor::Top,
            offset as int,
            wrap,
        ),
        rows_fit(rows_view(r@), viewport::str_views(source_lines@)),
{
    let ghost lines = viewport::str_views(source_lines@);
    let ghost n = lines.len() as int;
    let ghost all = rows_between(lines, offset as int, n, width as int, wrap);
    let count: usize = if height > 0 {
        height
    } else {
        1
    };
    let mut rendered: Vec<RenderedOutputLine> = Vec::new();
    let mut i: usize = offset;
    assert(rows_view(rendered@) =~= Seq::<Row>::empty());
    while i < source_lines.len()
        invariant
            lines == viewport::str_views(source_lines@),
            n == lines.len(),
            all == rows_between(lines, offset as int, n, width as int, wrap),
            offset <= i,
            i <= n || i == offset,
            rendered@.len() < count,
            rows_view(rendered@) == rows_between(
                lines,
                offset as int,
                i as int,
                width as int,
                wrap,
            ),
            rows_fit(rows_view(rendered@), lines),
            count == (if height > 0 {
                height
            } else {
                1
            }),
        decreases n - i,
    {
        let rows: Vec<RenderedOutputLine> = rows_of_line(source_lines, i, width, wrap);
        let ghost base = rows_view(rendered@);
        let ghost here = line_rows(lines[i as int], i as int, width as int, wrap);
        let mut k: usize = 0;
        while k < rows.len()
            invariant
                i < n,
                offset <= i,
                lines == viewport::str_views(source_lines@),
                n == lines.len(),
                all == rows_between(lines, offset as int, n, width as int, wrap),
                here == line_rows(lines[i as int], i as int, width as int, wrap),
                base == rows_between(lines, offset as int, i as int, width as int, wrap),
                rows_view(rows@) == here,
                rows_fit(here, lines),
                k <= rows@.len(),
                rendered@.len() < count,
                rows_view(rendered@) == base + here.take(k as int),
                rows_fit(rows_view(rendered@), lines),
                count == (if height > 0 {
                    height
                } else {
                    1
                }),
            decreases rows@.len() - k,
        {
            let row: RenderedOutputLine = rows[k];
            let ghost before = rows_view(rendered@);
            rendered.push(row);
            proof {
                assert(here[k as int] == row@);
                assert(rows_view(rendered@) =~= before.push(row@));
                assert(rows_view(rendered@) =~= base + here.take(k + 1));
            }
            k += 1;
            if rendered.len() >= count {
                proof {
                    lemma_rows_split(
                        lines,
                        offset as int,
                        i + 1,
                        n,
                        width as int,
                        wrap,
                    );
                    assert(rows_view(rendered@) =~= all.take(count as int));
                }
                return rendered;
            }
        }
        assert(base + here.take(k as int) =~= base + here);
        i += 1;
    }
    assert(rows_view(rendered@) =~= all.take(all.len() as int));
    rendered
}

/// Rows collected from the last one up, extended by the row in front of them.
proof fn lemma_grow_front(collected: Seq<Row>, row: Row, rows: Seq<Row>, k: int, below: Seq<Row>)
    requires
        0 <= k < rows.len(),
        rows[k] == row,
        collected.reverse() == rows.skip(k + 1) + below,
    ensures
        collected.push(row).reverse() == rows.skip(k) + below,
{
    assert(collected.push(row).reverse() =~= seq![row] + collected.reverse());
    assert(rows.skip(k) =~= seq![row] + rows.skip(k + 1));
    assert(seq![row] + (rows.skip(k + 1) + below) =~= seq![row] + rows.skip(k + 1) + below);
}

#[verifier::spinoff_prover]
fn last_rows(source_lines: &[&str], height: usize, width: usize, offset: usize, wrap: bool) -> (r:
    Vec<RenderedOutputLine>)
    ensures
        rows_view(r@) == visible_rows(
            viewport::str_views(source_lines@),
            height as int,
            width as int,
            ScrollAnchor::Bottom,
            offset as int,
            wrap,
        ),
        rows_fit(rows_view(r@), viewport::str_views(source_lines@)),
{
    let ghost lines = viewport::str_views(source_lines@);
    let top: usize = source_lines.len().saturating_sub(offset);
    let ghost all = rows_between(lines, 0, top as int, width as int, wrap);
    let count: usize = if height > 0 {
        height
    } else {
        1
    };
    proof {
        if lines.len() < offset {
            assert(rows_between(lines, 0, lines.len() - offset, width as int, wrap) =~= all);
        }
    }
    let mut rendered: Vec<RenderedOutputLine> = Vec::new();
    let mut i: usize = top;
    assert(rows_view(rendered@).reverse() =~= Seq::<Row>::empty());
    while i > 0 && rendered.len() < count
        invariant
            lines == viewport::str_views(source_lines@),
            i <= top <= lines.len(),
            all == rows_between(lines, 0, top as int, width as int, wrap),
            rendered@.len() <= count,
            1 <= count,
            rendered@.len() < count ==> rows_view(rendered@).reverse() == rows_between(
                lines,
                i as int,
                top as int,
                width as int,
                wrap,
            ),
            rendered@.len() == count ==> count <= all.len() && rows_view(rendered@).reverse()
                == all.skip(all.len() - count),
            rows_fit(rows_view(rendered@), lines),
        decreases i,
    {
        i -= 1;
        let rows: Vec<RenderedOutputLine> = rows_of_line(source_lines, i, width, wrap);
        let ghost below = rows_view(rendered@).reverse();
        let ghost here = line_rows(lines[i as int], i as int, width as int, wrap);
        let mut k: usize = rows.len();
        assert(here.skip(k as int) + below =~= below);
        while k > 0 && rendered.len() < count
            invariant
                rows_view(rows@) == here,
                rows_fit(here, lines),
                k <= rows@.len(),
                rendered@.len() <= count,
                rows_view(rendered@).reverse() == here.skip(k as int) + below,
                rows_fit(rows_view(rendered@), lines),
            decreases k,
        {
            k -= 1;
            let row: RenderedOutputLine = rows[k];
            let ghost before = rows_view(rendered@);
            rendered.push(row);
            proof {
                assert(here[k as int] == row@);
                assert(rows_view(rendered@) =~= before.push(row@));
                lemma_grow_front(before, row@, here, k as int, below);
            }
        }
        proof {
            lemma_rows_split(lines, i as int, i + 1, top as int, width as int, wrap);
            assert(rows_between(lines, i as int, i as int, width as int, wrap) =~= Seq::<
                Row,
            >::empty());
            assert(rows_between(lines, i as int, i + 1, width as int, wrap) =~= here);
            lemma_rows_split(lines, 0, i as int, top as int, width as int, wrap);
            let shown = rows_view(rendered@).reverse();
            assert(shown.len() == rendered@.len());
            if rendered@.len() < count {
                assert(shown =~= here + below);
            } else {
                assert(here.skip(k as int) + below =~= (here + below).skip(k as int));
                assert(shown =~= all.skip(all.len() - count));
            }
        }
    }
    let mut result: Vec<RenderedOutputLine> = Vec::new();
    let mut j: usize = rendered.len();
    while j > 0
        invariant
            j <= rendered@.len(),
            result@ == rendered@.skip(j as int).reverse(),
            rows_fit(rows_view(rendered@), lines),
            rows_fit(rows_view(result@), lines),
        decreases j,
    {
        j -= 1;
        let row: RenderedOutputLine = rendered[j];
        let ghost before = result@;
        result.push(row);
        proof {
            assert(rendered@.skip(j as int) =~= seq![row] + rendered@.skip(j + 1));
            assert(result@ =~= rendered@.skip(j as int).reverse());
            assert(rows_view(rendered@)[j as int] == row@);
            assert(rows_view(result@) =~= rows_view(before).push(row@));
        }
    }
    proof {
        assert(rendered@.skip(0) =~= rendered@);
        assert(rows_view(result@) =~= rows_view(rendered@).reverse());
        assert(all.skip(0) =~= all);
    }
    result
}

/// The style of selected text.
pub open spec fn selection_style() -> Style {
    Style { fg: Some(Color::Black), bg: Some(Color::LightBlue), ..styled::plain() }
}

/// Whether the position `byte` of line `line` stands in front of `point`.
pub open spec fn in_front_of(line: int, byte: int, point: OutputPoint) -> bool {
    line < point.line || (line == point.line && byte < point.byte)
}

/// Whether the position `byte` of line `line` stands behind `point`.
pub open spec fn behind(line: int, byte: int, point: OutputPoint) -> bool {
    line > point.line || (line == point.line && byte > point.byte)
}

/// Whether the bytes `from..to` of a source line meet the selection.
pub open spec fn selected(
    selection: Option<OutputSelection>,
    line: int,
    from: int,
    to: int,
) -> bool {
    match selection {
        Some(s) => in_front_of(line, from, s.end) && behind(line, to, s.start),
        None => false,
    }
}

/// The spans of the cells of a source line, of which the first one starts at
/// byte `base`: a span for each, in the selection's style where it is selected.
pub open spec fn spans_of_cells(
    cells: Seq<Seq<char>>,
    base: int,
    line: int,
    selection: Option<OutputSelection>,
) -> Seq<SpanView> {
    Seq::new(
        cells.len(),
        |i: int|
            SpanView {
                content: cells[i],
                style: if selected(
                    selection,
                    line,
                    base + text::byte_len(viewport::joined(cells, 0, i)),
                    base + text::byte_len(viewport::joined(cells, 0, i + 1)),
                ) {
                    selection_style()
                } else {
                    styled::plain()
                },
            },
    )
}

/// What stands in front of a row that continues a line.
pub open spec fn continuation_mark() -> SpanView {
    SpanView { content: "↪ "@, style: Style { dim: true, ..styled::plain() } }
}

/// A row of the output pane as styled text: the part of its line that it shows,
/// or, where lines are not wrapped, the columns of its line that are in view.
pub open spec fn row_line(
    source: Seq<char>,
    row: Row,
    width: int,
    horizontal_offset: int,
    wrap: bool,
    selection: Option<OutputSelection>,
) -> LineView {
    if wrap {
        let cells = viewport::clusters(text::byte_slice(source, row.start_byte, row.end_byte));
        let spans = spans_of_cells(cells, row.start_byte, row.source_line, selection);
        styled::plain_line(
            if row.continuation {
                seq![continuation_mark()] + spans
            } else {
                spans
            },
        )
    } else {
        let cells = viewport::clusters(source);
        viewport::clipped(
            styled::plain_line(spans_of_cells(cells, 0, row.source_line, selection)),
            horizontal_offset,
            width,
        )
    }
}

/// The spans of `parts`, which are the cells of source line `line` from byte
/// `base` on.
pub fn cell_spans(
    parts: &Vec<&str>,
    base: usize,
    line: usize,
    selection: Option<OutputSelection>,
) -> (r: Vec<Span>)
    requires
        base + text::byte_len(
            viewport::joined(viewport::str_views(parts@), 0, parts@.len() as int),
        ) <= usize::MAX,
    ensures
        styled::span_views(r@) == spans_of_cells(
            viewport::str_views(parts@),
            base as int,
            line as int,
            selection,
        ),
{
    let ghost cells = viewport::str_views(parts@);
    let ghost goal = spans_of_cells(cells, base as int, line as int, selection);
    let mut spans: Vec<Span> = Vec::new();
    let mut from: usize = base;
    let mut i: usize = 0;
    while i < parts.len()
        invariant
            i <= parts@.len(),
            cells == viewport::str_views(parts@),
            goal == spans_of_cells(cells, base as int, line as int, selection),
            base + text::byte_len(viewport::joined(cells, 0, parts@.len() as int)) <= usize::MAX,
            from == base + text::byte_len(viewport::joined(cells, 0, i as int)),
            styled::span_views(spans@) == goal.take(i as int),
        decreases parts@.len() - i,
    {
        let part: &str = parts[i];
        proof {
            assert(part@ == cells[i as int]);
            text::lemma_encode_concat(viewport::joined(cells, 0, i as int), part@);
            viewport::lemma_joined_split(cells, 0, i + 1, parts@.len() as int);
            text::lemma_encode_concat(
                viewport::joined(cells, 0, i + 1),
                viewport::joined(cells, i + 1, parts@.len() as int),
            );
        }
        let to: usize = from + part.as_bytes().len();
        let start: OutputPoint = OutputPoint { line, byte: from };
        let end: OutputPoint = OutputPoint { line, byte: to };
        let chosen: bool = match selection {
            Some(s) => start.is_before(s.end) && s.start.is_before(end),
            None => false,
        };
        let style: Style = if chosen {
            Style::default().fg(Color::Black).bg(Color::LightBlue)
        } else {
            Style::default()
        };
        let span: Span = Span::styled(part.to_owned(), style);
        let ghost view = span@;
        let ghost before = styled::span_views(spans@);
        spans.push(span);
        proof {
            assert(styled::span_views(spans@) =~= before.push(view));
            assert(goal.take(i + 1) =~= goal.take(i as int).push(goal[i as int]));
        }
        from = to;
        i += 1;
    }
    assert(goal.take(i as int) =~= goal);
    spans
}

/// A row of the output pane as styled text.
pub fn render_output_line(
    source: &str,
    rendered: RenderedOutputLine,
    width: usize,
    horizontal_offset: usize,
    wrap: bool,
    selection: Option<OutputSelection>,
) -> (r: Line)
    requires
        wrap ==> rendered.start_byte <= rendered.end_byte && text::on_boundary(
            source@,
            rendered.start_byte as int,
        ) && text::on_boundary(source@, rendered.end_byte as int),
    ensures
        r@ == row_line(
            source@,
            rendered@,
            width as int,
            horizontal_offset as int,
            wrap,
            selection,
        ),
{
    if wrap {
        proof {
            text::lemma_byte_slice(
                source@,
                rendered.start_byte as int,
                rendered.end_byte as int,
            );
        }
        let part: &str = text::slice(source, rendered.start_byte, rendered.end_byte);
        let cells: Vec<&str> = viewport::graphemes(part);
        let mut tail: Vec<Span> = cell_spans(
            &cells,
            rendered.start_byte,
            rendered.source_line,
            selection,
        );
        if rendered.continuation {
            let mut spans: Vec<Span> = Vec::new();
            let ghost rest = styled::span_views(tail@);
            spans.push(Span::styled("↪ ".to_owned(), Style::default().dim()));
            spans.append(&mut tail);
            assert(styled::span_views(spans@) =~= seq![continuation_mark()] + rest);
            Line::from_spans(spans)
        } else {
            Line::from_spans(tail)
        }
    } else {
        let len: usize = source.as_bytes().len();
        let cells: Vec<&str> = viewport::graphemes(source);
        let spans: Vec<Span> = cell_spans(&cells, 0, rendered.source_line, selection);
        let line: Line = Line::from_spans(spans);
        clip_line(&line, horizontal_offset, width)
    }
}

/// How the output pane is shown.
#[derive(Clone, Copy, Debug)]
pub struct OutputRenderOptions {
    pub height: usize,
    pub width: usize,
    pub anchor: ScrollAnchor,
    pub offset: usize,
    pub horizontal_offset: usize,
    pub wrap: bool,
    pub selection: Option<OutputSelection>,
}

/// The rows that are visible of the output.
pub open spec fn shown_rows(output: Seq<char>, options: OutputRenderOptions) -> Seq<Row> {
    visible_rows(
        source_lines(output),
        options.height as int,
        options.width as int,
        options.anchor,
        options.offset as int,
        options.wrap,
    )
}

/// The output pane as styled text: a line for each visible row.
pub open spec fn shown_lines(output: Seq<char>, options: OutputRenderOptions) -> Seq<LineView> {
    let lines = source_lines(output);
    shown_rows(output, options).map_values(
        |row: Row|
            row_line(
                lines[row.source_line],
                row,
                options.width as int,
                options.horizontal_offset as int,
                options.wrap,
                options.selection,
            ),
    )
}

/// The output pane as styled text, and the rows that it shows.
pub fn render_output_text(output: &str, options: OutputRenderOptions) -> (r: (
    Vec<Line>,
    Vec<RenderedOutputLine>,
))
    ensures
        styled::line_views(r.0@) == shown_lines(output@, options),
        rows_view(r.1@) == shown_rows(output@, options),
        rows_fit(rows_view(r.1@), source_lines(output@)),
{
    let sources: Vec<&str> = output_lines(output);
    let ghost lines = source_lines(output@);
    let rows: Vec<RenderedOutputLine> = visible_output_lines(
        sources.as_slice(),
        options.height,
        options.width,
        options.anchor,
        options.offset,
        options.wrap,
    );
    let ghost goal = shown_lines(output@, options);
    let mut rendered: Vec<Line> = Vec::new();
    let mut i: usize = 0;
    while i < rows.len()
        invariant
            i <= rows@.len(),
            lines == source_lines(output@),
            viewport::str_views(sources@) == lines,
            goal == shown_lines(output@, options),
            rows_view(rows@) == shown_rows(output@, options),
            rows_fit(rows_view(rows@), lines),
            styled::line_views(rendered@) == goal.take(i as int),
        decreases rows@.len() - i,
    {
        let row: RenderedOutputLine = rows[i];
        proof {
            assert(rows_view(rows@)[i as int] == row@);
            assert(row_fits(row@, lines));
            assert(lines[row.source_line as int] == sources@[row.source_line as int]@);
        }
        let line: Line = render_output_line(
            sources[row.source_line],
            row,
            options.width,
            options.horizontal_offset,
            options.wrap,
            options.selection,
        );
        let ghost view = line@;
        let ghost before = styled::line_views(rendered@);
        rendered.push(line);
        proof {
            assert(styled::line_views(rendered@) =~= before.push(view));
            assert(goal.take(i + 1) =~= goal.take(i as int).push(goal[i as int]));
        }
        i += 1;
    }
    assert(goal.take(i as int) =~= goal);
    (rendered, rows)
}

/// The part of source line `i` that is selected.
pub open spec fn selected_part(
    lines: Seq<Seq<char>>,
    selection: OutputSelection,
    i: int,
) -> Seq<char> {
    text::byte_slice(
        lines[i],
        if i == selection.start.line {
            selection.start.byte as int
        } else {
            0
        },
        if i == selection.end.line {
            selection.end.byte as int
        } else {
            text::byte_len(lines[i]) as int
        },
    )
}

/// The selected parts of the source lines in front of `upto`, with a line feed
/// between two lines.
pub open spec fn selected_until(
    lines: Seq<Seq<char>>,
    selection: OutputSelection,
    upto: int,
) -> Seq<char>
    decreases upto,
{
    if upto <= selection.start.line {
        Seq::empty()
    } else {
        let before = selected_until(lines, selection, upto - 1);
        (if upto - 1 > selection.start.line {
            before.push('\n')
        } else {
            before
        }) + selected_part(lines, selection, upto - 1)
    }
}

/// Whether a selection is not empty, and its ends lie between characters of
/// source lines.
pub open spec fn selection_fits(lines: Seq<Seq<char>>, selection: OutputSelection) -> bool {
    &&& selection.start.lt(selection.end)
    &&& selection.start.line < lines.len()
    &&& selection.end.line < lines.len()
    &&& text::on_boundary(lines[selection.start.line as int], selection.start.byte as int)
    &&& text::on_boundary(lines[selection.end.line as int], selection.end.byte as int)
}

/// The selected text, or `None` where the selection does not fit the output.
pub fn selected_output_text(output: &str, selection: OutputSelection) -> (r: Option<String>)
    ensures
        r is Some <==> selection_fits(source_lines(output@), selection),
        r is Some ==> r->0@ == selected_until(
            source_lines(output@),
            selection,
            selection.end.line + 1,
        ),
{
    if !selection.start.is_before(selection.end) {
        return None;
    }
    let sources: Vec<&str> = output_lines(output);
    let ghost lines = source_lines(output@);
    let count: usize = sources.len();
    if selection.end.line >= count {
        return None;
    }
    let first: &str = sources[selection.start.line];
    let last: &str = sources[selection.end.line];
    proof {
        assert(lines[selection.start.line as int] == first@);
        assert(lines[selection.end.line as int] == last@);
    }
    if !first.is_char_boundary(selection.start.byte) || !last.is_char_boundary(
        selection.end.byte,
    ) {
        return None;
    }
    let mut out: String = String::new();
    let mut i: usize = selection.start.line;
    while i <= selection.end.line
        invariant
            lines == viewport::str_views(sources@),
            selection_fits(lines, selection),
            selection.start.line <= i <= selection.end.line + 1,
            selection.end.line < count,
            out@ == selected_until(lines, selection, i as int),
        decreases selection.end.line + 1 - i,
    {
        let line: &str = sources[i];
        proof {
            assert(lines[i as int] == line@);
            text::lemma_ends_on_boundary(line@);
        }
        if i > selection.start.line {
            out.push('\n');
        }
        let from: usize = if i == selection.start.line {
            selection.start.byte
        } else {
            0
        };
        let to: usize = if i == selection.end.line {
            selection.end.byte
        } else {
            line.as_bytes().len()
        };
        proof {
            text::lemma_boundary(line@, from as int);
            text::lemma_boundary(line@, to as int);
        }
        out.append(text::slice(line, from, to));
        i += 1;
    }
    Some(out)
}

/// Index of the cell that shows column `column`, from cell `i` on, or the number
/// of cells where none does.
pub open spec fn column_cell(widths: Seq<usize>, column: int, i: int) -> int
    decreases widths.len() - i,
{
    if i >= widths.len() {
        widths.len() as int
    } else if column < viewport::columns(widths, 0, i + 1) {
        i
    } else {
        column_cell(widths, column, i + 1)
    }
}

/// Index of the cell that shows column `column`, where the cells are `widths`
/// columns wide, or their number.
pub fn cell_at_column(widths: &Vec<usize>, column: usize) -> (r: usize)
    ensures
        r == column_cell(widths@, column as int, 0),
        r <= widths@.len(),
{
    let mut end: usize = 0;
    let mut i: usize = 0;
    while i < widths.len()
        invariant
            i <= widths@.len(),
            end == viewport::columns(widths@, 0, i as int),
            column_cell(widths@, column as int, 0) == column_cell(
                widths@,
                column as int,
                i as int,
            ),
        decreases widths@.len() - i,
    {
        end = end.saturating_add(widths[i]);
        assert(end == viewport::columns(widths@, 0, i + 1));
        if column < end {
            return i;
        }
        i += 1;
    }
    i
}

/// The bytes of the cell of `source[start..end]` that shows column `column`, or
/// the end where that part has no such column.
pub open spec fn cell_bytes(source: Seq<char>, start: int, end: int, column: int) -> (int, int) {
    let cells = viewport::clusters(text::byte_slice(source, start, end));
    let i = column_cell(viewport::widths_of(cells), column, 0);
    if i < cells.len() {
        (
            start + text::byte_len(viewport::joined(cells, 0, i)),
            start + text::byte_len(viewport::joined(cells, 0, i + 1)),
        )
    } else {
        (end, end)
    }
}

/// Whether the bytes from `bytes.0` to `bytes.1` are the cluster `i` of
/// `source[start..end]`, the whole of it and nothing else.
pub open spec fn is_cluster(
    source: Seq<char>,
    start: int,
    end: int,
    bytes: (int, int),
    i: int,
) -> bool {
    let cells = viewport::clusters(text::byte_slice(source, start, end));
    &&& 0 <= i < cells.len()
    &&& bytes.0 == start + text::byte_len(viewport::joined(cells, 0, i))
    &&& text::byte_slice(source, bytes.0, bytes.1) == cells[i]
}

/// Whether bytes of `source[start..end]` are one of its clusters, the whole of
/// it and nothing else.
pub open spec fn whole_cluster(source: Seq<char>, start: int, end: int, bytes: (int, int)) -> bool {
    exists|i: int| #[trigger] is_cluster(source, start, end, bytes, i)
}

/// The bytes of the grapheme of `source[start_byte..end_byte]` that shows
/// column `display_column`: one whole cluster, or nothing.
pub fn grapheme_cell_at_display_column(
    source: &str,
    start_byte: usize,
    end_byte: usize,
    display_column: usize,
) -> (r: (usize, usize))
    requires
        start_byte <= end_byte,
        text::on_boundary(source@, start_byte as int),
        text::on_boundary(source@, end_byte as int),
    ensures
        (r.0 as int, r.1 as int) == cell_bytes(
            source@,
            start_byte as int,
            end_byte as int,
            display_column as int,
        ),
        start_byte <= r.0 <= r.1 <= end_byte,
        text::on_boundary(source@, r.0 as int),
        text::on_boundary(source@, r.1 as int),
        r.0 < r.1 ==> whole_cluster(
            source@,
            start_byte as int,
            end_byte as int,
            (r.0 as int, r.1 as int),
        ),
        viewport::printable_ascii(text::byte_slice(source@, start_byte as int, end_byte as int))
            ==> (r.0 as int, r.1 as int) == plain::cell(
            start_byte as int,
            end_byte as int,
            display_column as int,
        ),
{
    let part: &str = text::slice(source, start_byte, end_byte);
    proof {
        text::lemma_byte_slice(source@, start_byte as int, end_byte as int);
    }
    let parts: Vec<&str> = viewport::graphemes(part);
    let widths: Vec<usize> = viewport::measure(&parts);
    let found: usize = cell_at_column(&widths, display_column);
    proof {
        if viewport::printable_ascii(part@) {
            plain::lemma_widths(part@, parts@, widths@);
            plain::lemma_column_cell(widths@, display_column as int, 0);
            plain::lemma_byte_len(part@);
            if found < part@.len() {
                plain::lemma_joined(part@, 0, found as int);
                plain::lemma_byte_len(part@.subrange(0, found as int));
                plain::lemma_joined(part@, 0, found + 1);
                plain::lemma_byte_len(part@.subrange(0, found + 1));
            }
        }
    }
    if found >= parts.len() {
        return (end_byte, end_byte);
    }
    let ghost cells = viewport::str_views(parts@);
    let ghost n = parts@.len() as int;
    proof {
        lemma_cell_positions(source@, start_byte as int, end_byte as int, cells, found as int);
        lemma_cell_positions(source@, start_byte as int, end_byte as int, cells, found + 1);
        text::lemma_encode_concat(
            viewport::joined(cells, 0, found as int),
            cells[found as int],
        );
        lemma_cell_text(source@, start_byte as int, end_byte as int, cells, found as int);
    }
    let mut from: usize = start_byte;
    let mut i: usize = 0;
    while i < found
        invariant
            i <= found < parts@.len(),
            n == parts@.len(),
            cells == viewport::str_views(parts@),
            part@ == viewport::joined(cells, 0, n),
            start_byte + text::byte_len(part@) == end_byte,
            from == start_byte + text::byte_len(viewport::joined(cells, 0, i as int)),
        decreases found - i,
    {
        proof {
            assert(parts@[i as int]@ == cells[i as int]);
            text::lemma_encode_concat(viewport::joined(cells, 0, i as int), cells[i as int]);
            viewport::lemma_joined_split(cells, 0, i + 1, n);
            text::lemma_encode_concat(
                viewport::joined(cells, 0, i + 1),
                viewport::joined(cells, i + 1, n),
            );
        }
        from += parts[i].as_bytes().len();
        i += 1;
    }
    let to: usize = from + parts[found].as_bytes().len();
    assert(is_cluster(
        source@,
        start_byte as int,
        end_byte as int,
        (from as int, to as int),
        found as int,
    ));
    (from, to)
}

/// The cells of a part of a text start and end between characters.
proof fn lemma_cell_positions(
    source: Seq<char>,
    start: int,
    end: int,
    cells: Seq<Seq<char>>,
    i: int,
)
    requires
        start <= end,
        text::on_boundary(source, start),
        text::on_boundary(source, end),
        text::byte_slice(source, start, end) == viewport::joined(cells, 0, cells.len() as int),
        0 <= i <= cells.len(),
    ensures
        ({
            let at = start + text::byte_len(viewport::joined(cells, 0, i));
            &&& start <= at <= end
            &&& text::on_boundary(source, at)
            &&& text::char_pos(source, at) == text::char_pos(source, start) + viewport::joined(
                cells,
                0,
                i,
            ).len()
        }),
{
    let part = text::byte_slice(source, start, end);
    let a = text::char_pos(source, start);
    text::lemma_byte_slice(source, start, end);
    text::lemma_boundary(source, start);
    let head = viewport::joined(cells, 0, i);
    viewport::lemma_joined_split(cells, 0, i, cells.len() as int);
    text::lemma_encode_concat(head, viewport::joined(cells, i, cells.len() as int));
    let k = a + head.len();
    assert(source.take(k) =~= source.take(a) + head) by {
        assert(part.take(head.len() as int) =~= head);
        assert(source.subrange(a, k) =~= part.take(head.len() as int));
    }
    text::lemma_encode_concat(source.take(a), head);
    text::lemma_char_pos(source, k);
}

/// The bytes of a cell of a part of a text are that cell.
proof fn lemma_cell_text(source: Seq<char>, start: int, end: int, cells: Seq<Seq<char>>, i: int)
    requires
        start <= end,
        text::on_boundary(source, start),
        text::on_boundary(source, end),
        text::byte_slice(source, start, end) == viewport::joined(cells, 0, cells.len() as int),
        0 <= i < cells.len(),
    ensures
        text::byte_slice(
            source,
            start + text::byte_len(viewport::joined(cells, 0, i)),
            start + text::byte_len(viewport::joined(cells, 0, i + 1)),
        ) == cells[i],
{
    lemma_cell_positions(source, start, end, cells, i);
    lemma_cell_positions(source, start, end, cells, i + 1);
    text::lemma_byte_slice(source, start, end);
    let part = text::byte_slice(source, start, end);
    let a = text::char_pos(source, start);
    let head = viewport::joined(cells, 0, i);
    let to = head.len() + cells[i].len();
    viewport::lemma_joined_split(cells, 0, i + 1, cells.len() as int);
    assert(source.subrange(a + head.len(), a + to) =~= part.subrange(head.len() as int, to as int));
    assert(part.subrange(head.len() as int, to as int) =~= cells[i]);
}

/// The first `n` lines, with a line feed between two of them.
pub open spec fn joined_lines(lines: Seq<Seq<char>>, n: int) -> Seq<char>
    decreases n,
{
    if n <= 0 {
        Seq::empty()
    } else if n == 1 {
        lines[0]
    } else {
        joined_lines(lines, n - 1).push('\n') + lines[n - 1]
    }
}

proof fn lemma_whole_lines(lines: Seq<Seq<char>>, selection: OutputSelection, n: int)
    requires
        0 <= n <= lines.len(),
        selection.start == (OutputPoint { line: 0, byte: 0 }),
        selection.end.line == lines.len() - 1,
        selection.end.byte == text::byte_len(lines.last()),
    ensures
        selected_until(lines, selection, n) == joined_lines(lines, n),
    decreases n,
{
    if n > 0 {
        let line = lines[n - 1];
        lemma_whole_lines(lines, selection, n - 1);
        text::lemma_ends_on_boundary(line);
        assert(line.subrange(0, line.len() as int) =~= line);
        assert(selected_part(lines, selection, n - 1) =~= line);
        if n == 1 {
            assert(selected_until(lines, selection, 1) =~= line);
        }
    }
}

/// The selection from the first to the last character is the whole output: its
/// source lines, with a line feed between two of them.
pub proof fn law_whole_selection(lines: Seq<Seq<char>>, selection: OutputSelection)
    requires
        lines.len() > 0,
        selection.start == (OutputPoint { line: 0, byte: 0 }),
        selection.end.line == lines.len() - 1,
        selection.end.byte == text::byte_len(lines.last()),
    ensures
        selection_fits(lines, selection) <==> selection.start.lt(selection.end),
        selected_until(lines, selection, selection.end.line + 1) == joined_lines(
            lines,
            lines.len() as int,
        ),
{
    lemma_whole_lines(lines, selection, lines.len() as int);
    text::lemma_ends_on_boundary(lines[0]);
    text::lemma_ends_on_boundary(lines.last());
}

/// There are no more rows than the pane is high, but for one row where it has no
/// height.
pub proof fn law_rows_fit_the_pane(
    lines: Seq<Seq<char>>,
    height: int,
    width: int,
    anchor: ScrollAnchor,
    offset: int,
    wrap: bool,
)
    requires
        height >= 0,
    ensures
        visible_rows(lines, height, width, anchor, offset, wrap).len() <= height || visible_rows(
            lines,
            height,
            width,
            anchor,
            offset,
            wrap,
        ).len() <= 1,
{
}

/// At the bottom the last source line is shown, whether or not a line feed has
/// ended it.
pub proof fn law_bottom_shows_the_last_line(lines: Seq<Seq<char>>, height: int, width: int)
    requires
        lines.len() > 0,
    ensures
        ({
            let rows = visible_rows(lines, height, width, ScrollAnchor::Bottom, 0, false);
            &&& rows.len() > 0
            &&& rows.last() == (Row {
                source_line: lines.len() - 1,
                start_byte: 0,
                end_byte: text::byte_len(lines.last()) as int,
                continuation: false,
            })
        }),
{
    let n = lines.len() as int;
    let all = rows_between(lines, 0, n, width, false);
    let last = line_rows(lines[n - 1], n - 1, width, false);
    assert(all == rows_between(lines, 0, n - 1, width, false) + last);
    assert(last.len() == 1);
    assert(all.last() == last[0]);
}

/// Where lines are not wrapped, the rows from the top are the source lines from
/// the offset on.
pub proof fn law_top_rows_count_lines(
    lines: Seq<Seq<char>>,
    height: int,
    width: int,
    offset: int,
    k: int,
)
    requires
        0 <= offset,
        0 <= k < visible_rows(lines, height, width, ScrollAnchor::Top, offset, false).len(),
    ensures
        visible_rows(lines, height, width, ScrollAnchor::Top, offset, false)[k].source_line
            == offset + k,
{
    lemma_unwrapped_rows(lines, offset, lines.len() as int, width, k);
}

proof fn lemma_unwrapped_rows(lines: Seq<Seq<char>>, a: int, b: int, width: int, k: int)
    requires
        0 <= k < rows_between(lines, a, b, width, false).len(),
    ensures
        rows_between(lines, a, b, width, false).len() == b - a,
        rows_between(lines, a, b, width, false)[k].source_line == a + k,
    decreases b - a,
{
    if b > a {
        let before = rows_between(lines, a, b - 1, width, false);
        let last = line_rows(lines[b - 1], b - 1, width, false);
        assert(last.len() == 1);
        if before.len() > 0 {
            lemma_unwrapped_rows(
                lines,
                a,
                b - 1,
                width,
                if k < before.len() {
                    k
                } else {
                    0
                },
            );
        } else if b - 1 > a {
            lemma_some_rows(lines, a, b - 1, width);
        }
        if k < before.len() {
            assert((before + last)[k] == before[k]);
        } else {
            assert((before + last)[k] == last[0]);
        }
    }
}

proof fn lemma_some_rows(lines: Seq<Seq<char>>, a: int, b: int, width: int)
    requires
        a < b,
    ensures
        rows_between(lines, a, b, width, false).len() > 0,
{
    assert(line_rows(lines[b - 1], b - 1, width, false).len() == 1);
}

} // verus!
