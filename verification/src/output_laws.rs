//! What is shown of the output: its lines, the rows that are visible, how they
//! are wrapped and marked, and what a selection holds.
use vstd::prelude::*;

use crate::app;
use crate::decoder_laws;
use crate::geometry;
use crate::log_decoder;
use crate::output;
use crate::output::{OutputPoint, OutputSelection, Row, ScrollAnchor};
use crate::pane_laws;
use crate::styled;
use crate::styled::{Color, SpanView};
use crate::text;
use crate::viewport;

verus! {

/// Whether a text does not hold a character.
pub open spec fn lacks(s: Seq<char>, c: char) -> bool {
    forall|i: int| 0 <= i < s.len() ==> #[trigger] s[i] != c
}

proof fn lemma_ended_front(lines: Seq<Seq<char>>, end: Seq<char>)
    requires
        lines.len() > 0,
    ensures
        decoder_laws::ended(lines, end) == lines[0] + end + decoder_laws::ended(
            lines.drop_first(),
            end,
        ),
    decreases lines.len(),
{
    let rest = lines.drop_first();
    let front = lines.drop_last();
    if lines.len() == 1 {
        assert(front =~= Seq::<Seq<char>>::empty());
        assert(rest =~= Seq::<Seq<char>>::empty());
        assert(decoder_laws::ended(lines, end) =~= lines[0] + end + decoder_laws::ended(rest, end));
    } else {
        lemma_ended_front(front, end);
        assert(front.drop_first() =~= rest.drop_last());
        assert(decoder_laws::ended(lines, end) =~= lines[0] + end + decoder_laws::ended(rest, end));
    }
}

proof fn lemma_find_shift(p: Seq<char>, t: Seq<char>, c: char, from: int)
    requires
        0 <= from <= t.len(),
    ensures
        text::find(p + t, c, p.len() + from) == p.len() + text::find(t, c, from),
{
    text::lemma_find_bounds(t, c, from);
    let at = text::find(t, c, from);
    assert forall|k: int| p.len() + from <= k < p.len() + at implies #[trigger] (p + t)[k]
        != c by {
        assert((p + t)[k] == t[k - p.len()]);
    }
    text::lemma_find(p + t, c, p.len() + from, p.len() + at);
}

/// The lines of a text do not depend on what stands in front of it.
pub proof fn lemma_lines_shift(p: Seq<char>, t: Seq<char>, from: int)
    requires
        0 <= from,
    ensures
        output::lines(p + t, p.len() + from) == output::lines(t, from),
    decreases t.len() - from,
{
    if from < t.len() {
        lemma_find_shift(p, t, '\n', from);
        text::lemma_find_bounds(t, '\n', from);
        let end = text::find(t, '\n', from);
        assert((p + t).subrange(p.len() + from, p.len() + end) =~= t.subrange(from, end));
        if end < t.len() {
            lemma_lines_shift(p, t, end + 1);
        }
    }
}

/// Lines with a line feed behind each, or a carriage return and a line feed, are
/// read as these lines; and a text behind them that nothing has ended yet is the
/// last line, where it is not empty.
pub proof fn law_lines_are_read_back(lines: Seq<Seq<char>>, last: Seq<char>, end: Seq<char>)
    requires
        forall|k: int| 0 <= k < lines.len() ==> lacks(#[trigger] lines[k], '\n'),
        forall|k: int|
            0 <= k < lines.len() && (#[trigger] lines[k]).len() > 0 ==> lines[k].last() != '\r',
        lacks(last, '\n'),
        end == seq!['\n'] || end == seq!['\r', '\n'],
    ensures
        output::lines(decoder_laws::ended(lines, end) + last, 0) == if last.len() > 0 {
            lines.push(last)
        } else {
            lines
        },
    decreases lines.len(),
{
    let s = decoder_laws::ended(lines, end) + last;
    if lines.len() == 0 {
        assert(s =~= last);
        if last.len() > 0 {
            text::lemma_find(s, '\n', 0, s.len() as int);
            assert(s.subrange(0, s.len() as int) =~= s);
            assert(output::lines(s, 0) =~= lines.push(last));
        } else {
            assert(output::lines(s, 0) =~= lines);
        }
    } else {
        let first = lines[0];
        let others = lines.drop_first();
        assert(lacks(lines[0], '\n'));
        assert forall|k: int| 0 <= k < others.len() implies lacks(#[trigger] others[k], '\n') by {
            assert(others[k] == lines[k + 1]);
        }
        assert forall|k: int|
            0 <= k < others.len() && (#[trigger] others[k]).len() > 0 implies others[k].last()
            != '\r' by {
            assert(others[k] == lines[k + 1]);
        }
        law_lines_are_read_back(others, last, end);
        lemma_ended_front(lines, end);
        let rest = decoder_laws::ended(others, end) + last;
        let head = first + end;
        assert(s =~= head + rest);
        let at = head.len() - 1;
        assert forall|k: int| 0 <= k < at implies #[trigger] s[k] != '\n' by {
            if k < first.len() {
                assert(s[k] == first[k]);
            } else {
                assert(s[k] == end[k - first.len()]);
            }
        }
        assert(s[at] == end[end.len() - 1]);
        text::lemma_find(s, '\n', 0, at);
        let line = s.subrange(0, at);
        if end.len() == 1 {
            assert(line =~= first);
        } else {
            assert(line =~= first.push('\r'));
            assert(line.drop_last() =~= first);
        }
        assert(output::without_return(line) == first);
        lemma_lines_shift(head, rest, 0);
        assert(output::lines(s, 0) == seq![first] + output::lines(rest, 0));
        if last.len() > 0 {
            assert(seq![first] + others.push(last) =~= lines.push(last));
        } else {
            assert(seq![first] + others =~= lines);
        }
    }
}

proof fn lemma_lines_lack(s: Seq<char>, c: char, from: int, k: int)
    requires
        lacks(s, c),
        0 <= from,
        0 <= k < output::lines(s, from).len(),
    ensures
        lacks(output::lines(s, from)[k], c),
    decreases s.len() - from,
{
    if from < s.len() {
        text::lemma_find_bounds(s, '\n', from);
        let end = text::find(s, '\n', from);
        if end < s.len() && k > 0 {
            lemma_lines_lack(s, c, end + 1, k - 1);
        }
    }
}

proof fn lemma_pieces_of_plain(all: Seq<Seq<char>>, n: int)
    requires
        0 <= n <= all.len(),
        forall|k: int| 0 <= k < all.len() ==> lacks(#[trigger] all[k], '\r'),
    ensures
        output::pieces(all, n) == all.take(n),
    decreases n,
{
    if n > 0 {
        lemma_pieces_of_plain(all, n - 1);
        let line = all[n - 1];
        text::lemma_find(line, '\r', 0, line.len() as int);
        assert(line.skip(0) =~= line);
        assert(all.take(n) =~= all.take(n - 1) + seq![line]);
    } else {
        assert(all.take(0) =~= Seq::<Seq<char>>::empty());
    }
}

/// The source lines of a text without carriage returns are its lines.
pub proof fn law_source_lines_are_lines(s: Seq<char>)
    requires
        lacks(s, '\r'),
    ensures
        output::source_lines(s) == output::lines(s, 0),
{
    let all = output::lines(s, 0);
    assert forall|k: int| 0 <= k < all.len() implies lacks(#[trigger] all[k], '\r') by {
        lemma_lines_lack(s, '\r', 0, k);
    }
    lemma_pieces_of_plain(all, all.len() as int);
    assert(all.take(all.len() as int) =~= all);
}

proof fn lemma_returns_shift(p: Seq<char>, t: Seq<char>, from: int)
    requires
        0 <= from <= t.len(),
    ensures
        output::split_returns(p + t, p.len() + from) == output::split_returns(t, from),
    decreases t.len() - from,
{
    lemma_find_shift(p, t, '\r', from);
    text::lemma_find_bounds(t, '\r', from);
    let end = text::find(t, '\r', from);
    if end < t.len() {
        assert((p + t).subrange(p.len() + from, p.len() + end) =~= t.subrange(from, end));
        lemma_returns_shift(p, t, end + 1);
    } else {
        assert((p + t).skip(p.len() + from) =~= t.skip(from));
    }
}

/// A line is cut at its carriage returns: what stands in front of the first one
/// is the first piece, and what stands behind it is cut in the same way.
pub proof fn law_lines_are_cut_at_returns(first: Seq<char>, rest: Seq<char>)
    requires
        lacks(first, '\r'),
    ensures
        output::split_returns(first, 0) == seq![first],
        output::split_returns(first + seq!['\r'] + rest, 0) == seq![first] + output::split_returns(
            rest,
            0,
        ),
{
    text::lemma_find(first, '\r', 0, first.len() as int);
    assert(first.skip(0) =~= first);
    let s = first + seq!['\r'] + rest;
    let head = first + seq!['\r'];
    assert forall|k: int| 0 <= k < first.len() implies #[trigger] s[k] != '\r' by {
        assert(s[k] == first[k]);
    }
    text::lemma_find(s, '\r', 0, first.len() as int);
    assert(s.subrange(0, first.len() as int) =~= first);
    lemma_returns_shift(head, rest, 0);
}

/// What a log of lines is shown as: these lines, and what stands behind the last
/// one that has ended, where that is not empty.
pub proof fn law_a_log_is_shown_line_by_line(
    lines: Seq<Seq<char>>,
    last: Seq<char>,
    end: Seq<char>,
)
    requires
        forall|k: int| 0 <= k < lines.len() ==> decoder_laws::all_show(#[trigger] lines[k]),
        decoder_laws::all_show(last),
        end == seq!['\n'] || end == seq!['\r', '\n'],
    ensures
        ({
            let log = decoder_laws::ended(lines, end) + last;
            let shown = log_decoder::write_all(log_decoder::blank(), log).text;
            output::source_lines(shown) == if last.len() > 0 {
                lines.push(last)
            } else {
                lines
            }
        }),
{
    let blank = log_decoder::blank();
    let feed = seq!['\n'];
    let log = decoder_laws::ended(lines, end) + last;
    decoder_laws::law_lines_are_kept(blank, lines, end);
    let before = log_decoder::write_all(blank, decoder_laws::ended(lines, end));
    log_decoder::lemma_write_concat(blank, decoder_laws::ended(lines, end), last);
    log_decoder::law_printable_text_is_appended(before, last);
    let shown = log_decoder::write_all(blank, log).text;
    assert(shown =~= decoder_laws::ended(lines, feed) + last);
    lemma_ended_lacks_returns(lines);
    assert(lacks(shown, '\r'));
    law_source_lines_are_lines(shown);
    assert forall|k: int| 0 <= k < lines.len() implies lacks(#[trigger] lines[k], '\n') by {}
    law_lines_are_read_back(lines, last, feed);
}

proof fn lemma_ended_lacks_returns(lines: Seq<Seq<char>>)
    requires
        forall|k: int| 0 <= k < lines.len() ==> decoder_laws::all_show(#[trigger] lines[k]),
    ensures
        lacks(decoder_laws::ended(lines, seq!['\n']), '\r'),
    decreases lines.len(),
{
    if lines.len() > 0 {
        assert(decoder_laws::all_show(lines[lines.len() - 1]));
        assert forall|k: int| 0 <= k < lines.drop_last().len() implies decoder_laws::all_show(
            #[trigger] lines.drop_last()[k],
        ) by {
            assert(lines.drop_last()[k] == lines[k]);
        }
        lemma_ended_lacks_returns(lines.drop_last());
    }
}

/// Whether `width` is the number of columns of the widest line: none is wider,
/// and one is as wide. It is zero where there is no line.
pub open spec fn is_widest(lines: Seq<Seq<char>>, width: usize) -> bool {
    &&& forall|k: int|
        0 <= k < lines.len() ==> viewport::clamp(viewport::text_width(#[trigger] lines[k]))
            <= width
    &&& lines.len() == 0 ==> width == 0
    &&& lines.len() > 0 ==> exists|k: int|
        0 <= k < lines.len() && viewport::clamp(viewport::text_width(#[trigger] lines[k])) == width
}

proof fn lemma_widest(lines: Seq<Seq<char>>, n: int)
    requires
        0 <= n <= lines.len(),
    ensures
        is_widest(lines.take(n), app::widest(lines, n)),
    decreases n,
{
    if n > 0 {
        lemma_widest(lines, n - 1);
        let front = lines.take(n - 1);
        let all = lines.take(n);
        let before = app::widest(lines, n - 1);
        let width = app::widest(lines, n);
        assert forall|k: int| 0 <= k < n implies viewport::clamp(
            viewport::text_width(#[trigger] all[k]),
        ) <= width by {
            if k < n - 1 {
                assert(front[k] == all[k]);
            }
        }
        if viewport::clamp(viewport::text_width(lines[n - 1])) == width {
            assert(viewport::clamp(viewport::text_width(all[n - 1])) == width);
        } else if n > 1 {
            let k = choose|k: int|
                0 <= k < front.len() && viewport::clamp(viewport::text_width(#[trigger] front[k]))
                    == before;
            assert(all[k] == front[k]);
        }
    }
}

/// Output that was read is as wide as its widest line, so that every column of
/// every line can be scrolled into view. A read error is as wide as its message.
pub proof fn law_output_is_as_wide_as_its_widest_line(s: Seq<char>, reason: Seq<char>)
    ensures
        is_widest(output::lines(s, 0), app::output_width(None, s)),
        app::output_width(Some(reason), s) == viewport::clamp(
            viewport::text_width("Read error: "@ + reason),
        ),
{
    let lines = output::lines(s, 0);
    lemma_widest(lines, lines.len() as int);
    assert(lines.take(lines.len() as int) =~= lines);
}

/// A number of columns that fits is kept.
pub proof fn law_clamped_widths(n: nat)
    ensures
        n <= usize::MAX ==> viewport::clamp(n) == n,
        n > usize::MAX ==> viewport::clamp(n) == usize::MAX,
{
}

/// The row that shows a whole source line.
pub open spec fn whole_row(lines: Seq<Seq<char>>, index: int) -> Row {
    Row {
        source_line: index,
        start_byte: 0,
        end_byte: text::byte_len(lines[index]) as int,
        continuation: false,
    }
}

proof fn lemma_whole_rows(lines: Seq<Seq<char>>, a: int, b: int, width: int)
    ensures
        ({
            let rows = output::rows_between(lines, a, b, width, false);
            &&& rows.len() == if a < b {
                b - a
            } else {
                0
            }
            &&& forall|k: int|
                0 <= k < rows.len() ==> #[trigger] rows[k] == whole_row(lines, a + k)
        }),
    decreases b - a,
{
    if a < b {
        lemma_whole_rows(lines, a, b - 1, width);
        let rows = output::rows_between(lines, a, b, width, false);
        let before = output::rows_between(lines, a, b - 1, width, false);
        let last = output::line_rows(lines[b - 1], b - 1, width, false);
        assert(last.len() == 1);
        assert forall|k: int| 0 <= k < rows.len() implies #[trigger] rows[k] == whole_row(
            lines,
            a + k,
        ) by {
            if k < before.len() {
                assert(rows[k] == before[k]);
            } else {
                assert(rows[k] == last[0]);
            }
        }
    }
}

/// Where lines are not wrapped, each row shows a whole source line. From the top
/// they are the lines behind the first `offset` ones, and from the bottom the
/// lines that come last in front of the last `offset` ones: as many as there is
/// room for, or one where there is none.
pub proof fn law_rows_without_wrapping(
    lines: Seq<Seq<char>>,
    height: int,
    width: int,
    offset: int,
    k: int,
)
    requires
        0 <= height,
        0 <= offset,
    ensures
        ({
            let top = output::visible_rows(lines, height, width, ScrollAnchor::Top, offset, false);
            let bottom = output::visible_rows(
                lines,
                height,
                width,
                ScrollAnchor::Bottom,
                offset,
                false,
            );
            let left = if offset < lines.len() {
                lines.len() - offset
            } else {
                0
            };
            let most = if height > 0 {
                height
            } else {
                1
            };
            let count = if left < most {
                left
            } else {
                most
            };
            &&& top.len() == count
            &&& bottom.len() == count
            &&& 0 <= k < count ==> top[k] == whole_row(lines, offset + k)
            &&& 0 <= k < count ==> bottom[k] == whole_row(lines, left - count + k)
        }),
{
    lemma_whole_rows(lines, offset, lines.len() as int, width);
    lemma_whole_rows(lines, 0, lines.len() - offset, width);
}

/// Whether the clusters of a text are not empty, and joined are the text.
pub open spec fn well_cut(s: Seq<char>) -> bool {
    let cells = viewport::clusters(s);
    &&& viewport::joined(cells, 0, cells.len() as int) == s
    &&& forall|i: int| 0 <= i < cells.len() ==> (#[trigger] cells[i]).len() > 0
}

/// Whether row `b` comes behind row `a`: it goes on with the same source line
/// where `a` left off, or it starts the next one where `a` showed the end of its
/// own. A row that goes on with a line shows something of it.
pub open spec fn comes_behind(lines: Seq<Seq<char>>, a: Row, b: Row) -> bool {
    ||| b.source_line == a.source_line && b.start_byte == a.end_byte && b.continuation
        && b.start_byte < b.end_byte
    ||| b.source_line == a.source_line + 1 && starts_line(b) && ends_line(lines, a)
}

/// Whether a row starts its source line.
pub open spec fn starts_line(row: Row) -> bool {
    row.start_byte == 0 && !row.continuation
}

/// Whether a row shows the end of its source line.
pub open spec fn ends_line(lines: Seq<Seq<char>>, row: Row) -> bool {
    row.end_byte == text::byte_len(lines[row.source_line])
}

/// Whether rows follow each other without a gap.
pub open spec fn gapless(lines: Seq<Seq<char>>, rows: Seq<Row>) -> bool {
    forall|j: int, k: int|
        #![trigger rows[j], rows[k]]
        0 <= j && k == j + 1 && k < rows.len() ==> comes_behind(lines, rows[j], rows[k])
}

/// Whether rows show the source lines `a..b`, from the start of the first to the
/// end of the last, without a gap.
pub open spec fn show_lines(lines: Seq<Seq<char>>, rows: Seq<Row>, a: int, b: int) -> bool {
    &&& a >= b ==> rows.len() == 0
    &&& a < b ==> {
        &&& rows.len() > 0
        &&& rows[0].source_line == a && starts_line(rows[0])
        &&& rows[rows.len() - 1].source_line == b - 1
        &&& ends_line(lines, rows[rows.len() - 1])
    }
    &&& gapless(lines, rows)
}

proof fn lemma_line_is_shown(lines: Seq<Seq<char>>, index: int, width: int, wrap: bool)
    requires
        0 <= index < lines.len(),
        well_cut(lines[index]),
    ensures
        show_lines(
            lines,
            output::line_rows(lines[index], index, width, wrap),
            index,
            index + 1,
        ),
{
    let line = lines[index];
    let rows = output::line_rows(line, index, width, wrap);
    if wrap {
        let continuation = geometry::floor0(width - 2);
        let cells = viewport::clusters(line);
        let widths = viewport::widths_of(cells);
        let available = if width == 0 {
            continuation
        } else {
            width
        };
        let ranges = output::line_ranges(line, width, continuation);
        if cells.len() > 0 {
            viewport::law_rows_tile(widths, 0, available, continuation);
            output::lemma_ranges_tile(
                cells,
                viewport::text_rows(line, width, continuation),
            );
            let cell_rows = viewport::text_rows(line, width, continuation);
            assert(cell_rows.len() > 0);
            assert(ranges.len() == cell_rows.len());
            assert(ranges.last() == ranges[ranges.len() - 1]);
            assert forall|j: int, k: int|
                #![trigger rows[j], rows[k]]
                0 <= j && k == j + 1 && k < rows.len() implies comes_behind(
                lines,
                rows[j],
                rows[k],
            ) by {
                assert(ranges[j].1 == ranges[k].0);
                assert(ranges[k].0 < ranges[k].1);
            }
        } else {
            assert(line =~= Seq::<char>::empty());
            vstd::utf8::is_ascii_chars_encode_utf8(line);
            assert(rows.len() == 1);
        }
    } else {
        assert(rows.len() == 1);
    }
}

proof fn lemma_all_rows(lines: Seq<Seq<char>>, a: int, b: int, width: int, wrap: bool)
    requires
        0 <= a,
        b <= lines.len(),
        forall|k: int| 0 <= k < lines.len() ==> well_cut(#[trigger] lines[k]),
    ensures
        show_lines(lines, output::rows_between(lines, a, b, width, wrap), a, b),
    decreases b - a,
{
    if a < b {
        lemma_all_rows(lines, a, b - 1, width, wrap);
        lemma_line_is_shown(lines, b - 1, width, wrap);
        let before = output::rows_between(lines, a, b - 1, width, wrap);
        let last = output::line_rows(lines[b - 1], b - 1, width, wrap);
        let rows = output::rows_between(lines, a, b, width, wrap);
        assert(rows == before + last);
        assert forall|j: int, k: int|
            #![trigger rows[j], rows[k]]
            0 <= j && k == j + 1 && k < rows.len() implies comes_behind(
            lines,
            rows[j],
            rows[k],
        ) by {
            if k < before.len() {
                assert(rows[j] == before[j] && rows[k] == before[k]);
            } else if j >= before.len() {
                assert(rows[j] == last[j - before.len()] && rows[k] == last[k - before.len()]);
            } else {
                assert(rows[j] == before[before.len() - 1]);
                assert(rows[k] == last[0]);
            }
        }
        assert(rows[rows.len() - 1] == last[last.len() - 1]);
        if before.len() > 0 {
            assert(rows[0] == before[0]);
        } else {
            assert(rows[0] == last[0]);
        }
    }
}

/// The visible rows follow each other without a gap, wrapped or not. From the top
/// the first one starts source line `offset`; from the bottom the last one shows
/// the end of the line in front of the last `offset` ones. There are fewer than
/// the pane is high only where there is no more output on that side.
pub proof fn law_visible_rows(
    lines: Seq<Seq<char>>,
    height: int,
    width: int,
    offset: int,
    wrap: bool,
)
    requires
        0 < height,
        0 <= offset < lines.len(),
        forall|k: int| 0 <= k < lines.len() ==> well_cut(#[trigger] lines[k]),
    ensures
        ({
            let rows = output::visible_rows(lines, height, width, ScrollAnchor::Top, offset, wrap);
            &&& 0 < rows.len() <= height
            &&& gapless(lines, rows)
            &&& rows[0].source_line == offset && starts_line(rows[0])
            &&& rows.len() < height ==> rows[rows.len() - 1].source_line == lines.len() - 1
                && ends_line(lines, rows[rows.len() - 1])
        }),
        ({
            let rows = output::visible_rows(
                lines,
                height,
                width,
                ScrollAnchor::Bottom,
                offset,
                wrap,
            );
            let last = rows[rows.len() - 1];
            &&& 0 < rows.len() <= height
            &&& gapless(lines, rows)
            &&& last.source_line == lines.len() - 1 - offset && ends_line(lines, last)
            &&& rows.len() < height ==> rows[0].source_line == 0 && starts_line(rows[0])
        }),
{
    let n = lines.len() as int;
    lemma_all_rows(lines, offset, n, width, wrap);
    lemma_all_rows(lines, 0, n - offset, width, wrap);
    let top = output::visible_rows(lines, height, width, ScrollAnchor::Top, offset, wrap);
    let bottom = output::visible_rows(lines, height, width, ScrollAnchor::Bottom, offset, wrap);
    let from = output::rows_between(lines, offset, n, width, wrap);
    let upto = output::rows_between(lines, 0, n - offset, width, wrap);
    let cut = upto.len() - bottom.len();
    assert forall|j: int, k: int|
        #![trigger top[j], top[k]]
        0 <= j && k == j + 1 && k < top.len() implies comes_behind(lines, top[j], top[k]) by {
        assert(top[j] == from[j] && top[k] == from[k]);
    }
    assert forall|j: int, k: int|
        #![trigger bottom[j], bottom[k]]
        0 <= j && k == j + 1 && k < bottom.len() implies comes_behind(
        lines,
        bottom[j],
        bottom[k],
    ) by {
        assert(bottom[j] == upto[cut + j] && bottom[k] == upto[cut + k]);
    }
    assert(top[0] == from[0]);
    assert(bottom[bottom.len() - 1] == upto[upto.len() - 1]);
}

/// Beyond the end of the output there is nothing to show.
pub proof fn law_nothing_beyond_the_output(
    lines: Seq<Seq<char>>,
    height: int,
    width: int,
    anchor: ScrollAnchor,
    offset: int,
    wrap: bool,
)
    requires
        offset >= lines.len(),
    ensures
        output::visible_rows(lines, height, width, anchor, offset, wrap).len() == 0,
{
}

proof fn lemma_row_is_full(widths: Seq<usize>, start: int, end: int, available: int)
    requires
        0 <= start <= end <= widths.len(),
        start < widths.len(),
    ensures
        ({
            let stop = viewport::row_end(widths, start, end, available);
            stop < widths.len() ==> available > 0 && (viewport::columns(widths, start, stop)
                >= available || viewport::columns(widths, start, stop + 1) > available)
        }),
    decreases widths.len() - end,
{
    if end < widths.len() && !(available > 0 && end > start && (viewport::columns(
        widths,
        start,
        end,
    ) >= available || viewport::columns(widths, start, end + 1) > available)) {
        lemma_row_is_full(widths, start, end + 1, available);
    }
}

/// The columns that row `k` of a wrapped text has: `first` for the first row, and
/// `continuation` for the others.
pub open spec fn room(first: int, continuation: int, k: int) -> int {
    if k == 0 {
        first
    } else {
        continuation
    }
}

/// Each row of a wrapped text takes as many cells as it has columns for: it is
/// no wider, unless it is a single cell that does not fit in any row, and the
/// cell that follows it would not have fitted.
pub proof fn law_rows_are_full(widths: Seq<usize>, start: int, first: int, other: int, k: int)
    requires
        0 <= start <= widths.len(),
        first > 0,
        other > 0,
        0 <= k < viewport::rows_from(widths, start, first, other).len(),
    ensures
        ({
            let row = viewport::rows_from(widths, start, first, other)[k];
            let columns = room(first, other, k);
            &&& row.1 == row.0 + 1 || viewport::columns(widths, row.0, row.1) <= columns
            &&& row.1 < widths.len() ==> viewport::columns(widths, row.0, row.1) >= columns
                || viewport::columns(widths, row.0, row.1 + 1) > columns
        }),
    decreases k,
{
    let end = viewport::row_end(widths, start, start, first);
    viewport::lemma_row_end(widths, start, start, first);
    let rest = viewport::rows_from(widths, end, other, other);
    assert(viewport::rows_from(widths, start, first, other) == seq![(start, end)] + rest);
    if k == 0 {
        viewport::law_rows_fit(widths, start, first);
        lemma_row_is_full(widths, start, start, first);
    } else {
        law_rows_are_full(widths, end, other, other, k - 1);
    }
}

/// A wrapped line is wrapped to the width of the pane; the rows that continue it
/// have two columns less, for their mark.
pub proof fn law_widths_of_wrapped_rows(line: Seq<char>, index: int, width: int, k: int)
    requires
        width > 2,
        0 <= k < output::line_rows(line, index, width, true).len(),
        well_cut(line),
        line.len() > 0,
    ensures
        ({
            let cells = viewport::clusters(line);
            let widths = viewport::widths_of(cells);
            let row = output::line_rows(line, index, width, true)[k];
            exists|i: int, j: int| {
                &&& #[trigger] cells_of_row(cells, i, j, row)
                &&& j == i + 1 || viewport::columns(widths, i, j) <= room(width, width - 2, k)
                &&& j < cells.len() ==> viewport::columns(widths, i, j) >= room(
                    width,
                    width - 2,
                    k,
                ) || viewport::columns(widths, i, j + 1) > room(width, width - 2, k)
            }
        }),
{
    let cells = viewport::clusters(line);
    let widths = viewport::widths_of(cells);
    assert(cells.len() > 0) by {
        if cells.len() == 0 {
            assert(viewport::joined(cells, 0, 0).len() == 0);
        }
    }
    let rows = viewport::text_rows(line, width, width - 2);
    viewport::law_rows_tile(widths, 0, width, width - 2);
    law_rows_are_full(widths, 0, width, width - 2, k);
    assert(cells_of_row(
        cells,
        rows[k].0,
        rows[k].1,
        output::line_rows(line, index, width, true)[k],
    ));
}

/// Whether a row shows the cells `i..j` of a line.
pub open spec fn cells_of_row(cells: Seq<Seq<char>>, i: int, j: int, row: Row) -> bool {
    &&& 0 <= i < j <= cells.len()
    &&& row.start_byte == text::byte_len(viewport::joined(cells, 0, i))
    &&& row.end_byte == text::byte_len(viewport::joined(cells, 0, j))
}

proof fn lemma_cells_text(
    cells: Seq<Seq<char>>,
    base: int,
    line: int,
    selection: Option<OutputSelection>,
    n: int,
)
    requires
        0 <= n <= cells.len(),
    ensures
        styled::spans_text(output::spans_of_cells(cells, base, line, selection), n)
            == viewport::joined(cells, 0, n),
    decreases n,
{
    if n > 0 {
        lemma_cells_text(cells, base, line, selection, n - 1);
    }
}

proof fn lemma_marked_text(mark: SpanView, spans: Seq<SpanView>, n: int)
    requires
        0 <= n <= spans.len(),
    ensures
        styled::spans_text(seq![mark] + spans, n + 1) == mark.content + styled::spans_text(
            spans,
            n,
        ),
    decreases n,
{
    let all = seq![mark] + spans;
    reveal_with_fuel(styled::spans_text, 2);
    if n == 0 {
        assert(styled::spans_text(all, 1) =~= mark.content + Seq::<char>::empty());
        assert(mark.content + styled::spans_text(spans, 0) =~= mark.content);
    } else {
        lemma_marked_text(mark, spans, n - 1);
        assert(all[n] == spans[n - 1]);
        assert(styled::spans_text(all, n + 1) =~= mark.content + styled::spans_text(spans, n));
    }
}

/// A row of wrapped output shows its part of its source line, as it is; behind a
/// mark, where it continues the line.
pub proof fn law_text_of_a_wrapped_row(
    source: Seq<char>,
    row: Row,
    width: int,
    offset: int,
    selection: Option<OutputSelection>,
)
    requires
        well_cut(text::byte_slice(source, row.start_byte, row.end_byte)),
    ensures
        pane_laws::line_text(output::row_line(source, row, width, offset, true, selection)) == (
        if row.continuation {
            "↪ "@
        } else {
            ""@
        }) + text::byte_slice(source, row.start_byte, row.end_byte),
{
    reveal_strlit("");
    let part = text::byte_slice(source, row.start_byte, row.end_byte);
    let cells = viewport::clusters(part);
    let spans = output::spans_of_cells(cells, row.start_byte, row.source_line, selection);
    lemma_cells_text(cells, row.start_byte, row.source_line, selection, cells.len() as int);
    if row.continuation {
        lemma_marked_text(output::continuation_mark(), spans, spans.len() as int);
    } else {
        assert(""@ + part =~= part);
    }
}

/// A row of output that is not wrapped shows the columns of its whole source line
/// that are in view.
pub proof fn law_text_of_a_clipped_row(
    source: Seq<char>,
    row: Row,
    width: int,
    offset: int,
    selection: Option<OutputSelection>,
)
    requires
        well_cut(source),
    ensures
        exists|whole: styled::LineView|
            pane_laws::line_text(whole) == source && output::row_line(
                source,
                row,
                width,
                offset,
                false,
                selection,
            ) == #[trigger] viewport::clipped(whole, offset, width),
{
    let cells = viewport::clusters(source);
    lemma_cells_text(cells, 0, row.source_line, selection, cells.len() as int);
    let whole = styled::plain_line(
        output::spans_of_cells(cells, 0, row.source_line, selection),
    );
    assert(pane_laws::line_text(whole) == source);
    assert(output::row_line(source, row, width, offset, false, selection) == viewport::clipped(
        whole,
        offset,
        width,
    ));
}

/// A cell of the output stands out, in black on light blue, exactly where it lies
/// in the selection, in whole or in part: where it starts in front of the end of
/// the selection, and ends behind its start. Without a selection none does.
pub proof fn law_selected_cells_stand_out(
    cells: Seq<Seq<char>>,
    base: int,
    line: int,
    selection: OutputSelection,
    i: int,
)
    requires
        0 <= i < cells.len(),
    ensures
        ({
            let from = base + text::byte_len(viewport::joined(cells, 0, i));
            let to = base + text::byte_len(viewport::joined(cells, 0, i + 1));
            let span = output::spans_of_cells(cells, base, line, Some(selection))[i];
            let meets = {
                &&& line < selection.end.line || line == selection.end.line && from
                    < selection.end.byte
                &&& line > selection.start.line || line == selection.start.line && to
                    > selection.start.byte
            };
            &&& span.content == cells[i]
            &&& meets ==> span.style.fg == Some(Color::Black) && span.style.bg == Some(
                Color::LightBlue,
            )
            &&& !meets ==> span.style.fg is None && span.style.bg is None
            &&& output::spans_of_cells(cells, base, line, None)[i].style.bg is None
            &&& output::spans_of_cells(cells, base, line, None)[i].content == cells[i]
        }),
{
}

/// A point stands in front of another one on an earlier line, or further left on
/// the same line.
pub proof fn law_order_of_points(a: OutputPoint, b: OutputPoint)
    ensures
        a.line < b.line ==> a.lt(b),
        a.line > b.line ==> !a.lt(b),
        a.line == b.line ==> (a.lt(b) <==> a.byte < b.byte),
{
}

/// A selection on one line holds what stands between its ends.
pub proof fn law_selection_on_one_line(lines: Seq<Seq<char>>, selection: OutputSelection)
    requires
        selection.start.line == selection.end.line,
        selection.start.line < lines.len(),
    ensures
        output::selected_until(lines, selection, selection.end.line + 1) == text::byte_slice(
            lines[selection.start.line as int],
            selection.start.byte as int,
            selection.end.byte as int,
        ),
{
    reveal_with_fuel(output::selected_until, 2);
    let part = output::selected_part(lines, selection, selection.start.line as int);
    assert(Seq::<char>::empty() + part =~= part);
}

/// A selection over several lines holds what stands behind its start on the
/// first line, a line feed, and what the selection from the start of the next
/// line on holds.
pub proof fn law_selection_over_lines(lines: Seq<Seq<char>>, selection: OutputSelection, n: int)
    requires
        selection.start.line < selection.end.line < lines.len(),
        selection.start.line + 2 <= n <= selection.end.line + 1,
    ensures
        ({
            let first = lines[selection.start.line as int];
            let rest = OutputSelection {
                start: OutputPoint { line: (selection.start.line + 1) as usize, byte: 0 },
                end: selection.end,
            };
            output::selected_until(lines, selection, n) == text::byte_slice(
                first,
                selection.start.byte as int,
                text::byte_len(first) as int,
            ) + seq!['\n'] + output::selected_until(lines, rest, n)
        }),
    decreases n,
{
    let first = lines[selection.start.line as int];
    let rest = OutputSelection {
        start: OutputPoint { line: (selection.start.line + 1) as usize, byte: 0 },
        end: selection.end,
    };
    let head = text::byte_slice(
        first,
        selection.start.byte as int,
        text::byte_len(first) as int,
    );
    reveal_with_fuel(output::selected_until, 3);
    if n == selection.start.line + 2 {
        assert(output::selected_until(lines, selection, n) =~= head + seq!['\n']
            + output::selected_until(lines, rest, n));
    } else {
        law_selection_over_lines(lines, selection, n - 1);
        assert(output::selected_until(lines, selection, n) =~= head + seq!['\n']
            + output::selected_until(lines, rest, n));
    }
}

/// A line without text is one row, wrapped or not.
pub proof fn law_an_empty_line_is_one_row(index: int, width: int, wrap: bool)
    requires
        well_cut(Seq::empty()),
    ensures
        output::line_rows(Seq::empty(), index, width, wrap) == seq![
            Row { source_line: index, start_byte: 0, end_byte: 0, continuation: false },
        ],
{
    let line = Seq::<char>::empty();
    let cells = viewport::clusters(line);
    assert(cells.len() == 0) by {
        if cells.len() > 0 {
            viewport::lemma_joined_split(cells, 0, 1, cells.len() as int);
            assert(cells[0].len() > 0);
            assert(viewport::joined(cells, 0, 0) =~= Seq::<char>::empty());
            assert(viewport::joined(cells, 0, 1).len() == cells[0].len());
        }
    }
    vstd::utf8::is_ascii_chars_encode_utf8(line);
    assert(output::line_rows(line, index, width, wrap) =~= seq![
        Row { source_line: index, start_byte: 0, end_byte: 0, continuation: false },
    ]);
}

proof fn lemma_no_limit(widths: Seq<usize>, start: int, end: int)
    requires
        0 <= start <= end <= widths.len(),
    ensures
        viewport::row_end(widths, start, end, 0) == widths.len(),
    decreases widths.len() - end,
{
    if end < widths.len() {
        lemma_no_limit(widths, start, end + 1);
    }
}

/// Rows without a width have no limit: one takes all cells. A first row without a
/// width is as wide as the others.
pub proof fn law_rows_without_a_width(widths: Seq<usize>, other: int)
    requires
        widths.len() > 0,
    ensures
        viewport::wrap_rows_spec(widths, 0, 0) == seq![(0int, widths.len() as int)],
        viewport::wrap_rows_spec(widths, 0, other) == viewport::wrap_rows_spec(
            widths,
            other,
            other,
        ),
{
    lemma_no_limit(widths, 0, 0);
    let n = widths.len() as int;
    assert(viewport::rows_from(widths, n, 0, 0) =~= Seq::<(int, int)>::empty());
    assert(viewport::wrap_rows_spec(widths, 0, 0) =~= seq![(0int, n)]);
}

} // verus!
