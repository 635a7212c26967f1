//! What becomes of a log: what each character does to the text, and how lines
//! and control sequences are read.
use vstd::prelude::*;

use crate::decode;
use crate::log_decoder;
use crate::log_decoder::{EscapeState, Screen};
use crate::viewport;

verus! {

/// Whether a character is shown: it is no control character.
pub open spec fn shows(c: char) -> bool {
    ' ' <= c && c <= '~' || '\u{a0}' <= c
}

/// Whether all characters of a text are shown.
pub open spec fn all_show(s: Seq<char>) -> bool {
    forall|i: int| 0 <= i < s.len() ==> shows(#[trigger] s[i])
}

/// The lines, each with `end` behind it.
pub open spec fn ended(lines: Seq<Seq<char>>, end: Seq<char>) -> Seq<char>
    decreases lines.len(),
{
    if lines.len() == 0 {
        Seq::empty()
    } else {
        ended(lines.drop_last(), end) + lines.last() + end
    }
}

/// The control characters are those below the space, and those from U+007F to
/// U+009F; every other character is shown.
pub proof fn law_control_characters(c: char)
    ensures
        log_decoder::control(c) <==> !shows(c),
        log_decoder::control(c) <==> (c as u32) < 32 || 127 <= c as u32 <= 159,
{
}

/// A line feed removes nothing: wherever the cursor stands, the text stays as it
/// is and gets a line feed at its end, behind which the new line starts.
pub proof fn law_line_feed_ends_the_text(screen: Screen)
    requires
        screen.wf(),
        screen.escape == EscapeState::Text,
    ensures
        ({
            let after = log_decoder::write(screen, '\n');
            &&& after.text.len() == screen.text.len() + 1
            &&& after.text.last() == '\n'
            &&& forall|i: int| 0 <= i < screen.text.len() ==> after.text[i] == screen.text[i]
            &&& after.line_start == after.text.len()
            &&& after.cursor == after.text.len()
            &&& after.escape == EscapeState::Text
        }),
{
}

/// A carriage return changes no text; the cursor goes to the start of the line.
pub proof fn law_carriage_return_goes_to_the_start(screen: Screen)
    requires
        screen.wf(),
        screen.escape == EscapeState::Text,
    ensures
        ({
            let after = log_decoder::write(screen, '\r');
            &&& after.text == screen.text
            &&& after.line_start == screen.line_start
            &&& after.cursor == screen.line_start
            &&& after.escape == EscapeState::Text
        }),
{
}

/// A backspace changes no text; the cursor goes back by one character, but not
/// to an earlier line.
pub proof fn law_backspace_goes_back(screen: Screen)
    requires
        screen.wf(),
        screen.escape == EscapeState::Text,
    ensures
        ({
            let after = log_decoder::write(screen, '\u{8}');
            &&& after.text == screen.text
            &&& after.line_start == screen.line_start
            &&& screen.cursor > screen.line_start ==> after.cursor == screen.cursor - 1
            &&& screen.cursor == screen.line_start ==> after.cursor == screen.cursor
            &&& after.escape == EscapeState::Text
        }),
{
}

/// A character that is shown takes the place of the one at the cursor, or stands
/// at the end of the text, and no other place changes. The cursor goes behind
/// it.
pub proof fn law_shown_characters_replace(screen: Screen, c: char)
    requires
        screen.wf(),
        screen.escape == EscapeState::Text,
        shows(c),
    ensures
        ({
            let after = log_decoder::write(screen, c);
            &&& after.text[screen.cursor] == c
            &&& after.text.len() == if screen.cursor == screen.text.len() {
                screen.text.len() + 1
            } else {
                screen.text.len()
            }
            &&& forall|i: int|
                0 <= i < screen.text.len() && i != screen.cursor ==> after.text[i]
                    == screen.text[i]
            &&& after.cursor == screen.cursor + 1
            &&& after.line_start == screen.line_start
            &&& after.escape == EscapeState::Text
        }),
{
}

/// A character that was written is taken back by a backspace and another
/// character: only the later one is left, and the cursor stands behind it.
pub proof fn law_backspace_corrects(screen: Screen, wrong: char, right: char)
    requires
        screen.wf(),
        screen.escape == EscapeState::Text,
        shows(wrong),
        shows(right),
    ensures
        log_decoder::write(
            log_decoder::write(log_decoder::write(screen, wrong), '\u{8}'),
            right,
        ) == log_decoder::write(screen, right),
{
    let once = log_decoder::write(screen, right);
    let twice = log_decoder::write(
        log_decoder::write(log_decoder::write(screen, wrong), '\u{8}'),
        right,
    );
    assert(once.text =~= twice.text);
}

/// A control character without a meaning of its own does nothing.
pub proof fn law_other_control_characters_do_nothing(screen: Screen, c: char)
    requires
        screen.escape == EscapeState::Text,
        !shows(c),
        c != '\n' && c != '\r' && c != '\t' && c != '\u{8}',
        c != '\u{1b}' && c != '\u{9b}' && c != '\u{9d}',
    ensures
        log_decoder::write(screen, c) == screen,
{
}

proof fn lemma_spaces_put(screen: Screen, n: int)
    requires
        screen.wf(),
        0 <= n,
    ensures
        ({
            let after = log_decoder::put_times(screen, ' ', n);
            &&& after.wf()
            &&& after.cursor == screen.cursor + n
            &&& after.line_start == screen.line_start
            &&& after.escape == screen.escape
            &&& after.text.len() == if screen.cursor + n > screen.text.len() {
                screen.cursor + n
            } else {
                screen.text.len() as int
            }
            &&& forall|i: int|
                0 <= i < after.text.len() ==> #[trigger] after.text[i] == if screen.cursor <= i
                    < screen.cursor + n {
                    ' '
                } else {
                    screen.text[i]
                }
        }),
    decreases n,
{
    if n > 0 {
        lemma_spaces_put(screen, n - 1);
    }
}

/// A tab writes between one and eight spaces, so that the columns in front of
/// the cursor, together with them, fill up to a multiple of eight. No other
/// place changes.
pub proof fn law_tab_writes_spaces(screen: Screen)
    requires
        screen.wf(),
        screen.escape == EscapeState::Text,
    ensures
        ({
            let after = log_decoder::write(screen, '\t');
            let columns = viewport::text_width(
                screen.text.subrange(screen.line_start, screen.cursor),
            );
            let count = after.cursor - screen.cursor;
            &&& 1 <= count <= 8
            &&& (columns + count) % 8 == 0
            &&& after.text.len() == if after.cursor > screen.text.len() {
                after.cursor
            } else {
                screen.text.len() as int
            }
            &&& forall|i: int| screen.cursor <= i < after.cursor ==> after.text[i] == ' '
            &&& forall|i: int|
                0 <= i < screen.text.len() && !(screen.cursor <= i < after.cursor)
                    ==> after.text[i] == screen.text[i]
            &&& after.line_start == screen.line_start
            &&& after.escape == EscapeState::Text
        }),
{
    lemma_spaces_put(screen, log_decoder::tab_spaces(screen));
}

proof fn lemma_write_two(screen: Screen, a: char, b: char)
    ensures
        log_decoder::write_all(screen, seq![a, b]) == log_decoder::write(
            log_decoder::write(screen, a),
            b,
        ),
        log_decoder::write_all(screen, seq![a]) == log_decoder::write(screen, a),
{
    assert(seq![a, b].drop_last() =~= seq![a]);
    assert(seq![a].drop_last() =~= Seq::<char>::empty());
    assert(log_decoder::write_all(screen, Seq::<char>::empty()) == screen);
}

proof fn lemma_shown_line(screen: Screen, line: Seq<char>)
    requires
        screen.wf(),
        screen.escape == EscapeState::Text,
        screen.cursor == screen.text.len(),
        all_show(line),
    ensures
        log_decoder::write_all(screen, line) == (Screen {
            text: screen.text + line,
            cursor: screen.cursor + line.len(),
            ..screen
        }),
{
    log_decoder::law_printable_text_is_appended(screen, line);
}

/// Lines that end with a line feed, or with a carriage return and a line feed,
/// are shown whole, in their order, with a line feed behind each.
pub proof fn law_lines_are_kept(screen: Screen, lines: Seq<Seq<char>>, end: Seq<char>)
    requires
        screen.wf(),
        screen.escape == EscapeState::Text,
        screen.cursor == screen.text.len(),
        forall|k: int| 0 <= k < lines.len() ==> all_show(#[trigger] lines[k]),
        end == seq!['\n'] || end == seq!['\r', '\n'],
    ensures
        ({
            let after = log_decoder::write_all(screen, ended(lines, end));
            &&& after.text == screen.text + ended(lines, seq!['\n'])
            &&& after.cursor == after.text.len()
            &&& after.wf()
            &&& after.escape == EscapeState::Text
            &&& lines.len() > 0 ==> after.line_start == after.text.len()
        }),
    decreases lines.len(),
{
    if lines.len() == 0 {
        assert(screen.text + ended(lines, seq!['\n']) =~= screen.text);
        assert(log_decoder::write_all(screen, Seq::<char>::empty()) == screen);
    } else {
        let front = lines.drop_last();
        let line = lines.last();
        assert(all_show(lines[lines.len() - 1]));
        assert forall|k: int| 0 <= k < front.len() implies all_show(#[trigger] front[k]) by {
            assert(front[k] == lines[k]);
        }
        law_lines_are_kept(screen, front, end);
        let start = log_decoder::write_all(screen, ended(front, end));
        log_decoder::lemma_write_concat(screen, ended(front, end), line);
        log_decoder::lemma_write_concat(screen, ended(front, end) + line, end);
        lemma_shown_line(start, line);
        let shown = log_decoder::write_all(start, line);
        lemma_write_two(shown, '\r', '\n');
        lemma_write_two(shown, '\n', '\n');
        assert(shown.text.push('\n') =~= screen.text + ended(lines, seq!['\n']));
    }
}

/// An empty log that gets lines gets those lines.
pub proof fn law_a_log_of_lines(lines: Seq<Seq<char>>, end: Seq<char>)
    requires
        forall|k: int| 0 <= k < lines.len() ==> all_show(#[trigger] lines[k]),
        end == seq!['\n'] || end == seq!['\r', '\n'],
    ensures
        log_decoder::write_all(log_decoder::blank(), ended(lines, end)).text == ended(
            lines,
            seq!['\n'],
        ),
{
    law_lines_are_kept(log_decoder::blank(), lines, end);
    assert(log_decoder::blank().text + ended(lines, seq!['\n']) =~= ended(lines, seq!['\n']));
}

/// A line that is written over after a carriage return by one that is no
/// shorter is gone; the later line is left.
pub proof fn law_progress_is_replaced(screen: Screen, first: Seq<char>, second: Seq<char>)
    requires
        screen.wf(),
        screen.escape == EscapeState::Text,
        screen.cursor == screen.text.len(),
        screen.line_start == screen.text.len(),
        all_show(first),
        all_show(second),
        first.len() <= second.len(),
    ensures
        log_decoder::write_all(screen, first + seq!['\r'] + second).text == screen.text + second,
{
    lemma_shown_line(screen, first);
    let shown = log_decoder::write_all(screen, first);
    log_decoder::law_carriage_return_overwrites(shown, second);
    log_decoder::lemma_write_concat(screen, first, seq!['\r'] + second);
    assert(first + seq!['\r'] + second =~= first + (seq!['\r'] + second));
    assert(log_decoder::write_all(screen, first + seq!['\r'] + second).text =~= screen.text
        + second);
}

/// Whether a text can stand between the start of a control sequence and the
/// character that ends it.
pub open spec fn parameters_of_sequence(s: Seq<char>) -> bool {
    forall|i: int| 0 <= i < s.len() ==> !('@' <= #[trigger] s[i] && s[i] <= '~')
}

proof fn lemma_parameters(screen: Screen, s: Seq<char>)
    requires
        screen.escape == EscapeState::Csi,
        screen.parameters.len() == 0,
        parameters_of_sequence(s),
    ensures
        ({
            let after = log_decoder::write_all(screen, s);
            &&& after == (Screen { parameters: after.parameters, ..screen })
            &&& s.len() <= 2 ==> after.parameters == s
            &&& s.len() >= 2 ==> after.parameters.len() >= 2
        }),
    decreases s.len(),
{
    if s.len() == 0 {
        assert(screen.parameters =~= s);
    } else {
        let front = s.drop_last();
        lemma_parameters(screen, front);
        assert(!('@' <= s[s.len() - 1] && s[s.len() - 1] <= '~'));
        assert(front.push(s.last()) =~= s);
        crate::text::lemma_byte_len_bounds(log_decoder::write_all(screen, front).parameters);
    }
}

/// A control sequence starts with an escape and a bracket, or with the character
/// that stands for both.
pub open spec fn starts_sequence(start: Seq<char>) -> bool {
    start == seq!['\u{1b}', '['] || start == seq!['\u{9b}']
}

proof fn lemma_start(screen: Screen, start: Seq<char>)
    requires
        screen.escape == EscapeState::Text,
        starts_sequence(start),
    ensures
        log_decoder::write_all(screen, start) == (Screen {
            escape: EscapeState::Csi,
            parameters: Seq::empty(),
            ..screen
        }),
{
    lemma_write_two(screen, '\u{1b}', '[');
    lemma_write_two(screen, '\u{9b}', '[');
}

/// What the erase-line sequence leaves, by its parameters: with `2` nothing of
/// the line, and the cursor at its start; with `1` the line with spaces in front
/// of the cursor; with anything else what stands in front of the cursor. Earlier
/// lines stay.
pub proof fn law_erasing_a_line(screen: Screen, start: Seq<char>, parameters: Seq<char>)
    requires
        screen.wf(),
        screen.escape == EscapeState::Text,
        starts_sequence(start),
        parameters_of_sequence(parameters),
    ensures
        ({
            let after = log_decoder::write_all(screen, start + parameters + seq!['K']);
            let begin = screen.line_start;
            &&& after.escape == EscapeState::Text
            &&& after.line_start == begin
            &&& after.text.len() >= begin
            &&& forall|i: int| 0 <= i < begin ==> after.text[i] == screen.text[i]
            &&& if parameters == seq!['2'] {
                after.text.len() == begin && after.cursor == begin
            } else if parameters == seq!['1'] {
                &&& after.cursor == screen.cursor
                &&& after.text.len() == screen.text.len()
                &&& forall|i: int| begin <= i < screen.cursor ==> after.text[i] == ' '
                &&& forall|i: int|
                    screen.cursor <= i < screen.text.len() ==> after.text[i] == screen.text[i]
            } else {
                &&& after.cursor == screen.cursor
                &&& after.text.len() == screen.cursor
                &&& forall|i: int|
                    begin <= i < screen.cursor ==> after.text[i] == screen.text[i]
            }
        }),
{
    lemma_start(screen, start);
    let opened = log_decoder::write_all(screen, start);
    lemma_parameters(opened, parameters);
    let read = log_decoder::write_all(opened, parameters);
    log_decoder::lemma_write_concat(screen, start, parameters);
    log_decoder::lemma_write_concat(screen, start + parameters, seq!['K']);
    lemma_write_two(read, 'K', 'K');
    assert(seq!['1'].len() == 1 && seq!['2'].len() == 1);
    assert(seq!['1'][0] != seq!['2'][0]);
    assert(read.parameters == seq!['1'] <==> parameters == seq!['1']);
    assert(read.parameters == seq!['2'] <==> parameters == seq!['2']);
}

/// A control sequence that ends with another character, as one that sets a
/// colour, leaves text and cursor alone, and what follows it is text again.
pub proof fn law_colours_are_dropped(
    screen: Screen,
    start: Seq<char>,
    parameters: Seq<char>,
    last: char,
)
    requires
        screen.escape == EscapeState::Text,
        starts_sequence(start),
        parameters_of_sequence(parameters),
        '@' <= last && last <= '~',
        last != 'K',
    ensures
        ({
            let after = log_decoder::write_all(screen, start + parameters + seq![last]);
            &&& after.text == screen.text
            &&& after.cursor == screen.cursor
            &&& after.line_start == screen.line_start
            &&& after.escape == EscapeState::Text
        }),
{
    lemma_start(screen, start);
    let opened = log_decoder::write_all(screen, start);
    lemma_parameters(opened, parameters);
    log_decoder::lemma_write_concat(screen, start, parameters);
    log_decoder::lemma_write_concat(screen, start + parameters, seq![last]);
    lemma_write_two(log_decoder::write_all(opened, parameters), last, last);
}

/// An escape in front of any other character is dropped with that character.
pub proof fn law_other_escapes_are_dropped(screen: Screen, c: char)
    requires
        screen.escape == EscapeState::Text,
        c != '[' && c != ']',
    ensures
        log_decoder::write_all(screen, seq!['\u{1b}', c]) == screen,
{
    lemma_write_two(screen, '\u{1b}', c);
}

/// Whether a text can stand in an operating system command: it holds no bell,
/// and no escape in front of a backslash or at its end.
pub open spec fn stays_in_command(s: Seq<char>) -> bool {
    &&& forall|i: int| 0 <= i < s.len() ==> #[trigger] s[i] != '\u{7}'
    &&& forall|i: int|
        0 <= i < s.len() && #[trigger] s[i] == '\u{1b}' ==> i + 1 < s.len() && s[i + 1] != '\\'
            && s[i + 1] != '\u{1b}'
}

proof fn lemma_command_body(screen: Screen, s: Seq<char>, n: int)
    requires
        screen.escape == EscapeState::Osc,
        stays_in_command(s),
        0 <= n <= s.len(),
    ensures
        log_decoder::write_all(screen, s.take(n)) == (Screen {
            escape: if n > 0 && s[n - 1] == '\u{1b}' {
                EscapeState::OscEscape
            } else {
                EscapeState::Osc
            },
            ..screen
        }),
    decreases n,
{
    if n > 0 {
        lemma_command_body(screen, s, n - 1);
        assert(s.take(n).drop_last() =~= s.take(n - 1));
        assert(s.take(n).last() == s[n - 1]);
        if n > 1 {
            assert(s[n - 2] == '\u{1b}' ==> s[n - 2 + 1] != '\\' && s[n - 2 + 1] != '\u{1b}');
        }
        assert(s[n - 1] != '\u{7}');
    }
}

/// An operating system command, as one that sets the window title, leaves
/// everything alone, whichever way it starts, and whether it ends with a bell or
/// with an escape and a backslash.
pub proof fn law_titles_are_dropped(
    screen: Screen,
    start: Seq<char>,
    body: Seq<char>,
    end: Seq<char>,
)
    requires
        screen.escape == EscapeState::Text,
        start == seq!['\u{1b}', ']'] || start == seq!['\u{9d}'],
        stays_in_command(body),
        end == seq!['\u{7}'] || end == seq!['\u{1b}', '\\'],
    ensures
        log_decoder::write_all(screen, start + body + end) == screen,
{
    lemma_write_two(screen, '\u{1b}', ']');
    lemma_write_two(screen, '\u{9d}', ']');
    let opened = log_decoder::write_all(screen, start);
    lemma_command_body(opened, body, body.len() as int);
    assert(body.take(body.len() as int) =~= body);
    log_decoder::lemma_write_concat(screen, start, body);
    log_decoder::lemma_write_concat(screen, start + body, end);
    if body.len() > 0 {
        assert(body[body.len() - 1] != '\u{1b}');
    }
    let read = log_decoder::write_all(opened, body);
    lemma_write_two(read, '\u{7}', '\u{7}');
    lemma_write_two(read, '\u{1b}', '\\');
}

/// A byte that goes on with no character, as every ASCII character, is read on
/// its own: a character that was begun in front of it costs one U+FFFD, and what
/// follows is read as if nothing had come before.
pub proof fn law_a_new_character_is_not_swallowed(s: Seq<u8>, t: Seq<u8>)
    requires
        t.len() > 0,
        t[0] < 0x80 || t[0] >= 0xc0,
    ensures
        decode::pending(s).len() == 0 ==> decode::decoded(s + t) == decode::decoded(s)
            + decode::decoded(t),
        decode::pending(s).len() > 0 ==> decode::decoded(s + t) == decode::decoded(s).push(
            '\u{fffd}',
        ) + decode::decoded(t),
        decode::pending(s + t) == decode::pending(t),
{
    decode::law_decode_in_pieces(s, t);
    decode::law_pending_is_short(s);
    let left = decode::pending(s);
    if left.len() == 0 {
        assert(left + t =~= t);
    } else {
        let all = left + t;
        assert(left.len() == 1 || left.len() == 2 || left.len() == 3);
        assert(all[0] == left[0]);
        assert(all[left.len() as int] == t[0]);
        if left.len() >= 2 {
            assert(all[1] == left[1]);
        }
        if left.len() >= 3 {
            assert(all[2] == left[2]);
        }
        assert(decode::first_step(left) is Incomplete);
        assert(!vstd::utf8::is_continuation_byte(t[0])) by {
            let b = t[0];
            assert(!(0x80 <= b <= 0xbf));
        }
        assert(decode::first_step(all) == (decode::Step::Invalid { len: left.len() as usize }));
        assert(all.skip(left.len() as int) =~= t);
        assert(decode::decoded(s + t) =~= decode::decoded(s).push('\u{fffd}') + decode::decoded(
            t,
        ));
    }
}

/// A byte that occurs in no character costs one U+FFFD, and what follows is read
/// as if nothing had come before.
pub proof fn law_an_invalid_byte_is_replaced(b: u8, t: Seq<u8>)
    requires
        0x80 <= b <= 0xc1 || 0xf5 <= b,
    ensures
        decode::decoded(seq![b] + t) == seq!['\u{fffd}'] + decode::decoded(t),
        decode::pending(seq![b] + t) == decode::pending(t),
{
    assert((seq![b] + t)[0] == b);
    assert((seq![b] + t).skip(1) =~= t);
}

/// Whatever text comes first is read as it is, and what follows as if nothing
/// had come before.
pub proof fn law_text_before_is_read_first(chars: Seq<char>, t: Seq<u8>)
    ensures
        decode::decoded(vstd::utf8::encode_utf8(chars) + t) == chars + decode::decoded(t),
        decode::pending(vstd::utf8::encode_utf8(chars) + t) == decode::pending(t),
{
    decode::law_decode_valid_text(chars);
    decode::law_decode_in_pieces(vstd::utf8::encode_utf8(chars), t);
    assert(Seq::<u8>::empty() + t =~= t);
}

/// In a text of which the end of a character is missing, that character is
/// replaced; otherwise the text is what was read.
pub proof fn law_an_unfinished_end_is_replaced(s: Seq<u8>)
    ensures
        decode::pending(s).len() == 0 ==> decode::lossy(s) == decode::decoded(s),
        decode::pending(s).len() > 0 ==> decode::lossy(s) == decode::decoded(s).push('\u{fffd}'),
{
}

/// Two bytes of which the second cannot follow the first, because they would
/// encode too small a number, a surrogate, or one beyond the last character, are
/// read one by one: the first costs one U+FFFD.
pub proof fn law_bytes_that_do_not_fit(first: u8, second: u8, t: Seq<u8>)
    requires
        ({
            ||| first == 0xe0 && 0x80 <= second < 0xa0
            ||| first == 0xed && 0xa0 <= second <= 0xbf
            ||| first == 0xf0 && 0x80 <= second < 0x90
            ||| first == 0xf4 && 0x90 <= second <= 0xbf
        }),
    ensures
        decode::decoded(seq![first, second] + t) == seq!['\u{fffd}', '\u{fffd}']
            + decode::decoded(t),
        decode::pending(seq![first, second] + t) == decode::pending(t),
{
    let s = seq![first, second] + t;
    assert(s[0] == first && s[1] == second);
    assert(decode::first_step(s) == (decode::Step::Invalid { len: 1 }));
    assert(s.skip(1) =~= seq![second] + t);
    law_an_invalid_byte_is_replaced(second, t);
    assert(decode::decoded(s) =~= seq!['\u{fffd}', '\u{fffd}'] + decode::decoded(t));
}

} // verus!
