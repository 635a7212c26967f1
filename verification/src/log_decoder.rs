//! Decoding of log bytes into the text that a terminal would show.
//!
//! Carriage returns, backspaces, tabs and the erase-line sequence edit the last
//! line in place; other control sequences are dropped. Bytes may arrive in any
//! pieces.
use vstd::prelude::*;

use crate::decode::Step;
use crate::decode;
use crate::standard;
use crate::text;
use crate::viewport;

verus! {

/// Columns between two tab stops.
pub const TAB_WIDTH: usize = 8;

/// Longest control sequence parameters that are kept, in bytes.
pub const MAX_PARAMETERS: usize = 32;

/// How far a control sequence has been read.
#[derive(Clone, Copy, Debug, PartialEq, Eq, Structural)]
pub enum EscapeState {
    /// Outside of any sequence.
    Text,
    /// After an escape character.
    Escape,
    /// Inside a control sequence.
    Csi,
    /// Inside an operating system command.
    Osc,
    /// Inside an operating system command, after an escape character.
    OscEscape,
}

/// The text written so far, and where the next character goes. Positions count
/// characters.
#[verifier::ext_equal]
pub struct Screen {
    pub text: Seq<char>,
    /// Start of the last line.
    pub line_start: int,
    /// Where the next character is written.
    pub cursor: int,
    pub escape: EscapeState,
    /// Parameters of the control sequence that is being read.
    pub parameters: Seq<char>,
}

impl Screen {
    /// The cursor stands on the last line.
    pub open spec fn wf(self) -> bool {
        0 <= self.line_start <= self.cursor <= self.text.len()
    }
}

/// The screen without any text.
pub open spec fn blank() -> Screen {
    Screen {
        text: Seq::empty(),
        line_start: 0,
        cursor: 0,
        escape: EscapeState::Text,
        parameters: Seq::empty(),
    }
}

/// Whether `c` is a control character.
pub open spec fn control(c: char) -> bool {
    c < ' ' || ('\u{7f}' <= c && c <= '\u{9f}')
}

/// `c` written at the cursor, over the character that stands there.
pub open spec fn put(screen: Screen, c: char) -> Screen {
    Screen {
        text: if screen.cursor < screen.text.len() {
            screen.text.update(screen.cursor, c)
        } else {
            screen.text.push(c)
        },
        cursor: screen.cursor + 1,
        ..screen
    }
}

/// `c` written `n` times.
pub open spec fn put_times(screen: Screen, c: char, n: int) -> Screen
    decreases n,
{
    if n <= 0 {
        screen
    } else {
        put(put_times(screen, c, n - 1), c)
    }
}

/// The last line, or a part of it, erased: all of it for the parameter `2`, the
/// part up to the cursor (which becomes blank) for `1`, and what follows the
/// cursor otherwise.
pub open spec fn erased(screen: Screen) -> Screen {
    if screen.parameters == seq!['2'] {
        Screen {
            text: screen.text.take(screen.line_start),
            cursor: screen.line_start,
            ..screen
        }
    } else if screen.parameters == seq!['1'] {
        Screen {
            text: screen.text.take(screen.line_start) + viewport::spaces(
                screen.cursor - screen.line_start,
            ) + screen.text.skip(screen.cursor),
            ..screen
        }
    } else {
        Screen { text: screen.text.take(screen.cursor), ..screen }
    }
}

/// Spaces from the cursor to the next tab stop.
pub open spec fn tab_spaces(screen: Screen) -> int {
    TAB_WIDTH - viewport::text_width(screen.text.subrange(screen.line_start, screen.cursor))
        % (TAB_WIDTH as nat)
}

/// What a character does outside of any control sequence.
pub open spec fn write_text(screen: Screen, c: char) -> Screen {
    if c == '\u{1b}' {
        Screen { escape: EscapeState::Escape, ..screen }
    } else if c == '\u{9b}' {
        Screen { escape: EscapeState::Csi, parameters: Seq::empty(), ..screen }
    } else if c == '\u{9d}' {
        Screen { escape: EscapeState::Osc, ..screen }
    } else if c == '\n' {
        Screen {
            text: screen.text.push('\n'),
            line_start: screen.text.len() + 1int,
            cursor: screen.text.len() + 1int,
            ..screen
        }
    } else if c == '\r' {
        Screen { cursor: screen.line_start, ..screen }
    } else if c == '\u{8}' {
        Screen {
            cursor: if screen.cursor > screen.line_start {
                screen.cursor - 1
            } else {
                screen.line_start
            },
            ..screen
        }
    } else if c == '\t' {
        put_times(screen, ' ', tab_spaces(screen))
    } else if control(c) {
        screen
    } else {
        put(screen, c)
    }
}

/// What a character does.
pub open spec fn write(screen: Screen, c: char) -> Screen {
    match screen.escape {
        EscapeState::Escape => if c == '[' {
            Screen { escape: EscapeState::Csi, parameters: Seq::empty(), ..screen }
        } else if c == ']' {
            Screen { escape: EscapeState::Osc, ..screen }
        } else {
            Screen { escape: EscapeState::Text, ..screen }
        },
        EscapeState::Csi => if '@' <= c && c <= '~' {
            Screen {
                escape: EscapeState::Text,
                ..if c == 'K' {
                    erased(screen)
                } else {
                    screen
                }
            }
        } else if text::byte_len(screen.parameters) < MAX_PARAMETERS {
            Screen { parameters: screen.parameters.push(c), ..screen }
        } else {
            screen
        },
        EscapeState::Osc => if c == '\u{7}' {
            Screen { escape: EscapeState::Text, ..screen }
        } else if c == '\u{1b}' {
            Screen { escape: EscapeState::OscEscape, ..screen }
        } else {
            screen
        },
        EscapeState::OscEscape => if c == '\\' {
            Screen { escape: EscapeState::Text, ..screen }
        } else {
            Screen { escape: EscapeState::Osc, ..screen }
        },
        EscapeState::Text => write_text(screen, c),
    }
}

/// What a sequence of characters does.
pub open spec fn write_all(screen: Screen, chars: Seq<char>) -> Screen
    decreases chars.len(),
{
    if chars.len() == 0 {
        screen
    } else {
        write(write_all(screen, chars.drop_last()), chars.last())
    }
}

/// Decodes log bytes into a text that the caller owns.
#[derive(Debug)]
pub struct LogTextDecoder {
    pending_utf8: Vec<u8>,
    escape_state: EscapeState,
    csi_parameters: String,
    line_start: usize,
    cursor: usize,
}

impl Default for LogTextDecoder {
    fn default() -> (r: Self)
        ensures
            r.pending() == Seq::<u8>::empty(),
            forall|output: Seq<char>| #[trigger] r.fits(output),
            forall|output: Seq<char>| #[trigger]
                r.screen(output) == (Screen { text: output, ..blank() }),
    {
        let r: LogTextDecoder = LogTextDecoder {
            pending_utf8: Vec::new(),
            escape_state: EscapeState::Text,
            csi_parameters: String::new(),
            line_start: 0,
            cursor: 0,
        };
        assert forall|output: Seq<char>| #[trigger] r.fits(output) by {
            text::lemma_ends_on_boundary(output);
        }
        r
    }
}

impl LogTextDecoder {
    /// Bytes of a character whose end has not arrived.
    pub closed spec fn pending(self) -> Seq<u8> {
        self.pending_utf8@
    }

    /// Whether the decoder's positions are positions of `output`.
    pub closed spec fn fits(self, output: Seq<char>) -> bool {
        &&& self.line_start <= self.cursor
        &&& text::on_boundary(output, self.line_start as int)
        &&& text::on_boundary(output, self.cursor as int)
    }

    /// The screen that `output` and the decoder make up.
    pub closed spec fn screen(self, output: Seq<char>) -> Screen {
        Screen {
            text: output,
            line_start: text::char_pos(output, self.line_start as int),
            cursor: text::char_pos(output, self.cursor as int),
            escape: self.escape_state,
            parameters: self.csi_parameters@,
        }
    }

    /// The text of the screen is the output.
    pub proof fn lemma_screen_text(self, output: Seq<char>)
        ensures
            self.screen(output).text == output,
    {
    }

    proof fn lemma_fits(self, output: Seq<char>)
        requires
            self.fits(output),
        ensures
            self.screen(output).wf(),
            self.line_start == text::byte_pos(output, self.screen(output).line_start),
            self.cursor == text::byte_pos(output, self.screen(output).cursor),
            self.cursor <= text::byte_len(output),
    {
        text::lemma_byte_slice(output, self.line_start as int, self.cursor as int);
        text::lemma_boundary(output, self.line_start as int);
        text::lemma_boundary(output, self.cursor as int);
    }

    fn write_printable(&mut self, character: char, output: &mut String)
        requires
            old(self).fits(old(output)@),
        ensures
            final(self).fits(final(output)@),
            final(self).screen(final(output)@) == put(old(self).screen(old(output)@), character),
            final(self).pending() == old(self).pending(),
    {
        let ghost before = output@;
        let ghost k = self.screen(before).cursor;
        let ghost start = self.screen(before).line_start;
        proof {
            self.lemma_fits(before);
        }
        let size: usize = text::utf8_len(character);
        if self.cursor < output.as_str().as_bytes().len() {
            let old_size: usize = text::char_len_at(output.as_str(), self.cursor);
            proof {
                text::lemma_byte_pos_step(before, k);
                text::lemma_char_pos(before, k + 1);
            }
            let old_end: usize = self.cursor + old_size;
            let mut piece: String = String::new();
            piece.push(character);
            standard::replace_range(output, self.cursor, old_end, piece.as_str());
            assert(output@ =~= before.update(k, character));
        } else {
            proof {
                if k < before.len() {
                    text::lemma_byte_pos_step(before, k);
                    text::lemma_char_bytes(before[k]);
                }
            }
            output.push(character);
            assert(output@ =~= before.push(character));
        }
        let room: usize = output.as_str().as_bytes().len();
        proof {
            assert(output@.take(start) =~= before.take(start));
            assert(output@.take(k) =~= before.take(k));
            text::lemma_common_prefix(before, output@, start);
            text::lemma_common_prefix(before, output@, k);
            text::lemma_byte_pos_step(output@, k);
            text::lemma_char_pos(output@, k + 1);
        }
        self.cursor = self.cursor + size;
    }

    fn erase_line(&mut self, output: &mut String)
        requires
            old(self).fits(old(output)@),
        ensures
            final(self).fits(final(output)@),
            final(self).screen(final(output)@) == erased(old(self).screen(old(output)@)),
            final(self).pending() == old(self).pending(),
    {
        let ghost before = output@;
        let ghost k = self.screen(before).cursor;
        let ghost start = self.screen(before).line_start;
        proof {
            self.lemma_fits(before);
            reveal_strlit("2");
            reveal_strlit("1");
            assert("2"@ =~= seq!['2']);
            assert("1"@ =~= seq!['1']);
        }
        if text::same_text(self.csi_parameters.as_str(), "2") {
            output.truncate(self.line_start);
            self.cursor = self.line_start;
            proof {
                assert(output@ =~= before.take(start));
                assert(output@.take(start) =~= before.take(start));
                text::lemma_common_prefix(before, output@, start);
            }
        } else if text::same_text(self.csi_parameters.as_str(), "1") {
            let part: &str = text::slice(output.as_str(), self.line_start, self.cursor);
            let count: usize = text::char_count(part);
            let mut blank: String = String::new();
            viewport::push_spaces(&mut blank, count);
            standard::replace_range(output, self.line_start, self.cursor, blank.as_str());
            let room: usize = output.as_str().as_bytes().len();
            proof {
                assert(blank@ =~= viewport::spaces(k - start));
                assert(output@ =~= before.take(start) + viewport::spaces(k - start) + before.skip(
                    k,
                ));
                assert(output@.take(start) =~= before.take(start));
                text::lemma_common_prefix(before, output@, start);
                assert(output@.take(k) =~= before.take(start) + viewport::spaces(k - start));
                text::lemma_encode_concat(before.take(start), viewport::spaces(k - start));
                lemma_spaces_bytes(k - start);
                text::lemma_char_pos(output@, k);
                text::lemma_byte_pos_mono(output@, k, k);
            }
            self.cursor = self.line_start + count;
        } else {
            output.truncate(self.cursor);
            proof {
                assert(output@ =~= before.take(k));
                assert(output@.take(start) =~= before.take(start));
                assert(output@.take(k) =~= before.take(k));
                text::lemma_common_prefix(before, output@, start);
                text::lemma_common_prefix(before, output@, k);
            }
        }
    }

    fn push_char(&mut self, character: char, output: &mut String)
        requires
            old(self).fits(old(output)@),
        ensures
            final(self).fits(final(output)@),
            final(self).screen(final(output)@) == write(old(self).screen(old(output)@), character),
            final(self).pending() == old(self).pending(),
    {
        let ghost before = output@;
        match self.escape_state {
            EscapeState::Escape => {
                if character == '[' {
                    self.csi_parameters = String::new();
                    self.escape_state = EscapeState::Csi;
                } else if character == ']' {
                    self.escape_state = EscapeState::Osc;
                } else {
                    self.escape_state = EscapeState::Text;
                }
            },
            EscapeState::Csi => {
                if '@' <= character && character <= '~' {
                    if character == 'K' {
                        self.erase_line(output);
                    }
                    self.escape_state = EscapeState::Text;
                } else if self.csi_parameters.as_str().as_bytes().len() < MAX_PARAMETERS {
                    self.csi_parameters.push(character);
                }
            },
            EscapeState::Osc => {
                if character == '\u{7}' {
                    self.escape_state = EscapeState::Text;
                } else if character == '\u{1b}' {
                    self.escape_state = EscapeState::OscEscape;
                }
            },
            EscapeState::OscEscape => {
                if character == '\\' {
                    self.escape_state = EscapeState::Text;
                } else {
                    self.escape_state = EscapeState::Osc;
                }
            },
            EscapeState::Text => {
                self.push_text_char(character, output);
            },
        }
    }

    fn push_text_char(&mut self, character: char, output: &mut String)
        requires
            old(self).fits(old(output)@),
            old(self).screen(old(output)@).escape == EscapeState::Text,
        ensures
            final(self).fits(final(output)@),
            final(self).screen(final(output)@) == write_text(
                old(self).screen(old(output)@),
                character,
            ),
            final(self).pending() == old(self).pending(),
    {
        let ghost before = output@;
        let ghost screen = self.screen(before);
        proof {
            self.lemma_fits(before);
        }
        if character == '\u{1b}' {
            self.escape_state = EscapeState::Escape;
        } else if character == '\u{9b}' {
            self.csi_parameters = String::new();
            self.escape_state = EscapeState::Csi;
        } else if character == '\u{9d}' {
            self.escape_state = EscapeState::Osc;
        } else if character == '\n' {
            output.push('\n');
            proof {
                text::lemma_ends_on_boundary(output@);
            }
            self.line_start = output.as_str().as_bytes().len();
            self.cursor = self.line_start;
        } else if character == '\r' {
            self.cursor = self.line_start;
        } else if character == '\u{8}' {
            self.cursor = previous_char_boundary(output.as_str(), self.cursor, self.line_start);
        } else if character == '\t' {
            let line: &str = text::slice(output.as_str(), self.line_start, self.cursor);
            let column: usize = viewport::display_width(line);
            let count: usize = columns_to_tab_stop(column);
            let mut n: usize = 0;
            while n < count
                invariant
                    n <= count,
                    self.fits(output@),
                    self.screen(output@) == put_times(screen, ' ', n as int),
                    self.pending() == old(self).pending(),
                decreases count - n,
            {
                self.write_printable(' ', output);
                n += 1;
            }
        } else if !is_control(character) {
            self.write_printable(character, output);
        }
    }

    /// Starts over, as a new decoder.
    pub fn reset(&mut self)
        ensures
            final(self).pending() == Seq::<u8>::empty(),
            forall|output: Seq<char>| #[trigger] final(self).fits(output),
            forall|output: Seq<char>| #[trigger]
                final(self).screen(output) == (Screen { text: output, ..blank() }),
    {
        *self = LogTextDecoder::default();
    }

    /// Decodes newly appended log bytes into `output`. Invalid UTF-8 becomes
    /// U+FFFD, and a character whose end is missing waits for the next call.
    pub fn push(&mut self, bytes: &[u8], output: &mut String)
        requires
            old(self).fits(old(output)@),
        ensures
            final(self).fits(final(output)@),
            final(self).pending() == decode::pending(old(self).pending() + bytes@),
            final(self).screen(final(output)@) == write_all(
                old(self).screen(old(output)@),
                decode::decoded(old(self).pending() + bytes@),
            ),
    {
        let mut input: Vec<u8> = Vec::new();
        std::mem::swap(&mut input, &mut self.pending_utf8);
        let ghost start = self.screen(output@);
        let ghost stream = input@ + bytes@;
        input.extend_from_slice(bytes);
        assert(input@ =~= stream);
        let mut consumed: usize = 0;
        let ghost mut done: Seq<char> = Seq::empty();
        assert(stream.skip(0) =~= stream);
        assert(done + decode::decoded(stream) =~= decode::decoded(stream));
        while consumed < input.len()
            invariant
                input@ == stream,
                consumed <= stream.len(),
                self.fits(output@),
                self.screen(output@) == write_all(start, done),
                decode::decoded(stream) == done + decode::decoded(stream.skip(consumed as int)),
                decode::pending(stream) == decode::pending(stream.skip(consumed as int)),
            ensures
                decode::pending(stream) == stream.skip(consumed as int),
                decode::decoded(stream) == done,
            decreases input@.len() - consumed,
        {
            let ghost rest = stream.skip(consumed as int);
            proof {
                decode::lemma_step_len(rest);
            }
            let step: Step = decode::step_at(input.as_slice(), consumed);
            let (character, size): (char, usize) = match step {
                Step::Char { value, len } => (value, len),
                Step::Invalid { len } => (decode::REPLACEMENT, len),
                Step::Incomplete => {
                    assert(decode::decoded(stream) =~= done);
                    break;
                },
            };
            proof {
                assert(rest.skip(size as int) =~= stream.skip(consumed + size));
                assert(decode::decoded(stream) =~= done.push(character) + decode::decoded(
                    stream.skip(consumed + size),
                ));
                assert(done.push(character).drop_last() =~= done);
                done = done.push(character);
            }
            self.push_char(character, output);
            consumed += size;
        }
        let mut left: Vec<u8> = Vec::new();
        let mut i: usize = consumed;
        while i < input.len()
            invariant
                consumed <= i <= input@.len(),
                input@ == stream,
                left@ == stream.subrange(consumed as int, i as int),
            decreases input@.len() - i,
        {
            left.push(input[i]);
            assert(left@ =~= stream.subrange(consumed as int, i + 1));
            i += 1;
        }
        assert(left@ =~= stream.skip(consumed as int));
        self.pending_utf8 = left;
    }
}

/// Spaces take one byte each.
proof fn lemma_spaces_bytes(n: int)
    requires
        0 <= n,
    ensures
        text::byte_len(viewport::spaces(n)) == n,
{
    vstd::utf8::is_ascii_chars_encode_utf8(viewport::spaces(n));
}

/// Columns from `column` to the next tab stop.
pub fn columns_to_tab_stop(column: usize) -> (r: usize)
    ensures
        r == TAB_WIDTH - column as int % TAB_WIDTH as int,
        1 <= r <= TAB_WIDTH,
{
    TAB_WIDTH - column % TAB_WIDTH
}

/// Whether `c` is a control character.
fn is_control(c: char) -> (r: bool)
    ensures
        r == control(c),
{
    c < ' ' || ('\u{7f}' <= c && c <= '\u{9f}')
}

/// Where the cursor goes back to from `cursor`: by one character, but not in
/// front of `line_start`.
fn previous_char_boundary(output: &str, cursor: usize, line_start: usize) -> (r: usize)
    requires
        line_start <= cursor,
        text::on_boundary(output@, line_start as int),
        text::on_boundary(output@, cursor as int),
    ensures
        line_start <= r <= cursor,
        text::on_boundary(output@, r as int),
        text::char_pos(output@, r as int) == (if cursor > line_start {
            text::char_pos(output@, cursor as int) - 1
        } else {
            text::char_pos(output@, line_start as int)
        }),
{
    if cursor <= line_start {
        return line_start;
    }
    let r: usize = text::previous_boundary(output, cursor);
    proof {
        text::lemma_byte_slice(output@, line_start as int, cursor as int);
        text::lemma_boundary(output@, line_start as int);
        text::lemma_boundary(output@, cursor as int);
        text::lemma_boundary(output@, r as int);
        let s = text::char_pos(output@, line_start as int);
        let p = text::char_pos(output@, r as int);
        if s <= p {
            text::lemma_byte_pos_mono(output@, s, p);
        } else {
            text::lemma_byte_pos_mono(output@, p, s);
        }
    }
    r
}

/// Writing one sequence of characters and then another is writing both.
pub proof fn lemma_write_concat(screen: Screen, a: Seq<char>, b: Seq<char>)
    ensures
        write_all(screen, a + b) == write_all(write_all(screen, a), b),
    decreases b.len(),
{
    if b.len() == 0 {
        assert(a + b =~= a);
    } else {
        lemma_write_concat(screen, a, b.drop_last());
        assert((a + b).drop_last() =~= a + b.drop_last());
    }
}

/// Writing one character more.
proof fn lemma_write_one(screen: Screen, c: char)
    ensures
        write_all(screen, seq![c]) == write(screen, c),
{
    assert(seq![c].drop_last() =~= Seq::<char>::empty());
    assert(write_all(screen, Seq::<char>::empty()) == screen);
}

/// How a log arrives does not matter: pushing `a` and then `b` leaves the
/// decoder and the text as pushing both at once does, even where the cut splits
/// a character or a control sequence.
pub proof fn law_push_in_pieces(screen: Screen, waiting: Seq<u8>, a: Seq<u8>, b: Seq<u8>)
    ensures
        ({
            let middle = write_all(screen, decode::decoded(waiting + a));
            let left = decode::pending(waiting + a);
            &&& write_all(middle, decode::decoded(left + b)) == write_all(
                screen,
                decode::decoded(waiting + (a + b)),
            )
            &&& decode::pending(left + b) == decode::pending(waiting + (a + b))
        }),
{
    assert(waiting + (a + b) =~= (waiting + a) + b);
    decode::law_decode_in_pieces(waiting + a, b);
    lemma_write_concat(
        screen,
        decode::decoded(waiting + a),
        decode::decoded(decode::pending(waiting + a) + b),
    );
}

/// Whether a text holds no control character but line feeds.
pub open spec fn clean(s: Seq<char>) -> bool {
    forall|i: int| 0 <= i < s.len() ==> (#[trigger] s[i] == '\n' || !control(s[i]))
}

proof fn lemma_put(screen: Screen, c: char)
    requires
        screen.wf(),
    ensures
        put(screen, c).wf(),
        put(screen, c).line_start == screen.line_start,
        put(screen, c).text.len() >= screen.text.len(),
        put(screen, c).text.take(screen.line_start) == screen.text.take(screen.line_start),
        clean(screen.text) && !control(c) ==> clean(put(screen, c).text),
{
    assert(put(screen, c).text.take(screen.line_start) =~= screen.text.take(screen.line_start));
}

proof fn lemma_put_times(screen: Screen, c: char, n: int)
    requires
        screen.wf(),
    ensures
        put_times(screen, c, n).wf(),
        put_times(screen, c, n).line_start == screen.line_start,
        put_times(screen, c, n).escape == screen.escape,
        put_times(screen, c, n).cursor == screen.cursor + (if n > 0 {
            n
        } else {
            0
        }),
        put_times(screen, c, n).text.take(screen.line_start) == screen.text.take(
            screen.line_start,
        ),
        clean(screen.text) && !control(c) ==> clean(put_times(screen, c, n).text),
    decreases n,
{
    if n > 0 {
        lemma_put_times(screen, c, n - 1);
        lemma_put(put_times(screen, c, n - 1), c);
    }
}

/// Only the last line is ever edited: the lines in front of it stay as they
/// are. The cursor stays on the last line, and no control character other than
/// a line feed gets into the text.
pub proof fn law_only_the_last_line_changes(screen: Screen, chars: Seq<char>)
    requires
        screen.wf(),
    ensures
        ({
            let after = write_all(screen, chars);
            &&& after.wf()
            &&& after.line_start >= screen.line_start
            &&& after.text.take(screen.line_start) == screen.text.take(screen.line_start)
            &&& clean(screen.text) ==> clean(after.text)
        }),
    decreases chars.len(),
{
    if chars.len() > 0 {
        law_only_the_last_line_changes(screen, chars.drop_last());
        let before = write_all(screen, chars.drop_last());
        lemma_write_edits_last_line(before, chars.last());
        let after = write(before, chars.last());
        assert(after.text.take(screen.line_start) =~= after.text.take(before.line_start).take(
            screen.line_start,
        ));
        assert(before.text.take(screen.line_start) =~= before.text.take(before.line_start).take(
            screen.line_start,
        ));
    }
}

proof fn lemma_write_edits_last_line(screen: Screen, c: char)
    requires
        screen.wf(),
    ensures
        write(screen, c).wf(),
        write(screen, c).line_start >= screen.line_start,
        write(screen, c).text.take(screen.line_start) == screen.text.take(screen.line_start),
        clean(screen.text) ==> clean(write(screen, c).text),
{
    let after = write(screen, c);
    if screen.escape == EscapeState::Text && c == '\t' {
        lemma_put_times(screen, ' ', tab_spaces(screen));
    } else if screen.escape == EscapeState::Text && !control(c) {
        lemma_put(screen, c);
    }
    assert(after.text.take(screen.line_start) =~= screen.text.take(screen.line_start));
}

/// Printable text is shown as it is.
pub proof fn law_printable_text_is_appended(screen: Screen, chars: Seq<char>)
    requires
        screen.escape == EscapeState::Text,
        screen.cursor == screen.text.len(),
        forall|i: int| 0 <= i < chars.len() ==> !control(#[trigger] chars[i]),
    ensures
        write_all(screen, chars) == (Screen {
            text: screen.text + chars,
            cursor: screen.cursor + chars.len(),
            ..screen
        }),
    decreases chars.len(),
{
    if chars.len() == 0 {
        assert(screen.text + chars =~= screen.text);
    } else {
        law_printable_text_is_appended(screen, chars.drop_last());
        assert(!control(chars[chars.len() - 1]));
        assert((screen.text + chars.drop_last()).push(chars.last()) =~= screen.text + chars);
    }
}

/// After a carriage return, printable text replaces the last line from its
/// start, character by character; what it does not reach stays.
pub proof fn law_carriage_return_overwrites(screen: Screen, chars: Seq<char>)
    requires
        screen.wf(),
        screen.escape == EscapeState::Text,
        forall|i: int| 0 <= i < chars.len() ==> !control(#[trigger] chars[i]),
    ensures
        ({
            let after = write_all(screen, seq!['\r'] + chars);
            let line = screen.text.skip(screen.line_start);
            &&& after.text == screen.text.take(screen.line_start) + chars + (if chars.len()
                <= line.len() {
                line.skip(chars.len() as int)
            } else {
                Seq::empty()
            })
            &&& after.cursor == screen.line_start + chars.len()
            &&& after.line_start == screen.line_start
            &&& after.escape == EscapeState::Text
        }),
    decreases chars.len(),
{
    let line = screen.text.skip(screen.line_start);
    if chars.len() == 0 {
        assert(seq!['\r'] + chars =~= seq!['\r']);
        lemma_write_one(screen, '\r');
        assert(screen.text =~= screen.text.take(screen.line_start) + chars + line.skip(0));
    } else {
        let front = chars.drop_last();
        law_carriage_return_overwrites(screen, front);
        assert((seq!['\r'] + chars).drop_last() =~= seq!['\r'] + front);
        assert(!control(chars[chars.len() - 1]));
        let before = write_all(screen, seq!['\r'] + front);
        let after = put(before, chars.last());
        assert(write_all(screen, seq!['\r'] + chars) == after);
        let rest = if chars.len() <= line.len() {
            line.skip(chars.len() as int)
        } else {
            Seq::empty()
        };
        assert(after.text =~= screen.text.take(screen.line_start) + chars + rest);
    }
}

/// A tab goes to the next column that is a multiple of eight, on a line whose
/// characters take one column each.
pub proof fn law_tab_reaches_a_tab_stop(screen: Screen)
    requires
        screen.wf(),
        screen.escape == EscapeState::Text,
        viewport::text_width(screen.text.subrange(screen.line_start, screen.cursor))
            == screen.cursor - screen.line_start,
    ensures
        ({
            let after = write(screen, '\t');
            &&& (after.cursor - after.line_start) % 8 == 0
            &&& screen.cursor < after.cursor <= screen.cursor + 8
            &&& after.line_start == screen.line_start
        }),
{
    lemma_put_times(screen, ' ', tab_spaces(screen));
}

/// A control sequence that does not erase leaves the text and the cursor alone.
pub proof fn law_control_sequence_is_stripped(screen: Screen, parameters: Seq<char>, last: char)
    requires
        screen.escape == EscapeState::Text,
        forall|i: int|
            0 <= i < parameters.len() ==> !('@' <= #[trigger] parameters[i] && parameters[i]
                <= '~'),
        '@' <= last && last <= '~',
        last != 'K',
    ensures
        ({
            let after = write_all(screen, seq!['\u{1b}', '['] + parameters + seq![last]);
            after == (Screen { parameters: after.parameters, ..screen })
        }),
{
    let intro = seq!['\u{1b}', '['];
    lemma_csi_parameters(screen, parameters);
    let before = write_all(screen, intro + parameters);
    lemma_write_concat(screen, intro + parameters, seq![last]);
    lemma_write_one(before, last);
}

proof fn lemma_csi_parameters(screen: Screen, parameters: Seq<char>)
    requires
        screen.escape == EscapeState::Text,
        forall|i: int|
            0 <= i < parameters.len() ==> !('@' <= #[trigger] parameters[i] && parameters[i]
                <= '~'),
    ensures
        ({
            let after = write_all(screen, seq!['\u{1b}', '['] + parameters);
            after == (Screen { escape: EscapeState::Csi, parameters: after.parameters, ..screen })
        }),
    decreases parameters.len(),
{
    let intro = seq!['\u{1b}', '['];
    if parameters.len() == 0 {
        assert(intro + parameters =~= intro);
        assert(intro.drop_last() =~= seq!['\u{1b}']);
        lemma_write_one(screen, '\u{1b}');
    } else {
        lemma_csi_parameters(screen, parameters.drop_last());
        assert((intro + parameters).drop_last() =~= intro + parameters.drop_last());
        assert(!('@' <= parameters[parameters.len() - 1] && parameters[parameters.len() - 1]
            <= '~'));
    }
}

/// An operating system command that ends with a bell leaves everything alone.
pub proof fn law_system_command_is_stripped(screen: Screen, body: Seq<char>)
    requires
        screen.escape == EscapeState::Text,
        forall|i: int|
            0 <= i < body.len() ==> #[trigger] body[i] != '\u{7}' && body[i] != '\u{1b}',
    ensures
        write_all(screen, seq!['\u{1b}', ']'] + body + seq!['\u{7}']) == screen,
{
    let intro = seq!['\u{1b}', ']'];
    lemma_osc_body(screen, body);
    lemma_write_concat(screen, intro + body, seq!['\u{7}']);
    lemma_write_one(write_all(screen, intro + body), '\u{7}');
}

proof fn lemma_osc_body(screen: Screen, body: Seq<char>)
    requires
        screen.escape == EscapeState::Text,
        forall|i: int|
            0 <= i < body.len() ==> #[trigger] body[i] != '\u{7}' && body[i] != '\u{1b}',
    ensures
        write_all(screen, seq!['\u{1b}', ']'] + body) == (Screen {
            escape: EscapeState::Osc,
            ..screen
        }),
    decreases body.len(),
{
    let intro = seq!['\u{1b}', ']'];
    if body.len() == 0 {
        assert(intro + body =~= intro);
        assert(intro.drop_last() =~= seq!['\u{1b}']);
        lemma_write_one(screen, '\u{1b}');
    } else {
        lemma_osc_body(screen, body.drop_last());
        assert((intro + body).drop_last() =~= intro + body.drop_last());
        assert(body[body.len() - 1] != '\u{7}');
    }
}

} // verus!
