//! What a dialog looks like.
use vstd::prelude::*;

use crate::dialog;
use crate::dialog::{Dialog, DialogView, SIGNAL_COUNT};
use crate::formatting;
use crate::geometry;
use crate::geometry::Rect;
use crate::layout;
use crate::line_edit;
use crate::line_edit::FieldView;
use crate::output;
use crate::panes;
use crate::styled;
use crate::styled::{Color, Line, LineView, Span, SpanView, Style};
use crate::text;

verus! {

/// A dialog as it is drawn.
#[derive(Debug)]
pub struct DialogBox {
    pub area: Rect,
    pub title: String,
    pub color: Color,
    pub lines: Vec<Line>,
    /// Whether long lines are wrapped, and then whether the white space in
    /// front of a row is dropped.
    pub wrap: Option<bool>,
    /// Where the cursor is shown: its column and row.
    pub cursor: Option<(u16, u16)>,
}

/// The value of a [`DialogBox`].
pub struct BoxView {
    pub area: Rect,
    pub title: Seq<char>,
    pub color: Color,
    pub lines: Seq<LineView>,
    pub wrap: Option<bool>,
    pub cursor: Option<(u16, u16)>,
}

impl View for DialogBox {
    type V = BoxView;

    open spec fn view(&self) -> BoxView {
        BoxView {
            area: self.area,
            title: self.title@,
            color: self.color,
            lines: styled::line_views(self.lines@),
            wrap: self.wrap,
            cursor: self.cursor,
        }
    }
}

/// A line in the style of the text around it.
pub open spec fn text_line(content: Seq<char>) -> LineView {
    styled::plain_line(seq![panes::raw(content)])
}

/// A line without text.
pub open spec fn blank_line() -> LineView {
    styled::plain_line(Seq::empty())
}

/// A span in bold.
pub open spec fn bold(content: Seq<char>) -> SpanView {
    SpanView { content, style: Style { bold: true, ..styled::plain() } }
}

/// What the help says.
pub open spec fn help_lines() -> Seq<LineView> {
    seq![
        text_line("Keyboard"@),
        text_line("  Tab / Shift-Tab       Focus next / previous pane"@),
        text_line("  Up/Down or j/k         Select or vertically scroll"@),
        text_line("  Left/Right or h/l      Horizontally scroll focused pane"@),
        text_line("  PgUp/PgDown, Ctrl-u/d  Scroll by a page / half page"@),
        text_line("  Home/End or g/G        Move to the beginning / end"@),
        text_line("  c / C / t              Cancel / signal / set time limit"@),
        text_line("  o / w                  Stdout/stderr / output wrapping"@),
        text_line("  f                      Show / hide finished jobs"@),
        text_line("  y or Ctrl-c / Y        Copy selection / all output"@),
        blank_line(),
        text_line("Mouse"@),
        text_line("  Click                  Focus a pane or select a job"@),
        text_line("  Drag in output         Select text"@),
        text_line("  Wheel / Shift-wheel    Vertical / horizontal scroll"@),
        blank_line(),
        text_line("Copy uses OSC 52 and requires terminal support."@),
        text_line("Press ?, Enter, or Esc to close help."@),
    ]
}

/// A signal in the list of signals. The selected one stands out.
pub open spec fn signal_line(index: int, selected: int) -> LineView {
    let style = if index == selected {
        Style { fg: Some(Color::Black), bg: Some(Color::Green), ..styled::plain() }
    } else {
        styled::plain()
    };
    styled::plain_line(
        seq![
            SpanView {
                content: formatting::decimal(index + 1) + ". "@,
                style: Style { dim: true, ..style },
            },
            SpanView { content: dialog::signals()[index], style },
        ],
    )
}

/// The question which signal to send to a job.
pub open spec fn signal_lines(id: Seq<char>, selected: int) -> Seq<LineView> {
    seq![
        styled::plain_line(
            seq![panes::raw("Send signal to job "@), bold(id), panes::raw(":"@)],
        ),
        blank_line(),
    ] + Seq::new(SIGNAL_COUNT as nat, |i: int| signal_line(i, selected))
}

/// The number of columns in front of a time limit; counted in sixteen bits.
pub open spec fn prompt_width(id: Seq<char>) -> int {
    (id.len() + 25int) % 0x10000
}

/// The number of columns for a time limit in an area.
pub open spec fn field_width(id: Seq<char>, inner: Rect) -> int {
    let left = inner.width - prompt_width(id);
    if left > 1 {
        left
    } else {
        1
    }
}

/// At most `width` characters of a text, behind its first `scroll` ones.
pub open spec fn window(text: Seq<char>, scroll: int, width: int) -> Seq<char> {
    let rest = text.skip(geometry::least(scroll, text.len() as int));
    rest.take(geometry::least(width, rest.len() as int))
}

/// The question for a time limit, of which `shown` is visible.
pub open spec fn limit_line(id: Seq<char>, shown: Seq<char>) -> LineView {
    styled::plain_line(
        seq![
            panes::raw("Set time limit for job "@),
            bold(id),
            panes::raw(": "@),
            panes::coloured(shown, Color::Blue),
        ],
    )
}

/// Where the cursor of a time limit is shown in an area, where `column` columns
/// are in front of it and `scroll` of them are scrolled out: behind what is in
/// front of it, and not on the border.
pub open spec fn limit_cursor(id: Seq<char>, scroll: int, column: int, inner: Rect) -> (u16, u16) {
    let visible = geometry::floor0(column - scroll) % 0x10000;
    (
        geometry::least(
            geometry::clamp16(geometry::clamp16(inner.x + prompt_width(id)) + visible),
            geometry::clamp16(inner.x + geometry::floor0(inner.width - 1)),
        ) as u16,
        inner.y,
    )
}

/// The columns of a field that are scrolled out in an area.
pub open spec fn limit_scroll(id: Seq<char>, field: FieldView, inner: Rect) -> int {
    line_edit::scrolled_columns(field.text, field.cursor, field_width(id, inner)) as int
}

/// What is said of a command that failed.
pub open spec fn failure_text(command: Seq<char>, output: Seq<char>) -> Seq<char> {
    "Command: "@ + command + "\n\n"@ + output
}

/// The number of rows that a dialog asks for, with its border.
pub open spec fn dialog_height(dialog: DialogView) -> u16 {
    match dialog {
        DialogView::Help => 20,
        DialogView::ConfirmCancelJob { .. } => 3,
        DialogView::SelectCancelSignal { .. } => 12,
        DialogView::EditTimeLimit { .. } => 3,
        DialogView::CommandError { command, output } => {
            let lines = output::lines(failure_text(command, output), 0);
            geometry::clamp16(lines.len() + 2int) as u16
        },
    }
}

/// A dialog on a screen.
pub open spec fn box_of(dialog: DialogView, screen: Rect) -> BoxView {
    let area = layout::centered(dialog_height(dialog), screen);
    match dialog {
        DialogView::Help => BoxView {
            area,
            title: "─Help"@,
            color: Color::Green,
            lines: help_lines(),
            wrap: Some(false),
            cursor: None,
        },
        DialogView::ConfirmCancelJob { id } => BoxView {
            area,
            title: "─Cancel"@,
            color: Color::Green,
            lines: seq![
                styled::plain_line(
                    seq![panes::raw("Cancel job "@), bold(id), panes::raw("?"@)],
                ),
            ],
            wrap: Some(true),
            cursor: None,
        },
        DialogView::SelectCancelSignal { id, selected_signal } => BoxView {
            area,
            title: "─Signal"@,
            color: Color::Green,
            lines: signal_lines(id, selected_signal),
            wrap: Some(true),
            cursor: None,
        },
        DialogView::EditTimeLimit { id, field } => {
            let inner = layout::bordered(area);
            BoxView {
                area,
                title: "─Time Limit"@,
                color: Color::Green,
                lines: seq![
                    limit_line(
                        id,
                        window(
                            field.text,
                            limit_scroll(id, field, inner),
                            field_width(id, inner),
                        ),
                    ),
                ],
                wrap: None,
                cursor: Some(
                    limit_cursor(
                        id,
                        limit_scroll(id, field, inner),
                        line_edit::cursor_column(field.text, field.cursor) as int,
                        inner,
                    ),
                ),
            }
        },
        DialogView::CommandError { command, output } => {
            let message = failure_text(command, output);
            BoxView {
                area,
                title: "─Command Error"@,
                color: Color::Red,
                lines: panes::message_lines(message),
                wrap: Some(false),
                cursor: None,
            }
        },
    }
}

/// Appends a line to others.
fn push_line(lines: &mut Vec<Line>, line: Line)
    ensures
        styled::line_views(final(lines)@) == styled::line_views(old(lines)@).push(line@),
{
    let ghost before = styled::line_views(lines@);
    lines.push(line);
    assert(styled::line_views(lines@) =~= before.push(line@));
}

/// Appends a line of text to others.
fn push_text(lines: &mut Vec<Line>, content: &str)
    ensures
        styled::line_views(final(lines)@) == styled::line_views(old(lines)@).push(
            text_line(content@),
        ),
{
    push_line(lines, Line::raw(content.to_owned()));
}

/// Appends a line without text to others.
fn push_blank(lines: &mut Vec<Line>)
    ensures
        styled::line_views(final(lines)@) == styled::line_views(old(lines)@).push(blank_line()),
{
    let line: Line = Line::from_spans(Vec::new());
    assert(line@.spans =~= Seq::<SpanView>::empty());
    push_line(lines, line);
}

/// What the help says.
fn help_text() -> (r: Vec<Line>)
    ensures
        styled::line_views(r@) == help_lines(),
{
    let mut lines: Vec<Line> = Vec::new();
    push_text(&mut lines, "Keyboard");
    push_text(&mut lines, "  Tab / Shift-Tab       Focus next / previous pane");
    push_text(&mut lines, "  Up/Down or j/k         Select or vertically scroll");
    push_text(&mut lines, "  Left/Right or h/l      Horizontally scroll focused pane");
    push_text(&mut lines, "  PgUp/PgDown, Ctrl-u/d  Scroll by a page / half page");
    push_text(&mut lines, "  Home/End or g/G        Move to the beginning / end");
    push_text(&mut lines, "  c / C / t              Cancel / signal / set time limit");
    push_text(&mut lines, "  o / w                  Stdout/stderr / output wrapping");
    push_text(&mut lines, "  f                      Show / hide finished jobs");
    push_text(&mut lines, "  y or Ctrl-c / Y        Copy selection / all output");
    push_blank(&mut lines);
    push_text(&mut lines, "Mouse");
    push_text(&mut lines, "  Click                  Focus a pane or select a job");
    push_text(&mut lines, "  Drag in output         Select text");
    push_text(&mut lines, "  Wheel / Shift-wheel    Vertical / horizontal scroll");
    push_blank(&mut lines);
    push_text(&mut lines, "Copy uses OSC 52 and requires terminal support.");
    push_text(&mut lines, "Press ?, Enter, or Esc to close help.");
    assert(styled::line_views(lines@) =~= help_lines());
    lines
}

/// A line that names a job in bold.
fn job_question(start: &str, id: &str, end: &str) -> (r: Line)
    ensures
        r@ == styled::plain_line(seq![panes::raw(start@), bold(id@), panes::raw(end@)]),
{
    let mut spans: Vec<Span> = Vec::new();
    spans.push(Span::raw(start.to_owned()));
    spans.push(Span::styled(id.to_owned(), Style::default().bold()));
    spans.push(Span::raw(end.to_owned()));
    assert(styled::span_views(spans@) =~= seq![panes::raw(start@), bold(id@), panes::raw(end@)]);
    Line::from_spans(spans)
}

/// The question which signal to send to a job.
fn signal_text(id: &str, selected: usize) -> (r: Vec<Line>)
    ensures
        styled::line_views(r@) == signal_lines(id@, selected as int),
{
    let mut lines: Vec<Line> = Vec::new();
    push_line(&mut lines, job_question("Send signal to job ", id, ":"));
    push_blank(&mut lines);
    let ghost goal = signal_lines(id@, selected as int);
    let mut i: usize = 0;
    assert(styled::line_views(lines@) =~= goal.take(2));
    while i < SIGNAL_COUNT
        invariant
            i <= SIGNAL_COUNT,
            goal == signal_lines(id@, selected as int),
            styled::line_views(lines@) == goal.take(i + 2),
        decreases SIGNAL_COUNT - i,
    {
        let style: Style = if i == selected {
            Style::default().fg(Color::Black).bg(Color::Green)
        } else {
            Style::default()
        };
        let mut number: String = String::new();
        formatting::push_decimal(&mut number, i as u64 + 1);
        number.append(". ");
        let mut spans: Vec<Span> = Vec::new();
        spans.push(Span::styled(number, style.dim()));
        spans.push(Span::styled(dialog::signal_name(i).to_owned(), style));
        let line: Line = Line::from_spans(spans);
        proof {
            assert(number@ =~= formatting::decimal(i + 1) + ". "@);
            assert(line@.spans =~= signal_line(i as int, selected as int).spans);
        }
        push_line(&mut lines, line);
        assert(styled::line_views(lines@) =~= goal.take(i + 3));
        i += 1;
    }
    assert(goal.take(i + 2) =~= goal);
    lines
}

/// At most `width` characters of a text, behind its first `scroll` ones.
fn chars_from(s: &str, scroll: usize, width: usize) -> (r: String)
    ensures
        r@ == window(s@, scroll as int, width as int),
{
    let ghost from = geometry::least(scroll as int, s@.len() as int);
    let ghost rest = s@.skip(from);
    let mut out: String = String::new();
    let mut skipped: usize = 0;
    let mut taken: usize = 0;
    assert(out@ =~= rest.take(0));
    for c in it: s.chars()
        invariant
            it.seq() == s@,
            from == geometry::least(scroll as int, s@.len() as int),
            rest == s@.skip(from),
            skipped == geometry::least(it.index() as int, scroll as int),
            taken == geometry::least(it.index() - skipped, width as int),
            out@ == rest.take(taken as int),
    {
        if skipped < scroll {
            skipped += 1;
        } else if taken < width {
            assert(rest[taken as int] == c);
            out.push(c);
            assert(out@ =~= rest.take(taken + 1));
            taken += 1;
        }
    }
    out
}

/// A number in sixteen bits: what is beyond them is dropped.
fn sixteen_bits(n: u128) -> (r: u16)
    ensures
        r == n % 0x10000,
{
    assert(#[verifier::truncate] (n as u16) == n % 0x10000) by (bit_vector);
    #[verifier::truncate] (n as u16)
}

/// The number of columns in front of a time limit.
fn prompt_columns(id: &str) -> (r: u16)
    ensures
        r == prompt_width(id@),
{
    sixteen_bits(text::char_count(id) as u128 + 25)
}

/// The number of columns for a time limit in an area.
pub fn limit_columns(id: &str, inner: Rect) -> (r: usize)
    ensures
        r == field_width(id@, inner),
{
    let left: u16 = inner.width.saturating_sub(prompt_columns(id));
    if left > 1 {
        left as usize
    } else {
        1
    }
}

/// The question for a time limit of which `width` columns are visible, where
/// `scroll` columns are scrolled out.
pub fn limit_question(id: &str, value: &str, scroll: usize, width: usize) -> (r: Line)
    ensures
        r@ == limit_line(id@, window(value@, scroll as int, width as int)),
{
    let mut spans: Vec<Span> = Vec::new();
    spans.push(Span::raw("Set time limit for job ".to_owned()));
    spans.push(Span::styled(id.to_owned(), Style::default().bold()));
    spans.push(Span::raw(": ".to_owned()));
    spans.push(
        Span::styled(chars_from(value, scroll, width), Style::default().fg(Color::Blue)),
    );
    let line: Line = Line::from_spans(spans);
    assert(line@.spans =~= limit_line(
        id@,
        window(value@, scroll as int, width as int),
    ).spans);
    line
}

/// Where the cursor of a time limit is shown in an area, where `column` columns
/// are in front of it and `scroll` of them are scrolled out.
pub fn limit_cursor_at(id: &str, scroll: usize, column: usize, inner: Rect) -> (r: (u16, u16))
    ensures
        r == limit_cursor(id@, scroll as int, column as int, inner),
{
    let visible: u16 = sixteen_bits(column.saturating_sub(scroll) as u128);
    let wanted: u16 = inner.x.saturating_add(prompt_columns(id)).saturating_add(visible);
    let last: u16 = inner.x.saturating_add(inner.width.saturating_sub(1));
    let x: u16 = if wanted <= last {
        wanted
    } else {
        last
    };
    (x, inner.y)
}

/// A dialog on a screen.
pub fn dialog_box(dialog: &Dialog, screen: Rect) -> (r: DialogBox)
    requires
        layout::dialog_fits(dialog_height(dialog@), screen),
    ensures
        r@ == box_of(dialog@, screen),
{
    match dialog {
        Dialog::Help => DialogBox {
            area: layout::dialog_area(20, screen),
            title: "─Help".to_owned(),
            color: Color::Green,
            lines: help_text(),
            wrap: Some(false),
            cursor: None,
        },
        Dialog::ConfirmCancelJob(id) => {
            let mut lines: Vec<Line> = Vec::new();
            push_line(&mut lines, job_question("Cancel job ", id.as_str(), "?"));
            assert(styled::line_views(lines@) =~= box_of(dialog@, screen).lines);
            DialogBox {
                area: layout::dialog_area(3, screen),
                title: "─Cancel".to_owned(),
                color: Color::Green,
                lines,
                wrap: Some(true),
                cursor: None,
            }
        },
        Dialog::SelectCancelSignal { id, selected_signal } => DialogBox {
            area: layout::dialog_area(12, screen),
            title: "─Signal".to_owned(),
            color: Color::Green,
            lines: signal_text(id.as_str(), *selected_signal),
            wrap: Some(true),
            cursor: None,
        },
        Dialog::EditTimeLimit { id, input } => {
            let area: Rect = layout::dialog_area(3, screen);
            let inner: Rect = layout::inside_border(area);
            let width: usize = limit_columns(id.as_str(), inner);
            let scroll: usize = input.visual_scroll(width);
            let cursor: (u16, u16) = limit_cursor_at(
                id.as_str(),
                scroll,
                input.visual_cursor(),
                inner,
            );
            let mut lines: Vec<Line> = Vec::new();
            push_line(&mut lines, limit_question(id.as_str(), input.value(), scroll, width));
            assert(styled::line_views(lines@) =~= box_of(dialog@, screen).lines);
            DialogBox {
                area,
                title: "─Time Limit".to_owned(),
                color: Color::Green,
                lines,
                wrap: None,
                cursor: Some(cursor),
            }
        },
        Dialog::CommandError { command, output } => {
            let mut message: String = "Command: ".to_owned();
            message.append(command.as_str());
            message.append("\n\n");
            message.append(output.as_str());
            let lines: Vec<Line> = panes::plain_lines(message.as_str());
            let count: usize = lines.len();
            assert(styled::line_views(lines@).len() == count);
            let height: u16 = if count > 65533 {
                u16::MAX
            } else {
                count as u16 + 2
            };
            DialogBox {
                area: layout::dialog_area(height, screen),
                title: "─Command Error".to_owned(),
                color: Color::Red,
                lines,
                wrap: Some(false),
                cursor: None,
            }
        },
    }
}

} // verus!
