//! What the dialogs show.
use vstd::prelude::*;

use crate::dialog_box;
use crate::dialog::DialogView;
use crate::dialog_laws;
use crate::formatting;
use crate::geometry::Rect;
use crate::layout;
use crate::line_edit;
use crate::line_edit::FieldView;
use crate::output;
use crate::output_laws;
use crate::pane_laws;
use crate::panes;
use crate::styled;
use crate::styled::Color;
use crate::text;

verus! {

proof fn lemma_text_2(spans: Seq<styled::SpanView>)
    requires
        spans.len() == 2,
    ensures
        styled::spans_text(spans, 2) == spans[0].content + spans[1].content,
{
    reveal_with_fuel(styled::spans_text, 3);
    assert(styled::spans_text(spans, 2) =~= spans[0].content + spans[1].content);
}

proof fn lemma_text_3(spans: Seq<styled::SpanView>)
    requires
        spans.len() == 3,
    ensures
        styled::spans_text(spans, 3) == spans[0].content + spans[1].content + spans[2].content,
{
    reveal_with_fuel(styled::spans_text, 4);
    assert(styled::spans_text(spans, 3) =~= spans[0].content + spans[1].content
        + spans[2].content);
}

proof fn lemma_text_4(spans: Seq<styled::SpanView>)
    requires
        spans.len() == 4,
    ensures
        styled::spans_text(spans, 4) == spans[0].content + spans[1].content + spans[2].content
            + spans[3].content,
{
    reveal_with_fuel(styled::spans_text, 5);
    assert(styled::spans_text(spans, 4) =~= spans[0].content + spans[1].content + spans[2].content
        + spans[3].content);
}

/// Each dialog is centred, green but for that of a failure, which is red, and
/// named after what it is for. It asks for a row for each of its lines, and two
/// for its border. Only the dialog of a time limit has a cursor.
pub proof fn law_frames_of_dialogs(open: DialogView, screen: Rect)
    ensures
        ({
            let shown = dialog_box::box_of(open, screen);
            &&& shown.area == layout::centered(dialog_box::dialog_height(open), screen)
            &&& shown.color == if open is CommandError {
                Color::Red
            } else {
                Color::Green
            }
            &&& shown.title == match open {
                DialogView::Help => "─Help"@,
                DialogView::ConfirmCancelJob { .. } => "─Cancel"@,
                DialogView::SelectCancelSignal { .. } => "─Signal"@,
                DialogView::EditTimeLimit { .. } => "─Time Limit"@,
                DialogView::CommandError { .. } => "─Command Error"@,
            }
            &&& shown.cursor is Some <==> open is EditTimeLimit
            &&& shown.lines.len() + 2 <= 65535 ==> dialog_box::dialog_height(open)
                == shown.lines.len() + 2
            &&& shown.lines.len() + 2 > 65535 ==> dialog_box::dialog_height(open) == 65535
        }),
{
}

/// The dialog that confirms a cancellation asks about its job.
pub proof fn law_question_of_a_cancellation(id: Seq<char>, screen: Rect)
    ensures
        ({
            let lines = dialog_box::box_of(DialogView::ConfirmCancelJob { id }, screen).lines;
            &&& lines.len() == 1
            &&& pane_laws::line_text(lines[0]) == "Cancel job "@ + id + "?"@
            &&& lines[0].spans[1].content == id && lines[0].spans[1].style.bold
        }),
{
    let lines = dialog_box::box_of(DialogView::ConfirmCancelJob { id }, screen).lines;
    lemma_text_3(lines[0].spans);
}

/// The dialog of signals asks about its job, and lists each signal with its
/// number, counted from one. The selected one stands out, and no other.
pub proof fn law_list_of_signals(id: Seq<char>, selected: int, i: int, screen: Rect)
    requires
        0 <= i < 8,
    ensures
        ({
            let open = DialogView::SelectCancelSignal { id, selected_signal: selected };
            let lines = dialog_box::box_of(open, screen).lines;
            let line = lines[2 + i];
            &&& lines.len() == 10
            &&& pane_laws::line_text(lines[0]) == "Send signal to job "@ + id + ":"@
            &&& pane_laws::line_text(lines[1]).len() == 0
            &&& exists|name: Seq<char>|
                #[trigger] dialog_laws::is_signal(i, name) && pane_laws::line_text(line)
                    == formatting::decimal(i + 1) + ". "@ + name
            &&& forall|k: int|
                0 <= k < line.spans.len() ==> (#[trigger] line.spans[k]).style.bg == if i
                    == selected {
                    Some(Color::Green)
                } else {
                    None
                }
        }),
{
    let open = DialogView::SelectCancelSignal { id, selected_signal: selected };
    let lines = dialog_box::box_of(open, screen).lines;
    lemma_text_3(lines[0].spans);
    dialog_laws::law_the_signals(i);
    assert(lines[2 + i] == dialog_box::signal_line(i, selected));
    lemma_text_2(lines[2 + i].spans);
}

/// The dialog of a time limit asks about its job, and shows behind the question
/// what of the field is not scrolled out, as far as there is room.
pub proof fn law_question_for_a_time_limit(id: Seq<char>, field: FieldView, screen: Rect)
    ensures
        ({
            let shown = dialog_box::box_of(DialogView::EditTimeLimit { id, field }, screen);
            let inner = layout::bordered(shown.area);
            let width = dialog_box::field_width(id, inner);
            let scroll = line_edit::scrolled_columns(field.text, field.cursor, width) as int;
            &&& shown.lines.len() == 1
            &&& pane_laws::line_text(shown.lines[0]) == "Set time limit for job "@ + id + ": "@
                + dialog_box::window(field.text, scroll, width)
        }),
{
    let shown = dialog_box::box_of(DialogView::EditTimeLimit { id, field }, screen);
    lemma_text_4(shown.lines[0].spans);
}

/// What is shown of a field are its characters from one on, as many as there is
/// room for and as are left.
pub proof fn law_window_of_a_field(text: Seq<char>, scroll: int, width: int, k: int)
    requires
        0 <= scroll,
        0 <= width,
    ensures
        ({
            let shown = dialog_box::window(text, scroll, width);
            &&& shown.len() <= width
            &&& scroll + width <= text.len() ==> shown.len() == width
            &&& scroll <= text.len() < scroll + width ==> shown.len() == text.len() - scroll
            &&& text.len() < scroll ==> shown.len() == 0
            &&& 0 <= k < shown.len() ==> shown[k] == text[scroll + k]
        }),
{
}

/// The field has the columns that the question leaves of its line, and the cursor
/// stands behind the question and what is shown in front of it, but not beyond
/// the last column.
pub proof fn law_place_of_the_cursor(id: Seq<char>, scroll: int, column: int, inner: Rect)
    requires
        layout::on_screen(inner),
        id.len() + 25 < 65536,
        0 <= scroll <= column < 65536,
        inner.width > 0,
    ensures
        ({
            let question = ("Set time limit for job "@ + id + ": "@).len();
            let place = dialog_box::limit_cursor(id, scroll, column, inner);
            let wanted = inner.x + question + (column - scroll);
            let last = inner.x + inner.width - 1;
            &&& dialog_box::prompt_width(id) == question
            &&& inner.width > question ==> dialog_box::field_width(id, inner) == inner.width
                - question
            &&& inner.width <= question ==> dialog_box::field_width(id, inner) == 1
            &&& place.1 == inner.y
            &&& wanted <= last ==> place.0 == wanted
            &&& wanted > last ==> place.0 == last
        }),
{
    reveal_strlit("Set time limit for job ");
    reveal_strlit(": ");
    assert(dialog_box::prompt_width(id) == id.len() + 25);
}

/// The dialog of a failure shows the command, an empty line, and what is reported
/// of it, line by line.
pub proof fn law_what_a_failure_shows(command: Seq<char>, report: Seq<char>, screen: Rect)
    requires
        output_laws::lacks(command, '\n'),
        command.len() > 0 ==> command.last() != '\r',
    ensures
        ({
            let open = DialogView::CommandError { command, output: report };
            let shown = dialog_box::box_of(open, screen).lines;
            let lines = output::lines(report, 0);
            &&& shown.len() == 2 + lines.len()
            &&& pane_laws::line_text(shown[0]) == "Command: "@ + command
            &&& pane_laws::line_text(shown[1]).len() == 0
            &&& forall|k: int|
                0 <= k < lines.len() ==> pane_laws::line_text(#[trigger] shown[2 + k]) == lines[k]
        }),
{
    reveal_strlit("Command: ");
    reveal_strlit("\n\n");
    let first = "Command: "@ + command;
    let head = first.push('\n');
    let text = dialog_box::failure_text(command, report);
    assert(text =~= head + (seq!['\n'] + report));
    let all = output::lines(text, 0);
    assert forall|k: int| 0 <= k < first.len() implies #[trigger] text[k] != '\n' by {
        if k >= 9 {
            assert(text[k] == command[k - 9]);
        }
    }
    text::lemma_find(text, '\n', 0, first.len() as int);
    assert(text.subrange(0, first.len() as int) =~= first);
    assert(first.last() != '\r') by {
        if command.len() > 0 {
            assert(first.last() == command.last());
        }
    }
    let rest = seq!['\n'] + report;
    output_laws::lemma_lines_shift(head, rest, 0);
    assert(all == seq![first] + output::lines(rest, 0));
    text::lemma_find(rest, '\n', 0, 0);
    assert(rest.subrange(0, 0) =~= Seq::<char>::empty());
    output_laws::lemma_lines_shift(seq!['\n'], report, 0);
    let lines = output::lines(report, 0);
    assert(output::lines(rest, 0) == seq![Seq::<char>::empty()] + lines);
    let shown = panes::message_lines(text);
    pane_laws::law_messages_are_shown_line_by_line(text, 0);
    pane_laws::law_messages_are_shown_line_by_line(text, 1);
    assert forall|k: int| 0 <= k < lines.len() implies pane_laws::line_text(#[trigger] shown[2 + k])
        == lines[k] by {
        pane_laws::law_messages_are_shown_line_by_line(text, 2 + k);
        assert(all[2 + k] == lines[k]);
    }
}

/// The help has a line for each of its topics, and the last one says how to close
/// it.
pub proof fn law_last_line_of_the_help(screen: Rect)
    ensures
        ({
            let lines = dialog_box::box_of(DialogView::Help, screen).lines;
            &&& lines.len() == 18
            &&& lines[17].spans.len() == 1
            &&& lines[17].spans[0].content == "Press ?, Enter, or Esc to close help."@
        }),
{
}

} // verus!
