//! What the keys of a dialog do, and the commands that they give.
use vstd::prelude::*;

use crate::command;
use crate::command::RequestView;
use crate::dialog;
use crate::dialog::DialogView;
use crate::formatting;
use crate::input::{KeyCode, KeyEvent, KeyEventKind, KeyModifiers};
use crate::line_edit;
use crate::text_laws;

verus! {

/// The keys that give a command: Enter and `y` where a cancellation is to be
/// confirmed, Enter where a signal is chosen, and Enter where more than white
/// space stands in the field for a time limit. No other key does, and none in
/// any other dialog.
pub proof fn law_which_keys_give_a_command(open: DialogView, key: KeyEvent)
    ensures
        dialog::dialog_request(open, key) is Some <==> match open {
            DialogView::ConfirmCancelJob { .. } => key.code == KeyCode::Enter || key.code
                == KeyCode::Char('y'),
            DialogView::SelectCancelSignal { .. } => key.code == KeyCode::Enter,
            DialogView::EditTimeLimit { field, .. } => key.code == KeyCode::Enter && exists|i: int|
                0 <= i < field.text.len() && !formatting::white(#[trigger] field.text[i]),
            _ => false,
        },
{
    if let DialogView::EditTimeLimit { field, .. } = open {
        text_laws::law_entered_limit(field.text);
    }
}

/// Words with a space between two of them.
pub open spec fn spaced(words: Seq<Seq<char>>) -> Seq<char>
    decreases words.len(),
{
    if words.len() == 0 {
        Seq::empty()
    } else if words.len() == 1 {
        words[0]
    } else {
        spaced(words.drop_last()) + seq![' '] + words.last()
    }
}

/// Whether a command is to run that program with these arguments, and is shown
/// the way one types it: the program and its arguments with spaces between them.
pub open spec fn runs(
    request: RequestView,
    program: Seq<char>,
    arguments: Seq<Seq<char>>,
) -> bool {
    &&& request.program == program
    &&& request.arguments == arguments
    &&& request.label == spaced(seq![program] + arguments)
}

proof fn lemma_spaced_2(a: Seq<char>, b: Seq<char>)
    ensures
        spaced(seq![a, b]) == a + " "@ + b,
{
    reveal_strlit(" ");
    reveal_with_fuel(spaced, 3);
    assert(seq![a, b].drop_last() =~= seq![a]);
    assert(" "@ =~= seq![' ']);
}

proof fn lemma_spaced_4(a: Seq<char>, b: Seq<char>, c: Seq<char>, d: Seq<char>)
    ensures
        spaced(seq![a, b, c, d]) == a + seq![' '] + b + seq![' '] + c + seq![' '] + d,
{
    reveal_with_fuel(spaced, 5);
    assert(seq![a, b, c, d].drop_last() =~= seq![a, b, c]);
    assert(seq![a, b, c].drop_last() =~= seq![a, b]);
    assert(seq![a, b].drop_last() =~= seq![a]);
}

/// A job is cancelled by `scancel` with what it is called as the one argument.
/// A signal goes to a job by `scancel --signal`, the name of the signal, and
/// what the job is called. A time limit is set by `scontrol update`, with the
/// job and the limit as assignments to `JobId` and `TimeLimit`.
pub proof fn law_what_the_commands_run(id: Seq<char>, signal: Seq<char>, limit: Seq<char>)
    ensures
        runs(command::scancel(id, None), "scancel"@, seq![id]),
        runs(command::scancel(id, Some(signal)), "scancel"@, seq!["--signal"@, signal, id]),
        runs(
            command::scontrol_timelimit(id, limit),
            "scontrol"@,
            seq!["update"@, "JobId="@ + id, "TimeLimit="@ + limit],
        ),
{
    reveal_strlit(" ");
    reveal_strlit("scancel");
    reveal_strlit(" --signal ");
    reveal_strlit("--signal");
    reveal_strlit("scontrol");
    reveal_strlit("update");
    reveal_strlit("JobId=");
    reveal_strlit("TimeLimit=");
    reveal_strlit(" TimeLimit=");
    reveal_strlit("scontrol update JobId=");
    lemma_spaced_2("scancel"@, id);
    assert(seq!["scancel"@] + seq![id] =~= seq!["scancel"@, id]);
    assert(seq!["scancel"@] + seq!["--signal"@, signal, id] =~= seq![
        "scancel"@,
        "--signal"@,
        signal,
        id,
    ]);
    lemma_spaced_4("scancel"@, "--signal"@, signal, id);
    assert(command::scancel(id, Some(signal)).label =~= "scancel"@ + seq![' '] + "--signal"@ + seq![
        ' ',
    ] + signal + seq![' '] + id);
    let job = "JobId="@ + id;
    let time = "TimeLimit="@ + limit;
    assert(seq!["scontrol"@] + seq!["update"@, job, time] =~= seq![
        "scontrol"@,
        "update"@,
        job,
        time,
    ]);
    lemma_spaced_4("scontrol"@, "update"@, job, time);
    assert(command::scontrol_timelimit(id, limit).label =~= "scontrol"@ + seq![' '] + "update"@
        + seq![' '] + job + seq![' '] + time);
}

/// The command of a dialog is about the job that the dialog is about: to cancel
/// it, to send it the selected signal, or to set its time limit to what stands
/// in the field, without the white space around it.
pub proof fn law_which_command_is_given(open: DialogView, key: KeyEvent)
    requires
        open.wf(),
    ensures
        dialog::dialog_request(open, key) matches Some(request) ==> match open {
            DialogView::ConfirmCancelJob { id } => runs(request, "scancel"@, seq![id]),
            DialogView::SelectCancelSignal { id, selected_signal } => exists|signal: Seq<char>|
                #[trigger] is_signal(selected_signal, signal) && runs(
                    request,
                    "scancel"@,
                    seq!["--signal"@, signal, id],
                ),
            DialogView::EditTimeLimit { id, field } => exists|i: int, j: int| {
                &&& 0 <= i < j <= field.text.len()
                &&& text_laws::all_white(field.text, 0, i)
                &&& text_laws::all_white(field.text, j, field.text.len() as int)
                &&& !formatting::white(field.text[i]) && !formatting::white(field.text[j - 1])
                &&& runs(
                    request,
                    "scontrol"@,
                    seq!["update"@, "JobId="@ + id, "TimeLimit="@ + #[trigger] field.text.subrange(
                        i,
                        j,
                    )],
                )
            },
            _ => false,
        },
{
    match open {
        DialogView::ConfirmCancelJob { id } => {
            law_what_the_commands_run(id, id, id);
        },
        DialogView::SelectCancelSignal { id, selected_signal } => {
            let signal = dialog::signals()[selected_signal];
            law_the_signals(selected_signal);
            law_what_the_commands_run(id, signal, id);
        },
        DialogView::EditTimeLimit { id, field } => {
            if let Some(request) = dialog::dialog_request(open, key) {
                let limit = crate::input::entered_limit(field.text)->0;
                law_what_the_commands_run(id, id, limit);
                text_laws::law_entered_limit(field.text);
                let (i, j) = choose|i: int, j: int| {
                    &&& #[trigger] text_laws::stands_at(field.text, limit, i, j)
                    &&& i < j
                    &&& text_laws::all_white(field.text, 0, i)
                    &&& text_laws::all_white(field.text, j, field.text.len() as int)
                    &&& !formatting::white(field.text[i]) && !formatting::white(field.text[j - 1])
                };
                assert(field.text.subrange(i, j) =~= limit);
            }
        },
        _ => {},
    }
}

/// The signals in the order in which they are offered, from the first on.
pub open spec fn is_signal(index: int, name: Seq<char>) -> bool {
    ||| index == 0 && name == "TERM"@
    ||| index == 1 && name == "INT"@
    ||| index == 2 && name == "HUP"@
    ||| index == 3 && name == "USR1"@
    ||| index == 4 && name == "USR2"@
    ||| index == 5 && name == "STOP"@
    ||| index == 6 && name == "CONT"@
    ||| index == 7 && name == "KILL"@
}

/// There are eight signals: TERM, INT, HUP, USR1, USR2, STOP, CONT and KILL.
pub proof fn law_the_signals(index: int)
    ensures
        dialog::signals().len() == 8,
        dialog::SIGNAL_COUNT == 8,
        0 <= index < 8 ==> is_signal(index, dialog::signals()[index]),
{
}

/// The keys that close a dialog: Escape closes each, Enter each but that of a
/// time limit of white space, `y` the one that confirms a cancellation, and `?`
/// the help. Any other key leaves the dialog open.
pub proof fn law_which_keys_close_a_dialog(open: DialogView, key: KeyEvent)
    ensures
        dialog::dialog_after(open, key) is None <==> {
            ||| key.code == KeyCode::Esc
            ||| key.code == KeyCode::Enter && (open matches DialogView::EditTimeLimit { field, .. }
                ==> !text_laws::all_white(field.text, 0, field.text.len() as int))
            ||| key.code == KeyCode::Char('y') && open is ConfirmCancelJob
            ||| key.code == KeyCode::Char('?') && open is Help
        },
{
    if let DialogView::EditTimeLimit { field, .. } = open {
        text_laws::law_entered_limit(field.text);
    }
}

/// A dialog that stays open stays about the same job, or the same failure; only
/// the selected signal or the field changes.
pub proof fn law_a_dialog_stays_what_it_is(open: DialogView, key: KeyEvent)
    ensures
        dialog::dialog_after(open, key) matches Some(next) ==> match open {
            DialogView::SelectCancelSignal { id, .. } => next matches DialogView::SelectCancelSignal {
                id: kept,
                ..
            } && kept == id,
            DialogView::EditTimeLimit { id, field } => next matches DialogView::EditTimeLimit {
                id: kept,
                field: now,
            } && kept == id && now == if key.code == KeyCode::Enter {
                field
            } else {
                line_edit::edited(field, key)
            },
            _ => next == open,
        },
{
}

/// In the list of signals, down and `j` select the next one, up and `k` the one
/// before; the list has a first and a last one. A digit from 1 to 8 selects the
/// signal of that number. Any other key that leaves the list open selects none.
pub proof fn law_choosing_a_signal(id: Seq<char>, selected: int, key: KeyEvent)
    requires
        0 <= selected < 8,
        key.code != KeyCode::Enter && key.code != KeyCode::Esc,
    ensures
        ({
            let open = DialogView::SelectCancelSignal { id, selected_signal: selected };
            let next = dialog::dialog_after(open, key);
            let now = next->0->selected_signal;
            &&& next is Some && next->0 is SelectCancelSignal
            &&& match key.code {
                KeyCode::Down => now == if selected == 7 {
                    7
                } else {
                    selected + 1
                },
                KeyCode::Up => now == if selected == 0 {
                    0
                } else {
                    selected - 1
                },
                KeyCode::Char(c) => {
                    &&& c == 'j' ==> now == if selected == 7 {
                        7
                    } else {
                        selected + 1
                    }
                    &&& c == 'k' ==> now == if selected == 0 {
                        0
                    } else {
                        selected - 1
                    }
                    &&& '1' <= c && c <= '8' ==> now == c as int - '1' as int
                    &&& c != 'j' && c != 'k' && !('1' <= c && c <= '8') ==> now == selected
                },
                _ => now == selected,
            }
        }),
{
}

/// What is reported of a command that ended badly starts with its exit code, or
/// with `N/A` where there is none, and an empty line. What it printed follows,
/// without the white space at its end: of one of the two streams alone, where
/// the other is blank; of both, each under its name; or that there is none.
pub proof fn law_what_is_reported_of_a_failure(
    code: Option<i32>,
    stdout: Seq<u8>,
    stderr: Seq<u8>,
)
    ensures
        ({
            let report = command::failure_report(code, stdout, stderr);
            let out = formatting::end_trimmed(crate::decode::lossy(stdout));
            let err = formatting::end_trimmed(crate::decode::lossy(stderr));
            let head = "Exit code: "@ + match code {
                Some(n) => formatting::signed_decimal(n as int),
                None => "N/A"@,
            } + "\n\n"@;
            &&& out.len() == 0 && err.len() == 0 ==> report == head + "No output."@
            &&& out.len() > 0 && err.len() == 0 ==> report == head + out
            &&& out.len() == 0 && err.len() > 0 ==> report == head + err
            &&& out.len() > 0 && err.len() > 0 ==> report == head + ("stdout:\n"@ + out
                + "\n\n"@ + "stderr:\n"@ + err)
        }),
{
    let report = command::failure_report(code, stdout, stderr);
    let out = formatting::end_trimmed(crate::decode::lossy(stdout));
    let err = formatting::end_trimmed(crate::decode::lossy(stderr));
    let head = "Exit code: "@ + match code {
        Some(n) => formatting::signed_decimal(n as int),
        None => "N/A"@,
    } + "\n\n"@;
    if out.len() > 0 && err.len() > 0 {
        assert(report =~= head + ("stdout:\n"@ + out + "\n\n"@ + "stderr:\n"@ + err));
    }
}

/// A new field for a time limit holds the limit, with the cursor at its end. A
/// key types a character where no modifier other than shift is held with it,
/// when it is pressed and while it repeats.
pub proof fn law_fields_and_typing(text: Seq<char>, key: KeyEvent, c: char)
    ensures
        line_edit::new_field(text).text == text,
        line_edit::new_field(text).cursor == text.len(),
        line_edit::types(key, c) <==> {
            &&& key.code == KeyCode::Char(c)
            &&& key.kind == KeyEventKind::Press || key.kind == KeyEventKind::Repeat
            &&& !key.modifiers.control && !key.modifiers.alt && !key.modifiers.super_key
            &&& !key.modifiers.hyper && !key.modifiers.meta
        },
{
}

/// A typed character stands in front of the cursor, and all others stay in their
/// order.
pub proof fn law_typing_inserts(field: line_edit::FieldView, c: char)
    requires
        field.cursor <= field.text.len(),
    ensures
        ({
            let after = line_edit::typed(field, c);
            let at = field.cursor as int;
            &&& after.cursor == field.cursor + 1
            &&& after.text.len() == field.text.len() + 1
            &&& after.text[at] == c
            &&& after.text.take(at) == field.text.take(at)
            &&& after.text.skip(at + 1) == field.text.skip(at)
        }),
{
    let after = line_edit::typed(field, c);
    let at = field.cursor as int;
    assert(after.text.take(at) =~= field.text.take(at));
    assert(after.text.skip(at + 1) =~= field.text.skip(at));
}

/// The number of a set of modifier keys has a binary digit for each: from the
/// lowest on for shift, control, alt, super, hyper and meta.
pub proof fn law_numbers_of_modifiers(held: KeyModifiers)
    ensures
        ({
            let n = line_edit::modifier_number(held);
            &&& 0 <= n < 64
            &&& n % 2 == 1 <==> held.shift
            &&& (n / 2) % 2 == 1 <==> held.control
            &&& (n / 4) % 2 == 1 <==> held.alt
            &&& (n / 8) % 2 == 1 <==> held.super_key
            &&& (n / 16) % 2 == 1 <==> held.hyper
            &&& (n / 32) % 2 == 1 <==> held.meta
        }),
{
}

} // verus!
