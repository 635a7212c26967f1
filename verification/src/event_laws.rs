//! What messages and the mouse do: the list of jobs and its selection, the
//! output, clicks, drags and the wheel.
use vstd::prelude::*;

use crate::app;
use crate::app::{AppMessage, AppView, OutcomeView, WheelRun};
use crate::command::CommandOutcome;
use crate::decode;
use crate::decoder_laws;
use crate::dialog::DialogView;
use crate::file_watcher::{FileWatcherError, FileWatcherUpdate};
use crate::geometry::Rect;
use crate::input;
use crate::input::{Event, MouseButton, MouseEvent, MouseEventKind, MouseWheelDirection};
use crate::job;
use crate::job::JobView;
use crate::key_laws;
use crate::layout;
use crate::output;
use crate::output::{OutputFileView, OutputSelection, ScrollAnchor};
use crate::output_laws;
use crate::text;
use crate::viewport::Pane;

verus! {

/// The state that the application starts in: the job list is focused, no dialog
/// is open, nothing is listed or selected, finished jobs are hidden, and the end
/// of the standard output is followed, not wrapped.
pub proof fn law_how_it_starts()
    ensures
        ({
            let state = app::initial();
            &&& state.focus == Pane::Jobs
            &&& state.dialog is None
            &&& state.jobs.len() == 0 && state.remembered.len() == 0
            &&& state.list.selected is None
            &&& !state.show_finished
            &&& state.file_view == OutputFileView::Stdout
            &&& state.anchor == ScrollAnchor::Bottom && state.offset == 0
            &&& !state.wrap
            &&& state.screen.text.len() == 0 && state.error is None
            &&& state.selection is None && state.copy is None && state.feedback is None
            &&& state.wf()
        }),
{
}

proof fn lemma_absent(jobs: Seq<JobView>, id: Seq<char>, i: int)
    requires
        0 <= i <= jobs.len(),
        forall|k: int| i <= k < jobs.len() ==> (#[trigger] jobs[k]).id() != id,
    ensures
        app::job_position(jobs, id, i) == jobs.len(),
    decreases jobs.len() - i,
{
    if i < jobs.len() {
        lemma_absent(jobs, id, i + 1);
    }
}

proof fn lemma_first(jobs: Seq<JobView>, id: Seq<char>, i: int, k: int)
    requires
        0 <= i <= k < jobs.len(),
        jobs[k].id() == id,
        forall|j: int| i <= j < k ==> (#[trigger] jobs[j]).id() != id,
    ensures
        app::job_position(jobs, id, i) == k,
    decreases k - i,
{
    if i < k {
        lemma_first(jobs, id, i + 1, k);
    }
}

/// Which job is selected once the list was brought up to date. The job that was
/// selected stays so, at the first position where one is called as it was. Where
/// it is no longer listed, the one that took its place is selected, or the last.
/// Where none was selected the first is, and none where no job is listed.
pub proof fn law_which_job_is_selected(state: AppView, k: int)
    requires
        job::shown(state.remembered, state.show_finished).len() <= usize::MAX,
    ensures
        ({
            let after = state.relisted();
            let n = after.jobs.len();
            &&& after.jobs == job::shown(state.remembered, state.show_finished)
            &&& n == 0 ==> after.list.selected is None
            &&& n > 0 && state.selected_id() is None ==> after.list.selected == Some(0usize)
            &&& (0 <= k < n && state.selected_id() == Some(after.jobs[k].id()) && forall|j: int|
                0 <= j < k ==> (#[trigger] after.jobs[j]).id() != after.jobs[k].id())
                ==> after.list.selected == Some(k as usize)
            &&& (n > 0 && state.selected_id() is Some && forall|j: int|
                0 <= j < n ==> Some((#[trigger] after.jobs[j]).id()) != state.selected_id())
                ==> after.list.selected == Some(
                if state.list.selected->0 < n {
                    state.list.selected->0
                } else {
                    (n - 1) as usize
                },
            )
        }),
{
    let after = state.relisted();
    let jobs = after.jobs;
    if let Some(id) = state.selected_id() {
        if 0 <= k < jobs.len() && jobs[k].id() == id && (forall|j: int|
            0 <= j < k ==> (#[trigger] jobs[j]).id() != id) {
            lemma_first(jobs, id, 0, k);
        }
        if forall|j: int| 0 <= j < jobs.len() ==> (#[trigger] jobs[j]).id() != id {
            lemma_absent(jobs, id, 0);
        }
    }
}

/// Bringing the list up to date changes which jobs are listed and selected, and
/// nothing else; but where another job is selected then, the selection of output
/// is given up.
pub proof fn law_what_relisting_changes(state: AppView)
    ensures
        ({
            let after = state.relisted();
            if after.selected_id() == state.selected_id() {
                after == AppView { jobs: after.jobs, list: after.list, ..state }
            } else {
                after == AppView {
                    jobs: after.jobs,
                    list: after.list,
                    ..key_laws::unselected(state)
                }
            }
        }),
{
}

/// The jobs of a refresh are remembered with those that have left the queue, and
/// listed.
pub proof fn law_a_refresh_lists_its_jobs(state: AppView, jobs: Vec<crate::job::Job>)
    ensures
        ({
            let after = state.after_message(AppMessage::Jobs(jobs));
            &&& after.remembered == job::refreshed(state.remembered, job::job_views(jobs@))
            &&& after.jobs == job::shown(after.remembered, after.show_finished)
            &&& after.show_finished == state.show_finished
            &&& after.screen == state.screen && after.dialog == state.dialog
            &&& after.focus == state.focus
            &&& state.message_request(AppMessage::Jobs(jobs)) is None
        }),
{
}

/// The file that is followed is the standard output or the standard error of the
/// selected job, whichever is to be shown; none where no job is selected.
pub proof fn law_which_file_is_followed(state: AppView)
    ensures
        match state.list.selected {
            Some(i) => if i < state.jobs.len() {
                state.watched_file() == if state.file_view == OutputFileView::Stdout {
                    state.jobs[i as int].stdout
                } else {
                    state.jobs[i as int].stderr
                }
            } else {
                state.watched_file() is None
            },
            None => state.watched_file() is None,
        },
{
}

/// A command that succeeded leaves everything as it is. One that could not be
/// run, or failed, opens a dialog with the command, and why or what it reported.
pub proof fn law_failed_commands_are_shown(
    state: AppView,
    label: Seq<char>,
    outcome: CommandOutcome,
)
    ensures
        ({
            let after = state.command_done(app::failure_of(label, outcome));
            match outcome {
                CommandOutcome::NotRun { reason } => after == (AppView {
                    dialog: Some(
                        DialogView::CommandError { command: label, output: reason@ },
                    ),
                    ..state
                }),
                CommandOutcome::Ended { success, code, stdout, stderr } => if success {
                    after == state
                } else {
                    after == (AppView {
                        dialog: Some(
                            DialogView::CommandError {
                                command: label,
                                output: crate::command::failure_report(code, stdout@, stderr@),
                            },
                        ),
                        ..state
                    })
                },
            }
        }),
{
}

/// What a report on the file changes. A new file voids the output, its error and
/// its selection. Bytes that were read are added, and end an error. An error is
/// kept with its reason, and leaves what was read. The width of the content
/// follows; nothing else changes.
pub proof fn law_what_a_report_changes(state: AppView, update: FileWatcherUpdate)
    ensures
        ({
            let after = state.output_updated(update);
            &&& after.content_width == app::output_width(after.error, after.screen.text)
            &&& match update {
                FileWatcherUpdate::Reset => {
                    &&& after == (AppView {
                        screen: after.screen,
                        pending: Seq::empty(),
                        error: None,
                        content_width: after.content_width,
                        ..key_laws::unselected(state)
                    })
                    &&& after.screen == crate::log_decoder::blank()
                    &&& after.screen.text.len() == 0
                },
                FileWatcherUpdate::Append(bytes) => {
                    &&& after == (AppView {
                        screen: after.screen,
                        pending: after.pending,
                        error: None,
                        content_width: after.content_width,
                        ..state
                    })
                    &&& after.screen == crate::log_decoder::write_all(
                        state.screen,
                        decode::decoded(state.pending + bytes@),
                    )
                    &&& after.pending == decode::pending(state.pending + bytes@)
                },
                FileWatcherUpdate::Error(FileWatcherError::File(reason)) => after == (AppView {
                    error: Some(reason@),
                    content_width: after.content_width,
                    ..state
                }),
            }
        }),
{
}

/// A log of lines that is read after a new file was chosen is shown line by line,
/// whether its lines end with a line feed alone or with a carriage return too.
/// What stands behind the last line end is the last line.
pub proof fn law_a_log_that_is_read_is_shown(
    state: AppView,
    lines: Seq<Seq<char>>,
    last: Seq<char>,
    end: Seq<char>,
    bytes: Vec<u8>,
)
    requires
        forall|k: int| 0 <= k < lines.len() ==> decoder_laws::all_show(#[trigger] lines[k]),
        decoder_laws::all_show(last),
        end == seq!['\n'] || end == seq!['\r', '\n'],
        bytes@ == vstd::utf8::encode_utf8(decoder_laws::ended(lines, end) + last),
    ensures
        ({
            let after = state.output_updated(FileWatcherUpdate::Reset).output_updated(
                FileWatcherUpdate::Append(bytes),
            );
            &&& output::source_lines(after.screen.text) == if last.len() > 0 {
                lines.push(last)
            } else {
                lines
            }
            &&& after.error is None
            &&& after.pending.len() == 0
            &&& output_laws::is_widest(output::lines(after.screen.text, 0), after.content_width)
        }),
{
    let log = decoder_laws::ended(lines, end) + last;
    let fresh = state.output_updated(FileWatcherUpdate::Reset);
    let after = fresh.output_updated(FileWatcherUpdate::Append(bytes));
    decode::law_decode_valid_text(log);
    assert(fresh.pending + bytes@ =~= bytes@);
    output_laws::law_a_log_is_shown_line_by_line(lines, last, end);
    output_laws::law_output_is_as_wide_as_its_widest_line(after.screen.text, last);
}

/// A rectangle holds the cells from its corner on, as many columns and rows as it
/// is wide and high.
pub proof fn law_cells_of_a_rectangle(area: Rect, column: int, row: int)
    requires
        layout::on_screen(area),
    ensures
        area.holds(column, row) <==> {
            &&& area.x <= column < area.x + area.width
            &&& area.y <= row < area.y + area.height
        },
{
}

/// A place belongs to the pane that it lies in.
pub proof fn law_pane_at_a_place(state: AppView, column: u16, row: u16)
    requires
        !(state.jobs_pane.area.holds(column as int, row as int) && (
        state.details_pane.area.holds(column as int, row as int)
            || state.output_pane.area.holds(column as int, row as int))),
        !(state.details_pane.area.holds(column as int, row as int)
            && state.output_pane.area.holds(column as int, row as int)),
    ensures
        state.pane_at(column, row) == Some(Pane::Jobs) <==> state.jobs_pane.area.holds(
            column as int,
            row as int,
        ),
        state.pane_at(column, row) == Some(Pane::Details) <==> state.details_pane.area.holds(
            column as int,
            row as int,
        ),
        state.pane_at(column, row) == Some(Pane::Output) <==> state.output_pane.area.holds(
            column as int,
            row as int,
        ),
{
}

/// Inside the border of the job list, each row shows a job: the first row the
/// first one that is not scrolled out, and each row below it the next. On the
/// border, and below the last job, there is none.
pub proof fn law_job_at_a_place(state: AppView, column: u16, row: u16)
    requires
        layout::on_screen(state.jobs_pane.area),
        state.jobs.len() <= usize::MAX,
    ensures
        ({
            let area = state.jobs_pane.area;
            let index = state.list.offset + (row - area.y - 1);
            let inside = {
                &&& area.x < column < area.x + area.width - 1
                &&& area.y < row < area.y + area.height - 1
            };
            &&& inside && index < state.jobs.len() ==> state.job_at(column, row) == Some(
                index as usize,
            )
            &&& !inside || index >= state.jobs.len() ==> state.job_at(column, row) is None
        }),
{
}

/// Pressing the left button on a pane focuses it. On a job it selects the job; in
/// the output it starts a selection with the cell there, and gives up the one
/// before; anywhere else it changes nothing else. Beside the panes it does
/// nothing.
#[verifier::spinoff_prover]
pub proof fn law_pressing_the_button(state: AppView, mouse: MouseEvent)
    requires
        state.dialog is None,
        mouse.kind == MouseEventKind::Down(MouseButton::Left),
    ensures
        ({
            let after = state.after_event(Event::Mouse(mouse));
            let job = state.job_at(mouse.column, mouse.row);
            match state.pane_at(mouse.column, mouse.row) {
                None => after == state,
                Some(pane) => {
                    let focused = AppView { focus: pane, ..state };
                    if pane == Pane::Jobs && job is Some {
                        key_laws::selects(focused, after, job->0 as int)
                    } else if pane == Pane::Output && state.inner_area.holds(
                        mouse.column as int,
                        mouse.row as int,
                    ) {
                        after == AppView {
                            selection: None,
                            selection_anchor: state.cell_at(mouse.column, mouse.row),
                            dragged: false,
                            feedback: None,
                            ..focused
                        }
                    } else {
                        after == focused
                    }
                },
            }
        }),
{
    let focused = AppView { focus: state.pane_at(mouse.column, mouse.row)->0, ..state };
    assert(focused.cell_at(mouse.column, mouse.row) == state.cell_at(mouse.column, mouse.row));
}

/// A drag draws the selection from the cell where it started to the cell at the
/// mouse: from the start of the earlier one to the end of the later one. Where
/// that holds nothing, nothing is selected. A place without output leaves the
/// selection as it is.
#[verifier::spinoff_prover]
pub proof fn law_dragging_selects(state: AppView, mouse: MouseEvent)
    requires
        state.dialog is None,
        mouse.kind == MouseEventKind::Drag(MouseButton::Left),
        state.selection_anchor is Some,
    ensures
        ({
            let after = state.after_event(Event::Mouse(mouse));
            let anchor = state.selection_anchor->0;
            &&& after == (AppView { selection: after.selection, dragged: true, ..state })
            &&& match state.cell_at(mouse.column, mouse.row) {
                None => after.selection == state.selection,
                Some(active) => {
                    let back = active.start.lt(anchor.start);
                    let start = if back {
                        active.start
                    } else {
                        anchor.start
                    };
                    let end = if back {
                        anchor.end
                    } else {
                        active.end
                    };
                    after.selection == if start.lt(end) {
                        Some(OutputSelection { start, end })
                    } else {
                        None
                    }
                },
            }
        }),
{
    let dragging = AppView { dragged: true, ..state };
    assert(dragging.cell_at(mouse.column, mouse.row) == state.cell_at(mouse.column, mouse.row));
}

/// A selection that was drawn between two cells, one of which lies in front of
/// the other, holds both of them.
pub proof fn law_a_selection_holds_both_cells(state: AppView, column: u16, row: u16)
    requires
        state.selection_anchor is Some,
        state.cell_at(column, row) is Some,
        state.selected_to(column, row).selection is Some,
        ({
            let anchor = state.selection_anchor->0;
            let active = state.cell_at(column, row)->0;
            &&& !anchor.end.lt(anchor.start)
            &&& !active.end.lt(active.start)
            &&& active == anchor || !active.start.lt(anchor.end) || !anchor.start.lt(active.end)
        }),
    ensures
        ({
            let held = state.selected_to(column, row).selection->0;
            let anchor = state.selection_anchor->0;
            let active = state.cell_at(column, row)->0;
            &&& !anchor.start.lt(held.start) && !held.end.lt(anchor.end)
            &&& !active.start.lt(held.start) && !held.end.lt(active.end)
        }),
{
}

/// When the button is released after a drag, the selection reaches to the cell
/// there, and stays; after a mere click nothing is selected. The drag is over in
/// any case, and nothing else changes.
#[verifier::spinoff_prover]
pub proof fn law_releasing_the_button(state: AppView, mouse: MouseEvent)
    requires
        state.dialog is None,
        mouse.kind == MouseEventKind::Up(MouseButton::Left),
        state.selection_anchor is Some,
    ensures
        ({
            let after = state.after_event(Event::Mouse(mouse));
            &&& after == (AppView {
                selection: after.selection,
                selection_anchor: None,
                dragged: false,
                ..state
            })
            &&& !state.dragged ==> after.selection is None
            &&& state.dragged ==> after.selection == state.after_event(
                Event::Mouse(MouseEvent { kind: MouseEventKind::Drag(MouseButton::Left), ..mouse }),
            ).selection
        }),
{
    let dragging = AppView { dragged: true, ..state };
    assert(dragging.cell_at(mouse.column, mouse.row) == state.cell_at(mouse.column, mouse.row));
}

/// Nothing else that the mouse does changes anything at once, nor does a paste, a
/// new size or any other event.
pub proof fn law_other_events_change_nothing(state: AppView, event: Event)
    requires
        match event {
            Event::Key(_) => false,
            Event::Mouse(mouse) => match mouse.kind {
                MouseEventKind::Down(button) => button != MouseButton::Left,
                MouseEventKind::Up(button) => button != MouseButton::Left
                    || state.selection_anchor is None,
                MouseEventKind::Drag(button) => button != MouseButton::Left
                    || state.selection_anchor is None,
                _ => true,
            },
            _ => true,
        },
    ensures
        state.after_event(event) == state,
{
}

/// An event after which nothing is drawn has changed nothing.
#[verifier::spinoff_prover]
pub proof fn law_what_changes_is_drawn(state: AppView, event: Event)
    requires
        state.event_outcome(event) is Idle,
    ensures
        state.after_event(event) == state,
{
    if let Event::Mouse(mouse) = event {
        if mouse.kind == MouseEventKind::Down(MouseButton::Left) && state.dialog is None {
            if let Some(index) = state.job_at(mouse.column, mouse.row) {
                if state.list.selected == Some(index) {
                    let focused = AppView { focus: state.focus, ..state };
                    assert(state.list.with(Some(index)) == state.list);
                    assert(focused.with_list(state.list) == state);
                }
            }
        }
    }
}

/// What follows from an event other than those of the mouse: a key is drawn, with
/// the command that it gives, unless it ends the application; a new size is
/// drawn; a paste and any other event are passed over.
pub proof fn law_outcomes(state: AppView, event: Event)
    ensures
        match event {
            Event::Key(key) => if key.code == input::KeyCode::Char('q') {
                state.event_outcome(event) is Quit && state.after_event(event) == state
            } else {
                &&& state.event_outcome(event) == (OutcomeView::Draw {
                    request: state.key_request(key),
                })
                &&& state.after_event(event) == state.after_key(key)
            },
            Event::Resize => state.event_outcome(event) == (OutcomeView::Draw { request: None }),
            Event::Paste => state.event_outcome(event) is Idle,
            Event::Other => state.event_outcome(event) is Idle,
            Event::Mouse(_) => true,
        },
{
}

/// What the wheel scrolls: the pane under the mouse, up or down; or to the left or
/// right, where the wheel turns that way or shift is held. With shift a turn up
/// or down counts three times. Beside the panes it scrolls nothing.
pub proof fn law_what_the_wheel_scrolls(state: AppView, mouse: MouseEvent)
    requires
        state.dialog is None,
    ensures
        ({
            let shift = mouse.modifiers.shift;
            let direction = match mouse.kind {
                MouseEventKind::ScrollUp => Some(
                    if shift {
                        MouseWheelDirection::Left
                    } else {
                        MouseWheelDirection::Up
                    },
                ),
                MouseEventKind::ScrollDown => Some(
                    if shift {
                        MouseWheelDirection::Right
                    } else {
                        MouseWheelDirection::Down
                    },
                ),
                MouseEventKind::ScrollLeft => Some(MouseWheelDirection::Left),
                MouseEventKind::ScrollRight => Some(MouseWheelDirection::Right),
                _ => None,
            };
            let turned = shift && (mouse.kind == MouseEventKind::ScrollUp || mouse.kind
                == MouseEventKind::ScrollDown);
            match (direction, state.pane_at(mouse.column, mouse.row)) {
                (Some(direction), Some(target)) => {
                    &&& state.event_outcome(Event::Mouse(mouse)) matches OutcomeView::Wheel { run }
                    &&& run.target == target && run.direction == direction && run.count == 1
                    &&& turned ==> run.multiplier == 3
                    &&& !turned ==> run.multiplier == 1
                },
                (Some(_), None) => state.event_outcome(Event::Mouse(mouse)) is Idle,
                _ => !(state.event_outcome(Event::Mouse(mouse)) is Wheel),
            }
        }),
{
}

/// An event goes on with a run of the wheel exactly where it would start one that
/// scrolls the same pane the same way and counts as much.
pub proof fn law_which_events_go_on(state: AppView, run: WheelRun, event: Event)
    requires
        state.dialog is None,
    ensures
        state.continues(run, event) <==> (event is Mouse && (state.event_outcome(
            event,
        ) matches OutcomeView::Wheel { run: next } && next.target == run.target && next.direction
            == run.direction && next.multiplier == run.multiplier)),
{
}

/// A run of the wheel scrolls its pane by as many lines or columns as its events
/// count together: the job list by its selection, the output by its lines, and
/// the details by columns only. While a dialog is open it scrolls nothing.
#[verifier::spinoff_prover]
pub proof fn law_a_run_scrolls(state: AppView, run: WheelRun)
    requires
        state.wf(),
        run.count * run.multiplier <= 65535,
    ensures
        ({
            let after = state.after_run(run);
            let amount = run.count * run.multiplier;
            let down = run.direction == MouseWheelDirection::Down;
            let lines = if down {
                amount as int
            } else {
                -(amount as int)
            };
            let columns = if run.direction == MouseWheelDirection::Right {
                amount as int
            } else {
                -(amount as int)
            };
            let vertical = down || run.direction == MouseWheelDirection::Up;
            if state.dialog is Some {
                after == state
            } else if vertical {
                match run.target {
                    Pane::Jobs => key_laws::selects(
                        state,
                        after,
                        key_laws::position(
                            lines + match state.list.selected {
                                Some(i) => i as int,
                                None => 0,
                            },
                        ),
                    ),
                    Pane::Details => after == state,
                    Pane::Output => after == (AppView {
                        offset: key_laws::offset_after(
                            state.anchor,
                            state.offset as int,
                            lines,
                        ) as u16,
                        ..state
                    }),
                }
            } else {
                match run.target {
                    Pane::Jobs => {
                        &&& after == (AppView { jobs_pane: after.jobs_pane, ..state })
                        &&& key_laws::pane_scrolled(state.jobs_pane, after.jobs_pane, columns)
                    },
                    Pane::Details => {
                        &&& after == (AppView { details_pane: after.details_pane, ..state })
                        &&& key_laws::pane_scrolled(
                            state.details_pane,
                            after.details_pane,
                            columns,
                        )
                    },
                    Pane::Output => {
                        &&& after == (AppView { output_pane: after.output_pane, ..state })
                        &&& !state.wrap ==> key_laws::pane_scrolled(
                            state.output_pane,
                            after.output_pane,
                            columns,
                        )
                        &&& state.wrap ==> after == state
                    },
                }
            }
        }),
{
    let product = run.count * run.multiplier;
    assert(0 <= product) by (nonlinear_arith)
        requires
            product == run.count * run.multiplier,
            0 <= run.count,
            0 <= run.multiplier,
    ;
    let amount = product as u16;
    assert(state.dialog is None ==> state.after_run(run) == state.wheeled(
        run.target,
        run.direction,
        amount,
    ));
}

/// The messages that stand for what the mouse does: focusing a pane, selecting a
/// job of the list, and scrolling. An open dialog keeps them from everything.
pub proof fn law_messages_of_the_mouse(state: AppView, pane: Pane, index: usize)
    ensures
        ({
            let focus = state.after_message(AppMessage::MouseFocus(pane));
            let click = state.after_message(AppMessage::MouseClick(index));
            &&& state.dialog is Some ==> focus == state && click == state
            &&& state.dialog is None ==> focus == (AppView { focus: pane, ..state })
            &&& state.dialog is None && index >= state.jobs.len() ==> click == state
            &&& state.dialog is None && index < state.jobs.len() ==> key_laws::selects(
                state,
                click,
                index as int,
            )
            &&& state.message_request(AppMessage::MouseFocus(pane)) is None
            &&& state.message_request(AppMessage::MouseClick(index)) is None
        }),
{
}

/// A key that arrives as a message does what it does as an event.
pub proof fn law_keys_as_messages(state: AppView, key: input::KeyEvent)
    ensures
        state.after_message(AppMessage::Key(key)) == state.after_key(key),
        state.message_request(AppMessage::Key(key)) == state.key_request(key),
        state.dialog is Some ==> {
            &&& state.after_key(key) == (AppView {
                dialog: crate::dialog::dialog_after(state.dialog->0, key),
                ..state
            })
            &&& state.key_request(key) == crate::dialog::dialog_request(state.dialog->0, key)
        },
{
}

/// An event that goes on with a run makes it count one more, up to the largest
/// count, and changes nothing else of it.
pub proof fn law_runs_grow_by_one(run: WheelRun)
    ensures
        run.longer().target == run.target,
        run.longer().direction == run.direction,
        run.longer().multiplier == run.multiplier,
        run.count < 65535 ==> run.longer().count == run.count + 1,
        run.count == 65535 ==> run.longer().count == 65535,
{
}

/// The messages that stand for a drag do what the button and the mouse do, and
/// give no command.
pub proof fn law_messages_of_a_drag(state: AppView, mouse: MouseEvent)
    requires
        state.dialog is None,
        state.selection_anchor is Some,
    ensures
        state.message_request(
            AppMessage::MouseSelectionStart { column: mouse.column, row: mouse.row },
        ) is None,
        state.message_request(
            AppMessage::MouseSelectionUpdate { column: mouse.column, row: mouse.row },
        ) is None,
        state.message_request(
            AppMessage::MouseSelectionEnd { column: mouse.column, row: mouse.row },
        ) is None,
        mouse.kind == MouseEventKind::Drag(MouseButton::Left) ==> state.after_message(
            AppMessage::MouseSelectionUpdate { column: mouse.column, row: mouse.row },
        ) == state.after_event(Event::Mouse(mouse)),
        mouse.kind == MouseEventKind::Up(MouseButton::Left) ==> state.after_message(
            AppMessage::MouseSelectionEnd { column: mouse.column, row: mouse.row },
        ) == state.after_event(Event::Mouse(mouse)),
{
}

/// The message that starts a selection keeps the cell at its place, and gives up
/// the selection before.
pub proof fn law_message_that_starts_a_selection(state: AppView, column: u16, row: u16)
    ensures
        state.after_message(AppMessage::MouseSelectionStart { column, row }) == (AppView {
            selection: None,
            selection_anchor: state.cell_at(column, row),
            dragged: false,
            feedback: None,
            ..state
        }),
{
}

/// The message that stands for the wheel scrolls as a run does that counts as
/// much, and a report on the file is taken over as it is. Neither gives a command.
pub proof fn law_messages_of_wheel_and_file(
    state: AppView,
    run: WheelRun,
    update: FileWatcherUpdate,
)
    requires
        run.count == 1,
    ensures
        ({
            let wheel = AppMessage::MouseWheel {
                target: run.target,
                direction: run.direction,
                amount: run.multiplier,
            };
            let report = AppMessage::JobOutput(update);
            &&& state.after_message(wheel) == state.after_run(run)
            &&& state.after_message(report) == state.output_updated(update)
            &&& state.message_request(wheel) is None
            &&& state.message_request(report) is None
        }),
{
    assert(1 * run.multiplier == run.multiplier);
}

/// The selected text is what the selection holds, where the output was read and
/// the ends of the selection lie between characters of its lines, in their order.
/// Without a selection, and while the file cannot be read, there is none.
pub proof fn law_the_selected_text(state: AppView)
    ensures
        state.selection is None || state.error is Some ==> state.selected_text() is None,
        state.error is None ==> (state.selection matches Some(held) ==> {
            let lines = output::source_lines(state.screen.text);
            let fits = {
                &&& held.start.line < held.end.line || held.start.line == held.end.line
                    && held.start.byte < held.end.byte
                &&& held.end.line < lines.len()
                &&& text::on_boundary(lines[held.start.line as int], held.start.byte as int)
                &&& text::on_boundary(lines[held.end.line as int], held.end.byte as int)
            };
            &&& fits ==> state.selected_text() == Some(
                output::selected_until(lines, held, held.end.line + 1),
            )
            &&& !fits ==> state.selected_text() is None
        }),
{
}

/// A press is drawn where it focuses another pane, selects another job, or starts
/// a selection of output; a drag and a release where a selection was started; and
/// no other event of the buttons is.
#[verifier::spinoff_prover]
pub proof fn law_when_the_buttons_are_drawn(state: AppView, mouse: MouseEvent)
    requires
        state.dialog is None,
    ensures
        ({
            let outcome = state.event_outcome(Event::Mouse(mouse));
            let pane = state.pane_at(mouse.column, mouse.row);
            let job = state.job_at(mouse.column, mouse.row);
            let drawn = OutcomeView::Draw { request: None };
            match mouse.kind {
                MouseEventKind::Down(MouseButton::Left) => outcome == if pane is Some && (state.focus
                    != pane->0 || pane->0 == Pane::Jobs && job is Some && state.list.selected != job
                    || pane->0 == Pane::Output && state.inner_area.holds(
                    mouse.column as int,
                    mouse.row as int,
                )) {
                    drawn
                } else {
                    OutcomeView::Idle
                },
                MouseEventKind::Drag(MouseButton::Left) => outcome
                    == if state.selection_anchor is Some {
                    drawn
                } else {
                    OutcomeView::Idle
                },
                MouseEventKind::Up(MouseButton::Left) => outcome
                    == if state.selection_anchor is Some {
                    drawn
                } else {
                    OutcomeView::Idle
                },
                MouseEventKind::Down(_) => outcome is Idle,
                MouseEventKind::Drag(_) => outcome is Idle,
                MouseEventKind::Up(_) => outcome is Idle,
                MouseEventKind::Moved => outcome is Idle,
                _ => true,
            }
        }),
{
}

} // verus!
