use turmy::app::{App, AppMessage, CopyKind, InputOutcome};
use turmy::command::CommandOutcome;
use turmy::dialog::Dialog;
use turmy::file_watcher::{FileWatcherError, FileWatcherUpdate};
use turmy::geometry::Rect;
use turmy::input::{
    Event, KeyCode, KeyEvent, KeyEventKind, KeyModifiers, MouseButton, MouseEvent, MouseEventKind,
    MouseWheelDirection,
};
use turmy::job::Job;
use turmy::output::{OutputFileView, ScrollAnchor};
use turmy::viewport::Pane;

fn test_job(id: &str) -> Job {
    Job {
        job_id: id.to_string(),
        array_id: id.to_string(),
        array_step: None,
        name: format!("job-{id}"),
        state: "RUNNING".to_string(),
        state_compact: "R".to_string(),
        reason: None,
        user: "user".to_string(),
        time: "00:01".to_string(),
        time_limit: "01:00:00".to_string(),
        start_time: "N/A".to_string(),
        tres: "cpu=1".to_string(),
        partition: "debug".to_string(),
        nodelist: "node01".to_string(),
        stdout: Some(format!("/logs/{id}.out")),
        stderr: Some(format!("/logs/{id}.err")),
        command: "true".to_string(),
        finished: false,
    }
}

fn with_jobs(ids: &[&str]) -> App {
    let mut app = App::new();
    refresh(&mut app, ids);
    app
}

fn refresh(app: &mut App, ids: &[&str]) {
    let jobs = ids.iter().map(|id| test_job(id)).collect();
    assert!(app.handle(AppMessage::Jobs(jobs)).is_none());
}

fn press(app: &mut App, code: KeyCode) -> Option<String> {
    hold(app, code, KeyModifiers::default())
}

fn hold(app: &mut App, code: KeyCode, modifiers: KeyModifiers) -> Option<String> {
    let key = KeyEvent { code, modifiers, kind: KeyEventKind::Press };
    app.handle(AppMessage::Key(key)).map(|request| request.label)
}

fn control() -> KeyModifiers {
    KeyModifiers { control: true, ..KeyModifiers::default() }
}

fn write(app: &mut App, text: &str) {
    let bytes = text.as_bytes().to_vec();
    app.handle(AppMessage::JobOutput(FileWatcherUpdate::Append(bytes)));
}

fn draw(app: &mut App) {
    app.draw_jobs(Rect { x: 0, y: 0, width: 20, height: 10 });
    app.draw_details(Rect { x: 20, y: 0, width: 12, height: 5 });
    app.draw_log(Rect { x: 20, y: 5, width: 12, height: 5 });
}

fn mouse(app: &mut App, kind: MouseEventKind, column: u16, row: u16) -> InputOutcome {
    let modifiers = KeyModifiers::default();
    app.handle_input_event(Event::Mouse(MouseEvent { kind, column, row, modifiers }))
}

fn selected(app: &App) -> Option<String> {
    app.selected_job().map(Job::id)
}

#[test]
fn a_new_application_knows_nothing() {
    let app = App::new();
    assert_eq!(app.focus, Pane::Jobs);
    assert!(app.jobs.is_empty());
    assert_eq!(app.job_output_anchor, ScrollAnchor::Bottom);
    assert_eq!(app.output_file_view, OutputFileView::Stdout);
    assert!(!app.show_finished_jobs);
    assert_eq!(app.watched_file(), None);
}

#[test]
fn the_first_job_is_selected_and_its_output_followed() {
    let mut app = with_jobs(&["1", "2"]);
    assert_eq!(selected(&app).as_deref(), Some("1"));
    assert_eq!(app.watched_file().as_deref(), Some("/logs/1.out"));
    press(&mut app, KeyCode::Char('o'));
    assert_eq!(app.watched_file().as_deref(), Some("/logs/1.err"));
    press(&mut app, KeyCode::Char('o'));
    assert_eq!(app.watched_file().as_deref(), Some("/logs/1.out"));
}

#[test]
fn the_selection_follows_its_job() {
    let mut app = with_jobs(&["1", "2", "3"]);
    press(&mut app, KeyCode::Down);
    assert_eq!(selected(&app).as_deref(), Some("2"));
    refresh(&mut app, &["0", "1", "2", "3"]);
    assert_eq!(selected(&app).as_deref(), Some("2"));
    refresh(&mut app, &["0", "1", "3"]);
    assert_eq!(selected(&app).as_deref(), Some("3"));
    refresh(&mut app, &[]);
    assert_eq!(selected(&app), None);
    assert_eq!(app.job_list_state.offset, 0);
}

#[test]
fn finished_jobs_are_shown_on_demand() {
    let mut app = with_jobs(&["1", "2"]);
    refresh(&mut app, &["2"]);
    assert_eq!(app.jobs.len(), 1);
    press(&mut app, KeyCode::Char('f'));
    assert_eq!(app.jobs.len(), 2);
    press(&mut app, KeyCode::Char('G'));
    app.list_drawn(Some(1), 0);
    assert_eq!(selected(&app).as_deref(), Some("1"));
    assert_eq!(app.watched_file().as_deref(), Some("/logs/1.out"));
    press(&mut app, KeyCode::Char('f'));
    assert_eq!(app.jobs.len(), 1);
    assert_eq!(selected(&app).as_deref(), Some("2"));
}

#[test]
fn finished_jobs_are_not_controlled() {
    let mut app = with_jobs(&["1", "2"]);
    refresh(&mut app, &["2"]);
    press(&mut app, KeyCode::Char('f'));
    app.list_drawn(Some(1), 0);
    for key in ['c', 'C', 't'] {
        press(&mut app, KeyCode::Char(key));
        assert!(app.dialog.is_none());
    }
    app.list_drawn(Some(0), 0);
    press(&mut app, KeyCode::Char('c'));
    assert!(matches!(&app.dialog, Some(Dialog::ConfirmCancelJob(id)) if id == "2"));
}

#[test]
fn cancelling_asks_first() {
    let mut app = with_jobs(&["1"]);
    assert_eq!(press(&mut app, KeyCode::Char('c')), None);
    assert_eq!(press(&mut app, KeyCode::Char('x')), None);
    assert!(app.dialog.is_some());
    assert_eq!(press(&mut app, KeyCode::Esc), None);
    assert!(app.dialog.is_none());
    press(&mut app, KeyCode::Char('c'));
    assert_eq!(press(&mut app, KeyCode::Char('y')).as_deref(), Some("scancel 1"));
    assert!(app.dialog.is_none());
}

#[test]
fn signals_are_chosen_from_a_list() {
    let mut app = with_jobs(&["1"]);
    press(&mut app, KeyCode::Char('C'));
    press(&mut app, KeyCode::Up);
    press(&mut app, KeyCode::Down);
    press(&mut app, KeyCode::Char('j'));
    assert_eq!(press(&mut app, KeyCode::Enter).as_deref(), Some("scancel --signal HUP 1"));
    press(&mut app, KeyCode::Char('C'));
    press(&mut app, KeyCode::Char('8'));
    press(&mut app, KeyCode::Down);
    press(&mut app, KeyCode::Char('9'));
    press(&mut app, KeyCode::Char('0'));
    assert_eq!(press(&mut app, KeyCode::Enter).as_deref(), Some("scancel --signal KILL 1"));
    press(&mut app, KeyCode::Char('C'));
    press(&mut app, KeyCode::Char('3'));
    press(&mut app, KeyCode::Char('k'));
    assert_eq!(press(&mut app, KeyCode::Enter).as_deref(), Some("scancel --signal INT 1"));
}

#[test]
fn time_limits_are_edited() {
    let mut app = with_jobs(&["1"]);
    press(&mut app, KeyCode::Char('t'));
    hold(&mut app, KeyCode::Char('u'), control());
    assert_eq!(press(&mut app, KeyCode::Enter), None);
    assert!(app.dialog.is_some());
    for c in " 2:00".chars() {
        press(&mut app, KeyCode::Char(c));
    }
    assert_eq!(
        press(&mut app, KeyCode::Enter).as_deref(),
        Some("scontrol update JobId=1 TimeLimit=2:00")
    );
    assert!(app.dialog.is_none());
}

#[test]
fn failed_commands_are_reported() {
    let mut app = with_jobs(&["1"]);
    app.command_finished(
        "scancel 1".to_string(),
        CommandOutcome::NotRun { reason: "not found".to_string() },
    );
    match &app.dialog {
        Some(Dialog::CommandError { command, output }) => {
            assert_eq!(command, "scancel 1");
            assert_eq!(output, "not found");
        }
        _ => panic!("a report was expected"),
    }
    press(&mut app, KeyCode::Enter);
    assert!(app.dialog.is_none());
    app.command_finished(
        "scancel 1".to_string(),
        CommandOutcome::Ended {
            success: true,
            code: Some(0),
            stdout: Vec::new(),
            stderr: Vec::new(),
        },
    );
    assert!(app.dialog.is_none());
}

#[test]
fn only_q_quits() {
    let mut app = with_jobs(&["1"]);
    let key = |c: char| {
        Event::Key(KeyEvent {
            code: KeyCode::Char(c),
            modifiers: KeyModifiers::default(),
            kind: KeyEventKind::Press,
        })
    };
    assert!(matches!(app.handle_input_event(key('q')), InputOutcome::Quit));
    assert!(matches!(app.handle_input_event(key('x')), InputOutcome::Draw(None)));
    assert!(matches!(app.handle_input_event(Event::Resize), InputOutcome::Draw(None)));
    assert!(matches!(app.handle_input_event(Event::Paste), InputOutcome::Idle));
    assert!(matches!(app.handle_input_event(Event::Other), InputOutcome::Idle));
}

#[test]
fn tab_moves_the_focus_round() {
    let mut app = App::new();
    press(&mut app, KeyCode::Tab);
    assert_eq!(app.focus, Pane::Details);
    press(&mut app, KeyCode::Tab);
    press(&mut app, KeyCode::Tab);
    assert_eq!(app.focus, Pane::Jobs);
    press(&mut app, KeyCode::BackTab);
    assert_eq!(app.focus, Pane::Output);
}

#[test]
fn arrow_keys_with_control_scroll_ten_lines_or_columns() {
    let mut app = with_jobs(&["1"]);
    hold(&mut app, KeyCode::Down, control());
    assert_eq!(app.job_list_state.selected, Some(10));
    let alt = KeyModifiers { alt: true, ..KeyModifiers::default() };
    hold(&mut app, KeyCode::Down, alt);
    assert_eq!(app.job_list_state.selected, Some(20));
    hold(&mut app, KeyCode::Up, control());
    press(&mut app, KeyCode::Up);
    assert_eq!(app.job_list_state.selected, Some(9));

    app.focus = Pane::Output;
    hold(&mut app, KeyCode::Up, control());
    assert_eq!(app.job_output_offset, 10);
    press(&mut app, KeyCode::Down);
    assert_eq!(app.job_output_offset, 9);

    write(&mut app, &"x".repeat(50));
    draw(&mut app);
    hold(&mut app, KeyCode::Right, control());
    press(&mut app, KeyCode::Char('l'));
    assert_eq!(app.output_viewport.horizontal_offset(), 11);
    hold(&mut app, KeyCode::Left, alt);
    assert_eq!(app.output_viewport.horizontal_offset(), 1);
}

#[test]
fn letters_stand_for_keys() {
    let pairs = [
        ('j', KeyCode::Down),
        ('k', KeyCode::Up),
        ('g', KeyCode::Home),
        ('G', KeyCode::End),
    ];
    for (letter, code) in pairs {
        let mut by_letter = with_jobs(&["1", "2", "3"]);
        let mut by_key = with_jobs(&["1", "2", "3"]);
        press(&mut by_letter, KeyCode::Down);
        press(&mut by_key, KeyCode::Down);
        press(&mut by_letter, KeyCode::Char(letter));
        press(&mut by_key, code);
        assert_eq!(by_letter.job_list_state, by_key.job_list_state);
    }
}

#[test]
fn pages_are_as_high_as_the_pane() {
    let mut app = with_jobs(&["1"]);
    draw(&mut app);
    assert_eq!(app.job_list_height, 8);
    press(&mut app, KeyCode::PageDown);
    assert_eq!(app.job_list_state.selected, Some(7));
    hold(&mut app, KeyCode::Char('u'), control());
    assert_eq!(app.job_list_state.selected, Some(3));
    hold(&mut app, KeyCode::PageDown, control());
    assert_eq!(app.job_list_state.selected, Some(53));
    app.focus = Pane::Output;
    assert_eq!(app.job_output_height, 3);
    press(&mut app, KeyCode::PageUp);
    assert_eq!(app.job_output_offset, 2);
    hold(&mut app, KeyCode::Char('d'), control());
    assert_eq!(app.job_output_offset, 1);
    press(&mut app, KeyCode::Home);
    assert_eq!(app.job_output_anchor, ScrollAnchor::Top);
    press(&mut app, KeyCode::PageDown);
    assert_eq!(app.job_output_offset, 2);
    press(&mut app, KeyCode::Char('G'));
    assert_eq!((app.job_output_anchor, app.job_output_offset), (ScrollAnchor::Bottom, 0));
}

#[test]
fn wrapped_output_does_not_scroll_horizontally() {
    let mut app = with_jobs(&["1"]);
    write(&mut app, &"x".repeat(50));
    draw(&mut app);
    app.focus = Pane::Output;
    press(&mut app, KeyCode::Right);
    assert_eq!(app.output_viewport.horizontal_offset(), 1);
    press(&mut app, KeyCode::Char('w'));
    assert_eq!(app.output_viewport.horizontal_offset(), 0);
    press(&mut app, KeyCode::Right);
    app.handle(AppMessage::MouseWheel {
        target: Pane::Output,
        direction: MouseWheelDirection::Right,
        amount: 3,
    });
    draw(&mut app);
    assert_eq!(app.output_viewport.horizontal_offset(), 0);
    assert_eq!(app.rendered_output_lines.len(), 3);
    press(&mut app, KeyCode::Char('w'));
    draw(&mut app);
    press(&mut app, KeyCode::End);
    press(&mut app, KeyCode::Right);
    assert_eq!(app.output_viewport.horizontal_offset(), 1);
}

#[test]
fn output_arrives_in_pieces() {
    let mut whole = with_jobs(&["1"]);
    write(&mut whole, "10%\r20%\nwide 测试 line");
    let mut pieces = with_jobs(&["1"]);
    for byte in "10%\r20%\nwide 测试 line".bytes() {
        pieces.handle(AppMessage::JobOutput(FileWatcherUpdate::Append(vec![byte])));
    }
    assert_eq!(whole.job_output, "20%\nwide 测试 line");
    assert_eq!(pieces.job_output, whole.job_output);
    assert_eq!(pieces.job_output_content_width, 14);
    assert_eq!(whole.job_output_content_width, 14);
}

#[test]
fn read_errors_are_shown_until_the_file_is_read() {
    let mut app = with_jobs(&["1"]);
    write(&mut app, "text");
    let error = FileWatcherError::File("gone".to_string());
    app.handle(AppMessage::JobOutput(FileWatcherUpdate::Error(error)));
    assert_eq!(app.job_output_content_width, "Read error: gone".len());
    let log = app.draw_log(Rect { x: 0, y: 0, width: 30, height: 5 });
    assert!(log.error);
    assert_eq!(log.panel.lines[0].to_text(), "Read error: gone");
    assert!(app.rendered_output_lines.is_empty());
    press(&mut app, KeyCode::Char('Y'));
    assert!(app.pending_copy.is_none());
    write(&mut app, "");
    assert_eq!(app.job_output, "text");
    assert!(app.job_output_error.is_none());
}

#[test]
fn another_file_starts_from_nothing() {
    let mut app = with_jobs(&["1"]);
    write(&mut app, "text\x1b[3");
    app.handle(AppMessage::JobOutput(FileWatcherUpdate::Reset));
    assert_eq!(app.job_output, "");
    assert_eq!(app.job_output_content_width, 0);
    write(&mut app, "new");
    assert_eq!(app.job_output, "new");
}

#[test]
fn dragging_selects_output_to_copy() {
    let mut app = with_jobs(&["1"]);
    write(&mut app, "zero\nab测试cd\nlast");
    draw(&mut app);
    mouse(&mut app, MouseEventKind::Down(MouseButton::Left), 23, 7);
    assert_eq!(app.focus, Pane::Output);
    mouse(&mut app, MouseEventKind::Drag(MouseButton::Left), 22, 8);
    mouse(&mut app, MouseEventKind::Up(MouseButton::Left), 22, 8);
    press(&mut app, KeyCode::Char('y'));
    let copy = app.pending_copy.as_ref().unwrap();
    assert_eq!(copy.content, "测试cd\nla");
    assert_eq!(copy.kind, CopyKind::Selection);
    assert_eq!(
        app.pending_copy_sequence().unwrap(),
        "\x1b]52;c;5rWL6K+VY2QKbGE=\x1b\\"
    );
    app.finish_copy(None);
    assert!(app.pending_copy.is_none());
    let feedback = app.copy_feedback.as_ref().unwrap();
    assert_eq!(feedback.message, "Copied 7 chars");
    assert!(!feedback.error);
}

#[test]
fn dragging_backwards_selects_the_same() {
    let mut app = with_jobs(&["1"]);
    write(&mut app, "abcdef");
    draw(&mut app);
    mouse(&mut app, MouseEventKind::Down(MouseButton::Left), 24, 6);
    mouse(&mut app, MouseEventKind::Drag(MouseButton::Left), 22, 6);
    hold(&mut app, KeyCode::Char('c'), control());
    assert_eq!(app.pending_copy.as_ref().unwrap().content, "bcd");
    mouse(&mut app, MouseEventKind::Up(MouseButton::Left), 0, 0);
    press(&mut app, KeyCode::Char('y'));
    assert_eq!(app.pending_copy.as_ref().unwrap().content, "abcd");
}

#[test]
fn a_click_selects_nothing() {
    let mut app = with_jobs(&["1"]);
    write(&mut app, "abcdef");
    draw(&mut app);
    mouse(&mut app, MouseEventKind::Down(MouseButton::Left), 22, 6);
    mouse(&mut app, MouseEventKind::Up(MouseButton::Left), 22, 6);
    press(&mut app, KeyCode::Char('y'));
    assert!(app.pending_copy.is_none());
    let feedback = app.copy_feedback.as_ref().unwrap();
    assert_eq!(feedback.message, "Nothing selected");
    assert!(feedback.error);
    assert!(matches!(
        mouse(&mut app, MouseEventKind::Drag(MouseButton::Left), 24, 6),
        InputOutcome::Idle
    ));
}

#[test]
fn cells_beside_the_output_count_as_the_nearest_ones() {
    let mut app = with_jobs(&["1"]);
    write(&mut app, "abc\ndefghijklmnop");
    press(&mut app, KeyCode::Char('w'));
    draw(&mut app);
    let cell = app.output_cell_at(0, 0).unwrap();
    assert_eq!((cell.start.line, cell.start.byte, cell.end.byte), (0, 0, 1));
    let cell = app.output_cell_at(21, 8).unwrap();
    assert_eq!((cell.start.line, cell.start.byte, cell.end.byte), (1, 10, 10));
    let cell = app.output_cell_at(23, 99).unwrap();
    assert_eq!((cell.start.line, cell.start.byte, cell.end.byte), (1, 10, 11));
    let cell = app.output_cell_at(99, 99).unwrap();
    assert_eq!((cell.start.line, cell.start.byte, cell.end.byte), (1, 13, 13));
}

#[test]
fn every_place_shows_what_the_nearest_place_in_the_output_shows() {
    for wrap in [false, true] {
        let mut app = with_jobs(&["1"]);
        write(&mut app, "abc\n\u{6d4b}e\u{301}x defghijklmnop\n\nlast");
        if wrap {
            press(&mut app, KeyCode::Char('w'));
        }
        draw(&mut app);
        let area = app.output_inner_area;
        assert!(area.width > 0 && area.height > 0);
        let columns = area.x..=area.x + area.width - 1;
        let rows = area.y..=area.y + area.height - 1;
        for column in (0..60).chain([u16::MAX]) {
            for row in (0..40).chain([u16::MAX]) {
                let near = app.output_cell_at(
                    column.clamp(*columns.start(), *columns.end()),
                    row.clamp(*rows.start(), *rows.end()),
                );
                assert_eq!(app.output_cell_at(column, row), near);
                if let Some(cell) = near {
                    assert_eq!(cell.start.line, cell.end.line);
                    assert!(cell.start.byte <= cell.end.byte);
                }
            }
        }
    }
}

#[test]
fn a_cell_is_a_whole_cluster_or_nothing() {
    let mut app = with_jobs(&["1"]);
    write(&mut app, "\u{6d4b}e\u{301}x");
    draw(&mut app);
    let area = app.output_inner_area;
    let bytes = |column: u16| {
        let cell = app.output_cell_at(area.x + column, area.y).unwrap();
        (cell.start.byte, cell.end.byte)
    };
    assert_eq!(bytes(0), (0, 3));
    assert_eq!(bytes(1), (0, 3));
    assert_eq!(bytes(2), (3, 6));
    assert_eq!(bytes(3), (6, 7));
    assert_eq!(bytes(4), (7, 7));
}

#[test]
fn there_is_no_cell_below_the_output_or_in_place_of_an_error() {
    let mut app = with_jobs(&["1"]);
    write(&mut app, "abc");
    draw(&mut app);
    let area = app.output_inner_area;
    assert!(area.height > 1);
    assert!(app.output_cell_at(area.x, area.y).is_some());
    assert!(app.output_cell_at(area.x, area.y + 1).is_none());
    assert!(app.output_cell_at(area.x, u16::MAX).is_none());
    app.job_output_error = Some(FileWatcherError::File("gone".to_string()));
    assert!(app.output_cell_at(area.x, area.y).is_none());
}

#[test]
fn copying_everything_takes_the_whole_output() {
    let mut app = with_jobs(&["1"]);
    press(&mut app, KeyCode::Char('Y'));
    assert_eq!(app.copy_feedback.as_ref().unwrap().message, "No output to copy");
    write(&mut app, "a\n测");
    press(&mut app, KeyCode::Char('Y'));
    assert_eq!(app.pending_copy.as_ref().unwrap().content, "a\n测");
    app.finish_copy(None);
    assert_eq!(app.copy_feedback.as_ref().unwrap().message, "Copied all (3 chars)");
    app.finish_copy(Some("ignored".to_string()));
    assert_eq!(app.copy_feedback.as_ref().unwrap().message, "Copied all (3 chars)");
    press(&mut app, KeyCode::Char('Y'));
    app.finish_copy(Some("closed".to_string()));
    let feedback = app.copy_feedback.as_ref().unwrap();
    assert_eq!(feedback.message, "Copy failed: closed");
    assert!(feedback.error);
    assert_eq!(app.pending_copy_sequence(), None);
}

#[test]
fn another_job_voids_the_selection() {
    let mut app = with_jobs(&["1", "2"]);
    write(&mut app, "abcdef");
    draw(&mut app);
    mouse(&mut app, MouseEventKind::Down(MouseButton::Left), 22, 6);
    mouse(&mut app, MouseEventKind::Drag(MouseButton::Left), 24, 6);
    assert!(app.output_selection.is_some());
    refresh(&mut app, &["1", "2"]);
    assert!(app.output_selection.is_some());
    app.focus = Pane::Jobs;
    press(&mut app, KeyCode::Down);
    assert!(app.output_selection.is_none());
    assert!(app.selection_anchor.is_none());
}

#[test]
fn clicking_selects_a_job() {
    let mut app = with_jobs(&["1", "2", "3"]);
    draw(&mut app);
    assert_eq!(app.job_index_at(1, 1), Some(0));
    assert_eq!(app.job_index_at(0, 1), None);
    assert_eq!(app.job_index_at(1, 4), None);
    app.focus = Pane::Output;
    assert!(matches!(
        mouse(&mut app, MouseEventKind::Down(MouseButton::Left), 3, 2),
        InputOutcome::Draw(None)
    ));
    assert_eq!(app.focus, Pane::Jobs);
    assert_eq!(selected(&app).as_deref(), Some("2"));
    assert!(matches!(
        mouse(&mut app, MouseEventKind::Down(MouseButton::Left), 3, 2),
        InputOutcome::Idle
    ));
    assert!(matches!(
        mouse(&mut app, MouseEventKind::Down(MouseButton::Left), 50, 2),
        InputOutcome::Idle
    ));
}

#[test]
fn an_open_dialog_keeps_the_mouse_out() {
    let mut app = with_jobs(&["1", "2"]);
    draw(&mut app);
    press(&mut app, KeyCode::Char('?'));
    for kind in [
        MouseEventKind::Down(MouseButton::Left),
        MouseEventKind::Drag(MouseButton::Left),
        MouseEventKind::ScrollDown,
    ] {
        assert!(matches!(mouse(&mut app, kind, 3, 2), InputOutcome::Idle));
    }
    assert_eq!(selected(&app).as_deref(), Some("1"));
    app.handle(AppMessage::MouseClick(1));
    app.handle(AppMessage::MouseFocus(Pane::Output));
    assert_eq!(selected(&app).as_deref(), Some("1"));
    assert_eq!(app.focus, Pane::Jobs);
    press(&mut app, KeyCode::Char('?'));
    assert!(app.dialog.is_none());
}

#[test]
fn an_open_dialog_keeps_the_keys() {
    let mut app = with_jobs(&["1", "2"]);
    press(&mut app, KeyCode::Char('?'));
    press(&mut app, KeyCode::Tab);
    press(&mut app, KeyCode::Down);
    press(&mut app, KeyCode::Char('f'));
    assert_eq!(app.focus, Pane::Jobs);
    assert_eq!(selected(&app).as_deref(), Some("1"));
    assert!(!app.show_finished_jobs);
    assert!(matches!(app.dialog, Some(Dialog::Help)));
    press(&mut app, KeyCode::Esc);
    press(&mut app, KeyCode::Down);
    assert_eq!(selected(&app).as_deref(), Some("2"));
}

#[test]
fn wheel_events_are_merged() {
    let mut app = with_jobs(&["1"]);
    draw(&mut app);
    let event = |kind: MouseEventKind, shift: bool, column: u16| {
        let modifiers = KeyModifiers { shift, ..KeyModifiers::default() };
        Event::Mouse(MouseEvent { kind, column, row: 6, modifiers })
    };
    let mut run = match app.handle_input_event(event(MouseEventKind::ScrollUp, false, 25)) {
        InputOutcome::Wheel(run) => run,
        _ => panic!("a wheel run was expected"),
    };
    assert_eq!(run.target, Pane::Output);
    assert!(app.merge_wheel(&mut run, event(MouseEventKind::ScrollUp, false, 30)));
    assert!(app.merge_wheel(&mut run, event(MouseEventKind::ScrollUp, false, 25)));
    assert!(!app.merge_wheel(&mut run, event(MouseEventKind::ScrollDown, false, 25)));
    assert!(!app.merge_wheel(&mut run, event(MouseEventKind::ScrollUp, true, 25)));
    assert!(!app.merge_wheel(&mut run, event(MouseEventKind::ScrollUp, false, 3)));
    assert!(!app.merge_wheel(&mut run, Event::Resize));
    app.finish_wheel(run);
    assert_eq!(app.job_output_offset, 3);
}

#[test]
fn the_shifted_wheel_scrolls_three_columns() {
    let mut app = with_jobs(&["1"]);
    write(&mut app, &"x".repeat(50));
    draw(&mut app);
    let modifiers = KeyModifiers { shift: true, ..KeyModifiers::default() };
    let event = Event::Mouse(MouseEvent {
        kind: MouseEventKind::ScrollDown,
        column: 25,
        row: 7,
        modifiers,
    });
    let mut run = match app.handle_input_event(event) {
        InputOutcome::Wheel(run) => run,
        _ => panic!("a wheel run was expected"),
    };
    let plain = Event::Mouse(MouseEvent {
        kind: MouseEventKind::ScrollRight,
        column: 25,
        row: 7,
        modifiers: KeyModifiers::default(),
    });
    assert!(!app.merge_wheel(&mut run, plain));
    assert!(app.merge_wheel(&mut run, event));
    app.finish_wheel(run);
    assert_eq!(app.output_viewport.horizontal_offset(), 6);
}

#[test]
fn scrolling_in_steps_is_scrolling_at_once() {
    let wheel = |app: &mut App, direction: MouseWheelDirection, amount: u16| {
        app.handle(AppMessage::MouseWheel { target: Pane::Jobs, direction, amount });
    };
    let mut steps = with_jobs(&["1", "2"]);
    let mut once = with_jobs(&["1", "2"]);
    wheel(&mut steps, MouseWheelDirection::Down, 2);
    wheel(&mut steps, MouseWheelDirection::Down, 3);
    wheel(&mut once, MouseWheelDirection::Down, 5);
    assert_eq!(steps.job_list_state, once.job_list_state);
    wheel(&mut once, MouseWheelDirection::Up, 60000);
    assert_eq!(once.job_list_state.selected, Some(0));
}
