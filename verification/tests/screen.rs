use ratatui::backend::TestBackend;
use ratatui::layout::{Constraint, Direction, Layout};
use ratatui::widgets::{Scrollbar, ScrollbarOrientation, ScrollbarState};
use ratatui::Terminal;
use turmy::app::{App, AppMessage};
use turmy::dialog::Dialog;
use turmy::dialog_box::{dialog_box, limit_columns, limit_cursor_at, limit_question};
use turmy::geometry::{rect_contains, Rect};
use turmy::job::Job;
use turmy::layout::{areas, dialog_area, horizontal_scrollbar, inside_border};
use turmy::panes::{help_line, pane_border_style, pane_title};
use turmy::styled::{Color, Line, Style};
use turmy::viewport::{Pane, PaneViewport};

fn rect(x: u16, y: u16, width: u16, height: u16) -> Rect {
    Rect { x, y, width, height }
}

fn screen() -> Rect {
    rect(0, 0, 100, 30)
}

fn test_job(id: &str, user: &str) -> Job {
    Job {
        job_id: id.to_string(),
        array_id: id.to_string(),
        array_step: None,
        name: format!("job-{id}"),
        state: "RUNNING".to_string(),
        state_compact: "R".to_string(),
        reason: None,
        user: user.to_string(),
        time: "00:01".to_string(),
        time_limit: "01:00:00".to_string(),
        start_time: "N/A".to_string(),
        tres: "cpu=1".to_string(),
        partition: "debug".to_string(),
        nodelist: "node01".to_string(),
        stdout: Some(format!("/logs/{id}.out")),
        stderr: None,
        command: "true".to_string(),
        finished: false,
    }
}

fn texts(lines: &[Line]) -> Vec<String> {
    lines.iter().map(Line::to_text).collect()
}

#[test]
fn horizontal_scrollbar_reaches_the_right_edge_at_maximum_offset() {
    let backend = TestBackend::new(12, 2);
    let mut terminal = Terminal::new(backend).unwrap();
    let mut viewport = PaneViewport::default();
    viewport.update(rect(0, 0, 12, 2), 30);
    viewport.scroll_right_by(usize::MAX);

    let bar = horizontal_scrollbar(viewport, Style::default()).unwrap();
    terminal
        .draw(|frame| {
            let scrollbar = Scrollbar::new(ScrollbarOrientation::HorizontalBottom)
                .thumb_symbol("═")
                .track_symbol(Some("─"))
                .begin_symbol(None)
                .end_symbol(None);
            let mut state = ScrollbarState::new(bar.content_length)
                .position(bar.position)
                .viewport_content_length(bar.viewport_length);
            let area = bar.area;
            frame.render_stateful_widget(
                scrollbar,
                ratatui::layout::Rect::new(area.x, area.y, area.width, area.height),
                &mut state,
            );
        })
        .unwrap();

    let buffer = terminal.backend().buffer();
    assert_eq!(buffer[(1, 1)].symbol(), "─");
    assert_eq!(buffer[(10, 1)].symbol(), "═");
}

#[test]
fn content_that_fits_has_no_scrollbar() {
    let mut viewport = PaneViewport::default();
    viewport.update(rect(0, 0, 12, 2), 10);
    assert!(horizontal_scrollbar(viewport, Style::default()).is_none());
    viewport.update(rect(0, 0, 2, 2), 10);
    assert!(horizontal_scrollbar(viewport, Style::default()).is_none());
}

#[test]
fn the_screen_is_split_into_its_parts() {
    let parts = areas(screen());
    assert_eq!(parts.help, rect(0, 29, 100, 1));
    assert_eq!(parts.jobs, rect(0, 0, 50, 29));
    assert_eq!(parts.details, rect(50, 0, 50, 8));
    assert_eq!(parts.log, rect(50, 8, 50, 21));
}

#[test]
fn the_job_list_takes_its_share_of_a_wide_screen() {
    let widths = |width| {
        let parts = areas(rect(0, 0, width, 30));
        (parts.jobs.width, parts.log.width)
    };
    assert_eq!(widths(0), (0, 0));
    assert_eq!(widths(30), (30, 0));
    assert_eq!(widths(50), (50, 0));
    assert_eq!(widths(51), (50, 1));
    assert_eq!(widths(166), (50, 116));
    assert_eq!(widths(170), (51, 119));
    assert_eq!(widths(175), (53, 122));
    assert_eq!(widths(200), (60, 140));
    assert_eq!(widths(u16::MAX), (19661, 45874));
}

#[test]
fn a_low_screen_keeps_the_log_and_the_job_list() {
    let heights = |height| {
        let parts = areas(rect(0, 0, 100, height));
        (parts.help.height, parts.jobs.height, parts.details.height, parts.log.height)
    };
    assert_eq!(heights(0), (0, 0, 0, 0));
    assert_eq!(heights(2), (0, 2, 0, 2));
    assert_eq!(heights(3), (0, 3, 0, 3));
    assert_eq!(heights(4), (1, 3, 0, 3));
    assert_eq!(heights(8), (1, 7, 4, 3));
    assert_eq!(heights(12), (1, 11, 8, 3));
    assert_eq!(heights(13), (1, 12, 8, 4));
    assert_eq!(heights(u16::MAX), (1, u16::MAX - 1, 8, u16::MAX - 9));
}

/// Compares the parts of a screen with what the sizes of its parts come to.
fn assert_parts(x: u16, y: u16, width: u16, height: u16) {
    let help = height.saturating_sub(3).min(1);
    let content = height - help;
    let left = ((u32::from(width) * 30 + 50) / 100).max(u32::from(width.min(50))) as u16;
    let details = content.saturating_sub(3).min(8);
    let parts = areas(rect(x, y, width, height));
    assert_eq!(parts.help, rect(x, y + content, width, help));
    assert_eq!(parts.jobs, rect(x, y, left, content));
    assert_eq!(parts.details, rect(x + left, y, width - left, details));
    assert_eq!(parts.log, rect(x + left, y + details, width - left, content - details));
}

#[test]
fn the_parts_fill_screens_of_every_width() {
    for width in 0..=700 {
        assert_parts(0, 0, width, 30);
        assert_parts(7, 3, width, 5);
    }
    for width in (700..=u16::MAX - 11).step_by(97) {
        assert_parts(11, 0, width, 40);
        assert_parts(u16::MAX - width, 2, width, 9);
    }
}

#[test]
fn the_parts_fill_screens_of_every_height() {
    for height in 0..=200 {
        assert_parts(0, 0, 80, height);
        assert_parts(2, 9, 215, height);
        assert_parts(2, u16::MAX - height, 30, height);
    }
    for height in (200..=u16::MAX - 5).step_by(131) {
        assert_parts(1, 5, 160, height);
    }
}

/// The size of the first part that the outside layout splits an area into, once
/// the parts are found to fill the area.
fn first_size(total: u16, first: Constraint, second: Constraint) -> u16 {
    let area = ratatui::layout::Rect::new(4, 9, total, 3);
    let across = Layout::new(Direction::Horizontal, [first, second]).split(area);
    assert_eq!((across[0].x, across[1].x), (4, 4 + across[0].width));
    assert_eq!(across[0].width + across[1].width, total);
    let area = ratatui::layout::Rect::new(4, 9, 3, total);
    let down = Layout::new(Direction::Vertical, [first, second]).split(area);
    assert_eq!((down[0].y, down[1].y), (9, 9 + down[0].height));
    assert_eq!(down[0].height + down[1].height, total);
    assert_eq!(across[0].width, down[0].height);
    across[0].width
}

#[test]
fn a_minimum_comes_before_a_length_and_before_a_share() {
    for total in [0u16, 1, 2, 7, 33, 100, 255, 1001, 32768, 40001, 65525] {
        for least in [0u16, 1, 3, 50, 99, 1000, 20000, 32767] {
            for length in [0u16, 1, 8, 60, 999, 32768, 50000, u16::MAX] {
                let fixed = total.saturating_sub(least).min(length);
                let (min, len) = (Constraint::Min(least), Constraint::Length(length));
                assert_eq!(first_size(total, min, len), total - fixed);
                assert_eq!(first_size(total, len, min), fixed);
            }
            for share in [0u32, 1, 15, 20, 33, 50, 70, 99, 100] {
                let rest = ((u32::from(total) * (100 - share) + 50) / 100) as u16;
                let (min, part) = (Constraint::Min(least), Constraint::Percentage(share as u16));
                assert_eq!(first_size(total, min, part), rest.max(least.min(total)));
            }
        }
    }
}

#[test]
fn a_cell_of_the_screen_lies_in_one_part() {
    for (width, height) in [(0, 0), (20, 2), (49, 4), (60, 12), (181, 17)] {
        let screen = rect(3, 2, width, height);
        let parts = areas(screen);
        for column in 0..200 {
            for row in 0..22 {
                let count = [parts.help, parts.jobs, parts.details, parts.log]
                    .iter()
                    .filter(|part| rect_contains(**part, column, row))
                    .count();
                assert_eq!(count, usize::from(rect_contains(screen, column, row)));
            }
        }
    }
}

#[test]
fn borders_take_one_cell_on_each_side() {
    assert_eq!(inside_border(rect(2, 3, 10, 5)), rect(3, 4, 8, 3));
    assert_eq!(inside_border(rect(2, 3, 1, 0)), rect(3, 3, 0, 0));
    assert_eq!(inside_border(rect(2, 3, 0, 1)), rect(2, 4, 0, 0));
}

#[test]
fn dialogs_are_centered() {
    assert_eq!(dialog_area(3, screen()), rect(10, 13, 80, 3));
    assert_eq!(dialog_area(40, rect(5, 5, 41, 10)), rect(5, 5, 41, 10));
    assert_eq!(dialog_area(4, rect(0, 0, 81, 9)), rect(0, 2, 80, 4));
}

#[test]
fn dialogs_are_cut_off_where_coordinates_end() {
    let far = rect(65500, 65530, 100, 4);
    assert_eq!(dialog_area(3, far), rect(65510, 65530, 25, 3));
    assert_eq!(dialog_area(9, rect(65535, 65535, 81, 1)), rect(65535, 65535, 0, 0));
    for (x, y, width, height) in [(65500, 65530, 100, 4), (65400, 65500, 200, 40), (7, 3, 90, 9)] {
        let area = dialog_area(5, rect(x, y, width, height));
        let drawn = ratatui::layout::Rect::new(
            x + (width - 80) / 2,
            y + (height - height.min(5)) / 2,
            80,
            height.min(5),
        );
        assert_eq!(area, rect(drawn.x, drawn.y, drawn.width, drawn.height));
    }
}

#[test]
fn everything_is_drawn_in_its_part_of_the_screen() {
    let mut app = App::new();
    app.handle(AppMessage::Jobs(vec![test_job("1", "a"), test_job("2", "a")]));
    let screen = rect(0, 0, 200, 40);
    let parts = areas(screen);
    let (help, jobs) = app.draw_first(screen);
    assert_eq!(help.area, parts.help);
    assert_eq!(help.line.to_text(), help_line().to_text());
    assert_eq!(jobs.area, parts.jobs);
    assert_eq!(jobs.lines.len(), 2);
    assert_eq!(app.job_list_height, parts.jobs.height - 2);

    let (details, log, dialog) = app.draw_rest(screen, Some(1), 0);
    assert_eq!(details.area, parts.details);
    assert_eq!(details.lines[1].to_text(), "Name    job-2");
    assert_eq!(log.panel.area, parts.log);
    assert!(!log.error);
    assert!(dialog.is_none());
    assert_eq!(app.output_inner_area, inside_border(parts.log));
    assert_eq!(app.job_list_state.selected, Some(1));

    for column in 0..202 {
        for row in 0..42 {
            let expected = if rect_contains(parts.jobs, column, row) {
                Some(Pane::Jobs)
            } else if rect_contains(parts.details, column, row) {
                Some(Pane::Details)
            } else if rect_contains(parts.log, column, row) {
                Some(Pane::Output)
            } else {
                None
            };
            assert_eq!(app.pane_at(column, row), expected);
        }
    }

    app.dialog = Some(Dialog::Help);
    app.draw_first(screen);
    let (_, _, dialog) = app.draw_rest(screen, Some(1), 0);
    assert_eq!(dialog.unwrap().area, dialog_area(20, screen));
}

#[test]
fn titles_tell_how_far_a_pane_is_scrolled() {
    let mut viewport = PaneViewport::default();
    viewport.update(rect(0, 0, 12, 5), 10);
    assert_eq!(pane_title("Details", viewport), "─Details");
    viewport.update(rect(0, 0, 12, 5), 30);
    viewport.scroll_right_by(7);
    assert_eq!(pane_title("Details", viewport), "─Details[X+7/20]");
}

#[test]
fn only_the_focused_pane_has_a_green_border() {
    assert_eq!(pane_border_style(Pane::Jobs, Pane::Jobs, false).fg, Some(Color::Green));
    assert_eq!(pane_border_style(Pane::Jobs, Pane::Jobs, true).fg, None);
    assert_eq!(pane_border_style(Pane::Jobs, Pane::Output, false).fg, None);
}

#[test]
fn the_help_line_names_the_first_keys() {
    let line = help_line();
    assert_eq!(line.to_text(), "?: help | f: finished | tab: pane | q: quit");
    assert_eq!(line.spans[0].style.fg, Some(Color::Blue));
    assert_eq!(line.spans[2].style.fg, Some(Color::LightBlue));
}

#[test]
fn jobs_are_listed_in_columns() {
    let mut app = App::new();
    let mut short = test_job("7", "al");
    short.time = "1".to_string();
    app.handle(AppMessage::Jobs(vec![test_job("123", "ulrike"), short]));
    let panel = app.draw_jobs(rect(0, 0, 60, 10));
    assert_eq!(
        texts(&panel.lines),
        ["R 123 debug ulrike 00:01 job-123", "R 7   debug al         1 job-7"]
    );
    assert_eq!(panel.title.to_text(), "─Jobs (2)");
    assert_eq!(panel.lines[0].spans[2].style.fg, Some(Color::Yellow));
    assert_eq!(panel.lines[0].spans[8].style.fg, Some(Color::Red));
    assert!(!panel.lines[0].style.dim);
    assert_eq!(app.job_list_height, 8);
    assert!(panel.scrollbar.is_none());
}

#[test]
fn the_job_list_counts_finished_jobs() {
    let mut app = App::new();
    app.handle(AppMessage::Jobs(vec![test_job("1", "a"), test_job("2", "a")]));
    app.handle(AppMessage::Jobs(vec![test_job("2", "a")]));
    let panel = app.draw_jobs(rect(0, 0, 12, 10));
    assert_eq!(panel.title.to_text(), "─Jobs (1, 1 finished hidden)[X+0/13]");
    assert!(panel.scrollbar.is_some());
    app.show_finished_jobs = true;
    app.handle(AppMessage::Jobs(vec![test_job("2", "a")]));
    let panel = app.draw_jobs(rect(0, 0, 60, 10));
    assert_eq!(panel.title.to_text(), "─Jobs (2, 1 finished)");
    assert!(panel.lines[1].style.dim);
}

#[test]
fn details_are_those_of_the_selected_job() {
    let mut app = App::new();
    assert!(app.draw_details(rect(0, 0, 60, 8)).lines.is_empty());
    let mut job = test_job("1", "a");
    job.state = "PENDING".to_string();
    job.start_time = "soon".to_string();
    job.reason = Some("Priority".to_string());
    app.handle(AppMessage::Jobs(vec![job]));
    let panel = app.draw_details(rect(0, 0, 60, 8));
    assert_eq!(
        texts(&panel.lines),
        [
            "State   PENDING Start soon Reason Priority",
            "Name    job-1",
            "Command true",
            "Nodes   node01",
            "TRES    cpu=1",
            "stdout  /logs/1.out",
        ]
    );
    assert_eq!(panel.title.to_text(), "─Details");
    app.output_file_view = turmy::output::OutputFileView::Stderr;
    let panel = app.draw_details(rect(0, 0, 60, 8));
    assert_eq!(panel.lines[5].to_text(), "stderr  ");
}

#[test]
fn the_log_title_tells_where_the_output_is() {
    let mut app = App::new();
    assert_eq!(app.draw_log(screen()).panel.title.to_text(), "─stdout");
    app.job_output_offset = 4;
    assert_eq!(app.draw_log(screen()).panel.title.to_text(), "─stdout[B-4]");
    app.job_output_anchor = turmy::output::ScrollAnchor::Top;
    assert_eq!(app.draw_log(screen()).panel.title.to_text(), "─stdout[T+4]");
    app.job_output_offset = 0;
    app.copy_full_output();
    let title = app.draw_log(screen()).panel.title;
    assert_eq!(title.to_text(), "─stdout[T][No output to copy]");
    assert_eq!(title.spans[3].style.fg, Some(Color::Red));
}

#[test]
fn the_help_dialog_lists_the_keys() {
    let shown = dialog_box(&Dialog::Help, screen());
    assert_eq!(shown.area, rect(10, 5, 80, 20));
    assert_eq!(shown.title, "─Help");
    assert_eq!(shown.lines.len(), 18);
    assert_eq!(shown.lines[17].to_text(), "Press ?, Enter, or Esc to close help.");
    assert_eq!(shown.wrap, Some(false));
    assert_eq!(shown.cursor, None);
}

#[test]
fn the_signal_dialog_marks_the_selected_signal() {
    let dialog = Dialog::SelectCancelSignal { id: "12".to_string(), selected_signal: 7 };
    let shown = dialog_box(&dialog, screen());
    assert_eq!(shown.area.height, 12);
    assert_eq!(shown.lines[0].to_text(), "Send signal to job 12:");
    assert_eq!(shown.lines[2].to_text(), "1. TERM");
    assert_eq!(shown.lines[9].to_text(), "8. KILL");
    assert_eq!(shown.lines[9].spans[1].style.bg, Some(Color::Green));
    assert_eq!(shown.lines[8].spans[1].style.bg, None);
    assert!(shown.lines[9].spans[0].style.dim);
}

#[test]
fn the_cancel_dialog_names_the_job() {
    let shown = dialog_box(&Dialog::ConfirmCancelJob("12".to_string()), screen());
    assert_eq!(shown.lines[0].to_text(), "Cancel job 12?");
    assert!(shown.lines[0].spans[1].style.bold);
    assert_eq!(shown.wrap, Some(true));
}

#[test]
fn the_time_limit_dialog_shows_its_cursor() {
    let dialog = Dialog::EditTimeLimit {
        id: "12".to_string(),
        input: tui_input::Input::new("1:00".to_string()),
    };
    let shown = dialog_box(&dialog, screen());
    assert_eq!(shown.lines[0].to_text(), "Set time limit for job 12: 1:00");
    assert_eq!(shown.cursor, Some((11 + 27 + 4, 14)));
    let shown = dialog_box(&dialog, rect(0, 0, 32, 9));
    assert_eq!(shown.lines[0].to_text(), "Set time limit for job 12: :00");
    assert_eq!(shown.cursor, Some((30, 4)));
    let shown = dialog_box(&dialog, rect(0, 0, 10, 9));
    assert_eq!(shown.cursor, Some((8, 4)));
}

#[test]
fn the_time_limit_scrolls_with_its_cursor() {
    let inner = rect(1, 1, 30, 1);
    assert_eq!(limit_columns("12", inner), 3);
    assert_eq!(limit_question("12", "1234567", 4, 3).to_text(), "Set time limit for job 12: 567");
    assert_eq!(limit_question("12", "12", 4, 3).to_text(), "Set time limit for job 12: ");
    assert_eq!(limit_cursor_at("12", 4, 6, inner), (30, 1));
    assert_eq!(limit_cursor_at("12", 4, 7, inner), (30, 1));
    assert_eq!(limit_cursor_at("12", 4, 5, inner), (29, 1));
    assert_eq!(limit_columns(&"x".repeat(40), inner), 1);
}

#[test]
fn the_error_dialog_is_as_high_as_its_message() {
    let dialog = Dialog::CommandError {
        command: "scancel 1".to_string(),
        output: "Exit code: 1\n\nNo output.".to_string(),
    };
    let shown = dialog_box(&dialog, screen());
    assert_eq!(shown.area.height, 7);
    assert_eq!(shown.color, Color::Red);
    assert_eq!(
        texts(&shown.lines),
        ["Command: scancel 1", "", "Exit code: 1", "", "No output."]
    );
}
