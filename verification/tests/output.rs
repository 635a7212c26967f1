use turmy::output::{
    grapheme_cell_at_display_column, output_lines, render_output_text, selected_output_text,
    text_lines, visible_output_lines, OutputPoint, OutputRenderOptions, OutputSelection,
    RenderedOutputLine, ScrollAnchor,
};
use turmy::styled::Color;

fn options(height: usize, width: usize) -> OutputRenderOptions {
    OutputRenderOptions {
        height,
        width,
        anchor: ScrollAnchor::Top,
        offset: 0,
        horizontal_offset: 0,
        wrap: false,
        selection: None,
    }
}

#[test]
fn test_fit_text_applies_horizontal_offset_without_wrapping() {
    let (lines, _) = render_output_text(
        "abcdef\n",
        OutputRenderOptions {
            height: 1,
            width: 3,
            anchor: ScrollAnchor::Top,
            offset: 0,
            horizontal_offset: 2,
            wrap: false,
            selection: None,
        },
    );

    assert_eq!(lines.len(), 1);
    assert_eq!(lines[0].to_text(), "cde");
}

#[test]
fn live_progress_is_rendered_before_its_final_newline() {
    let (lines, _) = render_output_text(
        "Starting workload\nTraining:  34%|██████████",
        OutputRenderOptions {
            height: 2,
            width: 80,
            anchor: ScrollAnchor::Bottom,
            offset: 0,
            horizontal_offset: 0,
            wrap: false,
            selection: None,
        },
    );

    assert_eq!(lines.len(), 2);
    assert_eq!(lines[1].to_text(), "Training:  34%|██████████");
}

#[test]
fn visible_lines_map_top_and_bottom_vertical_offsets() {
    let source = ["zero", "one", "two", "three"];

    let top = visible_output_lines(&source, 2, 20, ScrollAnchor::Top, 1, false);
    let bottom = visible_output_lines(&source, 2, 20, ScrollAnchor::Bottom, 1, false);

    assert_eq!(
        top.iter().map(|line| line.source_line).collect::<Vec<_>>(),
        [1, 2]
    );
    assert_eq!(
        bottom
            .iter()
            .map(|line| line.source_line)
            .collect::<Vec<_>>(),
        [1, 2]
    );
}

#[test]
fn wrapped_lines_retain_source_byte_ranges() {
    let source = ["abcdef"];
    let lines = visible_output_lines(&source, 4, 3, ScrollAnchor::Top, 0, true);

    assert_eq!(
        lines,
        [
            RenderedOutputLine {
                source_line: 0,
                start_byte: 0,
                end_byte: 3,
                continuation: false,
            },
            RenderedOutputLine {
                source_line: 0,
                start_byte: 3,
                end_byte: 4,
                continuation: true,
            },
            RenderedOutputLine {
                source_line: 0,
                start_byte: 4,
                end_byte: 5,
                continuation: true,
            },
            RenderedOutputLine {
                source_line: 0,
                start_byte: 5,
                end_byte: 6,
                continuation: true,
            },
        ]
    );
}

#[test]
fn horizontal_columns_map_to_whole_unicode_graphemes() {
    let source = "a测试b";

    assert_eq!(
        grapheme_cell_at_display_column(source, 0, source.len(), 2),
        (1, 4)
    );
    assert_eq!(
        grapheme_cell_at_display_column(source, 0, source.len(), 3),
        (4, 7)
    );
}

#[test]
fn selected_text_preserves_logical_newlines_and_unicode() {
    let output = "zero\nab测试cd\nlast\n";
    let selection = OutputSelection {
        start: OutputPoint { line: 1, byte: 2 },
        end: OutputPoint { line: 2, byte: 2 },
    };

    assert_eq!(
        selected_output_text(output, selection).as_deref(),
        Some("测试cd\nla")
    );
}

#[test]
fn selection_highlight_survives_horizontal_clipping() {
    let selection = OutputSelection {
        start: OutputPoint { line: 0, byte: 2 },
        end: OutputPoint { line: 0, byte: 4 },
    };
    let (lines, _) = render_output_text(
        "abcdef\n",
        OutputRenderOptions {
            height: 1,
            width: 3,
            anchor: ScrollAnchor::Top,
            offset: 0,
            horizontal_offset: 2,
            wrap: false,
            selection: Some(selection),
        },
    );

    assert_eq!(lines[0].to_text(), "cde");
    assert_eq!(lines[0].spans[0].style.bg, Some(Color::LightBlue));
    assert_eq!(lines[0].spans[1].style.bg, Some(Color::LightBlue));
    assert_eq!(lines[0].spans[2].style.bg, None);
}

#[test]
fn source_lines_are_cut_at_carriage_returns() {
    assert_eq!(output_lines(""), Vec::<&str>::new());
    assert_eq!(output_lines("a\r\nb\rc\nd"), ["a", "b", "c", "d"]);
    assert_eq!(output_lines("a\n\nb\n"), ["a", "", "b"]);
    assert_eq!(text_lines("a\r\nb\rc\nd\r"), ["a", "b\rc", "d\r"]);
}

#[test]
fn selecting_everything_gives_the_whole_output() {
    let output = "one\ntwo测\nthree";
    let selection = OutputSelection {
        start: OutputPoint { line: 0, byte: 0 },
        end: OutputPoint { line: 2, byte: 5 },
    };
    assert_eq!(selected_output_text(output, selection).as_deref(), Some(output));
}

#[test]
fn selections_that_do_not_fit_select_nothing() {
    let point = |line: usize, byte: usize| OutputPoint { line, byte };
    let selected = |start: OutputPoint, end: OutputPoint| {
        selected_output_text("a测\nb", OutputSelection { start, end })
    };
    assert_eq!(selected(point(0, 1), point(0, 1)), None);
    assert_eq!(selected(point(1, 0), point(0, 1)), None);
    assert_eq!(selected(point(0, 2), point(1, 1)), None);
    assert_eq!(selected(point(0, 0), point(1, 2)), None);
    assert_eq!(selected(point(0, 0), point(2, 0)), None);
    assert_eq!(selected(point(0, 1), point(1, 1)).as_deref(), Some("测\nb"));
}

#[test]
fn a_column_behind_the_text_maps_to_its_end() {
    assert_eq!(grapheme_cell_at_display_column("abc", 0, 3, 9), (3, 3));
    assert_eq!(grapheme_cell_at_display_column("abc", 1, 2, 0), (1, 2));
    assert_eq!(grapheme_cell_at_display_column("", 0, 0, 0), (0, 0));
}

#[test]
fn a_pane_without_height_still_has_one_row() {
    let source = ["a", "b"];
    let rows = visible_output_lines(&source, 0, 5, ScrollAnchor::Bottom, 0, false);
    assert_eq!(rows.len(), 1);
    assert_eq!(rows[0].source_line, 1);
}

#[test]
fn wrapped_output_marks_continuation_rows() {
    let (lines, rows) = render_output_text(
        "abcdef",
        OutputRenderOptions { wrap: true, ..options(3, 4) },
    );
    assert_eq!(lines[0].to_text(), "abcd");
    assert_eq!(lines[1].to_text(), "↪ ef");
    assert!(lines[1].spans[0].style.dim);
    assert!(rows[1].continuation);
}

#[test]
fn wrapped_output_at_the_bottom_shows_its_last_rows() {
    let (lines, _) = render_output_text(
        "x\nabcdef",
        OutputRenderOptions { wrap: true, anchor: ScrollAnchor::Bottom, ..options(2, 4) },
    );
    assert_eq!(lines[0].to_text(), "abcd");
    assert_eq!(lines[1].to_text(), "↪ ef");
}

#[test]
fn a_column_of_plain_text_is_one_character() {
    assert_eq!(grapheme_cell_at_display_column("abcdef", 1, 4, 0), (1, 2));
    assert_eq!(grapheme_cell_at_display_column("abcdef", 1, 4, 2), (3, 4));
    assert_eq!(grapheme_cell_at_display_column("abcdef", 1, 4, 3), (4, 4));
    assert_eq!(grapheme_cell_at_display_column("abcdef", 1, 4, usize::MAX), (4, 4));
}
