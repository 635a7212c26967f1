use turmy::geometry::Rect;
use turmy::output::wrap_byte_ranges;
use turmy::styled::{Color, Line, Span, Style};
use turmy::viewport::{clip_line, display_width, wrap_line, Pane, PaneViewport};

fn rect(x: u16, y: u16, width: u16, height: u16) -> Rect {
    Rect { x, y, width, height }
}

#[test]
fn pane_focus_cycles_in_both_directions() {
    assert_eq!(Pane::Jobs.next(), Pane::Details);
    assert_eq!(Pane::Details.next(), Pane::Output);
    assert_eq!(Pane::Output.next(), Pane::Jobs);
    assert_eq!(Pane::Jobs.previous(), Pane::Output);
    assert_eq!(Pane::Output.previous(), Pane::Details);
}

#[test]
fn viewport_clamps_offsets_to_content() {
    let mut viewport = PaneViewport::default();
    viewport.update(rect(0, 0, 12, 5), 30);

    assert_eq!(viewport.visible_width(), 10);
    assert!(viewport.scroll_right_by(100));
    assert_eq!(viewport.horizontal_offset(), 20);

    viewport.update(rect(0, 0, 22, 5), 15);
    assert_eq!(viewport.horizontal_offset(), 0);
    assert!(!viewport.scroll_left_by(1));
}

#[test]
fn clips_styled_lines_by_display_columns() {
    let yellow = Style::default().fg(Color::Yellow);
    let blue = Style::default().fg(Color::Blue);
    let line = Line::from_spans(vec![
        Span::styled("ab测试".to_string(), yellow),
        Span::styled("🚀cd".to_string(), blue),
    ]);

    let clipped = clip_line(&line, 2, 6);
    let content = clipped
        .spans
        .iter()
        .map(|span| span.content.as_str())
        .collect::<String>();

    assert_eq!(display_width(&content), 6);
    assert_eq!(content, "测试🚀");
    assert_eq!(clipped.spans[0].style, yellow);
    assert_eq!(clipped.spans[1].style, blue);
}

#[test]
fn replaces_a_partially_clipped_wide_grapheme_with_space() {
    let line = Line::raw("测A".to_string());
    let clipped = clip_line(&line, 1, 2);

    assert_eq!(clipped.to_text(), " A");
    assert_eq!(clipped.width(), 2);
}

#[test]
fn wraps_text_by_display_width() {
    assert_eq!(wrap_line("ab测试cd", 4, 3), ["ab测", "试c", "d"]);
    assert_eq!(wrap_line("", 4, 2), [""]);
    assert_eq!(wrap_line("123456789", 4, 2), ["1234", "56", "78", "9"]);
    assert_eq!(wrap_line("123456789", 4, 0), ["1234", "56789"]);
    assert_eq!(wrap_line("123456789", 0, 0), ["123456789"]);
}

#[test]
fn wrapping_keeps_every_character() {
    let text = "one 测试 🚀 e\u{301} two";
    assert_eq!(wrap_line(text, 5, 3).concat(), text);
    assert_eq!(wrap_line(text, 0, 2).concat(), text);
}

#[test]
fn wrapped_rows_fit_their_widths() {
    let rows = wrap_line("ab测试cd 🚀🚀 e\u{301}fghij", 5, 3);
    assert!(display_width(&rows[0]) <= 5);
    for row in &rows[1..] {
        assert!(display_width(row) <= 3);
    }
}

#[test]
fn rows_and_byte_ranges_agree() {
    let text = "ab测试cd 🚀 xyz";
    let rows = wrap_line(text, 5, 3);
    let ranges = wrap_byte_ranges(text, 5, 3);
    let slices: Vec<&str> = ranges.iter().map(|(start, end)| &text[*start..*end]).collect();
    assert_eq!(rows, slices);
    assert_eq!(wrap_byte_ranges("", 5, 3), [(0, 0)]);
    assert_eq!(wrap_byte_ranges("abc", 0, 0), [(0, 3)]);
}

#[test]
fn display_width_counts_columns() {
    assert_eq!(display_width(""), 0);
    assert_eq!(display_width("abc"), 3);
    assert_eq!(display_width("测试"), 4);
    assert_eq!(display_width("e\u{301}"), 1);
}

#[test]
fn a_wide_character_that_does_not_fit_ends_the_clipped_line() {
    let line = Line::raw("a测b".to_string());
    assert_eq!(clip_line(&line, 0, 2).to_text(), "a");
    assert_eq!(clip_line(&line, 0, 3).to_text(), "a测");
    assert_eq!(clip_line(&line, 0, 0).to_text(), "");
    assert_eq!(clip_line(&line, 9, 5).to_text(), "");
}

#[test]
fn content_that_fits_is_not_scrolled() {
    let mut viewport = PaneViewport::default();
    viewport.update(rect(0, 0, 12, 5), 10);
    assert_eq!(viewport.max_horizontal_offset(), 0);
    assert!(!viewport.scroll_right_by(usize::MAX));
    assert_eq!(viewport.horizontal_offset(), 0);
}

#[test]
fn resetting_a_viewport_says_whether_it_moved() {
    let mut viewport = PaneViewport::default();
    viewport.update(rect(0, 0, 12, 5), 30);
    assert!(!viewport.reset_horizontal());
    viewport.scroll_right_by(7);
    assert!(viewport.scroll_left_by(2));
    assert_eq!(viewport.horizontal_offset(), 5);
    assert!(viewport.reset_horizontal());
    assert_eq!(viewport.horizontal_offset(), 0);
}

#[test]
fn a_viewport_contains_its_area_only() {
    let mut viewport = PaneViewport::default();
    viewport.update(rect(2, 3, 4, 5), 0);
    assert!(viewport.contains(2, 3));
    assert!(viewport.contains(5, 7));
    assert!(!viewport.contains(6, 7));
    assert!(!viewport.contains(5, 8));
    assert!(!viewport.contains(1, 3));
    assert_eq!(viewport.area(), rect(2, 3, 4, 5));
}

#[test]
fn plain_text_is_wrapped_by_counting() {
    assert_eq!(wrap_line("abcdefgh", 3, 2), ["abc", "de", "fg", "h"]);
    assert_eq!(wrap_line("abcdefgh", 0, 5), ["abcde", "fgh"]);
    assert_eq!(wrap_line("abcdefgh", 3, 0), ["abc", "defgh"]);
    assert_eq!(wrap_line("abc", 0, 0), ["abc"]);
    assert_eq!(wrap_line("abc", 3, 1), ["abc"]);
    assert_eq!(wrap_line("", 3, 1), [""]);
    assert_eq!(wrap_byte_ranges("abcdefgh", 3, 2), [(0, 3), (3, 5), (5, 7), (7, 8)]);
}

#[test]
fn each_printable_ascii_character_is_a_cell_of_its_own() {
    let all: Vec<char> = (' '..='~').collect();
    for first in &all {
        let text: String = all.iter().flat_map(|second| [*first, *second]).collect();
        let rows = wrap_line(&text, 1, 1);
        let expected: Vec<String> = text.chars().map(String::from).collect();
        assert_eq!(rows, expected);
    }
}

#[test]
fn plain_text_is_clipped_by_counting() {
    let spans = ["ab", "", "cdef", "g"];
    let line = Line::from_spans(spans.iter().map(|s| Span::raw(s.to_string())).collect());
    let text = "abcdefg";
    for offset in 0..10 {
        for width in 0..10 {
            let expected = &text[offset.min(7)..(offset + width).min(7)];
            assert_eq!(clip_line(&line, offset, width).to_text(), expected);
        }
    }
    assert_eq!(clip_line(&line, 1, usize::MAX).to_text(), "bcdefg");
    assert_eq!(clip_line(&line, usize::MAX, usize::MAX).to_text(), "");
}
