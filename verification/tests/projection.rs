use modal_edit::buffer::Buffer;
use modal_edit::editor::Editor;
use modal_edit::text;

fn chars(s: &str) -> Vec<char> {
    s.chars().collect()
}

fn editor_with(lines: &[&str], size: (u16, u16)) -> Editor {
    let buffer = Buffer {
        file: None,
        lines: lines.iter().map(|l| chars(l)).collect(),
    };
    Editor::new(buffer, size)
}

#[test]
fn gutter_is_at_least_three_digits_wide() {
    let ed = editor_with(&["a"], (80, 24));
    assert_eq!(ed.line_number_width(), 5);
}

#[test]
fn gutter_grows_with_the_line_count() {
    let lines: Vec<String> = (0..10000).map(|i| i.to_string()).collect();
    let refs: Vec<&str> = lines.iter().map(|s| s.as_str()).collect();
    let ed = editor_with(&refs, (80, 24));
    // 9999 has four digits: 4 + 2.
    assert_eq!(ed.line_number_width(), 6);
}

#[test]
fn viewport_dimensions_follow_the_terminal() {
    let ed = editor_with(&["a"], (80, 24));
    assert_eq!(ed.vheight(), 22);
    assert_eq!(ed.vwidth(), 74);
}

#[test]
fn viewport_dimensions_saturate_on_tiny_terminals() {
    let ed = editor_with(&["a"], (3, 1));
    assert_eq!(ed.vheight(), 0);
    assert_eq!(ed.vwidth(), 0);
}

#[test]
fn buffer_line_tracks_the_cursor_row() {
    let mut ed = editor_with(&["a", "b"], (80, 24));
    ed.cur_pos = (0, 1);
    assert_eq!(ed.buffer_line(), 1);
}

#[test]
fn viewport_line_reads_the_buffer() {
    let ed = editor_with(&["abc", "def"], (80, 24));
    assert_eq!(ed.viewport_line(0), Some(chars("abc")));
    assert_eq!(ed.viewport_line(1), Some(chars("def")));
    assert_eq!(ed.viewport_line(2), None);
}

#[test]
fn line_length_is_zero_past_the_buffer() {
    let mut ed = editor_with(&["abc"], (80, 24));
    assert_eq!(ed.line_length(), 3);
    ed.cur_pos = (0, 9);
    assert_eq!(ed.line_length(), 0);
}

#[test]
fn gutter_text_numbers_visible_rows() {
    let ed = editor_with(&["abc", "def"], (80, 24));
    let g0: String = ed.gutter_text(0).into_iter().collect();
    assert_eq!(g0, "     1 ");
    let g1: String = ed.gutter_text(1).into_iter().collect();
    assert_eq!(g1, "     2 ");
}

#[test]
fn gutter_text_marks_rows_past_the_buffer() {
    let ed = editor_with(&["abc"], (80, 24));
    let g: String = ed.gutter_text(1).into_iter().collect();
    assert_eq!(g, "~      ");
}

#[test]
fn padded_viewport_line_fills_the_width() {
    let ed = editor_with(&["abc"], (12, 24));
    // Viewport width: 12 - 5 - 1 = 6.
    let l0: String = ed.padded_viewport_line(0).into_iter().collect();
    assert_eq!(l0, "abc   ");
    let l1: String = ed.padded_viewport_line(1).into_iter().collect();
    assert_eq!(l1, "      ");
}

#[test]
fn long_lines_are_not_truncated_by_padding() {
    let ed = editor_with(&["abcdefghij"], (12, 24));
    let l0: String = ed.padded_viewport_line(0).into_iter().collect();
    assert_eq!(l0, "abcdefghij");
}

#[test]
fn mode_text_names_the_mode() {
    let mut ed = editor_with(&["abc"], (80, 24));
    let normal: String = ed.mode_text().into_iter().collect();
    assert_eq!(normal, " NORMAL ");
    ed.handle_input(modal_edit::input::Event::Key(modal_edit::input::KeyPress {
        key: modal_edit::input::Key::Char('i'),
        ctrl: false,
    }));
    let insert: String = ed.mode_text().into_iter().collect();
    assert_eq!(insert, " INSERT ");
}

#[test]
fn position_text_is_one_based() {
    let mut ed = editor_with(&["abcdef"], (80, 24));
    ed.cur_pos = (3, 0);
    let p: String = ed.position_text().into_iter().collect();
    assert_eq!(p, " 4:1 ");
}

#[test]
fn command_line_text_shows_the_prompt_padded() {
    let mut ed = editor_with(&["abc"], (12, 24));
    ed.mode = modal_edit::input::Mode::Command;
    ed.scur_pos = Some((0, 0));
    ed.command_buffer = chars("wq");
    let c: String = ed.command_line_text().into_iter().collect();
    assert_eq!(c, ":wq   ");
}

#[test]
fn screen_cursor_sits_past_the_gutter() {
    let mut ed = editor_with(&["abc", "def"], (80, 24));
    ed.cur_pos = (2, 1);
    assert_eq!(ed.screen_cursor(), (9, 1));
}

#[test]
fn trim_strips_surrounding_whitespace() {
    assert_eq!(text::trim(&chars("  wq \t")), chars("wq"));
    assert_eq!(text::trim(&chars("")), chars(""));
    assert_eq!(text::trim(&chars("   ")), chars(""));
    assert_eq!(text::trim(&chars("a b")), chars("a b"));
}

#[test]
fn decimal_digits_render_numbers() {
    assert_eq!(text::decimal_digits(0), chars("0"));
    assert_eq!(text::decimal_digits(7), chars("7"));
    assert_eq!(text::decimal_digits(12034), chars("12034"));
}

#[test]
fn count_digits_matches_rendering() {
    assert_eq!(text::count_digits(0), 1);
    assert_eq!(text::count_digits(9), 1);
    assert_eq!(text::count_digits(10), 2);
    assert_eq!(text::count_digits(99999), 5);
}

#[test]
fn whitespace_covers_the_unicode_set() {
    assert!(text::is_whitespace_char(' '));
    assert!(text::is_whitespace_char('\t'));
    assert!(text::is_whitespace_char('\n'));
    assert!(text::is_whitespace_char('\u{a0}'));
    assert!(text::is_whitespace_char('\u{2003}'));
    assert!(!text::is_whitespace_char('a'));
    assert!(!text::is_whitespace_char('_'));
}

#[test]
fn find_ws_scans_forward() {
    assert_eq!(text::find_ws(&chars("ab cd"), 0), Some(2));
    assert_eq!(text::find_ws(&chars("ab cd"), 3), None);
    assert_eq!(text::find_ws(&chars(""), 0), None);
}

#[test]
fn rfind_ws_scans_backward() {
    assert_eq!(text::rfind_ws(&chars("ab cd"), 5), Some(2));
    assert_eq!(text::rfind_ws(&chars("ab cd"), 2), None);
    assert_eq!(text::rfind_ws(&chars("abc"), 0), None);
}

#[test]
fn make_blanks_builds_spaces() {
    assert_eq!(text::make_blanks(0), chars(""));
    assert_eq!(text::make_blanks(3), chars("   "));
}
