use modal_edit::buffer::Buffer;
use modal_edit::editor::Editor;
use modal_edit::input::{Action, Event, Key, KeyPress, Mode, Outcome};

fn chars(s: &str) -> Vec<char> {
    s.chars().collect()
}

fn editor_with(lines: &[&str]) -> Editor {
    let buffer = Buffer {
        file: None,
        lines: lines.iter().map(|l| chars(l)).collect(),
    };
    Editor::new(buffer, (80, 24))
}

fn key(k: Key) -> Event {
    Event::Key(KeyPress { key: k, ctrl: false })
}

fn ch(c: char) -> Event {
    key(Key::Char(c))
}

fn ctrl(c: char) -> Event {
    Event::Key(KeyPress { key: Key::Char(c), ctrl: true })
}

#[test]
fn new_session_starts_in_normal_mode_at_origin() {
    let ed = editor_with(&["abc"]);
    assert_eq!(ed.mode, Mode::Normal);
    assert_eq!(ed.cur_pos, (0, 0));
    assert_eq!(ed.scur_pos, None);
    assert_eq!(ed.waiting_cmd, None);
    assert!(ed.command_buffer.is_empty());
}

#[test]
fn enter_splits_line_at_cursor_end() {
    // Buffer ["abc", "def"], cursor at (3,0), Enter in insert mode.
    let mut ed = editor_with(&["abc", "def"]);
    ed.handle_input(ch('i'));
    ed.cur_pos = (3, 0);
    let o = ed.handle_input(key(Key::Enter));
    assert_eq!(o, Outcome::Continue);
    assert_eq!(ed.buffer.lines, vec![chars("abc"), chars(""), chars("def")]);
    assert_eq!(ed.cur_pos, (0, 1));
}

#[test]
fn backspace_at_column_zero_joins_lines() {
    // Buffer ["abc", "def"], cursor at (0,1), Backspace in insert mode.
    let mut ed = editor_with(&["abc", "def"]);
    ed.handle_input(ch('i'));
    ed.cur_pos = (0, 1);
    let o = ed.handle_input(key(Key::Backspace));
    assert_eq!(o, Outcome::Continue);
    assert_eq!(ed.buffer.lines, vec![chars("abcdef")]);
    assert_eq!(ed.cur_pos, (3, 0));
}

#[test]
fn leader_d_then_d_removes_current_line() {
    let mut ed = editor_with(&["one", "two", "three"]);
    ed.cur_pos = (0, 1);
    let o1 = ed.handle_input(ch('d'));
    assert_eq!(o1, Outcome::Continue);
    assert_eq!(ed.waiting_cmd, Some('d'));
    let o2 = ed.handle_input(ch('d'));
    assert_eq!(o2, Outcome::Continue);
    assert_eq!(ed.buffer.lines, vec![chars("one"), chars("three")]);
    assert_eq!(ed.cur_pos.1, 0);
    assert_eq!(ed.waiting_cmd, None);
}

#[test]
fn command_wq_saves_and_quits() {
    let mut ed = editor_with(&["hello"]);
    ed.buffer.file = Some("f.txt".to_string());
    ed.handle_input(ch(':'));
    assert_eq!(ed.mode, Mode::Command);
    ed.handle_input(ch('w'));
    ed.handle_input(ch('q'));
    let o = ed.handle_input(key(Key::Enter));
    assert_eq!(o, Outcome::SaveAndQuit);
    // The save the signal asks for succeeds and writes the buffer's text.
    assert_eq!(ed.buffer.save(), Ok(chars("hello")));
}

#[test]
fn command_q_quits() {
    let mut ed = editor_with(&["hello"]);
    ed.handle_input(ch(':'));
    ed.handle_input(ch('q'));
    let o = ed.handle_input(key(Key::Enter));
    assert_eq!(o, Outcome::Quit);
}

#[test]
fn command_text_is_trimmed_before_resolving() {
    let mut ed = editor_with(&["hello"]);
    ed.handle_input(ch(':'));
    ed.handle_input(ch(' '));
    ed.handle_input(ch('q'));
    ed.handle_input(ch(' '));
    let o = ed.handle_input(key(Key::Enter));
    assert_eq!(o, Outcome::Quit);
}

#[test]
fn unknown_command_returns_to_normal_mode() {
    let mut ed = editor_with(&["hello"]);
    ed.cur_pos = (2, 0);
    ed.handle_input(ch(':'));
    ed.handle_input(ch('z'));
    let o = ed.handle_input(key(Key::Enter));
    assert_eq!(o, Outcome::Continue);
    assert_eq!(ed.mode, Mode::Normal);
    assert_eq!(ed.cur_pos, (2, 0));
    assert!(ed.command_buffer.is_empty());
    assert_eq!(ed.buffer.lines, vec![chars("hello")]);
}

#[test]
fn discarded_leader_produces_no_action() {
    // Leader `d` followed by an unrelated key: nothing happens, the pending
    // leader clears.
    let mut ed = editor_with(&["one", "two"]);
    ed.handle_input(ch('d'));
    assert_eq!(ed.waiting_cmd, Some('d'));
    let o = ed.handle_input(ch('x'));
    assert_eq!(o, Outcome::Continue);
    assert_eq!(ed.waiting_cmd, None);
    assert_eq!(ed.buffer.lines, vec![chars("one"), chars("two")]);
    assert_eq!(ed.cur_pos, (0, 0));
    assert_eq!(ed.mode, Mode::Normal);
}

#[test]
fn leader_g_then_g_moves_to_top() {
    let mut ed = editor_with(&["one", "two", "three"]);
    ed.cur_pos = (2, 2);
    ed.handle_input(ch('g'));
    ed.handle_input(ch('g'));
    assert_eq!(ed.cur_pos, (0, 0));
}

#[test]
fn moving_left_at_column_zero_stays() {
    let mut ed = editor_with(&["abc"]);
    ed.handle_input(ch('h'));
    assert_eq!(ed.cur_pos, (0, 0));
    ed.handle_input(key(Key::Left));
    assert_eq!(ed.cur_pos, (0, 0));
}

#[test]
fn moving_up_at_row_zero_stays() {
    let mut ed = editor_with(&["abc", "def"]);
    ed.handle_input(ch('k'));
    assert_eq!(ed.cur_pos, (0, 0));
    ed.handle_input(key(Key::Up));
    assert_eq!(ed.cur_pos, (0, 0));
}

#[test]
fn moving_right_at_end_of_line_stays() {
    let mut ed = editor_with(&["ab"]);
    ed.cur_pos = (2, 0);
    ed.handle_input(ch('l'));
    assert_eq!(ed.cur_pos, (2, 0));
}

#[test]
fn backspace_at_buffer_start_is_noop() {
    let mut ed = editor_with(&["abc"]);
    ed.handle_input(ch('i'));
    let o = ed.handle_input(key(Key::Backspace));
    assert_eq!(o, Outcome::Continue);
    assert_eq!(ed.buffer.lines, vec![chars("abc")]);
    assert_eq!(ed.cur_pos, (0, 0));
}

#[test]
fn movement_keys_move_the_cursor() {
    let mut ed = editor_with(&["abcd", "efgh"]);
    ed.handle_input(ch('l'));
    assert_eq!(ed.cur_pos, (1, 0));
    ed.handle_input(ch('j'));
    assert_eq!(ed.cur_pos, (1, 1));
    ed.handle_input(ch('h'));
    assert_eq!(ed.cur_pos, (0, 1));
    ed.handle_input(ch('k'));
    assert_eq!(ed.cur_pos, (0, 0));
}

#[test]
fn moving_down_clamps_column_to_shorter_line() {
    let mut ed = editor_with(&["abcdef", "ab"]);
    ed.cur_pos = (5, 0);
    ed.handle_input(ch('j'));
    assert_eq!(ed.cur_pos, (2, 1));
}

#[test]
fn moving_down_on_last_line_stays() {
    let mut ed = editor_with(&["abc"]);
    ed.handle_input(ch('j'));
    assert_eq!(ed.cur_pos, (0, 0));
}

#[test]
fn capital_g_moves_to_last_line() {
    let mut ed = editor_with(&["a", "b", "c"]);
    ed.handle_input(ch('G'));
    assert_eq!(ed.cur_pos, (0, 2));
}

#[test]
fn dollar_moves_to_last_character() {
    let mut ed = editor_with(&["abcd"]);
    ed.handle_input(ch('$'));
    assert_eq!(ed.cur_pos, (3, 0));
}

#[test]
fn dollar_on_empty_line_stays_at_zero() {
    let mut ed = editor_with(&[""]);
    ed.handle_input(ch('$'));
    assert_eq!(ed.cur_pos, (0, 0));
}

#[test]
fn word_forward_jumps_past_next_whitespace() {
    let mut ed = editor_with(&["ab cd ef"]);
    ed.handle_input(ch('w'));
    assert_eq!(ed.cur_pos, (3, 0));
    ed.handle_input(ch('w'));
    assert_eq!(ed.cur_pos, (6, 0));
    ed.handle_input(ch('w'));
    assert_eq!(ed.cur_pos, (8, 0));
}

#[test]
fn word_backward_jumps_to_previous_whitespace() {
    let mut ed = editor_with(&["ab cd ef"]);
    ed.cur_pos = (7, 0);
    ed.handle_input(ch('b'));
    assert_eq!(ed.cur_pos, (5, 0));
    ed.handle_input(ch('b'));
    assert_eq!(ed.cur_pos, (2, 0));
}

#[test]
fn word_backward_without_whitespace_jumps_to_line_end() {
    let mut ed = editor_with(&["abcd"]);
    ed.cur_pos = (2, 0);
    ed.handle_input(ch('b'));
    assert_eq!(ed.cur_pos, (4, 0));
}

#[test]
fn x_deletes_character_under_cursor() {
    let mut ed = editor_with(&["abc"]);
    ed.cur_pos = (1, 0);
    ed.handle_input(ch('x'));
    assert_eq!(ed.buffer.lines, vec![chars("ac")]);
    assert_eq!(ed.cur_pos, (1, 0));
}

#[test]
fn x_past_end_of_line_is_noop() {
    let mut ed = editor_with(&["abc"]);
    ed.cur_pos = (3, 0);
    ed.handle_input(ch('x'));
    assert_eq!(ed.buffer.lines, vec![chars("abc")]);
}

#[test]
fn i_enters_insert_mode_in_place() {
    let mut ed = editor_with(&["abc"]);
    ed.cur_pos = (1, 0);
    ed.handle_input(ch('i'));
    assert_eq!(ed.mode, Mode::Insert);
    assert_eq!(ed.cur_pos, (1, 0));
}

#[test]
fn a_enters_insert_mode_one_column_right() {
    let mut ed = editor_with(&["abc"]);
    ed.cur_pos = (1, 0);
    ed.handle_input(ch('a'));
    assert_eq!(ed.mode, Mode::Insert);
    assert_eq!(ed.cur_pos, (2, 0));
}

#[test]
fn escape_from_insert_retreats_one_column() {
    let mut ed = editor_with(&["abc"]);
    ed.cur_pos = (1, 0);
    ed.handle_input(ch('i'));
    ed.handle_input(key(Key::Esc));
    assert_eq!(ed.mode, Mode::Normal);
    assert_eq!(ed.cur_pos, (0, 0));
}

#[test]
fn ctrl_c_leaves_insert_mode() {
    let mut ed = editor_with(&["abc"]);
    ed.handle_input(ch('i'));
    ed.handle_input(ctrl('c'));
    assert_eq!(ed.mode, Mode::Normal);
}

#[test]
fn visual_mode_enter_and_leave_changes_nothing() {
    let mut ed = editor_with(&["abc"]);
    ed.cur_pos = (2, 0);
    ed.handle_input(ch('v'));
    assert_eq!(ed.mode, Mode::Visual);
    ed.handle_input(key(Key::Esc));
    assert_eq!(ed.mode, Mode::Normal);
    assert_eq!(ed.cur_pos, (2, 0));
}

#[test]
fn visual_mode_movement_works() {
    let mut ed = editor_with(&["abcd", "efgh"]);
    ed.handle_input(ch('v'));
    ed.handle_input(ch('l'));
    ed.handle_input(ch('j'));
    assert_eq!(ed.cur_pos, (1, 1));
}

#[test]
fn typing_in_insert_mode_inserts_and_advances() {
    let mut ed = editor_with(&["ad"]);
    ed.cur_pos = (1, 0);
    ed.handle_input(ch('i'));
    ed.handle_input(ch('b'));
    ed.handle_input(ch('c'));
    assert_eq!(ed.buffer.lines, vec![chars("abcd")]);
    assert_eq!(ed.cur_pos, (3, 0));
}

#[test]
fn backspace_in_middle_of_line_deletes_before_cursor() {
    let mut ed = editor_with(&["abcd"]);
    ed.cur_pos = (2, 0);
    ed.handle_input(ch('i'));
    ed.handle_input(key(Key::Backspace));
    assert_eq!(ed.buffer.lines, vec![chars("acd")]);
    assert_eq!(ed.cur_pos, (1, 0));
}

#[test]
fn o_opens_line_below_in_insert_mode() {
    let mut ed = editor_with(&["abc", "def"]);
    ed.cur_pos = (2, 0);
    ed.handle_input(ch('o'));
    assert_eq!(ed.mode, Mode::Insert);
    assert_eq!(ed.buffer.lines, vec![chars("abc"), chars(""), chars("def")]);
    assert_eq!(ed.cur_pos, (0, 1));
}

#[test]
fn capital_o_opens_line_above_in_insert_mode() {
    let mut ed = editor_with(&["abc", "def"]);
    ed.cur_pos = (2, 1);
    ed.handle_input(ch('O'));
    assert_eq!(ed.mode, Mode::Insert);
    assert_eq!(ed.buffer.lines, vec![chars("abc"), chars(""), chars("def")]);
    assert_eq!(ed.cur_pos, (0, 1));
}

#[test]
fn q_in_normal_mode_quits() {
    let mut ed = editor_with(&["abc"]);
    let o = ed.handle_input(ch('q'));
    assert_eq!(o, Outcome::Quit);
}

#[test]
fn dd_on_single_line_leaves_one_empty_line() {
    let mut ed = editor_with(&["only"]);
    ed.handle_input(ch('d'));
    ed.handle_input(ch('d'));
    assert_eq!(ed.buffer.lines, vec![chars("")]);
    assert_eq!(ed.cur_pos, (0, 0));
}

#[test]
fn resize_event_updates_size_and_produces_nothing() {
    let mut ed = editor_with(&["abc"]);
    let o = ed.handle_input(Event::Resize(100, 40));
    assert_eq!(o, Outcome::Continue);
    assert_eq!(ed.size, (100, 40));
    assert_eq!(ed.buffer.lines, vec![chars("abc")]);
}

#[test]
fn resize_discards_a_pending_leader() {
    let mut ed = editor_with(&["abc", "def"]);
    ed.handle_input(ch('d'));
    ed.handle_input(Event::Resize(100, 40));
    assert_eq!(ed.waiting_cmd, None);
    // The following `d` starts a fresh leader instead of completing one.
    ed.handle_input(ch('d'));
    assert_eq!(ed.waiting_cmd, Some('d'));
    assert_eq!(ed.buffer.lines, vec![chars("abc"), chars("def")]);
}

#[test]
fn command_mode_accumulates_and_edits_text() {
    let mut ed = editor_with(&["abc"]);
    ed.handle_input(ch(':'));
    ed.handle_input(ch('w'));
    ed.handle_input(ch('x'));
    assert_eq!(ed.command_buffer, chars("wx"));
    ed.handle_input(key(Key::Backspace));
    assert_eq!(ed.command_buffer, chars("w"));
    ed.handle_input(key(Key::Esc));
    assert_eq!(ed.mode, Mode::Normal);
    assert!(ed.command_buffer.is_empty());
}

#[test]
fn backspace_on_empty_command_line_returns_to_normal() {
    let mut ed = editor_with(&["abc"]);
    ed.cur_pos = (1, 0);
    ed.handle_input(ch(':'));
    let o = ed.handle_input(key(Key::Backspace));
    assert_eq!(o, Outcome::Continue);
    assert_eq!(ed.mode, Mode::Normal);
    assert_eq!(ed.cur_pos, (1, 0));
}

#[test]
fn entering_command_mode_saves_and_restores_the_cursor() {
    let mut ed = editor_with(&["abc", "def"]);
    ed.cur_pos = (2, 1);
    ed.handle_input(ch(':'));
    assert_eq!(ed.scur_pos, Some((2, 1)));
    assert_eq!(ed.cur_pos, (0, 23));
    ed.handle_input(key(Key::Esc));
    assert_eq!(ed.cur_pos, (2, 1));
    assert_eq!(ed.scur_pos, None);
}

#[test]
fn process_command_resolves_the_table() {
    let ed = editor_with(&["abc"]);
    assert_eq!(ed.process_command(&chars("q")), Some(Action::Quit));
    assert_eq!(ed.process_command(&chars("wq")), Some(Action::SaveAndQuit));
    assert_eq!(
        ed.process_command(&chars("nope")),
        Some(Action::EnterMode(Mode::Normal))
    );
}

#[test]
fn unmapped_keys_are_ignored() {
    let mut ed = editor_with(&["abc"]);
    let o = ed.handle_input(ch('Z'));
    assert_eq!(o, Outcome::Continue);
    assert_eq!(ed.mode, Mode::Normal);
    assert_eq!(ed.buffer.lines, vec![chars("abc")]);
    let o2 = ed.handle_input(Event::Other);
    assert_eq!(o2, Outcome::Continue);
}
