use modal_edit::buffer::{Buffer, SaveError};

fn chars(s: &str) -> Vec<char> {
    s.chars().collect()
}

fn buf(lines: &[&str]) -> Buffer {
    Buffer {
        file: None,
        lines: lines.iter().map(|l| chars(l)).collect(),
    }
}

#[test]
fn get_returns_lines_in_range() {
    let b = buf(&["abc", "def"]);
    assert_eq!(b.get(0), Some(chars("abc")));
    assert_eq!(b.get(1), Some(chars("def")));
    assert_eq!(b.get(2), None);
}

#[test]
fn len_counts_lines() {
    assert_eq!(buf(&["a"]).len(), 1);
    assert_eq!(buf(&["a", "b", "c"]).len(), 3);
}

#[test]
fn insert_within_line() {
    let mut b = buf(&["ac"]);
    b.insert(1, 0, 'b');
    assert_eq!(b.lines, vec![chars("abc")]);
}

#[test]
fn insert_past_end_appends() {
    let mut b = buf(&["ab"]);
    b.insert(99, 0, 'c');
    assert_eq!(b.lines, vec![chars("abc")]);
}

#[test]
fn insert_out_of_range_row_is_noop() {
    let mut b = buf(&["ab"]);
    b.insert(0, 5, 'x');
    assert_eq!(b.lines, vec![chars("ab")]);
}

#[test]
fn delete_removes_character() {
    let mut b = buf(&["abc"]);
    b.delete(1, 0);
    assert_eq!(b.lines, vec![chars("ac")]);
}

#[test]
fn delete_out_of_range_is_noop() {
    let mut b = buf(&["abc"]);
    b.delete(3, 0);
    b.delete(0, 1);
    assert_eq!(b.lines, vec![chars("abc")]);
}

#[test]
fn remove_line_middle() {
    let mut b = buf(&["a", "b", "c"]);
    b.remove_line(1);
    assert_eq!(b.lines, vec![chars("a"), chars("c")]);
}

#[test]
fn remove_line_out_of_range_is_noop() {
    let mut b = buf(&["a", "b"]);
    b.remove_line(2);
    assert_eq!(b.lines, vec![chars("a"), chars("b")]);
}

#[test]
fn remove_only_line_leaves_one_empty_line() {
    let mut b = buf(&["text"]);
    b.remove_line(0);
    assert_eq!(b.lines, vec![chars("")]);
    assert_eq!(b.len(), 1);
}

#[test]
fn repeated_remove_line_never_empties_buffer() {
    let mut b = buf(&["a", "b", "c"]);
    for _ in 0..10 {
        b.remove_line(0);
        assert!(b.len() >= 1);
    }
    assert_eq!(b.lines, vec![chars("")]);
}

#[test]
fn split_line_in_middle() {
    let mut b = buf(&["abcdef"]);
    b.split_line(0, 3);
    assert_eq!(b.lines, vec![chars("abc"), chars("def")]);
}

#[test]
fn split_line_at_end_opens_blank_line() {
    let mut b = buf(&["abc"]);
    b.split_line(0, 7);
    assert_eq!(b.lines, vec![chars("abc"), chars("")]);
}

#[test]
fn join_with_next_merges_lines() {
    let mut b = buf(&["abc", "def", "g"]);
    b.join_with_next(0);
    assert_eq!(b.lines, vec![chars("abcdef"), chars("g")]);
}

#[test]
fn join_with_next_on_last_line_is_noop() {
    let mut b = buf(&["abc", "def"]);
    b.join_with_next(1);
    assert_eq!(b.lines, vec![chars("abc"), chars("def")]);
}

#[test]
fn from_text_without_contents_is_one_empty_line() {
    let b = Buffer::from_text(None, None);
    assert_eq!(b.lines, vec![chars("")]);
    assert_eq!(b.file, None);
}

#[test]
fn from_text_splits_on_newlines() {
    let b = Buffer::from_text(Some("f.txt".to_string()), Some(chars("alpha\nbeta\ngamma")));
    assert_eq!(b.lines, vec![chars("alpha"), chars("beta"), chars("gamma")]);
    assert_eq!(b.file, Some("f.txt".to_string()));
}

#[test]
fn from_text_final_newline_does_not_open_a_line() {
    let b = Buffer::from_text(None, Some(chars("one\ntwo\n")));
    assert_eq!(b.lines, vec![chars("one"), chars("two")]);
}

#[test]
fn from_text_empty_text_is_one_empty_line() {
    let b = Buffer::from_text(None, Some(chars("")));
    assert_eq!(b.lines, vec![chars("")]);
}

#[test]
fn from_text_keeps_blank_lines_in_the_middle() {
    let b = Buffer::from_text(None, Some(chars("a\n\nb")));
    assert_eq!(b.lines, vec![chars("a"), chars(""), chars("b")]);
}

#[test]
fn save_without_path_fails() {
    let b = buf(&["abc"]);
    assert_eq!(b.save(), Err(SaveError::NoPath));
}

#[test]
fn save_joins_lines_with_newlines() {
    let mut b = buf(&["abc", "def"]);
    b.file = Some("f.txt".to_string());
    assert_eq!(b.save(), Ok(chars("abc\ndef")));
}

#[test]
fn load_then_save_reproduces_content() {
    let text = "alpha\nbeta\ngamma";
    let b = Buffer::from_text(Some("f.txt".to_string()), Some(chars(text)));
    assert_eq!(b.save(), Ok(chars(text)));
}

#[test]
fn load_then_save_drops_only_the_final_newline() {
    let b = Buffer::from_text(Some("f.txt".to_string()), Some(chars("alpha\nbeta\n")));
    assert_eq!(b.save(), Ok(chars("alpha\nbeta")));
}

#[test]
fn load_then_save_of_empty_file_is_empty() {
    let b = Buffer::from_text(Some("f.txt".to_string()), Some(chars("")));
    assert_eq!(b.save(), Ok(chars("")));
}
