use text_editor::buffer::{Cursor, EditorBuffer};

fn lines(b: &EditorBuffer) -> Vec<&str> {
    b.lines.iter().map(|l| l.as_str()).collect()
}

fn buffer_with(text: &str) -> EditorBuffer {
    let mut b = EditorBuffer::new();
    b.load_file("notes.txt", text);
    b
}

#[test]
fn new_buffer_is_one_empty_clean_line() {
    let b = EditorBuffer::new();
    assert_eq!(lines(&b), vec![""]);
    assert_eq!(b.cursor, Cursor { line: 0, col: 0 });
    assert_eq!(b.file_path, None);
    assert!(!b.dirty);
}

#[test]
fn typing_inserts_characters_at_the_cursor() {
    let mut b = EditorBuffer::new();
    b.insert_str("héllo");
    assert_eq!(lines(&b), vec!["héllo"]);
    assert_eq!(b.cursor, Cursor { line: 0, col: 5 });
    assert!(b.dirty);
    b.move_left();
    b.move_left();
    b.insert_str("ß✓");
    assert_eq!(lines(&b), vec!["hélß✓lo"]);
    assert_eq!(b.cursor.col, 5);
}

#[test]
fn typing_nothing_leaves_a_clean_buffer_clean() {
    let mut b = buffer_with("abc");
    b.insert_str("");
    assert!(!b.dirty);
    assert_eq!(lines(&b), vec!["abc"]);
}

#[test]
fn typing_a_line_feed_keeps_it_inside_the_line() {
    let mut b = EditorBuffer::new();
    b.insert_str("a\nb");
    assert_eq!(lines(&b), vec!["a\nb"]);
    assert_eq!(b.cursor.col, 3);
}

#[test]
fn typing_past_the_end_of_a_line_appends() {
    let mut b = buffer_with("ab");
    b.cursor.col = 7;
    b.insert_str("x");
    assert_eq!(lines(&b), vec!["abx"]);
    assert_eq!(b.cursor.col, 8);
}

#[test]
fn newline_splits_the_line_at_the_cursor() {
    let mut b = buffer_with("hello world");
    b.cursor.col = 5;
    b.insert_newline();
    assert_eq!(lines(&b), vec!["hello", " world"]);
    assert_eq!(b.cursor, Cursor { line: 1, col: 0 });
    assert!(b.dirty);
}

#[test]
fn newline_then_backspace_restores_the_text() {
    let mut b = buffer_with("one\ntwo words\nthree");
    b.cursor = Cursor { line: 1, col: 3 };
    b.insert_newline();
    b.backspace();
    assert_eq!(lines(&b), vec!["one", "two words", "three"]);
    assert_eq!(b.cursor, Cursor { line: 1, col: 3 });
}

#[test]
fn newline_past_the_end_then_backspace_puts_the_cursor_at_the_end() {
    let mut b = buffer_with("abc");
    b.cursor.col = 10;
    b.insert_newline();
    assert_eq!(lines(&b), vec!["abc", ""]);
    b.backspace();
    assert_eq!(lines(&b), vec!["abc"]);
    assert_eq!(b.cursor, Cursor { line: 0, col: 3 });
}

#[test]
fn char_then_backspace_restores_the_text() {
    let mut b = buffer_with("abc");
    b.cursor.col = 1;
    b.insert_str("Z");
    assert_eq!(lines(&b), vec!["aZbc"]);
    b.backspace();
    assert_eq!(lines(&b), vec!["abc"]);
    assert_eq!(b.cursor.col, 1);
}

#[test]
fn backspace_at_column_zero_joins_with_the_line_above() {
    let mut b = buffer_with("ab\ncd");
    b.cursor = Cursor { line: 1, col: 0 };
    b.backspace();
    assert_eq!(lines(&b), vec!["abcd"]);
    assert_eq!(b.cursor, Cursor { line: 0, col: 2 });
    assert!(b.dirty);
}

#[test]
fn backspace_at_the_start_of_the_text_does_nothing() {
    let mut b = buffer_with("ab");
    b.backspace();
    assert_eq!(lines(&b), vec!["ab"]);
    assert_eq!(b.cursor, Cursor { line: 0, col: 0 });
    assert!(!b.dirty);
}

#[test]
fn backspace_past_the_end_only_moves_the_cursor() {
    let mut b = buffer_with("ab");
    b.cursor.col = 5;
    b.backspace();
    assert_eq!(lines(&b), vec!["ab"]);
    assert_eq!(b.cursor.col, 4);
    assert!(b.dirty);
}

#[test]
fn delete_removes_the_character_under_the_cursor() {
    let mut b = buffer_with("añb");
    b.cursor.col = 1;
    b.delete();
    assert_eq!(lines(&b), vec!["ab"]);
    assert_eq!(b.cursor.col, 1);
    assert!(b.dirty);
}

#[test]
fn delete_at_the_end_of_a_line_joins_the_next() {
    let mut b = buffer_with("ab\ncd\nef");
    b.cursor = Cursor { line: 1, col: 2 };
    b.delete();
    assert_eq!(lines(&b), vec!["ab", "cdef"]);
    assert_eq!(b.cursor, Cursor { line: 1, col: 2 });
}

#[test]
fn delete_at_the_end_of_the_text_does_nothing() {
    let mut b = buffer_with("ab");
    b.cursor.col = 2;
    b.delete();
    assert_eq!(lines(&b), vec!["ab"]);
    assert!(!b.dirty);
}

#[test]
fn delete_equals_moving_right_then_backspace() {
    for (line, col) in [(0usize, 0usize), (0, 1), (0, 2), (1, 0), (1, 3)] {
        let mut a = buffer_with("ab\nxyz\nq");
        a.cursor = Cursor { line, col };
        let mut b = buffer_with("ab\nxyz\nq");
        b.cursor = Cursor { line, col };
        a.delete();
        b.move_right();
        b.backspace();
        assert_eq!(lines(&a), lines(&b));
        assert_eq!(a.cursor, b.cursor);
    }
}

#[test]
fn moving_right_then_left_returns() {
    for (line, col) in [(0usize, 0usize), (0, 2), (1, 3)] {
        let mut b = buffer_with("ab\nxyz\nq");
        b.cursor = Cursor { line, col };
        b.move_right();
        b.move_left();
        assert_eq!(b.cursor, Cursor { line, col });
    }
}

#[test]
fn moving_left_then_right_returns() {
    for (line, col) in [(0usize, 1usize), (1, 0), (2, 1)] {
        let mut b = buffer_with("ab\nxyz\nq");
        b.cursor = Cursor { line, col };
        b.move_left();
        b.move_right();
        assert_eq!(b.cursor, Cursor { line, col });
    }
}

#[test]
fn moving_across_line_ends() {
    let mut b = buffer_with("ab\nc");
    b.cursor = Cursor { line: 0, col: 2 };
    b.move_right();
    assert_eq!(b.cursor, Cursor { line: 1, col: 0 });
    b.move_left();
    assert_eq!(b.cursor, Cursor { line: 0, col: 2 });
    b.move_home();
    b.move_left();
    assert_eq!(b.cursor, Cursor { line: 0, col: 0 });
    b.cursor = Cursor { line: 1, col: 1 };
    b.move_right();
    assert_eq!(b.cursor, Cursor { line: 1, col: 1 });
}

#[test]
fn moving_up_and_down_clamps_the_column() {
    let mut b = buffer_with("long line\nab\nanother long one");
    b.cursor = Cursor { line: 0, col: 7 };
    b.move_down();
    assert_eq!(b.cursor, Cursor { line: 1, col: 2 });
    b.move_down();
    assert_eq!(b.cursor, Cursor { line: 2, col: 2 });
    b.move_down();
    assert_eq!(b.cursor, Cursor { line: 2, col: 2 });
    b.move_end();
    assert_eq!(b.cursor.col, 16);
    b.move_up();
    assert_eq!(b.cursor, Cursor { line: 1, col: 2 });
    b.move_up();
    b.move_up();
    assert_eq!(b.cursor, Cursor { line: 0, col: 2 });
    assert!(!b.dirty);
}

#[test]
fn home_and_end() {
    let mut b = buffer_with("x\nhello");
    b.cursor = Cursor { line: 1, col: 2 };
    b.move_end();
    assert_eq!(b.cursor.col, 5);
    b.move_home();
    assert_eq!(b.cursor.col, 0);
}

#[test]
fn loading_splits_lines_like_str_lines() {
    let cases: Vec<(&str, Vec<&str>)> = vec![
        ("", vec![""]),
        ("\n", vec![""]),
        ("a", vec!["a"]),
        ("a\n", vec!["a"]),
        ("a\n\nb", vec!["a", "", "b"]),
        ("a\r\nb\r\n", vec!["a", "b"]),
        ("a\rb\nc\r", vec!["a\rb", "c\r"]),
        ("\n\n", vec!["", ""]),
        ("é\r\r\n", vec!["é\r"]),
    ];
    for (text, expected) in cases {
        let b = buffer_with(text);
        assert_eq!(lines(&b), expected, "text {:?}", text);
        let std_lines: Vec<&str> = text.lines().collect();
        if !std_lines.is_empty() {
            assert_eq!(lines(&b), std_lines);
        }
    }
}

#[test]
fn loading_resets_cursor_name_and_dirty() {
    let mut b = EditorBuffer::new();
    b.insert_str("draft");
    b.load_file("/tmp/a.txt", "x\ny");
    assert_eq!(b.cursor, Cursor { line: 0, col: 0 });
    assert_eq!(b.file_path.as_deref(), Some("/tmp/a.txt"));
    assert!(!b.dirty);
}

#[test]
fn contents_join_lines_with_line_feeds() {
    let mut b = EditorBuffer::new();
    b.insert_str("ab");
    b.insert_newline();
    b.insert_newline();
    b.insert_str("c");
    assert_eq!(b.contents(), "ab\n\nc");
    assert_eq!(EditorBuffer::new().contents(), "");
}

#[test]
fn load_then_contents_gives_the_text_back() {
    for text in ["", "a", "a\nb", "\nx", "a\n\n\nb", "tab\there"] {
        assert_eq!(buffer_with(text).contents(), text);
    }
}

#[test]
fn contents_then_load_gives_the_lines_back() {
    let mut b = EditorBuffer::new();
    b.insert_str("first");
    b.insert_newline();
    b.insert_newline();
    b.insert_str("last\r");
    let saved = b.contents();
    let c = buffer_with(&saved);
    assert_eq!(lines(&c), lines(&b));
}

#[test]
fn save_request_needs_a_file_name() {
    let mut b = EditorBuffer::new();
    b.insert_str("hi");
    assert_eq!(b.save_request(), None);
    b.mark_saved("out.txt".to_string());
    assert_eq!(b.file_path.as_deref(), Some("out.txt"));
    assert!(!b.dirty);
    b.insert_newline();
    assert_eq!(b.save_request(), Some(("out.txt".to_string(), "hi\n".to_string())));
}
