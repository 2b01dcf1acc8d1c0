use text_editor::buffer::{Cursor, EditorBuffer};
use text_editor::keys::{command_for_key, Command, EditKey};
use text_editor::layout::visual_col;

fn ch(s: &str) -> EditKey {
    EditKey::Character(s.to_string())
}

#[test]
fn visual_col_counts_tabs_to_the_next_stop() {
    assert_eq!(visual_col("abc", 2), 2);
    assert_eq!(visual_col("\tx", 1), 4);
    assert_eq!(visual_col("\tx", 2), 5);
    assert_eq!(visual_col("ab\tc", 3), 4);
    assert_eq!(visual_col("abcd\t", 5), 8);
    assert_eq!(visual_col("a\t\tb", 3), 8);
    assert_eq!(visual_col("ééé\t", 4), 4);
    assert_eq!(visual_col("", 0), 0);
}

#[test]
fn visual_col_past_the_end_is_the_width_of_the_line() {
    assert_eq!(visual_col("a\tb", 100), 5);
    assert_eq!(visual_col("", 3), 0);
}

#[test]
fn named_keys_edit_and_move_whatever_the_modifiers() {
    assert_eq!(command_for_key(&EditKey::ArrowLeft, true, false, None), Command::MoveLeft);
    assert_eq!(command_for_key(&EditKey::ArrowRight, false, false, None), Command::MoveRight);
    assert_eq!(command_for_key(&EditKey::ArrowUp, false, true, None), Command::MoveUp);
    assert_eq!(command_for_key(&EditKey::ArrowDown, false, false, None), Command::MoveDown);
    assert_eq!(command_for_key(&EditKey::Home, false, false, None), Command::MoveHome);
    assert_eq!(command_for_key(&EditKey::End, false, false, None), Command::MoveEnd);
    assert_eq!(command_for_key(&EditKey::Backspace, false, false, Some("\u{8}")), Command::Backspace);
    assert_eq!(command_for_key(&EditKey::Delete, true, false, None), Command::Delete);
    assert_eq!(command_for_key(&EditKey::Enter, false, false, Some("\r")), Command::Newline);
    assert_eq!(
        command_for_key(&EditKey::Tab, false, false, Some("\t")),
        Command::Insert("\t".to_string())
    );
}

#[test]
fn control_keys_save_and_open() {
    assert_eq!(command_for_key(&ch("s"), true, false, None), Command::Save);
    assert_eq!(command_for_key(&ch("S"), true, false, None), Command::Save);
    assert_eq!(command_for_key(&ch("s"), true, true, None), Command::SaveAs);
    assert_eq!(command_for_key(&ch("S"), true, true, None), Command::SaveAs);
    assert_eq!(command_for_key(&ch("o"), true, false, None), Command::Open);
    assert_eq!(command_for_key(&ch("O"), true, true, None), Command::Open);
    assert_eq!(command_for_key(&ch("x"), true, false, Some("x")), Command::Ignore);
    assert_eq!(command_for_key(&ch("so"), true, false, None), Command::Ignore);
}

#[test]
fn other_keys_type_their_text_without_control() {
    assert_eq!(
        command_for_key(&ch("a"), false, false, Some("a")),
        Command::Insert("a".to_string())
    );
    assert_eq!(
        command_for_key(&ch("s"), false, true, Some("S")),
        Command::Insert("S".to_string())
    );
    assert_eq!(command_for_key(&EditKey::Other, false, false, None), Command::Ignore);
    assert_eq!(command_for_key(&EditKey::Other, true, false, Some("q")), Command::Ignore);
    assert_eq!(
        command_for_key(&EditKey::Other, false, false, Some("ü")),
        Command::Insert("ü".to_string())
    );
}

#[test]
fn applying_commands_edits_the_buffer() {
    let mut b = EditorBuffer::new();
    for (key, text) in [(ch("h"), "h"), (ch("i"), "i")] {
        let cmd = command_for_key(&key, false, false, Some(text));
        b.apply(&cmd);
    }
    b.apply(&command_for_key(&EditKey::Tab, false, false, None));
    b.apply(&command_for_key(&EditKey::Enter, false, false, None));
    b.apply(&command_for_key(&EditKey::ArrowLeft, false, false, None));
    b.apply(&command_for_key(&EditKey::Backspace, false, false, None));
    assert_eq!(b.lines, vec!["hi".to_string(), "".to_string()]);
    assert_eq!(b.cursor, Cursor { line: 0, col: 2 });
    let before = b.lines.clone();
    b.apply(&Command::Save);
    b.apply(&Command::Open);
    b.apply(&Command::Ignore);
    assert_eq!(b.lines, before);
}
