use vstd::prelude::*;
use vstd::string::*;

verus! {

/// A key press, as far as the editor tells keys apart.
#[derive(Debug, PartialEq, Eq)]
pub enum EditKey {
    ArrowLeft,
    ArrowRight,
    ArrowUp,
    ArrowDown,
    Home,
    End,
    Backspace,
    Delete,
    Enter,
    Tab,
    /// A key that stands for a character, by the character it stands for.
    Character(String),
    /// Any other key.
    Other,
}

/// What the editor does in answer to a key press; `T` is the type of the
/// text to type (a `String`, or its characters in contracts).
#[derive(Debug, PartialEq, Eq)]
pub enum Command<T> {
    MoveLeft,
    MoveRight,
    MoveUp,
    MoveDown,
    MoveHome,
    MoveEnd,
    Backspace,
    Delete,
    Newline,
    /// Type this text at the cursor.
    Insert(T),
    /// Write the buffer to its file.
    Save,
    /// Ask for a file name and write the buffer there.
    SaveAs,
    /// Ask for a file and load it.
    Open,
    /// Nothing.
    Ignore,
}

impl View for Command<String> {
    type V = Command<Seq<char>>;

    open spec fn view(&self) -> Command<Seq<char>> {
        match self {
            Command::MoveLeft => Command::MoveLeft,
            Command::MoveRight => Command::MoveRight,
            Command::MoveUp => Command::MoveUp,
            Command::MoveDown => Command::MoveDown,
            Command::MoveHome => Command::MoveHome,
            Command::MoveEnd => Command::MoveEnd,
            Command::Backspace => Command::Backspace,
            Command::Delete => Command::Delete,
            Command::Newline => Command::Newline,
            Command::Insert(t) => Command::Insert(t@),
            Command::Save => Command::Save,
            Command::SaveAs => Command::SaveAs,
            Command::Open => Command::Open,
            Command::Ignore => Command::Ignore,
        }
    }
}

/// The answer to a character key pressed with Control held.
pub open spec fn control_command(c: Seq<char>, shift: bool) -> Command<Seq<char>> {
    if c == seq!['s'] || c == seq!['S'] {
        if shift {
            Command::SaveAs
        } else {
            Command::Save
        }
    } else if c == seq!['o'] || c == seq!['O'] {
        Command::Open
    } else {
        Command::Ignore
    }
}

/// The command for a key press: editing and moving keys act whatever the
/// modifiers; with Control, `s` saves (`S`, or `s` with Shift, asks for a
/// name), `o` opens and other characters do nothing; any other key types
/// the text it produced, unless Control is held.
pub open spec fn key_command(key: EditKey, ctrl: bool, shift: bool, text: Option<Seq<char>>) -> Command<
    Seq<char>,
> {
    match key {
        EditKey::ArrowLeft => Command::MoveLeft,
        EditKey::ArrowRight => Command::MoveRight,
        EditKey::ArrowUp => Command::MoveUp,
        EditKey::ArrowDown => Command::MoveDown,
        EditKey::Home => Command::MoveHome,
        EditKey::End => Command::MoveEnd,
        EditKey::Backspace => Command::Backspace,
        EditKey::Delete => Command::Delete,
        EditKey::Enter => Command::Newline,
        EditKey::Tab => Command::Insert(seq!['\t']),
        EditKey::Character(c) if ctrl => control_command(c@, shift),
        _ => if !ctrl && text is Some {
            Command::Insert(text->0)
        } else {
            Command::Ignore
        },
    }
}

/// Whether `s` is the one character `c`.
fn is_char(s: &str, c: char) -> (b: bool)
    ensures
        b == (s@ == seq![c]),
{
    if s.unicode_len() == 1 {
        let b = s.get_char(0) == c;
        proof {
            if b {
                assert(s@ =~= seq![c]);
            }
        }
        b
    } else {
        false
    }
}

/// The command for a key press, given whether Control and Shift are held
/// and the text the key produced.
pub fn command_for_key(key: &EditKey, ctrl: bool, shift: bool, text: Option<&str>) -> (cmd: Command<String>)
    ensures
        cmd@ == key_command(*key, ctrl, shift, match text {
            Some(t) => Some(t@),
            None => None,
        }),
{
    match key {
        EditKey::ArrowLeft => Command::MoveLeft,
        EditKey::ArrowRight => Command::MoveRight,
        EditKey::ArrowUp => Command::MoveUp,
        EditKey::ArrowDown => Command::MoveDown,
        EditKey::Home => Command::MoveHome,
        EditKey::End => Command::MoveEnd,
        EditKey::Backspace => Command::Backspace,
        EditKey::Delete => Command::Delete,
        EditKey::Enter => Command::Newline,
        EditKey::Tab => {
            let mut t = String::new();
            t.push('\t');
            assert(t@ =~= seq!['\t']);
            Command::Insert(t)
        },
        EditKey::Character(c) if ctrl => {
            if is_char(c.as_str(), 's') || is_char(c.as_str(), 'S') {
                if shift {
                    Command::SaveAs
                } else {
                    Command::Save
                }
            } else if is_char(c.as_str(), 'o') || is_char(c.as_str(), 'O') {
                Command::Open
            } else {
                Command::Ignore
            }
        },
        _ => {
            match text {
                Some(t) if !ctrl => Command::Insert(String::from_str(t)),
                _ => Command::Ignore,
            }
        },
    }
}

} // verus!
