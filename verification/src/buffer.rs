use vstd::prelude::*;
use vstd::string::*;

use crate::keys::Command;
use crate::text::{
    clamp_col, concat_str, insert_char_str, join_lines, join_with_newlines, line_views, remove_chars,
    splice, split_lines, substring, text_lines,
};

verus! {

/// A position in the buffer: a line index and a character column.
#[derive(Clone, Copy, Debug, PartialEq, Eq, Structural)]
pub struct Cursor {
    pub line: usize,
    pub col: usize,
}

/// What a buffer holds, as mathematical values.
pub struct EditorView {
    pub lines: Seq<Seq<char>>,
    pub line: int,
    pub col: int,
    pub file_path: Option<Seq<char>>,
    pub dirty: bool,
}

impl EditorView {
    /// Well-formed: at least one line, and the cursor's line exists.
    pub open spec fn wf(self) -> bool {
        &&& self.lines.len() > 0
        &&& 0 <= self.line < self.lines.len()
        &&& 0 <= self.col
    }

    /// The cursor does not stand past the end of its line.
    pub open spec fn cursor_in_line(self) -> bool {
        self.col <= self.lines[self.line].len()
    }

    /// The line under the cursor.
    pub open spec fn cur(self) -> Seq<char> {
        self.lines[self.line]
    }

    /// The character index at which an edit happens: the cursor column, or
    /// the end of the line when the column is past it.
    pub open spec fn pos(self) -> int {
        clamp_col(self.cur(), self.col)
    }

    /// The same buffer with other lines and cursor.
    pub open spec fn with(self, lines: Seq<Seq<char>>, line: int, col: int, dirty: bool) -> Self {
        EditorView { lines, line, col, file_path: self.file_path, dirty }
    }

    /// The same buffer with the cursor moved.
    pub open spec fn at(self, line: int, col: int) -> Self {
        self.with(self.lines, line, col, self.dirty)
    }

    /// Typing the text `s` at the cursor.
    pub open spec fn typed(self, s: Seq<char>) -> Self {
        self.with(
            self.lines.update(self.line, splice(self.cur(), self.pos(), self.pos(), s)),
            self.line,
            self.col + s.len(),
            self.dirty || s.len() > 0,
        )
    }

    /// Splitting the cursor's line at the cursor; the cursor goes to the start
    /// of the new line.
    pub open spec fn broken(self) -> Self {
        self.with(
            self.lines.take(self.line) + seq![self.cur().take(self.pos()), self.cur().skip(self.pos())]
                + self.lines.skip(self.line + 1),
            self.line + 1,
            0,
            true,
        )
    }

    /// Joining line `i` with the line after it.
    pub open spec fn joined_lines(self, i: int) -> Seq<Seq<char>> {
        self.lines.take(i) + seq![self.lines[i] + self.lines[i + 1]] + self.lines.skip(i + 2)
    }

    /// Removing the character before the cursor, or joining the line with the
    /// one above when the cursor is at column 0.
    pub open spec fn backspaced(self) -> Self {
        if self.col > 0 {
            self.with(
                self.lines.update(
                    self.line,
                    splice(self.cur(), clamp_col(self.cur(), self.col - 1), self.pos(), seq![]),
                ),
                self.line,
                self.col - 1,
                true,
            )
        } else if self.line > 0 {
            self.with(
                self.joined_lines(self.line - 1),
                self.line - 1,
                self.lines[self.line - 1].len() as int,
                true,
            )
        } else {
            self
        }
    }

    /// Removing the character under the cursor, or joining the next line onto
    /// this one when the cursor is at or past the end of its line.
    pub open spec fn deleted(self) -> Self {
        if self.col < self.cur().len() {
            self.with(
                self.lines.update(self.line, splice(self.cur(), self.col, self.col + 1, seq![])),
                self.line,
                self.col,
                true,
            )
        } else if self.line + 1 < self.lines.len() {
            self.with(self.joined_lines(self.line), self.line, self.col, true)
        } else {
            self
        }
    }

    pub open spec fn moved_left(self) -> Self {
        if self.col > 0 {
            self.at(self.line, self.col - 1)
        } else if self.line > 0 {
            self.at(self.line - 1, self.lines[self.line - 1].len() as int)
        } else {
            self
        }
    }

    pub open spec fn moved_right(self) -> Self {
        if self.col < self.cur().len() {
            self.at(self.line, self.col + 1)
        } else if self.line + 1 < self.lines.len() {
            self.at(self.line + 1, 0)
        } else {
            self
        }
    }

    pub open spec fn moved_up(self) -> Self {
        if self.line > 0 {
            self.at(self.line - 1, clamp_col(self.lines[self.line - 1], self.col))
        } else {
            self
        }
    }

    pub open spec fn moved_down(self) -> Self {
        if self.line + 1 < self.lines.len() {
            self.at(self.line + 1, clamp_col(self.lines[self.line + 1], self.col))
        } else {
            self
        }
    }

    pub open spec fn moved_home(self) -> Self {
        self.at(self.line, 0)
    }

    pub open spec fn moved_end(self) -> Self {
        self.at(self.line, self.cur().len() as int)
    }

    /// The buffer after carrying out `cmd`; saving and opening are left to
    /// the caller and change nothing here.
    pub open spec fn applied(self, cmd: Command<Seq<char>>) -> Self {
        match cmd {
            Command::MoveLeft => self.moved_left(),
            Command::MoveRight => self.moved_right(),
            Command::MoveUp => self.moved_up(),
            Command::MoveDown => self.moved_down(),
            Command::MoveHome => self.moved_home(),
            Command::MoveEnd => self.moved_end(),
            Command::Backspace => self.backspaced(),
            Command::Delete => self.deleted(),
            Command::Newline => self.broken(),
            Command::Insert(s) => self.typed(s),
            _ => self,
        }
    }
}

/// The lines of a loaded file: the lines of its text, or one empty line
/// when it has none.
pub open spec fn loaded_lines(content: Seq<char>) -> Seq<Seq<char>> {
    if text_lines(content).len() == 0 {
        seq![Seq::empty()]
    } else {
        text_lines(content)
    }
}

/// Typing nothing changes nothing.
pub proof fn lemma_typed_nothing(v: EditorView)
    requires
        v.wf(),
    ensures
        v.typed(Seq::empty()) == v,
{
    assert(splice(v.cur(), v.pos(), v.pos(), Seq::empty()) =~= v.cur());
    assert(v.lines.update(v.line, v.cur()) =~= v.lines);
}

/// Typing `a` and then `b` is typing `a + b`.
pub proof fn lemma_typed_twice(v: EditorView, a: Seq<char>, b: Seq<char>)
    requires
        v.wf(),
    ensures
        v.typed(a).typed(b) == v.typed(a + b),
{
    let w = v.typed(a);
    assert(w.cur() == splice(v.cur(), v.pos(), v.pos(), a));
    assert(w.pos() == v.pos() + a.len());
    assert(splice(w.cur(), w.pos(), w.pos(), b) =~= splice(v.cur(), v.pos(), v.pos(), a + b));
    assert(w.typed(b).lines =~= v.typed(a + b).lines);
}

/// The text being edited, the cursor in it, the file it belongs to and
/// whether it has changed since it was last loaded or saved.
pub struct EditorBuffer {
    pub lines: Vec<String>,
    pub cursor: Cursor,
    pub file_path: Option<String>,
    pub dirty: bool,
}

impl View for EditorBuffer {
    type V = EditorView;

    open spec fn view(&self) -> EditorView {
        EditorView {
            lines: line_views(self.lines@),
            line: self.cursor.line as int,
            col: self.cursor.col as int,
            file_path: match self.file_path {
                Some(p) => Some(p@),
                None => None,
            },
            dirty: self.dirty,
        }
    }
}

impl EditorBuffer {
    /// An empty, unnamed buffer: one empty line, the cursor at its start.
    pub fn new() -> (b: Self)
        ensures
            b@.lines == seq![Seq::<char>::empty()],
            b@.line == 0,
            b@.col == 0,
            b@.file_path is None,
            !b@.dirty,
    {
        let mut lines: Vec<String> = Vec::new();
        lines.push(String::new());
        let b = EditorBuffer { lines, cursor: Cursor { line: 0, col: 0 }, file_path: None, dirty: false };
        assert(b@.lines =~= seq![Seq::<char>::empty()]);
        b
    }

    /// Replaces the text with the lines of `content`, read from the file at
    /// `path`; the cursor goes to the start and the buffer counts as saved.
    pub fn load_file(&mut self, path: &str, content: &str)
        ensures
            final(self)@.lines == loaded_lines(content@),
            final(self)@.line == 0,
            final(self)@.col == 0,
            final(self)@.file_path == Some(path@),
            !final(self)@.dirty,
    {
        let mut lines = split_lines(content);
        if lines.len() == 0 {
            lines.push(String::new());
            assert(line_views(lines@) =~= seq![Seq::<char>::empty()]);
        }
        self.lines = lines;
        self.file_path = Some(String::from_str(path));
        self.cursor = Cursor { line: 0, col: 0 };
        self.dirty = false;
    }

    /// The text to write to a file: the lines joined with `'\n'`.
    pub fn contents(&self) -> (s: String)
        ensures
            s@ == join_lines(self@.lines),
    {
        join_with_newlines(&self.lines)
    }

    /// The file name and the text to write there, when the buffer has a
    /// file name.
    pub fn save_request(&self) -> (r: Option<(String, String)>)
        ensures
            r is None <==> self@.file_path is None,
            r matches Some((p, s)) ==> Some(p@) == self@.file_path && s@ == join_lines(self@.lines),
    {
        match &self.file_path {
            Some(p) => Some((p.clone(), self.contents())),
            None => None,
        }
    }

    /// Records that the text was written to the file at `path`: the buffer
    /// now belongs to that file and counts as saved.
    pub fn mark_saved(&mut self, path: String)
        ensures
            final(self)@.file_path == Some(path@),
            !final(self)@.dirty,
            final(self)@.lines == old(self)@.lines,
            final(self)@.line == old(self)@.line,
            final(self)@.col == old(self)@.col,
    {
        self.file_path = Some(path);
        self.dirty = false;
    }

    /// Carries out an editing or moving command; saving and opening need
    /// files and dialogs and are left to the caller.
    pub fn apply(&mut self, cmd: &Command<String>)
        requires
            old(self)@.wf(),
            cmd matches Command::Insert(s) ==> old(self).cursor.col + s@.len() <= usize::MAX,
        ensures
            final(self)@ == old(self)@.applied(cmd@),
    {
        match cmd {
            Command::MoveLeft => self.move_left(),
            Command::MoveRight => self.move_right(),
            Command::MoveUp => self.move_up(),
            Command::MoveDown => self.move_down(),
            Command::MoveHome => self.move_home(),
            Command::MoveEnd => self.move_end(),
            Command::Backspace => self.backspace(),
            Command::Delete => self.delete(),
            Command::Newline => self.insert_newline(),
            Command::Insert(s) => self.insert_str(s.as_str()),
            _ => {},
        }
    }

    /// The number of characters in line `i`.
    fn line_len(&self, i: usize) -> (n: usize)
        requires
            i < self.lines.len(),
        ensures
            n == self@.lines[i as int].len(),
    {
        self.lines[i].as_str().unicode_len()
    }

    /// The character index at which an edit on the cursor's line happens.
    fn edit_pos(&self) -> (p: usize)
        requires
            self@.wf(),
        ensures
            p == self@.pos(),
    {
        let n = self.line_len(self.cursor.line);
        if self.cursor.col < n {
            self.cursor.col
        } else {
            n
        }
    }

    /// Replaces line `i` with `s`.
    fn set_line(&mut self, i: usize, s: String)
        requires
            i < old(self).lines.len(),
        ensures
            final(self)@ == old(self)@.with(
                old(self)@.lines.update(i as int, s@),
                old(self)@.line,
                old(self)@.col,
                old(self)@.dirty,
            ),
            final(self).cursor == old(self).cursor,
            final(self).lines.len() == old(self).lines.len(),
    {
        self.lines.set(i, s);
        assert(line_views(self.lines@) =~= line_views(old(self).lines@).update(i as int, s@));
    }

    fn insert_char(&mut self, ch: char)
        requires
            old(self)@.wf(),
            old(self).cursor.col < usize::MAX,
        ensures
            final(self)@ == old(self)@.typed(seq![ch]),
    {
        let line = self.cursor.line;
        let at = self.edit_pos();
        let new_line = insert_char_str(self.lines[line].as_str(), at, ch);
        self.set_line(line, new_line);
        self.cursor.col = self.cursor.col + 1;
        self.dirty = true;
    }

    /// Types the characters of `s` at the cursor, one after another.
    pub fn insert_str(&mut self, s: &str)
        requires
            old(self)@.wf(),
            old(self).cursor.col + s@.len() <= usize::MAX,
        ensures
            final(self)@ == old(self)@.typed(s@),
    {
        let ghost start = self@;
        proof {
            assert(s@.take(0) =~= Seq::<char>::empty());
            lemma_typed_nothing(start);
        }
        for ch in it: s.chars()
            invariant
                it.seq() == s@,
                start.wf(),
                start.col + s@.len() <= usize::MAX,
                self@ == start.typed(s@.take(it.index())),
        {
            let ghost k = it.index();
            proof {
                lemma_typed_twice(start, s@.take(k), seq![ch]);
                assert(s@.take(k) + seq![ch] =~= s@.take(k + 1));
            }
            self.insert_char(ch);
        }
        proof {
            assert(s@.take(s@.len() as int) =~= s@);
        }
    }

    pub fn insert_newline(&mut self)
        requires
            old(self)@.wf(),
        ensures
            final(self)@ == old(self)@.broken(),
    {
        let line = self.cursor.line;
        let at = self.edit_pos();
        let n = self.line_len(line);
        let head = substring(self.lines[line].as_str(), 0, at);
        let tail = substring(self.lines[line].as_str(), at, n);
        let ghost before = self@;
        self.set_line(line, head);
        let ghost mid = self.lines@;
        self.cursor.line = line + 1;
        self.lines.insert(line + 1, tail);
        assert(line_views(self.lines@) =~= line_views(mid).insert(line + 1, tail@));
        self.cursor.col = 0;
        self.dirty = true;
        proof {
            assert(before.cur().subrange(0, at as int) =~= before.cur().take(at as int));
            assert(before.cur().subrange(at as int, n as int) =~= before.cur().skip(at as int));
            assert(self@.lines =~= before.broken().lines);
        }
    }

    pub fn backspace(&mut self)
        requires
            old(self)@.wf(),
        ensures
            final(self)@ == old(self)@.backspaced(),
    {
        let ghost before = self@;
        if self.cursor.col > 0 {
            let line = self.cursor.line;
            let n = self.line_len(line);
            let col = self.cursor.col;
            let b0 = if col - 1 < n { col - 1 } else { n };
            let b1 = if col < n { col } else { n };
            let new_line = remove_chars(self.lines[line].as_str(), b0, b1);
            self.set_line(line, new_line);
            self.cursor.col = col - 1;
            self.dirty = true;
        } else if self.cursor.line > 0 {
            let line = self.cursor.line;
            let cur = self.lines.remove(line);
            self.cursor.line = line - 1;
            let prev_len = self.line_len(line - 1);
            let joined = concat_str(self.lines[line - 1].as_str(), cur.as_str());
            self.set_line(line - 1, joined);
            self.cursor.col = prev_len;
            self.dirty = true;
            proof {
                assert(self@.lines =~= before.joined_lines(line - 1));
            }
        }
    }

    pub fn delete(&mut self)
        requires
            old(self)@.wf(),
        ensures
            final(self)@ == old(self)@.deleted(),
    {
        let ghost before = self@;
        let line = self.cursor.line;
        let len = self.line_len(line);
        if self.cursor.col < len {
            let col = self.cursor.col;
            let new_line = remove_chars(self.lines[line].as_str(), col, col + 1);
            self.set_line(line, new_line);
            self.dirty = true;
        } else if line < self.lines.len() - 1 {
            let next = self.lines.remove(line + 1);
            let joined = concat_str(self.lines[line].as_str(), next.as_str());
            self.set_line(line, joined);
            self.dirty = true;
            proof {
                assert(self@.lines =~= before.joined_lines(line as int));
            }
        }
    }

    pub fn move_left(&mut self)
        requires
            old(self)@.wf(),
        ensures
            final(self)@ == old(self)@.moved_left(),
    {
        if self.cursor.col > 0 {
            self.cursor.col = self.cursor.col - 1;
        } else if self.cursor.line > 0 {
            self.cursor.line = self.cursor.line - 1;
            self.cursor.col = self.line_len(self.cursor.line);
        }
    }

    pub fn move_right(&mut self)
        requires
            old(self)@.wf(),
        ensures
            final(self)@ == old(self)@.moved_right(),
    {
        let len = self.line_len(self.cursor.line);
        if self.cursor.col < len {
            self.cursor.col = self.cursor.col + 1;
        } else if self.cursor.line < self.lines.len() - 1 {
            self.cursor.line = self.cursor.line + 1;
            self.cursor.col = 0;
        }
    }

    pub fn move_up(&mut self)
        requires
            old(self)@.wf(),
        ensures
            final(self)@ == old(self)@.moved_up(),
    {
        if self.cursor.line > 0 {
            self.cursor.line = self.cursor.line - 1;
            let len = self.line_len(self.cursor.line);
            if len < self.cursor.col {
                self.cursor.col = len;
            }
        }
    }

    pub fn move_down(&mut self)
        requires
            old(self)@.wf(),
        ensures
            final(self)@ == old(self)@.moved_down(),
    {
        if self.cursor.line < self.lines.len() - 1 {
            self.cursor.line = self.cursor.line + 1;
            let len = self.line_len(self.cursor.line);
            if len < self.cursor.col {
                self.cursor.col = len;
            }
        }
    }

    pub fn move_home(&mut self)
        ensures
            final(self)@ == old(self)@.moved_home(),
    {
        self.cursor.col = 0;
    }

    pub fn move_end(&mut self)
        requires
            old(self)@.wf(),
        ensures
            final(self)@ == old(self)@.moved_end(),
    {
        self.cursor.col = self.line_len(self.cursor.line);
    }
}

} // verus!
