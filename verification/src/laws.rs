use vstd::prelude::*;

use crate::buffer::{loaded_lines, EditorView};
use crate::keys::{key_command, Command, EditKey};
use crate::layout::visual_width;
use crate::text::{clamp_col, join_lines, scan_lines, splice, strip_cr, text_lines};

verus! {

/// Every editing and moving operation keeps a well-formed buffer
/// well-formed, and keeps a cursor that stands within its line within its
/// line.
pub proof fn lemma_operations_keep_cursor_in_text(v: EditorView, s: Seq<char>)
    requires
        v.wf(),
    ensures
        v.typed(s).wf(),
        v.broken().wf(),
        v.backspaced().wf(),
        v.deleted().wf(),
        v.moved_left().wf(),
        v.moved_right().wf(),
        v.moved_up().wf(),
        v.moved_down().wf(),
        v.moved_home().wf(),
        v.moved_end().wf(),
        v.cursor_in_line() ==> {
            &&& v.typed(s).cursor_in_line()
            &&& v.broken().cursor_in_line()
            &&& v.backspaced().cursor_in_line()
            &&& v.deleted().cursor_in_line()
            &&& v.moved_left().cursor_in_line()
            &&& v.moved_right().cursor_in_line()
            &&& v.moved_up().cursor_in_line()
            &&& v.moved_down().cursor_in_line()
            &&& v.moved_home().cursor_in_line()
            &&& v.moved_end().cursor_in_line()
        },
{
    let b = v.broken();
    assert(b.lines[b.line] == v.cur().skip(v.pos()));
    let d = v.deleted();
    if v.col < v.cur().len() {
    } else if v.line + 1 < v.lines.len() {
        assert(d.lines[d.line] == v.cur() + v.lines[v.line + 1]);
    }
    let k = v.backspaced();
    if v.col > 0 {
    } else if v.line > 0 {
        assert(k.lines[k.line] == v.lines[v.line - 1] + v.cur());
    }
}

/// Moving the cursor never changes the text, the file name or whether the
/// buffer has unsaved changes; only the cursor moves.
pub proof fn lemma_moves_keep_text(v: EditorView)
    ensures
        v.moved_left().lines == v.lines && v.moved_left().dirty == v.dirty,
        v.moved_right().lines == v.lines && v.moved_right().dirty == v.dirty,
        v.moved_up().lines == v.lines && v.moved_up().dirty == v.dirty,
        v.moved_down().lines == v.lines && v.moved_down().dirty == v.dirty,
        v.moved_home().lines == v.lines && v.moved_home().dirty == v.dirty,
        v.moved_end().lines == v.lines && v.moved_end().dirty == v.dirty,
        v.moved_left().file_path == v.file_path,
        v.moved_right().file_path == v.file_path,
        v.moved_up().file_path == v.file_path,
        v.moved_down().file_path == v.file_path,
        v.moved_home().file_path == v.file_path,
        v.moved_end().file_path == v.file_path,
{
}

/// Every edit that changes the text marks the buffer as changed and keeps
/// its file name.
pub proof fn lemma_edits_mark_dirty(v: EditorView, s: Seq<char>)
    requires
        v.wf(),
    ensures
        v.typed(s).lines != v.lines ==> v.typed(s).dirty,
        v.broken().dirty,
        v.backspaced().lines != v.lines ==> v.backspaced().dirty,
        v.deleted().lines != v.lines ==> v.deleted().dirty,
        v.typed(s).file_path == v.file_path,
        v.broken().file_path == v.file_path,
        v.backspaced().file_path == v.file_path,
        v.deleted().file_path == v.file_path,
{
    if v.typed(s).lines != v.lines && s.len() == 0 {
        assert(splice(v.cur(), v.pos(), v.pos(), s) =~= v.cur());
        assert(v.lines.update(v.line, v.cur()) =~= v.lines);
    }
}

/// A freshly loaded buffer has at least one line, so the cursor at its
/// start stands inside the text.
pub proof fn lemma_loaded_lines_nonempty(s: Seq<char>)
    ensures
        loaded_lines(s).len() > 0,
{
}

/// Breaking a line at the cursor and then pressing backspace gives back the
/// same lines, with the cursor where the break was made.
pub proof fn lemma_newline_then_backspace(v: EditorView)
    requires
        v.wf(),
    ensures
        v.broken().backspaced().lines == v.lines,
        v.broken().backspaced().line == v.line,
        v.broken().backspaced().col == v.pos(),
{
    let b = v.broken();
    assert(b.joined_lines(v.line) =~= v.lines) by {
        assert(v.cur().take(v.pos()) + v.cur().skip(v.pos()) =~= v.cur());
    }
}

/// Typing a character and then pressing backspace gives back the same lines
/// and cursor, when the cursor stands within its line.
pub proof fn lemma_char_then_backspace(v: EditorView, ch: char)
    requires
        v.wf(),
        v.cursor_in_line(),
    ensures
        v.typed(seq![ch]).backspaced().lines == v.lines,
        v.typed(seq![ch]).backspaced().line == v.line,
        v.typed(seq![ch]).backspaced().col == v.col,
{
    let t = v.typed(seq![ch]);
    let line = splice(v.cur(), v.col, v.col, seq![ch]);
    assert(t.cur() == line);
    assert(splice(line, v.col, v.col + 1, seq![]) =~= v.cur());
    assert(v.lines.update(v.line, v.cur()) =~= v.lines);
}

/// Moving right and then left comes back to the same place, unless the
/// cursor was at the very end of the text (where moving right does nothing).
pub proof fn lemma_right_then_left(v: EditorView)
    requires
        v.wf(),
        v.cursor_in_line(),
        !(v.line + 1 == v.lines.len() && v.col == v.cur().len()),
    ensures
        v.moved_right().moved_left() == v,
{
}

/// Moving left and then right comes back to the same place, unless the
/// cursor was at the very start of the text (where moving left does nothing).
pub proof fn lemma_left_then_right(v: EditorView)
    requires
        v.wf(),
        v.cursor_in_line(),
        !(v.line == 0 && v.col == 0),
    ensures
        v.moved_left().moved_right() == v,
{
}

/// Deleting forward is the same as moving right and pressing backspace,
/// unless the cursor was at the very end of the text.
pub proof fn lemma_delete_is_right_then_backspace(v: EditorView)
    requires
        v.wf(),
        v.cursor_in_line(),
        !(v.line + 1 == v.lines.len() && v.col == v.cur().len()),
    ensures
        v.deleted() == v.moved_right().backspaced(),
{
    let r = v.moved_right();
    if v.col < v.cur().len() {
        assert(clamp_col(r.cur(), r.col - 1) == v.col);
        assert(r.pos() == v.col + 1);
    } else {
        assert(r.joined_lines(r.line - 1) =~= v.joined_lines(v.line));
    }
}

/// Reading `s` in two pieces, the second without a line feed, just extends
/// the unfinished line.
proof fn lemma_scan_lines_append(s: Seq<char>, x: Seq<char>)
    requires
        !x.contains('\n'),
    ensures
        scan_lines(s + x) == (scan_lines(s).0, scan_lines(s).1 + x),
    decreases x.len(),
{
    if x.len() == 0 {
        assert(s + x =~= s);
        assert(scan_lines(s).1 + x =~= scan_lines(s).1);
    } else {
        let y = x.drop_last();
        assert(!y.contains('\n')) by {
            if y.contains('\n') {
                let i = choose|i: int| 0 <= i < y.len() && y[i] == '\n';
                assert(x[i] == '\n');
            }
        }
        assert(x[x.len() - 1] != '\n');
        lemma_scan_lines_append(s, y);
        assert((s + x).drop_last() =~= s + y);
        assert(scan_lines(s).1 + y + seq![x.last()] =~= scan_lines(s).1 + x);
    }
}

/// With no carriage returns, the finished lines and the unfinished one,
/// joined again, give back the text read.
proof fn lemma_scan_lines_join(s: Seq<char>)
    requires
        !s.contains('\r'),
    ensures
        join_lines(scan_lines(s).0.push(scan_lines(s).1)) == s,
        scan_lines(s).1.len() == 0 ==> s.len() == 0 || s.last() == '\n',
        forall|i: int| 0 <= i < scan_lines(s).1.len() ==> scan_lines(s).1[i] != '\r',
    decreases s.len(),
{
    if s.len() > 0 {
        let p = s.drop_last();
        assert(!p.contains('\r')) by {
            if p.contains('\r') {
                let i = choose|i: int| 0 <= i < p.len() && p[i] == '\r';
                assert(s[i] == '\r');
            }
        }
        lemma_scan_lines_join(p);
        let (done, cur) = scan_lines(p);
        if s.last() == '\n' {
            assert(strip_cr(cur) == cur);
            let lines = done.push(cur).push(Seq::<char>::empty());
            assert(lines.drop_last() =~= done.push(cur));
            assert(join_lines(lines) =~= p + seq!['\n']);
            assert(p + seq!['\n'] =~= s);
        } else {
            let lines = done.push(cur.push(s.last()));
            if done.len() == 0 {
                assert(join_lines(done.push(cur)) == cur);
                assert(cur =~= p);
                assert(s =~= p.push(s.last()));
            } else {
                assert(lines.drop_last() =~= done);
                assert(done.push(cur).drop_last() =~= done);
                assert(join_lines(lines) =~= join_lines(done.push(cur)) + seq![s.last()]);
                assert(s =~= p.push(s.last()));
            }
        }
    }
}

/// Loading a text and writing the buffer back gives the same text, when the
/// text has no carriage return and does not end with a line feed.
pub proof fn lemma_load_then_contents(s: Seq<char>)
    requires
        !s.contains('\r'),
        s.len() == 0 || s.last() != '\n',
    ensures
        join_lines(loaded_lines(s)) == s,
{
    lemma_scan_lines_join(s);
    let (done, cur) = scan_lines(s);
    if cur.len() == 0 {
        assert(s.len() == 0);
        assert(s =~= Seq::<char>::empty());
        assert(text_lines(s).len() == 0);
    }
}

/// Lines that survive a round trip through a file: none holds a line feed,
/// none but the last ends with a carriage return, and the last is not empty
/// unless it is the only one.
pub open spec fn savable_lines(lines: Seq<Seq<char>>) -> bool {
    &&& lines.len() > 0
    &&& forall|i: int| 0 <= i < lines.len() ==> !(#[trigger] lines[i]).contains('\n')
    &&& forall|i: int| 0 <= i < lines.len() - 1 ==> strip_cr(#[trigger] lines[i]) == lines[i]
    &&& (lines.last().len() > 0 || lines.len() == 1)
}

/// Reading the joined lines finishes every line but the last.
proof fn lemma_scan_joined(lines: Seq<Seq<char>>)
    requires
        lines.len() > 0,
        forall|i: int| 0 <= i < lines.len() ==> !(#[trigger] lines[i]).contains('\n'),
        forall|i: int| 0 <= i < lines.len() - 1 ==> strip_cr(#[trigger] lines[i]) == lines[i],
    ensures
        scan_lines(join_lines(lines)) == (lines.drop_last(), lines.last()),
    decreases lines.len(),
{
    if lines.len() == 1 {
        lemma_scan_lines_append(Seq::empty(), lines[0]);
        assert(Seq::<char>::empty() + lines[0] =~= lines[0]);
        assert(Seq::<char>::empty() + lines[0] =~= lines[0]);
        assert(lines.drop_last() =~= Seq::<Seq<char>>::empty());
    } else {
        let front = lines.drop_last();
        assert(forall|i: int| 0 <= i < front.len() ==> front[i] == lines[i]);
        lemma_scan_joined(front);
        let u = join_lines(front) + seq!['\n'];
        assert(u.drop_last() =~= join_lines(front));
        assert(front.drop_last().push(front.last()) =~= front);
        assert(scan_lines(u) == (front, Seq::<char>::empty()));
        assert(!lines.last().contains('\n'));
        lemma_scan_lines_append(u, lines.last());
        assert(Seq::<char>::empty() + lines.last() =~= lines.last());
    }
}

/// Writing the lines of a buffer to a file and loading that file gives back
/// the same lines, for lines that a file can hold as they are.
pub proof fn lemma_contents_then_load(lines: Seq<Seq<char>>)
    requires
        savable_lines(lines),
    ensures
        loaded_lines(join_lines(lines)) == lines,
{
    lemma_scan_joined(lines);
    if lines.last().len() == 0 {
        assert(lines.len() == 1);
        assert(lines =~= seq![Seq::<char>::empty()]);
    } else {
        assert(lines.drop_last().push(lines.last()) =~= lines);
    }
}

/// After a finished line, reading goes on as if from the start: the lines
/// of `t` are appended to those already finished.
proof fn lemma_scan_lines_after_finished(u: Seq<char>, t: Seq<char>)
    requires
        scan_lines(u).1.len() == 0,
    ensures
        scan_lines(u + t) == (scan_lines(u).0 + scan_lines(t).0, scan_lines(t).1),
    decreases t.len(),
{
    if t.len() == 0 {
        assert(u + t =~= u);
        assert(scan_lines(u).0 + scan_lines(t).0 =~= scan_lines(u).0);
        assert(scan_lines(u).1 =~= scan_lines(t).1);
    } else {
        let p = t.drop_last();
        lemma_scan_lines_after_finished(u, p);
        assert((u + t).drop_last() =~= u + p);
        assert((u + t).last() == t.last());
        let d = scan_lines(u).0;
        let (a, c) = scan_lines(p);
        if t.last() == '\n' {
            assert(d + a.push(strip_cr(c)) =~= (d + a).push(strip_cr(c)));
        }
    }
}

/// Text without a line feed is read as one unfinished line.
proof fn lemma_scan_lines_no_newline(x: Seq<char>)
    requires
        !x.contains('\n'),
    ensures
        scan_lines(x) == (Seq::<Seq<char>>::empty(), x),
{
    lemma_scan_lines_append(Seq::empty(), x);
    assert(Seq::<char>::empty() + x =~= x);
    assert(Seq::<char>::empty() + x =~= x);
}

/// The lines of a text, as `str::lines` yields them:
/// - a text with no line feed is one line, or no line at all when empty;
/// - a line ended by `"\r\n"` loses the whole ending, whatever it holds
///   before it (an empty line too);
/// - a line ended by a lone `"\n"` loses the `'\n'` and keeps everything
///   else, as long as it does not end with `'\r'`;
/// and the lines after the ending are those of the rest of the text.
pub proof fn lemma_text_lines_split(x: Seq<char>, t: Seq<char>)
    requires
        !x.contains('\n'),
    ensures
        text_lines(Seq::empty()) == Seq::<Seq<char>>::empty(),
        x.len() > 0 ==> text_lines(x) == seq![x],
        text_lines(x + seq!['\r', '\n'] + t) == seq![x] + text_lines(t),
        (x.len() == 0 || x.last() != '\r') ==> text_lines(x + seq!['\n'] + t) == seq![x] + text_lines(t),
{
    lemma_scan_lines_no_newline(x);
    // "\r\n"
    let xr = x.push('\r');
    assert(!xr.contains('\n')) by {
        if xr.contains('\n') {
            let i = choose|i: int| 0 <= i < xr.len() && xr[i] == '\n';
            assert(x[i] == '\n');
        }
    }
    lemma_scan_lines_no_newline(xr);
    let u1 = x + seq!['\r', '\n'];
    assert(u1.drop_last() =~= xr);
    assert(strip_cr(xr) =~= x);
    assert(scan_lines(u1) == (seq![x], Seq::<char>::empty()));
    lemma_scan_lines_after_finished(u1, t);
    assert(u1 + t =~= x + seq!['\r', '\n'] + t);
    let (a1, c1) = scan_lines(t);
    assert(seq![x] + a1.push(c1) =~= (seq![x] + a1).push(c1));
    // lone "\n"
    if x.len() == 0 || x.last() != '\r' {
        let u2 = x + seq!['\n'];
        assert(u2.drop_last() =~= x);
        assert(strip_cr(x) == x);
        assert(scan_lines(u2) == (seq![x], Seq::<char>::empty()));
        lemma_scan_lines_after_finished(u2, t);
        assert(u2 + t =~= x + seq!['\n'] + t);
    }
    if x.len() > 0 {
        assert(Seq::<Seq<char>>::empty().push(x) =~= seq![x]);
    }
}

/// Each command does what its name says: every editing and moving command
/// carries out exactly the operation of the same name, and saving, opening
/// and ignored keys leave the buffer as it is.
pub proof fn lemma_commands_do_what_they_name(v: EditorView, s: Seq<char>)
    ensures
        v.applied(Command::MoveLeft) == v.moved_left(),
        v.applied(Command::MoveRight) == v.moved_right(),
        v.applied(Command::MoveUp) == v.moved_up(),
        v.applied(Command::MoveDown) == v.moved_down(),
        v.applied(Command::MoveHome) == v.moved_home(),
        v.applied(Command::MoveEnd) == v.moved_end(),
        v.applied(Command::Backspace) == v.backspaced(),
        v.applied(Command::Delete) == v.deleted(),
        v.applied(Command::Newline) == v.broken(),
        v.applied(Command::Insert(s)) == v.typed(s),
        v.applied(Command::Save) == v,
        v.applied(Command::SaveAs) == v,
        v.applied(Command::Open) == v,
        v.applied(Command::Ignore) == v,
{
}

/// Delete removes the character under the cursor and leaves the cursor
/// where it is; backspace removes the character before the cursor and moves
/// the cursor back over it. Other lines are untouched.
pub proof fn lemma_delete_and_backspace_remove_one_character(v: EditorView)
    requires
        v.wf(),
        v.cursor_in_line(),
    ensures
        v.col < v.cur().len() ==> {
            let d = v.applied(Command::Delete);
            &&& d.lines == v.lines.update(v.line, v.cur().remove(v.col))
            &&& d.line == v.line
            &&& d.col == v.col
            &&& d.dirty
        },
        v.col > 0 ==> {
            let b = v.applied(Command::Backspace);
            &&& b.lines == v.lines.update(v.line, v.cur().remove(v.col - 1))
            &&& b.line == v.line
            &&& b.col == v.col - 1
            &&& b.dirty
        },
{
    if v.col < v.cur().len() {
        assert(splice(v.cur(), v.col, v.col + 1, seq![]) =~= v.cur().remove(v.col));
    }
    if v.col > 0 {
        assert(splice(v.cur(), v.col - 1, v.col, seq![]) =~= v.cur().remove(v.col - 1));
    }
}

/// Home and End stay on the cursor's line and go to its first and past its
/// last character; up and down change the line by one and keep the column
/// where the new line allows. None of them changes the text.
pub proof fn lemma_moves_within_lines(v: EditorView)
    requires
        v.wf(),
    ensures
        v.moved_home().line == v.line && v.moved_home().col == 0,
        v.moved_end().line == v.line && v.moved_end().col == v.lines[v.line].len(),
        v.moved_home().lines == v.lines && v.moved_end().lines == v.lines,
        v.line > 0 ==> v.moved_up().line == v.line - 1 && (v.moved_up().col == v.col || (
        v.moved_up().col == v.lines[v.line - 1].len() && v.col > v.moved_up().col)),
        v.line == 0 ==> v.moved_up() == v,
        v.line + 1 < v.lines.len() ==> v.moved_down().line == v.line + 1 && (v.moved_down().col
            == v.col || (v.moved_down().col == v.lines[v.line + 1].len() && v.col
            > v.moved_down().col)),
        v.line + 1 == v.lines.len() ==> v.moved_down() == v,
{
}

/// Screen columns: the empty text takes no column, an ordinary character
/// one, and a tab moves to the next multiple of four, the smallest multiple
/// of four past the current column.
pub proof fn lemma_tab_stops(s: Seq<char>, c: char)
    ensures
        visual_width(Seq::empty()) == 0,
        c != '\t' ==> visual_width(s.push(c)) == visual_width(s) + 1,
        visual_width(s.push('\t')) % 4 == 0,
        visual_width(s) < visual_width(s.push('\t')) <= visual_width(s) + 4,
{
    assert(s.push(c).drop_last() =~= s);
    assert(s.push('\t').drop_last() =~= s);
    let w = visual_width(s);
    assert((w / 4 + 1) * 4 == w / 4 * 4 + 4) by (nonlinear_arith);
    assert(w / 4 * 4 <= w < w / 4 * 4 + 4) by (nonlinear_arith);
    assert(((w / 4 + 1) * 4) % 4 == 0) by (nonlinear_arith);
}

/// Editing and moving keys give their command whatever the modifiers and
/// whatever text the key produced.
pub proof fn lemma_named_keys_ignore_modifiers(ctrl: bool, shift: bool, text: Option<Seq<char>>)
    ensures
        key_command(EditKey::ArrowLeft, ctrl, shift, text) == Command::<Seq<char>>::MoveLeft,
        key_command(EditKey::ArrowRight, ctrl, shift, text) == Command::<Seq<char>>::MoveRight,
        key_command(EditKey::ArrowUp, ctrl, shift, text) == Command::<Seq<char>>::MoveUp,
        key_command(EditKey::ArrowDown, ctrl, shift, text) == Command::<Seq<char>>::MoveDown,
        key_command(EditKey::Home, ctrl, shift, text) == Command::<Seq<char>>::MoveHome,
        key_command(EditKey::End, ctrl, shift, text) == Command::<Seq<char>>::MoveEnd,
        key_command(EditKey::Backspace, ctrl, shift, text) == Command::<Seq<char>>::Backspace,
        key_command(EditKey::Delete, ctrl, shift, text) == Command::<Seq<char>>::Delete,
        key_command(EditKey::Enter, ctrl, shift, text) == Command::<Seq<char>>::Newline,
        key_command(EditKey::Tab, ctrl, shift, text) == Command::Insert(seq!['\t']),
{
}

/// With Control held, `s` saves (asking for a name when Shift is held too)
/// and `o` opens, in either case; without Control, a character key or an
/// unnamed key that produced text types that text.
pub proof fn lemma_control_and_text_keys(key: EditKey, shift: bool, text: Option<Seq<char>>)
    ensures
        (key matches EditKey::Character(c) && (c@ == seq!['s'] || c@ == seq!['S'])) ==> key_command(
            key,
            true,
            shift,
            text,
        ) == if shift {
            Command::<Seq<char>>::SaveAs
        } else {
            Command::<Seq<char>>::Save
        },
        (key matches EditKey::Character(c) && (c@ == seq!['o'] || c@ == seq!['O'])) ==> key_command(
            key,
            true,
            shift,
            text,
        ) == Command::<Seq<char>>::Open,
        (key is Character || key is Other) && text is Some ==> key_command(key, false, shift, text)
            == Command::Insert(text->0),
        (key is Character || key is Other) && text is None ==> key_command(key, false, shift, text)
            == Command::<Seq<char>>::Ignore,
        key is Other ==> key_command(key, true, shift, text) == Command::<Seq<char>>::Ignore,
{
    let (o, uo, s, us) = (seq!['o'], seq!['O'], seq!['s'], seq!['S']);
    assert(o[0] != s[0] && o[0] != us[0] && uo[0] != s[0] && uo[0] != us[0]);
}

} // verus!
