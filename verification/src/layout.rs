use vstd::prelude::*;

use crate::text::clamp_col;

verus! {

/// Columns between consecutive tab stops.
pub const TAB_WIDTH: usize = 4;

/// The column at which the text after `s` starts on screen, when a tab
/// advances to the next multiple of `TAB_WIDTH` and every other character
/// takes one column.
pub open spec fn visual_width(s: Seq<char>) -> nat
    decreases s.len(),
{
    if s.len() == 0 {
        0
    } else {
        let before = visual_width(s.drop_last());
        if s.last() == '\t' {
            (before / 4 + 1) * 4
        } else {
            before + 1
        }
    }
}

/// Widths grow with the text: a prefix is never wider than the whole.
pub proof fn lemma_visual_width_prefix_le(s: Seq<char>, k: int)
    requires
        0 <= k <= s.len(),
    ensures
        visual_width(s.take(k)) <= visual_width(s),
    decreases s.len(),
{
    if k < s.len() {
        assert(s.drop_last().take(k) =~= s.take(k));
        lemma_visual_width_prefix_le(s.drop_last(), k);
    } else {
        assert(s.take(k) =~= s);
    }
}

/// The screen column of character column `char_col` in `line`, tabs
/// counting to the next multiple of four.
pub fn visual_col(line: &str, char_col: usize) -> (vcol: usize)
    requires
        visual_width(line@.take(clamp_col(line@, char_col as int))) <= usize::MAX,
    ensures
        vcol == visual_width(line@.take(clamp_col(line@, char_col as int))),
{
    let ghost s = line@;
    let ghost target = s.take(clamp_col(s, char_col as int));
    let mut vcol: usize = 0;
    let mut i: usize = 0;
    for ch in it: line.chars()
        invariant_except_break
            it.seq() == s,
            target == s.take(clamp_col(s, char_col as int)),
            i == it.index(),
            i <= char_col,
            vcol == visual_width(s.take(i as int)),
            visual_width(target) <= usize::MAX,
        ensures
            vcol == visual_width(target),
    {
        if i == char_col {
            break;
        }
        proof {
            assert(s.take(i + 1).drop_last() =~= s.take(i as int));
            assert(target.take(i + 1) =~= s.take(i + 1));
            lemma_visual_width_prefix_le(target, i + 1);
            assert(s.take(i + 1).last() == ch);
        }
        if ch == '\t' {
            vcol = (vcol / 4 + 1) * 4;
        } else {
            vcol = vcol + 1;
        }
        i = i + 1;
    }
    vcol
}

} // verus!
