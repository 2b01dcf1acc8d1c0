use vstd::prelude::*;
use vstd::string::*;

verus! {

/// The number of characters of `s` that lie before column `col`: `col`
/// itself, or the length of `s` when `col` is past its end.
pub open spec fn clamp_col(s: Seq<char>, col: int) -> int {
    if col < s.len() {
        col
    } else {
        s.len() as int
    }
}

/// `s` with the characters in `from..to` replaced by `mid`.
pub open spec fn splice(s: Seq<char>, from: int, to: int, mid: Seq<char>) -> Seq<char> {
    s.take(from) + mid + s.skip(to)
}

/// The contents of a list of strings, as character sequences.
pub open spec fn line_views(lines: Seq<String>) -> Seq<Seq<char>> {
    lines.map_values(|l: String| l@)
}

/// `s` without one carriage return at its end, if it has one.
pub open spec fn strip_cr(s: Seq<char>) -> Seq<char> {
    if s.len() > 0 && s.last() == '\r' {
        s.drop_last()
    } else {
        s
    }
}

/// Reading `s` from the left: the lines finished by a `'\n'` so far (each
/// without its line ending), and the characters read since the last `'\n'`.
pub open spec fn scan_lines(s: Seq<char>) -> (Seq<Seq<char>>, Seq<char>)
    decreases s.len(),
{
    if s.len() == 0 {
        (Seq::empty(), Seq::empty())
    } else {
        let (done, cur) = scan_lines(s.drop_last());
        if s.last() == '\n' {
            (done.push(strip_cr(cur)), Seq::empty())
        } else {
            (done, cur.push(s.last()))
        }
    }
}

/// The lines of `s` as `str::lines` yields them: split at `"\n"` or
/// `"\r\n"`, endings dropped, and no empty line after a final ending.
pub open spec fn text_lines(s: Seq<char>) -> Seq<Seq<char>> {
    let (done, cur) = scan_lines(s);
    if cur.len() == 0 {
        done
    } else {
        done.push(cur)
    }
}

/// The lines of `s` joined with `'\n'` between them.
pub open spec fn join_lines(lines: Seq<Seq<char>>) -> Seq<char>
    decreases lines.len(),
{
    if lines.len() == 0 {
        Seq::empty()
    } else if lines.len() == 1 {
        lines[0]
    } else {
        join_lines(lines.drop_last()) + seq!['\n'] + lines.last()
    }
}

/// `std::string::String::push` appends one character.
pub assume_specification[ String::push ](s: &mut String, ch: char)
    ensures
        final(s)@ == old(s)@.push(ch),
;

/// A new string holding `line` with `ch` inserted before character `at`.
pub fn insert_char_str(line: &str, at: usize, ch: char) -> (r: String)
    requires
        at <= line@.len(),
    ensures
        r@ == splice(line@, at as int, at as int, seq![ch]),
{
    let n = line.unicode_len();
    let mut r = String::from_str(line.substring_char(0, at));
    r.push(ch);
    r.append(line.substring_char(at, n));
    assert(line@.subrange(0, at as int) =~= line@.take(at as int));
    assert(line@.subrange(at as int, n as int) =~= line@.skip(at as int));
    assert(r@ =~= splice(line@, at as int, at as int, seq![ch]));
    r
}

/// A new string holding `line` without the characters in `from..to`.
pub fn remove_chars(line: &str, from: usize, to: usize) -> (r: String)
    requires
        from <= to <= line@.len(),
    ensures
        r@ == splice(line@, from as int, to as int, Seq::empty()),
{
    let n = line.unicode_len();
    let mut r = String::from_str(line.substring_char(0, from));
    r.append(line.substring_char(to, n));
    assert(line@.subrange(0, from as int) =~= line@.take(from as int));
    assert(line@.subrange(to as int, n as int) =~= line@.skip(to as int));
    assert(r@ =~= splice(line@, from as int, to as int, Seq::empty()));
    r
}

/// The characters `from..to` of `line` as a new string.
pub fn substring(line: &str, from: usize, to: usize) -> (r: String)
    requires
        from <= to <= line@.len(),
    ensures
        r@ == line@.subrange(from as int, to as int),
{
    String::from_str(line.substring_char(from, to))
}

/// The lines of `content` as `str::lines` yields them.
pub fn split_lines(content: &str) -> (lines: Vec<String>)
    ensures
        line_views(lines@) == text_lines(content@),
{
    let ghost s = content@;
    let mut lines: Vec<String> = Vec::new();
    let mut cur = String::new();
    proof {
        assert(s.take(0) =~= Seq::<char>::empty());
        assert(line_views(lines@) =~= Seq::<Seq<char>>::empty());
    }
    for ch in it: content.chars()
        invariant
            it.seq() == s,
            (line_views(lines@), cur@) == scan_lines(s.take(it.index())),
    {
        let ghost k = it.index();
        proof {
            assert(s.take(k + 1).drop_last() =~= s.take(k));
            assert(s.take(k + 1).last() == ch);
        }
        if ch == '\n' {
            let n = cur.as_str().unicode_len();
            let finished = if n > 0 && cur.as_str().get_char(n - 1) == '\r' {
                substring(cur.as_str(), 0, n - 1)
            } else {
                cur.clone()
            };
            proof {
                assert(cur@.subrange(0, n - 1) =~= cur@.drop_last());
            }
            lines.push(finished);
            cur = String::new();
            proof {
                assert(line_views(lines@) =~= scan_lines(s.take(k + 1)).0);
            }
        } else {
            cur.push(ch);
        }
    }
    proof {
        assert(s.take(s.len() as int) =~= s);
    }
    if !cur.as_str().is_empty() {
        lines.push(cur);
        proof {
            assert(line_views(lines@) =~= text_lines(s));
        }
    }
    lines
}

/// The strings of `lines` joined with `'\n'` between them.
pub fn join_with_newlines(lines: &Vec<String>) -> (r: String)
    ensures
        r@ == join_lines(line_views(lines@)),
{
    let ghost v = line_views(lines@);
    let mut r = String::new();
    for i in 0..lines.len()
        invariant
            v == line_views(lines@),
            r@ == join_lines(v.take(i as int)),
    {
        proof {
            assert(v.take(i + 1).drop_last() =~= v.take(i as int));
        }
        if i > 0 {
            r.push('\n');
        }
        r.append(lines[i].as_str());
        proof {
            if i == 0 {
                assert(v.take(1) =~= seq![v[0]]);
            }
        }
    }
    proof {
        assert(v.take(lines.len() as int) =~= v);
    }
    r
}

/// A new string holding `a` followed by `b`.
pub fn concat_str(a: &str, b: &str) -> (r: String)
    ensures
        r@ == a@ + b@,
{
    let mut r = String::from_str(a);
    r.append(b);
    r
}

} // verus!
