//! Locating the checkbox marker in a line and re-indenting a line while the
//! cursor stays anchored to the same character of the payload.
use vstd::prelude::*;
use crate::config::EditConfig;
use crate::text::{
    chars_of, find, find_chars, is_blank, lemma_find_contains, lemma_find_from_bounds, replace_at,
};

verus! {

/// The number of blank characters (spaces and tabs) that begin `s`.
pub open spec fn blank_run(s: Seq<char>) -> nat
    decreases s.len(),
{
    if s.len() > 0 && is_blank(s[0]) {
        1 + blank_run(s.drop_first())
    } else {
        0
    }
}

/// The number of times `c` occurs in `s`.
pub open spec fn count(s: Seq<char>, c: char) -> nat
    decreases s.len(),
{
    if s.len() == 0 {
        0
    } else {
        count(s.drop_last(), c) + if s.last() == c {
            1nat
        } else {
            0nat
        }
    }
}

/// The indentation depth of a line: each tab of its leading blanks is one level, and so
/// is each full `tab_width` of its leading spaces; a partial run of spaces counts nothing.
pub open spec fn indent_level(line: Seq<char>, tab_width: nat) -> nat
    recommends
        tab_width > 0,
{
    let lead = line.take(blank_run(line) as int);
    count(lead, '\t') + count(lead, ' ') / tab_width
}

/// The offset of whichever marker occurs first in `line`, or 0 where neither does.
pub open spec fn marker_position(line: Seq<char>, cfg: EditConfig) -> int {
    match (find(line, cfg.complete()), find(line, cfg.todo())) {
        (Some(i), Some(j)) => if i <= j {
            i
        } else {
            j
        },
        (Some(i), None) => i,
        (None, Some(j)) => j,
        (None, None) => 0,
    }
}

/// The cursor column that keeps the cursor's offset from the marker when the marker
/// moves from `old_pos` to `new_pos`; never left of the line start.
pub open spec fn anchored_col(col: int, old_pos: int, new_pos: int) -> int {
    if new_pos + col - old_pos < 0 {
        0
    } else {
        new_pos + col - old_pos
    }
}

/// The line with the marker that occurs first turned into the other one: a to-do marker
/// made complete, or a complete marker made a to-do (the to-do marker wins where both
/// start at the same offset); a line with neither stays as it is.
pub open spec fn toggled(line: Seq<char>, cfg: EditConfig) -> Seq<char> {
    match (find(line, cfg.todo()), find(line, cfg.complete())) {
        (Some(i), Some(j)) => if i <= j {
            replace_at(line, i, cfg.todo().len() as int, cfg.complete())
        } else {
            replace_at(line, j, cfg.complete().len() as int, cfg.todo())
        },
        (Some(i), None) => replace_at(line, i, cfg.todo().len() as int, cfg.complete()),
        (None, Some(j)) => replace_at(line, j, cfg.complete().len() as int, cfg.todo()),
        (None, None) => line,
    }
}

/// The number of spaces that begin `s`.
pub open spec fn space_run(s: Seq<char>) -> nat
    decreases s.len(),
{
    if s.len() > 0 && s[0] == ' ' {
        1 + space_run(s.drop_first())
    } else {
        0
    }
}

/// How many leading characters one unindent removes: one unit of indentation, that is a
/// tab where the line starts with one, otherwise up to `tab_width` leading spaces.
pub open spec fn unindent_cut(line: Seq<char>, tab_width: nat) -> nat {
    if line.len() > 0 && line[0] == '\t' {
        1
    } else if space_run(line) < tab_width {
        space_run(line)
    } else {
        tab_width
    }
}

/// The line after one unindent.
pub open spec fn unindented(line: Seq<char>, tab_width: nat) -> Seq<char> {
    line.skip(unindent_cut(line, tab_width) as int)
}

/// The line and cursor column after indenting by `unit`.
pub open spec fn indent_result(line: Seq<char>, col: int, unit: Seq<char>, cfg: EditConfig) -> (
    Seq<char>,
    int,
) {
    let new_line = unit + line;
    (new_line, anchored_col(col, marker_position(line, cfg), marker_position(new_line, cfg)))
}

/// The line and cursor column after one unindent.
pub open spec fn unindent_result(line: Seq<char>, col: int, cfg: EditConfig) -> (Seq<char>, int) {
    let new_line = unindented(line, cfg.tab_width as nat);
    (new_line, anchored_col(col, marker_position(line, cfg), marker_position(new_line, cfg)))
}

/// One level of indentation: `tab_width` spaces.
pub open spec fn indent_unit(cfg: EditConfig) -> Seq<char> {
    Seq::new(cfg.tab_width as nat, |i: int| ' ')
}

/// Characterises `blank_run`: the first `n` characters are blank and the next is not.
pub proof fn lemma_blank_run(s: Seq<char>, n: int)
    requires
        0 <= n <= s.len(),
        forall|i: int| 0 <= i < n ==> is_blank(#[trigger] s[i]),
        n == s.len() || !is_blank(s[n]),
    ensures
        blank_run(s) == n,
    decreases n,
{
    if n > 0 {
        let t = s.drop_first();
        assert forall|i: int| 0 <= i < n - 1 implies is_blank(#[trigger] t[i]) by {
            assert(t[i] == s[i + 1]);
        }
        if n < s.len() {
            assert(t[n - 1] == s[n]);
        }
        lemma_blank_run(t, n - 1);
    }
}

/// Appends `src[from..to]` to `out`.
pub fn append_range(out: &mut Vec<char>, src: &[char], from: usize, to: usize)
    requires
        from <= to <= src@.len(),
    ensures
        final(out)@ == old(out)@ + src@.subrange(from as int, to as int),
{
    let mut i = from;
    while i < to
        invariant
            from <= i <= to <= src@.len(),
            out@ == old(out)@ + src@.subrange(from as int, i as int),
        decreases to - i,
    {
        out.push(src[i]);
        i += 1;
        assert(out@ =~= old(out)@ + src@.subrange(from as int, i as int));
    }
}

/// The number of blank characters that begin `line`, and how many of them are tabs and
/// how many are spaces.
pub(crate) fn scan_blanks(line: &[char]) -> (r: (usize, usize, usize))
    ensures
        r.0 == blank_run(line@),
        r.1 == count(line@.take(r.0 as int), '\t'),
        r.2 == count(line@.take(r.0 as int), ' '),
        r.1 + r.2 == r.0,
        r.0 <= line@.len(),
{
    let mut i: usize = 0;
    let mut tabs: usize = 0;
    let mut spaces: usize = 0;
    while i < line.len() && (line[i] == ' ' || line[i] == '\t')
        invariant
            i <= line@.len(),
            forall|j: int| 0 <= j < i ==> is_blank(#[trigger] line@[j]),
            tabs == count(line@.take(i as int), '\t'),
            spaces == count(line@.take(i as int), ' '),
            tabs + spaces == i,
        decreases line.len() - i,
    {
        let ghost before = line@.take(i as int);
        assert(line@.take(i + 1).drop_last() =~= before);
        if line[i] == '\t' {
            tabs += 1;
        } else {
            spaces += 1;
        }
        i += 1;
    }
    proof {
        lemma_blank_run(line@, i as int);
    }
    (i, tabs, spaces)
}

/// The indentation depth of `line`.
pub fn indent_level_of(line: &[char], tab_width: u8) -> (r: usize)
    requires
        tab_width >= 1,
    ensures
        r == indent_level(line@, tab_width as nat),
{
    let (_, tabs, spaces) = scan_blanks(line);
    let tw = tab_width as usize;
    assert(spaces / tw <= spaces) by (nonlinear_arith)
        requires
            tw >= 1,
    ;
    tabs + spaces / tw
}

/// The offset of the first marker in `line`, or 0 where there is none.
pub fn marker_position_of(line: &[char], cfg: &EditConfig) -> (r: usize)
    ensures
        r == marker_position(line@, *cfg),
{
    let complete = chars_of(cfg.complete_str.as_str());
    let todo = chars_of(cfg.todo_str.as_str());
    match (find_chars(line, complete.as_slice()), find_chars(line, todo.as_slice())) {
        (Some(i), Some(j)) => if i <= j {
            i
        } else {
            j
        },
        (Some(i), None) => i,
        (None, Some(j)) => j,
        (None, None) => 0,
    }
}

/// The column that keeps the cursor's offset from a marker that moved.
pub fn anchor_col(col: usize, old_pos: usize, new_pos: usize) -> (r: usize)
    ensures
        anchored_col(col as int, old_pos as int, new_pos as int) <= usize::MAX ==> r
            == anchored_col(col as int, old_pos as int, new_pos as int),
{
    if col >= old_pos {
        let rel = col - old_pos;
        if rel <= usize::MAX - new_pos {
            new_pos + rel
        } else {
            usize::MAX
        }
    } else {
        let back = old_pos - col;
        if new_pos >= back {
            new_pos - back
        } else {
            0
        }
    }
}

/// `line` with the `len` characters at `at` replaced by `with`.
fn splice(line: &[char], at: usize, len: usize, with: &[char]) -> (r: Vec<char>)
    requires
        at + len <= line@.len(),
    ensures
        r@ == replace_at(line@, at as int, len as int, with@),
{
    let n = line.len();
    let mut r: Vec<char> = Vec::new();
    append_range(&mut r, line, 0, at);
    append_range(&mut r, with, 0, with.len());
    append_range(&mut r, line, at + len, n);
    assert(with@.subrange(0, with@.len() as int) =~= with@);
    r
}

/// The line with its checkbox marker toggled between to-do and complete.
pub fn toggle_marker(line: &[char], cfg: &EditConfig) -> (r: Vec<char>)
    ensures
        r@ == toggled(line@, *cfg),
{
    let complete = chars_of(cfg.complete_str.as_str());
    let todo = chars_of(cfg.todo_str.as_str());
    proof {
        lemma_find_contains(line@, todo@);
        lemma_find_contains(line@, complete@);
    }
    match (find_chars(line, todo.as_slice()), find_chars(line, complete.as_slice())) {
        (Some(i), Some(j)) => if i <= j {
            splice(line, i, todo.len(), complete.as_slice())
        } else {
            splice(line, j, complete.len(), todo.as_slice())
        },
        (Some(i), None) => splice(line, i, todo.len(), complete.as_slice()),
        (None, Some(j)) => splice(line, j, complete.len(), todo.as_slice()),
        (None, None) => {
            let mut r: Vec<char> = Vec::new();
            append_range(&mut r, line, 0, line.len());
            assert(line@.subrange(0, line@.len() as int) =~= line@);
            r
        },
    }
}

/// The line indented by `unit`, and the cursor column that keeps the cursor's offset
/// from the marker.
pub fn indent_line(line: &[char], col: usize, unit: &[char], cfg: &EditConfig) -> (r: (
    Vec<char>,
    usize,
))
    ensures
        r.0@ == indent_result(line@, col as int, unit@, *cfg).0,
        indent_result(line@, col as int, unit@, *cfg).1 <= usize::MAX ==> r.1 == indent_result(
            line@,
            col as int,
            unit@,
            *cfg,
        ).1,
{
    let old_pos = marker_position_of(line, cfg);
    let mut new_line: Vec<char> = Vec::new();
    append_range(&mut new_line, unit, 0, unit.len());
    append_range(&mut new_line, line, 0, line.len());
    assert(unit@.subrange(0, unit@.len() as int) =~= unit@);
    assert(line@.subrange(0, line@.len() as int) =~= line@);
    let new_pos = marker_position_of(new_line.as_slice(), cfg);
    (new_line, anchor_col(col, old_pos, new_pos))
}

/// How many leading characters one unindent removes.
fn unindent_cut_of(line: &[char], tab_width: u8) -> (r: usize)
    ensures
        r == unindent_cut(line@, tab_width as nat),
        r <= line@.len(),
{
    if line.len() > 0 && line[0] == '\t' {
        return 1;
    }
    let mut n: usize = 0;
    while n < line.len() && line[n] == ' '
        invariant
            n <= line@.len(),
            forall|i: int| 0 <= i < n ==> #[trigger] line@[i] == ' ',
        decreases line.len() - n,
    {
        n += 1;
    }
    proof {
        lemma_space_run(line@, n as int);
    }
    if n < tab_width as usize {
        n
    } else {
        tab_width as usize
    }
}

/// Characterises `space_run`: the first `n` characters are spaces and the next is not.
pub proof fn lemma_space_run(s: Seq<char>, n: int)
    requires
        0 <= n <= s.len(),
        forall|i: int| 0 <= i < n ==> #[trigger] s[i] == ' ',
        n == s.len() || s[n] != ' ',
    ensures
        space_run(s) == n,
    decreases n,
{
    if n > 0 {
        let t = s.drop_first();
        assert forall|i: int| 0 <= i < n - 1 implies #[trigger] t[i] == ' ' by {
            assert(t[i] == s[i + 1]);
        }
        if n < s.len() {
            assert(t[n - 1] == s[n]);
        }
        lemma_space_run(t, n - 1);
    }
}

/// A sequence that begins with `n` spaces has a space run of at least `n`.
pub proof fn lemma_space_run_at_least(s: Seq<char>, n: int)
    requires
        0 <= n <= s.len(),
        forall|i: int| 0 <= i < n ==> #[trigger] s[i] == ' ',
    ensures
        space_run(s) >= n,
    decreases n,
{
    if n > 0 {
        let t = s.drop_first();
        assert forall|i: int| 0 <= i < n - 1 implies #[trigger] t[i] == ' ' by {
            assert(t[i] == s[i + 1]);
        }
        lemma_space_run_at_least(t, n - 1);
    }
}

/// The line with one level of leading indentation removed, and the cursor column that
/// keeps the cursor's offset from the marker.
pub fn unindent_line(line: &[char], col: usize, cfg: &EditConfig) -> (r: (Vec<char>, usize))
    ensures
        r.0@ == unindent_result(line@, col as int, *cfg).0,
        unindent_result(line@, col as int, *cfg).1 <= usize::MAX ==> r.1 == unindent_result(
            line@,
            col as int,
            *cfg,
        ).1,
{
    let old_pos = marker_position_of(line, cfg);
    let cut = unindent_cut_of(line, cfg.tab_width);
    let mut new_line: Vec<char> = Vec::new();
    append_range(&mut new_line, line, cut, line.len());
    assert(new_line@ =~= line@.skip(cut as int));
    let new_pos = marker_position_of(new_line.as_slice(), cfg);
    (new_line, anchor_col(col, old_pos, new_pos))
}

/// Indenting a line and then unindenting it gives back the line, with the cursor at the
/// same offset past the marker, for any offset at or past the marker.
pub proof fn lemma_indent_unindent_anchor(line: Seq<char>, k: int, cfg: EditConfig)
    requires
        cfg.wf(),
        0 <= k,
    ensures
        ({
            let (l1, c1) = indent_result(
                line,
                marker_position(line, cfg) + k,
                indent_unit(cfg),
                cfg,
            );
            let (l2, c2) = unindent_result(l1, c1, cfg);
            c1 == marker_position(l1, cfg) + k && l2 == line && c2 == marker_position(line, cfg)
                + k
        }),
{
    let l1 = indent_unit(cfg) + line;
    lemma_indent_unindent_line(line, cfg);
    lemma_marker_position_nonneg(line, cfg);
    lemma_marker_position_nonneg(l1, cfg);
    lemma_marker_position_nonneg(unindented(l1, cfg.tab_width as nat), cfg);
}

/// A marker position is never negative.
pub proof fn lemma_marker_position_nonneg(line: Seq<char>, cfg: EditConfig)
    ensures
        marker_position(line, cfg) >= 0,
{
    lemma_find_from_bounds(line, cfg.complete(), 0);
    lemma_find_from_bounds(line, cfg.todo(), 0);
}

/// Indenting a line by one unit and then unindenting it gives back the line itself.
pub proof fn lemma_indent_unindent_line(line: Seq<char>, cfg: EditConfig)
    requires
        cfg.wf(),
    ensures
        unindented(indent_unit(cfg) + line, cfg.tab_width as nat) == line,
{
    let unit = indent_unit(cfg);
    let tw = cfg.tab_width as int;
    let l1 = unit + line;
    assert forall|i: int| 0 <= i < tw implies #[trigger] l1[i] == ' ' by {
        assert(l1[i] == unit[i]);
    }
    lemma_space_run_at_least(l1, tw);
    assert(l1[0] == ' ');
    assert(l1.skip(tw) =~= line);
}

/// One level of indentation as characters.
pub fn indent_unit_chars(cfg: &EditConfig) -> (r: Vec<char>)
    ensures
        r@ == indent_unit(*cfg),
{
    let mut unit: Vec<char> = Vec::new();
    let mut k: u8 = 0;
    while k < cfg.tab_width
        invariant
            k <= cfg.tab_width,
            unit@ == Seq::new(k as nat, |i: int| ' '),
        decreases cfg.tab_width - k,
    {
        unit.push(' ');
        k += 1;
        assert(unit@ =~= Seq::new(k as nat, |i: int| ' '));
    }
    unit
}

} // verus!
