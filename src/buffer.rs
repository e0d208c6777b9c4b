//! The line buffer the editor works on: `tui_textarea::TextArea`, seen through the
//! text lines it holds, its cursor, its yank register and whether a selection is open.
use vstd::prelude::*;
use tui_textarea::{CursorMove, Scrolling, TextArea};
use crate::input::{Keystroke, KeyCode};
use crate::text::{is_white, string_views};

verus! {

/// A line buffer: a `tui_textarea::TextArea`, whose state the specifications below name.
#[verifier::external_body]
pub struct LineBuffer {
    pub area: TextArea<'static>,
}

#[verifier::external_type_specification]
#[verifier::external_body]
pub struct ExKey(tui_textarea::Key);

/// The lines of text a buffer holds.
pub uninterp spec fn lines_of(t: LineBuffer) -> Seq<Seq<char>>;

/// The (row, column) of a buffer's cursor; the column counts characters.
pub uninterp spec fn cursor_of(t: LineBuffer) -> (nat, nat);

/// The text of a buffer's yank register.
pub uninterp spec fn yank_of(t: LineBuffer) -> Seq<char>;

/// Where a buffer's open selection starts, if one is open.
pub uninterp spec fn selection_of(t: LineBuffer) -> Option<(nat, nat)>;

/// Whether a buffer has a selection open.
pub open spec fn selecting(t: LineBuffer) -> bool {
    selection_of(t) is Some
}

/// The position lies within the text of `lines`.
pub open spec fn within(lines: Seq<Seq<char>>, p: (nat, nat)) -> bool {
    p.0 < lines.len() && p.1 <= lines[p.0 as int].len()
}

/// Position `a` comes before position `b`.
pub open spec fn before(a: (nat, nat), b: (nat, nat)) -> bool {
    a.0 < b.0 || (a.0 == b.0 && a.1 < b.1)
}

/// The rows `from` up to `to` of `lines`, each followed by a line break.
pub open spec fn rows_text(lines: Seq<Seq<char>>, from: int, to: int) -> Seq<char>
    decreases to - from,
{
    if from >= to {
        Seq::empty()
    } else {
        lines[from] + seq!['\n'] + rows_text(lines, from + 1, to)
    }
}

/// The text from position `s` to position `e` (with `s` before `e`), line breaks included.
pub open spec fn text_between(lines: Seq<Seq<char>>, s: (nat, nat), e: (nat, nat)) -> Seq<char> {
    if s.0 == e.0 {
        lines[s.0 as int].subrange(s.1 as int, e.1 as int)
    } else {
        lines[s.0 as int].skip(s.1 as int) + seq!['\n'] + rows_text(lines, s.0 as int + 1, e.0 as int)
            + lines[e.0 as int].take(e.1 as int)
    }
}

/// The lines once the text from position `s` to position `e` (with `s` before `e`) is removed.
pub open spec fn lines_without(lines: Seq<Seq<char>>, s: (nat, nat), e: (nat, nat)) -> Seq<
    Seq<char>,
> {
    lines.take(s.0 as int).push(
        lines[s.0 as int].take(s.1 as int) + lines[e.0 as int].skip(e.1 as int),
    ) + lines.skip(e.0 as int + 1)
}

/// The open selection and the cursor lie within the text and differ; the first of the two
/// positions, then the second.
pub open spec fn selected_span(t: LineBuffer) -> Option<((nat, nat), (nat, nat))> {
    match selection_of(t) {
        Some(s) => if within(lines_of(t), s) && within(lines_of(t), cursor_of(t)) && s
            != cursor_of(t) {
            if before(s, cursor_of(t)) {
                Some((s, cursor_of(t)))
            } else {
                Some((cursor_of(t), s))
            }
        } else {
            None
        },
        None => None,
    }
}

/// A cursor movement the buffer can make.
#[derive(Clone, Copy, PartialEq, Eq, Debug)]
pub enum Motion {
    Forward,
    Back,
    Up,
    Down,
    WordForward,
    WordBack,
    Head,
    End,
    Top,
    Bottom,
    Jump(u16, u16),
}

/// A viewport scroll the buffer can make.
#[derive(Clone, Copy, PartialEq, Eq, Debug)]
pub enum Scroll {
    LineDown,
    LineUp,
    HalfPageDown,
    HalfPageUp,
    PageDown,
    PageUp,
}

/// The character a keystroke types as text: a character key without Ctrl or Alt that is
/// not a line break.
pub open spec fn typed_char(i: Keystroke) -> Option<char> {
    match i.key {
        KeyCode::Char(c) => if !i.ctrl && !i.alt && c != '\n' && c != '\r' {
            Some(c)
        } else {
            None
        },
        _ => None,
    }
}

/// The row of the cursor.
pub open spec fn row_of(t: LineBuffer) -> int {
    cursor_of(t).0 as int
}

/// The column of the cursor.
pub open spec fn col_of(t: LineBuffer) -> int {
    cursor_of(t).1 as int
}

/// The line the cursor is on.
pub open spec fn current_line(t: LineBuffer) -> Seq<char> {
    lines_of(t)[row_of(t)]
}

/// The buffer holds at least one line and the cursor lies within its text.
pub open spec fn well_placed(t: LineBuffer) -> bool {
    &&& lines_of(t).len() > 0
    &&& row_of(t) < lines_of(t).len()
    &&& col_of(t) <= current_line(t).len()
}

/// How word motions class a character: white space, ASCII punctuation, or anything else.
pub open spec fn char_kind(c: char) -> int {
    let u = c as u32;
    if is_white(c) {
        0
    } else if (0x21 <= u && u <= 0x2f) || (0x3a <= u && u <= 0x40) || (0x5b <= u && u <= 0x60) || (
    0x7b <= u && u <= 0x7e) {
        1
    } else {
        2
    }
}

/// A word starts at `col`: its character is not white space and differs in kind from the
/// one before it.
pub open spec fn word_starts_at(line: Seq<char>, col: int) -> bool {
    1 <= col < line.len() && char_kind(line[col]) != 0 && char_kind(line[col - 1]) != char_kind(
        line[col],
    )
}

/// The first word start at or after `col`.
pub open spec fn word_start_from(line: Seq<char>, col: int) -> Option<int>
    decreases line.len() - col,
{
    if col < 1 || col >= line.len() {
        None
    } else if word_starts_at(line, col) {
        Some(col)
    } else {
        word_start_from(line, col + 1)
    }
}

/// The next word start after `col` on the line, if any.
pub open spec fn word_start_forward(line: Seq<char>, col: int) -> Option<int> {
    if col >= line.len() {
        None
    } else {
        word_start_from(line, col + 1)
    }
}

/// The last word start at or before `col`, counting the start of the line when its first
/// character is not white space.
pub open spec fn word_start_down_from(line: Seq<char>, col: int) -> Option<int>
    decreases col,
{
    if col <= 0 {
        if line.len() > 0 && char_kind(line[0]) != 0 {
            Some(0)
        } else {
            None
        }
    } else if word_starts_at(line, col) {
        Some(col)
    } else {
        word_start_down_from(line, col - 1)
    }
}

/// The word start before `col` on the line, if any.
pub open spec fn word_start_backward(line: Seq<char>, col: int) -> Option<int> {
    if col <= 0 {
        None
    } else {
        word_start_down_from(line, col - 1)
    }
}

/// `s` cut at its line breaks, as `str::split('\n')` cuts it: one piece more than it has
/// line breaks.
pub open spec fn split_breaks(s: Seq<char>) -> Seq<Seq<char>>
    decreases s.len(),
{
    if s.len() == 0 {
        seq![Seq::empty()]
    } else {
        let p = split_breaks(s.drop_last());
        if s.last() == '\n' {
            p.push(Seq::empty())
        } else {
            p.update(p.len() - 1, p.last().push(s.last()))
        }
    }
}

/// The lines once `pieces` are inserted at row `r`, column `c`: the first piece joins the
/// text before the column, the last one the text after it, and any between become lines
/// of their own.
pub open spec fn insert_pieces(lines: Seq<Seq<char>>, r: int, c: int, pieces: Seq<Seq<char>>) -> Seq<
    Seq<char>,
> {
    let line = lines[r];
    if pieces.len() == 1 {
        lines.update(r, line.take(c) + pieces[0] + line.skip(c))
    } else {
        lines.take(r).push(line.take(c) + pieces[0]) + pieces.subrange(1, pieces.len() - 1)
            + seq![pieces.last() + line.skip(c)] + lines.skip(r + 1)
    }
}

/// Where the cursor stands after `pieces` are inserted at row `r`, column `c`: just past
/// the last piece.
pub open spec fn inserted_cursor(r: int, c: int, pieces: Seq<Seq<char>>) -> (nat, nat) {
    if pieces.len() == 1 {
        (r as nat, (c + pieces[0].len()) as nat)
    } else {
        ((r + pieces.len() - 1) as nat, pieces.last().len())
    }
}

/// The text, and the position where an insertion goes, once an open selection has been
/// deleted; `None` where the selection does not lie within the text.
pub open spec fn after_selection_removed(t: LineBuffer) -> Option<
    (Seq<Seq<char>>, (nat, nat)),
> {
    match selection_of(t) {
        None => Some((lines_of(t), cursor_of(t))),
        Some(s) => match selected_span(t) {
            Some((a, b)) => Some((lines_without(lines_of(t), a, b), a)),
            None => if s == cursor_of(t) {
                Some((lines_of(t), cursor_of(t)))
            } else {
                None
            },
        },
    }
}

/// A line break followed by a line is two pieces: an empty one and the line.
pub proof fn lemma_split_break_line(s: Seq<char>)
    requires
        !s.contains('\n'),
    ensures
        split_breaks(seq!['\n'] + s) == seq![Seq::<char>::empty(), s],
    decreases s.len(),
{
    let u = seq!['\n'] + s;
    if s.len() == 0 {
        assert(u.drop_last() =~= Seq::<char>::empty());
        assert(s =~= Seq::<char>::empty());
        assert(split_breaks(Seq::<char>::empty()) == seq![Seq::<char>::empty()]);
        assert(u.last() == '\n');
        assert(split_breaks(u) =~= seq![Seq::<char>::empty(), s]);
    } else {
        let t = s.drop_last();
        assert(!t.contains('\n')) by {
            if t.contains('\n') {
                let i = choose|i: int| 0 <= i < t.len() && t[i] == '\n';
                assert(s[i] == '\n');
            }
        }
        lemma_split_break_line(t);
        assert(u.drop_last() =~= seq!['\n'] + t);
        assert(u.last() == s[s.len() - 1]);
        assert(s[s.len() - 1] != '\n');
        assert(t.push(s.last()) =~= s);
        assert(split_breaks(u.drop_last()) == seq![Seq::<char>::empty(), t]);
        assert(split_breaks(u) =~= seq![Seq::<char>::empty(), s]);
    }
}

/// Text without line breaks is a single piece.
pub proof fn lemma_split_one_line(s: Seq<char>)
    requires
        !s.contains('\n'),
    ensures
        split_breaks(s) == seq![s],
    decreases s.len(),
{
    if s.len() > 0 {
        let t = s.drop_last();
        assert(!t.contains('\n')) by {
            if t.contains('\n') {
                let i = choose|i: int| 0 <= i < t.len() && t[i] == '\n';
                assert(s[i] == '\n');
            }
        }
        lemma_split_one_line(t);
        assert(s.last() != '\n') by {
            assert(s[s.len() - 1] == s.last());
        }
        assert(t.push(s.last()) =~= s);
        assert(split_breaks(s) =~= seq![s]);
    } else {
        assert(s =~= Seq::<char>::empty());
    }
}

/// `s` without each carriage return that ends it or stands just before a line break.
pub open spec fn cr_dropped(s: Seq<char>) -> Seq<char>
    decreases s.len(),
{
    if s.len() == 0 {
        s
    } else if s[0] == '\r' && (s.len() == 1 || s[1] == '\n') {
        cr_dropped(s.drop_first())
    } else {
        seq![s[0]] + cr_dropped(s.drop_first())
    }
}

/// Text without carriage returns loses nothing to `cr_dropped`.
pub proof fn lemma_cr_dropped_plain(s: Seq<char>)
    requires
        !s.contains('\r'),
    ensures
        cr_dropped(s) == s,
    decreases s.len(),
{
    if s.len() > 0 {
        let t = s.drop_first();
        assert(!t.contains('\r')) by {
            if t.contains('\r') {
                let i = choose|i: int| 0 <= i < t.len() && t[i] == '\r';
                assert(s[i + 1] == '\r');
            }
        }
        lemma_cr_dropped_plain(t);
        assert(s[0] != '\r');
        assert(seq![s[0]] + t =~= s);
    }
}

/// `col` limited to the length of `line`.
pub open spec fn fit_col(col: int, line: Seq<char>) -> int {
    if col <= line.len() {
        col
    } else {
        line.len() as int
    }
}

/// Where the cursor goes for a motion, as the buffer computes it; `None` where it stays.
pub open spec fn motion_target(m: Motion, lines: Seq<Seq<char>>, row: int, col: int) -> Option<
    (int, int),
> {
    match m {
        Motion::Forward => if col >= lines[row].len() {
            if row + 1 < lines.len() {
                Some((row + 1, 0))
            } else {
                None
            }
        } else {
            Some((row, col + 1))
        },
        Motion::Back => if col == 0 {
            if row == 0 {
                None
            } else {
                Some((row - 1, lines[row - 1].len() as int))
            }
        } else {
            Some((row, col - 1))
        },
        Motion::Up => if row == 0 {
            None
        } else {
            Some((row - 1, fit_col(col, lines[row - 1])))
        },
        Motion::Down => if row + 1 < lines.len() {
            Some((row + 1, fit_col(col, lines[row + 1])))
        } else {
            None
        },
        Motion::Head => Some((row, 0)),
        Motion::End => Some((row, lines[row].len() as int)),
        Motion::Top => Some((0, fit_col(col, lines[0]))),
        Motion::Bottom => Some(
            (lines.len() - 1, fit_col(col, lines[lines.len() - 1])),
        ),
        Motion::Jump(r, c) => {
            let row = if r < lines.len() {
                r as int
            } else {
                lines.len() - 1
            };
            Some((row, fit_col(c as int, lines[row])))
        },
        Motion::WordForward => match word_start_forward(lines[row], col) {
            Some(c) => Some((row, c)),
            None => if row + 1 < lines.len() {
                Some((row + 1, 0))
            } else {
                Some((row, lines[row].len() as int))
            },
        },
        Motion::WordBack => match word_start_backward(lines[row], col) {
            Some(c) => Some((row, c)),
            None => if row > 0 {
                Some((row - 1, lines[row - 1].len() as int))
            } else {
                Some((row, 0))
            },
        },
    }
}

/// The lines a new buffer holds: the given ones, or a single empty line where none are given.
pub open spec fn initial_lines(lines: Seq<Seq<char>>) -> Seq<Seq<char>> {
    if lines.len() == 0 {
        seq![Seq::empty()]
    } else {
        lines
    }
}

/// Relies on `TextArea::new`: the buffer holds the given lines (one empty line where
/// there are none), the cursor at the start, no selection and an empty yank register.
#[verifier::external_body]
pub(crate) fn new_buffer(lines: Vec<String>) -> (r: LineBuffer)
    ensures
        lines_of(r) == initial_lines(string_views(lines@)),
        cursor_of(r) == (0nat, 0nat),
        !selecting(r),
        yank_of(r) == Seq::<char>::empty(),
{
    LineBuffer { area: TextArea::new(lines) }
}

/// Relies on `TextArea::cursor`: the cursor position.
#[verifier::external_body]
pub(crate) fn cursor(t: &LineBuffer) -> (r: (usize, usize))
    ensures
        r.0 as nat == cursor_of(*t).0,
        r.1 as nat == cursor_of(*t).1,
{
    t.area.cursor()
}

/// Relies on `TextArea::lines`: the text lines, copied out.
#[verifier::external_body]
pub(crate) fn lines(t: &LineBuffer) -> (r: Vec<String>)
    ensures
        string_views(r@) == lines_of(*t),
{
    t.area.lines().to_vec()
}

/// Relies on `TextArea::yank_text`: the text of the yank register.
#[verifier::external_body]
pub(crate) fn yank_text(t: &LineBuffer) -> (r: String)
    ensures
        r@ == yank_of(*t),
{
    t.area.yank_text()
}

/// Relies on `TextArea::set_yank_text`: the register is split at newlines, a carriage
/// return is dropped from the end of each piece, and reading it joins the pieces again,
/// which gives `cr_dropped` of the text.
#[verifier::external_body]
pub(crate) fn set_yank_text(t: &mut LineBuffer, s: String)
    ensures
        lines_of(*final(t)) == lines_of(*old(t)),
        cursor_of(*final(t)) == cursor_of(*old(t)),
        selection_of(*final(t)) == selection_of(*old(t)),
        yank_of(*final(t)) == cr_dropped(s@),
{
    t.area.set_yank_text(s)
}

/// Relies on `TextArea::move_cursor` (with `find_word_start_forward` and
/// `find_word_start_backward` for word motions): the cursor goes where `motion_target`
/// says; text, register and selection stay.
#[verifier::external_body]
pub(crate) fn move_cursor(t: &mut LineBuffer, m: Motion)
    requires
        lines_of(*old(t)).len() > 0,
        m is Jump || well_placed(*old(t)),
    ensures
        lines_of(*final(t)) == lines_of(*old(t)),
        yank_of(*final(t)) == yank_of(*old(t)),
        selection_of(*final(t)) == selection_of(*old(t)),
        match motion_target(
            m,
            lines_of(*old(t)),
            row_of(*old(t)),
            col_of(*old(t)),
        ) {
            Some((r, c)) => row_of(*final(t)) == r && col_of(*final(t)) == c,
            None => cursor_of(*final(t)) == cursor_of(*old(t)),
        },
{
    t.area.move_cursor(match m {
        Motion::Forward => CursorMove::Forward,
        Motion::Back => CursorMove::Back,
        Motion::Up => CursorMove::Up,
        Motion::Down => CursorMove::Down,
        Motion::WordForward => CursorMove::WordForward,
        Motion::WordBack => CursorMove::WordBack,
        Motion::Head => CursorMove::Head,
        Motion::End => CursorMove::End,
        Motion::Top => CursorMove::Top,
        Motion::Bottom => CursorMove::Bottom,
        Motion::Jump(r, c) => CursorMove::Jump(r, c),
    })
}

/// Relies on `TextArea::start_selection`: a selection opens at the cursor; nothing else changes.
#[verifier::external_body]
pub(crate) fn start_selection(t: &mut LineBuffer)
    ensures
        lines_of(*final(t)) == lines_of(*old(t)),
        cursor_of(*final(t)) == cursor_of(*old(t)),
        yank_of(*final(t)) == yank_of(*old(t)),
        selection_of(*final(t)) == Some(cursor_of(*old(t))),
{
    t.area.start_selection()
}

/// Relies on `TextArea::cancel_selection`: the selection closes; nothing else changes.
#[verifier::external_body]
pub(crate) fn cancel_selection(t: &mut LineBuffer)
    ensures
        lines_of(*final(t)) == lines_of(*old(t)),
        cursor_of(*final(t)) == cursor_of(*old(t)),
        yank_of(*final(t)) == yank_of(*old(t)),
        !selecting(*final(t)),
{
    t.area.cancel_selection()
}

/// Relies on `TextArea::insert_str`: an open selection is deleted first (without touching
/// the yank register); then the text, split at its line breaks, is inserted where the
/// cursor stands, and the cursor moves past it.
#[verifier::external_body]
pub(crate) fn insert_str(t: &mut LineBuffer, s: &str)
    requires
        well_placed(*old(t)),
    ensures
        lines_of(*old(t)).len() > 0 ==> lines_of(*final(t)).len() > 0,
        match after_selection_removed(*old(t)) {
            Some((ls, p)) => !s@.contains('\r') ==> lines_of(*final(t)) == insert_pieces(
                ls,
                p.0 as int,
                p.1 as int,
                split_breaks(s@),
            ) && cursor_of(*final(t)) == inserted_cursor(
                p.0 as int,
                p.1 as int,
                split_breaks(s@),
            ),
            None => true,
        },
        yank_of(*final(t)) == yank_of(*old(t)),
        !selecting(*final(t)),
{
    t.area.insert_str(s);
}

/// Relies on `TextArea::insert_newline`: with no selection open, the line is split at the
/// cursor, which moves to the start of the new line.
#[verifier::external_body]
pub(crate) fn insert_newline(t: &mut LineBuffer)
    requires
        well_placed(*old(t)),
        !selecting(*old(t)),
    ensures
        lines_of(*old(t)).len() > 0 ==> lines_of(*final(t)).len() > 0,
        lines_of(*final(t)) == lines_of(*old(t)).update(
            row_of(*old(t)),
            current_line(*old(t)).take(col_of(*old(t))),
        ).insert(row_of(*old(t)) + 1, current_line(*old(t)).skip(col_of(*old(t)))),
        cursor_of(*final(t)) == ((row_of(*old(t)) + 1) as nat, 0nat),
        yank_of(*final(t)) == yank_of(*old(t)),
        !selecting(*final(t)),
{
    t.area.insert_newline()
}

/// Relies on `TextArea::delete_line_by_end`: with no selection open and the cursor before
/// the end of its line, the rest of the line is removed into the yank register.
#[verifier::external_body]
pub(crate) fn delete_line_by_end(t: &mut LineBuffer)
    requires
        well_placed(*old(t)),
    ensures
        lines_of(*old(t)).len() > 0 ==> lines_of(*final(t)).len() > 0,
        well_placed(*old(t)) && !selecting(*old(t)) && col_of(*old(t)) < current_line(
            *old(t),
        ).len() ==> {
            &&& lines_of(*final(t)) == lines_of(*old(t)).update(
                row_of(*old(t)),
                current_line(*old(t)).take(col_of(*old(t))),
            )
            &&& cursor_of(*final(t)) == cursor_of(*old(t))
            &&& yank_of(*final(t)) == current_line(*old(t)).skip(col_of(*old(t)))
            &&& !selecting(*final(t))
        },
{
    t.area.delete_line_by_end();
}

/// Relies on `TextArea::delete_next_char`: with no selection open and the cursor before
/// the end of its line, the character under the cursor is removed; the cursor and the
/// yank register stay.
#[verifier::external_body]
pub(crate) fn delete_next_char(t: &mut LineBuffer)
    requires
        well_placed(*old(t)),
    ensures
        lines_of(*old(t)).len() > 0 ==> lines_of(*final(t)).len() > 0,
        well_placed(*old(t)) && !selecting(*old(t)) && col_of(*old(t)) < current_line(
            *old(t),
        ).len() ==> {
            &&& lines_of(*final(t)) == lines_of(*old(t)).update(
                row_of(*old(t)),
                current_line(*old(t)).take(col_of(*old(t))) + current_line(*old(t)).skip(
                    col_of(*old(t)) + 1,
                ),
            )
            &&& cursor_of(*final(t)) == cursor_of(*old(t))
            &&& yank_of(*final(t)) == yank_of(*old(t))
        },
{
    t.area.delete_next_char();
}

/// Relies on `TextArea::copy`: the selected text goes to the yank register and the
/// selection closes; the text and the cursor stay, and a selection that starts at the
/// cursor copies nothing. A selection starts where the cursor stood and every edit closes
/// it, so its start lies within the text.
#[verifier::external_body]
pub(crate) fn copy(t: &mut LineBuffer)
    ensures
        lines_of(*final(t)) == lines_of(*old(t)),
        cursor_of(*final(t)) == cursor_of(*old(t)),
        !selecting(*final(t)),
        selection_of(*old(t)) == Some(cursor_of(*old(t))) ==> yank_of(*final(t)) == yank_of(
            *old(t),
        ),
        selected_span(*old(t)) matches Some((s, e)) ==> yank_of(*final(t)) == text_between(
            lines_of(*old(t)),
            s,
            e,
        ),
{
    t.area.copy()
}

/// Relies on `TextArea::cut`: the selected text is removed into the yank register, the
/// cursor goes to where it began and the selection closes; with no selection open, or one
/// that starts at the cursor, nothing else changes. A selection starts where the cursor
/// stood and every edit closes it, so its start lies within the text.
#[verifier::external_body]
pub(crate) fn cut(t: &mut LineBuffer)
    ensures
        lines_of(*old(t)).len() > 0 ==> lines_of(*final(t)).len() > 0,
        !selecting(*final(t)),
        !selecting(*old(t)) || selection_of(*old(t)) == Some(cursor_of(*old(t))) ==> lines_of(
            *final(t),
        ) == lines_of(*old(t)) && cursor_of(*final(t)) == cursor_of(*old(t)) && yank_of(
            *final(t),
        ) == yank_of(*old(t)),
        selected_span(*old(t)) matches Some((s, e)) ==> {
            &&& lines_of(*final(t)) == lines_without(lines_of(*old(t)), s, e)
            &&& cursor_of(*final(t)) == s
            &&& yank_of(*final(t)) == text_between(lines_of(*old(t)), s, e)
        },
{
    t.area.cut();
}

/// Relies on `TextArea::undo`: the yank register stays, and no edit it reverts removes
/// the last line.
#[verifier::external_body]
pub(crate) fn undo(t: &mut LineBuffer)
    ensures
        lines_of(*old(t)).len() > 0 ==> lines_of(*final(t)).len() > 0,
        yank_of(*final(t)) == yank_of(*old(t)),
{
    t.area.undo();
}

/// Relies on `TextArea::redo`: the yank register stays, and no edit it repeats removes
/// the last line.
#[verifier::external_body]
pub(crate) fn redo(t: &mut LineBuffer)
    ensures
        lines_of(*old(t)).len() > 0 ==> lines_of(*final(t)).len() > 0,
        yank_of(*final(t)) == yank_of(*old(t)),
{
    t.area.redo();
}

/// Relies on `TextArea::scroll`: the viewport moves and the cursor is kept inside it; the
/// text, the register and the selection state stay.
#[verifier::external_body]
pub(crate) fn scroll(t: &mut LineBuffer, s: Scroll)
    requires
        lines_of(*old(t)).len() > 0,
    ensures
        lines_of(*final(t)) == lines_of(*old(t)),
        yank_of(*final(t)) == yank_of(*old(t)),
        selection_of(*final(t)) == selection_of(*old(t)),
{
    t.area.scroll(match s {
        Scroll::LineDown => Scrolling::Delta { rows: 1, cols: 0 },
        Scroll::LineUp => Scrolling::Delta { rows: -1, cols: 0 },
        Scroll::HalfPageDown => Scrolling::HalfPageDown,
        Scroll::HalfPageUp => Scrolling::HalfPageUp,
        Scroll::PageDown => Scrolling::PageDown,
        Scroll::PageUp => Scrolling::PageUp,
    })
}

/// Relies on `TextArea::input`: the buffer's own handling of a key typed in insert mode,
/// which ends with the text non-empty and the cursor within it (it asserts so);
/// a character other than a line break, typed without Ctrl or Alt while no selection is
/// open, is inserted at the cursor, which moves past it.
#[verifier::external_body]
pub(crate) fn input(t: &mut LineBuffer, i: Keystroke)
    requires
        well_placed(*old(t)),
    ensures
        well_placed(*final(t)),
        match typed_char(i) {
            Some(c) => !selecting(*old(t)) ==> {
                &&& lines_of(*final(t)) == lines_of(*old(t)).update(
                    row_of(*old(t)),
                    current_line(*old(t)).take(col_of(*old(t))) + seq![c] + current_line(
                        *old(t),
                    ).skip(col_of(*old(t))),
                )
                &&& row_of(*final(t)) == row_of(*old(t))
                &&& col_of(*final(t)) == col_of(*old(t)) + 1
                &&& yank_of(*final(t)) == yank_of(*old(t))
                &&& !selecting(*final(t))
            },
            None => true,
        },
{
    let key = match i.key {
        KeyCode::Char(c) => tui_textarea::Key::Char(c),
        KeyCode::Enter => tui_textarea::Key::Enter,
        KeyCode::Esc => tui_textarea::Key::Esc,
        KeyCode::Null => tui_textarea::Key::Null,
        KeyCode::Other(k) => k,
    };
    t.area.input(tui_textarea::Input { key, ctrl: i.ctrl, alt: i.alt, shift: i.shift });
}

} // verus!
