//! Running the engine's commands on the line buffer, and the editing session that
//! turns a note's entries into lines and back.
use vstd::prelude::*;
use crate::buffer::{
    initial_lines, new_buffer, typed_char, lines_without, rows_text, selected_span, selection_of, text_between,
    cancel_selection, col_of, copy, current_line, cursor, cursor_of, cut, delete_line_by_end,
    delete_next_char, fit_col, input, insert_newline, insert_str, lines, lines_of, motion_target,
    move_cursor, redo, after_selection_removed, insert_pieces, inserted_cursor, split_breaks,
    lemma_split_one_line, lemma_split_break_line, lemma_cr_dropped_plain, cr_dropped, row_of, scroll, selecting, set_yank_text, start_selection,
    undo, well_placed, yank_of, yank_text, LineBuffer, Motion,
};
use crate::codec::{decode_lines, decoded, encode_item, encode_items, encoded, encoded_line, views_of_items};
use crate::config::EditConfig;
use crate::line::{
    append_range,
    indent_level, indent_line, indent_unit_chars, indent_level_of, indent_result, indent_unit, toggle_marker,
    toggled, unindent_line, unindent_result,
};
use crate::note::{ToDo, ToDoModel};
use crate::text::{chars_of, string_of, string_views};
use crate::vim::{decide, direct, mode_wf, next_state, null_keystroke, plain_is, Command, Mode, Step, Transition, Vim};
use crate::input::Keystroke;

verus! {

/// The largest row or column a cursor jump can name.
pub const JUMP_MAX: u16 = 65535;

/// Text the buffer can take as one line: no line break and no carriage return.
pub open spec fn one_line(s: Seq<char>) -> bool {
    !s.contains('\n') && !s.contains('\r')
}

/// The buffer's text and yank register are as before.
pub open spec fn same_text(old: LineBuffer, new: LineBuffer) -> bool {
    lines_of(new) == lines_of(old) && yank_of(new) == yank_of(old)
}

/// The current line was replaced by `line`, the cursor jumped to `col` on it (where the
/// row and column can be named by a jump), the yank register is as before and no
/// selection is open.
pub open spec fn line_replaced(old: LineBuffer, new: LineBuffer, line: Seq<char>, col: int) -> bool {
    &&& lines_of(new) == lines_of(old).update(row_of(old), line)
    &&& row_of(old) <= JUMP_MAX && 0 <= col <= JUMP_MAX ==> row_of(new) == row_of(old)
        && col_of(new) == fit_col(col, line)
    &&& yank_of(new) == yank_of(old)
    &&& !selecting(new)
}

/// The register holds whole lines: its text ends with a line break.
pub open spec fn line_wise(y: Seq<char>) -> bool {
    y.len() > 0 && y.last() == '\n'
}

/// The line a new item opens with: the indentation of the current line and a to-do marker.
pub open spec fn opened_line(old: LineBuffer, cfg: EditConfig) -> Seq<char> {
    encoded_line(
        ToDoModel {
            indent: indent_level(current_line(old), cfg.tab_width as nat),
            complete: false,
            data: Seq::empty(),
        },
        cfg,
    )
}

/// What running command `c` does to the buffer, going from `old` to `new`: a buffer with
/// text keeps some, and the command has the effect `command_change` gives it.
pub open spec fn command_effect(c: Command, cfg: EditConfig, old: LineBuffer, new: LineBuffer) -> bool {
    &&& lines_of(old).len() > 0 ==> lines_of(new).len() > 0
    &&& command_change(c, cfg, old, new)
}

/// What command `c` does to the text, cursor, register and selection. Where the cursor of
/// `old` does not lie within its text the editing commands leave it alone.
pub open spec fn command_change(c: Command, cfg: EditConfig, old: LineBuffer, new: LineBuffer) -> bool {
    match c {
        Command::Nothing => new == old,
        Command::NewItem => well_placed(old) && one_line(cfg.todo()) ==> {
            &&& lines_of(new) == lines_of(old).update(
                row_of(old),
                cfg.todo() + current_line(old),
            )
            &&& row_of(new) == row_of(old) && col_of(new) == cfg.todo().len()
            &&& yank_of(new) == yank_of(old)
        },
        Command::ToggleMarker => well_placed(old) && one_line(toggled(current_line(old), cfg))
            ==> line_replaced(old, new, toggled(current_line(old), cfg), col_of(old)),
        Command::Indent => {
            let (line, col) = indent_result(current_line(old), col_of(old), indent_unit(cfg), cfg);
            well_placed(old) && one_line(line) ==> line_replaced(old, new, line, col)
        },
        Command::Unindent => {
            let (line, col) = unindent_result(current_line(old), col_of(old), cfg);
            well_placed(old) && one_line(line) ==> line_replaced(old, new, line, col)
        },
        Command::OpenBelow => well_placed(old) && one_line(opened_line(old, cfg)) ==> {
            &&& lines_of(new) == lines_of(old).insert(row_of(old) + 1, opened_line(old, cfg))
            &&& row_of(new) == row_of(old) + 1 && col_of(new) == opened_line(old, cfg).len()
            &&& yank_of(new) == yank_of(old)
        },
        Command::OpenAbove => well_placed(old) && one_line(opened_line(old, cfg)) ==> {
            &&& lines_of(new) == lines_of(old).insert(row_of(old), opened_line(old, cfg))
            &&& row_of(new) == row_of(old) && col_of(new) == opened_line(old, cfg).len()
            &&& yank_of(new) == yank_of(old)
        },
        Command::Move(m) => well_placed(old) ==> {
            &&& same_text(old, new)
            &&& selection_of(new) == selection_of(old)
            &&& match motion_target(
                m,
                lines_of(old),
                row_of(old),
                col_of(old),
            ) {
                Some((r, c)) => row_of(new) == r && col_of(new) == c,
                None => cursor_of(new) == cursor_of(old),
            }
        },
        Command::MoveInLine(m) => well_placed(old) ==> {
            &&& same_text(old, new)
            &&& row_of(old) <= JUMP_MAX && col_of(old) <= JUMP_MAX ==> row_of(new) == row_of(old)
            &&& row_of(old) <= JUMP_MAX && col_of(old) <= JUMP_MAX ==> match motion_target(
                m,
                lines_of(old),
                row_of(old),
                col_of(old),
            ) {
                Some((r, c)) => if r == row_of(old) {
                    col_of(new) == c
                } else {
                    cursor_of(new) == cursor_of(old)
                },
                None => cursor_of(new) == cursor_of(old),
            }
        },
        Command::DeleteToEnd | Command::ChangeToEnd => well_placed(old) && !selecting(old)
            && col_of(old) < current_line(old).len() ==> {
            &&& lines_of(new) == lines_of(old).update(
                row_of(old),
                current_line(old).take(col_of(old)),
            )
            &&& cursor_of(new) == cursor_of(old)
            &&& yank_of(new) == current_line(old).skip(col_of(old))
        },
        Command::Paste => well_placed(old) ==> {
            &&& yank_of(new) == yank_of(old)
            &&& !selecting(new)
            &&& !yank_of(old).contains('\r') ==> if line_wise(yank_of(old)) {
                let pieces = split_breaks(seq!['\n'] + yank_of(old).drop_last());
                &&& lines_of(new) == insert_pieces(
                    lines_of(old),
                    row_of(old),
                    current_line(old).len() as int,
                    pieces,
                )
                &&& cursor_of(new) == inserted_cursor(
                    row_of(old),
                    current_line(old).len() as int,
                    pieces,
                )
            } else {
                match after_selection_removed(old) {
                    Some((ls, p)) => lines_of(new) == insert_pieces(
                        ls,
                        p.0 as int,
                        p.1 as int,
                        split_breaks(yank_of(old)),
                    ) && cursor_of(new) == inserted_cursor(
                        p.0 as int,
                        p.1 as int,
                        split_breaks(yank_of(old)),
                    ),
                    None => true,
                }
            }
        },
        Command::LineOperation(op) => well_placed(old) ==> {
            let r = row_of(old);
            let line = current_line(old);
            let last = r + 1 >= lines_of(old).len();
            &&& !selecting(new)
            &&& cursor_of(new) == (r as nat, 0nat)
            &&& yank_of(new) == if last {
                cr_dropped(line + seq!['\n'])
            } else {
                line + seq!['\n']
            }
            &&& lines_of(new) == if op == 'y' {
                lines_of(old)
            } else if last {
                lines_of(old).update(r, Seq::empty())
            } else {
                lines_of(old).remove(r)
            }
        },
        Command::Undo | Command::Redo => yank_of(new) == yank_of(old),
        Command::CancelSelection => same_text(old, new) && cursor_of(new) == cursor_of(old)
            && !selecting(new),
        Command::AppendAtEnd => well_placed(old) ==> same_text(old, new) && row_of(new) == row_of(
            old,
        ) && col_of(new) == current_line(old).len() && !selecting(new),
        Command::InsertAtHead => well_placed(old) ==> same_text(old, new) && row_of(new)
            == row_of(old) && col_of(new) == 0 && !selecting(new),
        Command::Scroll(_) => same_text(old, new),
        Command::StartSelection => same_text(old, new) && cursor_of(new) == cursor_of(old)
            && selection_of(new) == Some(cursor_of(old)),
        Command::SelectLine => well_placed(old) ==> same_text(old, new) && row_of(new) == row_of(
            old,
        ) && col_of(new) == current_line(old).len() && selection_of(new) == Some(
            (cursor_of(old).0, 0nat),
        ),
        Command::SelectWholeLine => well_placed(old) ==> {
            &&& same_text(old, new)
            &&& selection_of(new) == Some((cursor_of(old).0, 0nat))
            &&& if row_of(old) + 1 < lines_of(old).len() {
                row_of(new) == row_of(old) + 1 && col_of(new) == 0
            } else {
                row_of(new) == row_of(old) && col_of(new) == current_line(old).len()
            }
        },
        Command::Copy => {
            &&& lines_of(new) == lines_of(old) && cursor_of(new) == cursor_of(old)
            &&& !selecting(new)
            &&& selected_span(old) matches Some((s, e)) ==> yank_of(new) == text_between(
                lines_of(old),
                s,
                e,
            )
        },
        Command::Cut => {
            &&& !selecting(new)
            &&& !selecting(old) ==> lines_of(new) == lines_of(old) && cursor_of(new) == cursor_of(
                old,
            ) && yank_of(new) == yank_of(old)
            &&& selected_span(old) matches Some((s, e)) ==> {
                &&& lines_of(new) == lines_without(lines_of(old), s, e)
                &&& cursor_of(new) == s
                &&& yank_of(new) == text_between(lines_of(old), s, e)
            }
        },
        Command::DeleteChar => well_placed(old) && !selecting(old) && col_of(old) < current_line(
            old,
        ).len() ==> {
            &&& lines_of(new) == lines_of(old).update(
                row_of(old),
                current_line(old).take(col_of(old)) + current_line(old).skip(col_of(old) + 1),
            )
            &&& cursor_of(new) == cursor_of(old)
            &&& yank_of(new) == yank_of(old)
        },
        Command::Forward(i) => well_placed(old) && !selecting(old) ==> match typed_char(i) {
            Some(c) => {
                &&& lines_of(new) == lines_of(old).update(
                    row_of(old),
                    current_line(old).take(col_of(old)) + seq![c] + current_line(old).skip(
                        col_of(old),
                    ),
                )
                &&& row_of(new) == row_of(old) && col_of(new) == col_of(old) + 1
                &&& yank_of(new) == yank_of(old)
            },
            None => true,
        },
    }
}

/// Whether the buffer's cursor lies within its text.
fn placed(t: &LineBuffer) -> (r: bool)
    ensures
        r == well_placed(*t),
{
    let (row, col) = cursor(t);
    let ls = lines(t);
    proof {
        assert(ls@.len() == lines_of(*t).len());
    }
    if ls.len() == 0 || row >= ls.len() {
        return false;
    }
    proof {
        assert(string_views(ls@)[row as int] == ls@[row as int]@);
    }
    col <= ls[row].as_str().unicode_len()
}

/// The characters of the current line.
fn current_chars(t: &LineBuffer) -> (r: Vec<char>)
    requires
        well_placed(*t),
    ensures
        r@ == current_line(*t),
{
    let (row, _) = cursor(t);
    let ls = lines(t);
    proof {
        assert(ls@.len() == lines_of(*t).len());
        assert(string_views(ls@)[row as int] == ls@[row as int]@);
    }
    chars_of(ls[row].as_str())
}

/// Whether the characters form one line of text.
fn is_one_line(s: &[char]) -> (r: bool)
    ensures
        r == one_line(s@),
{
    let mut i: usize = 0;
    while i < s.len()
        invariant
            i <= s@.len(),
            forall|j: int| 0 <= j < i ==> s@[j] != '\n' && s@[j] != '\r',
        decreases s.len() - i,
    {
        if s[i] == '\n' || s[i] == '\r' {
            assert(s@[i as int] == s[i as int]);
            return false;
        }
        i += 1;
    }
    true
}

/// Moves the cursor to `(row, col)`, clamped as the buffer clamps a jump.
fn jump(t: &mut LineBuffer, row: usize, col: usize)
    requires
        lines_of(*old(t)).len() > 0,
    ensures
        same_text(*old(t), *final(t)),
        selecting(*final(t)) == selecting(*old(t)),
        row < lines_of(*old(t)).len() && row <= JUMP_MAX && col <= JUMP_MAX ==> row_of(*final(t))
            == row && col_of(*final(t)) == fit_col(col as int, lines_of(*old(t))[row as int]),
{
    let r: u16 = if row <= JUMP_MAX as usize {
        row as u16
    } else {
        JUMP_MAX
    };
    let c: u16 = if col <= JUMP_MAX as usize {
        col as u16
    } else {
        JUMP_MAX
    };
    move_cursor(t, Motion::Jump(r, c));
}

/// Inserts one line's worth of text at the cursor, with no selection open.
fn insert_line_text(t: &mut LineBuffer, s: &str)
    requires
        well_placed(*old(t)),
        !selecting(*old(t)),
        one_line(s@),
    ensures
        lines_of(*final(t)) == lines_of(*old(t)).update(
            row_of(*old(t)),
            current_line(*old(t)).take(col_of(*old(t))) + s@ + current_line(*old(t)).skip(
                col_of(*old(t)),
            ),
        ),
        row_of(*final(t)) == row_of(*old(t)),
        col_of(*final(t)) == col_of(*old(t)) + s@.len(),
        yank_of(*final(t)) == yank_of(*old(t)),
        !selecting(*final(t)),
{
    proof {
        lemma_split_one_line(s@);
    }
    insert_str(t, s);
}

/// Replaces the current line by `line` and moves the cursor to `col` on it. The old text
/// is selected and typed over, which leaves the yank register alone.
fn replace_current_line(t: &mut LineBuffer, line: &[char], col: usize)
    requires
        well_placed(*old(t)),
        one_line(line@),
    ensures
        line_replaced(*old(t), *final(t), line@, col as int),
{
    let ghost t0 = *t;
    let (row, _) = cursor(t);
    cancel_selection(t);
    move_cursor(t, Motion::Head);
    start_selection(t);
    move_cursor(t, Motion::End);
    let ghost l = lines_of(t0);
    let ghost r = row as int;
    assert(l[r].take(0) + l[r].skip(l[r].len() as int) =~= Seq::<char>::empty());
    assert(lines_without(l, (r as nat, 0nat), (r as nat, l[r].len())) =~= l.update(
        r,
        Seq::empty(),
    ));
    let s = string_of(line);
    proof {
        lemma_split_one_line(s@);
    }
    insert_str(t, s.as_str());
    assert(Seq::<char>::empty().take(0) + line@ + Seq::<char>::empty().skip(0) =~= line@);
    assert(lines_of(*t) =~= l.update(r, line@));
    jump(t, row, col);
}

impl<'a> Vim<'a> {
    /// Runs command `c` on the buffer.
    pub fn apply(&self, c: Command, t: &mut LineBuffer)
        requires
            self.editconf.wf(),
        ensures
            command_effect(c, *self.editconf, *old(t), *final(t)),
    {
        let cfg = self.editconf;
        let ghost t0 = *t;
        match c {
            Command::Nothing => {},
            Command::NewItem => {
                if placed(t) {
                    let todo = chars_of(cfg.todo_str.as_str());
                    if is_one_line(todo.as_slice()) {
                        cancel_selection(t);
                        move_cursor(t, Motion::Head);
                        assert(current_line(*t).take(0) =~= Seq::<char>::empty());
                        assert(current_line(*t).skip(0) == current_line(*t));
                        insert_line_text(t, cfg.todo_str.as_str());
                    }
                }
            },
            Command::ToggleMarker => {
                if placed(t) {
                    let cur = current_chars(t);
                    let new_line = toggle_marker(cur.as_slice(), cfg);
                    if is_one_line(new_line.as_slice()) {
                        let (_, col) = cursor(t);
                        replace_current_line(t, new_line.as_slice(), col);
                    }
                }
            },
            Command::Indent => {
                if placed(t) {
                    let cur = current_chars(t);
                    let (_, col) = cursor(t);
                    let unit = indent_unit_chars(cfg);
                    let (new_line, new_col) = indent_line(cur.as_slice(), col, unit.as_slice(), cfg);
                    if is_one_line(new_line.as_slice()) {
                        replace_current_line(t, new_line.as_slice(), new_col);
                    }
                }
            },
            Command::Unindent => {
                if placed(t) {
                    let cur = current_chars(t);
                    let (_, col) = cursor(t);
                    let (new_line, new_col) = unindent_line(cur.as_slice(), col, cfg);
                    if is_one_line(new_line.as_slice()) {
                        replace_current_line(t, new_line.as_slice(), new_col);
                    }
                }
            },
            Command::OpenBelow => {
                if placed(t) {
                    let s = self.opened(t);
                    let sc = chars_of(s.as_str());
                    if is_one_line(sc.as_slice()) {
                        cancel_selection(t);
                        move_cursor(t, Motion::End);
                        assert(current_line(*t).take(col_of(*t)) =~= current_line(*t));
                        assert(current_line(*t).skip(col_of(*t)) =~= Seq::<char>::empty());
                        assert(lines_of(*t).update(row_of(*t), current_line(*t)) =~= lines_of(*t));
                        insert_newline(t);
                        assert(lines_of(*t) =~= lines_of(t0).insert(row_of(t0) + 1, Seq::empty()));
                        assert(current_line(*t).take(0) =~= Seq::<char>::empty());
                        insert_line_text(t, s.as_str());
                        assert(lines_of(*t) =~= lines_of(t0).insert(row_of(t0) + 1, s@));
                    }
                }
            },
            Command::OpenAbove => {
                if placed(t) {
                    let s = self.opened(t);
                    let sc = chars_of(s.as_str());
                    if is_one_line(sc.as_slice()) {
                        cancel_selection(t);
                        move_cursor(t, Motion::Head);
                        assert(current_line(*t).skip(0) =~= current_line(*t));
                        assert(current_line(*t).take(0) =~= Seq::<char>::empty());
                        insert_newline(t);
                        move_cursor(t, Motion::Up);
                        assert(lines_of(*t) =~= lines_of(t0).insert(row_of(t0), Seq::empty()));
                        assert(current_line(*t).take(0) =~= Seq::<char>::empty());
                        insert_line_text(t, s.as_str());
                        assert(lines_of(*t) =~= lines_of(t0).insert(row_of(t0), s@));
                    }
                }
            },
            Command::Move(m) => {
                if placed(t) {
                    move_cursor(t, m);
                }
            },
            Command::MoveInLine(m) => {
                if placed(t) {
                    let (row, col) = cursor(t);
                    move_cursor(t, m);
                    let (row_after, _) = cursor(t);
                    if row != row_after {
                        jump(t, row, col);
                    }
                }
            },
            Command::DeleteToEnd => {
                if placed(t) {
                    delete_line_by_end(t);
                }
            },
            Command::ChangeToEnd => {
                if placed(t) {
                    delete_line_by_end(t);
                }
                cancel_selection(t);
            },
            Command::Paste => {
                if placed(t) {
                    let y = yank_text(t);
                    let yc = chars_of(y.as_str());
                    if yc.len() > 0 && yc[yc.len() - 1] == '\n' {
                        // A register of whole lines goes in below the current line.
                        let mut below: Vec<char> = Vec::new();
                        below.push('\n');
                        append_range(&mut below, yc.as_slice(), 0, yc.len() - 1);
                        assert(below@ =~= seq!['\n'] + yank_of(*t).drop_last());
                        let text = string_of(below.as_slice());
                        cancel_selection(t);
                        move_cursor(t, Motion::End);
                        insert_str(t, text.as_str());
                    } else {
                        // Other text goes in as typed text does: split at its line breaks,
                        // over any open selection.
                        insert_str(t, y.as_str());
                    }
                }
            },
            Command::LineOperation(op) => {
                if placed(t) {
                    self.line_operation(op, t);
                }
            },
            Command::Undo => undo(t),
            Command::Redo => redo(t),
            Command::DeleteChar => {
                if placed(t) {
                    delete_next_char(t);
                }
            },
            Command::CancelSelection => cancel_selection(t),
            Command::AppendAtEnd => {
                if placed(t) {
                    cancel_selection(t);
                    move_cursor(t, Motion::End);
                }
            },
            Command::InsertAtHead => {
                if placed(t) {
                    cancel_selection(t);
                    move_cursor(t, Motion::Head);
                }
            },
            Command::Scroll(s) => {
                if lines(t).len() > 0 {
                    scroll(t, s);
                }
            },
            Command::StartSelection => start_selection(t),
            Command::SelectLine => {
                if placed(t) {
                    move_cursor(t, Motion::Head);
                    start_selection(t);
                    move_cursor(t, Motion::End);
                }
            },
            Command::SelectWholeLine => {
                if placed(t) {
                    move_cursor(t, Motion::Head);
                    start_selection(t);
                    let before = cursor(t);
                    move_cursor(t, Motion::Down);
                    let after = cursor(t);
                    if before.0 == after.0 && before.1 == after.1 {
                        move_cursor(t, Motion::End);
                    }
                }
            },
            Command::Copy => copy(t),
            Command::Cut => cut(t),
            Command::Forward(i) => {
                if placed(t) {
                    input(t, i);
                }
            },
        }
    }

    /// Applies operator `op` to the current line as a whole.
    fn line_operation(&self, op: char, t: &mut LineBuffer)
        requires
            well_placed(*old(t)),
        ensures
            command_effect(Command::LineOperation(op), *self.editconf, *old(t), *final(t)),
    {
        let ghost t0 = *t;
        let ghost l = lines_of(*t);
        let (row, _) = cursor(t);
        let ghost r = row as int;
        let cur = current_chars(t);
        move_cursor(t, Motion::Head);
        start_selection(t);
        let before = cursor(t);
        move_cursor(t, Motion::Down);
        let after = cursor(t);
        let last = before.0 == after.0 && before.1 == after.1;
        if last {
            move_cursor(t, Motion::End);
        } else {
            assert(selected_span(*t) == Some(((r as nat, 0nat), ((r + 1) as nat, 0nat))));
            assert(rows_text(l, r + 1, r + 1) =~= Seq::<char>::empty());
            assert(text_between(l, (r as nat, 0nat), ((r + 1) as nat, 0nat)) =~= l[r] + seq![
                '\n',
            ]);
        }
        if op == 'y' {
            copy(t);
            if last {
                move_cursor(t, Motion::Head);
            } else {
                move_cursor(t, Motion::Up);
            }
        } else {
            if !last {
                assert(l[r].take(0) + l[r + 1].skip(0) =~= l[r + 1]);
                assert(lines_without(l, (r as nat, 0nat), ((r + 1) as nat, 0nat)) =~= l.remove(r));
            } else if cur.len() > 0 {
                assert(selected_span(*t) == Some(((r as nat, 0nat), (r as nat, l[r].len()))));
                assert(l[r].take(0) + l[r].skip(l[r].len() as int) =~= Seq::<char>::empty());
                assert(lines_without(l, (r as nat, 0nat), (r as nat, l[r].len())) =~= l.update(
                    r,
                    Seq::empty(),
                ));
            } else {
                assert(l[r] =~= Seq::<char>::empty());
                assert(l.update(r, Seq::empty()) =~= l);
            }
            cut(t);
        }
        if last {
            let mut text: Vec<char> = Vec::new();
            append_range(&mut text, cur.as_slice(), 0, cur.len());
            text.push('\n');
            assert(text@ =~= l[r] + seq!['\n']);
            let s = string_of(text.as_slice());
            set_yank_text(t, s);
        }
    }

    /// The line a new item opens with, after the current line's indentation.
    fn opened(&self, t: &LineBuffer) -> (r: String)
        requires
            self.editconf.wf(),
            well_placed(*t),
        ensures
            r@ == opened_line(*t, *self.editconf),
    {
        let cur = current_chars(t);
        let depth = indent_level_of(cur.as_slice(), self.editconf.tab_width);
        let item = ToDo::from(String::new(), false, depth);
        encode_item(&item, self.editconf)
    }

    /// Handles one keystroke: runs its command on the buffer, then the pending operator's
    /// command where one applies, and returns the transition. A buffer with text ends with
    /// its cursor within the text.
    pub fn transition(&self, i: crate::input::Keystroke, t: &mut LineBuffer) -> (r: Transition)
        requires
            self.editconf.wf(),
        ensures
            r == decide(self.mode, self.pending, i).transition,
            keystroke_effect(decide(self.mode, self.pending, i), *self.editconf, *old(t), *final(t)),
            lines_of(*old(t)).len() > 0 ==> well_placed(*final(t)),
    {
        let s: Step = self.step(i);
        self.apply(s.command, t);
        let ghost mid = *t;
        self.apply(s.finish, t);
        let ghost end = *t;
        settle(t);
        assert(command_effect(s.command, *self.editconf, *old(t), mid));
        assert(command_effect(s.finish, *self.editconf, mid, end));
        s.transition
    }
}

/// What a keystroke's step does to the buffer, from `old` to `new`: its command, then its
/// finishing command, and then, only where those left the cursor outside the text, a move
/// of the cursor back into it.
pub open spec fn keystroke_effect(s: Step, cfg: EditConfig, old: LineBuffer, new: LineBuffer) -> bool {
    exists|mid: LineBuffer, end: LineBuffer|
        {
            &&& command_effect(s.command, cfg, old, mid)
            &&& command_effect(s.finish, cfg, mid, end)
            &&& lines_of(new) == lines_of(end)
            &&& yank_of(new) == yank_of(end)
            &&& well_placed(end) ==> new == end
        }
}

/// Puts the cursor back within the text, where it is not.
fn settle(t: &mut LineBuffer)
    ensures
        lines_of(*final(t)) == lines_of(*old(t)),
        yank_of(*final(t)) == yank_of(*old(t)),
        well_placed(*old(t)) ==> *final(t) == *old(t),
        lines_of(*old(t)).len() > 0 ==> well_placed(*final(t)),
{
    if !placed(t) {
        if lines(t).len() > 0 {
            jump(t, 0, 0);
        }
    }
}


/// An editing session on the checklist of one note.
pub struct Session {
    pub mode: Mode,
    pub pending: Keystroke,
    pub buffer: LineBuffer,
    pub config: EditConfig,
}

impl Session {
    /// A session in normal mode on the given lines, with `clipboard` in the yank register
    /// and the cursor just past where a marker ends on the first line.
    pub fn open_lines(lines: Vec<String>, config: EditConfig, clipboard: String) -> (r: Session)
        requires
            config.wf(),
        ensures
            r.mode == Mode::Normal,
            r.pending == null_keystroke(),
            r.config == config,
            lines_of(r.buffer) == initial_lines(string_views(lines@)),
            well_placed(r.buffer),
            yank_of(r.buffer) == cr_dropped(clipboard@),
    {
        let mut buffer = new_buffer(lines);
        set_yank_text(&mut buffer, clipboard);
        let a = config.complete_str.as_str().unicode_len();
        let b = config.todo_str.as_str().unicode_len();
        jump(&mut buffer, 0, if a < b {
            b
        } else {
            a
        });
        settle(&mut buffer);
        Session { mode: Mode::Normal, pending: Keystroke::null(), buffer, config }
    }

    /// A session on the lines of a note's entries.
    pub fn open(items: &[ToDo], config: EditConfig, clipboard: String) -> (r: Session)
        requires
            config.wf(),
        ensures
            r.mode == Mode::Normal,
            r.pending == null_keystroke(),
            r.config == config,
            lines_of(r.buffer) == initial_lines(encoded(views_of_items(items@), config)),
            well_placed(r.buffer),
            yank_of(r.buffer) == cr_dropped(clipboard@),
    {
        let lines = encode_items(items, &config);
        Session::open_lines(lines, config, clipboard)
    }

    /// Handles one keystroke; returns whether the session goes on (`false` once it quits).
    pub fn feed(&mut self, i: Keystroke) -> (r: bool)
        requires
            old(self).config.wf(),
        ensures
            final(self).config == old(self).config,
            r == !(decide(old(self).mode, old(self).pending, i).transition is Quit),
            keystroke_effect(
                decide(old(self).mode, old(self).pending, i),
                old(self).config,
                old(self).buffer,
                final(self).buffer,
            ),
            lines_of(old(self).buffer).len() > 0 ==> well_placed(final(self).buffer),
            match next_state(
                old(self).mode,
                old(self).pending,
                decide(old(self).mode, old(self).pending, i).transition,
            ) {
                Some((m, p)) => final(self).mode == m && final(self).pending == p,
                None => final(self).mode == old(self).mode && final(self).pending == old(
                    self,
                ).pending,
            },
    {
        let vim = Vim { mode: self.mode, pending: self.pending, editconf: &self.config };
        let tr = vim.transition(i, &mut self.buffer);
        match vim.next(tr) {
            Some(v) => {
                let (m, p) = (v.mode, v.pending);
                self.mode = m;
                self.pending = p;
                true
            },
            None => false,
        }
    }

    /// The lines the buffer holds.
    pub fn lines(&self) -> (r: Vec<String>)
        ensures
            string_views(r@) == lines_of(self.buffer),
    {
        lines(&self.buffer)
    }

    /// The text of the yank register.
    pub fn register(&self) -> (r: String)
        ensures
            r@ == yank_of(self.buffer),
    {
        yank_text(&self.buffer)
    }

    /// The cursor's row and column.
    pub fn cursor(&self) -> (r: (usize, usize))
        ensures
            r.0 as nat == cursor_of(self.buffer).0,
            r.1 as nat == cursor_of(self.buffer).1,
    {
        cursor(&self.buffer)
    }

    /// Ends the session: the entries read from the buffer's lines, and the final content
    /// of the yank register, for the host to keep as its clipboard.
    pub fn close(self) -> (r: (Vec<ToDo>, String))
        requires
            self.config.wf(),
        ensures
            views_of_items(r.0@) == decoded(lines_of(self.buffer), self.config),
            r.1@ == yank_of(self.buffer),
    {
        let ls = lines(&self.buffer);
        let items = decode_lines(ls.as_slice(), &self.config);
        let yank = yank_text(&self.buffer);
        (items, yank)
    }
}

/// Pressing `q` outside insert mode quits and leaves the buffer exactly as it was, so
/// the entries read back when the session closes are those of the lines at that moment.
pub proof fn lemma_quit_keeps_buffer(
    mode: Mode,
    pending: Keystroke,
    i: Keystroke,
    cfg: EditConfig,
    old: LineBuffer,
    mid: LineBuffer,
    new: LineBuffer,
)
    requires
        mode != Mode::Insert,
        i.key == crate::input::KeyCode::Char('q'),
        command_effect(decide(mode, pending, i).command, cfg, old, mid),
        command_effect(decide(mode, pending, i).finish, cfg, mid, new),
    ensures
        decide(mode, pending, i).transition is Quit,
        new == old,
{
}

/// Two-key commands: a lone `g` is only remembered and changes nothing; a key after it
/// other than `g` acts as if nothing were pending; `gg` puts the cursor on the first
/// row at column 0.
pub proof fn lemma_two_key_pending(
    mode: Mode,
    pending: Keystroke,
    g: Keystroke,
    i: Keystroke,
    cfg: EditConfig,
    old: LineBuffer,
    new: LineBuffer,
)
    requires
        mode_wf(mode),
        mode != Mode::Insert,
        plain_is(g, 'g'),
    ensures
        !plain_is(pending, 'g') ==> decide(mode, pending, g) == direct(
            Command::Nothing,
            Transition::Pending(g),
        ),
        !plain_is(pending, 'g') && command_effect(decide(mode, pending, g).command, cfg, old, new)
            ==> new == old,
        !plain_is(i, 'g') ==> decide(mode, g, i) == decide(mode, null_keystroke(), i),
        well_placed(old) && command_effect(decide(mode, g, g).command, cfg, old, new)
            ==> cursor_of(new) == (0nat, 0nat),
{
}

/// `dd` on a line with another line after it removes exactly that line, leaves the cursor
/// on the same row (where the following line now stands), and puts the removed line with
/// its line break in the yank register.
pub proof fn lemma_dd_removes_line(
    pending: Keystroke,
    d: Keystroke,
    cfg: EditConfig,
    t0: LineBuffer,
    t1: LineBuffer,
    t2: LineBuffer,
    t3: LineBuffer,
)
    requires
        plain_is(d, 'd'),
        well_placed(t0),
        row_of(t0) + 1 < lines_of(t0).len(),
        command_effect(decide(Mode::Normal, pending, d).command, cfg, t0, t1),
        command_effect(decide(Mode::Operator('d'), null_keystroke(), d).command, cfg, t1, t2),
        command_effect(decide(Mode::Operator('d'), null_keystroke(), d).finish, cfg, t2, t3),
    ensures
        decide(Mode::Normal, pending, d) == direct(
            Command::StartSelection,
            Transition::Mode(Mode::Operator('d')),
        ),
        decide(Mode::Operator('d'), null_keystroke(), d).transition == Transition::Mode(
            Mode::Normal,
        ),
        lines_of(t3) == lines_of(t0).remove(row_of(t0)),
        row_of(t3) == row_of(t0),
        yank_of(t3) == current_line(t0) + seq!['\n'],
{
}

/// `yy` on any line leaves the text as it is, puts the cursor at the start of the line,
/// and puts the line (without carriage returns) with a line break in the yank register.
pub proof fn lemma_yy_copies_line(
    pending: Keystroke,
    y: Keystroke,
    cfg: EditConfig,
    t0: LineBuffer,
    t1: LineBuffer,
    t2: LineBuffer,
    t3: LineBuffer,
)
    requires
        plain_is(y, 'y'),
        well_placed(t0),
        !current_line(t0).contains('\r'),
        command_effect(decide(Mode::Normal, pending, y).command, cfg, t0, t1),
        command_effect(decide(Mode::Operator('y'), null_keystroke(), y).command, cfg, t1, t2),
        command_effect(decide(Mode::Operator('y'), null_keystroke(), y).finish, cfg, t2, t3),
    ensures
        decide(Mode::Normal, pending, y) == direct(
            Command::StartSelection,
            Transition::Mode(Mode::Operator('y')),
        ),
        lines_of(t3) == lines_of(t0),
        yank_of(t3) == current_line(t0) + seq!['\n'],
        cursor_of(t3) == (cursor_of(t0).0, 0nat),
        !selecting(t3),
{
    let line = current_line(t0);
    assert(!(line + seq!['\n']).contains('\r')) by {
        if (line + seq!['\n']).contains('\r') {
            let i = choose|i: int| 0 <= i < line.len() + 1 && (line + seq!['\n'])[i] == '\r';
            if i < line.len() {
                assert(line[i] == '\r');
            }
        }
    }
    lemma_cr_dropped_plain(line + seq!['\n']);
}

/// `yy` then `p` on any line (without line breaks or carriage returns) puts one copy of
/// the line directly below it and keeps every other line in order.
pub proof fn lemma_yy_p_duplicates_line(
    pending: Keystroke,
    y: Keystroke,
    p: Keystroke,
    cfg: EditConfig,
    t0: LineBuffer,
    t1: LineBuffer,
    t2: LineBuffer,
    t3: LineBuffer,
    t4: LineBuffer,
)
    requires
        plain_is(y, 'y'),
        plain_is(p, 'p'),
        well_placed(t0),
        one_line(current_line(t0)),
        command_effect(decide(Mode::Normal, pending, y).command, cfg, t0, t1),
        command_effect(decide(Mode::Operator('y'), null_keystroke(), y).command, cfg, t1, t2),
        command_effect(decide(Mode::Operator('y'), null_keystroke(), y).finish, cfg, t2, t3),
        command_effect(decide(Mode::Normal, null_keystroke(), p).command, cfg, t3, t4),
    ensures
        decide(Mode::Normal, null_keystroke(), p) == direct(
            Command::Paste,
            Transition::Mode(Mode::Normal),
        ),
        lines_of(t4) == lines_of(t0).insert(row_of(t0) + 1, current_line(t0)),
{
    lemma_yy_copies_line(pending, y, cfg, t0, t1, t2, t3);
    let l = lines_of(t0);
    let r = row_of(t0);
    let line = l[r];
    let yank = line + seq!['\n'];
    assert(!yank.contains('\r')) by {
        if yank.contains('\r') {
            let i = choose|i: int| 0 <= i < line.len() + 1 && yank[i] == '\r';
            if i < line.len() {
                assert(line[i] == '\r');
            }
        }
    }
    assert(yank.drop_last() =~= line);
    lemma_split_break_line(line);
    let pieces = seq![Seq::<char>::empty(), line];
    assert(pieces.subrange(1, 1) =~= Seq::<Seq<char>>::empty());
    assert(line.take(line.len() as int) + Seq::<char>::empty() =~= line);
    assert(line + line.skip(line.len() as int) =~= line);
    assert(insert_pieces(l, r, line.len() as int, pieces) =~= l.insert(r + 1, line));
}

} // verus!
