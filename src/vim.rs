//! The modal keystroke engine: from the current mode, the pending keystroke and a new
//! keystroke, the buffer command to run and the transition to take.
use vstd::prelude::*;
use crate::buffer::{Motion, Scroll};
use crate::config::EditConfig;
use crate::input::{KeyCode, Keystroke};

verus! {

/// The editing mode.
#[derive(Clone, Copy, PartialEq, Eq, Structural, Debug)]
pub enum Mode {
    Normal,
    Insert,
    Visual,
    /// An operator (`y`, `d` or `c`) waits for the text it applies to.
    Operator(char),
}

/// How the engine's state changes after a keystroke.
#[derive(Clone, Copy, Debug)]
pub enum Transition {
    /// Nothing to remember.
    Nop,
    /// Go to (or stay in) a mode.
    Mode(Mode),
    /// Remember the keystroke as the first half of a two-key command.
    Pending(Keystroke),
    /// End the editing session.
    Quit,
}

/// What a keystroke does to the buffer.
#[derive(Clone, Copy, Debug)]
pub enum Command {
    Nothing,
    /// Put a to-do marker at the start of the line.
    NewItem,
    /// Toggle the line's marker between to-do and complete.
    ToggleMarker,
    /// Move the cursor.
    Move(Motion),
    /// Move the cursor along its line; a move that would leave the line is undone.
    MoveInLine(Motion),
    /// Delete from the cursor to the end of the line.
    DeleteToEnd,
    /// Delete from the cursor to the end of the line and close the selection.
    ChangeToEnd,
    Paste,
    Undo,
    Redo,
    /// Delete the character under the cursor.
    DeleteChar,
    CancelSelection,
    /// Close the selection and go to the end of the line.
    AppendAtEnd,
    /// Close the selection and go to the start of the line.
    InsertAtHead,
    /// Open a new to-do line below, indented like the current one.
    OpenBelow,
    /// Open a new to-do line above, indented like the current one.
    OpenAbove,
    Scroll(Scroll),
    StartSelection,
    /// Select the current line from its start to its end.
    SelectLine,
    /// Indent the line by one unit.
    Indent,
    /// Remove one unit of indentation from the line.
    Unindent,
    /// Select the current line whole: from its start to the start of the next line, or
    /// to its end on the last line.
    SelectWholeLine,
    /// Apply operator `y`, `d` or `c` to the current line as a whole: the register gets
    /// the line with a line break after it; `d` and `c` also remove the line's text.
    LineOperation(char),
    /// Copy the selection to the yank register.
    Copy,
    /// Cut the selection into the yank register.
    Cut,
    /// Let the buffer handle the keystroke as typed text.
    Forward(Keystroke),
}

/// The outcome of one keystroke: a command, then the operator's own command where a
/// pending operator applies, then the transition.
#[derive(Clone, Copy, Debug)]
pub struct Step {
    pub command: Command,
    pub finish: Command,
    pub transition: Transition,
}

/// The keystroke is the character `c`, whatever modifiers are held.
pub open spec fn key_is(i: Keystroke, c: char) -> bool {
    i.key == KeyCode::Char(c)
}

/// The keystroke is the character `c` without Ctrl.
pub open spec fn plain_is(i: Keystroke, c: char) -> bool {
    i.key == KeyCode::Char(c) && !i.ctrl
}

/// The keystroke is the character `c` with Ctrl.
pub open spec fn ctrl_is(i: Keystroke, c: char) -> bool {
    i.key == KeyCode::Char(c) && i.ctrl
}

/// A step that runs `command` and goes straight to `transition`.
pub open spec fn direct(command: Command, transition: Transition) -> Step {
    Step { command, finish: Command::Nothing, transition }
}

/// A step that runs `command` and then completes a pending operator: `y` copies and
/// returns to normal mode, `d` cuts and returns to normal mode, `c` cuts and goes to
/// insert mode; with no operator pending there is nothing more to do.
pub open spec fn then_operator(mode: Mode, command: Command) -> Step {
    match mode {
        Mode::Operator('y') => Step {
            command,
            finish: Command::Copy,
            transition: Transition::Mode(Mode::Normal),
        },
        Mode::Operator('d') => Step {
            command,
            finish: Command::Cut,
            transition: Transition::Mode(Mode::Normal),
        },
        Mode::Operator('c') => Step {
            command,
            finish: Command::Cut,
            transition: Transition::Mode(Mode::Insert),
        },
        _ => Step { command, finish: Command::Nothing, transition: Transition::Nop },
    }
}

/// The second press of an operator key: the operator applies to the current line and the
/// mode returns to normal (`y`, `d`) or goes to insert (`c`).
pub open spec fn line_operator_step(mode: Mode) -> Step {
    match mode {
        Mode::Operator('y') => direct(Command::LineOperation('y'), Transition::Mode(Mode::Normal)),
        Mode::Operator('d') => direct(Command::LineOperation('d'), Transition::Mode(Mode::Normal)),
        Mode::Operator('c') => direct(Command::LineOperation('c'), Transition::Mode(Mode::Insert)),
        _ => direct(Command::SelectWholeLine, Transition::Nop),
    }
}

/// The operator characters.
pub open spec fn is_operator_char(c: char) -> bool {
    c == 'y' || c == 'd' || c == 'c'
}

/// A keystroke in normal, visual or operator-pending mode.
pub open spec fn command_step(mode: Mode, pending: Keystroke, i: Keystroke) -> Step {
    if key_is(i, 'n') {
        direct(Command::NewItem, Transition::Mode(Mode::Insert))
    } else if i.key == KeyCode::Enter {
        then_operator(mode, Command::ToggleMarker)
    } else if key_is(i, 'h') {
        then_operator(mode, Command::MoveInLine(Motion::Back))
    } else if key_is(i, 'j') {
        then_operator(mode, Command::Move(Motion::Down))
    } else if key_is(i, 'k') {
        then_operator(mode, Command::Move(Motion::Up))
    } else if key_is(i, 'l') {
        then_operator(mode, Command::MoveInLine(Motion::Forward))
    } else if key_is(i, 'w') {
        then_operator(mode, Command::MoveInLine(Motion::WordForward))
    } else if plain_is(i, 'b') {
        then_operator(mode, Command::MoveInLine(Motion::WordBack))
    } else if key_is(i, '^') || key_is(i, '0') {
        then_operator(mode, Command::Move(Motion::Head))
    } else if key_is(i, '$') {
        then_operator(mode, Command::Move(Motion::End))
    } else if key_is(i, 'D') {
        direct(Command::DeleteToEnd, Transition::Mode(Mode::Normal))
    } else if key_is(i, 'C') {
        direct(Command::ChangeToEnd, Transition::Mode(Mode::Insert))
    } else if key_is(i, 'p') {
        direct(Command::Paste, Transition::Mode(Mode::Normal))
    } else if plain_is(i, 'u') {
        direct(Command::Undo, Transition::Mode(Mode::Normal))
    } else if ctrl_is(i, 'r') {
        direct(Command::Redo, Transition::Mode(Mode::Normal))
    } else if key_is(i, 'x') {
        direct(Command::DeleteChar, Transition::Mode(Mode::Normal))
    } else if key_is(i, 'i') {
        direct(Command::CancelSelection, Transition::Mode(Mode::Insert))
    } else if key_is(i, 'a') {
        direct(Command::MoveInLine(Motion::Forward), Transition::Mode(Mode::Insert))
    } else if key_is(i, 'A') {
        direct(Command::AppendAtEnd, Transition::Mode(Mode::Insert))
    } else if key_is(i, 'o') {
        direct(Command::OpenBelow, Transition::Mode(Mode::Insert))
    } else if key_is(i, 'O') {
        direct(Command::OpenAbove, Transition::Mode(Mode::Insert))
    } else if key_is(i, 'I') {
        direct(Command::InsertAtHead, Transition::Mode(Mode::Insert))
    } else if key_is(i, 'q') {
        direct(Command::Nothing, Transition::Quit)
    } else if ctrl_is(i, 'e') {
        direct(Command::Scroll(Scroll::LineDown), Transition::Nop)
    } else if ctrl_is(i, 'y') {
        direct(Command::Scroll(Scroll::LineUp), Transition::Nop)
    } else if ctrl_is(i, 'd') {
        direct(Command::Scroll(Scroll::HalfPageDown), Transition::Nop)
    } else if ctrl_is(i, 'u') {
        direct(Command::Scroll(Scroll::HalfPageUp), Transition::Nop)
    } else if ctrl_is(i, 'f') {
        direct(Command::Scroll(Scroll::PageDown), Transition::Nop)
    } else if ctrl_is(i, 'b') {
        direct(Command::Scroll(Scroll::PageUp), Transition::Nop)
    } else if plain_is(i, 'v') && mode == Mode::Normal {
        direct(Command::StartSelection, Transition::Mode(Mode::Visual))
    } else if plain_is(i, 'V') && mode == Mode::Normal {
        direct(Command::SelectLine, Transition::Mode(Mode::Visual))
    } else if (i.key == KeyCode::Esc || plain_is(i, 'v')) && mode == Mode::Visual {
        direct(Command::CancelSelection, Transition::Mode(Mode::Normal))
    } else if plain_is(i, 'g') && plain_is(pending, 'g') {
        then_operator(mode, Command::Move(Motion::Jump(0, 0)))
    } else if plain_is(i, '>') && plain_is(pending, '>') {
        then_operator(mode, Command::Indent)
    } else if plain_is(i, '<') && plain_is(pending, '<') {
        then_operator(mode, Command::Unindent)
    } else if plain_is(i, 'G') {
        then_operator(mode, Command::Move(Motion::Bottom))
    } else if !i.ctrl && (i.key matches KeyCode::Char(c) && mode == Mode::Operator(c)) {
        line_operator_step(mode)
    } else if !i.ctrl && (i.key matches KeyCode::Char(c) && is_operator_char(c)) && mode
        == Mode::Normal {
        direct(Command::StartSelection, Transition::Mode(Mode::Operator(i.key->Char_0)))
    } else if plain_is(i, 'y') && mode == Mode::Visual {
        direct(Command::Copy, Transition::Mode(Mode::Normal))
    } else if plain_is(i, 'd') && mode == Mode::Visual {
        direct(Command::Cut, Transition::Mode(Mode::Normal))
    } else if plain_is(i, 'c') && mode == Mode::Visual {
        direct(Command::Cut, Transition::Mode(Mode::Insert))
    } else {
        direct(Command::Nothing, Transition::Pending(i))
    }
}

/// A keystroke in insert mode: Esc or Ctrl-c return to normal mode, Enter opens a new
/// to-do line below, anything else is typed into the buffer.
pub open spec fn insert_step(i: Keystroke) -> Step {
    if i.key == KeyCode::Esc || ctrl_is(i, 'c') {
        direct(Command::Nothing, Transition::Mode(Mode::Normal))
    } else if i.key == KeyCode::Enter {
        direct(Command::OpenBelow, Transition::Mode(Mode::Insert))
    } else {
        direct(Command::Forward(i), Transition::Mode(Mode::Insert))
    }
}

/// The step for keystroke `i` in `mode` with `pending` remembered; the null keystroke
/// does nothing.
pub open spec fn decide(mode: Mode, pending: Keystroke, i: Keystroke) -> Step {
    if i.key == KeyCode::Null {
        direct(Command::Nothing, Transition::Nop)
    } else if mode == Mode::Insert {
        insert_step(i)
    } else {
        command_step(mode, pending, i)
    }
}

/// The state of the engine between keystrokes.
pub struct Vim<'a> {
    pub mode: Mode,
    /// The keystroke remembered for a two-key command such as `gg`, `>>` or `<<`.
    pub pending: Keystroke,
    pub editconf: &'a EditConfig,
}

/// The state after a transition: a change of mode starts afresh in the new mode, a
/// keystroke to remember is remembered, and anything else forgets the pending keystroke.
/// Quitting has no next state.
pub open spec fn next_state(mode: Mode, pending: Keystroke, t: Transition) -> Option<
    (Mode, Keystroke),
> {
    match t {
        Transition::Mode(m) => Some((m, null_keystroke())),
        Transition::Nop => Some((mode, null_keystroke())),
        Transition::Pending(i) => Some((mode, i)),
        Transition::Quit => None,
    }
}

/// The null keystroke.
pub open spec fn null_keystroke() -> Keystroke {
    Keystroke { key: KeyCode::Null, ctrl: false, alt: false, shift: false }
}

fn is_char(i: Keystroke, c: char) -> (r: bool)
    ensures
        r == key_is(i, c),
{
    match i.key {
        KeyCode::Char(d) => d == c,
        _ => false,
    }
}

fn is_plain(i: Keystroke, c: char) -> (r: bool)
    ensures
        r == plain_is(i, c),
{
    !i.ctrl && is_char(i, c)
}

fn is_ctrl(i: Keystroke, c: char) -> (r: bool)
    ensures
        r == ctrl_is(i, c),
{
    i.ctrl && is_char(i, c)
}

fn step_direct(command: Command, transition: Transition) -> (r: Step)
    ensures
        r == direct(command, transition),
{
    Step { command, finish: Command::Nothing, transition }
}

fn step_then_operator(mode: Mode, command: Command) -> (r: Step)
    ensures
        r == then_operator(mode, command),
{
    match mode {
        Mode::Operator('y') => Step {
            command,
            finish: Command::Copy,
            transition: Transition::Mode(Mode::Normal),
        },
        Mode::Operator('d') => Step {
            command,
            finish: Command::Cut,
            transition: Transition::Mode(Mode::Normal),
        },
        Mode::Operator('c') => Step {
            command,
            finish: Command::Cut,
            transition: Transition::Mode(Mode::Insert),
        },
        _ => Step { command, finish: Command::Nothing, transition: Transition::Nop },
    }
}

fn step_line_operator(mode: Mode) -> (r: Step)
    ensures
        r == line_operator_step(mode),
{
    match mode {
        Mode::Operator('y') => step_direct(
            Command::LineOperation('y'),
            Transition::Mode(Mode::Normal),
        ),
        Mode::Operator('d') => step_direct(
            Command::LineOperation('d'),
            Transition::Mode(Mode::Normal),
        ),
        Mode::Operator('c') => step_direct(
            Command::LineOperation('c'),
            Transition::Mode(Mode::Insert),
        ),
        _ => step_direct(Command::SelectWholeLine, Transition::Nop),
    }
}

fn step_insert(i: Keystroke) -> (r: Step)
    ensures
        r == insert_step(i),
{
    let esc = match i.key {
        KeyCode::Esc => true,
        _ => false,
    };
    let enter = match i.key {
        KeyCode::Enter => true,
        _ => false,
    };
    if esc || is_ctrl(i, 'c') {
        step_direct(Command::Nothing, Transition::Mode(Mode::Normal))
    } else if enter {
        step_direct(Command::OpenBelow, Transition::Mode(Mode::Insert))
    } else {
        step_direct(Command::Forward(i), Transition::Mode(Mode::Insert))
    }
}

fn step_command(mode: Mode, pending: Keystroke, i: Keystroke) -> (r: Step)
    ensures
        r == command_step(mode, pending, i),
{
    let enter = match i.key {
        KeyCode::Enter => true,
        _ => false,
    };
    let esc = match i.key {
        KeyCode::Esc => true,
        _ => false,
    };
    let repeats_operator = match i.key {
        KeyCode::Char(c) => !i.ctrl && mode == Mode::Operator(c),
        _ => false,
    };
    let operator = match i.key {
        KeyCode::Char(c) => if !i.ctrl && (c == 'y' || c == 'd' || c == 'c') {
            Some(c)
        } else {
            None
        },
        _ => None,
    };
    if is_char(i, 'n') {
        step_direct(Command::NewItem, Transition::Mode(Mode::Insert))
    } else if enter {
        step_then_operator(mode, Command::ToggleMarker)
    } else if is_char(i, 'h') {
        step_then_operator(mode, Command::MoveInLine(Motion::Back))
    } else if is_char(i, 'j') {
        step_then_operator(mode, Command::Move(Motion::Down))
    } else if is_char(i, 'k') {
        step_then_operator(mode, Command::Move(Motion::Up))
    } else if is_char(i, 'l') {
        step_then_operator(mode, Command::MoveInLine(Motion::Forward))
    } else if is_char(i, 'w') {
        step_then_operator(mode, Command::MoveInLine(Motion::WordForward))
    } else if is_plain(i, 'b') {
        step_then_operator(mode, Command::MoveInLine(Motion::WordBack))
    } else if is_char(i, '^') || is_char(i, '0') {
        step_then_operator(mode, Command::Move(Motion::Head))
    } else if is_char(i, '$') {
        step_then_operator(mode, Command::Move(Motion::End))
    } else if is_char(i, 'D') {
        step_direct(Command::DeleteToEnd, Transition::Mode(Mode::Normal))
    } else if is_char(i, 'C') {
        step_direct(Command::ChangeToEnd, Transition::Mode(Mode::Insert))
    } else if is_char(i, 'p') {
        step_direct(Command::Paste, Transition::Mode(Mode::Normal))
    } else if is_plain(i, 'u') {
        step_direct(Command::Undo, Transition::Mode(Mode::Normal))
    } else if is_ctrl(i, 'r') {
        step_direct(Command::Redo, Transition::Mode(Mode::Normal))
    } else if is_char(i, 'x') {
        step_direct(Command::DeleteChar, Transition::Mode(Mode::Normal))
    } else if is_char(i, 'i') {
        step_direct(Command::CancelSelection, Transition::Mode(Mode::Insert))
    } else if is_char(i, 'a') {
        step_direct(Command::MoveInLine(Motion::Forward), Transition::Mode(Mode::Insert))
    } else if is_char(i, 'A') {
        step_direct(Command::AppendAtEnd, Transition::Mode(Mode::Insert))
    } else if is_char(i, 'o') {
        step_direct(Command::OpenBelow, Transition::Mode(Mode::Insert))
    } else if is_char(i, 'O') {
        step_direct(Command::OpenAbove, Transition::Mode(Mode::Insert))
    } else if is_char(i, 'I') {
        step_direct(Command::InsertAtHead, Transition::Mode(Mode::Insert))
    } else if is_char(i, 'q') {
        step_direct(Command::Nothing, Transition::Quit)
    } else if is_ctrl(i, 'e') {
        step_direct(Command::Scroll(Scroll::LineDown), Transition::Nop)
    } else if is_ctrl(i, 'y') {
        step_direct(Command::Scroll(Scroll::LineUp), Transition::Nop)
    } else if is_ctrl(i, 'd') {
        step_direct(Command::Scroll(Scroll::HalfPageDown), Transition::Nop)
    } else if is_ctrl(i, 'u') {
        step_direct(Command::Scroll(Scroll::HalfPageUp), Transition::Nop)
    } else if is_ctrl(i, 'f') {
        step_direct(Command::Scroll(Scroll::PageDown), Transition::Nop)
    } else if is_ctrl(i, 'b') {
        step_direct(Command::Scroll(Scroll::PageUp), Transition::Nop)
    } else if is_plain(i, 'v') && mode == Mode::Normal {
        step_direct(Command::StartSelection, Transition::Mode(Mode::Visual))
    } else if is_plain(i, 'V') && mode == Mode::Normal {
        step_direct(Command::SelectLine, Transition::Mode(Mode::Visual))
    } else if (esc || is_plain(i, 'v')) && mode == Mode::Visual {
        step_direct(Command::CancelSelection, Transition::Mode(Mode::Normal))
    } else if is_plain(i, 'g') && is_plain(pending, 'g') {
        step_then_operator(mode, Command::Move(Motion::Jump(0, 0)))
    } else if is_plain(i, '>') && is_plain(pending, '>') {
        step_then_operator(mode, Command::Indent)
    } else if is_plain(i, '<') && is_plain(pending, '<') {
        step_then_operator(mode, Command::Unindent)
    } else if is_plain(i, 'G') {
        step_then_operator(mode, Command::Move(Motion::Bottom))
    } else if repeats_operator {
        step_line_operator(mode)
    } else if operator.is_some() && mode == Mode::Normal {
        step_direct(Command::StartSelection, Transition::Mode(Mode::Operator(operator.unwrap())))
    } else if is_plain(i, 'y') && mode == Mode::Visual {
        step_direct(Command::Copy, Transition::Mode(Mode::Normal))
    } else if is_plain(i, 'd') && mode == Mode::Visual {
        step_direct(Command::Cut, Transition::Mode(Mode::Normal))
    } else if is_plain(i, 'c') && mode == Mode::Visual {
        step_direct(Command::Cut, Transition::Mode(Mode::Insert))
    } else {
        step_direct(Command::Nothing, Transition::Pending(i))
    }
}

impl<'a> Vim<'a> {
    /// A fresh state in `mode`, with nothing pending.
    pub fn new(mode: Mode, editconf: &'a EditConfig) -> (r: Vim<'a>)
        ensures
            r.mode == mode,
            r.pending == null_keystroke(),
            r.editconf == editconf,
    {
        Vim { mode, pending: Keystroke::null(), editconf }
    }

    /// The same state, remembering `pending`.
    pub fn with_pending(self, pending: Keystroke) -> (r: Vim<'a>)
        ensures
            r.mode == self.mode,
            r.pending == pending,
            r.editconf == self.editconf,
    {
        Vim { mode: self.mode, pending, editconf: self.editconf }
    }

    /// The same state, with nothing pending.
    pub fn without_pending(self) -> (r: Vim<'a>)
        ensures
            r.mode == self.mode,
            r.pending == null_keystroke(),
            r.editconf == self.editconf,
    {
        Vim { mode: self.mode, pending: Keystroke::null(), editconf: self.editconf }
    }

    /// What keystroke `i` does in this state: the buffer command and the transition.
    pub fn step(&self, i: Keystroke) -> (r: Step)
        ensures
            r == decide(self.mode, self.pending, i),
    {
        let null = match i.key {
            KeyCode::Null => true,
            _ => false,
        };
        if null {
            step_direct(Command::Nothing, Transition::Nop)
        } else if self.mode == Mode::Insert {
            step_insert(i)
        } else {
            step_command(self.mode, self.pending, i)
        }
    }

    /// The state after transition `t`, or `None` where it quits.
    pub fn next(self, t: Transition) -> (r: Option<Vim<'a>>)
        ensures
            match next_state(self.mode, self.pending, t) {
                Some((m, p)) => r matches Some(v) && v.mode == m && v.pending == p && v.editconf
                    == self.editconf,
                None => r is None,
            },
    {
        match t {
            Transition::Mode(m) => Some(Vim::new(m, self.editconf)),
            Transition::Nop => Some(self.without_pending()),
            Transition::Pending(i) => Some(self.with_pending(i)),
            Transition::Quit => None,
        }
    }
}

/// The modes the engine can be in: an operator is pending only for `y`, `d` or `c`.
pub open spec fn mode_wf(m: Mode) -> bool {
    m matches Mode::Operator(c) ==> is_operator_char(c)
}

/// Every keystroke in every mode has a step, whose transition is one of the four kinds;
/// a change of mode leads to a mode the engine can be in, quitting happens only outside
/// insert mode, and an operator completes only by copying or cutting.
pub proof fn lemma_transitions_total(mode: Mode, pending: Keystroke, i: Keystroke)
    requires
        mode_wf(mode),
    ensures
        match decide(mode, pending, i).transition {
            Transition::Mode(m) => mode_wf(m),
            Transition::Quit => mode != Mode::Insert,
            Transition::Nop | Transition::Pending(_) => true,
        },
        decide(mode, pending, i).finish is Nothing || decide(mode, pending, i).finish is Copy
            || decide(mode, pending, i).finish is Cut,
{
}

} // verus!
