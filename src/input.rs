//! Keystrokes as the editor sees them.
use vstd::prelude::*;

verus! {

/// A key. The keys the editor tells apart are named; any other key is carried as the
/// buffer's own key value, for the buffer to handle in insert mode.
#[derive(Clone, Copy, Debug)]
pub enum KeyCode {
    Char(char),
    Enter,
    Esc,
    Null,
    Other(tui_textarea::Key),
}

/// One keystroke: a key and the modifiers held with it.
#[derive(Clone, Copy, Debug)]
pub struct Keystroke {
    pub key: KeyCode,
    pub ctrl: bool,
    pub alt: bool,
    pub shift: bool,
}

impl Keystroke {
    /// The empty keystroke, which does nothing.
    pub fn null() -> (r: Keystroke)
        ensures
            r.key is Null,
            !r.ctrl && !r.alt && !r.shift,
    {
        Keystroke { key: KeyCode::Null, ctrl: false, alt: false, shift: false }
    }

    /// A plain character key, without modifiers.
    pub fn char(c: char) -> (r: Keystroke)
        ensures
            r.key == KeyCode::Char(c),
            !r.ctrl && !r.alt && !r.shift,
    {
        Keystroke { key: KeyCode::Char(c), ctrl: false, alt: false, shift: false }
    }

    /// A character key with Ctrl held.
    pub fn ctrl(c: char) -> (r: Keystroke)
        ensures
            r.key == KeyCode::Char(c),
            r.ctrl && !r.alt && !r.shift,
    {
        Keystroke { key: KeyCode::Char(c), ctrl: true, alt: false, shift: false }
    }

    /// A key without modifiers.
    pub fn key(key: KeyCode) -> (r: Keystroke)
        ensures
            r.key == key,
            !r.ctrl && !r.alt && !r.shift,
    {
        Keystroke { key, ctrl: false, alt: false, shift: false }
    }
}

} // verus!
