//! Editor settings and the other plain configuration values.
use vstd::prelude::*;

verus! {

/// How the checklist lines of a note are written while it is edited.
#[derive(Clone)]
pub struct EditConfig {
    pub highlight: bool,
    pub conceal: bool,
    /// The number of spaces in one level of indentation.
    pub tab_width: u8,
    /// The marker that begins a completed item.
    pub complete_str: String,
    /// The marker that begins an item still to do.
    pub todo_str: String,
}

impl EditConfig {
    /// The marker of a completed item, as characters.
    pub open spec fn complete(&self) -> Seq<char> {
        self.complete_str@
    }

    /// The marker of an item still to do, as characters.
    pub open spec fn todo(&self) -> Seq<char> {
        self.todo_str@
    }

    /// The settings the core needs: both markers non-empty and distinct, a positive tab width.
    pub open spec fn wf(&self) -> bool {
        &&& self.tab_width >= 1
        &&& self.complete().len() > 0
        &&& self.todo().len() > 0
        &&& self.complete() != self.todo()
    }

    /// Builds a configuration from its parts.
    pub fn new(tab_width: u8, complete_str: String, todo_str: String) -> (r: EditConfig)
        ensures
            r.highlight && r.conceal,
            r.tab_width == tab_width,
            r.complete() == complete_str@,
            r.todo() == todo_str@,
    {
        EditConfig { highlight: true, conceal: true, tab_width, complete_str, todo_str }
    }
}

/// The direction in which notes are stacked on screen.
#[derive(Clone, Copy, PartialEq, Eq, Debug)]
pub enum NoteDirection {
    Horizontal,
    Vertical,
}

/// Which parts of the main screen are shown, and how notes are stacked.
#[derive(Clone, Copy, PartialEq, Eq, Debug)]
pub struct LayoutConfig {
    pub header: bool,
    pub footer: bool,
    pub stack: NoteDirection,
}

/// Options given on the command line that change where data is kept.
#[derive(Clone, Copy, PartialEq, Eq, Debug)]
pub struct RuntimeOptions {
    pub local: bool,
    pub local_create: bool,
}

} // verus!
