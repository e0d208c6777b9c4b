//! The screens of the application and the texts shown for each.
use vstd::prelude::*;

verus! {

/// The screen the application shows.
#[derive(Clone, Copy, PartialEq, Eq, Structural, Debug)]
pub enum CurrentScreen {
    Main,
    NoteEdit,
    NoteSearch,
    Exiting,
    NewNote,
    Command,
    Help,
}

/// The help text of the help screen.
pub const HELP_TEXT: &'static str = "Main View:\n? - show this help\na - add a note\nD - delete currently focused note \ne or Enter - edit the focused note\nl or j - focus left or down \nL or J - move note left or down \nh or k - focus right or up \nH or K - move note right or up\n\nEdit View (Subset of Vim-keybinds with exceptions):\nNormal:\no - add todo below\nO - add todo above\nn - insert todo on this line\nq - return to Main View\nInsert\nEnter - toggle todo\n";

impl CurrentScreen {
    /// The title of the screen, as shown in the navigation bar.
    pub open spec fn navigation_spec(self) -> Seq<char> {
        match self {
            CurrentScreen::Main => "Normal Mode"@,
            CurrentScreen::NoteEdit => "Editing Note"@,
            CurrentScreen::Exiting => "Exiting"@,
            CurrentScreen::NewNote => "New Note"@,
            CurrentScreen::Command => "Command Mode"@,
            CurrentScreen::Help => "Help"@,
            CurrentScreen::NoteSearch => "NoteSearch"@,
        }
    }

    /// The key hints shown at the foot of the screen.
    pub open spec fn hints_spec(self) -> Seq<char> {
        match self {
            CurrentScreen::Main => "[q]uit [e]dit [D]elete [a]dd note <h> left <l> right"@,
            CurrentScreen::NoteEdit => "VIM keybinds"@,
            CurrentScreen::Exiting => "<Esc> to cancel"@,
            CurrentScreen::NewNote => "<ESC> cancel, <ENTER> accept "@,
            CurrentScreen::Command => "<ESC> cancel, <ENTER> accept "@,
            CurrentScreen::Help => "<ESC> back"@,
            CurrentScreen::NoteSearch => "<ESC> back, <ENTER> add to display"@,
        }
    }

    /// The body text of the screen: a question when exiting, the help text on the help
    /// screen, nothing elsewhere.
    pub open spec fn content_spec(self) -> Seq<char> {
        match self {
            CurrentScreen::Exiting => "Save changes? (y/n)"@,
            CurrentScreen::Help => HELP_TEXT@,
            _ => ""@,
        }
    }

    /// The body text of the screen.
    pub fn content(&self) -> (r: &'static str)
        ensures
            r@ == self.content_spec(),
    {
        match self {
            CurrentScreen::Exiting => "Save changes? (y/n)",
            CurrentScreen::Help => HELP_TEXT,
            _ => "",
        }
    }

    /// The title of the screen.
    pub fn navigation_text(&self) -> (r: &'static str)
        ensures
            r@ == self.navigation_spec(),
    {
        match self {
            CurrentScreen::Main => "Normal Mode",
            CurrentScreen::NoteEdit => "Editing Note",
            CurrentScreen::Exiting => "Exiting",
            CurrentScreen::NewNote => "New Note",
            CurrentScreen::Command => "Command Mode",
            CurrentScreen::Help => "Help",
            CurrentScreen::NoteSearch => "NoteSearch",
        }
    }

    /// The key hints of the screen.
    pub fn key_hints(&self) -> (r: &'static str)
        ensures
            r@ == self.hints_spec(),
    {
        match self {
            CurrentScreen::Main => "[q]uit [e]dit [D]elete [a]dd note <h> left <l> right",
            CurrentScreen::NoteEdit => "VIM keybinds",
            CurrentScreen::Exiting => "<Esc> to cancel",
            CurrentScreen::NewNote => "<ESC> cancel, <ENTER> accept ",
            CurrentScreen::Command => "<ESC> cancel, <ENTER> accept ",
            CurrentScreen::Help => "<ESC> back",
            CurrentScreen::NoteSearch => "<ESC> back, <ENTER> add to display",
        }
    }
}

} // verus!
