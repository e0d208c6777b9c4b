//! A note-taking library whose notes hold checklists, edited through a
//! modal (Vim-like) keystroke engine over a line buffer.

pub mod text;
pub mod config;
pub mod line;
pub mod note;
pub mod tag;
pub mod screen;
pub mod utils;
pub mod app;
pub mod codec;
pub mod input;
pub mod buffer;
pub mod vim;
pub mod editor;
