//! The editing core of a small modal terminal text editor: a line buffer, a cursor
//! that maps its logical position onto a soft-wrapped screen, and a Normal/Insert
//! key dispatcher.

pub mod buffer;
pub mod cursor;
pub mod editor;
mod text;
