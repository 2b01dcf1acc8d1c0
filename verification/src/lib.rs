//! Text buffer for a small editor: a list of lines, a character cursor,
//! and the column arithmetic used to draw the cursor.

pub mod layout;
pub mod text;
pub mod buffer;
pub mod laws;
pub mod keys;
