//! Rendering of search matches to a console: the line around a match is found
//! in the searched bytes, split into coloured segments, and turned into a list
//! of terminal operations that a front end carries out.

pub mod console;
pub mod line;
