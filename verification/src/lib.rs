//! Three small text tools with verified cores: counting the lines and the words of
//! a text, a logbook that records messages line by line, and a store of memos that
//! can be marked done by a case-insensitive search and purged.

pub mod counter;
pub mod logbook;
pub mod memos;
pub mod text;
