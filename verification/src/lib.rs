//! Search, filter and replace over a tree of text files. The library keeps
//! the index of the files, narrows it by a glob query and by a regular
//! expression on the files' text, and says what a substitution makes of a
//! file: as a diff to look at, and as the text to write. It touches neither
//! the disk nor the terminal: who uses it reads and writes the files, and
//! hands in what was read.

pub mod app;
pub mod cache;
pub mod config;
pub mod field;
pub mod filter;
pub mod glob;
pub mod pattern;
pub mod substitution;
pub mod text;
pub mod ui;
pub mod utils;
pub mod watch;
