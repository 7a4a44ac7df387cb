//! A style scanner: it walks a directory tree without following symbolic
//! links, keeps the files that a set of inclusion and exclusion globs select,
//! and reports those that lack a required header or do not end in a blank
//! line.

pub mod empty_line;
pub mod header;
pub mod pattern_filter;
pub mod scan;
pub mod source_file;
pub mod walker;
