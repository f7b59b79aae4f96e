//! Reformatter for grep-like diagnostic lines (`path:row:col: message`).
//!
//! Each input line is parsed against a small permissive grammar; on a match
//! the file path is reassembled from optional prefixes, re-expressed relative
//! to the working directory, and the message body is split into plain and
//! highlighted spans.  A line that does not match the grammar is left for the
//! caller to echo unchanged.

pub mod grammar;
pub mod highlight;
pub mod path;
pub mod render;
pub mod scan;
