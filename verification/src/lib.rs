//! Find files whose text matches a pattern, rewrite the matches, and copy the
//! rewritten text flat into a destination directory.
//!
//! The library holds the rules of that pipeline: how paths are joined, how a
//! file's lines become one text, which files count as matched, how a reply to
//! the creation prompt is read, and in which order the writer asks for checks,
//! prompts and writes. The caller performs the file-system work and reports
//! what happened.

pub mod args;
pub mod engine;
pub mod gate;
pub mod matcher;
pub mod model;
pub mod path;
pub mod pipeline;
pub mod writer;
