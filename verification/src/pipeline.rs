//! The start of a run: both roots resolved and the pattern compiled, before
//! any file is looked at.

use crate::args::Request;
use crate::engine::compile;
use crate::engine::pattern_compiles;
use crate::engine::pattern_text;
use crate::engine::PatternError;
use crate::path::get_absolute_path;
use crate::path::joined;
use regex::Regex;
use vstd::prelude::*;

verus! {

/// What a run works with once it has been prepared.
pub struct Plan {
    pub source_root: String,
    pub destination_root: String,
    pub pattern: Regex,
    pub replacement: String,
}

/// Resolves the two roots against the working directory and compiles the
/// pattern, once. A pattern that the engine refuses ends the run here.
pub fn prepare(current_dir: &str, separator: &str, request: &Request) -> (plan: Result<
    Plan,
    PatternError,
>)
    ensures
        plan.is_ok() == pattern_compiles(request.query@),
        plan matches Err(error) ==> error == PatternError::Invalid,
        plan matches Ok(ready) ==> {
            &&& ready.source_root@ == joined(current_dir@, separator@, request.source@)
            &&& ready.destination_root@ == joined(current_dir@, separator@, request.destination@)
            &&& pattern_text(ready.pattern) == request.query@
            &&& ready.replacement == request.replacement
        },
{
    let source_root = get_absolute_path(current_dir, separator, request.source.as_str());
    let destination_root = get_absolute_path(current_dir, separator, request.destination.as_str());
    match compile(request.query.as_str()) {
        Ok(pattern) => Ok(
            Plan { source_root, destination_root, pattern, replacement: request.replacement.clone() },
        ),
        Err(error) => Err(error),
    }
}

} // verus!
