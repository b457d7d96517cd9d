//! The pattern engine: compiling a pattern, testing a text against it, and
//! replacing its matches. The engine itself is the `regex` crate; what it
//! returns is named here and not defined.

use regex::Regex;
use vstd::prelude::*;

verus! {

/// `regex::Regex`, a compiled pattern. Nothing inside it is visible here.
#[verifier::external_type_specification]
#[verifier::external_body]
pub struct ExRegex(regex::Regex);

/// `regex::Error`, the reason why a pattern was refused. Nothing inside it
/// is visible here.
#[verifier::external_type_specification]
#[verifier::external_body]
pub struct ExRegexError(regex::Error);

/// Whether `Regex::new` accepts this pattern.
pub uninterp spec fn pattern_compiles(pattern: Seq<char>) -> bool;

/// What `Regex::as_str` returns: the pattern text that the regex was built
/// from.
pub uninterp spec fn pattern_text(re: Regex) -> Seq<char>;

/// Whether `Regex::is_match` finds the pattern anywhere in the text.
pub uninterp spec fn regex_matches(re: Regex, haystack: Seq<char>) -> bool;

/// What `Regex::replace_all` makes of the text: every non-overlapping match,
/// leftmost first, replaced by the expansion of `replacement`.
pub uninterp spec fn regex_replaced(
    re: Regex,
    haystack: Seq<char>,
    replacement: Seq<char>,
) -> Seq<char>;

/// Calls `Regex::new`. Whether a pattern is accepted depends on the pattern
/// alone, and a regex that was built keeps the pattern as its text. What the
/// regex matches is not claimed here.
#[verifier::external_body]
fn regex_new(pattern: &str) -> (built: Result<Regex, regex::Error>)
    ensures
        built.is_ok() == pattern_compiles(pattern@),
        built matches Ok(re) ==> pattern_text(re) == pattern@,
{
    Regex::new(pattern)
}

/// Calls `Regex::is_match`; the answer is the named result for this regex and
/// this text.
#[verifier::external_body]
pub(crate) fn regex_is_match(re: &Regex, haystack: &str) -> (found: bool)
    ensures
        found == regex_matches(*re, haystack@),
{
    re.is_match(haystack)
}

/// Calls `Regex::replace_all` with a string replacement and takes ownership
/// of the text that comes back.
#[verifier::external_body]
pub(crate) fn regex_replace_all(re: &Regex, haystack: &str, replacement: &str) -> (text: String)
    ensures
        text@ == regex_replaced(*re, haystack@, replacement@),
{
    re.replace_all(haystack, replacement).into_owned()
}

/// Why a pattern could not be used.
#[derive(Clone, Copy, Debug, PartialEq, Eq, Structural)]
pub enum PatternError {
    /// The engine refused the pattern.
    Invalid,
}

/// Compiles a pattern. It fails exactly on the patterns that the engine
/// refuses, and the regex that comes back is the one built from `pattern`.
pub fn compile(pattern: &str) -> (compiled: Result<Regex, PatternError>)
    ensures
        compiled.is_ok() == pattern_compiles(pattern@),
        compiled matches Ok(re) ==> pattern_text(re) == pattern@,
        compiled matches Err(error) ==> error == PatternError::Invalid,
{
    match regex_new(pattern) {
        Ok(re) => Ok(re),
        Err(_) => Err(PatternError::Invalid),
    }
}

} // verus!
