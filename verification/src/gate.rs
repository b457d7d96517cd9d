//! The destination gate: the one-time decision whether the destination root
//! may be written to, and how a reply to the creation prompt is read.

use vstd::prelude::*;
use vstd::string::StrSliceExecFns;

verus! {

/// Where the destination stands. `Exists` and `Created` let writes through;
/// `Aborted` ends the run.
#[derive(Clone, Copy, Debug, PartialEq, Eq, Structural)]
pub enum Gate {
    Unchecked,
    PromptedCreate,
    Exists,
    Created,
    Aborted,
}

/// How a reply to the creation prompt was understood.
#[derive(Clone, Copy, Debug, PartialEq, Eq, Structural)]
pub enum PromptAnswer {
    Affirmative,
    Negative,
    Cancel,
    Unrecognized,
}

impl Gate {
    /// Whether writes may go ahead.
    pub open spec fn is_open(self) -> bool {
        self == Gate::Exists || self == Gate::Created
    }

    /// Whether writes may go ahead.
    pub fn open(self) -> (open: bool)
        ensures
            open == self.is_open(),
    {
        match self {
            Gate::Exists => true,
            Gate::Created => true,
            _ => false,
        }
    }
}

/// Whether `char::is_whitespace` holds of a character: whether it has the
/// Unicode property White_Space.
pub uninterp spec fn is_white_space(c: char) -> bool;

/// Whether the positions from `from` up to `to` are what is left of `text`
/// once the white space at its two ends is taken away.
pub open spec fn trims_to(text: Seq<char>, from: int, to: int) -> bool {
    &&& 0 <= from <= to <= text.len()
    &&& forall|i: int| 0 <= i < from ==> is_white_space(#[trigger] text[i])
    &&& forall|i: int| to <= i < text.len() ==> is_white_space(#[trigger] text[i])
    &&& from < to ==> !is_white_space(text[from]) && !is_white_space(text[to - 1])
}

/// Whether `inner` is the stretch of `text` from `from` up to `to`, and that
/// stretch is what trimming leaves.
pub open spec fn trims_into(text: Seq<char>, inner: Seq<char>, from: int, to: int) -> bool {
    trims_to(text, from, to) && inner == text.subrange(from, to)
}

/// The text without the white space at its two ends.
pub open spec fn trimmed(text: Seq<char>) -> Seq<char> {
    let (from, to) = choose|from: int, to: int| trims_to(text, from, to);
    text.subrange(from, to)
}

/// What `str::to_lowercase` makes of a text.
pub uninterp spec fn lowercased(text: Seq<char>) -> Seq<char>;

/// Calls `str::trim`. The slice that comes back is a stretch of the text
/// with nothing but white space before and after it, and with no white space
/// at its own two ends.
#[verifier::external_body]
fn str_trim(text: &str) -> (inner: &str)
    ensures
        exists|cut: (int, int)| #[trigger] trims_into(text@, inner@, cut.0, cut.1),
        inner@.len() > 0 ==> !is_white_space(inner@.first()) && !is_white_space(inner@.last()),
{
    text.trim()
}

/// Taking the white space away from the two ends of a text leaves one
/// result only, wherever the cuts are made.
pub proof fn trims_to_one_text(text: Seq<char>, from: int, to: int, other_from: int, other_to: int)
    requires
        trims_to(text, from, to),
        trims_to(text, other_from, other_to),
    ensures
        text.subrange(from, to) == text.subrange(other_from, other_to),
{
    if from < to {
        assert(!is_white_space(text[from]));
        assert(!is_white_space(text[to - 1]));
        assert(other_from <= from < other_to);
        assert(other_from < to <= other_to);
        assert(!is_white_space(text[other_from]));
        assert(!is_white_space(text[other_to - 1]));
        assert(from == other_from);
        assert(to == other_to);
    } else {
        if other_from < other_to {
            assert(!is_white_space(text[other_from]));
        }
        assert(text.subrange(from, to) =~= text.subrange(other_from, other_to));
    }
}

/// A text with no white space at either end is its own trimmed form.
pub proof fn trimmed_keeps_plain_text(text: Seq<char>)
    requires
        text.len() > 0 ==> !is_white_space(text.first()) && !is_white_space(text.last()),
    ensures
        trimmed(text) == text,
{
    assert(trims_to(text, 0, text.len() as int));
    let (from, to) = choose|from: int, to: int| trims_to(text, from, to);
    trims_to_one_text(text, from, to, 0, text.len() as int);
    assert(text.subrange(0, text.len() as int) =~= text);
}

/// The text without the white space at its two ends.
pub fn trim(text: &str) -> (inner: &str)
    ensures
        inner@ == trimmed(text@),
{
    let inner = str_trim(text);
    proof {
        let cut = choose|cut: (int, int)| #[trigger] trims_into(text@, inner@, cut.0, cut.1);
        let (from, to) = choose|from: int, to: int| trims_to(text@, from, to);
        trims_to_one_text(text@, cut.0, cut.1, from, to);
    }
    inner
}

/// Calls `str::to_lowercase`; the string that comes back is the named result
/// for the text.
#[verifier::external_body]
fn str_to_lowercase(text: &str) -> (lower: String)
    ensures
        lower@ == lowercased(text@),
{
    text.to_lowercase()
}

/// The meaning of a reply that has been trimmed and put in lower case: the
/// empty reply and `y` agree, `n` declines, `c` cancels, and anything else is
/// not understood.
pub open spec fn answer_of(reply: Seq<char>) -> PromptAnswer {
    if reply.len() == 0 {
        PromptAnswer::Affirmative
    } else if reply.len() == 1 && reply[0] == 'y' {
        PromptAnswer::Affirmative
    } else if reply.len() == 1 && reply[0] == 'n' {
        PromptAnswer::Negative
    } else if reply.len() == 1 && reply[0] == 'c' {
        PromptAnswer::Cancel
    } else {
        PromptAnswer::Unrecognized
    }
}

/// Reads a reply that has already been trimmed and put in lower case.
pub fn read_answer(reply: &str) -> (answer: PromptAnswer)
    ensures
        answer == answer_of(reply@),
{
    let length: usize = reply.unicode_len();
    if length == 0 {
        PromptAnswer::Affirmative
    } else if length == 1 {
        let letter: char = reply.get_char(0);
        if letter == 'y' {
            PromptAnswer::Affirmative
        } else if letter == 'n' {
            PromptAnswer::Negative
        } else if letter == 'c' {
            PromptAnswer::Cancel
        } else {
            PromptAnswer::Unrecognized
        }
    } else {
        PromptAnswer::Unrecognized
    }
}

/// Reads a reply as it was typed: white space around it and the case of its
/// letters do not count.
pub fn classify_response(response: &str) -> (answer: PromptAnswer)
    ensures
        answer == answer_of(lowercased(trimmed(response@))),
{
    let inner = trim(response);
    let lower = str_to_lowercase(inner);
    read_answer(lower.as_str())
}

} // verus!
