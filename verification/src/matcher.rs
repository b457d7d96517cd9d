//! Deciding which files match and what their rewritten text is.

use crate::engine::regex_is_match;
use crate::engine::regex_matches;
use crate::engine::regex_replace_all;
use crate::engine::regex_replaced;
use regex::Regex;
use vstd::prelude::*;
use vstd::string::StringExecFns;

verus! {

/// A regular file found under the source root. `lines` holds the lines that
/// could be read, in order and without their line ends, or `None` where the
/// file could not be opened.
#[derive(Clone, Debug, PartialEq, Eq)]
pub struct CandidateFile {
    pub path: String,
    pub name: String,
    pub lines: Option<Vec<String>>,
}

/// A file whose text matched, with the text to write in its place.
#[derive(Clone, Debug, PartialEq, Eq)]
pub struct MatchedFile {
    pub path: String,
    pub name: String,
    pub content: String,
}

/// A matched file as plain text values.
pub struct MatchedFileView {
    pub path: Seq<char>,
    pub name: Seq<char>,
    pub content: Seq<char>,
}

impl View for MatchedFile {
    type V = MatchedFileView;

    open spec fn view(&self) -> MatchedFileView {
        MatchedFileView { path: self.path@, name: self.name@, content: self.content@ }
    }
}

/// The views of a sequence of matched files, one for one.
pub open spec fn views(files: Seq<MatchedFile>) -> Seq<MatchedFileView> {
    Seq::new(files.len(), |i: int| files[i]@)
}

/// The lines as one text, with a line feed between each two neighbours and
/// none after the last.
pub open spec fn joined_lines(lines: Seq<String>) -> Seq<char>
    decreases lines.len(),
{
    if lines.len() == 0 {
        Seq::empty()
    } else if lines.len() == 1 {
        lines[0]@
    } else {
        joined_lines(lines.drop_last()) + "\n"@ + lines.last()@
    }
}

/// Whether the file could be read and the pattern occurs in its text.
pub open spec fn file_matches(re: Regex, file: CandidateFile) -> bool {
    match file.lines {
        Some(lines) => regex_matches(re, joined_lines(lines@)),
        None => false,
    }
}

/// The record that a matching file leaves: its path and name, and its text
/// with the matches replaced.
pub open spec fn match_of(
    re: Regex,
    replacement: Seq<char>,
    file: CandidateFile,
) -> MatchedFileView {
    MatchedFileView {
        path: file.path@,
        name: file.name@,
        content: match file.lines {
            Some(lines) => regex_replaced(re, joined_lines(lines@), replacement),
            None => Seq::empty(),
        },
    }
}

/// The records of the matching files among `files`, in the order of `files`.
pub open spec fn scanned(
    re: Regex,
    replacement: Seq<char>,
    files: Seq<CandidateFile>,
) -> Seq<MatchedFileView>
    decreases files.len(),
{
    if files.len() == 0 {
        Seq::empty()
    } else if file_matches(re, files.last()) {
        scanned(re, replacement, files.drop_last()).push(match_of(re, replacement, files.last()))
    } else {
        scanned(re, replacement, files.drop_last())
    }
}

/// The number of matching files among the first `upto` of `files`: the place
/// that the record of the file at `upto` takes, if that file matches.
pub open spec fn rank(
    re: Regex,
    replacement: Seq<char>,
    files: Seq<CandidateFile>,
    upto: int,
) -> nat {
    scanned(re, replacement, files.take(upto)).len()
}

/// Every matching file leaves exactly one record, at the place that the
/// number of matching files before it gives: its name unchanged, its text
/// with the matches replaced.
pub proof fn scanned_holds_each_match(
    re: Regex,
    replacement: Seq<char>,
    files: Seq<CandidateFile>,
    i: int,
)
    requires
        0 <= i < files.len(),
        file_matches(re, files[i]),
    ensures
        rank(re, replacement, files, i) < scanned(re, replacement, files).len(),
        scanned(re, replacement, files)[rank(re, replacement, files, i) as int] == match_of(
            re,
            replacement,
            files[i],
        ),
    decreases files.len(),
{
    let earlier = files.drop_last();
    if i == files.len() - 1 {
        assert(files.take(i) =~= earlier);
    } else {
        scanned_holds_each_match(re, replacement, earlier, i);
        assert(earlier.take(i) =~= files.take(i));
    }
}

/// Every record comes from a matching file, and a file that does not match
/// leaves none: the record at place `j` belongs to a file that matches and
/// has exactly `j` matching files before it.
pub proof fn scanned_holds_only_matches(
    re: Regex,
    replacement: Seq<char>,
    files: Seq<CandidateFile>,
    j: int,
) -> (i: int)
    requires
        0 <= j < scanned(re, replacement, files).len(),
    ensures
        0 <= i < files.len(),
        file_matches(re, files[i]),
        rank(re, replacement, files, i) == j,
        scanned(re, replacement, files)[j] == match_of(re, replacement, files[i]),
    decreases files.len(),
{
    let earlier = files.drop_last();
    if file_matches(re, files.last()) && j == scanned(re, replacement, earlier).len() {
        assert(files.take(files.len() - 1) =~= earlier);
        files.len() - 1
    } else {
        let i = scanned_holds_only_matches(re, replacement, earlier, j);
        assert(earlier.take(i) =~= files.take(i));
        i
    }
}

/// The records never outnumber the files.
pub proof fn scanned_is_no_longer(re: Regex, replacement: Seq<char>, files: Seq<CandidateFile>)
    ensures
        scanned(re, replacement, files).len() <= files.len(),
    decreases files.len(),
{
    if files.len() > 0 {
        scanned_is_no_longer(re, replacement, files.drop_last());
    }
}

/// Builds one text out of a file's lines.
pub fn join_lines(lines: &Vec<String>) -> (text: String)
    ensures
        text@ == joined_lines(lines@),
{
    let mut text = String::new();
    let mut i: usize = 0;
    while i < lines.len()
        invariant
            i <= lines.len(),
            text@ == joined_lines(lines@.take(i as int)),
        decreases lines.len() - i,
    {
        proof {
            assert(lines@.take(i + 1).drop_last() =~= lines@.take(i as int));
            assert(lines@.take(i + 1).last() == lines@[i as int]);
            if i == 1 {
                assert(lines@.take(1).drop_last() =~= Seq::<String>::empty());
                assert(lines@.take(1)[0] == lines@[0]);
            }
        }
        if i > 0 {
            text.append("\n");
        }
        text.append(lines[i].as_str());
        i = i + 1;
    }
    proof {
        assert(lines@.take(lines.len() as int) =~= lines@);
    }
    text
}

/// The record of a file that matched, given its rewritten text.
pub fn matched_file(file: &CandidateFile, content: String) -> (matched: MatchedFile)
    ensures
        matched.path == file.path,
        matched.name == file.name,
        matched.content == content,
{
    MatchedFile { path: file.path.clone(), name: file.name.clone(), content }
}

/// Tests one file against the pattern. A file that matches yields its record;
/// a file that does not match, or could not be read, yields nothing.
pub fn scan_file(re: &Regex, replacement: &str, file: &CandidateFile) -> (found: Option<
    MatchedFile,
>)
    ensures
        file_matches(*re, *file) ==> found.is_some() && found.unwrap()@ == match_of(
            *re,
            replacement@,
            *file,
        ),
        !file_matches(*re, *file) ==> found.is_none(),
{
    match &file.lines {
        Some(lines) => {
            let text = join_lines(lines);
            if regex_is_match(re, text.as_str()) {
                let content = regex_replace_all(re, text.as_str(), replacement);
                Some(matched_file(file, content))
            } else {
                None
            }
        },
        None => None,
    }
}

/// Tests every file, in order, and collects the records of those that match.
pub fn scan(re: &Regex, replacement: &str, files: &Vec<CandidateFile>) -> (matched: Vec<
    MatchedFile,
>)
    ensures
        views(matched@) == scanned(*re, replacement@, files@),
{
    let mut matched: Vec<MatchedFile> = Vec::new();
    let mut i: usize = 0;
    while i < files.len()
        invariant
            i <= files.len(),
            views(matched@) == scanned(*re, replacement@, files@.take(i as int)),
        decreases files.len() - i,
    {
        proof {
            assert(files@.take(i + 1).drop_last() =~= files@.take(i as int));
            assert(files@.take(i + 1).last() == files@[i as int]);
        }
        let ghost before = matched@;
        match scan_file(re, replacement, &files[i]) {
            Some(record) => {
                matched.push(record);
                proof {
                    assert(views(matched@) =~= views(before).push(record@));
                }
            },
            None => {},
        }
        i = i + 1;
    }
    proof {
        assert(files@.take(files.len() as int) =~= files@);
    }
    matched
}

} // verus!
