//! Joining path components by a separator. Purely textual: nothing is looked
//! up on disk.

use vstd::prelude::*;
use vstd::string::StringExecFns;

verus! {

/// The text `base`, then `separator`, then `leaf`.
pub open spec fn joined(base: Seq<char>, separator: Seq<char>, leaf: Seq<char>) -> Seq<char> {
    base + separator + leaf
}

/// Joins two path components with the given separator between them.
pub fn join_path(base: &str, separator: &str, leaf: &str) -> (path: String)
    ensures
        path@ == joined(base@, separator@, leaf@),
{
    let mut path = String::from_str(base);
    path.append(separator);
    path.append(leaf);
    path
}

/// Anchors a user-given relative path at the current working directory.
///
/// The result is the working directory, the separator and `name`, in that
/// order. Whether anything exists at that path is not looked at.
pub fn get_absolute_path(current_dir: &str, separator: &str, name: &str) -> (path: String)
    ensures
        path@ == joined(current_dir@, separator@, name@),
{
    join_path(current_dir, separator, name)
}

/// Two leaves that are joined to the same base by the same separator and
/// give the same path are the same leaf: under one root, a path stands for
/// one file name.
pub proof fn same_path_same_leaf(
    base: Seq<char>,
    separator: Seq<char>,
    leaf: Seq<char>,
    other: Seq<char>,
)
    requires
        joined(base, separator, leaf) == joined(base, separator, other),
    ensures
        leaf == other,
{
    let front = base.len() + separator.len();
    let path = joined(base, separator, leaf);
    let other_path = joined(base, separator, other);
    assert(path.len() == front + leaf.len());
    assert(other_path.len() == front + other.len());
    assert(leaf =~= path.subrange(front as int, path.len() as int));
    assert(other =~= other_path.subrange(front as int, other_path.len() as int));
}

} // verus!
