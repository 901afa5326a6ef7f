//! Which of the files of a directory are scanned.

use crate::utils::path::{relative, relative_to, resolve, resolve_from};
use vstd::prelude::*;

verus! {

/// The directory in which a repository keeps its own records.
pub open spec fn git_directory(directory: Seq<char>) -> Seq<char> {
    resolve_from(directory, ".git"@)
}

/// The path lies in the repository's own directory under `directory`.
pub open spec fn in_git_directory(path: Seq<char>, directory: Seq<char>) -> bool {
    relative_to(path, git_directory(directory)).is_some()
}

/// Whether `path` lies in the repository's own directory under `directory`:
/// such files are never scanned.
pub fn is_in_git_directory(path: &str, directory: &str) -> (r: bool)
    ensures
        r == in_git_directory(path@, directory@),
{
    let git = resolve(directory, ".git");
    relative(path, git.as_str()).is_some()
}

} // verus!
