//! Joining a directory and a file name into a path.

use vstd::prelude::*;

verus! {

/// The path that `Path::join` makes of the directory `dir` and the name
/// `name`.
pub uninterp spec fn path_join(dir: Seq<char>, name: Seq<char>) -> Seq<char>;

/// Joins a directory and a name with `Path::join`; both are strings, so the
/// joined path is one too. The contract claims only that the path depends on
/// the two alone: it is the one that `path_join` names.
#[verifier::external_body]
pub(crate) fn join_path(dir: &str, name: &str) -> (path: String)
    ensures
        path@ == path_join(dir@, name@),
{
    std::path::Path::new(dir).join(name).to_string_lossy().into_owned()
}

} // verus!
