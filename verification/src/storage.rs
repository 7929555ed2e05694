//! Where the registry is kept: what has to be there before it is written.

use vstd::prelude::*;

verus! {

/// The parent of a path, as `Path::parent` gives it: the path without its
/// last component; none for the empty path and for one that ends in a
/// root.
pub uninterp spec fn path_parent(path: Seq<char>) -> Option<Seq<char>>;

/// `Path::parent` of the path that `path` spells, as a string. The
/// contract names the result and claims nothing else of it.
#[verifier::external_body]
fn parent_of(path: &str) -> (parent: Option<String>)
    ensures
        parent.deep_view() == path_parent(path@),
{
    let parent = std::path::Path::new(path).parent()?;
    Some(parent.to_str()?.to_owned())
}

/// The directory to create for a file whose path has this parent: the
/// parent, unless the path has none or an empty one.
pub open spec fn directory_of(parent: Option<Seq<char>>) -> Option<Seq<char>> {
    match parent {
        Some(directory) => if directory.len() > 0 {
            Some(directory)
        } else {
            None
        },
        None => None,
    }
}

/// The directory that has to exist before a file with this parent is
/// written: see `directory_of`.
pub fn directory_for(parent: Option<String>) -> (directory: Option<String>)
    ensures
        directory.deep_view() == directory_of(parent.deep_view()),
{
    match parent {
        Some(directory) => if directory.as_str().is_empty() {
            None
        } else {
            Some(directory)
        },
        None => None,
    }
}

/// The directory that has to exist before the registry is written at
/// `path`, and is created where it is missing: the parent of the path,
/// unless it has none or an empty one.
pub fn directory_needed(path: &str) -> (directory: Option<String>)
    ensures
        directory.deep_view() == directory_of(path_parent(path@)),
{
    directory_for(parent_of(path))
}

} // verus!
