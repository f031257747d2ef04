//! Paths of the file system, taken apart and put together by the standard
//! library. What a path means depends on the platform, so little is said of
//! the results here but what the callers decide on: whether there is one.

use vstd::prelude::*;

verus! {

/// Why a path cannot be used.
#[derive(Debug, Clone, Copy, PartialEq, Eq, Structural)]
pub enum PathError {
    /// The path names no file in a directory.
    NoParent,
    /// The file does not lie in the directory.
    NotWithin,
}

impl PathError {
    /// The error in words.
    pub fn message(&self) -> (out: String)
        ensures
            out@ == match *self {
                PathError::NoParent => "Invalid vocabulary notebook file path"@,
                PathError::NotWithin => "Vocabulary file is not within work directory"@,
            },
    {
        match self {
            PathError::NoParent => String::from_str("Invalid vocabulary notebook file path"),
            PathError::NotWithin => String::from_str(
                "Vocabulary file is not within work directory",
            ),
        }
    }
}

/// Calls `std::path::Path::parent`: the path without its last component,
/// where it has one. The contract claims only that the empty path has no
/// parent.
#[verifier::external_body]
pub(crate) fn parent_of(path: &str) -> (r: Option<String>)
    ensures
        path@.len() == 0 ==> r is None,
{
    match std::path::Path::new(path).parent() {
        Some(p) => Some(p.to_string_lossy().into_owned()),
        None => None,
    }
}

/// Calls `std::path::Path::strip_prefix`: the path as seen from `base`,
/// where it lies below it. Nothing is claimed of the result.
#[verifier::external_body]
pub(crate) fn relative_to(path: &str, base: &str) -> (r: Option<String>) {
    match std::path::Path::new(path).strip_prefix(base) {
        Ok(p) => Some(p.to_string_lossy().into_owned()),
        Err(_) => None,
    }
}

/// Calls `std::path::Path::join`: the path of `child` below `base`. Nothing
/// is claimed of the result.
#[verifier::external_body]
pub(crate) fn joined_path(base: &str, child: &str) -> (r: String) {
    std::path::Path::new(base).join(child).to_string_lossy().into_owned()
}

/// The directory of the notebook, from the parent of its path.
pub fn work_dir_from(parent: Option<String>) -> (r: Result<String, PathError>)
    ensures
        r == match parent {
            Some(dir) => Ok::<String, PathError>(dir),
            None => Err::<String, PathError>(PathError::NoParent),
        },
{
    match parent {
        Some(dir) => Ok(dir),
        None => Err(PathError::NoParent),
    }
}

/// The path of the notebook as seen from its directory, from what the
/// stripping of the directory gave.
pub fn relative_path_from(found: Option<String>) -> (r: Result<String, PathError>)
    ensures
        r == match found {
            Some(p) => Ok::<String, PathError>(p),
            None => Err::<String, PathError>(PathError::NotWithin),
        },
{
    match found {
        Some(p) => Ok(p),
        None => Err(PathError::NotWithin),
    }
}

/// The directory in which the notebook lies. It fails exactly where the
/// path has no parent.
pub fn get_work_dir(vocabulary_notebook_file: &str) -> (r: Result<String, PathError>)
    ensures
        r matches Err(e) ==> e == PathError::NoParent,
        vocabulary_notebook_file@.len() == 0 ==> r is Err,
{
    work_dir_from(parent_of(vocabulary_notebook_file))
}

} // verus!
