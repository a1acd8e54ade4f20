//! The two questions that the browser asks of a path: what its last
//! component is, and what is left without it.

use std::path::Path;
use vstd::prelude::*;

verus! {

/// The last component of a path, as `std::path::Path::file_name` gives it.
pub uninterp spec fn path_file_name(path: Seq<char>) -> Option<Seq<char>>;

/// A path without its last component, as `std::path::Path::parent` gives it.
pub uninterp spec fn path_parent(path: Seq<char>) -> Option<Seq<char>>;

/// The plain value of an optional string.
pub open spec fn text_view(text: Option<String>) -> Option<Seq<char>> {
    match text {
        Some(text) => Some(text@),
        None => None,
    }
}

/// Calls `std::path::Path::file_name` on `path`. The contract only names
/// the result: what the function gives for one path it gives for that path
/// every time. Nothing is claimed of which component it is.
#[verifier::external_body]
pub(crate) fn file_name_of(path: &str) -> (r: Option<String>)
    ensures
        text_view(r) == path_file_name(path@),
{
    let name = Path::new(path).file_name()?;
    Some(name.to_string_lossy().into_owned())
}

/// Calls `std::path::Path::parent` on `path`. The contract only names the
/// result: what the function gives for one path it gives for that path
/// every time. Nothing is claimed of where the path is cut.
#[verifier::external_body]
pub(crate) fn parent_of(path: &str) -> (r: Option<String>)
    ensures
        text_view(r) == path_parent(path@),
{
    let parent = Path::new(path).parent()?;
    Some(parent.to_string_lossy().into_owned())
}

} // verus!
