//! Paths, as far as the library looks at them: it makes them from text and
//! shows them.

use std::path::PathBuf;
use vstd::prelude::*;

verus! {

/// A path of the file system.
#[verifier::external_type_specification]
#[verifier::external_body]
pub struct ExPathBuf(PathBuf);

/// What a path shows as.
pub uninterp spec fn path_text(path: PathBuf) -> Seq<char>;

/// `PathBuf::from` on a text: the path that shows as this text.
#[verifier::external_body]
pub(crate) fn path_of(s: String) -> (path: PathBuf)
    ensures
        path_text(path) == s@,
{
    PathBuf::from(s)
}

/// `Path::display`, written out: what the path shows as.
#[verifier::external_body]
pub(crate) fn shown(path: &PathBuf) -> (s: String)
    ensures
        s@ == path_text(*path),
{
    path.display().to_string()
}

} // verus!
