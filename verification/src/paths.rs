//! Where the apps keep their files, as paths inside a data directory.
//!
//! Paths are joined by std; the library only decides which names to join.

use std::path::{Path, PathBuf};
use vstd::prelude::*;

verus! {

#[verifier::external_type_specification]
#[verifier::external_body]
pub struct ExPathBuf(PathBuf);

#[verifier::external_type_specification]
#[verifier::external_body]
pub struct ExPath(Path);

/// What `Path::join` returns for `base` and the relative name `name`.
pub uninterp spec fn path_join(base: &Path, name: Seq<char>) -> PathBuf;

/// `Path::join`: `base` with `name` appended as a further component.
#[verifier::external_body]
pub(crate) fn join(base: &Path, name: &str) -> (p: PathBuf)
    ensures
        p == path_join(base, name@),
{
    base.join(name)
}

/// What `Path::to_path_buf` returns for `p`: an owned copy.
pub uninterp spec fn path_owned(p: &Path) -> PathBuf;

/// `Path::to_path_buf`: an owned copy of the path.
#[verifier::external_body]
pub(crate) fn owned(p: &Path) -> (r: PathBuf)
    ensures
        r == path_owned(p),
{
    p.to_path_buf()
}

/// What `PathBuf::as_path` returns for `p`: the path it holds, borrowed.
pub uninterp spec fn path_of(p: &PathBuf) -> &Path;

/// `PathBuf::as_path`: the path an owned path holds.
#[verifier::external_body]
pub(crate) fn as_path(p: &PathBuf) -> (r: &Path)
    ensures
        r == path_of(p),
{
    p.as_path()
}

/// `Path::exists`: whether something is on disk at the path. What it returns depends on the file
/// system at the moment of the call, so nothing is stated of it.
#[verifier::external_body]
pub(crate) fn path_exists(p: &Path) -> bool {
    p.exists()
}

} // verus!
