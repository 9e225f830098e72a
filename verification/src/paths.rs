//! Paths of the file system, which this library carries but never reads.

use vstd::prelude::*;
use std::path::PathBuf;

verus! {

/// A path of the file system, as std holds it.
#[verifier::external_type_specification]
#[verifier::external_body]
pub struct ExPathBuf(PathBuf);

/// The path that `std::path::Path::join` gives for `base` and the relative
/// or absolute path written as `component`.
pub uninterp spec fn joined_path(base: PathBuf, component: Seq<char>) -> PathBuf;

/// Adjoins `component` to `base` with `std::path::Path::join`.
///
/// Nothing is proved of this function.  Its contract only gives the result a
/// name: what std makes of the two is not stated here.
#[verifier::external_body]
pub(crate) fn join_path(base: &PathBuf, component: &str) -> (r: PathBuf)
    ensures
        r == joined_path(*base, component@),
{
    base.join(component)
}

} // verus!
