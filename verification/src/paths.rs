//! File paths, compared the way the standard library compares them.

use std::path::PathBuf;
use vstd::prelude::*;

verus! {

/// A file path. Two paths with the same components are one value, so `==` on
/// paths in a contract is the equality of `std::path::PathBuf`.
#[verifier::external_type_specification]
#[verifier::external_body]
pub struct ExPathBuf(std::path::PathBuf);

/// Calls `PathBuf::eq`. The claim is that it decides whether the two paths are
/// the same value.
#[verifier::external_body]
pub(crate) fn same_path(a: &PathBuf, b: &PathBuf) -> (same: bool)
    ensures
        same == (*a == *b),
{
    a == b
}

/// Calls `PathBuf::clone`. The claim is that the copy is the same path.
#[verifier::external_body]
pub(crate) fn copy_path(path: &PathBuf) -> (copy: PathBuf)
    ensures
        copy == *path,
{
    path.clone()
}

/// A copy of an optional path.
pub(crate) fn copy_opt_path(path: &Option<PathBuf>) -> (copy: Option<PathBuf>)
    ensures
        copy == *path,
{
    match path {
        Some(path) => Some(copy_path(path)),
        None => None,
    }
}

} // verus!
