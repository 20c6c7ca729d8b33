//! Destination paths.
//!
//! A destination is a `std::path::PathBuf`. Nothing here looks inside one: the
//! engine only asks whether two destinations are the same, and copies one when
//! a write is handed out.

use std::path::PathBuf;
use vstd::prelude::*;

verus! {

/// Trusted: `std::path::PathBuf`, carried through as an opaque value.
#[verifier::external_type_specification]
#[verifier::external_body]
pub struct ExPathBuf(PathBuf);

/// Trusted: `PathBuf`'s `==`.
///
/// In contracts a path stands for what `==` compares, so that two paths are
/// the same value exactly when `==` holds them equal. `PathBuf` implements
/// `Eq`, so `==` is an equivalence relation, as this reading needs.
#[verifier::external_body]
pub(crate) fn same_path(a: &PathBuf, b: &PathBuf) -> (same: bool)
    ensures
        same == (*a == *b),
{
    a == b
}

/// Trusted: `PathBuf`'s `clone`, which returns a path equal to the one given.
#[verifier::external_body]
pub(crate) fn copy_path(path: &PathBuf) -> (copy: PathBuf)
    ensures
        copy == *path,
{
    path.clone()
}

} // verus!
