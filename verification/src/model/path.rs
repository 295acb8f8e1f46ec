//! File paths, carried through but never looked into.
use std::path::PathBuf;
use vstd::prelude::*;

verus! {

/// `std::path::PathBuf`, opaque here.
#[verifier::external_type_specification]
#[verifier::external_body]
pub struct ExPathBuf(std::path::PathBuf);

/// `PathBuf::clone` gives back the same path.
pub assume_specification[ <PathBuf as Clone>::clone ](p: &PathBuf) -> (r: PathBuf)
    ensures
        r == *p,
;

/// What `PathBuf`'s `==` says of two paths. It compares them by their components,
/// so it may also hold of two that are spelled differently.
pub uninterp spec fn paths_equal(a: PathBuf, b: PathBuf) -> bool;

/// `PathBuf`'s `==`: its result goes by the two paths alone, and a path equals
/// itself.
#[verifier::external_body]
pub(crate) fn same_path(a: &PathBuf, b: &PathBuf) -> (r: bool)
    ensures
        r == paths_equal(*a, *b),
        *a == *b ==> r,
{
    a == b
}

} // verus!
