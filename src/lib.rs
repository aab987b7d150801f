//! Companion "kind" enumerations for sum types.
//!
//! A sum type's companion is a payload-free enumeration with one variant per
//! variant of the sum type, in the same order. Deriving it reads the type
//! definition and an optional `#[kinded(...)]` block (`parse`), names and
//! renders the variants (`casing`), and builds the companion type
//! (`generate`). `kinds` models values of both types.
use vstd::prelude::*;

pub mod casing;
pub mod text;
pub mod model;
pub mod parse;
pub mod generate;
pub mod kinds;
pub mod laws;

verus! {

/// A type whose values each belong to one variant, with a companion type
/// that names the variant without its fields.
pub trait Kinded {
    type Kind: PartialEq + Eq + core::fmt::Debug + Clone + Copy;

    /// The companion variant of `self`.
    spec fn kind_spec(&self) -> Self::Kind;

    /// The companion variant of `self`.
    fn kind(&self) -> (r: Self::Kind)
        ensures
            r == self.kind_spec(),
    ;
}

/// The companion variant of a value of any kinded type.
pub fn compute_kind<T: Kinded>(val: T) -> (r: T::Kind)
    ensures
        r == val.kind_spec(),
{
    val.kind()
}

} // verus!
