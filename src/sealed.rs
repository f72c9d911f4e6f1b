use vstd::prelude::*;

verus! {

/// Marker that closes the numeric capabilities: the trait is public but its
/// module is private, so no type outside this crate can implement it.
pub trait Sealed {}

} // verus!
