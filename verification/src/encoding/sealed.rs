//! The seal on the set of encodings.

use vstd::prelude::*;

verus! {

/// Prevents encodings from being implemented outside of this crate: the trait is public, but
/// the module that holds it is not.
pub trait Sealed: Sized {

}

} // verus!
