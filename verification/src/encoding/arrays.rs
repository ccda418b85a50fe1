//! The small byte containers that hold one encoded character.

use arrayvec::ArrayVec;
use vstd::prelude::*;

verus! {

/// `arrayvec::ArrayVec`: a vector of bounded capacity that lives in place. Nothing is said
/// of what is inside: its contents are spoken of through `array_vec4_bytes`.
#[verifier::external_type_specification]
#[verifier::external_body]
#[verifier::reject_recursive_types(T)]
pub struct ExArrayVec<T, const CAP: usize>(ArrayVec<T, CAP>);

/// The bytes held by an `ArrayVec` of capacity four, in order.
pub uninterp spec fn array_vec4_bytes(v: ArrayVec<u8, 4>) -> Seq<u8>;

/// `ArrayVec::new`: the new vector holds nothing.
#[verifier::external_body]
pub(crate) fn array_vec4_new() -> (v: ArrayVec<u8, 4>)
    ensures
        array_vec4_bytes(v) == Seq::<u8>::empty(),
{
    ArrayVec::new()
}

/// `ArrayVec::push`: the byte is added behind those already held. The method panics on a
/// full vector, which the precondition rules out.
#[verifier::external_body]
pub(crate) fn array_vec4_push(v: &mut ArrayVec<u8, 4>, byte: u8)
    requires
        array_vec4_bytes(*old(v)).len() < 4,
    ensures
        array_vec4_bytes(*final(v)) == array_vec4_bytes(*old(v)).push(byte),
{
    v.push(byte)
}

/// `ArrayVec::as_slice`: the slice shows the bytes held, in order.
#[verifier::external_body]
pub(crate) fn array_vec4_as_slice(v: &ArrayVec<u8, 4>) -> (s: &[u8])
    ensures
        s@ == array_vec4_bytes(*v),
{
    v.as_slice()
}

/// `core::slice::from_ref`: a slice of length one over the referenced value.
pub assume_specification<T>[ core::slice::from_ref::<T> ](s: &T) -> (r: &[T])
    ensures
        r@ == seq![*s],
;

/// `std::char::from_u32`: the character with the given code point, where the code point is a
/// Unicode scalar value, and `None` where it is not.
pub assume_specification[ std::char::from_u32 ](i: u32) -> (r: Option<char>)
    ensures
        r == if i < 0xD800 || (0xE000 <= i && i <= 0x10FFFF) {
            Some(i as char)
        } else {
            None
        },
;

/// A container of the bytes of one encoded character.
pub trait ArrayLike {
    /// The bytes held, in order.
    spec fn bytes(&self) -> Seq<u8>;

    /// The bytes held, as a slice.
    fn slice(&self) -> (s: &[u8])
        ensures
            s@ == self.bytes(),
    ;
}

impl ArrayLike for ArrayVec<u8, 4> {
    open spec fn bytes(&self) -> Seq<u8> {
        array_vec4_bytes(*self)
    }

    fn slice(&self) -> (s: &[u8]) {
        array_vec4_as_slice(self)
    }
}

impl<const N: usize> ArrayLike for [u8; N] {
    open spec fn bytes(&self) -> Seq<u8> {
        self@
    }

    fn slice(&self) -> (s: &[u8]) {
        self.as_slice()
    }
}

impl ArrayLike for u8 {
    open spec fn bytes(&self) -> Seq<u8> {
        seq![*self]
    }

    fn slice(&self) -> (s: &[u8]) {
        core::slice::from_ref(self)
    }
}

} // verus!
