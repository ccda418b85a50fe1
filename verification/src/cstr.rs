//! A generically encoded C-string slice: the counterpart of `std::ffi::CStr` for any
//! encoding that can be null-terminated.
//!
//! See also the [`CStr<E>`] type.

use crate::cstring::CString;
use crate::encoding::model::{
    is_boundary, lemma_end_is_boundary, lemma_split_at_boundary, lemma_subrange_valid,
    lemma_valid_concat, valid, Grammar,
};
use crate::encoding::{validation, AlwaysValid, NullTerminable, ValidateError};
use crate::str::Str;
use crate::utils::{copy_into, find_null, first_null, lemma_first_null};
use core::marker::PhantomData;
use vstd::prelude::*;
use vstd::slice::slice_subrange;

verus! {

broadcast use vstd::slice::group_slice_axioms;

/// Error encountered when creating a [`CStr`] with no terminating null byte.
#[derive(Clone, Copy, Debug, PartialEq, Eq)]
#[non_exhaustive]
pub struct MissingNull;

/// Error encountered while creating a [`CStr`] from bytes until a null byte is encountered.
#[derive(Clone, Copy, Debug, PartialEq, Eq)]
pub enum FromBytesTilNulError {
    /// The input isn't valid for the desired encoding.
    Invalid(ValidateError),
    /// The input doesn't contain any null bytes.
    MissingNull,
}

/// Error encountered while creating a [`CStr`] from bytes with a single terminating null
/// byte.
#[derive(Clone, Copy, Debug, PartialEq, Eq)]
pub enum FromBytesWithNulError {
    /// The input isn't valid for the desired encoding.
    Invalid(ValidateError),
    /// The input contains a null byte not in the final position.
    HasNull {
        /// The index of the located null byte.
        idx: usize,
    },
    /// The input doesn't contain any null bytes.
    MissingNull,
}

/// Error encountered while creating a [`CStr`] from an [`AlwaysValid`] encoding.
#[derive(Clone, Copy, Debug, PartialEq, Eq)]
pub enum FromBytesWithNulValidError {
    /// The input contains a null byte not in the final position.
    HasNull {
        /// The index of the located null byte.
        idx: usize,
    },
    /// The input doesn't contain any null bytes.
    MissingNull,
}

/// Whether `bytes` is a string in the grammar `G` with one null byte behind it and none in
/// it.
pub open spec fn c_string<G: Grammar>(bytes: Seq<u8>) -> bool {
    &&& bytes.len() > 0
    &&& bytes.last() == 0
    &&& first_null(bytes.drop_last()) is None
    &&& valid::<G>(bytes.drop_last())
}

/// What reading a C string from the front of `bytes` comes to: the string before the first
/// null byte, where there is one and the string is valid.
pub open spec fn til_nul<G: Grammar>(bytes: Seq<u8>) -> Result<Seq<u8>, FromBytesTilNulError> {
    match first_null(bytes) {
        None => Err(FromBytesTilNulError::MissingNull),
        Some(nul) => match validation::<G>(bytes.take(nul as int)) {
            Ok(_) => Ok(bytes.take(nul as int)),
            Err(e) => Err(FromBytesTilNulError::Invalid(e)),
        },
    }
}

/// What reading the whole of `bytes` as a C string comes to: the string before the null
/// byte at its end, where there is one, no other stands before it, and the string is valid.
pub open spec fn with_nul<G: Grammar>(bytes: Seq<u8>) -> Result<Seq<u8>, FromBytesWithNulError> {
    if bytes.len() == 0 || bytes.last() != 0 {
        Err(FromBytesWithNulError::MissingNull)
    } else {
        match first_null(bytes.drop_last()) {
            Some(idx) => Err(FromBytesWithNulError::HasNull { idx }),
            None => match validation::<G>(bytes.drop_last()) {
                Ok(_) => Ok(bytes.drop_last()),
                Err(e) => Err(FromBytesWithNulError::Invalid(e)),
            },
        }
    }
}

/// A C-string slice, representing an encoded string with a single null (or zero) byte at the
/// end. This is normally represented in C as a `char*`, and is the most common form of
/// string value there.
///
/// Not all encodings are valid for use in C strings, as some encodings require the use of
/// internal null bytes to represent many characters. The [`NullTerminable`] trait is
/// implemented by all encodings that may be used in C strings.
///
/// Unlike the `std::ffi::CStr` type, this type always holds a valid [`Str<E>`]: it is not
/// arbitrary null-terminated bytes, but correctly encoded data.
#[derive(Debug, PartialEq, Eq, Hash)]
pub struct CStr<'a, E: Grammar> {
    bytes: &'a [u8],
    encoding: PhantomData<E>,
}

impl<'a, E: Grammar> Clone for CStr<'a, E> {
    fn clone(&self) -> (r: Self)
        ensures
            r == *self,
    {
        proof {
            use_type_invariant(self);
        }
        CStr { bytes: self.bytes, encoding: PhantomData }
    }
}

impl<'a, E: Grammar> Copy for CStr<'a, E> {

}

impl<'a, E: NullTerminable> Default for CStr<'a, E> {
    fn default() -> (r: Self)
        ensures
            r@ == Seq::<u8>::empty(),
    {
        CStr::empty()
    }
}

impl<'a, E: Grammar> CStr<'a, E> {
    #[verifier::type_invariant]
    spec fn well_formed(self) -> bool {
        c_string::<E>(self.bytes@)
    }

    /// The bytes of the string, without the null byte behind them.
    pub closed spec fn view(self) -> Seq<u8> {
        self.bytes@.drop_last()
    }
}

impl<'a, E: NullTerminable> CStr<'a, E> {
    /// Create a `CStr` from a byte slice without checking whether it is valid for the
    /// current encoding, or whether it ends with a terminating null byte: the caller vouches
    /// for both.
    pub fn from_bytes_with_nul_unchecked(bytes: &'a [u8]) -> (r: CStr<'a, E>)
        requires
            c_string::<E>(bytes@),
        ensures
            r@ == bytes@.drop_last(),
    {
        CStr { bytes, encoding: PhantomData }
    }

    /// The empty C string.
    pub fn empty() -> (r: CStr<'a, E>)
        ensures
            r@ == Seq::<u8>::empty(),
    {
        let bytes: &'static [u8; 1] = &[0];
        proof {
            assert(bytes@.drop_last() =~= Seq::<u8>::empty());
            lemma_first_null(bytes@.drop_last());
        }
        CStr { bytes: bytes.as_slice(), encoding: PhantomData }
    }

    /// Create a `CStr` from a byte slice, ending at the first null byte. If there are no
    /// null bytes in the slice, or the data up till the first null isn't valid in the
    /// current encoding, then an error will be returned.
    ///
    /// Data *past* the first null byte isn't validated, and a successful return doesn't mean
    /// that data is valid for the current encoding.
    pub fn from_bytes_til_nul(bytes: &'a [u8]) -> (r: Result<CStr<'a, E>, FromBytesTilNulError>)
        ensures
            match til_nul::<E>(bytes@) {
                Ok(s) => r matches Ok(c) && c@ == s,
                Err(e) => r matches Err(found) && found == e,
            },
    {
        let total: usize = bytes.len();
        proof {
            lemma_first_null(bytes@);
        }
        let nul: usize = match find_null(bytes) {
            Some(nul) => nul,
            None => {
                return Err(FromBytesTilNulError::MissingNull);
            },
        };
        match E::validate(slice_subrange(bytes, 0, nul)) {
            Ok(_) => {},
            Err(e) => {
                return Err(FromBytesTilNulError::Invalid(e));
            },
        }
        let with_nul = slice_subrange(bytes, 0, nul + 1);
        proof {
            assert(with_nul@.drop_last() =~= bytes@.take(nul as int));
            lemma_first_null(with_nul@.drop_last());
        }
        Ok(CStr { bytes: with_nul, encoding: PhantomData })
    }

    /// Create a `CStr` from a byte slice, with a single null byte at the end. If there is no
    /// null byte, or there are null bytes at any other position in the slice, an error is
    /// returned. An error will also be returned if the data isn't valid in the current
    /// encoding.
    pub fn from_bytes_with_nul(bytes: &'a [u8]) -> (r: Result<
        CStr<'a, E>,
        FromBytesWithNulError,
    >)
        ensures
            match with_nul::<E>(bytes@) {
                Ok(s) => r matches Ok(c) && c@ == s,
                Err(e) => r matches Err(found) && found == e,
            },
    {
        let len: usize = bytes.len();
        if len == 0 || bytes[len - 1] != 0 {
            return Err(FromBytesWithNulError::MissingNull);
        }
        let slice = slice_subrange(bytes, 0, len - 1);
        assert(slice@ =~= bytes@.drop_last());
        match find_null(slice) {
            Some(idx) => {
                return Err(FromBytesWithNulError::HasNull { idx });
            },
            None => {},
        }
        match E::validate(slice) {
            Ok(_) => {},
            Err(e) => {
                return Err(FromBytesWithNulError::Invalid(e));
            },
        }
        Ok(CStr { bytes, encoding: PhantomData })
    }

    /// Get the underlying bytes for this string, including the terminating null byte.
    pub fn as_bytes_with_nul(&self) -> (r: &'a [u8])
        ensures
            r@ == self@.push(0u8),
            c_string::<E>(r@),
    {
        proof {
            use_type_invariant(self);
            assert(self.bytes@ =~= self.bytes@.drop_last().push(0u8));
        }
        self.bytes
    }

    /// Get the underlying bytes for this string, without the terminating null byte.
    pub fn as_bytes(&self) -> (r: &'a [u8])
        ensures
            r@ == self@,
            valid::<E>(r@),
            first_null(r@) is None,
    {
        self.as_str().as_bytes()
    }

    /// Get the length of this string in bytes, not counting the terminating null byte.
    pub fn len(&self) -> (r: usize)
        ensures
            r == self@.len(),
    {
        proof {
            use_type_invariant(self);
        }
        self.bytes.len() - 1
    }

    /// Whether this string is empty but for the terminating null byte.
    pub fn is_empty(&self) -> (r: bool)
        ensures
            r == (self@.len() == 0),
    {
        self.len() == 0
    }

    /// Check whether the byte at `idx` is on a character boundary. See
    /// [`Str::is_char_boundary`].
    pub fn is_char_boundary(&self, idx: usize) -> (r: bool)
        ensures
            r == is_boundary::<E>(self@, idx as int),
    {
        self.as_str().is_char_boundary(idx)
    }

    /// Whether the part of this C string from byte `start` on starts and ends on character
    /// boundaries.
    pub fn check_bounds(&self, start: usize) -> (r: Option<()>)
        ensures
            r is Some <==> is_boundary::<E>(self@, start as int),
    {
        let end_idx: usize = self.len();
        if !self.is_char_boundary(start) || !self.is_char_boundary(end_idx) {
            proof {
                use_type_invariant(self);
                lemma_end_is_boundary::<E>(self@);
            }
            None
        } else {
            Some(())
        }
    }

    /// Return the part of this `CStr` from byte `start` on. This is the non-panicking form
    /// of slicing: it returns [`None`] where `start` is no character boundary.
    ///
    /// Unlike with `Str`, a `CStr` may only be sliced up to its end. Otherwise it would be
    /// possible to create a `CStr` that didn't end with a terminating null byte.
    pub fn get(&self, start: usize) -> (r: Option<CStr<'a, E>>)
        ensures
            match r {
                Some(c) => is_boundary::<E>(self@, start as int) && c@ == self@.skip(
                    start as int,
                ),
                None => !is_boundary::<E>(self@, start as int),
            },
    {
        let total: usize = self.bytes.len();
        match self.check_bounds(start) {
            Some(_) => {
                proof {
                    use_type_invariant(self);
                    lemma_split_at_boundary::<E>(self@, start as int);
                    lemma_first_null(self@);
                }
                let rest = slice_subrange(self.bytes, start, self.bytes.len());
                proof {
                    assert(rest@.drop_last() =~= self@.skip(start as int));
                    lemma_first_null(rest@.drop_last());
                }
                Some(CStr { bytes: rest, encoding: PhantomData })
            },
            None => None,
        }
    }

    /// Convert this `CStr` into a [`Str`]. Unlike the equivalent std method, this is
    /// infallible, because our `CStr` is encoding-specific instead of arbitrary
    /// null-terminated bytes.
    pub fn as_str(&self) -> (r: Str<'a, E>)
        ensures
            r@ == self@,
            first_null(r@) is None,
    {
        proof {
            use_type_invariant(self);
        }
        let bytes = self.bytes;
        let inner = slice_subrange(bytes, 0, bytes.len() - 1);
        assert(inner@ =~= bytes@.drop_last());
        Str::from_bytes_unchecked(inner)
    }

    /// Copy the data of another C string into a buffer that holds a C string of the same
    /// encoding and of exactly the same length. The buffer then holds the other C string.
    /// [`CStr::copy_range`] is most often more useful than this function.
    pub fn copy_from(buffer: &mut [u8], other: CStr<'_, E>)
        requires
            c_string::<E>(old(buffer)@),
            old(buffer)@.len() == other@.len() + 1,
        ensures
            final(buffer)@ == other@.push(0u8),
            c_string::<E>(final(buffer)@),
    {
        let src = other.as_bytes_with_nul();
        copy_into(buffer, 0, src);
        assert(buffer@ =~= other@.push(0u8));
    }

    /// Copy a part of another C string over a part of a buffer that holds a C string of the
    /// same encoding. The part of the buffer from `start` up to `end` is replaced by the
    /// part of `other` from `other_start` up to `other_end`. The two parts are of the same
    /// length and lie on character boundaries, so that the buffer holds a C string again.
    pub fn copy_range(
        buffer: &mut [u8],
        other: CStr<'_, E>,
        start: usize,
        end: usize,
        other_start: usize,
        other_end: usize,
    )
        requires
            c_string::<E>(old(buffer)@),
            start <= end,
            other_start <= other_end,
            end - start == other_end - other_start,
            is_boundary::<E>(old(buffer)@.drop_last(), start as int),
            is_boundary::<E>(old(buffer)@.drop_last(), end as int),
            is_boundary::<E>(other@, other_start as int),
            is_boundary::<E>(other@, other_end as int),
        ensures
            final(buffer)@ == old(buffer)@.take(start as int) + other@.subrange(
                other_start as int,
                other_end as int,
            ) + old(buffer)@.skip(end as int),
            c_string::<E>(final(buffer)@),
    {
        let total: usize = buffer.len();
        let ghost before: Seq<u8> = buffer@;
        let ghost text: Seq<u8> = before.drop_last();
        let ghost part: Seq<u8> = other@.subrange(other_start as int, other_end as int);
        let other_bytes = other.as_bytes();
        let other_len: usize = other_bytes.len();
        proof {
            lemma_subrange_valid::<E>(other@, other_start as int, other_end as int);
            lemma_split_at_boundary::<E>(text, start as int);
            lemma_split_at_boundary::<E>(text, end as int);
            lemma_valid_concat::<E>(text.take(start as int), part);
            lemma_valid_concat::<E>(text.take(start as int) + part, text.skip(end as int));
            lemma_first_null(text);
            lemma_first_null(other@);
        }
        let src = slice_subrange(other_bytes, other_start, other_end);
        copy_into(buffer, start, src);
        proof {
            let after: Seq<u8> = text.take(start as int) + part + text.skip(end as int);
            assert(buffer@.drop_last() =~= after);
            assert(buffer@ =~= before.take(start as int) + part + before.skip(end as int));
            lemma_first_null(after);
        }
    }

    /// Split this string at an index, returning the two substrings on either side. Returns
    /// [`None`] where the index is the end of the string, lies behind it, or doesn't lie on
    /// a character boundary. The right-side substring is returned as a `CStr`, as it retains
    /// the trailing null.
    pub fn split_at(&self, idx: usize) -> (r: Option<(Str<'a, E>, CStr<'a, E>)>)
        ensures
            match r {
                Some((start, end)) => idx < self@.len() && is_boundary::<E>(self@, idx as int)
                    && start@ == self@.take(idx as int) && end@ == self@.skip(idx as int),
                None => !(idx < self@.len() && is_boundary::<E>(self@, idx as int)),
            },
    {
        let total: usize = self.bytes.len();
        if self.is_char_boundary(idx) && idx < self.len() {
            proof {
                use_type_invariant(self);
                lemma_split_at_boundary::<E>(self@, idx as int);
                lemma_first_null(self@);
            }
            let start = slice_subrange(self.bytes, 0, idx);
            let end = slice_subrange(self.bytes, idx, self.bytes.len());
            proof {
                assert(start@ =~= self@.take(idx as int));
                assert(end@.drop_last() =~= self@.skip(idx as int));
                lemma_first_null(end@.drop_last());
            }
            Some((Str::from_bytes_unchecked(start), CStr { bytes: end, encoding: PhantomData }))
        } else {
            None
        }
    }

    /// Get a copy of this C string that owns its bytes.
    pub fn to_owned(&self) -> (r: CString<E>)
        ensures
            r@ == self@,
    {
        let bytes = self.as_bytes();
        CString::from_vec_unchecked(vstd::slice::slice_to_vec(bytes))
    }
}

impl<'a, E: NullTerminable + AlwaysValid> CStr<'a, E> {
    /// Create a `CStr` from a byte slice, ending at the first null byte. See
    /// [`CStr::from_bytes_til_nul`].
    ///
    /// This method is provided for encodings that have no invalid byte patterns, meaning
    /// encoding validity checking is skipped.
    pub fn from_bytes_til_nul_valid(bytes: &'a [u8]) -> (r: Result<CStr<'a, E>, MissingNull>)
        ensures
            match first_null(bytes@) {
                Some(nul) => r matches Ok(c) && c@ == bytes@.take(nul as int),
                None => r is Err,
            },
    {
        let total: usize = bytes.len();
        proof {
            lemma_first_null(bytes@);
        }
        match find_null(bytes) {
            Some(nul_pos) => {
                let with_nul = slice_subrange(bytes, 0, nul_pos + 1);
                proof {
                    assert(with_nul@.drop_last() =~= bytes@.take(nul_pos as int));
                    lemma_first_null(with_nul@.drop_last());
                    E::lemma_always_valid(with_nul@.drop_last());
                }
                Ok(CStr { bytes: with_nul, encoding: PhantomData })
            },
            None => Err(MissingNull),
        }
    }

    /// Create a `CStr` from a byte slice, with a single null byte at the end. See
    /// [`CStr::from_bytes_with_nul`].
    ///
    /// This method is provided for encodings that have no invalid byte patterns, meaning
    /// encoding validity checking is skipped.
    pub fn from_bytes_with_nul_valid(bytes: &'a [u8]) -> (r: Result<
        CStr<'a, E>,
        FromBytesWithNulValidError,
    >)
        ensures
            if bytes@.len() == 0 || bytes@.last() != 0 {
                r == Err::<CStr<'a, E>, FromBytesWithNulValidError>(
                    FromBytesWithNulValidError::MissingNull,
                )
            } else {
                match first_null(bytes@.drop_last()) {
                    Some(idx) => r == Err::<CStr<'a, E>, FromBytesWithNulValidError>(
                        (FromBytesWithNulValidError::HasNull { idx }),
                    ),
                    None => r matches Ok(c) && c@ == bytes@.drop_last(),
                }
            },
    {
        let len: usize = bytes.len();
        if len == 0 || bytes[len - 1] != 0 {
            return Err(FromBytesWithNulValidError::MissingNull);
        }
        let slice = slice_subrange(bytes, 0, len - 1);
        assert(slice@ =~= bytes@.drop_last());
        match find_null(slice) {
            Some(idx) => {
                return Err(FromBytesWithNulValidError::HasNull { idx });
            },
            None => {},
        }
        proof {
            E::lemma_always_valid(bytes@.drop_last());
        }
        Ok(CStr { bytes, encoding: PhantomData })
    }
}

} // verus!
