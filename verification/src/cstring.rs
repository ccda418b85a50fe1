//! A generically encoded owned C string: the counterpart of `std::ffi::CString` for any
//! encoding that can be null-terminated.

use crate::cstr::{c_string, CStr};
use crate::encoding::model::{valid, Grammar};
use crate::encoding::{validation, AlwaysValid, NullTerminable, ValidateError};
use crate::str::Str;
use crate::string::String;
use crate::utils::{find_null, first_null};
use core::marker::PhantomData;
use vstd::prelude::*;

verus! {

/// The cause of an error while creating a [`CString`].
#[derive(Clone, Copy, Debug, PartialEq, Eq)]
#[non_exhaustive]
pub enum CStringErrorCause {
    /// The input wasn't valid for the desired encoding.
    Invalid(ValidateError),
    /// The input contains a null byte not in the final position.
    HasNull {
        /// The position of the null byte in the input.
        idx: usize,
    },
}

impl CStringErrorCause {
    /// A few words on what went wrong.
    pub fn write_cause(&self) -> (r: &'static str)
        ensures
            r@ == match self {
                CStringErrorCause::Invalid(_) => "validation failed"@,
                CStringErrorCause::HasNull { .. } => "null byte encountered"@,
            },
    {
        match self {
            CStringErrorCause::Invalid(_) => "validation failed",
            CStringErrorCause::HasNull { .. } => "null byte encountered",
        }
    }
}

/// An error encountered while creating a new [`CString`] from a container of bytes.
#[derive(Debug, PartialEq, Eq)]
pub struct CStringError {
    /// The input that the error was found in.
    pub bytes: Vec<u8>,
    /// What was found in it.
    pub cause: CStringErrorCause,
}

impl CStringError {
    /// Get the cause of this error.
    pub fn cause(&self) -> (r: &CStringErrorCause)
        ensures
            *r == self.cause,
    {
        &self.cause
    }

    /// Consume this error, returning the input bytes which generated the error in the first
    /// place.
    pub fn into_vec(self) -> (r: Vec<u8>)
        ensures
            r == self.bytes,
    {
        self.bytes
    }
}

/// An error encountered while converting a [`String`] into a [`CString`].
#[derive(Debug, PartialEq, Eq)]
pub struct NulError {
    /// The input that the error was found in.
    pub bytes: Vec<u8>,
    /// The position of its first null byte.
    pub nul_pos: usize,
}

impl NulError {
    /// Returns the position of the null byte in the input that caused the conversion to
    /// fail.
    pub fn nul_position(&self) -> (r: usize)
        ensures
            r == self.nul_pos,
    {
        self.nul_pos
    }

    /// Consume this error, returning the input bytes which generated the error in the first
    /// place.
    pub fn into_vec(self) -> (r: Vec<u8>)
        ensures
            r == self.bytes,
    {
        self.bytes
    }
}

/// A type representing an owned, generically-encoded C-string. This means the string
/// contains a single trailing null byte, with no other null bytes internally.
///
/// This type is to [`CStr`] as [`String`] is to [`Str`] - it represents the owned form of C
/// string, while [`CStr`] represents the borrowed form.
#[derive(Debug, PartialEq, Eq, Hash)]
pub struct CString<E: Grammar> {
    bytes: Vec<u8>,
    encoding: PhantomData<E>,
}

impl<E: Grammar> CString<E> {
    #[verifier::type_invariant]
    spec fn well_formed(self) -> bool {
        c_string::<E>(self.bytes@)
    }

    /// The bytes of the string, without the null byte behind them.
    pub closed spec fn view(self) -> Seq<u8> {
        self.bytes@.drop_last()
    }
}

impl<E: NullTerminable> Default for CString<E> {
    fn default() -> (r: Self)
        ensures
            r@ == Seq::<u8>::empty(),
    {
        proof {
            crate::utils::lemma_first_null(Seq::<u8>::empty());
        }
        CString::from_vec_unchecked(Vec::new())
    }
}

impl<E: NullTerminable> CString<E> {
    /// Create a C string from a byte vector, without checking for interior null bytes or
    /// valid encoding: the caller vouches for both. This method is similar to
    /// [`CString::new`], but without validity checking.
    ///
    /// The trailing null byte will be appended by this method.
    pub fn from_vec_unchecked(bytes: Vec<u8>) -> (r: CString<E>)
        requires
            first_null(bytes@) is None,
            valid::<E>(bytes@),
        ensures
            r@ == bytes@,
    {
        let ghost given: Seq<u8> = bytes@;
        let mut bytes = bytes;
        bytes.push(0);
        assert(bytes@.drop_last() =~= given);
        CString { bytes, encoding: PhantomData }
    }

    /// Create a new C string from a container of bytes. The provided data should contain no
    /// null bytes.
    ///
    /// This function will consume and validate the provided data, checking that it contains
    /// no null bytes and is valid for the current encoding. If those checks pass, a single
    /// null byte is appended to the end. If one fails, the error hands the data back.
    ///
    /// If you have a [`String<E>`], you should prefer [`CString::from_string`]. It is
    /// capable of skipping the encoding check and only validating the lack of null bytes.
    pub fn new(bytes: Vec<u8>) -> (r: Result<CString<E>, CStringError>)
        ensures
            match first_null(bytes@) {
                Some(idx) => r matches Err(e) && e.bytes == bytes && e.cause == (
                CStringErrorCause::HasNull { idx }),
                None => match validation::<E>(bytes@) {
                    Ok(_) => r matches Ok(c) && c@ == bytes@,
                    Err(found) => r matches Err(e) && e.bytes == bytes && e.cause
                        == CStringErrorCause::Invalid(found),
                },
            },
    {
        match find_null(bytes.as_slice()) {
            Some(idx) => {
                return Err(CStringError { bytes, cause: CStringErrorCause::HasNull { idx } });
            },
            None => {},
        }
        match E::validate(bytes.as_slice()) {
            Ok(_) => {},
            Err(e) => {
                return Err(CStringError { bytes, cause: CStringErrorCause::Invalid(e) });
            },
        }
        Ok(Self::from_vec_unchecked(bytes))
    }

    /// Attempt to convert a [`String`] into a `CString`. This fails if the string contains
    /// any internal null bytes. Only the lack of null bytes is checked: the bytes are known
    /// to be valid for the encoding.
    pub fn from_string(value: String<E>) -> (r: Result<CString<E>, NulError>)
        ensures
            match first_null(value@) {
                Some(nul_pos) => r matches Err(e) && e.bytes@ == value@ && e.nul_pos == nul_pos,
                None => r matches Ok(c) && c@ == value@,
            },
    {
        let bytes = value.into_bytes();
        match find_null(bytes.as_slice()) {
            Some(nul_pos) => {
                return Err(NulError { bytes, nul_pos });
            },
            None => {},
        }
        Ok(Self::from_vec_unchecked(bytes))
    }

    /// The C string as a borrowed [`CStr`].
    pub fn as_c_str(&self) -> (r: CStr<'_, E>)
        ensures
            r@ == self@,
    {
        proof {
            use_type_invariant(self);
        }
        CStr::from_bytes_with_nul_unchecked(self.bytes.as_slice())
    }

    /// The C string as a borrowed [`Str`], without the trailing null.
    pub fn as_str(&self) -> (r: Str<'_, E>)
        ensures
            r@ == self@,
    {
        self.as_c_str().as_str()
    }

    /// Convert this `CString` into a [`String`] by removing the trailing null. Unlike the
    /// equivalent `std` method, this is infallible because our `CString` is
    /// encoding-specific.
    pub fn into_string(self) -> (r: String<E>)
        ensures
            r@ == self@,
    {
        proof {
            use_type_invariant(&self);
        }
        String::from_bytes_unchecked(self.into_bytes())
    }

    /// Convert this `CString` into bytes, minus the trailing null byte.
    pub fn into_bytes(self) -> (r: Vec<u8>)
        ensures
            r@ == self@,
    {
        proof {
            use_type_invariant(&self);
        }
        let mut bytes = self.bytes;
        bytes.pop();
        bytes
    }

    /// Convert this `CString` into bytes, including the trailing null byte.
    pub fn into_bytes_with_nul(self) -> (r: Vec<u8>)
        ensures
            r@ == self@.push(0u8),
    {
        proof {
            use_type_invariant(&self);
            assert(self.bytes@ =~= self.bytes@.drop_last().push(0u8));
        }
        self.bytes
    }
}

impl<E: NullTerminable + AlwaysValid> CString<E> {
    /// Create a new C string from a container of bytes. The provided data should contain no
    /// null bytes. See [`CString::new`] for further details.
    ///
    /// This method is provided for encodings that have no invalid byte patterns, meaning
    /// encoding validity checking is skipped.
    pub fn new_valid(bytes: Vec<u8>) -> (r: Result<CString<E>, NulError>)
        ensures
            match first_null(bytes@) {
                Some(nul_pos) => r matches Err(e) && e.bytes@ == bytes@ && e.nul_pos == nul_pos,
                None => r matches Ok(c) && c@ == bytes@,
            },
    {
        proof {
            E::lemma_always_valid(bytes@);
        }
        Self::from_string(String::from_bytes_unchecked(bytes))
    }
}

} // verus!
