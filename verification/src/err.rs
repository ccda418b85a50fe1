//! The errors that re-encoding a string reports.

use crate::encoding::{Grammar, RecodeCause};
use crate::str::Str;
use vstd::prelude::*;

verus! {

/// Error encountered while re-encoding a [`Str`] or [`CStr`](crate::CStr) into another
/// format: the input holds a character that the new encoding cannot represent.
#[derive(Clone, Copy, Debug, PartialEq, Eq)]
pub struct RecodeError {
    /// Length of the input before the character.
    pub valid_up_to: usize,
    /// The character that has no representation.
    pub char: char,
    /// Length of the character in the input.
    pub char_len: usize,
}

impl RecodeError {
    /// The length of valid data in the input before the error was encountered. Calling
    /// [`recode`](Str::recode) again on the input sliced down to this length will succeed.
    pub fn valid_up_to(&self) -> (r: usize)
        ensures
            r == self.valid_up_to,
    {
        self.valid_up_to
    }

    /// The character encountered that caused re-encoding to fail. This character isn't
    /// supported by the new encoding.
    pub fn char(&self) -> (r: char)
        ensures
            r == self.char,
    {
        self.char
    }

    /// The length of the character in the input encoding. Skipping this many bytes forwards
    /// from [`valid_up_to`](Self::valid_up_to) and trying again will avoid this particular
    /// error character (though recoding may fail again immediately due to another invalid
    /// character).
    pub fn char_len(&self) -> (r: usize)
        ensures
            r == self.char_len,
    {
        self.char_len
    }
}

/// Error encountered while re-encoding a [`Str`] or [`CStr`](crate::CStr) into another
/// format in a pre-allocated buffer.
#[derive(Debug, PartialEq, Eq)]
pub struct RecodeIntoError<'a, E: Grammar> {
    input_used: usize,
    str: Str<'a, E>,
    cause: RecodeCause,
}

impl<'a, E: Grammar> RecodeIntoError<'a, E> {
    /// The length of the input that was converted.
    pub closed spec fn spec_valid_up_to(self) -> usize {
        self.input_used
    }

    /// The part of the output that was written.
    pub closed spec fn spec_output_valid(self) -> Str<'a, E> {
        self.str
    }

    /// Why the conversion stopped.
    pub closed spec fn spec_cause(self) -> RecodeCause {
        self.cause
    }

    /// Puts the error of a conversion together with the output that the conversion wrote.
    pub fn from_recode(err: crate::encoding::RecodeError, str: Str<'a, E>) -> (r: Self)
        ensures
            r.spec_valid_up_to() == err.input_used,
            r.spec_output_valid() == str,
            r.spec_cause() == err.cause,
    {
        RecodeIntoError { input_used: err.input_used(), str, cause: *err.cause() }
    }

    /// The length of valid data in the input before the error was encountered. Calling
    /// [`recode_into`](Str::recode_into) again on the input sliced down to this length will
    /// succeed.
    pub fn valid_up_to(&self) -> (r: usize)
        ensures
            r == self.spec_valid_up_to(),
    {
        self.input_used
    }

    /// The portion of the buffer with valid data written into it, as a [`Str`] in the
    /// desired encoding.
    pub fn output_valid(&self) -> (r: Str<'a, E>)
        ensures
            r == self.spec_output_valid(),
    {
        self.str
    }

    /// The reason encoding stopped. See [`RecodeCause`] for more details on possible
    /// reasons.
    pub fn cause(&self) -> (r: &RecodeCause)
        ensures
            *r == self.spec_cause(),
    {
        &self.cause
    }
}

} // verus!
