//! A generically encoded string slice: the counterpart of [`str`] for any [`Encoding`].
//!
//! See also the [`Str<E>`] type.

use crate::encoding::model::{
    decode, encode_all, encode_all_lossy, first_unencodable, is_boundary, lemma_encode_all_concat,
    lemma_encode_all_valid, lemma_encoding_valid, lemma_end_is_boundary, lemma_first_unencodable,
    lemma_recode_progress, lemma_split_at_boundary, lemma_subrange_valid, lossy_encoding,
    recode_spec, valid, Grammar,
};
use crate::encoding::utf::{lemma_utf8_model, unit16_bytes};
use crate::encoding::{
    recode, recode_result, validation, AlwaysValid, Encoding, RecodeCause, Utf16, Utf32, Utf8,
    ValidateError,
};
use crate::string::String;
use crate::utils::{copy_into, ends_with, grow, starts_with};
use core::marker::PhantomData;
use vstd::prelude::*;
use vstd::slice::slice_subrange;
use vstd::string::StringSliceAdditionalSpecFns;
use vstd::utf8::{encode_utf8, encode_utf8_valid_utf8, valid_utf8};

pub mod iter;

pub use crate::err::{RecodeError, RecodeIntoError};
pub use iter::{CharIndices, Chars};

verus! {

broadcast use vstd::slice::group_slice_axioms;

/// A borrowed string in the encoding `E`: a view of bytes that are known to be valid for it.
///
/// The type corresponds to `&str`: it is a plain handle that can be copied freely. `Str`
/// only implements `==` between instances with the same encoding. To compare strings of
/// different encoding by characters, compare what `chars().collect()` gives.
#[derive(Debug, PartialEq, Eq, Hash)]
pub struct Str<'a, E: Grammar> {
    bytes: &'a [u8],
    encoding: PhantomData<E>,
}

impl<'a, E: Grammar> Clone for Str<'a, E> {
    fn clone(&self) -> (r: Self)
        ensures
            r == *self,
    {
        proof {
            use_type_invariant(self);
        }
        Str { bytes: self.bytes, encoding: PhantomData }
    }
}

impl<'a, E: Grammar> Copy for Str<'a, E> {

}

impl<'a, E: Grammar> Default for Str<'a, E> {
    fn default() -> (r: Self)
        ensures
            r@ == Seq::<u8>::empty(),
    {
        Str::empty()
    }
}

/// `core::str::from_utf8`, on bytes that are known to be valid UTF-8: the string slice over
/// the same bytes. The function returns an error for any other bytes, which the precondition
/// rules out.
#[verifier::external_body]
fn str_from_utf8<'a>(bytes: &'a [u8]) -> (r: &'a str)
    requires
        valid_utf8(bytes@),
    ensures
        r.spec_bytes() == bytes@,
{
    core::str::from_utf8(bytes).unwrap()
}

/// The bytes of a sequence of 16-bit units, each unit in the given byte order.
pub open spec fn units16_bytes(units: Seq<u16>, big: bool) -> Seq<u8>
    decreases units.len(),
{
    if units.len() == 0 {
        Seq::empty()
    } else {
        units16_bytes(units.drop_last(), big) + unit16_bytes(units.last() as int, big)
    }
}

/// The four bytes of a 32-bit unit, in the given byte order.
pub open spec fn unit32_bytes(u: int, big: bool) -> Seq<u8> {
    if big {
        seq![
            (u / 0x1000000) as u8,
            (u / 0x10000 % 0x100) as u8,
            (u / 0x100 % 0x100) as u8,
            (u % 0x100) as u8,
        ]
    } else {
        seq![
            (u % 0x100) as u8,
            (u / 0x100 % 0x100) as u8,
            (u / 0x10000 % 0x100) as u8,
            (u / 0x1000000) as u8,
        ]
    }
}

/// The bytes of a sequence of 32-bit units, each unit in the given byte order.
pub open spec fn units32_bytes(units: Seq<u32>, big: bool) -> Seq<u8>
    decreases units.len(),
{
    if units.len() == 0 {
        Seq::empty()
    } else {
        units32_bytes(units.drop_last(), big) + unit32_bytes(units.last() as int, big)
    }
}

/// `bytemuck::must_cast_slice`, from 16-bit units to bytes: the same memory, seen as bytes.
/// Each unit shows as its two bytes in the byte order of the machine, which is either of
/// the two.
#[verifier::external_body]
fn cast_units16<'a>(units: &'a [u16]) -> (bytes: &'a [u8])
    ensures
        bytes@ == units16_bytes(units@, false) || bytes@ == units16_bytes(units@, true),
{
    bytemuck::must_cast_slice(units)
}

/// `bytemuck::must_cast_slice`, from 32-bit units to bytes: the same memory, seen as bytes.
/// Each unit shows as its four bytes in the byte order of the machine, which is either of
/// the two.
#[verifier::external_body]
fn cast_units32<'a>(units: &'a [u32]) -> (bytes: &'a [u8])
    ensures
        bytes@ == units32_bytes(units@, false) || bytes@ == units32_bytes(units@, true),
{
    bytemuck::must_cast_slice(units)
}

/// How far the free space `free` falls short of `max`.
pub open spec fn slack(max: int, free: int) -> nat {
    if free >= max {
        0
    } else {
        (max - free) as nat
    }
}

impl<'a, E: Grammar> Str<'a, E> {
    #[verifier::type_invariant]
    spec fn well_formed(self) -> bool {
        valid::<E>(self.bytes@)
    }

    /// The bytes of the string.
    pub closed spec fn view(self) -> Seq<u8> {
        self.bytes@
    }

    /// Create a `Str` from a byte slice without checking whether it is valid for the current
    /// encoding: the caller vouches for it.
    pub fn from_bytes_unchecked(bytes: &'a [u8]) -> (r: Str<'a, E>)
        requires
            valid::<E>(bytes@),
        ensures
            r@ == bytes@,
    {
        Str { bytes, encoding: PhantomData }
    }

    /// The empty string.
    pub fn empty() -> (r: Str<'a, E>)
        ensures
            r@ == Seq::<u8>::empty(),
    {
        let bytes: &'static [u8; 0] = &[];
        assert(bytes@ =~= Seq::<u8>::empty());
        Str { bytes: bytes.as_slice(), encoding: PhantomData }
    }

    /// Get the underlying bytes for this string. They are valid for the encoding.
    pub fn as_bytes(&self) -> (r: &'a [u8])
        ensures
            r@ == self@,
            valid::<E>(r@),
    {
        proof {
            use_type_invariant(self);
        }
        self.bytes
    }

    /// Get the length of this string in bytes.
    pub fn len(&self) -> (r: usize)
        ensures
            r == self@.len(),
    {
        self.bytes.len()
    }

    /// Whether this string is empty - IE is a zero-length slice.
    pub fn is_empty(&self) -> (r: bool)
        ensures
            r == (self@.len() == 0),
    {
        self.bytes.len() == 0
    }

    /// Copy the data from another string into a buffer that holds a string of the same
    /// encoding and of exactly the same length. The buffer then holds the other string.
    pub fn copy_from(buffer: &mut [u8], other: Str<'_, E>)
        requires
            valid::<E>(old(buffer)@),
            old(buffer)@.len() == other@.len(),
        ensures
            final(buffer)@ == other@,
            valid::<E>(final(buffer)@),
    {
        proof {
            use_type_invariant(&other);
        }
        copy_into(buffer, 0, other.bytes);
        assert(buffer@ =~= other@);
    }

    /// Returns `true` if the given pattern is a prefix of this string slice, `false`
    /// otherwise.
    pub fn starts_with(&self, other: Str<'_, E>) -> (r: bool)
        ensures
            r == other@.is_prefix_of(self@),
    {
        starts_with(self.bytes, other.bytes)
    }

    /// Returns `true` if the given pattern is a suffix of this string slice, `false`
    /// otherwise.
    pub fn ends_with(&self, other: Str<'_, E>) -> (r: bool)
        ensures
            r == other@.is_suffix_of(self@),
    {
        ends_with(self.bytes, other.bytes)
    }
}

impl<'a, E: Encoding> Str<'a, E> {
    /// Create a `Str` from a byte slice, validating the encoding and returning a
    /// [`ValidateError`] if it is not a valid string in the current encoding.
    pub fn from_bytes(bytes: &'a [u8]) -> (r: Result<Str<'a, E>, ValidateError>)
        ensures
            match validation::<E>(bytes@) {
                Ok(_) => r matches Ok(s) && s@ == bytes@,
                Err(e) => r matches Err(found) && found == e,
            },
    {
        match E::validate(bytes) {
            Ok(_) => Ok(Str { bytes, encoding: PhantomData }),
            Err(e) => Err(e),
        }
    }

    /// Whether both ends of a range of bytes lie on character boundaries.
    pub fn check_bounds(&self, start: usize, end: usize) -> (r: Option<()>)
        ensures
            r is Some <==> is_boundary::<E>(self@, start as int) && is_boundary::<E>(
                self@,
                end as int,
            ),
    {
        if !self.is_char_boundary(start) || !self.is_char_boundary(end) {
            None
        } else {
            Some(())
        }
    }

    /// Return the part of this `Str` from byte `start` up to byte `end`. This is the
    /// non-panicking form of slicing: it returns [`None`] where the range is not in order or
    /// one of its ends is no character boundary.
    pub fn get(&self, start: usize, end: usize) -> (r: Option<Str<'a, E>>)
        ensures
            match r {
                Some(s) => start <= end <= self@.len() && is_boundary::<E>(self@, start as int)
                    && is_boundary::<E>(self@, end as int) && s@ == self@.subrange(
                    start as int,
                    end as int,
                ),
                None => !(start <= end && is_boundary::<E>(self@, start as int) && is_boundary::<
                    E,
                >(self@, end as int)),
            },
    {
        if start > end {
            return None;
        }
        match self.check_bounds(start, end) {
            Some(_) => Some(self.get_unchecked(start, end)),
            None => None,
        }
    }

    /// Return the part of this `Str` from byte `start` up to byte `end`, for a range that
    /// the caller knows to lie on character boundaries.
    pub fn get_unchecked(&self, start: usize, end: usize) -> (r: Str<'a, E>)
        requires
            start <= end,
            is_boundary::<E>(self@, start as int),
            is_boundary::<E>(self@, end as int),
        ensures
            end <= self@.len(),
            r@ == self@.subrange(start as int, end as int),
    {
        proof {
            use_type_invariant(self);
            lemma_subrange_valid::<E>(self@, start as int, end as int);
        }
        Str { bytes: slice_subrange(self.bytes, start, end), encoding: PhantomData }
    }

    /// Check whether the byte at `idx` is on a character boundary - IE is the first byte in
    /// a code point or the end of the string.
    ///
    /// The start and end of the string are considered boundaries, indexes greater than
    /// `self.len()` are considered not boundaries.
    pub fn is_char_boundary(&self, idx: usize) -> (r: bool)
        ensures
            r == is_boundary::<E>(self@, idx as int),
            idx == 0 || idx == self@.len() ==> r,
            idx > self@.len() ==> !r,
    {
        proof {
            use_type_invariant(self);
            lemma_end_is_boundary::<E>(self@);
        }
        if idx == self.len() {
            true
        } else if idx > self.len() {
            false
        } else {
            E::char_bound(*self, idx)
        }
    }

    /// Return an iterator over the [`char`]s of this string slice.
    pub fn chars(&self) -> (r: Chars<'a, E>)
        ensures
            r@ == self@,
    {
        Chars::new(*self)
    }

    /// Return an iterator over the [`char`]s of this string slice and their positions.
    pub fn char_indices(&self) -> (r: CharIndices<'a, E>)
        ensures
            r@ == self@,
            r.offset() == 0,
    {
        CharIndices::new(*self)
    }

    /// Split this string at an index, returning the two substrings on either side. Returns
    /// [`None`] where the index is the end of the string, lies behind it, or doesn't lie on
    /// a character boundary.
    pub fn split_at(&self, idx: usize) -> (r: Option<(Str<'a, E>, Str<'a, E>)>)
        ensures
            match r {
                Some((start, end)) => idx < self@.len() && is_boundary::<E>(self@, idx as int)
                    && start@ == self@.take(idx as int) && end@ == self@.skip(idx as int),
                None => !(idx < self@.len() && is_boundary::<E>(self@, idx as int)),
            },
    {
        if self.is_char_boundary(idx) && idx < self.len() {
            proof {
                use_type_invariant(self);
                lemma_split_at_boundary::<E>(self@, idx as int);
            }
            let start = Str { bytes: slice_subrange(self.bytes, 0, idx), encoding: PhantomData };
            let end = Str {
                bytes: slice_subrange(self.bytes, idx, self.bytes.len()),
                encoding: PhantomData,
            };
            Some((start, end))
        } else {
            None
        }
    }

    /// Get this `Str` in a different [`Encoding`]. This method writes the new string into the
    /// provided buffer, and returns the portion of the buffer containing the string as a new
    /// `Str`. Where the conversion stops early, the error holds the portion that was
    /// written, as a string, and tells why it stopped.
    pub fn recode_into<'b, E2: Encoding>(&self, buffer: &'b mut [u8]) -> (r: Result<
        Str<'b, E2>,
        RecodeIntoError<'b, E2>,
    >)
        ensures
            final(buffer)@ == recode_spec::<E, E2>(self@, old(buffer)@.len()).1
                + old(buffer)@.skip(
                recode_spec::<E, E2>(self@, old(buffer)@.len()).1.len() as int,
            ),
            match recode_spec::<E, E2>(self@, old(buffer)@.len()).2 {
                None => r matches Ok(s) && s@ == recode_spec::<E, E2>(
                    self@,
                    old(buffer)@.len(),
                ).1,
                Some(cause) => r matches Err(e) && e.spec_cause() == cause
                    && e.spec_valid_up_to() == recode_spec::<E, E2>(
                    self@,
                    old(buffer)@.len(),
                ).0 && e.spec_output_valid()@ == recode_spec::<E, E2>(
                    self@,
                    old(buffer)@.len(),
                ).1,
            },
    {
        let ghost done = recode_spec::<E, E2>(self@, buffer@.len());
        let space: usize = buffer.len();
        let source_len: usize = self.len();
        proof {
            use_type_invariant(self);
            lemma_recode_progress::<E, E2>(self@, space as nat);
        }
        let result = recode::<E, E2>(*self, buffer);
        let written: &'b [u8] = buffer;
        assert(written@.len() == space);
        assert(written@.subrange(0, done.1.len() as int) =~= done.1);
        match result {
            Ok(len) => {
                assert(len == done.1.len());
                Ok(Str { bytes: slice_subrange(written, 0, len), encoding: PhantomData })
            },
            Err(err) => {
                assert(err.output_valid == done.1.len());
                assert(err.input_used == done.0);
                assert(done.2 == Some(err.cause));
                let str = Str {
                    bytes: slice_subrange(written, 0, err.output_valid()),
                    encoding: PhantomData,
                };
                Err(RecodeIntoError::from_recode(err, str))
            },
        }
    }

    /// Get this `Str` in a different [`Encoding`]. This method allocates a new [`String`]
    /// with the desired encoding, and returns an error if the source string contains any
    /// characters that cannot be represented in the destination encoding. The error names
    /// the first such character, where it stands in this string, and how long it is there.
    pub fn recode<E2: Encoding>(&self) -> (r: Result<String<E2>, RecodeError>)
        ensures
            match first_unencodable::<E, E2>(self@) {
                None => r matches Ok(s) && Some(s@) == encode_all::<E2>(decode::<E>(self@)),
                Some(k) => r matches Err(e) && e.valid_up_to == k && e.char == E::first_char(
                    self@.skip(k as int),
                ) && e.char_len == E::char_width(self@.skip(k as int)),
            },
    {
        let mut ptr = *self;
        let mut consumed: usize = 0;
        let mut total_len: usize = 0;
        let increment: usize = self.len();
        let mut out: Vec<u8> = Vec::new();
        grow(&mut out, increment);
        let ghost mut done_chars: Seq<char> = Seq::empty();
        proof {
            use_type_invariant(self);
            assert(self@.skip(0) =~= self@);
            assert(done_chars + decode::<E>(ptr@) =~= decode::<E>(self@));
            assert(out@.take(0) =~= Seq::<u8>::empty());
        }
        loop
            invariant
                increment == self@.len(),
                valid::<E>(self@),
                valid::<E>(ptr@),
                consumed + ptr@.len() == self@.len(),
                ptr@ == self@.skip(consumed as int),
                total_len <= out@.len(),
                decode::<E>(self@) == done_chars + decode::<E>(ptr@),
                encode_all::<E2>(done_chars) == Some(out@.take(total_len as int)),
                first_unencodable::<E, E2>(self@) == match first_unencodable::<E, E2>(ptr@) {
                    Some(k) => Some((consumed + k) as nat),
                    None => None,
                },
            decreases ptr@.len(), slack(E2::MAX_LEN as int, out@.len() - total_len),
        {
            let capacity: usize = out.len();
            let ghost free: nat = (out@.len() - total_len) as nat;
            let ghost before: Seq<u8> = out@;
            let ghost step = recode_spec::<E, E2>(ptr@, free);
            proof {
                lemma_recode_progress::<E, E2>(ptr@, free);
                lemma_end_is_boundary::<E>(ptr@);
                lemma_encode_all_concat::<E2>(done_chars, decode::<E>(ptr@.take(step.0 as int)));
                assert(ptr@.skip(step.0 as int) =~= self@.skip(consumed + step.0));
                assert(ptr@.subrange(step.0 as int, ptr@.len() as int) =~= ptr@.skip(
                    step.0 as int,
                ));
            }
            let slice = out.as_mut_slice();
            let (head, tail) = slice.split_at_mut(total_len);
            let result = recode::<E, E2>(ptr, tail);
            proof {
                assert(result == recode_result(step));
                assert(out@.len() == before.len());
                assert(out@.take(total_len + step.1.len()) =~= before.take(total_len as int)
                    + step.1);
            }
            match result {
                Ok(len) => {
                    out.truncate(total_len + len);
                    proof {
                        assert(ptr@.take(ptr@.len() as int) =~= ptr@);
                        assert(out@ =~= before.take(total_len as int) + step.1);
                        lemma_encode_all_valid::<E2>(decode::<E>(self@));
                        lemma_first_unencodable::<E, E2>(ptr@);
                    }
                    return Ok(String::from_bytes_unchecked(out));
                },
                Err(e) => match e.cause {
                    RecodeCause::NeedSpace { len } => {
                        proof {
                            lemma_encoding_valid::<E2>(E::first_char(ptr@.skip(step.0 as int)));
                            done_chars = done_chars + decode::<E>(ptr@.take(step.0 as int));
                            assert(done_chars + decode::<E>(ptr@.skip(step.0 as int))
                                =~= decode::<E>(self@));
                        }
                        grow(&mut out, increment);
                        let grown_len: usize = out.len();
                        proof {
                            assert(out@.take(total_len + step.1.len()) =~= before.take(
                                total_len as int,
                            ) + step.1);
                            assert(len <= E2::MAX_LEN);
                            assert(step.1.len() + len > free);
                            assert(increment >= 1);
                        }
                        ptr = ptr.get_unchecked(e.input_used, ptr.len());
                        consumed += e.input_used;
                        total_len += e.output_valid;
                    },
                    RecodeCause::InvalidChar { char, len } => {
                        return Err(
                            RecodeError {
                                valid_up_to: consumed + e.input_used,
                                char,
                                char_len: len,
                            },
                        );
                    },
                },
            }
        }
    }

    /// Get this `Str` in a different [`Encoding`]. This method allocates a new [`String`]
    /// with the desired encoding, replacing any characters that can't be represented in the
    /// destination encoding with the encoding's replacement character.
    pub fn recode_lossy<E2: Encoding>(&self) -> (r: String<E2>)
        ensures
            r@ == encode_all_lossy::<E2>(decode::<E>(self@)),
    {
        let mut ptr = *self;
        let mut total_len: usize = 0;
        let increment: usize = self.len();
        let mut out: Vec<u8> = Vec::new();
        grow(&mut out, increment);
        let ghost mut done_chars: Seq<char> = Seq::empty();
        proof {
            use_type_invariant(self);
            assert(done_chars + decode::<E>(ptr@) =~= decode::<E>(self@));
            assert(out@.take(0) =~= Seq::<u8>::empty());
            E2::lemma_replacement();
            lemma_encoding_valid::<E2>(E2::REPLACEMENT);
        }
        loop
            invariant
                increment == self@.len(),
                ptr@.len() <= self@.len(),
                valid::<E>(ptr@),
                total_len <= out@.len(),
                decode::<E>(self@) == done_chars + decode::<E>(ptr@),
                encode_all_lossy::<E2>(done_chars) == out@.take(total_len as int),
                E2::encoding(E2::REPLACEMENT) is Some,
            decreases ptr@.len(), slack(E2::MAX_LEN as int, out@.len() - total_len),
        {
            let capacity: usize = out.len();
            let ghost free: nat = (out@.len() - total_len) as nat;
            let ghost before: Seq<u8> = out@;
            let ghost step = recode_spec::<E, E2>(ptr@, free);
            let ghost step_chars: Seq<char> = decode::<E>(ptr@.take(step.0 as int));
            proof {
                lemma_recode_progress::<E, E2>(ptr@, free);
                lemma_end_is_boundary::<E>(ptr@);
                lemma_encode_all_concat::<E2>(done_chars, step_chars);
                lemma_encode_all_valid::<E2>(step_chars);
                assert(ptr@.subrange(step.0 as int, ptr@.len() as int) =~= ptr@.skip(
                    step.0 as int,
                ));
            }
            let slice = out.as_mut_slice();
            let (head, tail) = slice.split_at_mut(total_len);
            let result = recode::<E, E2>(ptr, tail);
            proof {
                assert(result == recode_result(step));
                assert(out@.len() == before.len());
                assert(out@.take(total_len + step.1.len()) =~= before.take(total_len as int)
                    + step.1);
                done_chars = done_chars + step_chars;
                assert(done_chars + decode::<E>(ptr@.skip(step.0 as int)) =~= decode::<E>(
                    self@,
                ));
            }
            match result {
                Ok(len) => {
                    out.truncate(total_len + len);
                    proof {
                        assert(ptr@.skip(ptr@.len() as int) =~= Seq::<u8>::empty());
                        assert(done_chars =~= decode::<E>(self@));
                        assert(out@ =~= before.take(total_len as int) + step.1);
                        crate::encoding::model::lemma_encode_all_lossy_valid::<E2>(done_chars);
                    }
                    return String::from_bytes_unchecked(out);
                },
                Err(e) => match e.cause {
                    RecodeCause::NeedSpace { len } => {
                        proof {
                            lemma_encoding_valid::<E2>(E::first_char(ptr@.skip(step.0 as int)));
                        }
                        grow(&mut out, increment);
                        let grown_len: usize = out.len();
                        proof {
                            assert(out@.take(total_len + step.1.len()) =~= before.take(
                                total_len as int,
                            ) + step.1);
                            assert(len <= E2::MAX_LEN);
                            assert(step.1.len() + len > free);
                            assert(increment >= 1);
                        }
                        ptr = ptr.get_unchecked(e.input_used, ptr.len());
                        total_len += e.output_valid;
                    },
                    RecodeCause::InvalidChar { char, len } => {
                        let replace_len: usize = E2::char_len(E2::REPLACEMENT);
                        grow(&mut out, replace_len);
                        let grown_len: usize = out.len();
                        let ghost grown: Seq<u8> = out@;
                        let at: usize = total_len + e.output_valid;
                        let slice = out.as_mut_slice();
                        let (head, tail) = slice.split_at_mut(at);
                        let written = crate::encoding::encode::<E2>(E2::REPLACEMENT, tail);
                        proof {
                            let left: Seq<u8> = ptr@.skip(step.0 as int);
                            let patch: Seq<u8> = E2::encoding(E2::REPLACEMENT).unwrap();
                            assert(out@.take(at + replace_len) =~= before.take(total_len as int)
                                + step.1 + patch);
                            crate::encoding::model::lemma_boundary_extend::<E>(
                                ptr@,
                                step.0 as int,
                                len as nat,
                            );
                            lemma_split_at_boundary::<E>(ptr@, step.0 + len);
                            assert(ptr@.subrange(step.0 + len, ptr@.len() as int) =~= ptr@.skip(
                                step.0 + len,
                            ));
                            assert(left.skip(len as int) =~= ptr@.skip(step.0 + len));
                            assert(decode::<E>(left) =~= seq![char] + decode::<E>(
                                ptr@.skip(step.0 + len),
                            ));
                            lemma_encode_all_concat::<E2>(done_chars, seq![char]);
                            assert(seq![char].drop_first() =~= Seq::<char>::empty());
                            assert(encode_all_lossy::<E2>(Seq::<char>::empty()) =~= Seq::<
                                u8,
                            >::empty());
                            assert(seq![char][0] == char);
                            assert(E2::encoding(char) is None);
                            assert(lossy_encoding::<E2>(char) == patch);
                            assert(encode_all_lossy::<E2>(seq![char]) =~= patch);
                            done_chars = done_chars + seq![char];
                            assert(done_chars + decode::<E>(ptr@.skip(step.0 + len))
                                =~= decode::<E>(self@));
                        }
                        ptr = ptr.get_unchecked(e.input_used + len, ptr.len());
                        total_len += e.output_valid + replace_len;
                    },
                },
            }
        }
    }

    /// Get a copy of this string that owns its bytes.
    pub fn to_owned(&self) -> (r: String<E>)
        ensures
            r@ == self@,
    {
        proof {
            use_type_invariant(self);
        }
        String::from_bytes_unchecked(vstd::slice::slice_to_vec(self.bytes))
    }
}

impl<'a, E: AlwaysValid> Str<'a, E> {
    /// Create a `Str` from a byte slice, never failing.
    ///
    /// This method is provided for encodings that have no invalid byte patterns, meaning
    /// encoding validity checking is skipped.
    pub fn from_bytes_infallible(bytes: &'a [u8]) -> (r: Str<'a, E>)
        ensures
            r@ == bytes@,
    {
        proof {
            E::lemma_always_valid(bytes@);
        }
        Str { bytes, encoding: PhantomData }
    }
}

impl<'a> Str<'a, Utf8> {
    /// Equivalent to [`Str::from_bytes_unchecked`] but for UTF-8 specifically.
    pub fn from_utf8_unchecked(str: &'a [u8]) -> (r: Self)
        requires
            valid_utf8(str@),
        ensures
            r@ == str@,
    {
        proof {
            lemma_utf8_model(str@, 0);
        }
        Self::from_bytes_unchecked(str)
    }

    /// Equivalent to [`Str::from_bytes`] but for UTF-8 specifically.
    pub fn from_utf8(str: &'a [u8]) -> (r: Result<Self, ValidateError>)
        ensures
            match validation::<Utf8>(str@) {
                Ok(_) => r matches Ok(s) && s@ == str@,
                Err(e) => r matches Err(found) && found == e,
            },
    {
        Self::from_bytes(str)
    }

    /// Convert a [`str`] directly into a [`Str<Utf8>`].
    pub fn from_std(value: &'a str) -> (r: Str<'a, Utf8>)
        ensures
            r@ == encode_utf8(value@),
    {
        let bytes = value.as_bytes();
        proof {
            encode_utf8_valid_utf8(value@);
            lemma_utf8_model(bytes@, 0);
        }
        Self::from_bytes_unchecked(bytes)
    }

    /// Convert a [`Str<Utf8>`] directly into a [`str`].
    pub fn as_std(&self) -> (r: &'a str)
        ensures
            encode_utf8(r@) == self@,
    {
        let bytes = self.as_bytes();
        proof {
            lemma_utf8_model(bytes@, 0);
        }
        str_from_utf8(bytes)
    }
}

impl<'a> Str<'a, Utf16> {
    /// Equivalent to [`Str::from_bytes_unchecked`] but for UTF-16 specifically. The units
    /// are read as their bytes lie in memory, in the byte order of the machine; the caller
    /// vouches for their validity in either order.
    pub fn from_utf16_unchecked(str: &'a [u16]) -> (r: Self)
        requires
            valid::<Utf16>(units16_bytes(str@, false)),
            valid::<Utf16>(units16_bytes(str@, true)),
        ensures
            r@ == units16_bytes(str@, false) || r@ == units16_bytes(str@, true),
    {
        Self::from_bytes_unchecked(cast_units16(str))
    }

    /// Equivalent to [`Str::from_bytes`] but for UTF-16 specifically. The units are read as
    /// their bytes lie in memory, in the byte order of the machine.
    pub fn from_utf16(str: &'a [u16]) -> (r: Result<Self, ValidateError>)
        ensures
            exists|big: bool|
                match validation::<Utf16>(#[trigger] units16_bytes(str@, big)) {
                    Ok(_) => r matches Ok(s) && s@ == units16_bytes(str@, big),
                    Err(e) => r matches Err(found) && found == e,
                },
    {
        let bytes = cast_units16(str);
        let r = Self::from_bytes(bytes);
        proof {
            if bytes@ == units16_bytes(str@, false) {
                assert(match validation::<Utf16>(units16_bytes(str@, false)) {
                    Ok(_) => r matches Ok(s) && s@ == units16_bytes(str@, false),
                    Err(e) => r matches Err(found) && found == e,
                });
            } else {
                assert(match validation::<Utf16>(units16_bytes(str@, true)) {
                    Ok(_) => r matches Ok(s) && s@ == units16_bytes(str@, true),
                    Err(e) => r matches Err(found) && found == e,
                });
            }
        }
        r
    }
}

impl<'a> Str<'a, Utf32> {
    /// Convert a slice of `char`s into a string of UTF-32. The string is a new one, so that
    /// its bytes are in the order of the encoding on every machine.
    pub fn from_chars(str: &[char]) -> (r: String<Utf32>)
        ensures
            Some(r@) == encode_all::<Utf32>(str@),
    {
        String::from_iter(str)
    }

    /// Equivalent to [`Str::from_bytes_unchecked`] but for UTF-32 specifically. The units
    /// are read as their bytes lie in memory, in the byte order of the machine; the caller
    /// vouches for their validity in either order.
    pub fn from_utf32_unchecked(str: &'a [u32]) -> (r: Self)
        requires
            valid::<Utf32>(units32_bytes(str@, false)),
            valid::<Utf32>(units32_bytes(str@, true)),
        ensures
            r@ == units32_bytes(str@, false) || r@ == units32_bytes(str@, true),
    {
        Self::from_bytes_unchecked(cast_units32(str))
    }

    /// Equivalent to [`Str::from_bytes`] but for UTF-32 specifically. The units are read as
    /// their bytes lie in memory, in the byte order of the machine.
    pub fn from_utf32(str: &'a [u32]) -> (r: Result<Self, ValidateError>)
        ensures
            exists|big: bool|
                match validation::<Utf32>(#[trigger] units32_bytes(str@, big)) {
                    Ok(_) => r matches Ok(s) && s@ == units32_bytes(str@, big),
                    Err(e) => r matches Err(found) && found == e,
                },
    {
        let bytes = cast_units32(str);
        let r = Self::from_bytes(bytes);
        proof {
            if bytes@ == units32_bytes(str@, false) {
                assert(match validation::<Utf32>(units32_bytes(str@, false)) {
                    Ok(_) => r matches Ok(s) && s@ == units32_bytes(str@, false),
                    Err(e) => r matches Err(found) && found == e,
                });
            } else {
                assert(match validation::<Utf32>(units32_bytes(str@, true)) {
                    Ok(_) => r matches Ok(s) && s@ == units32_bytes(str@, true),
                    Err(e) => r matches Err(found) && found == e,
                });
            }
        }
        r
    }
}

} // verus!
