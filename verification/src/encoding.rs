//! The base for generic encoding support: the [`Encoding`] trait, the errors that its
//! operations report, and the encodings themselves, such as [`Utf8`].
//!
//! Most users work through [`Str`]; the operations of an encoding are here for those who
//! need them directly.

use crate::str::Str;
use crate::utils::copy_into;
use vstd::prelude::*;

pub mod arrays;
pub mod ascii;
pub mod iso;
pub mod jis;
pub mod mac;
pub mod model;
pub mod page;
mod sealed;
pub mod utf;
pub mod win;
pub mod x0208_tables;

pub use arrays::ArrayLike;
pub use ascii::{Ascii, ExtendedAscii};
pub use iso::{Iso8859_1, Iso8859_15, Iso8859_2, Iso8859_3};
pub use jis::{JisX0201, JisX0208, ShiftJIS};
pub use mac::MacRoman;
pub use utf::{Utf16, Utf16BE, Utf16LE, Utf32, Utf32BE, Utf32LE, Utf8};
pub use win::{Win1251, Win1252, Win1252Loose};
pub use model::{
    char_starts, decode, defect_span, encode_all, encode_all_lossy,
    first_unencodable,
    is_boundary, lossy_encoding, lossy_len, recode_spec, repaired, valid, valid_prefix_len,
    Grammar,
};

verus! {

/// An error encountered while validating a byte stream for a certain encoding.
#[derive(Clone, Copy, Debug, PartialEq, Eq)]
pub struct ValidateError {
    /// Length of the valid data before the error.
    pub valid_up_to: usize,
    /// Width of the malformed unit, or `None` where the end of the stream cuts it off.
    pub error_len: Option<u8>,
}

impl ValidateError {
    /// The length of valid data in the byte stream before the error was encountered. Data up
    /// to this point is a valid string of its own.
    pub fn valid_up_to(&self) -> (r: usize)
        ensures
            r == self.valid_up_to,
    {
        self.valid_up_to
    }

    /// The length of the error, or `None` if it occurred at the end of the stream. If `Some`,
    /// decoding may skip this many bytes forward, replacing them with a substitution
    /// character, and continue from that point. If `None`, all remaining data in the stream
    /// is invalid; in chunked data it may be a character that was cut off.
    pub fn error_len(&self) -> (r: Option<usize>)
        ensures
            r == match self.error_len {
                Some(n) => Some(n as usize),
                None => None,
            },
    {
        match self.error_len {
            Some(n) => Some(n as usize),
            None => None,
        }
    }
}

/// What validation of `bytes` reports: nothing for a valid buffer; for any other, the length
/// of its longest well-formed prefix and the width of the malformed unit behind it.
pub open spec fn validation<G: Grammar>(bytes: Seq<u8>) -> Result<(), ValidateError> {
    if valid::<G>(bytes) {
        Ok(())
    } else {
        Err(
            (ValidateError {
                valid_up_to: valid_prefix_len::<G>(bytes) as usize,
                error_len: G::defect_len(bytes.skip(valid_prefix_len::<G>(bytes) as int)),
            }),
        )
    }
}

/// An error while encoding a `char` directly into a buffer.
#[derive(Clone, Copy, Debug, PartialEq, Eq)]
#[non_exhaustive]
pub enum EncodeError {
    /// The output is too small to hold the encoded character.
    NeedSpace {
        /// Space required to encode the character.
        len: usize,
    },
    /// The provided character isn't valid for the output encoding.
    InvalidChar,
}

/// The cause of a recoding error.
#[derive(Clone, Copy, Debug, PartialEq, Eq)]
#[non_exhaustive]
pub enum RecodeCause {
    /// The output is too small to hold the entire input.
    NeedSpace {
        /// Space required to encode just one more character.
        len: usize,
    },
    /// The input contained a character that isn't valid for the output encoding.
    InvalidChar {
        /// The character encountered that isn't supported in the encoding.
        char: char,
        /// The length of this character in the input.
        len: usize,
    },
}

/// An error encountered while encoding a string into another format.
#[derive(Clone, Copy, Debug, PartialEq, Eq)]
pub struct RecodeError {
    /// Amount of input consumed.
    pub input_used: usize,
    /// Amount of output written.
    pub output_valid: usize,
    /// Why encoding stopped.
    pub cause: RecodeCause,
}

impl RecodeError {
    /// The amount of input successfully consumed. Data up to this point in the input has
    /// been encoded into the output.
    pub fn input_used(&self) -> (r: usize)
        ensures
            r == self.input_used,
    {
        self.input_used
    }

    /// The amount of output with valid data written into it. Data up to this point in the
    /// output is a valid string of its own.
    pub fn output_valid(&self) -> (r: usize)
        ensures
            r == self.output_valid,
    {
        self.output_valid
    }

    /// The reason encoding stopped. See [`RecodeCause`] for more details on possible reasons.
    pub fn cause(&self) -> (r: &RecodeCause)
        ensures
            *r == self.cause,
    {
        &self.cause
    }
}

/// An arbitrary encoding. Examples include [`Utf8`], [`Ascii`], or [`Win1252`].
///
/// The model of the encoding is its [`Grammar`]; the operations here are held to it.
pub trait Encoding: Grammar {
    /// The container that `encode_char` returns.
    type Bytes: ArrayLike;

    /// The characters of the short name of the encoding.
    spec fn name() -> Seq<char>;

    /// A short name of the encoding.
    fn shorthand() -> (r: &'static str)
        ensures
            r@ == Self::name(),
    ;

    /// Given a byte slice, determine whether it is valid for the current encoding.
    fn validate(bytes: &[u8]) -> (r: Result<(), ValidateError>)
        ensures
            r == validation::<Self>(bytes@),
    ;

    /// The bytes that represent `c`, or `None` where the encoding cannot represent it.
    fn encode_char(c: char) -> (r: Option<Self::Bytes>)
        ensures
            match Self::encoding(c) {
                Some(b) => r is Some && r->0.bytes() == b,
                None => r is None,
            },
    ;

    /// Takes the first character off a string that is not empty, and returns it with the
    /// rest of the string.
    fn decode_char<'a>(str: Str<'a, Self>) -> (r: (char, Str<'a, Self>))
        requires
            str@.len() > 0,
        ensures
            r.0 == Self::first_char(str@),
            0 < Self::char_width(str@) <= str@.len(),
            r.1@ == str@.skip(Self::char_width(str@) as int),
    ;

    /// Whether a character starts at byte `idx` of the string.
    fn char_bound(str: Str<'_, Self>, idx: usize) -> (r: bool)
        requires
            idx < str@.len(),
        ensures
            r == is_boundary::<Self>(str@, idx as int),
    ;

    /// The number of bytes that `c` occupies once encoded, or zero where the encoding cannot
    /// represent it.
    fn char_len(c: char) -> (r: usize)
        ensures
            r == match Self::encoding(c) {
                Some(b) => b.len(),
                None => 0,
            },
    ;
}

/// The result that a conversion reports for what it has come to.
pub open spec fn recode_result(done: (nat, Seq<u8>, Option<RecodeCause>)) -> Result<
    usize,
    RecodeError,
> {
    match done.2 {
        None => Ok(done.1.len() as usize),
        Some(cause) => Err(
            (RecodeError {
                input_used: done.0 as usize,
                output_valid: done.1.len() as usize,
                cause,
            }),
        ),
    }
}

/// An encoding that can be used in a C-string, meaning it may encode valid data with no
/// internal null bytes: only the null character is written with a zero byte.
pub trait NullTerminable: Encoding {
    /// No character but the null character has a zero byte in its encoding.
    proof fn lemma_no_inner_null(c: char)
        ensures
            Self::encoding(c) matches Some(b) ==> (c != '\0' ==> !b.contains(0u8)),
    ;
}

/// An encoding for which all bytes are always valid, meaning validation of a byte slice for
/// this encoding will never fail.
pub trait AlwaysValid: Encoding {
    /// Every byte sequence is valid.
    proof fn lemma_always_valid(bytes: Seq<u8>)
        ensures
            valid::<Self>(bytes),
    ;
}

/// Take a character and encode it, in the encoding `D`, directly into the front of the
/// provided buffer. If successful, returns the length of the buffer that was written. Where
/// the character has no encoding, or the buffer is too small for it, the buffer is left as
/// it was.
pub fn encode<D: Encoding>(c: char, out: &mut [u8]) -> (r: Result<usize, EncodeError>)
    ensures
        match D::encoding(c) {
            Some(b) => if b.len() <= old(out)@.len() {
                r == Ok::<usize, EncodeError>(b.len() as usize) && final(out)@ == b
                    + old(out)@.skip(b.len() as int)
            } else {
                r == Err::<usize, EncodeError>(
                    (EncodeError::NeedSpace { len: b.len() as usize }),
                ) && final(out)@ == old(out)@
            },
            None => r == Err::<usize, EncodeError>(EncodeError::InvalidChar) && final(out)@
                == old(out)@,
        },
{
    match D::encode_char(c) {
        Some(a) => {
            let a = a.slice();
            if a.len() > out.len() {
                Err(EncodeError::NeedSpace { len: a.len() })
            } else {
                copy_into(out, 0, a);
                assert(old(out)@.take(0) =~= Seq::<u8>::empty());
                assert(final(out)@ =~= a@ + old(out)@.skip(a@.len() as int));
                Ok(a.len())
            }
        },
        None => Err(EncodeError::InvalidChar),
    }
}

/// Given a string in the encoding `E`, re-encode it into the encoding `D` character by
/// character, from the front of the provided buffer on. On success, returns the length
/// of the output that was written. On failure, the error tells how much of the input was
/// converted, how much output that gave, and what stopped the conversion.
pub fn recode<E: Encoding, D: Encoding>(str: Str<'_, E>, out: &mut [u8]) -> (r: Result<
    usize,
    RecodeError,
>)
    ensures
        final(out)@ == recode_spec::<E, D>(str@, old(out)@.len()).1 + old(out)@.skip(
            recode_spec::<E, D>(str@, old(out)@.len()).1.len() as int,
        ),
        r == recode_result(recode_spec::<E, D>(str@, old(out)@.len())),
{
    let ghost space: nat = out@.len();
    let ghost goal = recode_spec::<E, D>(str@, space);
    let total: usize = out.len();
    let source_len: usize = str.len();
    let mut rest = str;
    let mut in_pos: usize = 0;
    let mut out_pos: usize = 0;
    proof {
        assert(out@.take(0) =~= Seq::<u8>::empty());
        assert(Seq::<u8>::empty() + goal.1 =~= goal.1);
    }
    while !rest.is_empty()
        invariant
            goal == recode_spec::<E, D>(str@, space),
            out@.len() == space,
            old(out)@.len() == space,
            total == space,
            source_len == str@.len(),
            out_pos <= space,
            in_pos + rest@.len() == str@.len(),
            out@.skip(out_pos as int) == old(out)@.skip(out_pos as int),
            goal.0 == in_pos + recode_spec::<E, D>(rest@, (space - out_pos) as nat).0,
            goal.1 == out@.take(out_pos as int) + recode_spec::<E, D>(
                rest@,
                (space - out_pos) as nat,
            ).1,
            goal.2 == recode_spec::<E, D>(rest@, (space - out_pos) as nat).2,
        decreases rest@.len(),
    {
        let ghost before: Seq<u8> = out@;
        let pre_len: usize = rest.len();
        let (c, next) = E::decode_char(rest);
        let width: usize = pre_len - next.len();
        let (head, tail) = out.split_at_mut(out_pos);
        let encoded = encode::<D>(c, tail);
        match encoded {
            Ok(len) => {
                proof {
                    let b: Seq<u8> = D::encoding(c).unwrap();
                    let then: Seq<u8> = recode_spec::<E, D>(
                        next@,
                        (space - out_pos - len) as nat,
                    ).1;
                    assert(out@.take(out_pos + len) =~= before.take(out_pos as int) + b);
                    assert(before.take(out_pos as int) + (b + then) =~= (before.take(
                        out_pos as int,
                    ) + b) + then);
                    assert(before.skip(out_pos + len) =~= before.skip(out_pos as int).skip(
                        len as int,
                    ));
                    assert(old(out)@.skip(out_pos + len) =~= old(out)@.skip(out_pos as int).skip(
                        len as int,
                    ));
                    assert(out@.skip(out_pos + len) =~= old(out)@.skip(out_pos + len));
                }
                out_pos += len;
            },
            Err(e) => {
                proof {
                    assert(out@ =~= before);
                    assert(out@.take(out_pos as int) + Seq::<u8>::empty() =~= out@.take(
                        out_pos as int,
                    ));
                    assert(out@ =~= out@.take(out_pos as int) + out@.skip(out_pos as int));
                }
                let cause = match e {
                    EncodeError::NeedSpace { len } => RecodeCause::NeedSpace { len },
                    EncodeError::InvalidChar => RecodeCause::InvalidChar { char: c, len: width },
                };
                return Err(RecodeError { input_used: in_pos, output_valid: out_pos, cause });
            },
        }
        in_pos += width;
        rest = next;
    }
    proof {
        assert(out@.take(out_pos as int) + Seq::<u8>::empty() =~= out@.take(out_pos as int));
        assert(out@ =~= out@.take(out_pos as int) + out@.skip(out_pos as int));
    }
    Ok(out_pos)
}

} // verus!
