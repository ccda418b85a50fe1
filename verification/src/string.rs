//! A generically encoded owned string: the counterpart of
//! [`std::String`](std::string::String) for any [`Encoding`].

use crate::encoding::model::{
    encode_all, lemma_defect_span, lemma_encode_all_concat, lemma_encoding_valid,
    lemma_valid_concat, repaired, valid, valid_prefix_len, Grammar,
};
use crate::encoding::utf::lemma_utf8_model;
use crate::cstring::{CString, NulError};
use crate::encoding::{validation, ArrayLike, Encoding, NullTerminable, Utf8, ValidateError};
use crate::utils::first_null;
use crate::str::Str;
use crate::utils::append;
use core::marker::PhantomData;
use vstd::prelude::*;
use vstd::utf8::{encode_utf8, encode_utf8_valid_utf8, valid_utf8};

pub mod chunks;

pub use chunks::{EncodedChunk, EncodedChunks};

verus! {

/// An error returned when you attempt to perform operations using a character not supported
/// in a specific encoding.
#[derive(Clone, Copy, Debug, PartialEq, Eq)]
#[non_exhaustive]
pub struct InvalidChar;

/// An owned, growable string in the encoding `E`: bytes that are known to be valid for it.
///
/// `String` only implements `==` between instances with the same encoding. To compare
/// strings of different encoding by characters, compare what `chars().collect()` gives.
#[derive(Debug, PartialEq, Eq, Hash)]
pub struct String<E: Grammar> {
    bytes: Vec<u8>,
    encoding: PhantomData<E>,
}

impl<E: Grammar> Default for String<E> {
    fn default() -> (r: Self)
        ensures
            r@ == Seq::<u8>::empty(),
    {
        String::new()
    }
}

impl<E: Grammar> String<E> {
    #[verifier::type_invariant]
    spec fn well_formed(self) -> bool {
        valid::<E>(self.bytes@)
    }

    /// The bytes of the string.
    pub closed spec fn view(self) -> Seq<u8> {
        self.bytes@
    }

    /// Create a new, empty `String`.
    pub fn new() -> (r: String<E>)
        ensures
            r@ == Seq::<u8>::empty(),
    {
        String { bytes: Vec::new(), encoding: PhantomData }
    }

    /// Create an empty string with a pre-allocated capacity for `len` bytes.
    pub fn with_capacity(len: usize) -> (r: String<E>)
        ensures
            r@ == Seq::<u8>::empty(),
    {
        String { bytes: Vec::with_capacity(len), encoding: PhantomData }
    }

    /// Create a `String` from bytes without checking whether it is valid for the current
    /// encoding: the caller vouches for it.
    pub fn from_bytes_unchecked(bytes: Vec<u8>) -> (r: String<E>)
        requires
            valid::<E>(bytes@),
        ensures
            r@ == bytes@,
    {
        String { bytes, encoding: PhantomData }
    }

    /// Convert this `String` into a vector of its contained bytes. They are valid for the
    /// encoding.
    pub fn into_bytes(self) -> (r: Vec<u8>)
        ensures
            r@ == self@,
            valid::<E>(r@),
    {
        proof {
            use_type_invariant(&self);
        }
        self.bytes
    }

    /// The string as a borrowed [`Str`].
    pub fn as_str(&self) -> (r: Str<'_, E>)
        ensures
            r@ == self@,
    {
        proof {
            use_type_invariant(self);
        }
        Str::from_bytes_unchecked(self.bytes.as_slice())
    }

    /// Copy the data from another string of exactly the same length into this one.
    pub fn copy_from(&mut self, other: Str<'_, E>)
        requires
            old(self)@.len() == other@.len(),
        ensures
            final(self)@ == other@,
    {
        let mut bytes: Vec<u8> = Vec::new();
        core::mem::swap(&mut self.bytes, &mut bytes);
        bytes.clear();
        append(&mut bytes, other.as_bytes());
        assert(bytes@ =~= other@);
        self.bytes = bytes;
    }

    /// Extend this `String` with the contents of the provided [`Str`].
    pub fn push_str(&mut self, str: Str<'_, E>)
        ensures
            final(self)@ == old(self)@ + str@,
    {
        proof {
            use_type_invariant(&*self);
        }
        let src = str.as_bytes();
        let mut bytes: Vec<u8> = Vec::new();
        core::mem::swap(&mut self.bytes, &mut bytes);
        append(&mut bytes, src);
        proof {
            lemma_valid_concat::<E>(old(self)@, str@);
        }
        self.bytes = bytes;
    }
}

impl<E: Encoding> String<E> {
    /// Create a `String` from bytes, validating the encoding and returning a
    /// [`ValidateError`] if it is not a valid string in the current encoding.
    pub fn from_bytes(bytes: Vec<u8>) -> (r: Result<String<E>, ValidateError>)
        ensures
            match validation::<E>(bytes@) {
                Ok(_) => r matches Ok(s) && s@ == bytes@,
                Err(e) => r matches Err(found) && found == e,
            },
    {
        match E::validate(bytes.as_slice()) {
            Ok(_) => Ok(String { bytes, encoding: PhantomData }),
            Err(e) => Err(e),
        }
    }

    /// Create a `String` from a sequence of characters, each of which the encoding can
    /// represent.
    pub fn from_iter(chars: &[char]) -> (r: String<E>)
        requires
            forall|i: int| 0 <= i < chars@.len() ==> E::encoding(#[trigger] chars@[i]) is Some,
        ensures
            Some(r@) == encode_all::<E>(chars@),
    {
        let mut out: String<E> = String::new();
        let mut i: usize = 0;
        assert(chars@.take(0) =~= Seq::<char>::empty());
        while i < chars.len()
            invariant
                i <= chars@.len(),
                forall|i: int| 0 <= i < chars@.len() ==> E::encoding(#[trigger] chars@[i]) is Some,
                Some(out@) == encode_all::<E>(chars@.take(i as int)),
            decreases chars@.len() - i,
        {
            proof {
                let one: Seq<char> = seq![chars@[i as int]];
                lemma_encode_all_concat::<E>(chars@.take(i as int), one);
                assert(one.drop_first() =~= Seq::<char>::empty());
                assert(encode_all::<E>(Seq::<char>::empty()) == Some(Seq::<u8>::empty()));
                assert(encode_all::<E>(one).unwrap() =~= E::encoding(chars@[i as int]).unwrap());
                assert(chars@.take(i + 1) =~= chars@.take(i as int) + one);
            }
            out.push(chars[i]);
            i += 1;
        }
        assert(chars@.take(chars@.len() as int) =~= chars@);
        out
    }

    /// Add a new character to this string. The character must be one that the encoding can
    /// represent.
    pub fn push(&mut self, c: char)
        requires
            E::encoding(c) is Some,
        ensures
            final(self)@ == old(self)@ + E::encoding(c).unwrap(),
    {
        let _ = self.try_push(c);
    }

    /// Add a new character to this string. This method returns [`InvalidChar`] if the
    /// provided character isn't valid for the current encoding, and leaves the string as it
    /// was.
    pub fn try_push(&mut self, c: char) -> (r: Result<(), InvalidChar>)
        ensures
            match E::encoding(c) {
                Some(b) => r is Ok && final(self)@ == old(self)@ + b,
                None => r is Err && final(self)@ == old(self)@,
            },
    {
        proof {
            use_type_invariant(&*self);
        }
        match E::encode_char(c) {
            Some(encoded) => {
                let mut bytes: Vec<u8> = Vec::new();
                core::mem::swap(&mut self.bytes, &mut bytes);
                append(&mut bytes, encoded.slice());
                proof {
                    lemma_encoding_valid::<E>(c);
                    lemma_valid_concat::<E>(old(self)@, E::encoding(c).unwrap());
                }
                self.bytes = bytes;
                Ok(())
            },
            None => Err(InvalidChar),
        }
    }
}

/// A string that is either borrowed or owned: what a conversion gives that copies only where
/// it has something to change.
#[derive(Debug, PartialEq, Eq)]
pub enum CowStr<'a, E: Grammar> {
    /// The input itself, which was valid as it stood.
    Borrowed(Str<'a, E>),
    /// A new string.
    Owned(String<E>),
}

impl<'a, E: Grammar> CowStr<'a, E> {
    /// The bytes of the string.
    pub open spec fn view(self) -> Seq<u8> {
        match self {
            CowStr::Borrowed(s) => s@,
            CowStr::Owned(s) => s@,
        }
    }

    /// The string as a borrowed [`Str`].
    pub fn as_str(&self) -> (r: Str<'_, E>)
        ensures
            r@ == self@,
    {
        match self {
            CowStr::Borrowed(s) => *s,
            CowStr::Owned(s) => s.as_str(),
        }
    }
}

impl<'a, E: Encoding> CowStr<'a, E> {
    /// The string as an owned [`String`], copied where it was borrowed.
    pub fn into_owned(self) -> (r: String<E>)
        ensures
            r@ == self@,
    {
        match self {
            CowStr::Borrowed(s) => s.to_owned(),
            CowStr::Owned(s) => s,
        }
    }
}

impl<E: Encoding> String<E> {
    /// Attempt to convert bytes into a [`Str<E>`]. If any bytes are invalid for the current
    /// encoding, a new `String` will instead be allocated that replaces each malformed unit
    /// with the replacement character for the encoding.
    pub fn from_bytes_lossy<'a>(bytes: &'a [u8]) -> (r: CowStr<'a, E>)
        ensures
            r@ == repaired::<E>(bytes@),
            r is Borrowed <==> valid::<E>(bytes@),
    {
        let mut chunks = EncodedChunks::<E>::new(bytes);
        proof {
            lemma_defect_span::<E>(bytes@);
            E::lemma_replacement();
        }
        let first_valid = match chunks.next() {
            Some(chunk) => {
                let valid = chunk.valid();
                if chunk.invalid().len() == 0 {
                    assert(bytes@.take(bytes@.len() as int) =~= bytes@);
                    return CowStr::Borrowed(valid);
                }
                valid
            },
            None => {
                return CowStr::Borrowed(Str::empty());
            },
        };
        let mut res: String<E> = String::with_capacity(bytes.len());
        res.push_str(first_valid);
        res.push(E::REPLACEMENT);
        assert(res@ =~= bytes@.take(valid_prefix_len::<E>(bytes@) as int) + E::encoding(
            E::REPLACEMENT,
        ).unwrap());
        loop
            invariant
                E::encoding(E::REPLACEMENT) is Some,
                !valid::<E>(bytes@),
                repaired::<E>(bytes@) == res@ + repaired::<E>(chunks@) || (chunks@.len() == 0
                    && repaired::<E>(bytes@) == res@),
            decreases chunks@.len(),
        {
            let ghost left: Seq<u8> = chunks@;
            let ghost so_far: Seq<u8> = res@;
            proof {
                lemma_defect_span::<E>(left);
            }
            match chunks.next() {
                Some(chunk) => {
                    res.push_str(chunk.valid());
                    if chunk.invalid().len() != 0 {
                        res.push(E::REPLACEMENT);
                        assert(res@ + repaired::<E>(chunks@) =~= so_far + repaired::<E>(left)
                            || (chunks@.len() == 0 && res@ =~= so_far + repaired::<E>(left)));
                    } else {
                        assert(left.take(left.len() as int) =~= left);
                        assert(res@ =~= so_far + repaired::<E>(left));
                    }
                },
                None => {
                    assert(so_far + repaired::<E>(left) =~= so_far);
                    return CowStr::Owned(res);
                },
            }
        }
    }
}

impl<E: NullTerminable> String<E> {
    /// Attempt to convert this `String` into a [`CString`]. This method fails if the string
    /// contains any internal null bytes.
    ///
    /// This method may be more efficient than `CString::new(string.into_bytes())`, due to
    /// being able to skip encoding validity checks.
    pub fn into_cstring(self) -> (r: Result<CString<E>, NulError>)
        ensures
            match first_null(self@) {
                Some(nul_pos) => r matches Err(e) && e.bytes@ == self@ && e.nul_pos == nul_pos,
                None => r matches Ok(c) && c@ == self@,
            },
    {
        CString::from_string(self)
    }
}

/// `String::into_bytes`, of the standard library: the bytes of the string, which are the
/// UTF-8 encoding of its characters.
#[verifier::external_body]
fn std_into_bytes(value: std::string::String) -> (r: Vec<u8>)
    ensures
        r@ == encode_utf8(value@),
{
    value.into_bytes()
}

/// `String::from_utf8`, of the standard library, on bytes that are known to be valid UTF-8:
/// the string with those bytes. The function returns an error for any other bytes, which the
/// precondition rules out.
#[verifier::external_body]
fn std_from_utf8(bytes: Vec<u8>) -> (r: std::string::String)
    requires
        valid_utf8(bytes@),
    ensures
        encode_utf8(r@) == bytes@,
{
    std::string::String::from_utf8(bytes).unwrap()
}

impl String<Utf8> {
    /// Convert an [`std::String`](std::string::String) directly into a [`String<Utf8>`].
    pub fn from_std(value: std::string::String) -> (r: Self)
        ensures
            r@ == encode_utf8(value@),
    {
        proof {
            encode_utf8_valid_utf8(value@);
            lemma_utf8_model(encode_utf8(value@), 0);
        }
        String::from_bytes_unchecked(std_into_bytes(value))
    }

    /// Convert a [`String<Utf8>`] directly into a [`std::String`](std::string::String).
    pub fn into_std(self) -> (r: std::string::String)
        ensures
            encode_utf8(r@) == self@,
    {
        let bytes = self.into_bytes();
        proof {
            lemma_utf8_model(bytes@, 0);
        }
        std_from_utf8(bytes)
    }
}

} // verus!
