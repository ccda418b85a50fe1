//! ASCII and its eight-bit extension.

use crate::encoding::model::{
    lemma_char_code, lemma_fixed_width_boundaries, lemma_walk_done, lemma_walk_start,
    lemma_walk_step, lemma_walk_stop, walked, Grammar,
};
use crate::encoding::page::lemma_every_byte_valid;
use crate::encoding::sealed::Sealed;
use crate::encoding::{AlwaysValid, Encoding, NullTerminable, ValidateError};
use crate::str::Str;
use vstd::prelude::*;
use vstd::slice::slice_subrange;

verus! {

/// The [ASCII](https://en.wikipedia.org/wiki/ASCII) encoding.
#[derive(Clone, Copy, Debug, Default, PartialEq, Eq)]
#[non_exhaustive]
pub struct Ascii;

impl Sealed for Ascii {

}

impl Grammar for Ascii {
    const REPLACEMENT: char = '\x1A';

    const MAX_LEN: usize = 1;

    open spec fn char_width(bytes: Seq<u8>) -> nat {
        if bytes.len() > 0 && bytes[0] <= 127 {
            1
        } else {
            0
        }
    }

    open spec fn first_char(bytes: Seq<u8>) -> char {
        bytes[0] as char
    }

    open spec fn encoding(c: char) -> Option<Seq<u8>> {
        if c as u32 <= 127 {
            Some(seq![c as u8])
        } else {
            None
        }
    }

    open spec fn defect_len(bytes: Seq<u8>) -> Option<u8> {
        Some(1)
    }

    proof fn lemma_width_bounds(bytes: Seq<u8>) {
    }

    proof fn lemma_width_local(a: Seq<u8>, b: Seq<u8>) {
        assert(a.take(1)[0] == b.take(1)[0]);
    }

    proof fn lemma_defect_bounds(bytes: Seq<u8>) {
    }

    proof fn lemma_round_trip(c: char) {
        if c as u32 <= 127 {
            let b: Seq<u8> = seq![c as u8];
            assert(b[0] == c as u8);
            lemma_char_code(c);
        }
    }

    proof fn lemma_replacement() {
    }
}

impl Encoding for Ascii {
    type Bytes = u8;

    open spec fn name() -> Seq<char> {
        "ascii"@
    }

    fn shorthand() -> (r: &'static str) {
        "ascii"
    }

    fn validate(bytes: &[u8]) -> (r: Result<(), ValidateError>) {
        let mut idx: usize = 0;
        proof {
            lemma_walk_start::<Self>(bytes@);
        }
        while idx < bytes.len()
            invariant
                walked::<Self>(bytes@, idx as int),
            decreases bytes.len() - idx,
        {
            if bytes[idx] > 127 {
                proof {
                    lemma_walk_stop::<Self>(bytes@, idx as int);
                }
                return Err(ValidateError { valid_up_to: idx, error_len: Some(1) });
            }
            proof {
                lemma_walk_step::<Self>(bytes@, idx as int);
            }
            idx += 1;
        }
        proof {
            lemma_walk_done::<Self>(bytes@);
        }
        Ok(())
    }

    fn encode_char(c: char) -> (r: Option<u8>) {
        if c as u32 > 127 {
            None
        } else {
            Some(c as u8)
        }
    }

    fn decode_char<'a>(str: Str<'a, Self>) -> (r: (char, Str<'a, Self>)) {
        let bytes = str.as_bytes();
        let rest = slice_subrange(bytes, 1, bytes.len());
        (bytes[0] as char, Str::from_bytes_unchecked(rest))
    }

    fn char_bound(str: Str<'_, Self>, idx: usize) -> (r: bool) {
        let bytes = str.as_bytes();
        proof {
            lemma_fixed_width_boundaries::<Self>(bytes@, idx as int, 1);
        }
        true
    }

    fn char_len(c: char) -> (r: usize) {
        if (c as u32) < 128 {
            1
        } else {
            0
        }
    }
}

impl NullTerminable for Ascii {
    proof fn lemma_no_inner_null(c: char) {
        if c as u32 <= 127 && c != '\0' {
            let b: Seq<u8> = seq![c as u8];
            assert(b[0] == c as u8);
            lemma_char_code(c);
            assert(b.contains(0u8) ==> b[0] == 0u8);
        }
    }
}

/// The [Extended ASCII](https://en.wikipedia.org/wiki/ASCII#8-bit_codes) encoding. This
/// encoding does not assign any particular meaning to values beyond 127 - it simply
/// round-trips them as `char`s of that exact codepoint value.
#[derive(Clone, Copy, Debug, Default, PartialEq, Eq)]
#[non_exhaustive]
pub struct ExtendedAscii;

impl Sealed for ExtendedAscii {

}

impl Grammar for ExtendedAscii {
    const REPLACEMENT: char = '\x1A';

    const MAX_LEN: usize = 1;

    open spec fn char_width(bytes: Seq<u8>) -> nat {
        if bytes.len() > 0 {
            1
        } else {
            0
        }
    }

    open spec fn first_char(bytes: Seq<u8>) -> char {
        bytes[0] as char
    }

    open spec fn encoding(c: char) -> Option<Seq<u8>> {
        if (c as u32) < 256 {
            Some(seq![c as u8])
        } else {
            None
        }
    }

    open spec fn defect_len(bytes: Seq<u8>) -> Option<u8> {
        Some(1u8)
    }

    proof fn lemma_width_bounds(bytes: Seq<u8>) {
    }

    proof fn lemma_width_local(a: Seq<u8>, b: Seq<u8>) {
        assert(a.take(1)[0] == b.take(1)[0]);
    }

    proof fn lemma_defect_bounds(bytes: Seq<u8>) {
    }

    proof fn lemma_round_trip(c: char) {
        if (c as u32) < 256 {
            let b: Seq<u8> = seq![c as u8];
            assert(b[0] == c as u8);
            lemma_char_code(c);
        }
    }

    proof fn lemma_replacement() {
    }
}

impl Encoding for ExtendedAscii {
    type Bytes = u8;

    open spec fn name() -> Seq<char> {
        "ascii_ext"@
    }

    fn shorthand() -> (r: &'static str) {
        "ascii_ext"
    }

    fn validate(bytes: &[u8]) -> (r: Result<(), ValidateError>) {
        proof {
            lemma_every_byte_valid::<Self>(bytes@);
        }
        Ok(())
    }

    fn encode_char(c: char) -> (r: Option<u8>) {
        if (c as u32) < 256 {
            Some(c as u8)
        } else {
            None
        }
    }

    fn decode_char<'a>(str: Str<'a, Self>) -> (r: (char, Str<'a, Self>)) {
        let bytes = str.as_bytes();
        let rest = slice_subrange(bytes, 1, bytes.len());
        (bytes[0] as char, Str::from_bytes_unchecked(rest))
    }

    fn char_bound(str: Str<'_, Self>, idx: usize) -> (r: bool) {
        let bytes = str.as_bytes();
        proof {
            lemma_fixed_width_boundaries::<Self>(bytes@, idx as int, 1);
        }
        true
    }

    fn char_len(c: char) -> (r: usize) {
        if (c as u32) < 256 {
            1
        } else {
            0
        }
    }
}

impl NullTerminable for ExtendedAscii {
    proof fn lemma_no_inner_null(c: char) {
        if (c as u32) < 256 && c != '\0' {
            let b: Seq<u8> = seq![c as u8];
            assert(b[0] == c as u8);
            lemma_char_code(c);
            assert(b.contains(0u8) ==> b[0] == 0u8);
        }
    }
}

impl AlwaysValid for ExtendedAscii {
    proof fn lemma_always_valid(bytes: Seq<u8>) {
        lemma_every_byte_valid::<Self>(bytes);
    }
}

} // verus!
