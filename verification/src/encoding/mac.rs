//! The encoding of the classic Mac OS.

use crate::encoding::model::{
    lemma_char_code, lemma_fixed_width_boundaries, lemma_walk_done, lemma_walk_start,
    lemma_walk_step, lemma_walk_stop, walked, Grammar,
};
use crate::encoding::page::{
    lemma_every_byte_valid, lemma_page_round_trip, page_char, page_code, page_decode,
    page_encode,
};
use crate::encoding::sealed::Sealed;
use crate::encoding::{AlwaysValid, Encoding, ValidateError};
use crate::str::Str;
use vstd::prelude::*;
use vstd::slice::slice_subrange;

verus! {


/// The characters of Mac OS Roman for the bytes from `0x80` on.
pub const DECODE_MAP_ROMAN: [char; 128] = [
    '\u{C4}', '\u{C5}', '\u{C7}', '\u{C9}', '\u{D1}', '\u{D6}', '\u{DC}', '\u{E1}', '\u{E0}',
    '\u{E2}', '\u{E4}', '\u{E3}', '\u{E5}', '\u{E7}', '\u{E9}', '\u{E8}', '\u{EA}', '\u{EB}',
    '\u{ED}', '\u{EC}', '\u{EE}', '\u{EF}', '\u{F1}', '\u{F3}', '\u{F2}', '\u{F4}', '\u{F6}',
    '\u{F5}', '\u{FA}', '\u{F9}', '\u{FB}', '\u{FC}', '\u{2020}', '\u{B0}', '\u{A2}', '\u{A3}',
    '\u{A7}', '\u{2022}', '\u{B6}', '\u{DF}', '\u{AE}', '\u{A9}', '\u{2122}', '\u{B4}',
    '\u{A8}', '\u{2260}', '\u{C6}', '\u{D8}', '\u{221E}', '\u{B1}', '\u{2264}', '\u{2265}',
    '\u{A5}', '\u{B5}', '\u{2202}', '\u{2211}', '\u{220F}', '\u{3C0}', '\u{222B}', '\u{AA}',
    '\u{BA}', '\u{3A9}', '\u{E6}', '\u{F8}', '\u{BF}', '\u{A1}', '\u{AC}', '\u{221A}',
    '\u{192}', '\u{2248}', '\u{2206}', '\u{AB}', '\u{BB}', '\u{2026}', '\u{A0}', '\u{C0}',
    '\u{C3}', '\u{D5}', '\u{152}', '\u{153}', '\u{2013}', '\u{2014}', '\u{201C}', '\u{201D}',
    '\u{2018}', '\u{2019}', '\u{F7}', '\u{25CA}', '\u{FF}', '\u{178}', '\u{2044}', '\u{20AC}',
    '\u{2039}', '\u{203A}', '\u{FB01}', '\u{FB02}', '\u{2021}', '\u{B7}', '\u{201A}',
    '\u{201E}', '\u{2030}', '\u{C2}', '\u{CA}', '\u{C1}', '\u{CB}', '\u{C8}', '\u{CD}',
    '\u{CE}', '\u{CF}', '\u{CC}', '\u{D3}', '\u{D4}', '\u{F8FF}', '\u{D2}', '\u{DA}', '\u{DB}',
    '\u{D9}', '\u{131}', '\u{2C6}', '\u{2DC}', '\u{AF}', '\u{2D8}', '\u{2D9}', '\u{2DA}',
    '\u{B8}', '\u{2DD}', '\u{2DB}', '\u{2C7}',
];

/// Whether `b` stands for a character in macOS Roman.
pub open spec fn mac_roman_byte(b: u8) -> bool {
    true
}

/// Whether macOS Roman writes the character with code point `code` as the byte of the
/// same value.
pub open spec fn mac_roman_plain(code: u32) -> bool {
    code < 0x80
}

/// The byte that stands for `c` in macOS Roman, where there is one.
pub open spec fn mac_roman_code(c: char) -> Option<u8> {
    match page_code(DECODE_MAP_ROMAN@, 0x80, mac_roman_plain(c as u32), c) {
        Some(b) => if mac_roman_byte(b) {
            Some(b)
        } else {
            None
        },
        None => None,
    }
}

/// The [macOS Roman](https://en.wikipedia.org/wiki/Mac_OS_Roman) encoding.
#[derive(Clone, Copy, Debug, Default, PartialEq, Eq)]
#[non_exhaustive]
pub struct MacRoman;

impl Sealed for MacRoman {

}

impl Grammar for MacRoman {
    const REPLACEMENT: char = '?';

    const MAX_LEN: usize = 1;

    open spec fn char_width(bytes: Seq<u8>) -> nat {
        if bytes.len() > 0 && mac_roman_byte(bytes[0]) {
            1
        } else {
            0
        }
    }

    open spec fn first_char(bytes: Seq<u8>) -> char {
        page_char(DECODE_MAP_ROMAN@, 0x80, bytes[0])
    }

    open spec fn encoding(c: char) -> Option<Seq<u8>> {
        match mac_roman_code(c) {
            Some(b) => Some(seq![b]),
            None => None,
        }
    }

    open spec fn defect_len(bytes: Seq<u8>) -> Option<u8> {
        Some(1u8)
    }

    proof fn lemma_width_bounds(bytes: Seq<u8>) {
    }

    proof fn lemma_width_local(a: Seq<u8>, b: Seq<u8>) {
        assert(a.take(1)[0] == b.take(1)[0]);
    }

    proof fn lemma_defect_bounds(bytes: Seq<u8>) {
    }

    proof fn lemma_round_trip(c: char) {
        lemma_page_round_trip(DECODE_MAP_ROMAN@, 0x80, mac_roman_plain(c as u32), c);
        if mac_roman_code(c) is Some {
            assert(seq![mac_roman_code(c)->0][0] == mac_roman_code(c)->0);
        }
    }

    proof fn lemma_replacement() {
        lemma_char_code('?');
    }
}

impl MacRoman {
    fn admits(b: u8) -> (r: bool)
        ensures
            r == mac_roman_byte(b),
    {
        true
    }

    fn code_of(c: char) -> (r: Option<u8>)
        ensures
            r == mac_roman_code(c),
    {
        let code: u32 = c as u32;
        let plain: bool = code < 0x80;
        match page_encode(&DECODE_MAP_ROMAN, 0x80, plain, c) {
            Some(b) => if Self::admits(b) {
                Some(b)
            } else {
                None
            },
            None => None,
        }
    }
}

impl Encoding for MacRoman {
    type Bytes = u8;

    open spec fn name() -> Seq<char> {
        "mac_roman"@
    }

    fn shorthand() -> (r: &'static str) {
        "mac_roman"
    }

    fn validate(bytes: &[u8]) -> (r: Result<(), ValidateError>) {
        let mut idx: usize = 0;
        proof {
            lemma_walk_start::<Self>(bytes@);
        }
        while idx < bytes.len()
            invariant
                walked::<Self>(bytes@, idx as int),
            decreases bytes.len() - idx,
        {
            if !Self::admits(bytes[idx]) {
                proof {
                    lemma_walk_stop::<Self>(bytes@, idx as int);
                }
                return Err(ValidateError { valid_up_to: idx, error_len: Some(1) });
            }
            proof {
                lemma_walk_step::<Self>(bytes@, idx as int);
            }
            idx += 1;
        }
        proof {
            lemma_walk_done::<Self>(bytes@);
        }
        Ok(())
    }

    fn encode_char(c: char) -> (r: Option<u8>) {
        Self::code_of(c)
    }

    fn decode_char<'a>(str: Str<'a, Self>) -> (r: (char, Str<'a, Self>)) {
        let bytes = str.as_bytes();
        let rest = slice_subrange(bytes, 1, bytes.len());
        (page_decode(&DECODE_MAP_ROMAN, 0x80, bytes[0]), Str::from_bytes_unchecked(rest))
    }

    fn char_bound(str: Str<'_, Self>, idx: usize) -> (r: bool) {
        let bytes = str.as_bytes();
        proof {
            lemma_fixed_width_boundaries::<Self>(bytes@, idx as int, 1);
        }
        true
    }

    fn char_len(c: char) -> (r: usize) {
        match Self::code_of(c) {
            Some(_) => 1,
            None => 0,
        }
    }
}

impl AlwaysValid for MacRoman {
    proof fn lemma_always_valid(bytes: Seq<u8>) {
        lemma_every_byte_valid::<Self>(bytes);
    }
}

} // verus!
