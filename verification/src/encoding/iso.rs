//! The ISO/IEC 8859 family of single-byte encodings.

use crate::encoding::model::{
    lemma_char_code, lemma_fixed_width_boundaries, lemma_walk_done, lemma_walk_start,
    lemma_walk_step, lemma_walk_stop, walked, Grammar,
};
use crate::encoding::page::{
    lemma_page_round_trip, page_char, page_code, page_decode, page_encode,
};
use crate::encoding::sealed::Sealed;
use crate::encoding::{Encoding, NullTerminable, ValidateError};
use crate::str::Str;
use vstd::prelude::*;
use vstd::slice::slice_subrange;

verus! {


/// The characters of ISO/IEC 8859-1 for the bytes from `0xA0` on.
pub const DECODE_MAP_8859_1: [char; 96] = [
    '\u{A0}', '\u{A1}', '\u{A2}', '\u{A3}', '\u{A4}', '\u{A5}', '\u{A6}', '\u{A7}', '\u{A8}',
    '\u{A9}', '\u{AA}', '\u{AB}', '\u{AC}', '\u{AD}', '\u{AE}', '\u{AF}', '\u{B0}', '\u{B1}',
    '\u{B2}', '\u{B3}', '\u{B4}', '\u{B5}', '\u{B6}', '\u{B7}', '\u{B8}', '\u{B9}', '\u{BA}',
    '\u{BB}', '\u{BC}', '\u{BD}', '\u{BE}', '\u{BF}', '\u{C0}', '\u{C1}', '\u{C2}', '\u{C3}',
    '\u{C4}', '\u{C5}', '\u{C6}', '\u{C7}', '\u{C8}', '\u{C9}', '\u{CA}', '\u{CB}', '\u{CC}',
    '\u{CD}', '\u{CE}', '\u{CF}', '\u{D0}', '\u{D1}', '\u{D2}', '\u{D3}', '\u{D4}', '\u{D5}',
    '\u{D6}', '\u{D7}', '\u{D8}', '\u{D9}', '\u{DA}', '\u{DB}', '\u{DC}', '\u{DD}', '\u{DE}',
    '\u{DF}', '\u{E0}', '\u{E1}', '\u{E2}', '\u{E3}', '\u{E4}', '\u{E5}', '\u{E6}', '\u{E7}',
    '\u{E8}', '\u{E9}', '\u{EA}', '\u{EB}', '\u{EC}', '\u{ED}', '\u{EE}', '\u{EF}', '\u{F0}',
    '\u{F1}', '\u{F2}', '\u{F3}', '\u{F4}', '\u{F5}', '\u{F6}', '\u{F7}', '\u{F8}', '\u{F9}',
    '\u{FA}', '\u{FB}', '\u{FC}', '\u{FD}', '\u{FE}', '\u{FF}',
];

/// The characters of ISO/IEC 8859-2 for the bytes from `0xA0` on.
pub const DECODE_MAP_8859_2: [char; 96] = [
    '\u{A0}', '\u{104}', '\u{2D8}', '\u{141}', '\u{A4}', '\u{13D}', '\u{15A}', '\u{A7}',
    '\u{A8}', '\u{160}', '\u{15E}', '\u{164}', '\u{179}', '\u{AD}', '\u{17D}', '\u{17B}',
    '\u{B0}', '\u{105}', '\u{2DB}', '\u{142}', '\u{B4}', '\u{13E}', '\u{15B}', '\u{2C7}',
    '\u{B8}', '\u{161}', '\u{15F}', '\u{165}', '\u{17A}', '\u{2DD}', '\u{17E}', '\u{17C}',
    '\u{154}', '\u{C1}', '\u{C2}', '\u{102}', '\u{C4}', '\u{139}', '\u{106}', '\u{C7}',
    '\u{10C}', '\u{C9}', '\u{118}', '\u{CB}', '\u{11A}', '\u{CD}', '\u{CE}', '\u{10E}',
    '\u{110}', '\u{143}', '\u{147}', '\u{D3}', '\u{D4}', '\u{150}', '\u{D6}', '\u{D7}',
    '\u{158}', '\u{16E}', '\u{DA}', '\u{170}', '\u{DC}', '\u{DD}', '\u{162}', '\u{DF}',
    '\u{155}', '\u{E1}', '\u{E2}', '\u{103}', '\u{E4}', '\u{13A}', '\u{107}', '\u{E7}',
    '\u{10D}', '\u{E9}', '\u{119}', '\u{EB}', '\u{11B}', '\u{ED}', '\u{EE}', '\u{10F}',
    '\u{111}', '\u{144}', '\u{148}', '\u{F3}', '\u{F4}', '\u{151}', '\u{F6}', '\u{F7}',
    '\u{159}', '\u{16F}', '\u{FA}', '\u{171}', '\u{FC}', '\u{FD}', '\u{163}', '\u{2D9}',
];

/// The characters of ISO/IEC 8859-3 for the bytes from `0xA0` on. `'\u{FFFD}'` fills the places of
/// the bytes that the standard leaves unassigned.
pub const DECODE_MAP_8859_3: [char; 96] = [
    '\u{A0}', '\u{126}', '\u{2D8}', '\u{A3}', '\u{A4}', '\u{FFFD}', '\u{124}', '\u{A7}',
    '\u{A8}', '\u{130}', '\u{15E}', '\u{11E}', '\u{134}', '\u{AD}', '\u{FFFD}', '\u{17B}',
    '\u{B0}', '\u{127}', '\u{B2}', '\u{B3}', '\u{B4}', '\u{B5}', '\u{125}', '\u{B7}', '\u{B8}',
    '\u{131}', '\u{15F}', '\u{11F}', '\u{135}', '\u{BD}', '\u{FFFD}', '\u{17C}', '\u{C0}',
    '\u{C1}', '\u{C2}', '\u{FFFD}', '\u{C4}', '\u{10A}', '\u{108}', '\u{C7}', '\u{C8}',
    '\u{C9}', '\u{CA}', '\u{CB}', '\u{CC}', '\u{CD}', '\u{CE}', '\u{CF}', '\u{FFFD}', '\u{D1}',
    '\u{D2}', '\u{D3}', '\u{D4}', '\u{120}', '\u{D6}', '\u{D7}', '\u{11C}', '\u{D9}', '\u{DA}',
    '\u{DB}', '\u{DC}', '\u{16C}', '\u{15C}', '\u{DF}', '\u{E0}', '\u{E1}', '\u{E2}',
    '\u{FFFD}', '\u{E4}', '\u{10B}', '\u{109}', '\u{E7}', '\u{E8}', '\u{E9}', '\u{EA}',
    '\u{EB}', '\u{EC}', '\u{ED}', '\u{EE}', '\u{EF}', '\u{FFFD}', '\u{F1}', '\u{F2}', '\u{F3}',
    '\u{F4}', '\u{121}', '\u{F6}', '\u{F7}', '\u{11D}', '\u{F9}', '\u{FA}', '\u{FB}', '\u{FC}',
    '\u{16D}', '\u{15D}', '\u{2D9}',
];

/// The characters of ISO/IEC 8859-15 for the bytes from `0xA0` on.
pub const DECODE_MAP_8859_15: [char; 96] = [
    '\u{A0}', '\u{A1}', '\u{A2}', '\u{A3}', '\u{20AC}', '\u{A5}', '\u{160}', '\u{A7}',
    '\u{161}', '\u{A9}', '\u{AA}', '\u{AB}', '\u{AC}', '\u{AD}', '\u{AE}', '\u{AF}', '\u{B0}',
    '\u{B1}', '\u{B2}', '\u{B3}', '\u{17D}', '\u{B5}', '\u{B6}', '\u{B7}', '\u{17E}', '\u{B9}',
    '\u{BA}', '\u{BB}', '\u{152}', '\u{153}', '\u{178}', '\u{BF}', '\u{C0}', '\u{C1}', '\u{C2}',
    '\u{C3}', '\u{C4}', '\u{C5}', '\u{C6}', '\u{C7}', '\u{C8}', '\u{C9}', '\u{CA}', '\u{CB}',
    '\u{CC}', '\u{CD}', '\u{CE}', '\u{CF}', '\u{D0}', '\u{D1}', '\u{D2}', '\u{D3}', '\u{D4}',
    '\u{D5}', '\u{D6}', '\u{D7}', '\u{D8}', '\u{D9}', '\u{DA}', '\u{DB}', '\u{DC}', '\u{DD}',
    '\u{DE}', '\u{DF}', '\u{E0}', '\u{E1}', '\u{E2}', '\u{E3}', '\u{E4}', '\u{E5}', '\u{E6}',
    '\u{E7}', '\u{E8}', '\u{E9}', '\u{EA}', '\u{EB}', '\u{EC}', '\u{ED}', '\u{EE}', '\u{EF}',
    '\u{F0}', '\u{F1}', '\u{F2}', '\u{F3}', '\u{F4}', '\u{F5}', '\u{F6}', '\u{F7}', '\u{F8}',
    '\u{F9}', '\u{FA}', '\u{FB}', '\u{FC}', '\u{FD}', '\u{FE}', '\u{FF}',
];

/// Whether `b` stands for a character in ISO/IEC 8859-1.
pub open spec fn iso8859_1_byte(b: u8) -> bool {
    (0x20 <= b && b < 0x7F) || b >= 0xA0
}

/// Whether ISO/IEC 8859-1 writes the character with code point `code` as the byte of the
/// same value.
pub open spec fn iso8859_1_plain(code: u32) -> bool {
    0x20 <= code && code < 0x7F
}

/// The byte that stands for `c` in ISO/IEC 8859-1, where there is one.
pub open spec fn iso8859_1_code(c: char) -> Option<u8> {
    match page_code(DECODE_MAP_8859_1@, 0xA0, iso8859_1_plain(c as u32), c) {
        Some(b) => if iso8859_1_byte(b) {
            Some(b)
        } else {
            None
        },
        None => None,
    }
}

/// The [ISO/IEC 8859-1](https://en.wikipedia.org/wiki/ISO/IEC_8859-1) encoding.
#[derive(Clone, Copy, Debug, Default, PartialEq, Eq)]
#[non_exhaustive]
pub struct Iso8859_1;

impl Sealed for Iso8859_1 {

}

impl Grammar for Iso8859_1 {
    const REPLACEMENT: char = '?';

    const MAX_LEN: usize = 1;

    open spec fn char_width(bytes: Seq<u8>) -> nat {
        if bytes.len() > 0 && iso8859_1_byte(bytes[0]) {
            1
        } else {
            0
        }
    }

    open spec fn first_char(bytes: Seq<u8>) -> char {
        page_char(DECODE_MAP_8859_1@, 0xA0, bytes[0])
    }

    open spec fn encoding(c: char) -> Option<Seq<u8>> {
        match iso8859_1_code(c) {
            Some(b) => Some(seq![b]),
            None => None,
        }
    }

    open spec fn defect_len(bytes: Seq<u8>) -> Option<u8> {
        Some(1u8)
    }

    proof fn lemma_width_bounds(bytes: Seq<u8>) {
    }

    proof fn lemma_width_local(a: Seq<u8>, b: Seq<u8>) {
        assert(a.take(1)[0] == b.take(1)[0]);
    }

    proof fn lemma_defect_bounds(bytes: Seq<u8>) {
    }

    proof fn lemma_round_trip(c: char) {
        lemma_page_round_trip(DECODE_MAP_8859_1@, 0xA0, iso8859_1_plain(c as u32), c);
        if iso8859_1_code(c) is Some {
            assert(seq![iso8859_1_code(c)->0][0] == iso8859_1_code(c)->0);
        }
    }

    proof fn lemma_replacement() {
        lemma_char_code('?');
    }
}

impl Iso8859_1 {
    fn admits(b: u8) -> (r: bool)
        ensures
            r == iso8859_1_byte(b),
    {
        (0x20 <= b && b < 0x7F) || b >= 0xA0
    }

    fn code_of(c: char) -> (r: Option<u8>)
        ensures
            r == iso8859_1_code(c),
    {
        let code: u32 = c as u32;
        let plain: bool = 0x20 <= code && code < 0x7F;
        match page_encode(&DECODE_MAP_8859_1, 0xA0, plain, c) {
            Some(b) => if Self::admits(b) {
                Some(b)
            } else {
                None
            },
            None => None,
        }
    }
}

impl Encoding for Iso8859_1 {
    type Bytes = u8;

    open spec fn name() -> Seq<char> {
        "iso8859_1"@
    }

    fn shorthand() -> (r: &'static str) {
        "iso8859_1"
    }

    fn validate(bytes: &[u8]) -> (r: Result<(), ValidateError>) {
        let mut idx: usize = 0;
        proof {
            lemma_walk_start::<Self>(bytes@);
        }
        while idx < bytes.len()
            invariant
                walked::<Self>(bytes@, idx as int),
            decreases bytes.len() - idx,
        {
            if !Self::admits(bytes[idx]) {
                proof {
                    lemma_walk_stop::<Self>(bytes@, idx as int);
                }
                return Err(ValidateError { valid_up_to: idx, error_len: Some(1) });
            }
            proof {
                lemma_walk_step::<Self>(bytes@, idx as int);
            }
            idx += 1;
        }
        proof {
            lemma_walk_done::<Self>(bytes@);
        }
        Ok(())
    }

    fn encode_char(c: char) -> (r: Option<u8>) {
        Self::code_of(c)
    }

    fn decode_char<'a>(str: Str<'a, Self>) -> (r: (char, Str<'a, Self>)) {
        let bytes = str.as_bytes();
        let rest = slice_subrange(bytes, 1, bytes.len());
        (page_decode(&DECODE_MAP_8859_1, 0xA0, bytes[0]), Str::from_bytes_unchecked(rest))
    }

    fn char_bound(str: Str<'_, Self>, idx: usize) -> (r: bool) {
        let bytes = str.as_bytes();
        proof {
            lemma_fixed_width_boundaries::<Self>(bytes@, idx as int, 1);
        }
        true
    }

    fn char_len(c: char) -> (r: usize) {
        match Self::code_of(c) {
            Some(_) => 1,
            None => 0,
        }
    }
}

/// The byte of the `n`-th character of ISO/IEC 8859-1, counted from zero in the order of
/// the bytes.
pub open spec fn iso8859_1_nth_byte(n: u8) -> u8 {
    if n < 95 {
        (n + 0x20) as u8
    } else {
        (n + 65) as u8
    }
}

impl Iso8859_1 {
    /// Number of characters of the encoding.
    pub const CHARS: usize = 191;

    /// The `n`-th character of the encoding, counted from zero in the order of the bytes:
    /// the character that a draw of `n` from the numbers below [`Self::CHARS`] stands for.
    pub fn sample(n: u8) -> (c: char)
        requires
            n < 191,
        ensures
            iso8859_1_byte(iso8859_1_nth_byte(n)),
            c == page_char(DECODE_MAP_8859_1@, 0xA0, iso8859_1_nth_byte(n)),
    {
        let byte: u8 = if n < 95 {
            (n + 0x20) as u8
        } else {
            (n + 65) as u8
        };
        page_decode(&DECODE_MAP_8859_1, 0xA0, byte)
    }
}

impl NullTerminable for Iso8859_1 {
    proof fn lemma_no_inner_null(c: char) {
        lemma_page_round_trip(DECODE_MAP_8859_1@, 0xA0, iso8859_1_plain(c as u32), c);
        lemma_char_code(c);
        if iso8859_1_code(c) is Some {
            let b: Seq<u8> = seq![iso8859_1_code(c)->0];
            assert(b.contains(0u8) ==> b[0] == 0u8);
        }
    }
}

/// Whether `b` stands for a character in ISO/IEC 8859-2.
pub open spec fn iso8859_2_byte(b: u8) -> bool {
    (0x20 <= b && b < 0x7F) || b >= 0xA0
}

/// Whether ISO/IEC 8859-2 writes the character with code point `code` as the byte of the
/// same value.
pub open spec fn iso8859_2_plain(code: u32) -> bool {
    0x20 <= code && code < 0x7F
}

/// The byte that stands for `c` in ISO/IEC 8859-2, where there is one.
pub open spec fn iso8859_2_code(c: char) -> Option<u8> {
    match page_code(DECODE_MAP_8859_2@, 0xA0, iso8859_2_plain(c as u32), c) {
        Some(b) => if iso8859_2_byte(b) {
            Some(b)
        } else {
            None
        },
        None => None,
    }
}

/// The [ISO/IEC 8859-2](https://en.wikipedia.org/wiki/ISO/IEC_8859-2) encoding.
#[derive(Clone, Copy, Debug, Default, PartialEq, Eq)]
#[non_exhaustive]
pub struct Iso8859_2;

impl Sealed for Iso8859_2 {

}

impl Grammar for Iso8859_2 {
    const REPLACEMENT: char = '?';

    const MAX_LEN: usize = 1;

    open spec fn char_width(bytes: Seq<u8>) -> nat {
        if bytes.len() > 0 && iso8859_2_byte(bytes[0]) {
            1
        } else {
            0
        }
    }

    open spec fn first_char(bytes: Seq<u8>) -> char {
        page_char(DECODE_MAP_8859_2@, 0xA0, bytes[0])
    }

    open spec fn encoding(c: char) -> Option<Seq<u8>> {
        match iso8859_2_code(c) {
            Some(b) => Some(seq![b]),
            None => None,
        }
    }

    open spec fn defect_len(bytes: Seq<u8>) -> Option<u8> {
        Some(1u8)
    }

    proof fn lemma_width_bounds(bytes: Seq<u8>) {
    }

    proof fn lemma_width_local(a: Seq<u8>, b: Seq<u8>) {
        assert(a.take(1)[0] == b.take(1)[0]);
    }

    proof fn lemma_defect_bounds(bytes: Seq<u8>) {
    }

    proof fn lemma_round_trip(c: char) {
        lemma_page_round_trip(DECODE_MAP_8859_2@, 0xA0, iso8859_2_plain(c as u32), c);
        if iso8859_2_code(c) is Some {
            assert(seq![iso8859_2_code(c)->0][0] == iso8859_2_code(c)->0);
        }
    }

    proof fn lemma_replacement() {
        lemma_char_code('?');
    }
}

impl Iso8859_2 {
    fn admits(b: u8) -> (r: bool)
        ensures
            r == iso8859_2_byte(b),
    {
        (0x20 <= b && b < 0x7F) || b >= 0xA0
    }

    fn code_of(c: char) -> (r: Option<u8>)
        ensures
            r == iso8859_2_code(c),
    {
        let code: u32 = c as u32;
        let plain: bool = 0x20 <= code && code < 0x7F;
        match page_encode(&DECODE_MAP_8859_2, 0xA0, plain, c) {
            Some(b) => if Self::admits(b) {
                Some(b)
            } else {
                None
            },
            None => None,
        }
    }
}

impl Encoding for Iso8859_2 {
    type Bytes = u8;

    open spec fn name() -> Seq<char> {
        "iso8859_2"@
    }

    fn shorthand() -> (r: &'static str) {
        "iso8859_2"
    }

    fn validate(bytes: &[u8]) -> (r: Result<(), ValidateError>) {
        let mut idx: usize = 0;
        proof {
            lemma_walk_start::<Self>(bytes@);
        }
        while idx < bytes.len()
            invariant
                walked::<Self>(bytes@, idx as int),
            decreases bytes.len() - idx,
        {
            if !Self::admits(bytes[idx]) {
                proof {
                    lemma_walk_stop::<Self>(bytes@, idx as int);
                }
                return Err(ValidateError { valid_up_to: idx, error_len: Some(1) });
            }
            proof {
                lemma_walk_step::<Self>(bytes@, idx as int);
            }
            idx += 1;
        }
        proof {
            lemma_walk_done::<Self>(bytes@);
        }
        Ok(())
    }

    fn encode_char(c: char) -> (r: Option<u8>) {
        Self::code_of(c)
    }

    fn decode_char<'a>(str: Str<'a, Self>) -> (r: (char, Str<'a, Self>)) {
        let bytes = str.as_bytes();
        let rest = slice_subrange(bytes, 1, bytes.len());
        (page_decode(&DECODE_MAP_8859_2, 0xA0, bytes[0]), Str::from_bytes_unchecked(rest))
    }

    fn char_bound(str: Str<'_, Self>, idx: usize) -> (r: bool) {
        let bytes = str.as_bytes();
        proof {
            lemma_fixed_width_boundaries::<Self>(bytes@, idx as int, 1);
        }
        true
    }

    fn char_len(c: char) -> (r: usize) {
        match Self::code_of(c) {
            Some(_) => 1,
            None => 0,
        }
    }
}

/// The byte of the `n`-th character of ISO/IEC 8859-2, counted from zero in the order of
/// the bytes.
pub open spec fn iso8859_2_nth_byte(n: u8) -> u8 {
    if n < 95 {
        (n + 0x20) as u8
    } else {
        (n + 65) as u8
    }
}

impl Iso8859_2 {
    /// Number of characters of the encoding.
    pub const CHARS: usize = 191;

    /// The `n`-th character of the encoding, counted from zero in the order of the bytes:
    /// the character that a draw of `n` from the numbers below [`Self::CHARS`] stands for.
    pub fn sample(n: u8) -> (c: char)
        requires
            n < 191,
        ensures
            iso8859_2_byte(iso8859_2_nth_byte(n)),
            c == page_char(DECODE_MAP_8859_2@, 0xA0, iso8859_2_nth_byte(n)),
    {
        let byte: u8 = if n < 95 {
            (n + 0x20) as u8
        } else {
            (n + 65) as u8
        };
        page_decode(&DECODE_MAP_8859_2, 0xA0, byte)
    }
}

impl NullTerminable for Iso8859_2 {
    proof fn lemma_no_inner_null(c: char) {
        lemma_page_round_trip(DECODE_MAP_8859_2@, 0xA0, iso8859_2_plain(c as u32), c);
        lemma_char_code(c);
        if iso8859_2_code(c) is Some {
            let b: Seq<u8> = seq![iso8859_2_code(c)->0];
            assert(b.contains(0u8) ==> b[0] == 0u8);
        }
    }
}

/// Whether `b` stands for a character in ISO/IEC 8859-3.
pub open spec fn iso8859_3_byte(b: u8) -> bool {
    ((0x20 <= b && b < 0x7F) || b >= 0xA0) && b != 0xA5 && b != 0xAE && b != 0xBE && b != 0xC3
        && b != 0xD0 && b != 0xE3 && b != 0xF0
}

/// Whether ISO/IEC 8859-3 writes the character with code point `code` as the byte of the
/// same value.
pub open spec fn iso8859_3_plain(code: u32) -> bool {
    0x20 <= code && code < 0x7F
}

/// The byte that stands for `c` in ISO/IEC 8859-3, where there is one.
pub open spec fn iso8859_3_code(c: char) -> Option<u8> {
    match page_code(DECODE_MAP_8859_3@, 0xA0, iso8859_3_plain(c as u32), c) {
        Some(b) => if iso8859_3_byte(b) {
            Some(b)
        } else {
            None
        },
        None => None,
    }
}

/// The [ISO/IEC 8859-3](https://en.wikipedia.org/wiki/ISO/IEC_8859-3) encoding.
#[derive(Clone, Copy, Debug, Default, PartialEq, Eq)]
#[non_exhaustive]
pub struct Iso8859_3;

impl Sealed for Iso8859_3 {

}

impl Grammar for Iso8859_3 {
    const REPLACEMENT: char = '?';

    const MAX_LEN: usize = 1;

    open spec fn char_width(bytes: Seq<u8>) -> nat {
        if bytes.len() > 0 && iso8859_3_byte(bytes[0]) {
            1
        } else {
            0
        }
    }

    open spec fn first_char(bytes: Seq<u8>) -> char {
        page_char(DECODE_MAP_8859_3@, 0xA0, bytes[0])
    }

    open spec fn encoding(c: char) -> Option<Seq<u8>> {
        match iso8859_3_code(c) {
            Some(b) => Some(seq![b]),
            None => None,
        }
    }

    open spec fn defect_len(bytes: Seq<u8>) -> Option<u8> {
        Some(1u8)
    }

    proof fn lemma_width_bounds(bytes: Seq<u8>) {
    }

    proof fn lemma_width_local(a: Seq<u8>, b: Seq<u8>) {
        assert(a.take(1)[0] == b.take(1)[0]);
    }

    proof fn lemma_defect_bounds(bytes: Seq<u8>) {
    }

    proof fn lemma_round_trip(c: char) {
        lemma_page_round_trip(DECODE_MAP_8859_3@, 0xA0, iso8859_3_plain(c as u32), c);
        if iso8859_3_code(c) is Some {
            assert(seq![iso8859_3_code(c)->0][0] == iso8859_3_code(c)->0);
        }
    }

    proof fn lemma_replacement() {
        lemma_char_code('?');
    }
}

impl Iso8859_3 {
    fn admits(b: u8) -> (r: bool)
        ensures
            r == iso8859_3_byte(b),
    {
        ((0x20 <= b && b < 0x7F) || b >= 0xA0) && b != 0xA5 && b != 0xAE && b != 0xBE && b != 0xC3
            && b != 0xD0 && b != 0xE3 && b != 0xF0
    }

    fn code_of(c: char) -> (r: Option<u8>)
        ensures
            r == iso8859_3_code(c),
    {
        let code: u32 = c as u32;
        let plain: bool = 0x20 <= code && code < 0x7F;
        match page_encode(&DECODE_MAP_8859_3, 0xA0, plain, c) {
            Some(b) => if Self::admits(b) {
                Some(b)
            } else {
                None
            },
            None => None,
        }
    }
}

impl Encoding for Iso8859_3 {
    type Bytes = u8;

    open spec fn name() -> Seq<char> {
        "iso8859_3"@
    }

    fn shorthand() -> (r: &'static str) {
        "iso8859_3"
    }

    fn validate(bytes: &[u8]) -> (r: Result<(), ValidateError>) {
        let mut idx: usize = 0;
        proof {
            lemma_walk_start::<Self>(bytes@);
        }
        while idx < bytes.len()
            invariant
                walked::<Self>(bytes@, idx as int),
            decreases bytes.len() - idx,
        {
            if !Self::admits(bytes[idx]) {
                proof {
                    lemma_walk_stop::<Self>(bytes@, idx as int);
                }
                return Err(ValidateError { valid_up_to: idx, error_len: Some(1) });
            }
            proof {
                lemma_walk_step::<Self>(bytes@, idx as int);
            }
            idx += 1;
        }
        proof {
            lemma_walk_done::<Self>(bytes@);
        }
        Ok(())
    }

    fn encode_char(c: char) -> (r: Option<u8>) {
        Self::code_of(c)
    }

    fn decode_char<'a>(str: Str<'a, Self>) -> (r: (char, Str<'a, Self>)) {
        let bytes = str.as_bytes();
        let rest = slice_subrange(bytes, 1, bytes.len());
        (page_decode(&DECODE_MAP_8859_3, 0xA0, bytes[0]), Str::from_bytes_unchecked(rest))
    }

    fn char_bound(str: Str<'_, Self>, idx: usize) -> (r: bool) {
        let bytes = str.as_bytes();
        proof {
            lemma_fixed_width_boundaries::<Self>(bytes@, idx as int, 1);
        }
        true
    }

    fn char_len(c: char) -> (r: usize) {
        match Self::code_of(c) {
            Some(_) => 1,
            None => 0,
        }
    }
}

/// The byte of the `n`-th character of ISO/IEC 8859-3, counted from zero in the order of
/// the bytes.
pub open spec fn iso8859_3_nth_byte(n: u8) -> u8 {
    if n < 95 {
        (n + 0x20) as u8
    } else if n < 100 {
        (n + 65) as u8
    } else if n < 108 {
        (n + 66) as u8
    } else if n < 123 {
        (n + 67) as u8
    } else if n < 127 {
        (n + 68) as u8
    } else if n < 139 {
        (n + 69) as u8
    } else if n < 157 {
        (n + 70) as u8
    } else if n < 169 {
        (n + 71) as u8
    } else {
        (n + 72) as u8
    }
}

impl Iso8859_3 {
    /// Number of characters of the encoding.
    pub const CHARS: usize = 184;

    /// The `n`-th character of the encoding, counted from zero in the order of the bytes:
    /// the character that a draw of `n` from the numbers below [`Self::CHARS`] stands for.
    pub fn sample(n: u8) -> (c: char)
        requires
            n < 184,
        ensures
            iso8859_3_byte(iso8859_3_nth_byte(n)),
            c == page_char(DECODE_MAP_8859_3@, 0xA0, iso8859_3_nth_byte(n)),
    {
        let byte: u8 = if n < 95 {
            (n + 0x20) as u8
        } else if n < 100 {
            (n + 65) as u8
        } else if n < 108 {
            (n + 66) as u8
        } else if n < 123 {
            (n + 67) as u8
        } else if n < 127 {
            (n + 68) as u8
        } else if n < 139 {
            (n + 69) as u8
        } else if n < 157 {
            (n + 70) as u8
        } else if n < 169 {
            (n + 71) as u8
        } else {
            (n + 72) as u8
        };
        page_decode(&DECODE_MAP_8859_3, 0xA0, byte)
    }
}

impl NullTerminable for Iso8859_3 {
    proof fn lemma_no_inner_null(c: char) {
        lemma_page_round_trip(DECODE_MAP_8859_3@, 0xA0, iso8859_3_plain(c as u32), c);
        lemma_char_code(c);
        if iso8859_3_code(c) is Some {
            let b: Seq<u8> = seq![iso8859_3_code(c)->0];
            assert(b.contains(0u8) ==> b[0] == 0u8);
        }
    }
}

/// Whether `b` stands for a character in ISO/IEC 8859-15.
pub open spec fn iso8859_15_byte(b: u8) -> bool {
    (0x20 <= b && b < 0x7F) || b >= 0xA0
}

/// Whether ISO/IEC 8859-15 writes the character with code point `code` as the byte of the
/// same value.
pub open spec fn iso8859_15_plain(code: u32) -> bool {
    0x20 <= code && code < 0x7F
}

/// The byte that stands for `c` in ISO/IEC 8859-15, where there is one.
pub open spec fn iso8859_15_code(c: char) -> Option<u8> {
    match page_code(DECODE_MAP_8859_15@, 0xA0, iso8859_15_plain(c as u32), c) {
        Some(b) => if iso8859_15_byte(b) {
            Some(b)
        } else {
            None
        },
        None => None,
    }
}

/// The [ISO/IEC 8859-15](https://en.wikipedia.org/wiki/ISO/IEC_8859-15) encoding.
#[derive(Clone, Copy, Debug, Default, PartialEq, Eq)]
#[non_exhaustive]
pub struct Iso8859_15;

impl Sealed for Iso8859_15 {

}

impl Grammar for Iso8859_15 {
    const REPLACEMENT: char = '?';

    const MAX_LEN: usize = 1;

    open spec fn char_width(bytes: Seq<u8>) -> nat {
        if bytes.len() > 0 && iso8859_15_byte(bytes[0]) {
            1
        } else {
            0
        }
    }

    open spec fn first_char(bytes: Seq<u8>) -> char {
        page_char(DECODE_MAP_8859_15@, 0xA0, bytes[0])
    }

    open spec fn encoding(c: char) -> Option<Seq<u8>> {
        match iso8859_15_code(c) {
            Some(b) => Some(seq![b]),
            None => None,
        }
    }

    open spec fn defect_len(bytes: Seq<u8>) -> Option<u8> {
        Some(1u8)
    }

    proof fn lemma_width_bounds(bytes: Seq<u8>) {
    }

    proof fn lemma_width_local(a: Seq<u8>, b: Seq<u8>) {
        assert(a.take(1)[0] == b.take(1)[0]);
    }

    proof fn lemma_defect_bounds(bytes: Seq<u8>) {
    }

    proof fn lemma_round_trip(c: char) {
        lemma_page_round_trip(DECODE_MAP_8859_15@, 0xA0, iso8859_15_plain(c as u32), c);
        if iso8859_15_code(c) is Some {
            assert(seq![iso8859_15_code(c)->0][0] == iso8859_15_code(c)->0);
        }
    }

    proof fn lemma_replacement() {
        lemma_char_code('?');
    }
}

impl Iso8859_15 {
    fn admits(b: u8) -> (r: bool)
        ensures
            r == iso8859_15_byte(b),
    {
        (0x20 <= b && b < 0x7F) || b >= 0xA0
    }

    fn code_of(c: char) -> (r: Option<u8>)
        ensures
            r == iso8859_15_code(c),
    {
        let code: u32 = c as u32;
        let plain: bool = 0x20 <= code && code < 0x7F;
        match page_encode(&DECODE_MAP_8859_15, 0xA0, plain, c) {
            Some(b) => if Self::admits(b) {
                Some(b)
            } else {
                None
            },
            None => None,
        }
    }
}

impl Encoding for Iso8859_15 {
    type Bytes = u8;

    open spec fn name() -> Seq<char> {
        "iso8889_15"@
    }

    fn shorthand() -> (r: &'static str) {
        "iso8889_15"
    }

    fn validate(bytes: &[u8]) -> (r: Result<(), ValidateError>) {
        let mut idx: usize = 0;
        proof {
            lemma_walk_start::<Self>(bytes@);
        }
        while idx < bytes.len()
            invariant
                walked::<Self>(bytes@, idx as int),
            decreases bytes.len() - idx,
        {
            if !Self::admits(bytes[idx]) {
                proof {
                    lemma_walk_stop::<Self>(bytes@, idx as int);
                }
                return Err(ValidateError { valid_up_to: idx, error_len: Some(1) });
            }
            proof {
                lemma_walk_step::<Self>(bytes@, idx as int);
            }
            idx += 1;
        }
        proof {
            lemma_walk_done::<Self>(bytes@);
        }
        Ok(())
    }

    fn encode_char(c: char) -> (r: Option<u8>) {
        Self::code_of(c)
    }

    fn decode_char<'a>(str: Str<'a, Self>) -> (r: (char, Str<'a, Self>)) {
        let bytes = str.as_bytes();
        let rest = slice_subrange(bytes, 1, bytes.len());
        (page_decode(&DECODE_MAP_8859_15, 0xA0, bytes[0]), Str::from_bytes_unchecked(rest))
    }

    fn char_bound(str: Str<'_, Self>, idx: usize) -> (r: bool) {
        let bytes = str.as_bytes();
        proof {
            lemma_fixed_width_boundaries::<Self>(bytes@, idx as int, 1);
        }
        true
    }

    fn char_len(c: char) -> (r: usize) {
        match Self::code_of(c) {
            Some(_) => 1,
            None => 0,
        }
    }
}

/// The byte of the `n`-th character of ISO/IEC 8859-15, counted from zero in the order of
/// the bytes.
pub open spec fn iso8859_15_nth_byte(n: u8) -> u8 {
    if n < 95 {
        (n + 0x20) as u8
    } else {
        (n + 65) as u8
    }
}

impl Iso8859_15 {
    /// Number of characters of the encoding.
    pub const CHARS: usize = 191;

    /// The `n`-th character of the encoding, counted from zero in the order of the bytes:
    /// the character that a draw of `n` from the numbers below [`Self::CHARS`] stands for.
    pub fn sample(n: u8) -> (c: char)
        requires
            n < 191,
        ensures
            iso8859_15_byte(iso8859_15_nth_byte(n)),
            c == page_char(DECODE_MAP_8859_15@, 0xA0, iso8859_15_nth_byte(n)),
    {
        let byte: u8 = if n < 95 {
            (n + 0x20) as u8
        } else {
            (n + 65) as u8
        };
        page_decode(&DECODE_MAP_8859_15, 0xA0, byte)
    }
}

impl NullTerminable for Iso8859_15 {
    proof fn lemma_no_inner_null(c: char) {
        lemma_page_round_trip(DECODE_MAP_8859_15@, 0xA0, iso8859_15_plain(c as u32), c);
        lemma_char_code(c);
        if iso8859_15_code(c) is Some {
            let b: Seq<u8> = seq![iso8859_15_code(c)->0];
            assert(b.contains(0u8) ==> b[0] == 0u8);
        }
    }
}

} // verus!
