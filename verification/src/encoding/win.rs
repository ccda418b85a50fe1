//! The Windows code pages.

use crate::encoding::model::{
    lemma_char_code, lemma_fixed_width_boundaries, lemma_walk_done, lemma_walk_start,
    lemma_walk_step, lemma_walk_stop, walked, Grammar,
};
use crate::encoding::page::{
    lemma_every_byte_valid, lemma_page_round_trip, page_char, page_code, page_decode,
    page_encode,
};
use crate::encoding::sealed::Sealed;
use crate::encoding::{AlwaysValid, Encoding, NullTerminable, ValidateError};
use crate::str::Str;
use vstd::prelude::*;
use vstd::slice::slice_subrange;

verus! {


/// The characters of Windows-1251 for the bytes from `0x80` on. `'\u{241A}'` fills the place
/// of the one byte that the code page leaves unassigned.
pub const DECODE_MAP_1251: [char; 128] = [
    '\u{402}', '\u{403}', '\u{201A}', '\u{453}', '\u{201E}', '\u{2026}', '\u{2020}', '\u{2021}',
    '\u{20AC}', '\u{2030}', '\u{409}', '\u{2039}', '\u{40A}', '\u{40C}', '\u{40B}', '\u{40F}',
    '\u{452}', '\u{2018}', '\u{2019}', '\u{201C}', '\u{201D}', '\u{2022}', '\u{2013}',
    '\u{2014}', '\u{241A}', '\u{2122}', '\u{459}', '\u{203A}', '\u{45A}', '\u{45C}', '\u{45B}',
    '\u{45F}', '\u{A0}', '\u{40E}', '\u{45E}', '\u{408}', '\u{A4}', '\u{490}', '\u{A6}',
    '\u{A7}', '\u{401}', '\u{A9}', '\u{404}', '\u{AB}', '\u{AC}', '\u{AD}', '\u{AE}', '\u{407}',
    '\u{B0}', '\u{B1}', '\u{406}', '\u{456}', '\u{491}', '\u{B5}', '\u{B6}', '\u{B7}',
    '\u{451}', '\u{2116}', '\u{454}', '\u{BB}', '\u{458}', '\u{405}', '\u{455}', '\u{457}',
    '\u{410}', '\u{411}', '\u{412}', '\u{413}', '\u{414}', '\u{415}', '\u{416}', '\u{417}',
    '\u{418}', '\u{419}', '\u{41A}', '\u{41B}', '\u{41C}', '\u{41D}', '\u{41E}', '\u{41F}',
    '\u{420}', '\u{421}', '\u{422}', '\u{423}', '\u{424}', '\u{425}', '\u{426}', '\u{427}',
    '\u{428}', '\u{429}', '\u{42A}', '\u{42B}', '\u{42C}', '\u{42D}', '\u{42E}', '\u{42F}',
    '\u{430}', '\u{431}', '\u{432}', '\u{433}', '\u{434}', '\u{435}', '\u{436}', '\u{437}',
    '\u{438}', '\u{439}', '\u{43A}', '\u{43B}', '\u{43C}', '\u{43D}', '\u{43E}', '\u{43F}',
    '\u{440}', '\u{441}', '\u{442}', '\u{443}', '\u{444}', '\u{445}', '\u{446}', '\u{447}',
    '\u{448}', '\u{449}', '\u{44A}', '\u{44B}', '\u{44C}', '\u{44D}', '\u{44E}', '\u{44F}',
];

/// The characters of Windows-1252 for the bytes from `0x80` to `0x9F`. The places of the
/// bytes that the code page leaves unassigned hold the control codes of the same value.
pub const DECODE_MAP_1252: [char; 32] = [
    '\u{20AC}', '\u{81}', '\u{201A}', '\u{192}', '\u{201E}', '\u{2026}', '\u{2020}', '\u{2021}',
    '\u{2C6}', '\u{2030}', '\u{160}', '\u{2039}', '\u{152}', '\u{8D}', '\u{17D}', '\u{8F}',
    '\u{90}', '\u{2018}', '\u{2019}', '\u{201C}', '\u{201D}', '\u{2022}', '\u{2013}',
    '\u{2014}', '\u{2DC}', '\u{2122}', '\u{161}', '\u{203A}', '\u{153}', '\u{9D}', '\u{17E}',
    '\u{178}',
];

/// Whether `b` stands for a character in Windows-1251.
pub open spec fn win1251_byte(b: u8) -> bool {
    b != 0x98
}

/// Whether Windows-1251 writes the character with code point `code` as the byte of the
/// same value.
pub open spec fn win1251_plain(code: u32) -> bool {
    code < 0x80
}

/// The byte that stands for `c` in Windows-1251, where there is one.
pub open spec fn win1251_code(c: char) -> Option<u8> {
    match page_code(DECODE_MAP_1251@, 0x80, win1251_plain(c as u32), c) {
        Some(b) => if win1251_byte(b) {
            Some(b)
        } else {
            None
        },
        None => None,
    }
}

/// The [Windows-1251](https://en.wikipedia.org/wiki/Windows-1251) encoding.
#[derive(Clone, Copy, Debug, Default, PartialEq, Eq)]
#[non_exhaustive]
pub struct Win1251;

impl Sealed for Win1251 {

}

impl Grammar for Win1251 {
    const REPLACEMENT: char = '\x1A';

    const MAX_LEN: usize = 1;

    open spec fn char_width(bytes: Seq<u8>) -> nat {
        if bytes.len() > 0 && win1251_byte(bytes[0]) {
            1
        } else {
            0
        }
    }

    open spec fn first_char(bytes: Seq<u8>) -> char {
        page_char(DECODE_MAP_1251@, 0x80, bytes[0])
    }

    open spec fn encoding(c: char) -> Option<Seq<u8>> {
        match win1251_code(c) {
            Some(b) => Some(seq![b]),
            None => None,
        }
    }

    open spec fn defect_len(bytes: Seq<u8>) -> Option<u8> {
        Some(1u8)
    }

    proof fn lemma_width_bounds(bytes: Seq<u8>) {
    }

    proof fn lemma_width_local(a: Seq<u8>, b: Seq<u8>) {
        assert(a.take(1)[0] == b.take(1)[0]);
    }

    proof fn lemma_defect_bounds(bytes: Seq<u8>) {
    }

    proof fn lemma_round_trip(c: char) {
        lemma_page_round_trip(DECODE_MAP_1251@, 0x80, win1251_plain(c as u32), c);
        if win1251_code(c) is Some {
            assert(seq![win1251_code(c)->0][0] == win1251_code(c)->0);
        }
    }

    proof fn lemma_replacement() {
        lemma_char_code('\x1A');
    }
}

impl Win1251 {
    fn admits(b: u8) -> (r: bool)
        ensures
            r == win1251_byte(b),
    {
        b != 0x98
    }

    fn code_of(c: char) -> (r: Option<u8>)
        ensures
            r == win1251_code(c),
    {
        let code: u32 = c as u32;
        let plain: bool = code < 0x80;
        match page_encode(&DECODE_MAP_1251, 0x80, plain, c) {
            Some(b) => if Self::admits(b) {
                Some(b)
            } else {
                None
            },
            None => None,
        }
    }
}

impl Encoding for Win1251 {
    type Bytes = u8;

    open spec fn name() -> Seq<char> {
        "win1251"@
    }

    fn shorthand() -> (r: &'static str) {
        "win1251"
    }

    fn validate(bytes: &[u8]) -> (r: Result<(), ValidateError>) {
        let mut idx: usize = 0;
        proof {
            lemma_walk_start::<Self>(bytes@);
        }
        while idx < bytes.len()
            invariant
                walked::<Self>(bytes@, idx as int),
            decreases bytes.len() - idx,
        {
            if !Self::admits(bytes[idx]) {
                proof {
                    lemma_walk_stop::<Self>(bytes@, idx as int);
                }
                return Err(ValidateError { valid_up_to: idx, error_len: Some(1) });
            }
            proof {
                lemma_walk_step::<Self>(bytes@, idx as int);
            }
            idx += 1;
        }
        proof {
            lemma_walk_done::<Self>(bytes@);
        }
        Ok(())
    }

    fn encode_char(c: char) -> (r: Option<u8>) {
        Self::code_of(c)
    }

    fn decode_char<'a>(str: Str<'a, Self>) -> (r: (char, Str<'a, Self>)) {
        let bytes = str.as_bytes();
        let rest = slice_subrange(bytes, 1, bytes.len());
        (page_decode(&DECODE_MAP_1251, 0x80, bytes[0]), Str::from_bytes_unchecked(rest))
    }

    fn char_bound(str: Str<'_, Self>, idx: usize) -> (r: bool) {
        let bytes = str.as_bytes();
        proof {
            lemma_fixed_width_boundaries::<Self>(bytes@, idx as int, 1);
        }
        true
    }

    fn char_len(c: char) -> (r: usize) {
        match Self::code_of(c) {
            Some(_) => 1,
            None => 0,
        }
    }
}

/// The byte of the `n`-th character of Windows-1251, counted from zero in the order of
/// the bytes.
pub open spec fn win1251_nth_byte(n: u8) -> u8 {
    if n < 0x98 {
        n
    } else {
        (n + 1) as u8
    }
}

impl Win1251 {
    /// Number of characters of the encoding.
    pub const CHARS: usize = 255;

    /// The `n`-th character of the encoding, counted from zero in the order of the bytes:
    /// the character that a draw of `n` from the numbers below [`Self::CHARS`] stands for.
    pub fn sample(n: u8) -> (c: char)
        requires
            n < 255,
        ensures
            win1251_byte(win1251_nth_byte(n)),
            c == page_char(DECODE_MAP_1251@, 0x80, win1251_nth_byte(n)),
    {
        let byte: u8 = if n < 0x98 {
            n
        } else {
            (n + 1) as u8
        };
        page_decode(&DECODE_MAP_1251, 0x80, byte)
    }
}

impl NullTerminable for Win1251 {
    proof fn lemma_no_inner_null(c: char) {
        lemma_page_round_trip(DECODE_MAP_1251@, 0x80, win1251_plain(c as u32), c);
        lemma_char_code(c);
        if win1251_code(c) is Some {
            let b: Seq<u8> = seq![win1251_code(c)->0];
            assert(b.contains(0u8) ==> b[0] == 0u8);
        }
    }
}

/// Whether `b` stands for a character in Windows-1252.
pub open spec fn win1252_byte(b: u8) -> bool {
    b != 0x81 && b != 0x8D && b != 0x8F && b != 0x90 && b != 0x9D
}

/// Whether Windows-1252 writes the character with code point `code` as the byte of the
/// same value.
pub open spec fn win1252_plain(code: u32) -> bool {
    code < 0x80 || (0xA0 <= code && code < 0x100)
}

/// The byte that stands for `c` in Windows-1252, where there is one.
pub open spec fn win1252_code(c: char) -> Option<u8> {
    match page_code(DECODE_MAP_1252@, 0x80, win1252_plain(c as u32), c) {
        Some(b) => if win1252_byte(b) {
            Some(b)
        } else {
            None
        },
        None => None,
    }
}

/// The [Windows-1252](https://en.wikipedia.org/wiki/Windows-1252) encoding.
#[derive(Clone, Copy, Debug, Default, PartialEq, Eq)]
#[non_exhaustive]
pub struct Win1252;

impl Sealed for Win1252 {

}

impl Grammar for Win1252 {
    const REPLACEMENT: char = '\x1A';

    const MAX_LEN: usize = 1;

    open spec fn char_width(bytes: Seq<u8>) -> nat {
        if bytes.len() > 0 && win1252_byte(bytes[0]) {
            1
        } else {
            0
        }
    }

    open spec fn first_char(bytes: Seq<u8>) -> char {
        page_char(DECODE_MAP_1252@, 0x80, bytes[0])
    }

    open spec fn encoding(c: char) -> Option<Seq<u8>> {
        match win1252_code(c) {
            Some(b) => Some(seq![b]),
            None => None,
        }
    }

    open spec fn defect_len(bytes: Seq<u8>) -> Option<u8> {
        Some(1u8)
    }

    proof fn lemma_width_bounds(bytes: Seq<u8>) {
    }

    proof fn lemma_width_local(a: Seq<u8>, b: Seq<u8>) {
        assert(a.take(1)[0] == b.take(1)[0]);
    }

    proof fn lemma_defect_bounds(bytes: Seq<u8>) {
    }

    proof fn lemma_round_trip(c: char) {
        lemma_page_round_trip(DECODE_MAP_1252@, 0x80, win1252_plain(c as u32), c);
        if win1252_code(c) is Some {
            assert(seq![win1252_code(c)->0][0] == win1252_code(c)->0);
        }
    }

    proof fn lemma_replacement() {
        lemma_char_code('\x1A');
    }
}

impl Win1252 {
    fn admits(b: u8) -> (r: bool)
        ensures
            r == win1252_byte(b),
    {
        b != 0x81 && b != 0x8D && b != 0x8F && b != 0x90 && b != 0x9D
    }

    fn code_of(c: char) -> (r: Option<u8>)
        ensures
            r == win1252_code(c),
    {
        let code: u32 = c as u32;
        let plain: bool = code < 0x80 || (0xA0 <= code && code < 0x100);
        match page_encode(&DECODE_MAP_1252, 0x80, plain, c) {
            Some(b) => if Self::admits(b) {
                Some(b)
            } else {
                None
            },
            None => None,
        }
    }
}

impl Encoding for Win1252 {
    type Bytes = u8;

    open spec fn name() -> Seq<char> {
        "win1252"@
    }

    fn shorthand() -> (r: &'static str) {
        "win1252"
    }

    fn validate(bytes: &[u8]) -> (r: Result<(), ValidateError>) {
        let mut idx: usize = 0;
        proof {
            lemma_walk_start::<Self>(bytes@);
        }
        while idx < bytes.len()
            invariant
                walked::<Self>(bytes@, idx as int),
            decreases bytes.len() - idx,
        {
            if !Self::admits(bytes[idx]) {
                proof {
                    lemma_walk_stop::<Self>(bytes@, idx as int);
                }
                return Err(ValidateError { valid_up_to: idx, error_len: Some(1) });
            }
            proof {
                lemma_walk_step::<Self>(bytes@, idx as int);
            }
            idx += 1;
        }
        proof {
            lemma_walk_done::<Self>(bytes@);
        }
        Ok(())
    }

    fn encode_char(c: char) -> (r: Option<u8>) {
        Self::code_of(c)
    }

    fn decode_char<'a>(str: Str<'a, Self>) -> (r: (char, Str<'a, Self>)) {
        let bytes = str.as_bytes();
        let rest = slice_subrange(bytes, 1, bytes.len());
        (page_decode(&DECODE_MAP_1252, 0x80, bytes[0]), Str::from_bytes_unchecked(rest))
    }

    fn char_bound(str: Str<'_, Self>, idx: usize) -> (r: bool) {
        let bytes = str.as_bytes();
        proof {
            lemma_fixed_width_boundaries::<Self>(bytes@, idx as int, 1);
        }
        true
    }

    fn char_len(c: char) -> (r: usize) {
        match Self::code_of(c) {
            Some(_) => 1,
            None => 0,
        }
    }
}

/// The byte of the `n`-th character of Windows-1252, counted from zero in the order of
/// the bytes.
pub open spec fn win1252_nth_byte(n: u8) -> u8 {
    if n <= 0x80 {
        n
    } else if n <= 0x8B {
        (n + 1) as u8
    } else if n <= 0x8C {
        (n + 2) as u8
    } else if n <= 0x98 {
        (n + 4) as u8
    } else {
        (n + 5) as u8
    }
}

impl Win1252 {
    /// Number of characters of the encoding.
    pub const CHARS: usize = 251;

    /// The `n`-th character of the encoding, counted from zero in the order of the bytes:
    /// the character that a draw of `n` from the numbers below [`Self::CHARS`] stands for.
    pub fn sample(n: u8) -> (c: char)
        requires
            n < 251,
        ensures
            win1252_byte(win1252_nth_byte(n)),
            c == page_char(DECODE_MAP_1252@, 0x80, win1252_nth_byte(n)),
    {
        let byte: u8 = if n <= 0x80 {
            n
        } else if n <= 0x8B {
            (n + 1) as u8
        } else if n <= 0x8C {
            (n + 2) as u8
        } else if n <= 0x98 {
            (n + 4) as u8
        } else {
            (n + 5) as u8
        };
        page_decode(&DECODE_MAP_1252, 0x80, byte)
    }
}

impl NullTerminable for Win1252 {
    proof fn lemma_no_inner_null(c: char) {
        lemma_page_round_trip(DECODE_MAP_1252@, 0x80, win1252_plain(c as u32), c);
        lemma_char_code(c);
        if win1252_code(c) is Some {
            let b: Seq<u8> = seq![win1252_code(c)->0];
            assert(b.contains(0u8) ==> b[0] == 0u8);
        }
    }
}

/// Whether `b` stands for a character in Windows-1252.
pub open spec fn win1252_loose_byte(b: u8) -> bool {
    true
}

/// Whether Windows-1252 writes the character with code point `code` as the byte of the
/// same value.
pub open spec fn win1252_loose_plain(code: u32) -> bool {
    code < 0x80 || (0xA0 <= code && code < 0x100)
}

/// The byte that stands for `c` in Windows-1252, where there is one.
pub open spec fn win1252_loose_code(c: char) -> Option<u8> {
    match page_code(DECODE_MAP_1252@, 0x80, win1252_loose_plain(c as u32), c) {
        Some(b) => if win1252_loose_byte(b) {
            Some(b)
        } else {
            None
        },
        None => None,
    }
}

/// The [Windows-1252](https://en.wikipedia.org/wiki/Windows-1252) encoding, with empty spots
/// replaced by the corresponding C1 control codes.
#[derive(Clone, Copy, Debug, Default, PartialEq, Eq)]
#[non_exhaustive]
pub struct Win1252Loose;

impl Sealed for Win1252Loose {

}

impl Grammar for Win1252Loose {
    const REPLACEMENT: char = '\x1A';

    const MAX_LEN: usize = 1;

    open spec fn char_width(bytes: Seq<u8>) -> nat {
        if bytes.len() > 0 && win1252_loose_byte(bytes[0]) {
            1
        } else {
            0
        }
    }

    open spec fn first_char(bytes: Seq<u8>) -> char {
        page_char(DECODE_MAP_1252@, 0x80, bytes[0])
    }

    open spec fn encoding(c: char) -> Option<Seq<u8>> {
        match win1252_loose_code(c) {
            Some(b) => Some(seq![b]),
            None => None,
        }
    }

    open spec fn defect_len(bytes: Seq<u8>) -> Option<u8> {
        Some(1u8)
    }

    proof fn lemma_width_bounds(bytes: Seq<u8>) {
    }

    proof fn lemma_width_local(a: Seq<u8>, b: Seq<u8>) {
        assert(a.take(1)[0] == b.take(1)[0]);
    }

    proof fn lemma_defect_bounds(bytes: Seq<u8>) {
    }

    proof fn lemma_round_trip(c: char) {
        lemma_page_round_trip(DECODE_MAP_1252@, 0x80, win1252_loose_plain(c as u32), c);
        if win1252_loose_code(c) is Some {
            assert(seq![win1252_loose_code(c)->0][0] == win1252_loose_code(c)->0);
        }
    }

    proof fn lemma_replacement() {
        lemma_char_code('\x1A');
    }
}

impl Win1252Loose {
    fn admits(b: u8) -> (r: bool)
        ensures
            r == win1252_loose_byte(b),
    {
        true
    }

    fn code_of(c: char) -> (r: Option<u8>)
        ensures
            r == win1252_loose_code(c),
    {
        let code: u32 = c as u32;
        let plain: bool = code < 0x80 || (0xA0 <= code && code < 0x100);
        match page_encode(&DECODE_MAP_1252, 0x80, plain, c) {
            Some(b) => if Self::admits(b) {
                Some(b)
            } else {
                None
            },
            None => None,
        }
    }
}

impl Encoding for Win1252Loose {
    type Bytes = u8;

    open spec fn name() -> Seq<char> {
        "win1252_loose"@
    }

    fn shorthand() -> (r: &'static str) {
        "win1252_loose"
    }

    fn validate(bytes: &[u8]) -> (r: Result<(), ValidateError>) {
        let mut idx: usize = 0;
        proof {
            lemma_walk_start::<Self>(bytes@);
        }
        while idx < bytes.len()
            invariant
                walked::<Self>(bytes@, idx as int),
            decreases bytes.len() - idx,
        {
            if !Self::admits(bytes[idx]) {
                proof {
                    lemma_walk_stop::<Self>(bytes@, idx as int);
                }
                return Err(ValidateError { valid_up_to: idx, error_len: Some(1) });
            }
            proof {
                lemma_walk_step::<Self>(bytes@, idx as int);
            }
            idx += 1;
        }
        proof {
            lemma_walk_done::<Self>(bytes@);
        }
        Ok(())
    }

    fn encode_char(c: char) -> (r: Option<u8>) {
        Self::code_of(c)
    }

    fn decode_char<'a>(str: Str<'a, Self>) -> (r: (char, Str<'a, Self>)) {
        let bytes = str.as_bytes();
        let rest = slice_subrange(bytes, 1, bytes.len());
        (page_decode(&DECODE_MAP_1252, 0x80, bytes[0]), Str::from_bytes_unchecked(rest))
    }

    fn char_bound(str: Str<'_, Self>, idx: usize) -> (r: bool) {
        let bytes = str.as_bytes();
        proof {
            lemma_fixed_width_boundaries::<Self>(bytes@, idx as int, 1);
        }
        true
    }

    fn char_len(c: char) -> (r: usize) {
        match Self::code_of(c) {
            Some(_) => 1,
            None => 0,
        }
    }
}

/// The byte of the `n`-th character of Windows-1252, counted from zero in the order of
/// the bytes.
pub open spec fn win1252_loose_nth_byte(n: u8) -> u8 {
    n
}

impl Win1252Loose {
    /// Number of characters of the encoding.
    pub const CHARS: usize = 256;

    /// The `n`-th character of the encoding, counted from zero in the order of the bytes:
    /// the character that a draw of `n` from the numbers below [`Self::CHARS`] stands for.
    pub fn sample(n: u8) -> (c: char)
        ensures
            win1252_loose_byte(win1252_loose_nth_byte(n)),
            c == page_char(DECODE_MAP_1252@, 0x80, win1252_loose_nth_byte(n)),
    {
        let byte: u8 = n;
        page_decode(&DECODE_MAP_1252, 0x80, byte)
    }
}

impl NullTerminable for Win1252Loose {
    proof fn lemma_no_inner_null(c: char) {
        lemma_page_round_trip(DECODE_MAP_1252@, 0x80, win1252_loose_plain(c as u32), c);
        lemma_char_code(c);
        if win1252_loose_code(c) is Some {
            let b: Seq<u8> = seq![win1252_loose_code(c)->0];
            assert(b.contains(0u8) ==> b[0] == 0u8);
        }
    }
}

impl AlwaysValid for Win1252Loose {
    proof fn lemma_always_valid(bytes: Seq<u8>) {
        lemma_every_byte_valid::<Self>(bytes);
    }
}

} // verus!
