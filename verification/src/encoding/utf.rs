//! The Unicode transformation formats: UTF-8, UTF-16 and UTF-32.

use crate::encoding::arrays::{array_vec4_bytes, array_vec4_new, array_vec4_push};
use crate::encoding::model::{
    decode, is_boundary, lemma_char_code, lemma_fixed_width_boundaries,
    lemma_same_prefix, lemma_walk_done, lemma_walk_start, lemma_walk_step, lemma_walk_stop,
    valid, walked, Grammar,
};
use crate::encoding::sealed::Sealed;
use crate::encoding::{Encoding, NullTerminable, ValidateError};
use crate::str::Str;
use arrayvec::ArrayVec;
use vstd::prelude::*;
use vstd::slice::slice_subrange;
use vstd::utf8::{
    decode_first_scalar, decode_utf8, encode_scalar, encode_utf8, encode_utf8_first_scalar,
    is_char_boundary, is_char_boundary_iff_not_is_continuation_byte, is_continuation_byte,
    length_of_first_scalar, pop_first_scalar, valid_first_scalar, valid_utf8,
};

verus! {

/// The replacement character of Unicode.
pub const UNICODE_REPLACEMENT: char = '\u{FFFD}';

/// The 16-bit code unit that the two bytes at `i` hold, in the given byte order.
pub open spec fn unit16(s: Seq<u8>, i: int, big: bool) -> int {
    if big {
        s[i] * 256 + s[i + 1]
    } else {
        s[i] + s[i + 1] * 256
    }
}

/// Whether the code unit is the first half of a surrogate pair.
pub open spec fn is_high_surrogate(u: int) -> bool {
    0xD800 <= u < 0xDC00
}

/// Whether the code unit is the second half of a surrogate pair.
pub open spec fn is_low_surrogate(u: int) -> bool {
    0xDC00 <= u < 0xE000
}

/// The code point that a surrogate pair stands for.
pub open spec fn pair_value(high: int, low: int) -> int {
    (high - 0xD800) * 0x400 + (low - 0xDC00) + 0x10000
}

/// Width of the UTF-16 character at the front of `s`: two bytes for a unit that is no
/// surrogate, four for a high surrogate with the low surrogate behind it.
pub open spec fn utf16_width(s: Seq<u8>, big: bool) -> nat {
    if s.len() < 2 {
        0
    } else if !is_high_surrogate(unit16(s, 0, big)) && !is_low_surrogate(unit16(s, 0, big)) {
        2
    } else if is_high_surrogate(unit16(s, 0, big)) && s.len() >= 4 && is_low_surrogate(
        unit16(s, 2, big),
    ) {
        4
    } else {
        0
    }
}

/// The UTF-16 character at the front of `s`.
pub open spec fn utf16_first(s: Seq<u8>, big: bool) -> char {
    if is_high_surrogate(unit16(s, 0, big)) {
        (pair_value(unit16(s, 0, big), unit16(s, 2, big)) as u32) as char
    } else {
        (unit16(s, 0, big) as u32) as char
    }
}

/// What validation reports of the malformed UTF-16 unit at the front of `s`. A lone low
/// surrogate, or a high surrogate before an ordinary unit, is two bytes wide; two high
/// surrogates in a row are blamed together; a unit that the end of the buffer cuts off has
/// no width.
pub open spec fn utf16_defect(s: Seq<u8>, big: bool) -> Option<u8> {
    if s.len() < 2 {
        None
    } else if is_low_surrogate(unit16(s, 0, big)) {
        Some(2u8)
    } else if s.len() < 4 {
        None
    } else if is_high_surrogate(unit16(s, 2, big)) || is_low_surrogate(unit16(s, 2, big)) {
        Some(4u8)
    } else {
        Some(2u8)
    }
}

/// The two bytes of a 16-bit code unit, in the given byte order.
pub open spec fn unit16_bytes(u: int, big: bool) -> Seq<u8> {
    if big {
        seq![(u / 256) as u8, (u % 256) as u8]
    } else {
        seq![(u % 256) as u8, (u / 256) as u8]
    }
}

/// The UTF-16 encoding of `c`.
pub open spec fn utf16_encoding(c: char, big: bool) -> Seq<u8> {
    let x: int = c as u32 as int;
    if x < 0x10000 {
        unit16_bytes(x, big)
    } else {
        unit16_bytes(0xD800 + (x - 0x10000) / 0x400, big) + unit16_bytes(
            0xDC00 + (x - 0x10000) % 0x400,
            big,
        )
    }
}

/// What `utf16_encoding` writes reads back as the same character.
pub proof fn lemma_utf16_round_trip(c: char, big: bool)
    ensures
        utf16_encoding(c, big).len() > 0,
        utf16_width(utf16_encoding(c, big), big) == utf16_encoding(c, big).len(),
        utf16_first(utf16_encoding(c, big), big) == c,
{
    lemma_char_code(c);
    let x: int = c as u32 as int;
    let b: Seq<u8> = utf16_encoding(c, big);
    if x < 0x10000 {
        assert(b.len() == 2);
        assert(unit16(b, 0, big) == x);
    } else {
        let high: int = 0xD800 + (x - 0x10000) / 0x400;
        let low: int = 0xDC00 + (x - 0x10000) % 0x400;
        assert(b =~= unit16_bytes(high, big) + unit16_bytes(low, big));
        assert(b.len() == 4);
        assert(b[0] == unit16_bytes(high, big)[0]);
        assert(b[1] == unit16_bytes(high, big)[1]);
        assert(b[2] == unit16_bytes(low, big)[0]);
        assert(b[3] == unit16_bytes(low, big)[1]);
        assert(unit16(b, 0, big) == high);
        assert(unit16(b, 2, big) == low);
        assert(pair_value(high, low) == x);
    }
}

/// The first UTF-16 character depends on nothing but its own bytes.
pub proof fn lemma_utf16_local(a: Seq<u8>, b: Seq<u8>, big: bool)
    requires
        utf16_width(a, big) > 0,
        utf16_width(a, big) <= b.len(),
        a.take(utf16_width(a, big) as int) == b.take(utf16_width(a, big) as int),
    ensures
        utf16_width(b, big) == utf16_width(a, big),
        utf16_first(b, big) == utf16_first(a, big),
{
    lemma_same_prefix(a, b, utf16_width(a, big) as int);
}

/// In valid UTF-16, a character starts at every even offset whose unit is not a low
/// surrogate, and nowhere else.
pub proof fn lemma_utf16_boundaries<G: Grammar>(s: Seq<u8>, i: int, big: bool)
    requires
        valid::<G>(s),
        0 <= i < s.len(),
        forall|t: Seq<u8>| #[trigger] G::char_width(t) == utf16_width(t, big),
    ensures
        s.len() % 2 == 0,
        is_boundary::<G>(s, i) <==> (i % 2 == 0 && !is_low_surrogate(unit16(s, i, big))),
    decreases s.len(),
{
    let w: nat = G::char_width(s);
    let rest: Seq<u8> = s.skip(w as int);
    if rest.len() > 0 {
        if i >= w {
            lemma_utf16_boundaries::<G>(rest, i - w, big);
            if i + 1 < s.len() {
                assert(rest[i - w] == s[i] && rest[i - w + 1] == s[i + 1]);
            }
        } else {
            lemma_utf16_boundaries::<G>(rest, 0, big);
        }
    }
}

/// The kind of a 16-bit code unit.
#[derive(Clone, Copy, Debug, PartialEq, Eq)]
pub enum Kind {
    /// A unit that is a character by itself.
    Char,
    /// The first half of a surrogate pair.
    High,
    /// The second half of a surrogate pair.
    Low,
}

impl Kind {
    /// The kind of the code unit `c`.
    pub fn of(c: u16) -> (k: Kind)
        ensures
            k == if is_high_surrogate(c as int) {
                Kind::High
            } else if is_low_surrogate(c as int) {
                Kind::Low
            } else {
                Kind::Char
            },
    {
        if c <= 0xD7FF {
            Kind::Char
        } else if c <= 0xDBFF {
            Kind::High
        } else if c <= 0xDFFF {
            Kind::Low
        } else {
            Kind::Char
        }
    }
}

fn read16(bytes: &[u8], idx: usize, big: bool) -> (u: u16)
    requires
        idx + 1 < bytes@.len(),
    ensures
        u == unit16(bytes@, idx as int, big),
{
    if big {
        (bytes[idx] as u16) * 256 + bytes[idx + 1] as u16
    } else {
        bytes[idx] as u16 + (bytes[idx + 1] as u16) * 256
    }
}

/// Reads the UTF-16 unit that starts at `idx`: its width where it is a character, what
/// validation reports of it where it is not.
fn utf16_unit_at(bytes: &[u8], idx: usize, big: bool) -> (r: Result<usize, Option<u8>>)
    requires
        idx < bytes@.len(),
    ensures
        match r {
            Ok(w) => w > 0 && w == utf16_width(bytes@.skip(idx as int), big),
            Err(d) => utf16_width(bytes@.skip(idx as int), big) == 0 && d == utf16_defect(
                bytes@.skip(idx as int),
                big,
            ),
        },
{
    let ghost rest: Seq<u8> = bytes@.skip(idx as int);
    if bytes.len() - idx < 2 {
        return Err(None);
    }
    let first: u16 = read16(bytes, idx, big);
    assert(unit16(rest, 0, big) == first);
    match Kind::of(first) {
        Kind::Char => Ok(2),
        Kind::Low => Err(Some(2)),
        Kind::High => {
            if bytes.len() - idx < 4 {
                return Err(None);
            }
            let second: u16 = read16(bytes, idx + 2, big);
            assert(unit16(rest, 2, big) == second);
            match Kind::of(second) {
                Kind::Low => Ok(4),
                Kind::Char => Err(Some(2)),
                Kind::High => Err(Some(4)),
            }
        },
    }
}

fn utf16_decode(bytes: &[u8], big: bool) -> (r: (char, usize))
    requires
        utf16_width(bytes@, big) > 0,
    ensures
        r.0 == utf16_first(bytes@, big),
        r.1 == utf16_width(bytes@, big),
{
    let high: u16 = read16(bytes, 0, big);
    match Kind::of(high) {
        Kind::High => {
            let low: u16 = read16(bytes, 2, big);
            let value: u32 = (high as u32 - 0xD800) * 0x400 + (low as u32 - 0xDC00) + 0x10000;
            match std::char::from_u32(value) {
                Some(c) => (c, 4),
                None => (UNICODE_REPLACEMENT, 4),
            }
        },
        _ => {
            match std::char::from_u32(high as u32) {
                Some(c) => (c, 2),
                None => (UNICODE_REPLACEMENT, 2),
            }
        },
    }
}

fn push16(out: &mut ArrayVec<u8, 4>, unit: u16, big: bool)
    requires
        array_vec4_bytes(*old(out)).len() <= 2,
    ensures
        array_vec4_bytes(*final(out)) == array_vec4_bytes(*old(out)) + unit16_bytes(
            unit as int,
            big,
        ),
{
    if big {
        array_vec4_push(out, (unit / 256) as u8);
        array_vec4_push(out, (unit % 256) as u8);
    } else {
        array_vec4_push(out, (unit % 256) as u8);
        array_vec4_push(out, (unit / 256) as u8);
    }
    assert(array_vec4_bytes(*out) =~= array_vec4_bytes(*old(out)) + unit16_bytes(
        unit as int,
        big,
    ));
}

fn utf16_encode(c: char, big: bool) -> (out: ArrayVec<u8, 4>)
    ensures
        array_vec4_bytes(out) == utf16_encoding(c, big),
{
    let code: u32 = c as u32;
    proof {
        lemma_char_code(c);
    }
    let mut out = array_vec4_new();
    if code < 0x10000 {
        push16(&mut out, code as u16, big);
        assert(array_vec4_bytes(out) =~= utf16_encoding(c, big));
    } else {
        let offset: u32 = code - 0x10000;
        push16(&mut out, (0xD800 + offset / 0x400) as u16, big);
        push16(&mut out, (0xDC00 + offset % 0x400) as u16, big);
        assert(array_vec4_bytes(out) =~= utf16_encoding(c, big));
    }
    out
}

/// The 32-bit value that the four bytes at the front of `s` hold, in the given byte order.
pub open spec fn unit32(s: Seq<u8>, big: bool) -> int {
    if big {
        s[0] * 0x1000000 + s[1] * 0x10000 + s[2] * 0x100 + s[3]
    } else {
        s[0] + s[1] * 0x100 + s[2] * 0x10000 + s[3] * 0x1000000
    }
}

/// Whether `u` is a Unicode scalar value: below the ceiling and no surrogate.
pub open spec fn is_scalar_value(u: int) -> bool {
    0 <= u < 0x110000 && !(0xD800 <= u < 0xE000)
}

/// Width of the UTF-32 character at the front of `s`.
pub open spec fn utf32_width(s: Seq<u8>, big: bool) -> nat {
    if s.len() >= 4 && is_scalar_value(unit32(s, big)) {
        4
    } else {
        0
    }
}

/// The UTF-32 character at the front of `s`.
pub open spec fn utf32_first(s: Seq<u8>, big: bool) -> char {
    (unit32(s, big) as u32) as char
}

/// What validation reports of the malformed UTF-32 unit at the front of `s`.
pub open spec fn utf32_defect(s: Seq<u8>) -> Option<u8> {
    if s.len() < 4 {
        None
    } else {
        Some(4u8)
    }
}

/// The UTF-32 encoding of `c`.
pub open spec fn utf32_encoding(c: char, big: bool) -> Seq<u8> {
    let x: int = c as u32 as int;
    if big {
        seq![
            (x / 0x1000000) as u8,
            (x / 0x10000 % 0x100) as u8,
            (x / 0x100 % 0x100) as u8,
            (x % 0x100) as u8,
        ]
    } else {
        seq![
            (x % 0x100) as u8,
            (x / 0x100 % 0x100) as u8,
            (x / 0x10000 % 0x100) as u8,
            (x / 0x1000000) as u8,
        ]
    }
}

/// What `utf32_encoding` writes reads back as the same character.
pub proof fn lemma_utf32_round_trip(c: char, big: bool)
    ensures
        utf32_encoding(c, big).len() == 4,
        utf32_width(utf32_encoding(c, big), big) == 4,
        utf32_first(utf32_encoding(c, big), big) == c,
{
    lemma_char_code(c);
    let x: int = c as u32 as int;
    let b: Seq<u8> = utf32_encoding(c, big);
    assert(unit32(b, big) == x);
}

fn read32(bytes: &[u8], idx: usize, big: bool) -> (u: u32)
    requires
        idx + 3 < bytes@.len(),
    ensures
        u == unit32(bytes@.skip(idx as int), big),
{
    let ghost rest: Seq<u8> = bytes@.skip(idx as int);
    assert(rest[0] == bytes@[idx as int] && rest[1] == bytes@[idx + 1] && rest[2] == bytes@[idx
        + 2] && rest[3] == bytes@[idx + 3]);
    if big {
        (bytes[idx] as u32) * 0x1000000 + (bytes[idx + 1] as u32) * 0x10000 + (bytes[idx
            + 2] as u32) * 0x100 + bytes[idx + 3] as u32
    } else {
        bytes[idx] as u32 + (bytes[idx + 1] as u32) * 0x100 + (bytes[idx + 2] as u32) * 0x10000
            + (bytes[idx + 3] as u32) * 0x1000000
    }
}

/// Reads the UTF-32 unit that starts at `idx`: its width where it is a character, what
/// validation reports of it where it is not.
fn utf32_unit_at(bytes: &[u8], idx: usize, big: bool) -> (r: Result<usize, Option<u8>>)
    requires
        idx < bytes@.len(),
    ensures
        match r {
            Ok(w) => w > 0 && w == utf32_width(bytes@.skip(idx as int), big),
            Err(d) => utf32_width(bytes@.skip(idx as int), big) == 0 && d == utf32_defect(
                bytes@.skip(idx as int),
            ),
        },
{
    if bytes.len() - idx < 4 {
        return Err(None);
    }
    let c: u32 = read32(bytes, idx, big);
    if (0xD800 <= c && c < 0xE000) || 0x0011_0000 <= c {
        Err(Some(4))
    } else {
        Ok(4)
    }
}

fn utf32_decode(bytes: &[u8], big: bool) -> (c: char)
    requires
        utf32_width(bytes@, big) > 0,
    ensures
        c == utf32_first(bytes@, big),
{
    assert(bytes@.skip(0) =~= bytes@);
    let value: u32 = read32(bytes, 0, big);
    match std::char::from_u32(value) {
        Some(c) => c,
        None => UNICODE_REPLACEMENT,
    }
}

fn utf32_encode(c: char, big: bool) -> (out: [u8; 4])
    ensures
        out@ == utf32_encoding(c, big),
{
    let x: u32 = c as u32;
    proof {
        lemma_char_code(c);
    }
    let out: [u8; 4] = if big {
        [
            (x / 0x1000000) as u8,
            (x / 0x10000 % 0x100) as u8,
            (x / 0x100 % 0x100) as u8,
            (x % 0x100) as u8,
        ]
    } else {
        [
            (x % 0x100) as u8,
            (x / 0x100 % 0x100) as u8,
            (x / 0x10000 % 0x100) as u8,
            (x / 0x1000000) as u8,
        ]
    };
    assert(out@ =~= utf32_encoding(c, big));
    out
}

/// Whether `second` may follow the first byte `first` of a UTF-8 character of three or four
/// bytes. The narrower ranges keep out the encodings that are too long, the surrogates, and
/// the code points above the Unicode ceiling.
pub open spec fn utf8_second_ok(first: u8, second: u8) -> bool {
    if first == 0xE0 {
        0xA0 <= second <= 0xBF
    } else if first == 0xED {
        0x80 <= second <= 0x9F
    } else if first == 0xF0 {
        0x90 <= second <= 0xBF
    } else if first == 0xF4 {
        0x80 <= second <= 0x8F
    } else {
        0x80 <= second <= 0xBF
    }
}

/// What stands at the front of `s` in UTF-8: the width of a well-formed character, or what
/// validation reports of a malformed unit. The width of a malformed unit covers its bytes up
/// to the first one that cannot belong to it; a unit that the end of the buffer cuts off has
/// none.
pub open spec fn utf8_unit(s: Seq<u8>) -> Result<nat, Option<u8>> {
    if s.len() == 0 {
        Err(None)
    } else if s[0] < 0x80 {
        Ok(1nat)
    } else if s[0] < 0xC2 || s[0] > 0xF4 {
        Err(Some(1u8))
    } else if s.len() < 2 {
        Err(None)
    } else if !utf8_second_ok(s[0], s[1]) {
        Err(Some(1u8))
    } else if s[0] < 0xE0 {
        Ok(2nat)
    } else if s.len() < 3 {
        Err(None)
    } else if !is_continuation_byte(s[2]) {
        Err(Some(2u8))
    } else if s[0] < 0xF0 {
        Ok(3nat)
    } else if s.len() < 4 {
        Err(None)
    } else if !is_continuation_byte(s[3]) {
        Err(Some(3u8))
    } else {
        Ok(4nat)
    }
}

proof fn lemma_utf8_bits_1(b0: u8)
    by (bit_vector)
    requires
        b0 < 0x80,
    ensures
        (b0 & 0x7F) as u32 <= 0x7F,
{
}

proof fn lemma_utf8_bits_2(b0: u8, b1: u8)
    by (bit_vector)
    requires
        0xC0 <= b0 <= 0xDF,
        0x80 <= b1 <= 0xBF,
    ensures
        (((b0 & 0x1F) as u32) << 6) | ((b1 & 0x3F) as u32) <= 0x7FF,
        (0x80 <= (((b0 & 0x1F) as u32) << 6) | ((b1 & 0x3F) as u32)) <==> b0 >= 0xC2,
{
}

proof fn lemma_utf8_bits_3(b0: u8, b1: u8, b2: u8)
    by (bit_vector)
    requires
        0xE0 <= b0 <= 0xEF,
        0x80 <= b1 <= 0xBF,
        0x80 <= b2 <= 0xBF,
    ensures
        (((b0 & 0x0F) as u32) << 12) | (((b1 & 0x3F) as u32) << 6) | ((b2 & 0x3F) as u32)
            <= 0xFFFF,
        (0x800 <= (((b0 & 0x0F) as u32) << 12) | (((b1 & 0x3F) as u32) << 6) | ((b2
            & 0x3F) as u32)) <==> !(b0 == 0xE0 && b1 < 0xA0),
        (0xD800 <= (((b0 & 0x0F) as u32) << 12) | (((b1 & 0x3F) as u32) << 6) | ((b2
            & 0x3F) as u32) && (((b0 & 0x0F) as u32) << 12) | (((b1 & 0x3F) as u32) << 6) | ((b2
            & 0x3F) as u32) <= 0xDFFF) <==> (b0 == 0xED && b1 > 0x9F),
{
}

proof fn lemma_utf8_bits_4(b0: u8, b1: u8, b2: u8, b3: u8)
    by (bit_vector)
    requires
        0xF0 <= b0 <= 0xF7,
        0x80 <= b1 <= 0xBF,
        0x80 <= b2 <= 0xBF,
        0x80 <= b3 <= 0xBF,
    ensures
        (0x10000 <= (((b0 & 0x07) as u32) << 18) | (((b1 & 0x3F) as u32) << 12) | (((b2
            & 0x3F) as u32) << 6) | ((b3 & 0x3F) as u32)) <==> !(b0 == 0xF0 && b1 < 0x90),
        ((((b0 & 0x07) as u32) << 18) | (((b1 & 0x3F) as u32) << 12) | (((b2 & 0x3F) as u32)
            << 6) | ((b3 & 0x3F) as u32) <= 0x10FFFF) <==> (b0 < 0xF4 || (b0 == 0xF4 && b1
            <= 0x8F)),
{
}

/// `utf8_unit` finds a character exactly where the UTF-8 grammar has a well-formed scalar.
pub proof fn lemma_utf8_unit(s: Seq<u8>)
    ensures
        match utf8_unit(s) {
            Ok(w) => valid_first_scalar(s) && length_of_first_scalar(s) == w,
            Err(_) => !valid_first_scalar(s),
        },
{
    if s.len() > 0 {
        let b0: u8 = s[0];
        if b0 < 0x80 {
            lemma_utf8_bits_1(b0);
        } else if 0xC0 <= b0 <= 0xDF {
            if s.len() >= 2 && is_continuation_byte(s[1]) {
                lemma_utf8_bits_2(b0, s[1]);
            }
        } else if 0xE0 <= b0 <= 0xEF {
            if s.len() >= 3 && is_continuation_byte(s[1]) && is_continuation_byte(s[2]) {
                lemma_utf8_bits_3(b0, s[1], s[2]);
            }
        } else if 0xF0 <= b0 <= 0xF7 {
            if s.len() >= 4 && is_continuation_byte(s[1]) && is_continuation_byte(s[2])
                && is_continuation_byte(s[3]) {
                lemma_utf8_bits_4(b0, s[1], s[2], s[3]);
            }
        }
    }
}

/// Width of the UTF-8 character at the front of `s`.
pub open spec fn utf8_width(s: Seq<u8>) -> nat {
    if valid_first_scalar(s) {
        length_of_first_scalar(s) as nat
    } else {
        0
    }
}

/// The UTF-8 [encoding](https://en.wikipedia.org/wiki/UTF-8)
#[derive(Clone, Copy, Debug, Default, PartialEq, Eq)]
#[non_exhaustive]
pub struct Utf8;

impl Sealed for Utf8 {

}

impl Grammar for Utf8 {
    const REPLACEMENT: char = UNICODE_REPLACEMENT;

    const MAX_LEN: usize = 4;

    open spec fn char_width(bytes: Seq<u8>) -> nat {
        utf8_width(bytes)
    }

    open spec fn first_char(bytes: Seq<u8>) -> char {
        decode_first_scalar(bytes) as char
    }

    open spec fn encoding(c: char) -> Option<Seq<u8>> {
        Some(encode_scalar(c as u32))
    }

    open spec fn defect_len(bytes: Seq<u8>) -> Option<u8> {
        match utf8_unit(bytes) {
            Ok(_) => None,
            Err(d) => d,
        }
    }

    proof fn lemma_width_bounds(bytes: Seq<u8>) {
    }

    proof fn lemma_width_local(a: Seq<u8>, b: Seq<u8>) {
        lemma_same_prefix(a, b, utf8_width(a) as int);
    }

    proof fn lemma_defect_bounds(bytes: Seq<u8>) {
    }

    proof fn lemma_round_trip(c: char) {
        let chars: Seq<char> = seq![c];
        encode_utf8_first_scalar(chars);
        assert(chars.drop_first().len() == 0);
        assert(encode_utf8(chars.drop_first()) =~= Seq::<u8>::empty());
        assert(chars[0] == c);
        assert(encode_utf8(chars) =~= encode_scalar(c as u32));
        lemma_char_code(c);
    }

    proof fn lemma_replacement() {
    }
}

proof fn lemma_utf8_no_null(x: u32)
    by (bit_vector)
    requires
        0 < x <= 0x10FFFF,
    ensures
        x <= 0x7F ==> (x & 0x7F) as u8 != 0,
        0xC0 | ((x >> 6) & 0x1F) as u8 != 0,
        0xE0 | ((x >> 12) & 0x0F) as u8 != 0,
        0xF0 | ((x >> 18) & 0x7) as u8 != 0,
        0x80 | (x & 0x3F) as u8 != 0,
        0x80 | ((x >> 6) & 0x3F) as u8 != 0,
        0x80 | ((x >> 12) & 0x3F) as u8 != 0,
{
}

impl NullTerminable for Utf8 {
    proof fn lemma_no_inner_null(c: char) {
        lemma_char_code(c);
        if c != '\0' {
            let x: u32 = c as u32;
            lemma_utf8_no_null(x);
            let b: Seq<u8> = encode_scalar(x);
            if b.contains(0u8) {
                let i: int = choose|i: int| 0 <= i < b.len() && b[i] == 0u8;
                assert(b[i] == 0u8);
            }
        }
    }
}

/// The generic notion of validity, applied to UTF-8, is the grammar of UTF-8; so are the
/// decoded characters and the character boundaries.
pub proof fn lemma_utf8_model(s: Seq<u8>, i: int)
    ensures
        valid::<Utf8>(s) == valid_utf8(s),
        valid_utf8(s) ==> decode::<Utf8>(s) == decode_utf8(s),
        valid_utf8(s) ==> is_boundary::<Utf8>(s, i) == is_char_boundary(s, i),
    decreases s.len(),
{
    if s.len() > 0 && valid_first_scalar(s) {
        let w: int = length_of_first_scalar(s);
        assert(s.skip(w) =~= pop_first_scalar(s));
        lemma_utf8_model(s.skip(w), i - w);
        if valid_utf8(s) {
            assert(decode::<Utf8>(s) =~= decode_utf8(s));
        }
    }
}

/// Reads the UTF-8 unit that starts at `idx`: its width where it is a character, what
/// validation reports of it where it is not.
fn utf8_unit_at(bytes: &[u8], idx: usize) -> (r: Result<usize, Option<u8>>)
    requires
        idx < bytes@.len(),
    ensures
        match r {
            Ok(w) => w > 0 && w == Utf8::char_width(bytes@.skip(idx as int)),
            Err(d) => Utf8::char_width(bytes@.skip(idx as int)) == 0 && d == Utf8::defect_len(
                bytes@.skip(idx as int),
            ),
        },
{
    let ghost rest: Seq<u8> = bytes@.skip(idx as int);
    proof {
        lemma_utf8_unit(rest);
    }
    let left: usize = bytes.len() - idx;
    let first: u8 = bytes[idx];
    assert(rest[0] == first);
    if first < 0x80 {
        return Ok(1);
    }
    if first < 0xC2 || first > 0xF4 {
        return Err(Some(1));
    }
    if left < 2 {
        return Err(None);
    }
    let second: u8 = bytes[idx + 1];
    assert(rest[1] == second);
    let second_ok: bool = if first == 0xE0 {
        0xA0 <= second && second <= 0xBF
    } else if first == 0xED {
        0x80 <= second && second <= 0x9F
    } else if first == 0xF0 {
        0x90 <= second && second <= 0xBF
    } else if first == 0xF4 {
        0x80 <= second && second <= 0x8F
    } else {
        0x80 <= second && second <= 0xBF
    };
    if !second_ok {
        return Err(Some(1));
    }
    if first < 0xE0 {
        return Ok(2);
    }
    if left < 3 {
        return Err(None);
    }
    let third: u8 = bytes[idx + 2];
    assert(rest[2] == third);
    if !(0x80 <= third && third <= 0xBF) {
        return Err(Some(2));
    }
    if first < 0xF0 {
        return Ok(3);
    }
    if left < 4 {
        return Err(None);
    }
    let fourth: u8 = bytes[idx + 3];
    assert(rest[3] == fourth);
    if !(0x80 <= fourth && fourth <= 0xBF) {
        return Err(Some(3));
    }
    Ok(4)
}

impl Encoding for Utf8 {
    type Bytes = ArrayVec<u8, 4>;

    open spec fn name() -> Seq<char> {
        "utf8"@
    }

    fn shorthand() -> (r: &'static str) {
        "utf8"
    }

    fn validate(bytes: &[u8]) -> (r: Result<(), ValidateError>) {
        let mut idx: usize = 0;
        proof {
            lemma_walk_start::<Self>(bytes@);
        }
        while idx < bytes.len()
            invariant
                walked::<Self>(bytes@, idx as int),
            decreases bytes.len() - idx,
        {
            match utf8_unit_at(bytes, idx) {
                Ok(width) => {
                    proof {
                        lemma_walk_step::<Self>(bytes@, idx as int);
                    }
                    idx += width;
                },
                Err(error_len) => {
                    proof {
                        lemma_walk_stop::<Self>(bytes@, idx as int);
                    }
                    return Err(ValidateError { valid_up_to: idx, error_len });
                },
            }
        }
        proof {
            lemma_walk_done::<Self>(bytes@);
        }
        Ok(())
    }

    fn encode_char(c: char) -> (r: Option<ArrayVec<u8, 4>>) {
        let scalar: u32 = c as u32;
        proof {
            lemma_char_code(c);
        }
        let mut out = array_vec4_new();
        if scalar <= 0x7F {
            array_vec4_push(&mut out, (scalar & 0x7F) as u8);
        } else if scalar <= 0x7FF {
            array_vec4_push(&mut out, 0xC0 | ((scalar >> 6) & 0x1F) as u8);
            array_vec4_push(&mut out, 0x80 | (scalar & 0x3F) as u8);
        } else if scalar <= 0xFFFF {
            array_vec4_push(&mut out, 0xE0 | ((scalar >> 12) & 0x0F) as u8);
            array_vec4_push(&mut out, 0x80 | ((scalar >> 6) & 0x3F) as u8);
            array_vec4_push(&mut out, 0x80 | (scalar & 0x3F) as u8);
        } else {
            array_vec4_push(&mut out, 0xF0 | ((scalar >> 18) & 0x7) as u8);
            array_vec4_push(&mut out, 0x80 | ((scalar >> 12) & 0x3F) as u8);
            array_vec4_push(&mut out, 0x80 | ((scalar >> 6) & 0x3F) as u8);
            array_vec4_push(&mut out, 0x80 | (scalar & 0x3F) as u8);
        }
        assert(array_vec4_bytes(out) =~= encode_scalar(scalar));
        Some(out)
    }

    fn decode_char<'a>(str: Str<'a, Self>) -> (r: (char, Str<'a, Self>)) {
        let bytes = str.as_bytes();
        let first: u8 = bytes[0];
        proof {
            lemma_utf8_unit(bytes@);
        }
        let width: usize;
        let scalar: u32;
        if first < 0x80 {
            proof {
                lemma_utf8_bits_1(first);
            }
            width = 1;
            scalar = (first & 0x7F) as u32;
        } else if first < 0xE0 {
            proof {
                lemma_utf8_bits_2(first, bytes@[1]);
            }
            width = 2;
            scalar = (((first & 0x1F) as u32) << 6) | ((bytes[1] & 0x3F) as u32);
        } else if first < 0xF0 {
            proof {
                lemma_utf8_bits_3(first, bytes@[1], bytes@[2]);
            }
            width = 3;
            scalar = (((first & 0x0F) as u32) << 12) | (((bytes[1] & 0x3F) as u32) << 6) | ((
            bytes[2] & 0x3F) as u32);
        } else {
            proof {
                lemma_utf8_bits_4(first, bytes@[1], bytes@[2], bytes@[3]);
            }
            width = 4;
            scalar = (((first & 0x07) as u32) << 18) | (((bytes[1] & 0x3F) as u32) << 12) | (((
            bytes[2] & 0x3F) as u32) << 6) | ((bytes[3] & 0x3F) as u32);
        }
        let rest = slice_subrange(bytes, width, bytes.len());
        match std::char::from_u32(scalar) {
            Some(c) => (c, Str::from_bytes_unchecked(rest)),
            None => (UNICODE_REPLACEMENT, Str::from_bytes_unchecked(rest)),
        }
    }

    fn char_bound(str: Str<'_, Self>, idx: usize) -> (r: bool) {
        let bytes = str.as_bytes();
        proof {
            lemma_utf8_model(bytes@, idx as int);
            is_char_boundary_iff_not_is_continuation_byte(bytes@, idx as int);
        }
        !(0x80 <= bytes[idx] && bytes[idx] <= 0xBF)
    }

    fn char_len(c: char) -> (r: usize) {
        let scalar: u32 = c as u32;
        proof {
            lemma_char_code(c);
        }
        if scalar <= 0x7F {
            1
        } else if scalar <= 0x7FF {
            2
        } else if scalar <= 0xFFFF {
            3
        } else {
            4
        }
    }
}

/// The [UTF-16](https://en.wikipedia.org/wiki/UTF-16) encoding
pub type Utf16 = Utf16LE;

/// The [UTF-16BE](https://en.wikipedia.org/wiki/UTF-16#Byte-order_encoding_schemes) encoding
#[derive(Clone, Copy, Debug, Default, PartialEq, Eq)]
#[non_exhaustive]
pub struct Utf16BE;

impl Sealed for Utf16BE {

}

impl Grammar for Utf16BE {
    const REPLACEMENT: char = UNICODE_REPLACEMENT;

    const MAX_LEN: usize = 4;

    open spec fn char_width(bytes: Seq<u8>) -> nat {
        utf16_width(bytes, true)
    }

    open spec fn first_char(bytes: Seq<u8>) -> char {
        utf16_first(bytes, true)
    }

    open spec fn encoding(c: char) -> Option<Seq<u8>> {
        Some(utf16_encoding(c, true))
    }

    open spec fn defect_len(bytes: Seq<u8>) -> Option<u8> {
        utf16_defect(bytes, true)
    }

    proof fn lemma_width_bounds(bytes: Seq<u8>) {
    }

    proof fn lemma_width_local(a: Seq<u8>, b: Seq<u8>) {
        lemma_utf16_local(a, b, true);
    }

    proof fn lemma_defect_bounds(bytes: Seq<u8>) {
    }

    proof fn lemma_round_trip(c: char) {
        lemma_utf16_round_trip(c, true);
    }

    proof fn lemma_replacement() {
    }
}

impl Encoding for Utf16BE {
    type Bytes = ArrayVec<u8, 4>;

    open spec fn name() -> Seq<char> {
        "utf16be"@
    }

    fn shorthand() -> (r: &'static str) {
        "utf16be"
    }

    fn validate(bytes: &[u8]) -> (r: Result<(), ValidateError>) {
        let mut idx: usize = 0;
        proof {
            lemma_walk_start::<Self>(bytes@);
        }
        while idx < bytes.len()
            invariant
                walked::<Self>(bytes@, idx as int),
            decreases bytes.len() - idx,
        {
            match utf16_unit_at(bytes, idx, true) {
                Ok(width) => {
                    proof {
                        lemma_walk_step::<Self>(bytes@, idx as int);
                    }
                    idx += width;
                },
                Err(error_len) => {
                    proof {
                        lemma_walk_stop::<Self>(bytes@, idx as int);
                    }
                    return Err(ValidateError { valid_up_to: idx, error_len });
                },
            }
        }
        proof {
            lemma_walk_done::<Self>(bytes@);
        }
        Ok(())
    }

    fn encode_char(c: char) -> (r: Option<ArrayVec<u8, 4>>) {
        Some(utf16_encode(c, true))
    }

    fn decode_char<'a>(str: Str<'a, Self>) -> (r: (char, Str<'a, Self>)) {
        let bytes = str.as_bytes();
        let (c, width) = utf16_decode(bytes, true);
        let rest = slice_subrange(bytes, width, bytes.len());
        (c, Str::from_bytes_unchecked(rest))
    }

    fn char_bound(str: Str<'_, Self>, idx: usize) -> (r: bool) {
        let bytes = str.as_bytes();
        proof {
            lemma_utf16_boundaries::<Self>(bytes@, idx as int, true);
        }
        idx % 2 == 0 && !(0xDC <= bytes[idx] && bytes[idx] < 0xE0)
    }

    fn char_len(c: char) -> (r: usize) {
        proof {
            lemma_char_code(c);
        }
        if (c as u32) < 0x10000 {
            2
        } else {
            4
        }
    }
}

/// The [UTF-16LE](https://en.wikipedia.org/wiki/UTF-16#Byte-order_encoding_schemes) encoding
#[derive(Clone, Copy, Debug, Default, PartialEq, Eq)]
#[non_exhaustive]
pub struct Utf16LE;

impl Sealed for Utf16LE {

}

impl Grammar for Utf16LE {
    const REPLACEMENT: char = UNICODE_REPLACEMENT;

    const MAX_LEN: usize = 4;

    open spec fn char_width(bytes: Seq<u8>) -> nat {
        utf16_width(bytes, false)
    }

    open spec fn first_char(bytes: Seq<u8>) -> char {
        utf16_first(bytes, false)
    }

    open spec fn encoding(c: char) -> Option<Seq<u8>> {
        Some(utf16_encoding(c, false))
    }

    open spec fn defect_len(bytes: Seq<u8>) -> Option<u8> {
        utf16_defect(bytes, false)
    }

    proof fn lemma_width_bounds(bytes: Seq<u8>) {
    }

    proof fn lemma_width_local(a: Seq<u8>, b: Seq<u8>) {
        lemma_utf16_local(a, b, false);
    }

    proof fn lemma_defect_bounds(bytes: Seq<u8>) {
    }

    proof fn lemma_round_trip(c: char) {
        lemma_utf16_round_trip(c, false);
    }

    proof fn lemma_replacement() {
    }
}

impl Encoding for Utf16LE {
    type Bytes = ArrayVec<u8, 4>;

    open spec fn name() -> Seq<char> {
        "utf16le"@
    }

    fn shorthand() -> (r: &'static str) {
        "utf16le"
    }

    fn validate(bytes: &[u8]) -> (r: Result<(), ValidateError>) {
        let mut idx: usize = 0;
        proof {
            lemma_walk_start::<Self>(bytes@);
        }
        while idx < bytes.len()
            invariant
                walked::<Self>(bytes@, idx as int),
            decreases bytes.len() - idx,
        {
            match utf16_unit_at(bytes, idx, false) {
                Ok(width) => {
                    proof {
                        lemma_walk_step::<Self>(bytes@, idx as int);
                    }
                    idx += width;
                },
                Err(error_len) => {
                    proof {
                        lemma_walk_stop::<Self>(bytes@, idx as int);
                    }
                    return Err(ValidateError { valid_up_to: idx, error_len });
                },
            }
        }
        proof {
            lemma_walk_done::<Self>(bytes@);
        }
        Ok(())
    }

    fn encode_char(c: char) -> (r: Option<ArrayVec<u8, 4>>) {
        Some(utf16_encode(c, false))
    }

    fn decode_char<'a>(str: Str<'a, Self>) -> (r: (char, Str<'a, Self>)) {
        let bytes = str.as_bytes();
        let (c, width) = utf16_decode(bytes, false);
        let rest = slice_subrange(bytes, width, bytes.len());
        (c, Str::from_bytes_unchecked(rest))
    }

    fn char_bound(str: Str<'_, Self>, idx: usize) -> (r: bool) {
        let bytes = str.as_bytes();
        proof {
            lemma_utf16_boundaries::<Self>(bytes@, idx as int, false);
        }
        idx % 2 == 0 && !(0xDC <= bytes[idx + 1] && bytes[idx + 1] < 0xE0)
    }

    fn char_len(c: char) -> (r: usize) {
        proof {
            lemma_char_code(c);
        }
        if (c as u32) < 0x10000 {
            2
        } else {
            4
        }
    }
}

/// The [UTF-32BE](https://en.wikipedia.org/wiki/UTF-32) encoding
#[derive(Clone, Copy, Debug, Default, PartialEq, Eq)]
#[non_exhaustive]
pub struct Utf32BE;

impl Sealed for Utf32BE {

}

impl Grammar for Utf32BE {
    const REPLACEMENT: char = UNICODE_REPLACEMENT;

    const MAX_LEN: usize = 4;

    open spec fn char_width(bytes: Seq<u8>) -> nat {
        utf32_width(bytes, true)
    }

    open spec fn first_char(bytes: Seq<u8>) -> char {
        utf32_first(bytes, true)
    }

    open spec fn encoding(c: char) -> Option<Seq<u8>> {
        Some(utf32_encoding(c, true))
    }

    open spec fn defect_len(bytes: Seq<u8>) -> Option<u8> {
        utf32_defect(bytes)
    }

    proof fn lemma_width_bounds(bytes: Seq<u8>) {
    }

    proof fn lemma_width_local(a: Seq<u8>, b: Seq<u8>) {
        lemma_same_prefix(a, b, 4);
    }

    proof fn lemma_defect_bounds(bytes: Seq<u8>) {
    }

    proof fn lemma_round_trip(c: char) {
        lemma_utf32_round_trip(c, true);
    }

    proof fn lemma_replacement() {
    }
}

impl Encoding for Utf32BE {
    type Bytes = [u8; 4];

    open spec fn name() -> Seq<char> {
        "utf32be"@
    }

    fn shorthand() -> (r: &'static str) {
        "utf32be"
    }

    fn validate(bytes: &[u8]) -> (r: Result<(), ValidateError>) {
        let mut idx: usize = 0;
        proof {
            lemma_walk_start::<Self>(bytes@);
        }
        while idx < bytes.len()
            invariant
                walked::<Self>(bytes@, idx as int),
            decreases bytes.len() - idx,
        {
            match utf32_unit_at(bytes, idx, true) {
                Ok(width) => {
                    proof {
                        lemma_walk_step::<Self>(bytes@, idx as int);
                    }
                    idx += width;
                },
                Err(error_len) => {
                    proof {
                        lemma_walk_stop::<Self>(bytes@, idx as int);
                    }
                    return Err(ValidateError { valid_up_to: idx, error_len });
                },
            }
        }
        proof {
            lemma_walk_done::<Self>(bytes@);
        }
        Ok(())
    }

    fn encode_char(c: char) -> (r: Option<[u8; 4]>) {
        Some(utf32_encode(c, true))
    }

    fn decode_char<'a>(str: Str<'a, Self>) -> (r: (char, Str<'a, Self>)) {
        let bytes = str.as_bytes();
        let c = utf32_decode(bytes, true);
        let rest = slice_subrange(bytes, 4, bytes.len());
        (c, Str::from_bytes_unchecked(rest))
    }

    fn char_bound(str: Str<'_, Self>, idx: usize) -> (r: bool) {
        let bytes = str.as_bytes();
        proof {
            lemma_fixed_width_boundaries::<Self>(bytes@, idx as int, 4);
        }
        idx % 4 == 0
    }

    fn char_len(c: char) -> (r: usize) {
        4
    }
}

/// The [UTF-32LE](https://en.wikipedia.org/wiki/UTF-32) encoding
#[derive(Clone, Copy, Debug, Default, PartialEq, Eq)]
#[non_exhaustive]
pub struct Utf32LE;

impl Sealed for Utf32LE {

}

impl Grammar for Utf32LE {
    const REPLACEMENT: char = UNICODE_REPLACEMENT;

    const MAX_LEN: usize = 4;

    open spec fn char_width(bytes: Seq<u8>) -> nat {
        utf32_width(bytes, false)
    }

    open spec fn first_char(bytes: Seq<u8>) -> char {
        utf32_first(bytes, false)
    }

    open spec fn encoding(c: char) -> Option<Seq<u8>> {
        Some(utf32_encoding(c, false))
    }

    open spec fn defect_len(bytes: Seq<u8>) -> Option<u8> {
        utf32_defect(bytes)
    }

    proof fn lemma_width_bounds(bytes: Seq<u8>) {
    }

    proof fn lemma_width_local(a: Seq<u8>, b: Seq<u8>) {
        lemma_same_prefix(a, b, 4);
    }

    proof fn lemma_defect_bounds(bytes: Seq<u8>) {
    }

    proof fn lemma_round_trip(c: char) {
        lemma_utf32_round_trip(c, false);
    }

    proof fn lemma_replacement() {
    }
}

impl Encoding for Utf32LE {
    type Bytes = [u8; 4];

    open spec fn name() -> Seq<char> {
        "utf32le"@
    }

    fn shorthand() -> (r: &'static str) {
        "utf32le"
    }

    fn validate(bytes: &[u8]) -> (r: Result<(), ValidateError>) {
        let mut idx: usize = 0;
        proof {
            lemma_walk_start::<Self>(bytes@);
        }
        while idx < bytes.len()
            invariant
                walked::<Self>(bytes@, idx as int),
            decreases bytes.len() - idx,
        {
            match utf32_unit_at(bytes, idx, false) {
                Ok(width) => {
                    proof {
                        lemma_walk_step::<Self>(bytes@, idx as int);
                    }
                    idx += width;
                },
                Err(error_len) => {
                    proof {
                        lemma_walk_stop::<Self>(bytes@, idx as int);
                    }
                    return Err(ValidateError { valid_up_to: idx, error_len });
                },
            }
        }
        proof {
            lemma_walk_done::<Self>(bytes@);
        }
        Ok(())
    }

    fn encode_char(c: char) -> (r: Option<[u8; 4]>) {
        Some(utf32_encode(c, false))
    }

    fn decode_char<'a>(str: Str<'a, Self>) -> (r: (char, Str<'a, Self>)) {
        let bytes = str.as_bytes();
        let c = utf32_decode(bytes, false);
        let rest = slice_subrange(bytes, 4, bytes.len());
        (c, Str::from_bytes_unchecked(rest))
    }

    fn char_bound(str: Str<'_, Self>, idx: usize) -> (r: bool) {
        let bytes = str.as_bytes();
        proof {
            lemma_fixed_width_boundaries::<Self>(bytes@, idx as int, 4);
        }
        idx % 4 == 0
    }

    fn char_len(c: char) -> (r: usize) {
        4
    }
}

/// The [UTF-32](https://en.wikipedia.org/wiki/UTF-32) encoding
pub type Utf32 = Utf32LE;

} // verus!
