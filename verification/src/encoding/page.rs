//! The model shared by the single-byte code pages.
//!
//! A code page reads most bytes as the character with the same code point, and a block of
//! bytes, starting at some `base`, from a table. Writing a character is the reverse: the
//! characters of the plain range become their own code, the others are looked up in the
//! table.

use crate::encoding::model::{lemma_char_code, valid, Grammar};
use crate::utils::{first_index, lemma_first_index, position};
use vstd::prelude::*;

verus! {

/// The character that byte `b` stands for, in a page whose bytes from `base` on are read
/// from `table`.
pub open spec fn page_char(table: Seq<char>, base: u8, b: u8) -> char {
    if b >= base && b - base < table.len() {
        table[b - base]
    } else {
        b as char
    }
}

/// The byte that stands for `c`, before the page's own rules on which bytes it admits:
/// the code point of `c` itself where `plain` says that `c` lies in the plain range, else
/// the place of `c` in the table.
pub open spec fn page_code(table: Seq<char>, base: u8, plain: bool, c: char) -> Option<u8> {
    if plain {
        Some(c as u8)
    } else {
        match first_index(table, c) {
            Some(i) => Some((base + i) as u8),
            None => None,
        }
    }
}

/// What `page_code` gives reads back as `c`, provided the plain range keeps clear of the
/// bytes that the table serves.
pub proof fn lemma_page_round_trip(table: Seq<char>, base: u8, plain: bool, c: char)
    requires
        base + table.len() <= 256,
        plain ==> (c as u32) < base || (base + table.len() <= (c as u32) && (c as u32) < 256),
    ensures
        page_code(table, base, plain, c) matches Some(b) ==> page_char(table, base, b) == c,
        page_code(table, base, plain, c) matches Some(b) ==> (plain ==> b == c as u32),
        page_code(table, base, plain, c) matches Some(b) ==> (!plain ==> b >= base),
{
    lemma_char_code(c);
    lemma_first_index(table, c);
}

/// A grammar that reads every byte as a character accepts every buffer.
pub proof fn lemma_every_byte_valid<G: Grammar>(s: Seq<u8>)
    requires
        forall|t: Seq<u8>| t.len() > 0 ==> #[trigger] G::char_width(t) == 1,
    ensures
        valid::<G>(s),
    decreases s.len(),
{
    if s.len() > 0 {
        lemma_every_byte_valid::<G>(s.skip(1));
    }
}

/// Reads one byte of a code page.
pub fn page_decode(table: &[char], base: u8, b: u8) -> (c: char)
    requires
        base + table@.len() <= 256,
    ensures
        c == page_char(table@, base, b),
{
    if b >= base && ((b - base) as usize) < table.len() {
        table[(b - base) as usize]
    } else {
        b as char
    }
}

/// Writes one character of a code page.
pub fn page_encode(table: &[char], base: u8, plain: bool, c: char) -> (r: Option<u8>)
    requires
        base + table@.len() <= 256,
    ensures
        r == page_code(table@, base, plain, c),
{
    if plain {
        Some(c as u8)
    } else {
        proof {
            lemma_first_index(table@, c);
        }
        match position(table, c) {
            Some(pos) => Some((base as usize + pos) as u8),
            None => None,
        }
    }
}

} // verus!
