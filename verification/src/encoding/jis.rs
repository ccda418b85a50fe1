//! The Japanese Industrial Standards encodings: JIS X 0201, JIS X 0208 and Shift JIS.

use crate::encoding::arrays::{
    array_vec4_as_slice, array_vec4_bytes, array_vec4_new, array_vec4_push,
};
use crate::encoding::model::{
    lemma_char_code, lemma_fixed_width_boundaries, lemma_inside_char_not_boundary,
    lemma_walk_done, lemma_walk_start, lemma_walk_step, lemma_walk_stop, valid, walked, Grammar,
};
use crate::encoding::sealed::Sealed;
use crate::encoding::x0208_tables::{
    cell, find_in_row, lemma_question_mark, lookup, GRID, NO_MAPPING,
};
use crate::encoding::{Encoding, ValidateError};
use crate::str::Str;
use crate::utils::{first_index, lemma_first_index, position};
use arrayvec::ArrayVec;
use vstd::prelude::*;
use vstd::slice::slice_subrange;

verus! {

/// The half-width katakana of JIS X 0201, for the bytes from `0xA1` to `0xDF`.
pub const DECODE_MAP_0201: [char; 63] = [
    '\u{FF61}', '\u{FF62}', '\u{FF63}', '\u{FF64}', '\u{FF65}', '\u{FF66}', '\u{FF67}',
    '\u{FF68}', '\u{FF69}', '\u{FF6A}', '\u{FF6B}', '\u{FF6C}', '\u{FF6D}', '\u{FF6E}',
    '\u{FF6F}', '\u{FF70}', '\u{FF71}', '\u{FF72}', '\u{FF73}', '\u{FF74}', '\u{FF75}',
    '\u{FF76}', '\u{FF77}', '\u{FF78}', '\u{FF79}', '\u{FF7A}', '\u{FF7B}', '\u{FF7C}',
    '\u{FF7D}', '\u{FF7E}', '\u{FF7F}', '\u{FF80}', '\u{FF81}', '\u{FF82}', '\u{FF83}',
    '\u{FF84}', '\u{FF85}', '\u{FF86}', '\u{FF87}', '\u{FF88}', '\u{FF89}', '\u{FF8A}',
    '\u{FF8B}', '\u{FF8C}', '\u{FF8D}', '\u{FF8E}', '\u{FF8F}', '\u{FF90}', '\u{FF91}',
    '\u{FF92}', '\u{FF93}', '\u{FF94}', '\u{FF95}', '\u{FF96}', '\u{FF97}', '\u{FF98}',
    '\u{FF99}', '\u{FF9A}', '\u{FF9B}', '\u{FF9C}', '\u{FF9D}', '\u{FF9E}', '\u{FF9F}',
];

/// The yen sign, which JIS X 0201 has in the place of the backslash.
pub const YEN: char = '\u{A5}';

/// The overline, which JIS X 0201 has in the place of the tilde.
pub const OVERLINE: char = '\u{203E}';

/// Whether `b` stands for a character in JIS X 0201.
pub open spec fn x0201_byte(b: u8) -> bool {
    !(b < 0x20 || (0x80 <= b && b < 0xA1) || b >= 0xE0)
}

/// The character that the single byte `b` stands for.
pub open spec fn x0201_char(b: u8) -> char {
    if b == 0x5C {
        YEN
    } else if b == 0x7E {
        OVERLINE
    } else if b < 0x80 {
        b as char
    } else {
        DECODE_MAP_0201[b - 0xA1]
    }
}

/// The single byte that stands for `c` in JIS X 0201, where there is one.
pub open spec fn x0201_code(c: char) -> Option<u8> {
    if c == YEN {
        Some(0x5Cu8)
    } else if c == OVERLINE {
        Some(0x7Eu8)
    } else if 0x20 <= c as u32 && (c as u32) < 0x80 {
        if c as u32 == 0x5C || c as u32 == 0x7E {
            None
        } else {
            Some(c as u8)
        }
    } else {
        match first_index(DECODE_MAP_0201@, c) {
            Some(i) => Some((i + 0xA1) as u8),
            None => None,
        }
    }
}

/// What `x0201_code` gives is a byte of JIS X 0201 that reads back as `c`.
pub proof fn lemma_x0201_round_trip(c: char)
    ensures
        x0201_code(c) matches Some(b) ==> x0201_byte(b) && x0201_char(b) == c && b != 0,
{
    lemma_char_code(c);
    lemma_char_code(YEN);
    lemma_char_code(OVERLINE);
    lemma_first_index(DECODE_MAP_0201@, c);
}

fn x0201_decode(b: u8) -> (c: char)
    requires
        b < 0x80 || (0xA1 <= b && b < 0xE0),
    ensures
        c == x0201_char(b),
{
    if b == 0x5C {
        YEN
    } else if b == 0x7E {
        OVERLINE
    } else if b < 0x80 {
        b as char
    } else {
        DECODE_MAP_0201[(b - 0xA1) as usize]
    }
}

fn x0201_encode(c: char) -> (r: Option<u8>)
    ensures
        r == x0201_code(c),
{
    let code: u32 = c as u32;
    if c == YEN {
        Some(0x5C)
    } else if c == OVERLINE {
        Some(0x7E)
    } else if 0x20 <= code && code < 0x80 {
        if code == 0x5C || code == 0x7E {
            None
        } else {
            Some(c as u8)
        }
    } else {
        proof {
            lemma_first_index(DECODE_MAP_0201@, c);
        }
        match position(&DECODE_MAP_0201, c) {
            Some(pos) => Some((pos + 0xA1) as u8),
            None => None,
        }
    }
}

/// The [JIS X 0201](https://en.wikipedia.org/wiki/JIS_X_0201) encoding.
#[derive(Clone, Copy, Debug, Default, PartialEq, Eq)]
#[non_exhaustive]
pub struct JisX0201;

impl Sealed for JisX0201 {

}

impl Grammar for JisX0201 {
    const REPLACEMENT: char = '?';

    const MAX_LEN: usize = 1;

    open spec fn char_width(bytes: Seq<u8>) -> nat {
        if bytes.len() > 0 && x0201_byte(bytes[0]) {
            1
        } else {
            0
        }
    }

    open spec fn first_char(bytes: Seq<u8>) -> char {
        x0201_char(bytes[0])
    }

    open spec fn encoding(c: char) -> Option<Seq<u8>> {
        match x0201_code(c) {
            Some(b) => Some(seq![b]),
            None => None,
        }
    }

    open spec fn defect_len(bytes: Seq<u8>) -> Option<u8> {
        Some(1u8)
    }

    proof fn lemma_width_bounds(bytes: Seq<u8>) {
    }

    proof fn lemma_width_local(a: Seq<u8>, b: Seq<u8>) {
        assert(a.take(1)[0] == b.take(1)[0]);
    }

    proof fn lemma_defect_bounds(bytes: Seq<u8>) {
    }

    proof fn lemma_round_trip(c: char) {
        lemma_x0201_round_trip(c);
        if x0201_code(c) is Some {
            assert(seq![x0201_code(c)->0][0] == x0201_code(c)->0);
        }
    }

    proof fn lemma_replacement() {
        lemma_char_code('?');
        lemma_char_code(YEN);
        lemma_char_code(OVERLINE);
    }
}

impl Encoding for JisX0201 {
    type Bytes = u8;

    open spec fn name() -> Seq<char> {
        "jisx0201"@
    }

    fn shorthand() -> (r: &'static str) {
        "jisx0201"
    }

    fn validate(bytes: &[u8]) -> (r: Result<(), ValidateError>) {
        let mut idx: usize = 0;
        proof {
            lemma_walk_start::<Self>(bytes@);
        }
        while idx < bytes.len()
            invariant
                walked::<Self>(bytes@, idx as int),
            decreases bytes.len() - idx,
        {
            let b: u8 = bytes[idx];
            if b < 0x20 || (0x80 <= b && b < 0xA1) || b >= 0xE0 {
                proof {
                    lemma_walk_stop::<Self>(bytes@, idx as int);
                }
                return Err(ValidateError { valid_up_to: idx, error_len: Some(1) });
            }
            proof {
                lemma_walk_step::<Self>(bytes@, idx as int);
            }
            idx += 1;
        }
        proof {
            lemma_walk_done::<Self>(bytes@);
        }
        Ok(())
    }

    fn encode_char(c: char) -> (r: Option<u8>) {
        x0201_encode(c)
    }

    fn decode_char<'a>(str: Str<'a, Self>) -> (r: (char, Str<'a, Self>)) {
        let bytes = str.as_bytes();
        let rest = slice_subrange(bytes, 1, bytes.len());
        (x0201_decode(bytes[0]), Str::from_bytes_unchecked(rest))
    }

    fn char_bound(str: Str<'_, Self>, idx: usize) -> (r: bool) {
        let bytes = str.as_bytes();
        proof {
            lemma_fixed_width_boundaries::<Self>(bytes@, idx as int, 1);
        }
        true
    }

    fn char_len(c: char) -> (r: usize) {
        match x0201_encode(c) {
            Some(_) => 1,
            None => 0,
        }
    }
}

/// The byte of the `n`-th character of JIS X 0201, counted from zero in the order of the
/// bytes.
pub open spec fn x0201_nth_byte(n: u8) -> u8 {
    if n < 0x60 {
        (n + 0x20) as u8
    } else {
        (n + 0x41) as u8
    }
}

impl JisX0201 {
    /// Number of characters of the encoding.
    pub const CHARS: usize = 159;

    /// The `n`-th character of the encoding, counted from zero in the order of the bytes:
    /// the character that a draw of `n` from the numbers below [`Self::CHARS`] stands for.
    pub fn sample(n: u8) -> (c: char)
        requires
            n < 159,
        ensures
            x0201_byte(x0201_nth_byte(n)),
            c == x0201_char(x0201_nth_byte(n)),
    {
        let byte: u8 = if n < 0x60 {
            n + 0x20
        } else {
            n + 0x41
        };
        x0201_decode(byte)
    }
}

/// Number of cells of the JIS X 0208 grid.
pub const CELLS: u16 = 8836;

/// The character in the `k`-th cell of the grid, counted from zero in row order.
pub open spec fn cell_at(k: nat) -> char {
    cell((k / 94) as u8, (k % 94) as u8)
}

/// The first cell at or behind the `k`-th, in row order, that holds `c`.
pub open spec fn find_cell_from(c: char, k: nat) -> Option<(u8, u8)>
    decreases CELLS - k,
{
    if k >= CELLS {
        None
    } else if cell_at(k) == c {
        Some(((k / 94) as u8, (k % 94) as u8))
    } else {
        find_cell_from(c, k + 1)
    }
}

/// The first cell of the grid, in row order, that holds `c`. The marker of an empty cell is
/// never found.
pub open spec fn find_cell(c: char) -> Option<(u8, u8)> {
    if c == NO_MAPPING {
        None
    } else {
        find_cell_from(c, 0)
    }
}

/// A cell that holds `c` is found, unless an earlier one is.
pub proof fn lemma_find_cell_first(c: char, k: nat, j: nat)
    requires
        k <= j < CELLS,
        cell((j / 94) as u8, (j % 94) as u8) == c,
    ensures
        find_cell_from(c, k) matches Some(p) && p.0 * 94 + p.1 <= j,
    decreases j - k,
{
    if cell((k / 94) as u8, (k % 94) as u8) != c {
        lemma_find_cell_first(c, k + 1, j);
    }
}

/// What `find_cell_from` finds is a cell of the grid that holds `c`.
pub proof fn lemma_find_cell(c: char, k: nat)
    ensures
        find_cell_from(c, k) matches Some(p) ==> p.0 < GRID && p.1 < GRID && cell(p.0, p.1) == c,
    decreases CELLS - k,
{
    if k < CELLS && cell((k / 94) as u8, (k % 94) as u8) != c {
        lemma_find_cell(c, k + 1);
    }
}

/// A stretch of cells that do not hold `c` makes no difference to the search for it.
pub proof fn lemma_search_skips(c: char, start: nat, end: nat)
    requires
        start <= end <= CELLS,
        forall|k: nat| start <= k < end ==> #[trigger] cell_at(k) != c,
    ensures
        find_cell_from(c, start) == find_cell_from(c, end),
    decreases end - start,
{
    if start < end {
        lemma_search_skips(c, start + 1, end);
    }
}

fn search_grid(c: char) -> (r: Option<(u8, u8)>)
    ensures
        r == find_cell(c),
        r matches Some(p) ==> p.0 < GRID && p.1 < GRID && cell(p.0, p.1) == c && c != NO_MAPPING,
{
    if c == NO_MAPPING {
        return None;
    }
    let mut row: u8 = 0;
    while row < GRID
        invariant
            row <= GRID,
            c != NO_MAPPING,
            find_cell_from(c, 0) == find_cell_from(c, (row * 94) as nat),
        decreases GRID - row,
    {
        match find_in_row(row, c) {
            Some(col) => {
                proof {
                    let start: nat = (row * 94) as nat;
                    let at: nat = (row * 94 + col) as nat;
                    assert forall|k: nat| start <= k < at implies #[trigger] cell_at(k) != c by {
                        assert(k / 94 == row && k % 94 < col);
                    }
                    lemma_search_skips(c, start, at);
                    assert(at / 94 == row && at % 94 == col);
                }
                return Some((row, col));
            },
            None => {
                proof {
                    let start: nat = (row * 94) as nat;
                    let end: nat = (row * 94 + 94) as nat;
                    assert forall|k: nat| start <= k < end implies #[trigger] cell_at(k) != c by {
                        assert(k / 94 == row && k % 94 < 94);
                    }
                    lemma_search_skips(c, start, end);
                }
            },
        }
        row += 1;
    }
    None
}

/// Number of cells of the grid that hold a character.
pub const FILLED: u16 = 6962;

/// The character in the `n`-th cell, counted from zero, among the cells at or behind the
/// `k`-th that hold a character; `None` where there are not that many.
pub open spec fn nth_filled_from(n: nat, k: nat) -> Option<char>
    decreases CELLS - k,
{
    if k >= CELLS {
        None
    } else if cell_at(k) == NO_MAPPING {
        nth_filled_from(n, k + 1)
    } else if n == 0 {
        Some(cell_at(k))
    } else {
        nth_filled_from((n - 1) as nat, k + 1)
    }
}

fn nth_filled(n: u16) -> (r: Option<char>)
    ensures
        r == nth_filled_from(n as nat, 0),
{
    let mut left: u16 = n;
    let mut k: u16 = 0;
    while k < CELLS
        invariant
            k <= CELLS,
            nth_filled_from(n as nat, 0) == nth_filled_from(left as nat, k as nat),
        decreases CELLS - k,
    {
        let c: char = lookup((k / 94) as u8, (k % 94) as u8);
        if c != NO_MAPPING {
            if left == 0 {
                return Some(c);
            }
            left -= 1;
        }
        k += 1;
    }
    None
}

impl JisX0208 {
    /// Number of characters that [`Self::sample`] draws from: twenty-two control codes and
    /// the characters of the grid.
    pub const CHARS: u16 = FILLED + 22;

    /// The character that a draw of `n` from the numbers below [`Self::CHARS`] stands for:
    /// a control code for the first of them, then the characters of the grid in the order
    /// of their cells. Gives `None` for a number behind the last character.
    pub fn sample(n: u16) -> (r: Option<char>)
        ensures
            r == if n < 21 {
                Some((n as u8) as char)
            } else if n == 21 {
                Some('\x7F')
            } else {
                nth_filled_from((n - 22) as nat, 0)
            },
    {
        if n <= 21 {
            if n == 21 {
                Some('\x7F')
            } else {
                Some((n as u8) as char)
            }
        } else {
            nth_filled(n - 22)
        }
    }
}

impl ShiftJIS {
    /// Number of characters that [`Self::sample`] draws from: the characters of JIS X 0201
    /// and those of the grid.
    pub const CHARS: u16 = FILLED + 159;

    /// The character that a draw of `n` from the numbers below [`Self::CHARS`] stands for:
    /// a character of JIS X 0201 for the first of them, then the characters of the grid in
    /// the order of their cells. Gives `None` for a number behind the last character.
    pub fn sample(n: u16) -> (r: Option<char>)
        ensures
            r == if n < 159 {
                Some(x0201_char(x0201_nth_byte(n as u8)))
            } else {
                nth_filled_from((n - 159) as nat, 0)
            },
    {
        if n < 159 {
            Some(JisX0201::sample(n as u8))
        } else {
            nth_filled(n - 159)
        }
    }
}

/// Whether `b` is the first byte of a row of JIS X 0208 that holds no character at all.
pub open spec fn x0208_empty_row(b: u8) -> bool {
    (0x29 <= b && b < 0x30 && b != 0x2D) || (0x75 <= b && b < 0x7F)
}

/// Whether `b` stands for a character by itself in JIS X 0208: a control code, the space or
/// the delete character.
pub open spec fn x0208_single(b: u8) -> bool {
    b < 0x21 || b == 0x7F
}

/// Whether `b` can be either byte of a two-byte character of JIS X 0208.
pub open spec fn x0208_pair_byte(b: u8) -> bool {
    0x21 <= b && b < 0x7F
}

/// The [JIS X 0208](https://en.wikipedia.org/wiki/JIS_X_0208) encoding.
#[derive(Clone, Copy, Debug, Default, PartialEq, Eq)]
#[non_exhaustive]
pub struct JisX0208;

impl Sealed for JisX0208 {

}

impl Grammar for JisX0208 {
    const REPLACEMENT: char = '?';

    const MAX_LEN: usize = 2;

    open spec fn char_width(bytes: Seq<u8>) -> nat {
        if bytes.len() == 0 {
            0
        } else if x0208_single(bytes[0]) {
            1
        } else if bytes[0] >= 0x80 || x0208_empty_row(bytes[0]) || bytes.len() < 2 {
            0
        } else if x0208_pair_byte(bytes[1]) && cell(
            (bytes[0] - 0x21) as u8,
            (bytes[1] - 0x21) as u8,
        ) != NO_MAPPING {
            2
        } else {
            0
        }
    }

    open spec fn first_char(bytes: Seq<u8>) -> char {
        if x0208_single(bytes[0]) {
            bytes[0] as char
        } else {
            cell((bytes[0] - 0x21) as u8, (bytes[1] - 0x21) as u8)
        }
    }

    open spec fn encoding(c: char) -> Option<Seq<u8>> {
        if c as u32 <= 0x20 || c as u32 == 0x7F {
            Some(seq![c as u8])
        } else {
            match find_cell(c) {
                Some(p) => if x0208_empty_row((p.0 + 0x21) as u8) {
                    None
                } else {
                    Some(seq![(p.0 + 0x21) as u8, (p.1 + 0x21) as u8])
                },
                None => None,
            }
        }
    }

    open spec fn defect_len(bytes: Seq<u8>) -> Option<u8> {
        if bytes[0] >= 0x80 {
            Some(1u8)
        } else if bytes.len() < 2 {
            None
        } else {
            Some(2u8)
        }
    }

    proof fn lemma_width_bounds(bytes: Seq<u8>) {
    }

    proof fn lemma_width_local(a: Seq<u8>, b: Seq<u8>) {
        let w: int = Self::char_width(a) as int;
        assert(a.take(w)[0] == b.take(w)[0]);
        if w == 2 {
            assert(a.take(w)[1] == b.take(w)[1]);
        }
    }

    proof fn lemma_defect_bounds(bytes: Seq<u8>) {
    }

    proof fn lemma_round_trip(c: char) {
        lemma_char_code(c);
        if c as u32 <= 0x20 || c as u32 == 0x7F {
            assert(seq![c as u8][0] == c as u8);
        } else if find_cell(c) is Some {
            lemma_find_cell(c, 0);
            let p: (u8, u8) = find_cell(c)->0;
            let b: Seq<u8> = seq![(p.0 + 0x21) as u8, (p.1 + 0x21) as u8];
            assert(b[0] == p.0 + 0x21 && b[1] == p.1 + 0x21);
        }
    }

    proof fn lemma_replacement() {
        lemma_char_code('?');
        lemma_char_code(NO_MAPPING);
        lemma_question_mark();
        lemma_find_cell_first('?', 0, 8);
    }
}

impl JisX0208 {
    /// Reads the unit that starts at `idx`: its width where it is a character, what
    /// validation reports of it where it is not.
    fn unit_at(bytes: &[u8], idx: usize) -> (r: Result<usize, Option<u8>>)
        requires
            idx < bytes@.len(),
        ensures
            match r {
                Ok(w) => w > 0 && w == Self::char_width(bytes@.skip(idx as int)),
                Err(d) => Self::char_width(bytes@.skip(idx as int)) == 0 && d
                    == Self::defect_len(bytes@.skip(idx as int)),
            },
    {
        let b: u8 = bytes[idx];
        assert(bytes@.skip(idx as int)[0] == b);
        if b >= 0x80 {
            Err(Some(1))
        } else if b < 0x21 || b == 0x7F {
            // The control codes, the space and the delete character stand alone.
            Ok(1)
        } else if bytes.len() - idx < 2 {
            Err(None)
        } else if (0x29 <= b && b < 0x30 && b != 0x2D) || (0x75 <= b && b < 0x7F) {
            // Rows without any character.
            Err(Some(2))
        } else {
            let second: u8 = bytes[idx + 1];
            assert(bytes@.skip(idx as int)[1] == second);
            if !(0x21 <= second && second < 0x7F) || lookup(b - 0x21, second - 0x21)
                == NO_MAPPING {
                Err(Some(2))
            } else {
                Ok(2)
            }
        }
    }
}

impl Encoding for JisX0208 {
    type Bytes = ArrayVec<u8, 4>;

    open spec fn name() -> Seq<char> {
        "jisx0208"@
    }

    fn shorthand() -> (r: &'static str) {
        "jisx0208"
    }

    fn validate(bytes: &[u8]) -> (r: Result<(), ValidateError>) {
        let mut idx: usize = 0;
        proof {
            lemma_walk_start::<Self>(bytes@);
        }
        while idx < bytes.len()
            invariant
                walked::<Self>(bytes@, idx as int),
            decreases bytes.len() - idx,
        {
            match Self::unit_at(bytes, idx) {
                Ok(width) => {
                    proof {
                        lemma_walk_step::<Self>(bytes@, idx as int);
                    }
                    idx += width;
                },
                Err(error_len) => {
                    proof {
                        lemma_walk_stop::<Self>(bytes@, idx as int);
                    }
                    return Err(ValidateError { valid_up_to: idx, error_len });
                },
            }
        }
        proof {
            lemma_walk_done::<Self>(bytes@);
        }
        Ok(())
    }

    fn encode_char(c: char) -> (r: Option<ArrayVec<u8, 4>>) {
        let code: u32 = c as u32;
        let mut out = array_vec4_new();
        if code <= 0x20 || code == 0x7F {
            array_vec4_push(&mut out, c as u8);
            assert(array_vec4_bytes(out) =~= seq![c as u8]);
            Some(out)
        } else {
            match search_grid(c) {
                Some((row, col)) => {
                    let first: u8 = row + 0x21;
                    if (0x29 <= first && first < 0x30 && first != 0x2D) || (0x75 <= first
                        && first < 0x7F) {
                        None
                    } else {
                        array_vec4_push(&mut out, first);
                        array_vec4_push(&mut out, col + 0x21);
                        assert(array_vec4_bytes(out) =~= seq![first, (col + 0x21) as u8]);
                        Some(out)
                    }
                },
                None => None,
            }
        }
    }

    fn decode_char<'a>(str: Str<'a, Self>) -> (r: (char, Str<'a, Self>)) {
        let bytes = str.as_bytes();
        let first: u8 = bytes[0];
        if first < 0x21 || first == 0x7F {
            let rest = slice_subrange(bytes, 1, bytes.len());
            (first as char, Str::from_bytes_unchecked(rest))
        } else {
            let second: u8 = bytes[1];
            let c = lookup(first - 0x21, second - 0x21);
            let rest = slice_subrange(bytes, 2, bytes.len());
            (c, Str::from_bytes_unchecked(rest))
        }
    }

    fn char_bound(str: Str<'_, Self>, idx: usize) -> (r: bool) {
        let bytes = str.as_bytes();
        let mut pos: usize = 0;
        proof {
            lemma_walk_start::<Self>(bytes@);
        }
        while pos < idx
            invariant
                bytes@ == str@,
                pos <= idx < bytes@.len(),
                valid::<Self>(bytes@),
                walked::<Self>(bytes@, pos as int),
            decreases bytes@.len() - pos,
        {
            match Self::unit_at(bytes, pos) {
                Ok(width) => {
                    proof {
                        lemma_walk_step::<Self>(bytes@, pos as int);
                    }
                    if idx - pos < width {
                        proof {
                            lemma_inside_char_not_boundary::<Self>(bytes@, pos as int, idx as int);
                        }
                        return false;
                    }
                    pos += width;
                },
                Err(_) => {
                    return false;
                },
            }
        }
        true
    }

    fn char_len(c: char) -> (r: usize) {
        match Self::encode_char(c) {
            Some(b) => {
                let len: usize = array_vec4_as_slice(&b).len();
                len
            },
            None => 0,
        }
    }
}

/// Whether `b` stands for a character by itself in Shift JIS.
pub open spec fn sjis_single(b: u8) -> bool {
    b < 0x80 || (0xA1 <= b && b < 0xE0)
}

/// Whether `b` is the first byte of a two-byte character of Shift JIS.
pub open spec fn sjis_lead(b: u8) -> bool {
    (0x81 <= b && b < 0xA0) || (0xE0 <= b && b < 0xF0)
}

/// Whether `b` can be the second byte of a two-byte character of Shift JIS.
pub open spec fn sjis_trail(b: u8) -> bool {
    (0x40 <= b && b < 0x7F) || (0x80 <= b && b < 0xFD)
}

/// The row of the grid that the two bytes of a Shift JIS character select. Each first byte
/// stands for a pair of rows; the second byte tells which of the two.
pub open spec fn sjis_row(first: u8, second: u8) -> u8 {
    let pair: int = if first < 0xA0 {
        first - 0x81
    } else {
        first - 0xC1
    };
    if second >= 0x9F {
        (pair * 2 + 1) as u8
    } else {
        (pair * 2) as u8
    }
}

/// The column of the grid that the second byte of a Shift JIS character selects.
pub open spec fn sjis_col(second: u8) -> u8 {
    if second >= 0x9F {
        (second - 0x9F) as u8
    } else if second < 0x7F {
        (second - 0x40) as u8
    } else {
        (second - 0x41) as u8
    }
}

/// The first byte of the Shift JIS character in `row` of the grid.
pub open spec fn sjis_first(row: u8) -> u8 {
    if row + 0x21 <= 0x5E {
        ((row + 0x22) / 2 + 112) as u8
    } else {
        ((row + 0x22) / 2 + 176) as u8
    }
}

/// The second byte of the Shift JIS character in `row` and `col` of the grid.
pub open spec fn sjis_second(row: u8, col: u8) -> u8 {
    if (row + 0x21) % 2 == 0 {
        (col + 159) as u8
    } else {
        (col + 64 + col / 63) as u8
    }
}

/// The [Shift JIS](https://en.wikipedia.org/wiki/Shift_JIS) encoding.
#[derive(Clone, Copy, Debug, Default, PartialEq, Eq)]
#[non_exhaustive]
pub struct ShiftJIS;

impl Sealed for ShiftJIS {

}

impl Grammar for ShiftJIS {
    const REPLACEMENT: char = '?';

    const MAX_LEN: usize = 2;

    open spec fn char_width(bytes: Seq<u8>) -> nat {
        if bytes.len() == 0 {
            0
        } else if sjis_single(bytes[0]) {
            1
        } else if !sjis_lead(bytes[0]) || bytes.len() < 2 {
            0
        } else if sjis_trail(bytes[1]) && cell(
            sjis_row(bytes[0], bytes[1]),
            sjis_col(bytes[1]),
        ) != NO_MAPPING {
            2
        } else {
            0
        }
    }

    open spec fn first_char(bytes: Seq<u8>) -> char {
        if sjis_single(bytes[0]) {
            x0201_char(bytes[0])
        } else {
            cell(sjis_row(bytes[0], bytes[1]), sjis_col(bytes[1]))
        }
    }

    open spec fn encoding(c: char) -> Option<Seq<u8>> {
        match x0201_code(c) {
            Some(b) => Some(seq![b]),
            None => match find_cell(c) {
                Some(p) => Some(seq![sjis_first(p.0), sjis_second(p.0, p.1)]),
                None => None,
            },
        }
    }

    open spec fn defect_len(bytes: Seq<u8>) -> Option<u8> {
        if !sjis_lead(bytes[0]) {
            Some(1u8)
        } else if bytes.len() < 2 {
            None
        } else {
            Some(2u8)
        }
    }

    proof fn lemma_width_bounds(bytes: Seq<u8>) {
    }

    proof fn lemma_width_local(a: Seq<u8>, b: Seq<u8>) {
        let w: int = Self::char_width(a) as int;
        assert(a.take(w)[0] == b.take(w)[0]);
        if w == 2 {
            assert(a.take(w)[1] == b.take(w)[1]);
        }
    }

    proof fn lemma_defect_bounds(bytes: Seq<u8>) {
    }

    proof fn lemma_round_trip(c: char) {
        lemma_x0201_round_trip(c);
        match x0201_code(c) {
            Some(b) => {
                assert(seq![b][0] == b);
            },
            None => {
                if find_cell(c) is Some {
                    lemma_find_cell(c, 0);
                    let p: (u8, u8) = find_cell(c)->0;
                    let first: u8 = sjis_first(p.0);
                    let second: u8 = sjis_second(p.0, p.1);
                    let b: Seq<u8> = seq![first, second];
                    assert(b[0] == first && b[1] == second);
                    assert(sjis_lead(first));
                    assert(sjis_trail(second));
                    assert(sjis_row(first, second) == p.0);
                    assert(sjis_col(second) == p.1);
                }
            },
        }
    }

    proof fn lemma_replacement() {
        lemma_char_code('?');
        lemma_char_code(YEN);
        lemma_char_code(OVERLINE);
    }
}

impl ShiftJIS {
    /// Reads the unit that starts at `idx`: its width where it is a character, what
    /// validation reports of it where it is not.
    fn unit_at(bytes: &[u8], idx: usize) -> (r: Result<usize, Option<u8>>)
        requires
            idx < bytes@.len(),
        ensures
            match r {
                Ok(w) => w > 0 && w == Self::char_width(bytes@.skip(idx as int)),
                Err(d) => Self::char_width(bytes@.skip(idx as int)) == 0 && d
                    == Self::defect_len(bytes@.skip(idx as int)),
            },
    {
        let b: u8 = bytes[idx];
        assert(bytes@.skip(idx as int)[0] == b);
        // Single-byte characters
        if b < 0x80 || (0xA1 <= b && b < 0xE0) {
            return Ok(1);
        }
        let pair: u8 = if 0x81 <= b && b < 0xA0 {
            // First set of row values
            b - 0x81
        } else if 0xE0 <= b && b < 0xF0 {
            // Second set of row values
            b - 0xC1
        } else {
            return Err(Some(1));
        };
        if bytes.len() - idx < 2 {
            return Err(None);
        }
        let second: u8 = bytes[idx + 1];
        assert(bytes@.skip(idx as int)[1] == second);
        let row: u8;
        let column: u8;
        if 0x9F <= second && second < 0xFD {
            row = pair * 2 + 1;
            column = second - 0x9F;
        } else if 0x40 <= second && second < 0x7F {
            row = pair * 2;
            column = second - 0x40;
        } else if 0x80 <= second && second < 0x9F {
            row = pair * 2;
            column = second - 0x41;
        } else {
            return Err(Some(2));
        }
        if lookup(row, column) == NO_MAPPING {
            return Err(Some(2));
        }
        Ok(2)
    }
}

impl Encoding for ShiftJIS {
    type Bytes = ArrayVec<u8, 4>;

    open spec fn name() -> Seq<char> {
        "shiftjis"@
    }

    fn shorthand() -> (r: &'static str) {
        "shiftjis"
    }

    fn validate(bytes: &[u8]) -> (r: Result<(), ValidateError>) {
        let mut idx: usize = 0;
        proof {
            lemma_walk_start::<Self>(bytes@);
        }
        while idx < bytes.len()
            invariant
                walked::<Self>(bytes@, idx as int),
            decreases bytes.len() - idx,
        {
            match Self::unit_at(bytes, idx) {
                Ok(width) => {
                    proof {
                        lemma_walk_step::<Self>(bytes@, idx as int);
                    }
                    idx += width;
                },
                Err(error_len) => {
                    proof {
                        lemma_walk_stop::<Self>(bytes@, idx as int);
                    }
                    return Err(ValidateError { valid_up_to: idx, error_len });
                },
            }
        }
        proof {
            lemma_walk_done::<Self>(bytes@);
        }
        Ok(())
    }

    fn encode_char(c: char) -> (r: Option<ArrayVec<u8, 4>>) {
        let mut out = array_vec4_new();
        match x0201_encode(c) {
            Some(b) => {
                array_vec4_push(&mut out, b);
                assert(array_vec4_bytes(out) =~= seq![b]);
                Some(out)
            },
            None => match search_grid(c) {
                Some((row, col)) => {
                    let row_byte: u8 = row + 0x21;
                    let first: u8 = if row_byte <= 0x5E {
                        (row_byte + 1) / 2 + 112
                    } else {
                        (row_byte + 1) / 2 + 176
                    };
                    let second: u8 = if row_byte % 2 == 0 {
                        col + 159
                    } else {
                        col + 64 + col / 63
                    };
                    array_vec4_push(&mut out, first);
                    array_vec4_push(&mut out, second);
                    assert(array_vec4_bytes(out) =~= seq![first, second]);
                    Some(out)
                },
                None => None,
            },
        }
    }

    fn decode_char<'a>(str: Str<'a, Self>) -> (r: (char, Str<'a, Self>)) {
        let bytes = str.as_bytes();
        let first: u8 = bytes[0];
        if first < 0x80 || (0xA1 <= first && first < 0xE0) {
            let rest = slice_subrange(bytes, 1, bytes.len());
            (x0201_decode(first), Str::from_bytes_unchecked(rest))
        } else {
            let second: u8 = bytes[1];
            let pair: u8 = if 0x81 <= first && first < 0xA0 {
                first - 0x81
            } else {
                first - 0xC1
            };
            let row: u8;
            let col: u8;
            if 0x40 <= second && second < 0x7F {
                row = pair * 2;
                col = second - 0x40;
            } else if 0x80 <= second && second < 0x9F {
                row = pair * 2;
                col = second - 0x41;
            } else {
                row = pair * 2 + 1;
                col = second - 0x9F;
            }
            let c = lookup(row, col);
            let rest = slice_subrange(bytes, 2, bytes.len());
            (c, Str::from_bytes_unchecked(rest))
        }
    }

    fn char_bound(str: Str<'_, Self>, idx: usize) -> (r: bool) {
        let bytes = str.as_bytes();
        let mut pos: usize = 0;
        proof {
            lemma_walk_start::<Self>(bytes@);
        }
        while pos < idx
            invariant
                bytes@ == str@,
                pos <= idx < bytes@.len(),
                valid::<Self>(bytes@),
                walked::<Self>(bytes@, pos as int),
            decreases bytes@.len() - pos,
        {
            match Self::unit_at(bytes, pos) {
                Ok(width) => {
                    proof {
                        lemma_walk_step::<Self>(bytes@, pos as int);
                    }
                    if idx - pos < width {
                        proof {
                            lemma_inside_char_not_boundary::<Self>(bytes@, pos as int, idx as int);
                        }
                        return false;
                    }
                    pos += width;
                },
                Err(_) => {
                    return false;
                },
            }
        }
        true
    }

    fn char_len(c: char) -> (r: usize) {
        match Self::encode_char(c) {
            Some(b) => {
                let len: usize = array_vec4_as_slice(&b).len();
                len
            },
            None => 0,
        }
    }
}

} // verus!
