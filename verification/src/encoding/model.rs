//! The mathematical model shared by every encoding.
//!
//! An encoding is described by what stands at the front of a byte sequence: the width of the
//! first character and the character itself. Everything else (which buffers are valid, what
//! they decode to, where their character boundaries lie) is defined here once, by walking a
//! buffer one character at a time.

use crate::encoding::sealed::Sealed;
use crate::encoding::RecodeCause;
use vstd::prelude::*;

verus! {

/// The byte-level grammar of one encoding.
pub trait Grammar: Sealed {
    /// The character that lossy conversions write in place of one they cannot represent.
    const REPLACEMENT: char;

    /// The largest number of bytes that one encoded character occupies.
    const MAX_LEN: usize;

    /// Width in bytes of the character at the front of `bytes`, or zero where `bytes` does not
    /// start with a complete, well-formed character.
    spec fn char_width(bytes: Seq<u8>) -> nat;

    /// The character at the front of `bytes`. Meaningful where `char_width(bytes)` is not zero.
    spec fn first_char(bytes: Seq<u8>) -> char;

    /// The bytes that represent `c`, or `None` where the encoding has no representation of it.
    spec fn encoding(c: char) -> Option<Seq<u8>>;

    /// The width that validation reports for the malformed unit at the front of `bytes`, or
    /// `None` where that unit is cut off by the end of the buffer. Meaningful where `bytes` is
    /// not empty and `char_width(bytes)` is zero.
    spec fn defect_len(bytes: Seq<u8>) -> Option<u8>;

    /// A character never extends past the buffer nor past `MAX_LEN`.
    proof fn lemma_width_bounds(bytes: Seq<u8>)
        ensures
            Self::char_width(bytes) <= bytes.len(),
            Self::char_width(bytes) <= Self::MAX_LEN,
    ;

    /// The first character depends on nothing but its own bytes.
    proof fn lemma_width_local(a: Seq<u8>, b: Seq<u8>)
        requires
            Self::char_width(a) > 0,
            Self::char_width(a) <= b.len(),
            a.take(Self::char_width(a) as int) == b.take(Self::char_width(a) as int),
        ensures
            Self::char_width(b) == Self::char_width(a),
            Self::first_char(b) == Self::first_char(a),
    ;

    /// A reported defect lies inside the buffer.
    proof fn lemma_defect_bounds(bytes: Seq<u8>)
        ensures
            bytes.len() > 0 && Self::char_width(bytes) == 0 ==> (Self::defect_len(
                bytes,
            ) matches Some(n) ==> 1 <= n <= bytes.len()),
    ;

    /// What `encoding` produces reads back as the same single character.
    proof fn lemma_round_trip(c: char)
        ensures
            Self::encoding(c) matches Some(b) ==> b.len() > 0 && Self::char_width(b) == b.len()
                && Self::first_char(b) == c,
    ;

    /// The replacement character is representable.
    proof fn lemma_replacement()
        ensures
            Self::encoding(Self::REPLACEMENT) is Some,
    ;
}

/// A character and its code point determine each other.
pub proof fn lemma_char_code(c: char)
    ensures
        (c as u32) as char == c,
        c as u32 <= 0x10FFFF,
        !(0xD800 <= c as u32 <= 0xDFFF),
        c as u32 <= 255 ==> (c as u8) as char == c && (c as u8) as u32 == c as u32,
        (c == '\0') == (c as u32 == 0),
{
    vstd::utf8::char_u32_cast(c, c as u32);
    vstd::utf8::char_u32_cast('\0', 0u32);
}

/// Two sequences with the same first `w` elements agree on each of them.
pub proof fn lemma_same_prefix(a: Seq<u8>, b: Seq<u8>, w: int)
    requires
        0 <= w <= a.len(),
        w <= b.len(),
        a.take(w) == b.take(w),
    ensures
        forall|j: int| 0 <= j < w ==> a[j] == b[j],
{
    assert forall|j: int| 0 <= j < w implies a[j] == b[j] by {
        assert(a.take(w)[j] == a[j]);
        assert(b.take(w)[j] == b[j]);
    }
}

/// Whether `s` is a well-formed sequence of complete characters.
pub open spec fn valid<G: Grammar>(s: Seq<u8>) -> bool
    decreases s.len(),
{
    s.len() == 0 || {
        let w: nat = G::char_width(s);
        0 < w <= s.len() && valid::<G>(s.skip(w as int))
    }
}

/// Length of the longest prefix of `s` that is made of complete, well-formed characters.
pub open spec fn valid_prefix_len<G: Grammar>(s: Seq<u8>) -> nat
    decreases s.len(),
{
    if s.len() == 0 {
        0
    } else {
        let w: nat = G::char_width(s);
        if 0 < w <= s.len() {
            w + valid_prefix_len::<G>(s.skip(w as int))
        } else {
            0
        }
    }
}

/// The characters of the longest well-formed prefix of `s`, in order.
pub open spec fn decode<G: Grammar>(s: Seq<u8>) -> Seq<char>
    decreases s.len(),
{
    if s.len() == 0 {
        Seq::empty()
    } else {
        let w: nat = G::char_width(s);
        if 0 < w <= s.len() {
            seq![G::first_char(s)] + decode::<G>(s.skip(w as int))
        } else {
            Seq::empty()
        }
    }
}

/// The byte offsets at which the characters of the longest well-formed prefix of `s` start,
/// each counted from `base`.
pub open spec fn char_starts<G: Grammar>(s: Seq<u8>, base: int) -> Seq<int>
    decreases s.len(),
{
    if s.len() == 0 {
        Seq::empty()
    } else {
        let w: nat = G::char_width(s);
        if 0 < w <= s.len() {
            seq![base] + char_starts::<G>(s.skip(w as int), base + w)
        } else {
            Seq::empty()
        }
    }
}

/// Whether offset `i` of `s` is reached by walking `s` one character at a time. Offset zero
/// always is; the end of a valid buffer is too.
pub open spec fn is_boundary<G: Grammar>(s: Seq<u8>, i: int) -> bool
    decreases s.len(),
{
    if i == 0 {
        true
    } else if i < 0 || i > s.len() {
        false
    } else {
        let w: nat = G::char_width(s);
        0 < w <= i && is_boundary::<G>(s.skip(w as int), i - w)
    }
}

/// The encoding of a whole sequence of characters, or `None` where one of them has none.
pub open spec fn encode_all<G: Grammar>(chars: Seq<char>) -> Option<Seq<u8>>
    decreases chars.len(),
{
    if chars.len() == 0 {
        Some(Seq::empty())
    } else {
        match (G::encoding(chars[0]), encode_all::<G>(chars.drop_first())) {
            (Some(head), Some(tail)) => Some(head + tail),
            _ => None,
        }
    }
}

/// The bytes that stand for `c` in a lossy conversion: its own encoding where it has one,
/// that of the replacement character where it has none.
pub open spec fn lossy_encoding<G: Grammar>(c: char) -> Seq<u8> {
    match G::encoding(c) {
        Some(b) => b,
        None => G::encoding(G::REPLACEMENT).unwrap(),
    }
}

/// The lossy encoding of a whole sequence of characters.
pub open spec fn encode_all_lossy<G: Grammar>(chars: Seq<char>) -> Seq<u8>
    decreases chars.len(),
{
    if chars.len() == 0 {
        Seq::empty()
    } else {
        lossy_encoding::<G>(chars[0]) + encode_all_lossy::<G>(chars.drop_first())
    }
}

/// Number of bytes that the malformed unit behind the longest well-formed prefix of `s`
/// covers: none where `s` is valid, the rest of `s` where the unit is cut off by its end.
pub open spec fn defect_span<G: Grammar>(s: Seq<u8>) -> nat {
    let k: nat = valid_prefix_len::<G>(s);
    if k >= s.len() {
        0
    } else {
        match G::defect_len(s.skip(k as int)) {
            Some(n) => n as nat,
            None => (s.len() - k) as nat,
        }
    }
}

/// The bytes that take the place of a malformed buffer in a lossy conversion: every
/// well-formed stretch is kept, and every malformed unit becomes one replacement character.
pub open spec fn repaired<G: Grammar>(s: Seq<u8>) -> Seq<u8>
    decreases s.len(),
{
    let k: nat = valid_prefix_len::<G>(s);
    let span: nat = defect_span::<G>(s);
    if k >= s.len() {
        s
    } else if span == 0 || k + span > s.len() {
        s.take(k as int) + G::encoding(G::REPLACEMENT).unwrap()
    } else {
        s.take(k as int) + G::encoding(G::REPLACEMENT).unwrap() + repaired::<G>(
            s.skip((k + span) as int),
        )
    }
}

/// The malformed unit behind the longest well-formed prefix of an invalid buffer is not
/// empty and lies inside the buffer.
pub proof fn lemma_defect_span<G: Grammar>(s: Seq<u8>)
    ensures
        valid_prefix_len::<G>(s) <= s.len(),
        valid_prefix_len::<G>(s) + defect_span::<G>(s) <= s.len(),
        valid::<G>(s) <==> defect_span::<G>(s) == 0,
        valid::<G>(s) <==> valid_prefix_len::<G>(s) == s.len(),
        valid::<G>(s.take(valid_prefix_len::<G>(s) as int)),
{
    lemma_valid_iff_prefix_is_all::<G>(s);
    lemma_prefix_valid::<G>(s);
    let k: nat = valid_prefix_len::<G>(s);
    if k < s.len() {
        lemma_prefix_stops::<G>(s);
        G::lemma_defect_bounds(s.skip(k as int));
    }
}

/// Behind the longest well-formed prefix of an invalid buffer stands no character.
pub proof fn lemma_prefix_stops<G: Grammar>(s: Seq<u8>)
    requires
        valid_prefix_len::<G>(s) < s.len(),
    ensures
        G::char_width(s.skip(valid_prefix_len::<G>(s) as int)) == 0,
    decreases s.len(),
{
    let w: nat = G::char_width(s);
    G::lemma_width_bounds(s);
    if 0 < w <= s.len() {
        let rest: Seq<u8> = s.skip(w as int);
        lemma_prefix_stops::<G>(rest);
        assert(rest.skip(valid_prefix_len::<G>(rest) as int) =~= s.skip(
            valid_prefix_len::<G>(s) as int,
        ));
    } else {
        assert(s.skip(0) =~= s);
    }
}

/// A walk has reached offset `i` of `s`: everything before `i` is well-formed, and the
/// verdict on `s` is the verdict on what remains.
pub open spec fn walked<G: Grammar>(s: Seq<u8>, i: int) -> bool {
    &&& 0 <= i <= s.len()
    &&& valid_prefix_len::<G>(s) == i + valid_prefix_len::<G>(s.skip(i))
    &&& valid::<G>(s) == valid::<G>(s.skip(i))
    &&& valid::<G>(s.take(i))
    &&& is_boundary::<G>(s, i)
}

pub proof fn lemma_walk_start<G: Grammar>(s: Seq<u8>)
    ensures
        walked::<G>(s, 0),
{
    assert(s.skip(0) =~= s);
    assert(s.take(0) =~= Seq::<u8>::empty());
}

/// One more well-formed character extends a valid prefix.
pub proof fn lemma_valid_push_char<G: Grammar>(a: Seq<u8>, b: Seq<u8>)
    requires
        valid::<G>(a),
        b.len() > 0,
        G::char_width(b) == b.len(),
    ensures
        valid::<G>(a + b),
        decode::<G>(a + b) == decode::<G>(a).push(G::first_char(b)),
        valid_prefix_len::<G>(a + b) == a.len() + b.len(),
    decreases a.len(),
{
    if a.len() == 0 {
        assert(a + b =~= b);
        let end: Seq<u8> = b.skip(b.len() as int);
        assert(end =~= Seq::<u8>::empty());
        assert(valid::<G>(end));
        assert(decode::<G>(end) =~= Seq::<char>::empty());
        assert(valid_prefix_len::<G>(end) == 0);
        assert(decode::<G>(b) =~= seq![G::first_char(b)]);
        assert(decode::<G>(a) =~= Seq::<char>::empty());
        assert(decode::<G>(a).push(G::first_char(b)) =~= seq![G::first_char(b)]);
    } else {
        let w: nat = G::char_width(a);
        assert((a + b).take(w as int) =~= a.take(w as int));
        G::lemma_width_local(a, a + b);
        assert((a + b).skip(w as int) =~= a.skip(w as int) + b);
        lemma_valid_push_char::<G>(a.skip(w as int), b);
        assert(decode::<G>(a + b) =~= decode::<G>(a).push(G::first_char(b)));
    }
}

/// The walk moves over one well-formed character.
pub proof fn lemma_walk_step<G: Grammar>(s: Seq<u8>, i: int)
    requires
        walked::<G>(s, i),
        G::char_width(s.skip(i)) > 0,
    ensures
        walked::<G>(s, i + G::char_width(s.skip(i))),
        i + G::char_width(s.skip(i)) <= s.len(),
{
    let rest: Seq<u8> = s.skip(i);
    let w: nat = G::char_width(rest);
    G::lemma_width_bounds(rest);
    assert(rest.skip(w as int) =~= s.skip(i + w));
    let unit: Seq<u8> = rest.take(w as int);
    assert(unit.take(w as int) =~= unit);
    G::lemma_width_local(rest, unit);
    lemma_valid_push_char::<G>(s.take(i), unit);
    assert(s.take(i) + unit =~= s.take(i + w));
    lemma_boundary_extend::<G>(s, i, w);
}

/// A boundary followed by a well-formed character leads to the next boundary.
pub proof fn lemma_boundary_extend<G: Grammar>(s: Seq<u8>, i: int, w: nat)
    requires
        0 <= i <= s.len(),
        is_boundary::<G>(s, i),
        w == G::char_width(s.skip(i)),
        0 < w,
        i + w <= s.len(),
    ensures
        is_boundary::<G>(s, i + w),
    decreases i,
{
    if i == 0 {
        assert(s.skip(0) =~= s);
        assert(is_boundary::<G>(s.skip(w as int), 0));
    } else {
        let w0: nat = G::char_width(s);
        assert(s.skip(w0 as int).skip(i - w0) =~= s.skip(i));
        lemma_boundary_extend::<G>(s.skip(w0 as int), i - w0, w);
    }
}

/// The walk stops at a malformed unit.
pub proof fn lemma_walk_stop<G: Grammar>(s: Seq<u8>, i: int)
    requires
        walked::<G>(s, i),
        i < s.len(),
        G::char_width(s.skip(i)) == 0,
    ensures
        !valid::<G>(s),
        valid_prefix_len::<G>(s) == i,
{
}

/// The walk has consumed the whole buffer.
pub proof fn lemma_walk_done<G: Grammar>(s: Seq<u8>)
    requires
        walked::<G>(s, s.len() as int),
    ensures
        valid::<G>(s),
        valid_prefix_len::<G>(s) == s.len(),
{
    assert(s.skip(s.len() as int) =~= Seq::<u8>::empty());
}

/// A buffer is valid exactly when its longest well-formed prefix is the whole of it.
pub proof fn lemma_valid_iff_prefix_is_all<G: Grammar>(s: Seq<u8>)
    ensures
        valid::<G>(s) <==> valid_prefix_len::<G>(s) == s.len(),
        valid_prefix_len::<G>(s) <= s.len(),
    decreases s.len(),
{
    if s.len() > 0 {
        let w: nat = G::char_width(s);
        if 0 < w <= s.len() {
            lemma_valid_iff_prefix_is_all::<G>(s.skip(w as int));
        }
    }
}

/// The longest well-formed prefix is itself valid, is a boundary, and decodes to the
/// characters that a walk of the whole buffer meets before it stops.
pub proof fn lemma_prefix_valid<G: Grammar>(s: Seq<u8>)
    ensures
        valid_prefix_len::<G>(s) <= s.len(),
        valid::<G>(s.take(valid_prefix_len::<G>(s) as int)),
        decode::<G>(s.take(valid_prefix_len::<G>(s) as int)) == decode::<G>(s),
        is_boundary::<G>(s, valid_prefix_len::<G>(s) as int),
    decreases s.len(),
{
    let k: nat = valid_prefix_len::<G>(s);
    if s.len() == 0 {
        assert(s.take(0) =~= s);
    } else {
        let w: nat = G::char_width(s);
        if 0 < w <= s.len() {
            let rest: Seq<u8> = s.skip(w as int);
            lemma_prefix_valid::<G>(rest);
            let kr: nat = valid_prefix_len::<G>(rest);
            let p: Seq<u8> = s.take(k as int);
            assert(p.take(w as int) =~= s.take(w as int));
            G::lemma_width_local(s, p);
            assert(p.skip(w as int) =~= rest.take(kr as int));
        } else {
            assert(s.take(0) =~= Seq::<u8>::empty());
        }
    }
}

/// A valid buffer ends on a boundary.
pub proof fn lemma_end_is_boundary<G: Grammar>(s: Seq<u8>)
    requires
        valid::<G>(s),
    ensures
        is_boundary::<G>(s, s.len() as int),
{
    lemma_valid_iff_prefix_is_all::<G>(s);
    lemma_prefix_valid::<G>(s);
}

/// Cutting a valid buffer at a boundary leaves two valid buffers, and the characters of the
/// whole are those of the two parts.
pub proof fn lemma_split_at_boundary<G: Grammar>(s: Seq<u8>, i: int)
    requires
        valid::<G>(s),
        is_boundary::<G>(s, i),
    ensures
        0 <= i <= s.len(),
        valid::<G>(s.take(i)),
        valid::<G>(s.skip(i)),
        decode::<G>(s) == decode::<G>(s.take(i)) + decode::<G>(s.skip(i)),
    decreases s.len(),
{
    if i == 0 {
        assert(s.take(0) =~= Seq::<u8>::empty());
        assert(s.skip(0) =~= s);
        assert(decode::<G>(s.take(0)) + decode::<G>(s) =~= decode::<G>(s));
    } else {
        let w: nat = G::char_width(s);
        let rest: Seq<u8> = s.skip(w as int);
        lemma_split_at_boundary::<G>(rest, i - w);
        let p: Seq<u8> = s.take(i);
        assert(p.take(w as int) =~= s.take(w as int));
        G::lemma_width_local(s, p);
        assert(p.skip(w as int) =~= rest.take(i - w));
        assert(rest.skip(i - w) =~= s.skip(i));
        assert(decode::<G>(s) =~= decode::<G>(p) + decode::<G>(s.skip(i)));
    }
}

/// Two valid buffers joined make a valid buffer, with the characters of both.
pub proof fn lemma_valid_concat<G: Grammar>(a: Seq<u8>, b: Seq<u8>)
    requires
        valid::<G>(a),
        valid::<G>(b),
    ensures
        valid::<G>(a + b),
        decode::<G>(a + b) == decode::<G>(a) + decode::<G>(b),
        is_boundary::<G>(a + b, a.len() as int),
    decreases a.len(),
{
    if a.len() == 0 {
        assert(a + b =~= b);
        assert(decode::<G>(a) + decode::<G>(b) =~= decode::<G>(b));
    } else {
        let w: nat = G::char_width(a);
        assert((a + b).take(w as int) =~= a.take(w as int));
        G::lemma_width_local(a, a + b);
        assert((a + b).skip(w as int) =~= a.skip(w as int) + b);
        lemma_valid_concat::<G>(a.skip(w as int), b);
        assert(decode::<G>(a + b) =~= decode::<G>(a) + decode::<G>(b));
    }
}

/// Seen from a boundary `a`, the boundaries of `s` behind it are those of what follows `a`.
pub proof fn lemma_boundary_shift<G: Grammar>(s: Seq<u8>, a: int, b: int)
    requires
        is_boundary::<G>(s, a),
        0 <= a <= b,
        a <= s.len(),
    ensures
        is_boundary::<G>(s, b) <==> is_boundary::<G>(s.skip(a), b - a),
    decreases a,
{
    if a == 0 {
        assert(s.skip(0) =~= s);
    } else {
        let w: nat = G::char_width(s);
        assert(s.skip(w as int).skip(a - w) =~= s.skip(a));
        lemma_boundary_shift::<G>(s.skip(w as int), a - w, b - w);
        if b > s.len() {
            assert(!is_boundary::<G>(s, b));
            assert(!is_boundary::<G>(s.skip(a), b - a));
        }
    }
}

/// No boundary lies strictly inside a character.
pub proof fn lemma_inside_char_not_boundary<G: Grammar>(s: Seq<u8>, a: int, i: int)
    requires
        is_boundary::<G>(s, a),
        0 <= a <= s.len(),
        a < i < a + G::char_width(s.skip(a)),
    ensures
        !is_boundary::<G>(s, i),
{
    lemma_boundary_shift::<G>(s, a, i);
}

/// The stretch of a valid buffer between two of its boundaries is valid.
pub proof fn lemma_subrange_valid<G: Grammar>(s: Seq<u8>, a: int, b: int)
    requires
        valid::<G>(s),
        is_boundary::<G>(s, a),
        is_boundary::<G>(s, b),
        a <= b,
    ensures
        0 <= a <= b <= s.len(),
        valid::<G>(s.subrange(a, b)),
{
    lemma_split_at_boundary::<G>(s, a);
    lemma_split_at_boundary::<G>(s, b);
    lemma_boundary_shift::<G>(s, a, b);
    lemma_split_at_boundary::<G>(s.skip(a), b - a);
    assert(s.skip(a).take(b - a) =~= s.subrange(a, b));
}

/// In a grammar whose characters all have the same width, the boundaries of a valid buffer
/// are the multiples of that width.
pub proof fn lemma_fixed_width_boundaries<G: Grammar>(s: Seq<u8>, i: int, n: nat)
    requires
        valid::<G>(s),
        n > 0,
        forall|t: Seq<u8>| #[trigger] G::char_width(t) == 0 || G::char_width(t) == n,
    ensures
        is_boundary::<G>(s, i) <==> (0 <= i <= s.len() && i % (n as int) == 0),
        s.len() % n == 0,
    decreases s.len(),
{
    if s.len() > 0 {
        let w: nat = G::char_width(s);
        lemma_fixed_width_boundaries::<G>(s.skip(w as int), i - n, n);
        assert((s.len() - n) % (n as int) == 0 ==> s.len() % n == 0) by (nonlinear_arith)
            requires
                n > 0,
                s.len() >= n,
        ;
        assert(((i - n) % (n as int) == 0) == (i % (n as int) == 0)) by (nonlinear_arith)
            requires
                n > 0,
        ;
        assert(0 < i < n ==> i % (n as int) != 0) by (nonlinear_arith)
            requires
                n > 0,
        ;
    } else {
        assert(0int % (n as int) == 0) by (nonlinear_arith)
            requires
                n > 0,
        ;
    }
}

/// The start offsets of the characters of a valid buffer are its boundaries short of the end.
pub proof fn lemma_char_starts_are_boundaries<G: Grammar>(s: Seq<u8>, base: int, i: int)
    requires
        valid::<G>(s),
    ensures
        char_starts::<G>(s, base).contains(base + i) <==> (is_boundary::<G>(s, i) && 0 <= i
            < s.len()),
        char_starts::<G>(s, base).len() == decode::<G>(s).len(),
        forall|k: int|
            0 <= k < char_starts::<G>(s, base).len() ==> base <= #[trigger] char_starts::<G>(
                s,
                base,
            )[k] < base + s.len(),
    decreases s.len(),
{
    if s.len() > 0 {
        let w: nat = G::char_width(s);
        let rest: Seq<u8> = s.skip(w as int);
        let tail: Seq<int> = char_starts::<G>(rest, base + w);
        let all: Seq<int> = char_starts::<G>(s, base);
        lemma_char_starts_are_boundaries::<G>(rest, base + w, i - w);
        assert(all =~= seq![base] + tail);
        assert forall|k: int| 0 <= k < all.len() implies base <= #[trigger] all[k] < base
            + s.len() by {
            if k > 0 {
                assert(all[k] == tail[k - 1]);
            }
        }
        if i == 0 {
            assert(all[0] == base);
        } else if all.contains(base + i) {
            let k: int = choose|k: int| 0 <= k < all.len() && all[k] == base + i;
            assert(k > 0);
            assert(tail[k - 1] == base + i);
        } else if is_boundary::<G>(s, i) && 0 <= i < s.len() {
            let k: int = choose|k: int| 0 <= k < tail.len() && tail[k] == base + w + (i - w);
            assert(all[k + 1] == base + i);
        }
    }
}

/// Offset of the first character of `src`, read in the grammar `S`, that the grammar `D`
/// cannot represent; `None` where it can represent them all.
pub open spec fn first_unencodable<S: Grammar, D: Grammar>(src: Seq<u8>) -> Option<nat>
    decreases src.len(),
{
    if src.len() == 0 {
        None
    } else {
        let w: nat = S::char_width(src);
        if !(0 < w <= src.len()) {
            None
        } else if D::encoding(S::first_char(src)) is None {
            Some(0nat)
        } else {
            match first_unencodable::<S, D>(src.skip(w as int)) {
                Some(k) => Some(w + k),
                None => None,
            }
        }
    }
}

/// What converting `src` from the grammar `S` to the grammar `D` comes to, character by
/// character, with room for `space` bytes: the number of source bytes consumed, the bytes
/// written, and why the conversion stopped before the end, if it did. It stops at the first
/// character that `D` cannot represent, or whose bytes no longer fit.
pub open spec fn recode_spec<S: Grammar, D: Grammar>(src: Seq<u8>, space: nat) -> (
    nat,
    Seq<u8>,
    Option<RecodeCause>,
)
    decreases src.len(),
{
    if src.len() == 0 {
        (0, Seq::empty(), None)
    } else {
        let w: nat = S::char_width(src);
        let c: char = S::first_char(src);
        if !(0 < w <= src.len()) {
            (0, Seq::empty(), None)
        } else {
            match D::encoding(c) {
                None => (
                    0,
                    Seq::empty(),
                    Some((RecodeCause::InvalidChar { char: c, len: w as usize })),
                ),
                Some(b) => if b.len() > space {
                    (0, Seq::empty(), Some((RecodeCause::NeedSpace { len: b.len() as usize })))
                } else {
                    let then = recode_spec::<S, D>(src.skip(w as int), (space - b.len()) as nat);
                    (w + then.0, b + then.1, then.2)
                },
            }
        }
    }
}

/// The encoding of one character is a valid buffer that holds that character.
pub proof fn lemma_encoding_valid<G: Grammar>(c: char)
    requires
        G::encoding(c) is Some,
    ensures
        valid::<G>(G::encoding(c).unwrap()),
        decode::<G>(G::encoding(c).unwrap()) == seq![c],
        0 < G::encoding(c).unwrap().len() <= G::MAX_LEN,
{
    let b: Seq<u8> = G::encoding(c).unwrap();
    G::lemma_round_trip(c);
    G::lemma_width_bounds(b);
    lemma_valid_push_char::<G>(Seq::empty(), b);
    assert(Seq::<u8>::empty() + b =~= b);
    assert(decode::<G>(Seq::<u8>::empty()).push(c) =~= seq![c]);
}

/// The encoding of a sequence of characters is that of its parts, joined.
pub proof fn lemma_encode_all_concat<G: Grammar>(a: Seq<char>, b: Seq<char>)
    ensures
        encode_all::<G>(a + b) == match (encode_all::<G>(a), encode_all::<G>(b)) {
            (Some(x), Some(y)) => Some(x + y),
            _ => None,
        },
        encode_all_lossy::<G>(a + b) == encode_all_lossy::<G>(a) + encode_all_lossy::<G>(b),
    decreases a.len(),
{
    if a.len() == 0 {
        assert(a + b =~= b);
        assert(encode_all_lossy::<G>(a) + encode_all_lossy::<G>(b) =~= encode_all_lossy::<G>(b));
        if encode_all::<G>(b) is Some {
            assert(Seq::<u8>::empty() + encode_all::<G>(b).unwrap() =~= encode_all::<G>(
                b,
            ).unwrap());
        }
    } else {
        assert((a + b).drop_first() =~= a.drop_first() + b);
        lemma_encode_all_concat::<G>(a.drop_first(), b);
        let head: Seq<u8> = lossy_encoding::<G>(a[0]);
        assert(head + (encode_all_lossy::<G>(a.drop_first()) + encode_all_lossy::<G>(b)) =~= (head
            + encode_all_lossy::<G>(a.drop_first())) + encode_all_lossy::<G>(b));
        match (G::encoding(a[0]), encode_all::<G>(a.drop_first()), encode_all::<G>(b)) {
            (Some(h), Some(x), Some(y)) => {
                assert(h + (x + y) =~= (h + x) + y);
            },
            _ => {},
        }
    }
}

/// What a strict encoding of a sequence of characters gives is a valid buffer that decodes to
/// the same characters, and is what the lossy encoding gives too.
pub proof fn lemma_encode_all_valid<G: Grammar>(chars: Seq<char>)
    requires
        encode_all::<G>(chars) is Some,
    ensures
        valid::<G>(encode_all::<G>(chars).unwrap()),
        decode::<G>(encode_all::<G>(chars).unwrap()) == chars,
        encode_all_lossy::<G>(chars) == encode_all::<G>(chars).unwrap(),
    decreases chars.len(),
{
    if chars.len() == 0 {
        assert(decode::<G>(Seq::<u8>::empty()) =~= chars);
    } else {
        let head: Seq<u8> = G::encoding(chars[0]).unwrap();
        let tail: Seq<u8> = encode_all::<G>(chars.drop_first()).unwrap();
        lemma_encode_all_valid::<G>(chars.drop_first());
        lemma_encoding_valid::<G>(chars[0]);
        lemma_valid_concat::<G>(head, tail);
        assert(seq![chars[0]] + chars.drop_first() =~= chars);
    }
}

/// The lossy encoding of a sequence of characters is a valid buffer, as long as the sum of
/// the lengths that the characters take: their own, or that of the replacement character.
pub proof fn lemma_encode_all_lossy_valid<G: Grammar>(chars: Seq<char>)
    ensures
        valid::<G>(encode_all_lossy::<G>(chars)),
        encode_all_lossy::<G>(chars).len() == lossy_len::<G>(chars),
        decode::<G>(encode_all_lossy::<G>(chars)).len() == chars.len(),
    decreases chars.len(),
{
    if chars.len() > 0 {
        let head: Seq<u8> = lossy_encoding::<G>(chars[0]);
        let tail: Seq<u8> = encode_all_lossy::<G>(chars.drop_first());
        lemma_encode_all_lossy_valid::<G>(chars.drop_first());
        G::lemma_replacement();
        if G::encoding(chars[0]) is Some {
            lemma_encoding_valid::<G>(chars[0]);
        } else {
            lemma_encoding_valid::<G>(G::REPLACEMENT);
        }
        lemma_valid_concat::<G>(head, tail);
    }
}

/// The sum, over `chars`, of the number of bytes that each takes in a lossy encoding.
pub open spec fn lossy_len<G: Grammar>(chars: Seq<char>) -> nat
    decreases chars.len(),
{
    if chars.len() == 0 {
        0
    } else {
        lossy_encoding::<G>(chars[0]).len() + lossy_len::<G>(chars.drop_first())
    }
}

/// What a conversion has done when it stops: it has consumed whole characters only, all of
/// which the target can represent; what it wrote is their encoding, a valid buffer of its
/// own; and it names the character at which it stopped.
pub proof fn lemma_recode_progress<S: Grammar, D: Grammar>(src: Seq<u8>, space: nat)
    requires
        valid::<S>(src),
    ensures
        ({
            let done = recode_spec::<S, D>(src, space);
            let used: int = done.0 as int;
            let written: Seq<u8> = done.1;
            let left: Seq<u8> = src.skip(used);
            &&& used <= src.len()
            &&& is_boundary::<S>(src, used)
            &&& valid::<S>(left)
            &&& written.len() <= space
            &&& valid::<D>(written)
            &&& decode::<D>(written) == decode::<S>(src.take(used))
            &&& decode::<S>(src) == decode::<S>(src.take(used)) + decode::<S>(left)
            &&& encode_all::<D>(decode::<S>(src.take(used))) == Some(written)
            &&& first_unencodable::<S, D>(src) == match first_unencodable::<S, D>(left) {
                Some(k) => Some((used + k) as nat),
                None => None,
            }
            &&& match done.2 {
                None => used == src.len(),
                Some(RecodeCause::InvalidChar { char, len }) => {
                    &&& used < src.len()
                    &&& char == S::first_char(left)
                    &&& len == S::char_width(left)
                    &&& 0 < len <= left.len()
                    &&& D::encoding(char) is None
                },
                Some(RecodeCause::NeedSpace { len }) => {
                    &&& used < src.len()
                    &&& D::encoding(S::first_char(left)) matches Some(b) && b.len() == len
                    &&& written.len() + len > space
                },
            }
        }),
    decreases src.len(),
{
    assert(src.skip(0) =~= src);
    assert(src.take(0) =~= Seq::<u8>::empty());
    assert(decode::<S>(Seq::<u8>::empty()) + decode::<S>(src) =~= decode::<S>(src));
    if src.len() > 0 {
        let w: nat = S::char_width(src);
        let c: char = S::first_char(src);
        S::lemma_width_bounds(src);
        match D::encoding(c) {
            None => {},
            Some(b) => {
                lemma_encoding_valid::<D>(c);
                if b.len() <= space {
                    let rest: Seq<u8> = src.skip(w as int);
                    let then = recode_spec::<S, D>(rest, (space - b.len()) as nat);
                    lemma_recode_progress::<S, D>(rest, (space - b.len()) as nat);
                    let used: int = (w + then.0) as int;
                    let head: Seq<u8> = src.take(used);
                    assert(head.take(w as int) =~= src.take(w as int));
                    S::lemma_width_local(src, head);
                    assert(head.skip(w as int) =~= rest.take(then.0 as int));
                    assert(rest.skip(then.0 as int) =~= src.skip(used));
                    lemma_valid_concat::<D>(b, then.1);
                    assert(decode::<S>(head) =~= seq![c] + decode::<S>(rest.take(then.0 as int)));
                    assert(decode::<S>(head).drop_first() =~= decode::<S>(
                        rest.take(then.0 as int),
                    ));
                    assert(decode::<S>(src) =~= decode::<S>(head) + decode::<S>(src.skip(used)));
                }
            },
        }
    }
}

/// A conversion meets no character that the target cannot represent exactly when the whole
/// sequence of characters has an encoding in the target.
pub proof fn lemma_first_unencodable<S: Grammar, D: Grammar>(src: Seq<u8>)
    requires
        valid::<S>(src),
    ensures
        first_unencodable::<S, D>(src) is None <==> encode_all::<D>(decode::<S>(src)) is Some,
        first_unencodable::<S, D>(src) matches Some(k) ==> k < src.len() && is_boundary::<S>(
            src,
            k as int,
        ) && D::encoding(S::first_char(src.skip(k as int))) is None,
    decreases src.len(),
{
    assert(src.skip(0) =~= src);
    if src.len() > 0 {
        let w: nat = S::char_width(src);
        let rest: Seq<u8> = src.skip(w as int);
        lemma_first_unencodable::<S, D>(rest);
        assert(decode::<S>(src).drop_first() =~= decode::<S>(rest));
        if D::encoding(S::first_char(src)) is Some {
            match first_unencodable::<S, D>(rest) {
                Some(k) => {
                    assert(rest.skip(k as int) =~= src.skip((w + k) as int));
                },
                None => {},
            }
        }
    }
}

} // verus!
