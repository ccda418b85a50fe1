//! Helpers shared by the encodings.

use vstd::prelude::*;

verus! {

broadcast use vstd::slice::group_slice_axioms;

/// The index of the first entry of `table` that equals `c`.
pub open spec fn first_index(table: Seq<char>, c: char) -> Option<usize> {
    match table.index_of_first(c) {
        Some(i) => Some(i as usize),
        None => None,
    }
}

/// What `first_index` finds is in the table, holds `c`, and is the first to do so.
pub proof fn lemma_first_index(table: Seq<char>, c: char)
    requires
        table.len() <= usize::MAX,
    ensures
        match first_index(table, c) {
            Some(i) => i < table.len() && table[i as int] == c && forall|j: int|
                0 <= j < i ==> table[j] != c,
            None => forall|j: int| 0 <= j < table.len() ==> table[j] != c,
        },
{
    table.index_of_first_ensures(c);
}

/// Searches `table` for `c` from the front.
pub fn position(table: &[char], c: char) -> (r: Option<usize>)
    ensures
        r == first_index(table@, c),
{
    let mut i: usize = 0;
    while i < table.len()
        invariant
            i <= table@.len(),
            forall|j: int| 0 <= j < i ==> table@[j] != c,
        decreases table@.len() - i,
    {
        if table[i] == c {
            proof {
                lemma_first_index(table@, c);
            }
            return Some(i);
        }
        i += 1;
    }
    proof {
        lemma_first_index(table@, c);
    }
    None
}

/// Copies `src` over the bytes of `out` that start at `at`.
pub fn copy_into(out: &mut [u8], at: usize, src: &[u8])
    requires
        at + src@.len() <= old(out)@.len(),
    ensures
        final(out)@ == old(out)@.take(at as int) + src@ + old(out)@.skip(at + src@.len()),
{
    let n: usize = src.len();
    let total: usize = out.len();
    let mut i: usize = 0;
    while i < n
        invariant
            i <= n,
            n == src@.len(),
            total == out@.len(),
            at + n <= out@.len(),
            out@.len() == old(out)@.len(),
            forall|j: int| 0 <= j < at ==> out@[j] == old(out)@[j],
            forall|j: int| at <= j < at + i ==> out@[j] == src@[j - at],
            forall|j: int| at + i <= j < out@.len() ==> out@[j] == old(out)@[j],
        decreases n - i,
    {
        out[at + i] = src[i];
        i += 1;
    }
    assert(out@ =~= old(out)@.take(at as int) + src@ + old(out)@.skip(at + src@.len()));
}

/// Adds `extra` zero bytes to the end of `out`.
pub fn grow(out: &mut Vec<u8>, extra: usize)
    ensures
        final(out)@.len() == old(out)@.len() + extra,
        final(out)@.take(old(out)@.len() as int) == old(out)@,
{
    let mut i: usize = 0;
    while i < extra
        invariant
            i <= extra,
            out@.len() == old(out)@.len() + i,
            out@.take(old(out)@.len() as int) == old(out)@,
        decreases extra - i,
    {
        out.push(0);
        i += 1;
        assert(out@.take(old(out)@.len() as int) =~= old(out)@);
    }
}

/// Adds the bytes of `src` to the end of `out`.
pub fn append(out: &mut Vec<u8>, src: &[u8])
    ensures
        final(out)@ == old(out)@ + src@,
{
    let mut i: usize = 0;
    while i < src.len()
        invariant
            i <= src@.len(),
            out@ == old(out)@ + src@.take(i as int),
        decreases src@.len() - i,
    {
        out.push(src[i]);
        i += 1;
        assert(out@ =~= old(out)@ + src@.take(i as int));
    }
    assert(src@.take(src@.len() as int) =~= src@);
}

/// Whether `bytes` starts with `prefix`.
pub fn starts_with(bytes: &[u8], prefix: &[u8]) -> (r: bool)
    ensures
        r == prefix@.is_prefix_of(bytes@),
{
    if prefix.len() > bytes.len() {
        return false;
    }
    let mut i: usize = 0;
    while i < prefix.len()
        invariant
            i <= prefix@.len() <= bytes@.len(),
            forall|j: int| 0 <= j < i ==> bytes@[j] == prefix@[j],
        decreases prefix@.len() - i,
    {
        if bytes[i] != prefix[i] {
            assert(bytes@.subrange(0, prefix@.len() as int)[i as int] != prefix@[i as int]);
            return false;
        }
        i += 1;
    }
    assert(bytes@.subrange(0, prefix@.len() as int) =~= prefix@);
    true
}

/// Whether `bytes` ends with `suffix`.
pub fn ends_with(bytes: &[u8], suffix: &[u8]) -> (r: bool)
    ensures
        r == suffix@.is_suffix_of(bytes@),
{
    if suffix.len() > bytes.len() {
        return false;
    }
    let total: usize = bytes.len();
    let shift: usize = total - suffix.len();
    let mut i: usize = 0;
    while i < suffix.len()
        invariant
            i <= suffix@.len() <= bytes@.len(),
            total == bytes@.len(),
            shift == bytes@.len() - suffix@.len(),
            forall|j: int| 0 <= j < i ==> bytes@[shift + j] == suffix@[j],
        decreases suffix@.len() - i,
    {
        if bytes[shift + i] != suffix[i] {
            assert(bytes@.subrange(shift as int, bytes@.len() as int)[i as int]
                != suffix@[i as int]);
            return false;
        }
        i += 1;
    }
    assert(bytes@.subrange(shift as int, bytes@.len() as int) =~= suffix@);
    true
}

/// The index of the first zero byte of `bytes`.
pub open spec fn first_null(bytes: Seq<u8>) -> Option<usize> {
    match bytes.index_of_first(0u8) {
        Some(i) => Some(i as usize),
        None => None,
    }
}

/// What `first_null` finds is a zero byte with none before it.
pub proof fn lemma_first_null(bytes: Seq<u8>)
    requires
        bytes.len() <= usize::MAX,
    ensures
        match first_null(bytes) {
            Some(i) => i < bytes.len() && bytes[i as int] == 0 && forall|j: int|
                0 <= j < i ==> bytes[j] != 0,
            None => forall|j: int| 0 <= j < bytes.len() ==> bytes[j] != 0,
        },
{
    bytes.index_of_first_ensures(0u8);
}

/// Searches `bytes` for a zero byte from the front.
pub fn find_null(bytes: &[u8]) -> (r: Option<usize>)
    ensures
        r == first_null(bytes@),
{
    let mut i: usize = 0;
    while i < bytes.len()
        invariant
            i <= bytes@.len(),
            forall|j: int| 0 <= j < i ==> bytes@[j] != 0,
        decreases bytes@.len() - i,
    {
        if bytes[i] == 0 {
            proof {
                lemma_first_null(bytes@);
            }
            return Some(i);
        }
        i += 1;
    }
    proof {
        lemma_first_null(bytes@);
    }
    None
}

} // verus!
