//! Walking a string character by character.

use crate::encoding::model::{char_starts, decode, valid, Grammar};
use crate::encoding::Encoding;
use crate::str::Str;
use vstd::prelude::*;

verus! {

/// Character iterator for encoded strings. This walks the encoding, yielding Unicode code
/// points.
pub struct Chars<'a, E: Grammar> {
    str: Str<'a, E>,
}

impl<'a, E: Grammar> Chars<'a, E> {
    /// The bytes that the iterator has not read yet.
    pub closed spec fn view(self) -> Seq<u8> {
        self.str@
    }
}

impl<'a, E: Encoding> Chars<'a, E> {
    /// An iterator over the characters of `str`.
    pub fn new(str: Str<'a, E>) -> (r: Self)
        ensures
            r@ == str@,
    {
        Chars { str }
    }

    /// The string that is left to read.
    pub fn as_str(&self) -> (r: Str<'a, E>)
        ensures
            r@ == self@,
    {
        self.str
    }

    /// Takes the next character off the front, if there is one.
    pub fn next(&mut self) -> (r: Option<char>)
        ensures
            old(self)@.len() == 0 ==> r is None && final(self)@ == old(self)@,
            old(self)@.len() > 0 ==> r == Some(E::first_char(old(self)@)) && 0 < E::char_width(
                old(self)@,
            ) <= old(self)@.len() && final(self)@ == old(self)@.skip(
                E::char_width(old(self)@) as int,
            ),
    {
        if self.str.is_empty() {
            return None;
        }
        let (c, str) = E::decode_char(self.str);
        self.str = str;
        Some(c)
    }

    /// Reads the iterator to its end, and returns the characters in order.
    pub fn collect(self) -> (r: Vec<char>)
        ensures
            r@ == decode::<E>(self@),
    {
        let mut iter = self;
        let mut out: Vec<char> = Vec::new();
        let bytes = iter.str.as_bytes();
        assert(out@ + decode::<E>(iter@) =~= decode::<E>(self@));
        loop
            invariant
                valid::<E>(iter@),
                out@ + decode::<E>(iter@) == decode::<E>(self@),
            decreases iter@.len(),
        {
            let ghost before: Seq<u8> = iter@;
            let ghost so_far: Seq<char> = out@;
            match iter.next() {
                Some(c) => {
                    out.push(c);
                    assert(so_far.push(c) + decode::<E>(iter@) =~= so_far + decode::<E>(before));
                },
                None => {
                    assert(out@ + decode::<E>(iter@) =~= out@);
                    return out;
                },
            }
        }
    }
}

/// Character and index iterator for encoded strings. This walks the encoding, yielding
/// Unicode code points and their byte index in the encoded string.
pub struct CharIndices<'a, E: Grammar> {
    offset: usize,
    iter: Chars<'a, E>,
}

impl<'a, E: Grammar> CharIndices<'a, E> {
    #[verifier::type_invariant]
    spec fn in_range(self) -> bool {
        self.offset + self.iter@.len() <= usize::MAX
    }

    /// The bytes that the iterator has not read yet.
    pub closed spec fn view(self) -> Seq<u8> {
        self.iter@
    }

    /// The byte index of the next character.
    pub closed spec fn offset(self) -> usize {
        self.offset
    }
}

impl<'a, E: Encoding> CharIndices<'a, E> {
    /// An iterator over the characters of `str` and their positions.
    pub fn new(str: Str<'a, E>) -> (r: Self)
        ensures
            r@ == str@,
            r.offset() == 0,
    {
        let len: usize = str.len();
        CharIndices { offset: 0, iter: Chars::new(str) }
    }

    /// Takes the next character off the front, if there is one, and returns it with the
    /// byte index at which it started.
    pub fn next(&mut self) -> (r: Option<(usize, char)>)
        ensures
            old(self)@.len() == 0 ==> r is None && final(self)@ == old(self)@
                && final(self).offset() == old(self).offset(),
            old(self)@.len() > 0 ==> r == Some((old(self).offset(), E::first_char(old(self)@)))
                && 0 < E::char_width(old(self)@) <= old(self)@.len()
                && final(self)@ == old(self)@.skip(E::char_width(old(self)@) as int)
                && final(self).offset() == old(self).offset() + E::char_width(old(self)@),
    {
        proof {
            use_type_invariant(&*self);
        }
        let mut iter = Chars::new(self.iter.as_str());
        let pre_len: usize = iter.as_str().len();
        match iter.next() {
            Some(c) => {
                let offset: usize = self.offset;
                let len: usize = iter.as_str().len();
                *self = CharIndices { offset: offset + (pre_len - len), iter };
                Some((offset, c))
            },
            None => None,
        }
    }

    /// Reads the iterator to its end, and returns the characters in order, each with the
    /// byte index at which it starts.
    pub fn collect(self) -> (r: Vec<(usize, char)>)
        ensures
            r@.len() == decode::<E>(self@).len(),
            forall|i: int|
                0 <= i < r@.len() ==> (#[trigger] r@[i]).0 == char_starts::<E>(
                    self@,
                    self.offset() as int,
                )[i] && r@[i].1 == decode::<E>(self@)[i],
    {
        let mut iter = self;
        let mut out: Vec<(usize, char)> = Vec::new();
        let ghost all_chars: Seq<char> = decode::<E>(self@);
        let ghost all_starts: Seq<int> = char_starts::<E>(self@, self.offset() as int);
        assert(Seq::<char>::empty() + decode::<E>(iter@) =~= all_chars);
        assert(Seq::<int>::empty() + char_starts::<E>(iter@, iter.offset() as int)
            =~= all_starts);
        loop
            invariant
                all_chars == decode::<E>(self@),
                all_starts == char_starts::<E>(self@, self.offset() as int),
                out@.map_values(|p: (usize, char)| p.1) + decode::<E>(iter@) == all_chars,
                out@.map_values(|p: (usize, char)| p.0 as int) + char_starts::<E>(
                    iter@,
                    iter.offset() as int,
                ) == all_starts,
            decreases iter@.len(),
        {
            let ghost before: Seq<u8> = iter@;
            let ghost before_offset: int = iter.offset() as int;
            let ghost so_far: Seq<(usize, char)> = out@;
            match iter.next() {
                Some(item) => {
                    out.push(item);
                    proof {
                        let chars = |p: (usize, char)| p.1;
                        let starts = |p: (usize, char)| p.0 as int;
                        assert(out@.map_values(chars) =~= so_far.map_values(chars).push(item.1));
                        assert(out@.map_values(starts) =~= so_far.map_values(starts).push(
                            item.0 as int,
                        ));
                        assert(so_far.map_values(chars).push(item.1) + decode::<E>(iter@)
                            =~= so_far.map_values(chars) + decode::<E>(before));
                        assert(so_far.map_values(starts).push(item.0 as int) + char_starts::<E>(
                            iter@,
                            iter.offset() as int,
                        ) =~= so_far.map_values(starts) + char_starts::<E>(before, before_offset));
                    }
                },
                None => {
                    proof {
                        let chars = |p: (usize, char)| p.1;
                        let starts = |p: (usize, char)| p.0 as int;
                        assert(out@.map_values(chars) + decode::<E>(iter@) =~= out@.map_values(
                            chars,
                        ));
                        assert(out@.map_values(starts) + char_starts::<E>(
                            iter@,
                            iter.offset() as int,
                        ) =~= out@.map_values(starts));
                        assert forall|i: int| 0 <= i < out@.len() implies (#[trigger] out@[i]).0
                            == all_starts[i] && out@[i].1 == all_chars[i] by {
                            assert(out@.map_values(chars)[i] == out@[i].1);
                            assert(out@.map_values(starts)[i] == out@[i].0 as int);
                        }
                    }
                    return out;
                },
            }
        }
    }
}

} // verus!
