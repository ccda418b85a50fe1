//! Cutting a buffer into its well-formed stretches and the malformed units between them.

use crate::encoding::model::{
    defect_span, lemma_defect_span, valid, valid_prefix_len, Grammar,
};
use crate::encoding::Encoding;
use crate::str::Str;
use vstd::prelude::*;
use vstd::slice::slice_subrange;

verus! {

broadcast use vstd::slice::group_slice_axioms;

/// An iterator over the chunks of a buffer: each chunk is a well-formed stretch and the
/// malformed unit behind it.
pub struct EncodedChunks<'a, E: Grammar> {
    src: &'a [u8],
    encoding: core::marker::PhantomData<E>,
}

/// One chunk of a buffer: a valid string, and the malformed bytes that follow it.
pub struct EncodedChunk<'a, E: Grammar> {
    valid: Str<'a, E>,
    invalid: &'a [u8],
}

impl<'a, E: Grammar> EncodedChunk<'a, E> {
    /// The well-formed part of the chunk.
    pub closed spec fn spec_valid(self) -> Str<'a, E> {
        self.valid
    }

    /// The malformed bytes behind the well-formed part.
    pub closed spec fn spec_invalid(self) -> Seq<u8> {
        self.invalid@
    }

    /// The well-formed part of the chunk.
    pub fn valid(&self) -> (r: Str<'a, E>)
        ensures
            r == self.spec_valid(),
    {
        self.valid
    }

    /// The malformed bytes behind the well-formed part. They are empty only in the last
    /// chunk of a buffer that ends well.
    pub fn invalid(&self) -> (r: &'a [u8])
        ensures
            r@ == self.spec_invalid(),
    {
        self.invalid
    }
}

impl<'a, E: Grammar> EncodedChunks<'a, E> {
    /// The bytes that have not been cut into chunks yet.
    pub closed spec fn view(self) -> Seq<u8> {
        self.src@
    }
}

impl<'a, E: Encoding> EncodedChunks<'a, E> {
    /// An iterator over the chunks of `src`.
    pub fn new(src: &'a [u8]) -> (r: Self)
        ensures
            r@ == src@,
    {
        EncodedChunks { src, encoding: core::marker::PhantomData }
    }

    /// Cuts the next chunk off the front: the longest well-formed prefix of what is left,
    /// and the malformed unit behind it.
    pub fn next(&mut self) -> (r: Option<EncodedChunk<'a, E>>)
        ensures
            old(self)@.len() == 0 ==> r is None && final(self)@ == old(self)@,
            old(self)@.len() > 0 ==> (r matches Some(chunk) && chunk.spec_valid()@
                == old(self)@.take(
                valid_prefix_len::<E>(old(self)@) as int,
            ) && chunk.spec_invalid() == old(self)@.subrange(
                valid_prefix_len::<E>(old(self)@) as int,
                (valid_prefix_len::<E>(old(self)@) + defect_span::<E>(old(self)@)) as int,
            ) && final(self)@ == old(self)@.skip(
                (valid_prefix_len::<E>(old(self)@) + defect_span::<E>(old(self)@)) as int,
            )),
    {
        let src = self.src;
        if src.len() == 0 {
            return None;
        }
        proof {
            lemma_defect_span::<E>(src@);
        }
        let total: usize = src.len();
        match Str::<E>::from_bytes(src) {
            Ok(valid) => {
                self.src = slice_subrange(src, total, total);
                assert(src@.take(total as int) =~= src@);
                Some(EncodedChunk { valid, invalid: slice_subrange(src, total, total) })
            },
            Err(err) => {
                let valid_to: usize = err.valid_up_to();
                let valid = Str::from_bytes_unchecked(slice_subrange(src, 0, valid_to));
                let invalid = match err.error_len() {
                    Some(len) => {
                        self.src = slice_subrange(src, valid_to + len, total);
                        slice_subrange(src, valid_to, valid_to + len)
                    },
                    None => {
                        self.src = slice_subrange(src, total, total);
                        slice_subrange(src, valid_to, total)
                    },
                };
                Some(EncodedChunk { valid, invalid })
            },
        }
    }
}

} // verus!
