//! What holds of every encoding, stated over the model and proved from it.
//!
//! The operations of the crate are specified by the functions of
//! [`model`](crate::encoding::model); the statements here relate those functions to each
//! other.

use crate::encoding::model::{
    char_starts, decode, encode_all, encode_all_lossy, first_unencodable, is_boundary,
    lemma_boundary_extend, lemma_boundary_shift, lemma_char_starts_are_boundaries,
    lemma_defect_span, lemma_encode_all_lossy_valid, lemma_encoding_valid, lemma_end_is_boundary,
    lemma_first_unencodable, lemma_prefix_valid, lemma_recode_progress, lemma_split_at_boundary,
    lemma_valid_iff_prefix_is_all, lossy_len, recode_spec, repaired, valid, valid_prefix_len,
    Grammar,
};
use crate::encoding::{validation, RecodeCause};
use vstd::prelude::*;

verus! {

/// Validation and decoding agree. In a buffer that validation accepts, taking one character
/// after another off the front consumes the buffer exactly: every step starts inside the
/// buffer, reads a character that ends inside it, and the steps together cover all of it.
pub proof fn validation_agrees_with_decoding<E: Grammar>(bytes: Seq<u8>)
    requires
        validation::<E>(bytes) is Ok,
    ensures
        valid_prefix_len::<E>(bytes) == bytes.len(),
        char_starts::<E>(bytes, 0).len() == decode::<E>(bytes).len(),
        forall|i: int|
            0 <= i < bytes.len() && is_boundary::<E>(bytes, i) ==> 0 < #[trigger] E::char_width(
                bytes.skip(i),
            ) <= bytes.len() - i && is_boundary::<E>(bytes, i + E::char_width(bytes.skip(i)))
                && valid::<E>(bytes.skip(i + E::char_width(bytes.skip(i)))),
{
    lemma_valid_iff_prefix_is_all::<E>(bytes);
    lemma_char_starts_are_boundaries::<E>(bytes, 0, 0);
    assert forall|i: int| 0 <= i < bytes.len() && is_boundary::<E>(bytes, i) implies 0
        < #[trigger] E::char_width(bytes.skip(i)) <= bytes.len() - i && is_boundary::<E>(
        bytes,
        i + E::char_width(bytes.skip(i)),
    ) && valid::<E>(bytes.skip(i + E::char_width(bytes.skip(i)))) by {
        lemma_split_at_boundary::<E>(bytes, i);
        let w: nat = E::char_width(bytes.skip(i));
        lemma_boundary_extend::<E>(bytes, i, w);
        assert(bytes.skip(i).skip(w as int) =~= bytes.skip(i + w));
    }
}

/// Encoding and decoding round-trip. The bytes that stand for a character form a valid
/// buffer, and decoding it gives that character and leaves nothing.
pub proof fn encoding_round_trips<E: Grammar>(c: char)
    requires
        E::encoding(c) is Some,
    ensures
        valid::<E>(E::encoding(c).unwrap()),
        E::first_char(E::encoding(c).unwrap()) == c,
        E::char_width(E::encoding(c).unwrap()) == E::encoding(c).unwrap().len(),
        E::encoding(c).unwrap().skip(E::char_width(E::encoding(c).unwrap()) as int)
            == Seq::<u8>::empty(),
        decode::<E>(E::encoding(c).unwrap()) == seq![c],
{
    let b: Seq<u8> = E::encoding(c).unwrap();
    E::lemma_round_trip(c);
    lemma_encoding_valid::<E>(c);
    assert(b.skip(b.len() as int) =~= Seq::<u8>::empty());
}

/// Validation errors are precise. Where validation rejects a buffer, the prefix that the
/// error reports as valid is accepted by validation, it decodes to the characters that a walk
/// of the whole buffer meets before it stops, no character follows it, and the malformed unit
/// that the error reports lies inside the buffer. The buffer is one that fits in memory.
pub proof fn validation_error_is_precise<E: Grammar>(bytes: Seq<u8>)
    requires
        bytes.len() <= usize::MAX,
        validation::<E>(bytes) is Err,
    ensures
        ({
            let e = validation::<E>(bytes)->Err_0;
            &&& e.valid_up_to < bytes.len()
            &&& validation::<E>(bytes.take(e.valid_up_to as int)) is Ok
            &&& decode::<E>(bytes.take(e.valid_up_to as int)) == decode::<E>(bytes)
            &&& is_boundary::<E>(bytes, e.valid_up_to as int)
            &&& E::char_width(bytes.skip(e.valid_up_to as int)) == 0
            &&& e.error_len matches Some(n) ==> 1 <= n && e.valid_up_to + n <= bytes.len()
        }),
{
    lemma_defect_span::<E>(bytes);
    lemma_prefix_valid::<E>(bytes);
    crate::encoding::model::lemma_prefix_stops::<E>(bytes);
    E::lemma_defect_bounds(bytes.skip(valid_prefix_len::<E>(bytes) as int));
}

/// Character boundaries are where characters start. In a valid buffer, an offset is a
/// boundary exactly if it is zero, the length of the buffer, or the offset at which one of
/// the characters of the buffer starts.
pub proof fn boundaries_are_character_starts<E: Grammar>(bytes: Seq<u8>, i: int)
    requires
        valid::<E>(bytes),
    ensures
        is_boundary::<E>(bytes, i) <==> (i == 0 || i == bytes.len() || char_starts::<E>(
            bytes,
            0,
        ).contains(i)),
{
    lemma_char_starts_are_boundaries::<E>(bytes, 0, i);
    lemma_end_is_boundary::<E>(bytes);
}

/// A buffer cut at two of its boundaries gives valid buffers: slicing at character
/// boundaries never cuts a character.
pub proof fn slices_at_boundaries_are_valid<E: Grammar>(bytes: Seq<u8>, start: int, end: int)
    requires
        valid::<E>(bytes),
        is_boundary::<E>(bytes, start),
        is_boundary::<E>(bytes, end),
        start <= end,
    ensures
        0 <= start <= end <= bytes.len(),
        valid::<E>(bytes.subrange(start, end)),
        decode::<E>(bytes) == decode::<E>(bytes.take(start)) + decode::<E>(
            bytes.subrange(start, end),
        ) + decode::<E>(bytes.skip(end)),
{
    crate::encoding::model::lemma_subrange_valid::<E>(bytes, start, end);
    lemma_split_at_boundary::<E>(bytes, start);
    lemma_boundary_shift::<E>(bytes, start, end);
    lemma_split_at_boundary::<E>(bytes.skip(start), end - start);
    assert(bytes.skip(start).take(end - start) =~= bytes.subrange(start, end));
    assert(bytes.skip(start).skip(end - start) =~= bytes.skip(end));
}

/// The accounts of a conversion add up. Whether it ends or stops early, what it has used of
/// the input and what is left make the whole input; it has used whole characters only; what
/// it wrote fits the space it was given, is a valid buffer of the target encoding by itself,
/// and holds the characters of the input that it used.
pub proof fn recode_totals<S: Grammar, D: Grammar>(src: Seq<u8>, space: nat)
    requires
        valid::<S>(src),
    ensures
        ({
            let done = recode_spec::<S, D>(src, space);
            &&& done.0 + src.skip(done.0 as int).len() == src.len()
            &&& is_boundary::<S>(src, done.0 as int)
            &&& valid::<S>(src.skip(done.0 as int))
            &&& done.1.len() <= space
            &&& valid::<D>(done.1)
            &&& decode::<D>(done.1) == decode::<S>(src.take(done.0 as int))
            &&& done.2 is None ==> done.0 == src.len() && decode::<D>(done.1) == decode::<S>(src)
            &&& done.2 matches Some(RecodeCause::InvalidChar { char, len }) ==> D::encoding(char)
                is None && char == S::first_char(src.skip(done.0 as int)) && len
                == S::char_width(src.skip(done.0 as int))
            &&& done.2 matches Some(RecodeCause::NeedSpace { len }) ==> done.1.len() + len
                > space && D::encoding(S::first_char(src.skip(done.0 as int))) is Some
        }),
{
    lemma_recode_progress::<S, D>(src, space);
    let done = recode_spec::<S, D>(src, space);
    if done.2 is None {
        assert(src.take(src.len() as int) =~= src);
    }
}

/// A strict conversion into a new string succeeds exactly if the target encoding can
/// represent every character of the input. What it gives then is a valid buffer that holds
/// the characters of the input, and is what the lossy conversion gives too.
pub proof fn strict_recode_keeps_the_characters<S: Grammar, D: Grammar>(src: Seq<u8>)
    requires
        valid::<S>(src),
    ensures
        first_unencodable::<S, D>(src) is None <==> encode_all::<D>(decode::<S>(src)) is Some,
        encode_all::<D>(decode::<S>(src)) matches Some(out) ==> valid::<D>(out) && decode::<D>(
            out,
        ) == decode::<S>(src) && encode_all_lossy::<D>(decode::<S>(src)) == out,
        first_unencodable::<S, D>(src) matches Some(k) ==> k < src.len() && is_boundary::<S>(
            src,
            k as int,
        ) && D::encoding(S::first_char(src.skip(k as int))) is None,
{
    lemma_first_unencodable::<S, D>(src);
    if encode_all::<D>(decode::<S>(src)) is Some {
        crate::encoding::model::lemma_encode_all_valid::<D>(decode::<S>(src));
    }
}

/// The output of a lossy conversion is a valid buffer of the target encoding with one
/// character for each character of the input, and its length is the sum of the lengths that
/// the characters of the input take in the target encoding: their own, or that of the
/// replacement character where they have none.
pub proof fn lossy_recode_length<S: Grammar, D: Grammar>(src: Seq<u8>)
    ensures
        valid::<D>(encode_all_lossy::<D>(decode::<S>(src))),
        encode_all_lossy::<D>(decode::<S>(src)).len() == lossy_len::<D>(decode::<S>(src)),
        decode::<D>(encode_all_lossy::<D>(decode::<S>(src))).len() == decode::<S>(src).len(),
{
    lemma_encode_all_lossy_valid::<D>(decode::<S>(src));
}

/// What lossy decoding makes of a buffer is valid, and is the buffer itself where the buffer
/// was valid.
pub proof fn repaired_is_valid<E: Grammar>(bytes: Seq<u8>)
    ensures
        valid::<E>(repaired::<E>(bytes)),
        valid::<E>(bytes) ==> repaired::<E>(bytes) == bytes,
    decreases bytes.len(),
{
    lemma_defect_span::<E>(bytes);
    E::lemma_replacement();
    lemma_encoding_valid::<E>(E::REPLACEMENT);
    let k: nat = valid_prefix_len::<E>(bytes);
    let span: nat = crate::encoding::model::defect_span::<E>(bytes);
    let patch: Seq<u8> = E::encoding(E::REPLACEMENT).unwrap();
    if k < bytes.len() {
        crate::encoding::model::lemma_valid_concat::<E>(bytes.take(k as int), patch);
        if !(span == 0 || k + span > bytes.len()) {
            repaired_is_valid::<E>(bytes.skip((k + span) as int));
            crate::encoding::model::lemma_valid_concat::<E>(
                bytes.take(k as int) + patch,
                repaired::<E>(bytes.skip((k + span) as int)),
            );
        }
    }
}

} // verus!
