//! The conversion engine: digits in a source radix to canonical big-endian bytes.

use vstd::prelude::*;

use crate::alphabet::{
    all_known, decoded, digit_of, is_first_unknown, lemma_position_is_first, lookup,
};
use crate::bigint::{magnitude, plus, times, to_bytes_be, zero};
use crate::error::{BaseError, Span};
use crate::numeral::{
    be_bytes, digits_value, is_canonical, lemma_all_zero_value, lemma_be_bytes_canonical,
    lemma_be_bytes_value, lemma_canonical_unique, lemma_skip_leading_zeros, lemma_value_push,
};

verus! {

/// Decodes `s` against the alphabet `table`: each character becomes its
/// position in the table, in reading order. The first character that the
/// table lacks ends the decoding with `UnknownCharacter`, which carries the
/// place of that character and `span`; nothing is skipped and nothing partial
/// is returned.
pub fn str_to_binary(s: &str, table: &str, span: &Span) -> (result: Result<Vec<u8>, BaseError>)
    ensures
        result is Ok <==> all_known(s@, table@),
        result matches Ok(digits) ==> {
            &&& digits@ == decoded(s@, table@)
            &&& digits@.len() == s@.len()
            &&& forall|i: int|
                0 <= i < s@.len() ==> Some(#[trigger] digits@[i]) == digit_of(table@, s@[i])
            &&& forall|i: int| 0 <= i < s@.len() ==> (#[trigger] digits@[i] as nat) < table@.len()
        },
        result matches Err(e) ==> {
            &&& e matches BaseError::UnknownCharacter { position, span: at }
            &&& at == *span
            &&& is_first_unknown(s@, table@, position as int)
        },
{
    broadcast use vstd::string::group_string_axioms;
    let chars = s.chars();
    let mut digits: Vec<u8> = Vec::new();
    for c in it: chars
        invariant
            it.seq() == s@,
            digits@.len() == it.index(),
            forall|i: int| 0 <= i < digits@.len() ==> table@.contains(#[trigger] s@[i]),
            forall|i: int|
                0 <= i < digits@.len() ==> Some(#[trigger] digits@[i]) == digit_of(table@, s@[i]),
            forall|i: int| 0 <= i < digits@.len() ==> (#[trigger] digits@[i] as nat) < table@.len(),
    {
        assert(c == s@[it.index()]);
        match lookup(table, c) {
            Some(digit) => {
                proof {
                    lemma_position_is_first(table@, c);
                }
                digits.push(digit);
            },
            None => {
                return Err(BaseError::UnknownCharacter { position: digits.len(), span: *span });
            },
        }
    }
    assert(digits@ =~= decoded(s@, table@));
    Ok(digits)
}

/// Drops the leading zero bytes of a big-endian number, so that what is left
/// is the canonical encoding of the same number. A sequence of zeros only
/// becomes empty.
pub fn canonicalize(bytes: Vec<u8>) -> (trimmed: Vec<u8>)
    ensures
        trimmed@ == be_bytes(digits_value(bytes@, 256)),
        is_canonical(trimmed@),
        digits_value(trimmed@, 256) == digits_value(bytes@, 256),
        is_canonical(bytes@) ==> trimmed@ == bytes@,
{
    proof {
        lemma_be_bytes_canonical(digits_value(bytes@, 256));
        lemma_be_bytes_value(digits_value(bytes@, 256));
    }
    let mut start: usize = 0;
    while start < bytes.len() && bytes[start] == 0
        invariant
            start <= bytes@.len(),
            forall|i: int| 0 <= i < start ==> bytes@[i] == 0,
        decreases bytes@.len() - start,
    {
        start = start + 1;
    }
    if start == 0 {
        proof {
            lemma_canonical_unique(bytes@);
        }
        return bytes;
    }
    let mut trimmed: Vec<u8> = Vec::new();
    let mut i: usize = start;
    while i < bytes.len()
        invariant
            start <= i <= bytes@.len(),
            trimmed@ == bytes@.subrange(start as int, i as int),
        decreases bytes@.len() - i,
    {
        trimmed.push(bytes[i]);
        i = i + 1;
    }
    proof {
        assert(trimmed@ =~= bytes@.skip(start as int));
        lemma_skip_leading_zeros(bytes@, start as int, 256);
        lemma_canonical_unique(trimmed@);
    }
    trimmed
}

/// Reads `buffer` as digits in radix `from`, most significant digit first, and
/// returns the number they denote as canonical big-endian bytes: no leading
/// zero byte, and no byte at all for zero.
///
/// Digits are not held against the radix; each counts as the coefficient it
/// is. The output radix is always 256, whatever `_to` says.
pub fn convert(buffer: &[u8], from: usize, _to: usize) -> (bytes: Vec<u8>)
    ensures
        bytes@ == be_bytes(digits_value(buffer@, from as nat)),
        is_canonical(bytes@),
        digits_value(bytes@, 256) == digits_value(buffer@, from as nat),
        (forall|i: int| 0 <= i < buffer@.len() ==> buffer@[i] == 0) ==> bytes@.len() == 0,
{
    let mut acc = zero();
    let mut i: usize = 0;
    while i < buffer.len()
        invariant
            i <= buffer@.len(),
            magnitude(acc) == digits_value(buffer@.take(i as int), from as nat),
        decreases buffer@.len() - i,
    {
        proof {
            lemma_value_push(buffer@.take(i as int), buffer@[i as int], from as nat);
            assert(buffer@.take(i as int).push(buffer@[i as int]) =~= buffer@.take(i + 1));
        }
        acc = plus(times(acc, from), buffer[i]);
        i = i + 1;
    }
    proof {
        assert(buffer@.take(i as int) =~= buffer@);
        if forall|i: int| 0 <= i < buffer@.len() ==> buffer@[i] == 0 {
            lemma_all_zero_value(buffer@, from as nat);
        }
    }
    canonicalize(to_bytes_be(&acc))
}

} // verus!
