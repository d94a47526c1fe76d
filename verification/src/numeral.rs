//! The positional-numeral model that every contract of the crate is stated over.

use vstd::prelude::*;

verus! {

/// The number that `digits` denote in `radix`, most significant digit first.
///
/// Digits are plain coefficients: one that is not below `radix` still counts
/// with its full weight.
pub open spec fn digits_value(digits: Seq<u8>, radix: nat) -> nat
    decreases digits.len(),
{
    if digits.len() == 0 {
        0
    } else {
        digits_value(digits.drop_last(), radix) * radix + digits.last() as nat
    }
}

/// The canonical big-endian base-256 encoding of `n`: no leading zero byte, and
/// the empty sequence for zero.
pub open spec fn be_bytes(n: nat) -> Seq<u8>
    decreases n,
{
    if n == 0 {
        Seq::empty()
    } else {
        be_bytes(n / 256).push((n % 256) as u8)
    }
}

/// A byte sequence is canonical when it does not start with a zero byte.
pub open spec fn is_canonical(bytes: Seq<u8>) -> bool {
    bytes.len() == 0 || bytes[0] != 0
}

/// The digits of `n` in `radix`, most significant first and without leading
/// zeros; no digit at all for zero. A radix below two has no such digits.
pub open spec fn radix_digits(n: nat, radix: nat) -> Seq<nat>
    decreases n,
    via radix_digits_decreases
{
    if n == 0 || radix < 2 {
        Seq::empty()
    } else {
        radix_digits(n / radix, radix).push(n % radix)
    }
}

#[via_fn]
proof fn radix_digits_decreases(n: nat, radix: nat) {
    if n != 0 && radix >= 2 {
        assert(n / radix < n) by (nonlinear_arith)
            requires
                n > 0,
                radix >= 2,
        ;
    }
}

/// `digits` are the digits of `n` in `radix`, each small enough for a byte.
pub open spec fn is_decomposition(digits: Seq<u8>, n: nat, radix: nat) -> bool {
    &&& digits.len() == radix_digits(n, radix).len()
    &&& forall|i: int| 0 <= i < digits.len() ==> digits[i] as nat == radix_digits(n, radix)[i]
}

/// Appending one digit is one step of Horner's rule.
pub proof fn lemma_value_push(digits: Seq<u8>, digit: u8, radix: nat)
    ensures
        digits_value(digits.push(digit), radix) == digits_value(digits, radix) * radix + digit as nat,
{
    assert(digits.push(digit).drop_last() =~= digits);
}

/// The canonical encoding denotes the number it was made from.
pub proof fn lemma_be_bytes_value(n: nat)
    ensures
        digits_value(be_bytes(n), 256) == n,
    decreases n,
{
    if n != 0 {
        lemma_be_bytes_value(n / 256);
        lemma_value_push(be_bytes(n / 256), (n % 256) as u8, 256);
    }
}

/// The canonical encoding never starts with a zero byte.
pub proof fn lemma_be_bytes_canonical(n: nat)
    ensures
        is_canonical(be_bytes(n)),
        n != 0 ==> be_bytes(n).len() > 0,
    decreases n,
{
    if n != 0 {
        lemma_be_bytes_canonical(n / 256);
    }
}

/// A sequence that starts with a non-zero digit denotes a positive number, in
/// any radix but zero.
pub proof fn lemma_value_positive(digits: Seq<u8>, radix: nat)
    requires
        digits.len() > 0,
        digits[0] != 0,
        radix >= 1,
    ensures
        digits_value(digits, radix) > 0,
    decreases digits.len(),
{
    if digits.len() > 1 {
        let rest = digits.drop_last();
        lemma_value_positive(rest, radix);
        assert(digits_value(rest, radix) * radix >= 1) by (nonlinear_arith)
            requires
                digits_value(rest, radix) >= 1,
                radix >= 1,
        ;
    } else {
        assert(digits.drop_last().len() == 0);
        assert(digits.last() == digits[0]);
    }
}

/// Each number has exactly one canonical encoding: a canonical sequence is the
/// encoding of the number it denotes.
pub proof fn lemma_canonical_unique(bytes: Seq<u8>)
    requires
        is_canonical(bytes),
    ensures
        be_bytes(digits_value(bytes, 256)) == bytes,
    decreases bytes.len(),
{
    if bytes.len() > 0 {
        let rest = bytes.drop_last();
        let n = digits_value(bytes, 256);
        lemma_value_positive(bytes, 256);
        lemma_canonical_unique(rest);
        assert(n == digits_value(rest, 256) * 256 + bytes.last() as nat);
        assert(n / 256 == digits_value(rest, 256));
        assert(n % 256 == bytes.last() as nat);
        assert(rest.push(bytes.last()) =~= bytes);
    }
}

/// Leading zero digits carry no weight: dropping them leaves the value as it was.
pub proof fn lemma_skip_leading_zeros(digits: Seq<u8>, count: int, radix: nat)
    requires
        0 <= count <= digits.len(),
        forall|i: int| 0 <= i < count ==> digits[i] == 0,
    ensures
        digits_value(digits.skip(count), radix) == digits_value(digits, radix),
    decreases digits.len(),
{
    if count == digits.len() {
        lemma_all_zero_value(digits, radix);
        assert(digits.skip(count).len() == 0);
    } else {
        lemma_skip_leading_zeros(digits.drop_last(), count, radix);
        assert(digits.skip(count).drop_last() =~= digits.drop_last().skip(count));
        assert(digits.skip(count).last() == digits.last());
    }
}

/// Digits that are all zero denote zero, in every radix.
pub proof fn lemma_all_zero_value(digits: Seq<u8>, radix: nat)
    requires
        forall|i: int| 0 <= i < digits.len() ==> digits[i] == 0,
    ensures
        digits_value(digits, radix) == 0,
    decreases digits.len(),
{
    if digits.len() > 0 {
        lemma_all_zero_value(digits.drop_last(), radix);
        assert(digits_value(digits.drop_last(), radix) * radix == 0) by (nonlinear_arith)
            requires
                digits_value(digits.drop_last(), radix) == 0,
        ;
    }
}

/// The digits of a number in a radix denote that number in that radix.
pub proof fn lemma_decomposition_value(digits: Seq<u8>, n: nat, radix: nat)
    requires
        radix >= 2,
        is_decomposition(digits, n, radix),
    ensures
        digits_value(digits, radix) == n,
    decreases n,
{
    if n != 0 {
        let front = digits.drop_last();
        assert(n / radix < n) by (nonlinear_arith)
            requires
                n > 0,
                radix >= 2,
        ;
        assert(is_decomposition(front, n / radix, radix)) by {
            assert forall|i: int| 0 <= i < front.len() implies front[i] as nat == radix_digits(
                n / radix,
                radix,
            )[i] by {
                assert(front[i] == digits[i]);
                assert(radix_digits(n, radix)[i] == radix_digits(n / radix, radix)[i]);
            }
        }
        lemma_decomposition_value(front, n / radix, radix);
        assert(digits.last() as nat == n % radix) by {
            assert(digits.last() == digits[digits.len() - 1]);
        }
        assert((n / radix) * radix + n % radix == n) by (nonlinear_arith)
            requires
                radix >= 2,
        ;
    }
}

/// Round trip: take canonical bytes, write the number they denote as digits in
/// any radix from two up, and convert those digits back; the bytes return
/// exactly.
pub proof fn lemma_round_trip(bytes: Seq<u8>, radix: nat, digits: Seq<u8>)
    requires
        radix >= 2,
        is_canonical(bytes),
        is_decomposition(digits, digits_value(bytes, 256), radix),
    ensures
        be_bytes(digits_value(digits, radix)) == bytes,
{
    lemma_decomposition_value(digits, digits_value(bytes, 256), radix);
    lemma_canonical_unique(bytes);
}

/// Zero is encoded as no bytes at all: digits that are all zero, and so also
/// no digits, convert to the empty sequence in every radix.
pub proof fn lemma_zero_is_empty(digits: Seq<u8>, radix: nat)
    requires
        forall|i: int| 0 <= i < digits.len() ==> digits[i] == 0,
    ensures
        be_bytes(digits_value(digits, radix)) == Seq::<u8>::empty(),
{
    lemma_all_zero_value(digits, radix);
}

/// With the digits held fixed, a larger radix never denotes a smaller number.
pub proof fn lemma_value_grows_with_radix(digits: Seq<u8>, low: nat, high: nat)
    requires
        low <= high,
    ensures
        digits_value(digits, low) <= digits_value(digits, high),
    decreases digits.len(),
{
    if digits.len() > 0 {
        lemma_value_grows_with_radix(digits.drop_last(), low, high);
        assert(digits_value(digits.drop_last(), low) * low <= digits_value(digits.drop_last(), high)
            * high) by (nonlinear_arith)
            requires
                digits_value(digits.drop_last(), low) <= digits_value(digits.drop_last(), high),
                low <= high,
        ;
    }
}

/// A larger number never has a shorter encoding.
pub proof fn lemma_length_grows_with_value(small: nat, large: nat)
    requires
        small <= large,
    ensures
        be_bytes(small).len() <= be_bytes(large).len(),
    decreases large,
{
    if small != 0 {
        lemma_length_grows_with_value(small / 256, large / 256);
    }
}

/// With the digits held fixed, a larger radix never gives a shorter output.
pub proof fn lemma_length_grows_with_radix(digits: Seq<u8>, low: nat, high: nat)
    requires
        low <= high,
    ensures
        be_bytes(digits_value(digits, low)).len() <= be_bytes(digits_value(digits, high)).len(),
{
    lemma_value_grows_with_radix(digits, low, high);
    lemma_length_grows_with_value(digits_value(digits, low), digits_value(digits, high));
}

} // verus!
