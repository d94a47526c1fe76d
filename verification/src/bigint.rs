//! The unbounded accumulator: `num_bigint::BigUint`, as far as the conversion
//! relies on it. Nothing in this file is proved; each contract restates what
//! the arithmetic of `num_bigint` provides.

use num_bigint::BigUint;
use vstd::prelude::*;

use crate::numeral::digits_value;

verus! {

/// `num_bigint::BigUint`, an unsigned integer of unbounded size. Its digits
/// stay hidden; contracts speak of the number through [`magnitude`].
#[verifier::external_type_specification]
#[verifier::external_body]
pub struct ExBigUint(num_bigint::BigUint);

/// The natural number that a `BigUint` holds.
pub uninterp spec fn magnitude(n: BigUint) -> nat;

/// `<BigUint as num_traits::Zero>::zero`: the number zero.
#[verifier::external_body]
pub(crate) fn zero() -> (n: BigUint)
    ensures
        magnitude(n) == 0,
{
    num_traits::Zero::zero()
}

/// `<BigUint as Mul<usize>>::mul`: the exact product. The number grows as it
/// needs to, so nothing overflows.
#[verifier::external_body]
pub(crate) fn times(n: BigUint, factor: usize) -> (product: BigUint)
    ensures
        magnitude(product) == magnitude(n) * factor as nat,
{
    n * factor
}

/// `<BigUint as Add<u8>>::add`: the exact sum. The number grows as it needs
/// to, so nothing overflows.
#[verifier::external_body]
pub(crate) fn plus(n: BigUint, digit: u8) -> (sum: BigUint)
    ensures
        magnitude(sum) == magnitude(n) + digit as nat,
{
    n + digit
}

/// `BigUint::to_bytes_be`: the bytes of the number, most significant first.
/// They denote the number in radix 256. Zero comes out as the single byte 0;
/// any other number comes out without a leading zero byte.
#[verifier::external_body]
pub(crate) fn to_bytes_be(n: &BigUint) -> (bytes: Vec<u8>)
    ensures
        digits_value(bytes@, 256) == magnitude(*n),
        magnitude(*n) == 0 ==> bytes@ == seq![0u8],
        magnitude(*n) != 0 ==> bytes@.len() > 0 && bytes@[0] != 0,
{
    n.to_bytes_be()
}

} // verus!
