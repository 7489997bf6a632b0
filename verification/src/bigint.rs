//! The trusted boundary around `num_bigint`: the big-integer type is opaque
//! to the verifier, so each operation the library relies on is declared here
//! with the contract the crate's documentation and source give it. The value
//! an opaque big integer holds is named by `bigint_value`; everything the
//! rest of the library proves about arithmetic rests on these contracts.

use crate::numrep::{byte_len_of, bytes_of, bytes_value};
use num_bigint::BigInt;
use vstd::arithmetic::power::pow;
use vstd::prelude::*;

verus! {

#[verifier::external_type_specification]
#[verifier::external_body]
pub struct ExBigInt(BigInt);

/// The integer a `num_bigint::BigInt` holds.
pub uninterp spec fn bigint_value(b: BigInt) -> int;

/// Relies on `num_bigint::BigUint::from_bytes_be`: big-endian base-256
/// interpretation of the bytes (the empty slice is zero).
#[verifier::external_body]
pub(crate) fn bigint_from_bytes_be(bytes: &[u8]) -> (r: BigInt)
    ensures
        bigint_value(r) == bytes_value(bytes@),
{
    BigInt::from(num_bigint::BigUint::from_bytes_be(bytes))
}

/// Relies on `num_bigint::BigInt::to_bytes_be`: the minimal big-endian
/// magnitude bytes, a single zero byte for zero.
#[verifier::external_body]
pub(crate) fn bigint_to_bytes_be(b: &BigInt) -> (r: Vec<u8>)
    requires
        bigint_value(*b) >= 0,
    ensures
        r@ == bytes_of(bigint_value(*b), byte_len_of(bigint_value(*b))),
{
    let (_, bytes) = b.to_bytes_be();
    bytes
}

/// Relies on `num_bigint::BigInt::modpow`: `(self ^ exponent) mod modulus`,
/// rounded like `mod_floor`, so the result lies in `[0, modulus)` for a
/// positive modulus whatever the sign of the base. It panics on a negative
/// exponent or a zero modulus, which the precondition rules out.
#[verifier::external_body]
pub(crate) fn bigint_modpow(b: &BigInt, e: &BigInt, m: &BigInt) -> (r: BigInt)
    requires
        bigint_value(*e) >= 0,
        bigint_value(*m) > 0,
    ensures
        bigint_value(r) == pow(bigint_value(*b), bigint_value(*e) as nat) % bigint_value(*m),
{
    b.modpow(e, m)
}

/// Relies on `num_bigint`'s `Mul` for `&BigInt`: exact product.
#[verifier::external_body]
pub(crate) fn bigint_mul(a: &BigInt, b: &BigInt) -> (r: BigInt)
    ensures
        bigint_value(r) == bigint_value(*a) * bigint_value(*b),
{
    a * b
}

/// Relies on `num_bigint`'s `Add` for `&BigInt`: exact sum.
#[verifier::external_body]
pub(crate) fn bigint_add(a: &BigInt, b: &BigInt) -> (r: BigInt)
    ensures
        bigint_value(r) == bigint_value(*a) + bigint_value(*b),
{
    a + b
}

/// Relies on `num_bigint`'s `Sub` for `&BigInt`: exact difference, which may
/// be negative.
#[verifier::external_body]
pub(crate) fn bigint_sub(a: &BigInt, b: &BigInt) -> (r: BigInt)
    ensures
        bigint_value(r) == bigint_value(*a) - bigint_value(*b),
{
    a - b
}

/// Relies on `num_bigint`'s `Rem` for `&BigInt`: truncated remainder, whose
/// sign follows the dividend (like Rust's `%` on primitives). It panics on a
/// zero divisor, which the precondition rules out.
#[verifier::external_body]
pub(crate) fn bigint_rem(a: &BigInt, m: &BigInt) -> (r: BigInt)
    requires
        bigint_value(*m) > 0,
    ensures
        bigint_value(*a) >= 0 ==> bigint_value(r) == bigint_value(*a) % bigint_value(*m),
        bigint_value(*a) < 0 ==> bigint_value(r) == -((-bigint_value(*a)) % bigint_value(*m)),
{
    a % m
}

/// Relies on `num_bigint`'s `PartialEq` for `BigInt`: numeric equality.
#[verifier::external_body]
pub(crate) fn bigint_eq(a: &BigInt, b: &BigInt) -> (r: bool)
    ensures
        r == (bigint_value(*a) == bigint_value(*b)),
{
    a == b
}

/// Relies on `num_traits::Zero::is_zero` for `BigInt`.
#[verifier::external_body]
pub(crate) fn bigint_is_zero(a: &BigInt) -> (r: bool)
    ensures
        r == (bigint_value(*a) == 0),
{
    num_traits::Zero::is_zero(a)
}

/// Relies on `num_bigint`'s `Sign` query through `num_traits::Signed`.
#[verifier::external_body]
pub(crate) fn bigint_is_negative(a: &BigInt) -> (r: bool)
    ensures
        r == (bigint_value(*a) < 0),
{
    num_traits::Signed::is_negative(a)
}

} // verus!
