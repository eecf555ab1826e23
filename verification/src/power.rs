//! Powers of whole numbers, however large.

use crate::text::{decimal, denoted, lemma_decimal_denotes, lemma_decimal_digits};
use vstd::arithmetic::power::{lemma0_pow, lemma_pow0, lemma_pow_positive, pow};
use vstd::prelude::*;

verus! {

/// `num_bigint::BigInt::pow`, between `BigInt::from` on the base and
/// `to_string` on the result.
///
/// Trusted: the number made from `base` is raised to `exponent` exactly, with
/// no limit on its size, and written in decimal without sign or leading
/// zeros. Any number to the power of zero is one.
#[verifier::external_body]
fn big_power(base: u32, exponent: u32) -> (digits: String)
    ensures
        digits@ == decimal(pow(base as int, exponent as nat) as nat),
{
    num_bigint::BigInt::from(base).pow(exponent).to_string()
}

/// The decimal digits of `base` to the power of `exponent`: a row of digits
/// that stands for the power, and that begins with a zero only where the
/// power is zero.
pub fn power_digits(base: u32, exponent: u32) -> (digits: String)
    ensures
        digits@ == decimal(pow(base as int, exponent as nat) as nat),
        denoted(digits@) == pow(base as int, exponent as nat),
        forall|i: int| 0 <= i < digits@.len() ==> '0' <= #[trigger] digits@[i] <= '9',
        digits@.len() > 0,
        digits@[0] == '0' <==> base == 0 && exponent > 0,
{
    let digits = big_power(base, exponent);
    proof {
        let power = pow(base as int, exponent as nat);
        lemma_power_sign(base as nat, exponent as nat);
        lemma_decimal_denotes(power as nat);
        assert forall|i: int| 0 <= i < digits@.len() implies '0' <= #[trigger] digits@[i]
            <= '9' by {
            lemma_decimal_digits(power as nat, i);
        }
    }
    digits
}

/// A power of zero is zero, but for the power with exponent zero, which is
/// one; a power of a positive number is positive.
pub proof fn lemma_power_sign(base: nat, exponent: nat)
    ensures
        base == 0 && exponent > 0 ==> pow(base as int, exponent) == 0,
        base > 0 || exponent == 0 ==> pow(base as int, exponent) > 0,
{
    if base > 0 {
        lemma_pow_positive(base as int, exponent);
    } else if exponent == 0 {
        lemma_pow0(0);
    } else {
        lemma0_pow(exponent);
    }
}

} // verus!
