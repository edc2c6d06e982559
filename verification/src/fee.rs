//! The fee engine: validation of a fee expressed in basis points, and the
//! split of a gross amount into fee and net stake.

use vstd::prelude::*;

use crate::Error;
use vstd::arithmetic::div_mod::{lemma_div_is_ordered, lemma_fundamental_div_mod, lemma_mod_bound};
use vstd::arithmetic::mul::lemma_mul_inequality;

verus! {

/// The number of basis points that make up the whole: 10000 bps = 100 %.
pub const MAX_BPS: u16 = 10000;

/// The fee charged on `amount` at `fee_bps` basis points, rounded down.
pub open spec fn spec_fee(amount: int, fee_bps: int) -> int {
    (amount * fee_bps) / (MAX_BPS as int)
}

/// Accepts a fee only when it does not exceed the whole; an out-of-range
/// value is a configuration error, never silently clamped.
pub fn validate_fee_bps(fee_bps: u16) -> (r: Result<u16, Error>)
    ensures
        fee_bps <= MAX_BPS ==> r == Ok::<u16, Error>(fee_bps),
        fee_bps > MAX_BPS ==> r == Err::<u16, Error>(Error::InvalidFeeBps),
{
    if fee_bps > MAX_BPS {
        Err(Error::InvalidFeeBps)
    } else {
        Ok(fee_bps)
    }
}

/// Splits a gross `amount` into `(fee, net)`: the fee rounds down, so the
/// net stake rounds up in the bettor's favour by at most one unit, and the
/// two always add back up to the gross amount. The only failure is the
/// checked multiplication overflowing.
pub fn apply_fee(amount: u128, fee_bps: u16) -> (r: Result<(u128, u128), Error>)
    requires
        fee_bps <= MAX_BPS,
    ensures
        amount * fee_bps <= u128::MAX ==> (r matches Ok(p)
            && p.0 == spec_fee(amount as int, fee_bps as int)
            && p.0 + p.1 == amount),
        amount * fee_bps > u128::MAX ==> r == Err::<(u128, u128), Error>(Error::Overflow),
{
    if fee_bps == 0 {
        assert(spec_fee(amount as int, 0) == 0) by {
            assert(amount * 0 == 0);
        }
        Ok((0, amount))
    } else {
        let f: u128 = fee_bps as u128;
        proof {
            // The checked multiplication fits exactly when the amount stays
            // under the floored quotient.
            lemma_mul_fits_iff(amount as int, f as int, u128::MAX as int);
        }
        if amount > u128::MAX / f {
            Err(Error::Overflow)
        } else {
            let fee: u128 = amount * f / (MAX_BPS as u128);
            proof {
                // fee <= amount, so the subtraction cannot underflow.
                lemma_mul_inequality(f as int, MAX_BPS as int, amount as int);
                lemma_div_is_ordered(
                    (amount * f) as int,
                    (amount * (MAX_BPS as int)) as int,
                    MAX_BPS as int,
                );
                assert(amount * (MAX_BPS as int) / (MAX_BPS as int) == amount) by {
                    lemma_fundamental_div_mod_identity(amount as int, MAX_BPS as int);
                }
            }
            Ok((fee, amount - fee))
        }
    }
}

/// A checked multiplication fits the limit exactly when the factor stays
/// under the floored quotient: `a * c <= m` iff `a <= m / c`.
pub proof fn lemma_mul_fits_iff(a: int, c: int, m: int)
    requires
        0 <= a,
        0 < c,
        0 <= m,
    ensures
        a * c <= m <==> a <= m / c,
{
    let q = m / c;
    lemma_fundamental_div_mod(m, c);
    lemma_mod_bound(m, c);
    if a <= q {
        lemma_mul_inequality(a, q, c);
        assert(q * c == c * q) by {
            vstd::arithmetic::mul::lemma_mul_is_commutative(q, c);
        }
    }
    if a > q {
        lemma_mul_inequality(q + 1, a, c);
        assert((q + 1) * c == c * q + c) by {
            vstd::arithmetic::mul::lemma_mul_is_distributive_add_other_way(c, q, 1);
            vstd::arithmetic::mul::lemma_mul_is_commutative(q, c);
        }
    }
}

/// (b * d) / d == b for a positive divisor.
proof fn lemma_fundamental_div_mod_identity(b: int, d: int)
    requires
        0 < d,
    ensures
        (b * d) / d == b,
{
    vstd::arithmetic::div_mod::lemma_div_multiples_vanish(b, d);
    vstd::arithmetic::mul::lemma_mul_is_commutative(b, d);
}

} // verus!
