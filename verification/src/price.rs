//! Prices: fractions with 32-bit numerator and denominator, and the best
//! such fraction for a given ratio.

use crate::error::StellarSdkError;
use crate::xdr::types::Price;
use vstd::arithmetic::div_mod::{lemma_fundamental_div_mod, lemma_mod_bound};
use vstd::prelude::*;

verus! {

/// The largest numerator and denominator of a price.
pub const MAX_PRICE_PART: u64 = 0x7fff_ffff;

/// The last convergent, with both parts within the 32-bit range, of the
/// continued fraction of `a / b`, continued from the two convergents
/// `h0 / k0` and `h1 / k1` that were reached before.
pub open spec fn last_convergent(a: nat, b: nat, h0: nat, k0: nat, h1: nat, k1: nat) -> (nat, nat)
    decreases b,
{
    if b == 0 {
        (h1, k1)
    } else {
        let term = a / b;
        let h2 = term * h1 + h0;
        let k2 = term * k1 + k0;
        if h2 > MAX_PRICE_PART || k2 > MAX_PRICE_PART {
            (h1, k1)
        } else {
            last_convergent(b, a % b, h1, k1, h2, k2)
        }
    }
}

/// The best approximation of `numerator / denominator` by a fraction with
/// 32-bit parts: the last convergent of its continued fraction that fits.
pub open spec fn approximation(numerator: nat, denominator: nat) -> (nat, nat) {
    last_convergent(numerator, denominator, 0, 1, 1, 0)
}

/// The price that a ratio is approximated by. There is none if the ratio is
/// zero, has no denominator, or exceeds the 32-bit range.
pub open spec fn approximated_price(numerator: nat, denominator: nat) -> Result<
    Price,
    StellarSdkError,
> {
    let (n, d) = approximation(numerator, denominator);
    if n == 0 || d == 0 {
        Err(StellarSdkError::NotApproximableAsFraction)
    } else {
        Ok(Price { n: n as i32, d: d as i32 })
    }
}

/// The distance between `first` and `second`.
pub open spec fn distance(first: int, second: int) -> int {
    if first >= second {
        first - second
    } else {
        second - first
    }
}

proof fn lemma_step(a: nat, b: nat, h0: nat, k0: nat, h1: nat, k1: nat, whole: nat, part: nat)
    requires
        b > 0,
        whole == h1 * a + h0 * b,
        part == k1 * a + k0 * b,
    ensures
        whole == (a / b * h1 + h0) * b + h1 * (a % b),
        part == (a / b * k1 + k0) * b + k1 * (a % b),
        a % b < b,
{
    lemma_fundamental_div_mod(a as int, b as int);
    lemma_mod_bound(a as int, b as int);
    let term = a / b;
    let rest = a % b;
    assert(a == b * term + rest);
    assert(h1 * a + h0 * b == (term * h1 + h0) * b + h1 * rest) by (nonlinear_arith)
        requires
            a == b * term + rest,
    ;
    assert(k1 * a + k0 * b == (term * k1 + k0) * b + k1 * rest) by (nonlinear_arith)
        requires
            a == b * term + rest,
    ;
}

proof fn lemma_exact_from(
    a: nat,
    b: nat,
    h0: nat,
    k0: nat,
    h1: nat,
    k1: nat,
    numerator: nat,
    denominator: nat,
    unit: nat,
    a_units: nat,
    b_units: nat,
)
    requires
        numerator == h1 * a + h0 * b,
        denominator == k1 * a + k0 * b,
        unit >= 1,
        a == unit * a_units,
        b == unit * b_units,
        a >= 1 || b >= 1,
        numerator >= 1,
        denominator >= 1,
        numerator <= MAX_PRICE_PART * unit,
        denominator <= MAX_PRICE_PART * unit,
    ensures
        ({
            let (n, d) = last_convergent(a, b, h0, k0, h1, k1);
            &&& n * denominator == d * numerator
            &&& 1 <= n <= MAX_PRICE_PART
            &&& 1 <= d <= MAX_PRICE_PART
        }),
    decreases b,
{
    if b == 0 {
        assert(h0 * b == 0 && k0 * b == 0) by (nonlinear_arith)
            requires
                b == 0,
        ;
        assert(h1 * (k1 * a) == k1 * (h1 * a)) by (nonlinear_arith);
        assert(h1 >= 1 && k1 >= 1) by (nonlinear_arith)
            requires
                h1 * a >= 1,
                k1 * a >= 1,
        ;
        assert(h1 <= MAX_PRICE_PART && k1 <= MAX_PRICE_PART) by (nonlinear_arith)
            requires
                h1 * a <= MAX_PRICE_PART * unit,
                k1 * a <= MAX_PRICE_PART * unit,
                a == unit * a_units,
                a >= 1,
                unit >= 1,
        ;
    } else {
        lemma_step(a, b, h0, k0, h1, k1, numerator, denominator);
        let term = a / b;
        let rest = a % b;
        let h2 = term * h1 + h0;
        let k2 = term * k1 + k0;
        lemma_fundamental_div_mod(a as int, b as int);
        assert(b_units >= 1) by (nonlinear_arith)
            requires
                b == unit * b_units,
                b > 0,
        ;
        assert(h2 <= MAX_PRICE_PART && k2 <= MAX_PRICE_PART) by (nonlinear_arith)
            requires
                numerator == h2 * b + h1 * rest,
                denominator == k2 * b + k1 * rest,
                numerator <= MAX_PRICE_PART * unit,
                denominator <= MAX_PRICE_PART * unit,
                b == unit * b_units,
                b_units >= 1,
                unit >= 1,
        ;
        assert(a_units >= term * b_units && rest == unit * (a_units - term * b_units))
            by (nonlinear_arith)
            requires
                a == b * term + rest,
                a == unit * a_units,
                b == unit * b_units,
                unit >= 1,
                rest >= 0,
        ;
        lemma_exact_from(
            b,
            rest,
            h1,
            k1,
            h2,
            k2,
            numerator,
            denominator,
            unit,
            b_units,
            (a_units - term * b_units) as nat,
        );
    }
}

/// A ratio that can be written with 32-bit parts is approximated exactly:
/// the price stands for the very same ratio.
pub proof fn lemma_exact_ratio_is_kept(numerator: nat, denominator: nat, unit: nat, n: nat, d: nat)
    requires
        unit >= 1,
        1 <= n <= MAX_PRICE_PART,
        1 <= d <= MAX_PRICE_PART,
        numerator == n * unit,
        denominator == d * unit,
    ensures
        approximated_price(numerator, denominator) matches Ok(price) && price.n >= 1 && price.d
            >= 1 && price.n * denominator == price.d * numerator,
{
    assert(numerator >= 1 && denominator >= 1 && numerator <= MAX_PRICE_PART * unit && denominator
        <= MAX_PRICE_PART * unit && numerator == unit * n && denominator == unit * d)
        by (nonlinear_arith)
        requires
            unit >= 1,
            1 <= n <= MAX_PRICE_PART,
            1 <= d <= MAX_PRICE_PART,
            numerator == n * unit,
            denominator == d * unit,
    ;
    assert(1 * numerator + 0 * denominator == numerator);
    assert(0 * numerator + 1 * denominator == denominator);
    lemma_exact_from(numerator, denominator, 0, 1, 1, 0, numerator, denominator, unit, n, d);
}

impl Price {
    /// The price `n / d`, if both parts are positive.
    pub fn from_fraction(n: i32, d: i32) -> (r: Result<Price, StellarSdkError>)
        ensures
            r == (if n > 0 && d > 0 {
                Ok::<Price, StellarSdkError>(Price { n, d })
            } else {
                Err::<Price, StellarSdkError>(StellarSdkError::InvalidPrice)
            }),
    {
        if n > 0 && d > 0 {
            Ok(Price { n, d })
        } else {
            Err(StellarSdkError::InvalidPrice)
        }
    }

    /// The best price for the ratio `numerator / denominator`.
    ///
    /// The continued fraction of the ratio is expanded as long as numerator
    /// and denominator of its convergents stay within the 32-bit range; the
    /// last such convergent is the price. It differs from the ratio by less
    /// than one over the square of its denominator.
    pub fn approximate(numerator: u64, denominator: u64) -> (r: Result<Price, StellarSdkError>)
        ensures
            r == approximated_price(numerator as nat, denominator as nat),
            r matches Ok(price) ==> price.n >= 1 && price.d >= 1 && distance(
                numerator * price.d,
                denominator * price.n,
            ) * price.d < denominator,
    {
        let mut a: u64 = numerator;
        let mut b: u64 = denominator;
        let mut h0: u64 = 0;
        let mut k0: u64 = 1;
        let mut h1: u64 = 1;
        let mut k1: u64 = 0;
        let ghost mut sign: int = 1;
        proof {
            assert(1 * numerator + 0 * denominator == numerator);
            assert(0 * numerator + 1 * denominator == denominator);
        }
        while b != 0
            invariant
                h0 <= MAX_PRICE_PART,
                k0 <= MAX_PRICE_PART,
                h1 <= MAX_PRICE_PART,
                k1 <= MAX_PRICE_PART,
                numerator == h1 * a + h0 * b,
                denominator == k1 * a + k0 * b,
                sign == 1 || sign == -1,
                h1 * k0 - h0 * k1 == sign,
                k1 == 0 ==> b == denominator && h1 == 1 && k0 == 1,
                k1 >= 1 ==> b < a,
                last_convergent(a as nat, b as nat, h0 as nat, k0 as nat, h1 as nat, k1 as nat)
                    == approximation(numerator as nat, denominator as nat),
            ensures
                h1 <= MAX_PRICE_PART,
                k1 <= MAX_PRICE_PART,
                numerator == h1 * a + h0 * b,
                denominator == k1 * a + k0 * b,
                sign == 1 || sign == -1,
                h1 * k0 - h0 * k1 == sign,
                k1 >= 1 ==> b < a,
                (h1 as nat, k1 as nat) == approximation(numerator as nat, denominator as nat),
            decreases b,
        {
            let term: u64 = a / b;
            let rest: u64 = a % b;
            proof {
                lemma_step(
                    a as nat,
                    b as nat,
                    h0 as nat,
                    k0 as nat,
                    h1 as nat,
                    k1 as nat,
                    numerator as nat,
                    denominator as nat,
                );
                assert(term * h1 <= 0xffff_ffff_ffff_ffff * 0x7fff_ffff) by (nonlinear_arith)
                    requires
                        term <= 0xffff_ffff_ffff_ffff,
                        h1 <= 0x7fff_ffff,
                ;
                assert(term * k1 <= 0xffff_ffff_ffff_ffff * 0x7fff_ffff) by (nonlinear_arith)
                    requires
                        term <= 0xffff_ffff_ffff_ffff,
                        k1 <= 0x7fff_ffff,
                ;
            }
            let h2: u128 = (term as u128) * (h1 as u128) + h0 as u128;
            let k2: u128 = (term as u128) * (k1 as u128) + k0 as u128;
            if h2 > MAX_PRICE_PART as u128 || k2 > MAX_PRICE_PART as u128 {
                break ;
            }
            proof {
                assert(h2 * k1 - h1 * k2 == -(h1 * k0 - h0 * k1)) by (nonlinear_arith)
                    requires
                        h2 == term * h1 + h0,
                        k2 == term * k1 + k0,
                ;
                if k1 == 0 {
                    assert(term * k1 == 0) by (nonlinear_arith)
                        requires
                            k1 == 0,
                    ;
                } else {
                    assert(term >= 1) by {
                        if term == 0 {
                            assert(a == b * term + rest) by {
                                lemma_fundamental_div_mod(a as int, b as int);
                            }
                            assert(b * term == 0) by (nonlinear_arith)
                                requires
                                    term == 0,
                            ;
                        }
                    }
                    assert(term * k1 >= 1) by (nonlinear_arith)
                        requires
                            term >= 1,
                            k1 >= 1,
                    ;
                }
                sign = -sign;
            }
            h0 = h1;
            k0 = k1;
            h1 = h2 as u64;
            k1 = k2 as u64;
            a = b;
            b = rest;
        }
        if h1 == 0 || k1 == 0 {
            return Err(StellarSdkError::NotApproximableAsFraction);
        }
        proof {
            let n = h1 as int;
            let d = k1 as int;
            assert(numerator * d - denominator * n == -(sign * b)) by (nonlinear_arith)
                requires
                    numerator == n * a + h0 * b,
                    denominator == d * a + k0 * b,
                    n * k0 - h0 * d == sign,
            ;
            assert(distance(numerator * d, denominator * n) == b);
            assert(b * d < denominator) by (nonlinear_arith)
                requires
                    denominator == d * a + k0 * b,
                    b < a,
                    d >= 1,
                    k0 >= 0,
                    b >= 0,
            ;
        }
        Ok(Price { n: h1 as i32, d: k1 as i32 })
    }
}

} // verus!
