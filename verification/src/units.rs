//! Fixed-point arithmetic in millionths.
//!
//! An intensity, a confidence or a relevance of `1.0` is the integer
//! [`UNIT`]; a decay rate of `0.1` per second is `100_000`.

use vstd::prelude::*;

verus! {

/// The fixed-point representation of `1.0`.
pub const UNIT: u64 = 1_000_000;

/// Internal scale of the exponential: nine decimal places.
pub const FINE: u64 = 1_000_000_000;

/// Number of binary digits of the exponent that [`exp_neg`] looks at.
pub const EXP_BITS: u32 = 25;

/// Exponents from here on (about 33.5) decay to zero.
pub const EXP_LIMIT: u64 = 33_554_432;

/// `e^(-2^i / 10^6)` to nine decimal places, for `0 <= i < 25`.
pub open spec fn decay_factor(i: int) -> nat {
    if i == 0 { 999999000 }
    else if i == 1 { 999998000 }
    else if i == 2 { 999996000 }
    else if i == 3 { 999992000 }
    else if i == 4 { 999984000 }
    else if i == 5 { 999968001 }
    else if i == 6 { 999936002 }
    else if i == 7 { 999872008 }
    else if i == 8 { 999744033 }
    else if i == 9 { 999488131 }
    else if i == 10 { 998976524 }
    else if i == 11 { 997954096 }
    else if i == 12 { 995912377 }
    else if i == 13 { 991841463 }
    else if i == 14 { 983749488 }
    else if i == 15 { 967763055 }
    else if i == 16 { 936565330 }
    else if i == 17 { 877154617 }
    else if i == 18 { 769400222 }
    else if i == 19 { 591976702 }
    else if i == 20 { 350436415 }
    else if i == 21 { 122805681 }
    else if i == 22 { 15081235 }
    else if i == 23 { 227444 }
    else { 52 }
}

/// Multiplies `acc` by the factor of every set binary digit of `rest`,
/// digit `i` first, rounding down after each product.
pub open spec fn decay_fold(rest: nat, i: nat, acc: nat) -> nat
    decreases EXP_BITS - i,
{
    if i >= EXP_BITS {
        acc
    } else {
        let next = if rest % 2 == 1 {
            acc * decay_factor(i as int) / (FINE as nat)
        } else {
            acc
        };
        decay_fold(rest / 2, i + 1, next)
    }
}

/// `e^(-x)` in millionths, for `x` in millionths: the product of the
/// tabulated factors of `x`'s binary digits, rounded down.
pub open spec fn spec_exp_neg(x: nat) -> nat {
    if x >= EXP_LIMIT {
        0
    } else {
        decay_fold(x, 0, FINE as nat) / 1000
    }
}

/// The smaller of `x` and [`UNIT`].
pub open spec fn spec_clamp_unit(x: nat) -> nat {
    if x > UNIT { UNIT as nat } else { x }
}

fn factor(i: u32) -> (f: u64)
    requires
        i < EXP_BITS,
    ensures
        f == decay_factor(i as int),
        f <= FINE,
{
    if i == 0 { 999999000 }
    else if i == 1 { 999998000 }
    else if i == 2 { 999996000 }
    else if i == 3 { 999992000 }
    else if i == 4 { 999984000 }
    else if i == 5 { 999968001 }
    else if i == 6 { 999936002 }
    else if i == 7 { 999872008 }
    else if i == 8 { 999744033 }
    else if i == 9 { 999488131 }
    else if i == 10 { 998976524 }
    else if i == 11 { 997954096 }
    else if i == 12 { 995912377 }
    else if i == 13 { 991841463 }
    else if i == 14 { 983749488 }
    else if i == 15 { 967763055 }
    else if i == 16 { 936565330 }
    else if i == 17 { 877154617 }
    else if i == 18 { 769400222 }
    else if i == 19 { 591976702 }
    else if i == 20 { 350436415 }
    else if i == 21 { 122805681 }
    else if i == 22 { 15081235 }
    else if i == 23 { 227444 }
    else { 52 }
}

/// A product with a factor of at most one does not grow.
pub proof fn lemma_decay_step(acc: nat, f: nat)
    requires
        f <= FINE,
    ensures
        acc * f / (FINE as nat) <= acc,
{
    assert(acc * f <= acc * (FINE as nat)) by (nonlinear_arith)
        requires
            f <= FINE,
    ;
    assert(acc * (FINE as nat) / (FINE as nat) == acc) by (nonlinear_arith);
    assert(acc * f / (FINE as nat) <= acc * (FINE as nat) / (FINE as nat)) by (nonlinear_arith)
        requires
            acc * f <= acc * (FINE as nat),
    ;
}

/// Folding never raises the accumulator.
pub proof fn lemma_decay_fold_bounded(rest: nat, i: nat, acc: nat)
    ensures
        decay_fold(rest, i, acc) <= acc,
    decreases EXP_BITS - i,
{
    if i < EXP_BITS {
        let next = if rest % 2 == 1 {
            acc * decay_factor(i as int) / (FINE as nat)
        } else {
            acc
        };
        lemma_decay_step(acc, decay_factor(i as int));
        lemma_decay_fold_bounded(rest / 2, i + 1, next);
    }
}

/// The exponential of a non-positive number is at most one, and that of zero
/// is one.
pub proof fn lemma_exp_neg_bounds(x: nat)
    ensures
        spec_exp_neg(x) <= UNIT,
        spec_exp_neg(0) == UNIT,
{
    lemma_decay_fold_bounded(x, 0, FINE as nat);
    reveal_with_fuel(decay_fold, 26);
    assert(decay_fold(0, 0, FINE as nat) == FINE);
}

/// `e^(-1)` is 0.367879 to six places.
pub proof fn lemma_exp_neg_one()
    ensures
        spec_exp_neg(1_000_000) == 367_879,
{
    assert(decay_fold(1000000, 0, 1000000000) == decay_fold(500000, 1, 1000000000));
    assert(decay_fold(500000, 1, 1000000000) == decay_fold(250000, 2, 1000000000));
    assert(decay_fold(250000, 2, 1000000000) == decay_fold(125000, 3, 1000000000));
    assert(decay_fold(125000, 3, 1000000000) == decay_fold(62500, 4, 1000000000));
    assert(decay_fold(62500, 4, 1000000000) == decay_fold(31250, 5, 1000000000));
    assert(decay_fold(31250, 5, 1000000000) == decay_fold(15625, 6, 1000000000));
    assert(decay_fold(15625, 6, 1000000000) == decay_fold(7812, 7, 999936002));
    assert(decay_fold(7812, 7, 999936002) == decay_fold(3906, 8, 999936002));
    assert(decay_fold(3906, 8, 999936002) == decay_fold(1953, 9, 999936002));
    assert(decay_fold(1953, 9, 999936002) == decay_fold(976, 10, 999424165));
    assert(decay_fold(976, 10, 999424165) == decay_fold(488, 11, 999424165));
    assert(decay_fold(488, 11, 999424165) == decay_fold(244, 12, 999424165));
    assert(decay_fold(244, 12, 999424165) == decay_fold(122, 13, 999424165));
    assert(decay_fold(122, 13, 999424165) == decay_fold(61, 14, 999424165));
    assert(decay_fold(61, 14, 999424165) == decay_fold(30, 15, 983183010));
    assert(decay_fold(30, 15, 983183010) == decay_fold(15, 16, 983183010));
    assert(decay_fold(15, 16, 983183010) == decay_fold(7, 17, 920815120));
    assert(decay_fold(7, 17, 920815120) == decay_fold(3, 18, 807697233));
    assert(decay_fold(3, 18, 807697233) == decay_fold(1, 19, 621442430));
    assert(decay_fold(1, 19, 621442430) == decay_fold(0, 20, 367879440));
    assert(decay_fold(0, 20, 367879440) == decay_fold(0, 21, 367879440));
    assert(decay_fold(0, 21, 367879440) == decay_fold(0, 22, 367879440));
    assert(decay_fold(0, 22, 367879440) == decay_fold(0, 23, 367879440));
    assert(decay_fold(0, 23, 367879440) == decay_fold(0, 24, 367879440));
    assert(decay_fold(0, 24, 367879440) == decay_fold(0, 25, 367879440));
    assert(decay_fold(0, 25, 367879440) == 367879440);
}

/// `e^(-x)` where `x` and the result are counted in millionths.
pub fn exp_neg(x: u64) -> (r: u64)
    ensures
        r == spec_exp_neg(x as nat),
        r <= UNIT,
{
    if x >= EXP_LIMIT {
        return 0;
    }
    let mut acc: u64 = FINE;
    let mut rest: u64 = x;
    let mut i: u32 = 0;
    while i < EXP_BITS
        invariant
            i <= EXP_BITS,
            acc <= FINE,
            decay_fold(rest as nat, i as nat, acc as nat) == decay_fold(x as nat, 0, FINE as nat),
        decreases EXP_BITS - i,
    {
        if rest % 2 == 1 {
            let f = factor(i);
            proof {
                lemma_decay_step(acc as nat, f as nat);
                assert(acc * f <= FINE * FINE) by (nonlinear_arith)
                    requires
                        acc <= FINE,
                        f <= FINE,
                ;
            }
            acc = acc * f / FINE;
        }
        rest = rest / 2;
        i = i + 1;
    }
    acc / 1000
}

/// Limits a fixed-point number to the range `[0, 1]`.
pub fn clamp_unit(x: u64) -> (r: u64)
    ensures
        r == spec_clamp_unit(x as nat),
        r <= UNIT,
{
    if x > UNIT { UNIT } else { x }
}

} // verus!
