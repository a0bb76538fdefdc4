//! The fixed-point units shared by every module, and division on them.

use vstd::prelude::*;

verus! {

/// The ratio one: gains, mixes, multipliers and fractions of a beat count
/// millionths, and a sample at full scale has this magnitude.
pub const UNIT: u32 = 1_000_000;

/// Microseconds in a second.
pub const MICROS_PER_SECOND: u64 = 1_000_000;

/// The quotient of `n` by a positive `d`, rounded toward zero.
pub open spec fn div_toward_zero(n: int, d: int) -> int {
    if n >= 0 {
        n / d
    } else {
        -((-n) / d)
    }
}

/// `x` multiplied by the fraction `num / den`, rounded toward zero.
pub open spec fn portion(x: int, num: int, den: int) -> int {
    div_toward_zero(x * num, den)
}

/// `x` multiplied by the ratio `ratio` (in millionths), rounded toward zero.
pub open spec fn scaled(x: int, ratio: int) -> int {
    portion(x, ratio, UNIT as int)
}

/// Rounding toward zero never grows a magnitude: a portion `num / den` of at
/// most one keeps `x` between zero and itself.
pub proof fn lemma_portion_bounds(x: int, num: int, den: int)
    requires
        0 <= num <= den,
        0 < den,
    ensures
        x >= 0 ==> 0 <= portion(x, num, den) <= x,
        x <= 0 ==> x <= portion(x, num, den) <= 0,
{
    let m = if x >= 0 { x } else { -x };
    assert(0 <= m * num <= m * den) by (nonlinear_arith)
        requires
            0 <= m,
            0 <= num <= den,
    ;
    vstd::arithmetic::div_mod::lemma_div_is_ordered(m * num, m * den, den);
    vstd::arithmetic::div_mod::lemma_div_multiples_vanish(m, den);
    vstd::arithmetic::div_mod::lemma_div_pos_is_pos(m * num, den);
    assert(m * den == den * m) by (nonlinear_arith);
    if x < 0 {
        assert(-(x * num) == m * num) by (nonlinear_arith)
            requires
                m == -x,
        ;
        assert(x * num <= 0) by (nonlinear_arith)
            requires
                x < 0,
                0 <= num,
        ;
    }
}

/// A product of a bounded value and a bounded ratio is bounded by the product
/// of the bounds.
pub proof fn lemma_product_bounds(x: int, limit: int, ratio: int, most: int)
    requires
        -limit <= x <= limit,
        0 <= ratio <= most,
    ensures
        -(limit * most) <= x * ratio <= limit * most,
{
    assert(-(limit * most) <= x * ratio <= limit * most) by (nonlinear_arith)
        requires
            -limit <= x <= limit,
            0 <= ratio <= most,
    ;
}

/// A quotient rounded toward zero is bounded by the quotient of the bound.
pub proof fn lemma_div_toward_zero_bounds(p: int, k: int, d: int)
    requires
        0 < d,
        0 <= k,
        -(k * d) <= p <= k * d,
    ensures
        -k <= div_toward_zero(p, d) <= k,
{
    let m = if p >= 0 { p } else { -p };
    vstd::arithmetic::div_mod::lemma_div_is_ordered(m, k * d, d);
    vstd::arithmetic::div_mod::lemma_div_multiples_vanish(k, d);
    vstd::arithmetic::div_mod::lemma_div_pos_is_pos(m, d);
    assert(k * d == d * k) by (nonlinear_arith);
}

/// Divides a product by `UNIT`, rounding toward zero.
pub fn div_unit(p: i64) -> (r: i64)
    requires
        p > i64::MIN,
    ensures
        r == div_toward_zero(p as int, UNIT as int),
{
    if p >= 0 {
        p / 1_000_000
    } else {
        let m: i64 = -p;
        let q: i64 = m / 1_000_000;
        -q
    }
}

} // verus!
