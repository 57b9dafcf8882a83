//! What cutting off and the ends of the range do to results.

use vstd::prelude::*;
use crate::base::amount::{distance, magnitude};
use crate::base::numbers::{
    between, end_beside, larger, product, quotient, ratio, ratio_or_end, saturated, share, smaller,
    truncated_div,
};

verus! {

/// A quotient is cut off towards zero: times the divisor it is at most the
/// dividend and less than one divisor away from it, and a minus sign of the
/// dividend is kept.
pub proof fn law_division_cuts_off(a: int, b: int)
    requires
        b > 0,
    ensures
        a >= 0 ==> truncated_div(a, b) >= 0 && truncated_div(a, b) * b <= a < truncated_div(a, b)
            * b + b,
        a <= 0 ==> truncated_div(a, b) <= 0 && truncated_div(a, b) * b - b < a <= truncated_div(
            a,
            b,
        ) * b,
        truncated_div(-a, b) == -truncated_div(a, b),
{
    let m = if a < 0 { -a } else { a };
    let q = m / b;
    assert(q >= 0 && q * b <= m < q * b + b) by (nonlinear_arith)
        requires
            m >= 0,
            b > 0,
            q == m / b,
    ;
    assert((-q) * b == -(q * b)) by (nonlinear_arith);
    assert(0int / b == 0) by (nonlinear_arith)
        requires
            b > 0,
    ;
}

/// A quotient between bounds of the dividend stays between the quotients: it is
/// the only number whose product with the divisor is that close.
pub proof fn law_division_unique(a: int, b: int, q: int)
    requires
        b > 0,
        a >= 0,
        q * b <= a < q * b + b,
    ensures
        truncated_div(a, b) == q,
{
    law_division_cuts_off(a, b);
    let r = truncated_div(a, b);
    assert(q == r) by (nonlinear_arith)
        requires
            b > 0,
            q * b <= a < q * b + b,
            r * b <= a < r * b + b,
    ;
}

/// A number in range stays, and one out of range becomes the end on its side;
/// the order of numbers is kept.
pub proof fn law_range_kept(x: int, y: int)
    ensures
        -0x8000_0000_0000_0000 <= saturated(x) <= 0x7fff_ffff_ffff_ffff,
        -0x8000_0000_0000_0000 <= x <= 0x7fff_ffff_ffff_ffff ==> saturated(x) == x,
        x > 0x7fff_ffff_ffff_ffff ==> saturated(x) == 0x7fff_ffff_ffff_ffff,
        x < -0x8000_0000_0000_0000 ==> saturated(x) == -0x8000_0000_0000_0000,
        x <= y ==> saturated(x) <= saturated(y),
{
}

/// The product of two numbers with eight places, where it is in range, is the
/// exact one cut off at eight places; a whole factor of one keeps the other.
pub proof fn law_product(a: int, b: int)
    requires
        -0x8000_0000_0000_0000 * 100_000_000 <= a * b <= 0x7fff_ffff_ffff_ffff * 100_000_000,
    ensures
        a * b >= 0 ==> product(a, b) * 100_000_000 <= a * b < product(a, b) * 100_000_000
            + 100_000_000,
        a * b <= 0 ==> product(a, b) * 100_000_000 - 100_000_000 < a * b <= product(a, b)
            * 100_000_000,
        product(a, b) == product(b, a),
        -0x8000_0000_0000_0000 <= a <= 0x7fff_ffff_ffff_ffff ==> product(a, 100_000_000) == a,
{
    law_division_cuts_off(a * b, 100_000_000);
    assert(a * b == b * a) by (nonlinear_arith);
    law_division_cuts_off(a * 100_000_000, 100_000_000);
}

/// A product is an end of the range exactly where the exact one lies beyond.
pub proof fn law_product_at_end(a: int, b: int)
    ensures
        a * b >= 0x8000_0000_0000_0000 * 100_000_000 ==> product(a, b) == 0x7fff_ffff_ffff_ffff,
        a * b <= -0x8000_0000_0000_0001 * 100_000_000 ==> product(a, b) == -0x8000_0000_0000_0000,
        a >= 0 && b >= 0 ==> product(a, b) >= 0,
        a >= 0 && b <= 0 ==> product(a, b) <= 0,
        a == 0 ==> product(a, b) == 0,
{
    law_division_cuts_off(a * b, 100_000_000);
    assert(a >= 0 && b >= 0 ==> a * b >= 0) by (nonlinear_arith);
    assert(a >= 0 && b <= 0 ==> a * b <= 0) by (nonlinear_arith);
    assert(a == 0 ==> a * b == 0) by (nonlinear_arith);
}

/// A larger factor makes no product with a number that is not negative smaller.
pub proof fn law_product_rises(a: int, b: int, c: int)
    requires
        a <= b,
        c >= 0,
    ensures
        product(a, c) <= product(b, c),
{
    assert(a * c <= b * c) by (nonlinear_arith)
        requires
            a <= b,
            c >= 0,
    ;
    lemma_division_rises(a * c, b * c, 100_000_000);
}

/// A larger dividend makes no quotient smaller.
pub proof fn lemma_division_rises(a: int, b: int, c: int)
    requires
        a <= b,
        c > 0,
    ensures
        truncated_div(a, c) <= truncated_div(b, c),
{
    law_division_cuts_off(a, c);
    law_division_cuts_off(b, c);
    let q = truncated_div(a, c);
    let r = truncated_div(b, c);
    if a >= 0 || b < 0 {
        assert(q <= r) by (nonlinear_arith)
            requires
                a <= b,
                c > 0,
                (q * c <= a && b < r * c + c) || (q * c - c < a && b <= r * c),
        ;
    }
}

/// The quotient of two numbers with eight places, where it is in range: times
/// the divisor it is the dividend, but for less than one unit of the divisor.
/// Signs count as they do for exact numbers, and dividing by one changes
/// nothing.
pub proof fn law_ratio(a: int, b: int)
    requires
        b > 0,
        -0x8000_0000_0000_0000 * b <= a * 100_000_000 <= 0x7fff_ffff_ffff_ffff * b,
    ensures
        a >= 0 ==> ratio(a, b) * b <= a * 100_000_000 < ratio(a, b) * b + b && ratio(a, b) >= 0,
        a <= 0 ==> ratio(a, b) * b - b < a * 100_000_000 <= ratio(a, b) * b && ratio(a, b) <= 0,
        ratio(-a, -b) == ratio(a, b),
        share(a, b) == ratio(a, b),
        -0x8000_0000_0000_0000 <= a <= 0x7fff_ffff_ffff_ffff ==> ratio(a, 100_000_000) == a,
{
    let x = a * 100_000_000;
    law_division_cuts_off(x, b);
    let q = truncated_div(x, b);
    assert(-0x8000_0000_0000_0000 <= q <= 0x7fff_ffff_ffff_ffff) by (nonlinear_arith)
        requires
            b > 0,
            -0x8000_0000_0000_0000 * b <= x <= 0x7fff_ffff_ffff_ffff * b,
            x >= 0 ==> q * b <= x && q >= 0,
            x <= 0 ==> x <= q * b && q <= 0,
    ;
    assert((-a) * 100_000_000 == -x);
    law_division_cuts_off(a * 100_000_000, 100_000_000);
}

/// A quotient of larger size than the range is the end of the range, and over
/// zero it is the end on the side of the dividend.
pub proof fn law_ratio_at_end(a: int, b: int)
    ensures
        b > 0 && a * 100_000_000 >= 0x8000_0000_0000_0000 * b ==> ratio(a, b)
            == 0x7fff_ffff_ffff_ffff,
        b > 0 && a >= 0 ==> ratio(a, b) >= 0,
        b > 0 && a <= 0 ==> ratio(a, b) <= 0,
        ratio_or_end(a, 0) == (if a < 0 {
            -0x8000_0000_0000_0000
        } else {
            0x7fff_ffff_ffff_ffffint
        }),
        b != 0 ==> ratio_or_end(a, b) == ratio(a, b),
{
    if b > 0 {
        let x = a * 100_000_000;
        law_division_cuts_off(x, b);
        let q = truncated_div(x, b);
        if x >= 0x8000_0000_0000_0000 * b {
            assert(q >= 0x8000_0000_0000_0000) by (nonlinear_arith)
                requires
                    b > 0,
                    x >= 0x8000_0000_0000_0000 * b,
                    x < q * b + b,
            ;
        }
    }
}

/// The smaller and the larger of two numbers, a number between bounds, and the
/// distance of two numbers.
pub proof fn law_choices(a: int, b: int, x: int)
    ensures
        smaller(a, b) <= a,
        smaller(a, b) <= b,
        smaller(a, b) == a || smaller(a, b) == b,
        larger(a, b) >= a,
        larger(a, b) >= b,
        larger(a, b) == a || larger(a, b) == b,
        a <= b ==> a <= between(x, a, b) <= b,
        a <= x <= b ==> between(x, a, b) == x,
        a <= b && x < a ==> between(x, a, b) == a,
        a <= b && x > b ==> between(x, a, b) == b,
        distance(a, b) >= 0,
        distance(a, b) == distance(b, a),
        a >= b ==> b + distance(a, b) == a,
        magnitude(x) == (if x >= 0 {
            x
        } else {
            -x
        }),
{
}

} // verus!
