//! Integer arithmetic: roots, means and numerals.

use vstd::prelude::*;
use crate::base::text::chars_of;

verus! {

/// The quotient without its fraction, for any sign of `a`.
pub open spec fn truncated_div(a: int, b: int) -> int {
    if a < 0 {
        -((-a) / b)
    } else {
        a / b
    }
}

/// The quotient without its fraction.
pub fn divide_wide(a: i128, b: u128) -> (q: i128)
    requires
        b > 0,
        a > i128::MIN,
    ensures
        q == truncated_div(a as int, b as int),
        -(a as int) <= q <= a || a <= q <= -(a as int),
{
    if a < 0 {
        let m: u128 = (-a) as u128;
        let d: u128 = m / b;
        assert(d <= m) by (nonlinear_arith)
            requires
                b >= 1,
                d == m / b,
        ;
        -(d as i128)
    } else {
        let m: u128 = a as u128;
        let d: u128 = m / b;
        assert(d <= m) by (nonlinear_arith)
            requires
                b >= 1,
                d == m / b,
        ;
        d as i128
    }
}

/// The quotient without its fraction.
pub fn divide_truncated(a: i128, b: u64) -> (q: i128)
    requires
        b > 0,
        a > i128::MIN,
    ensures
        q == truncated_div(a as int, b as int),
{
    divide_wide(a, b as u128)
}

/// Whether a number is in the range of `i64`.
pub open spec fn fits(x: int) -> bool {
    i64::MIN <= x <= i64::MAX
}

/// The number in the range of `i64` that is closest to `x`.
pub open spec fn saturated(x: int) -> int {
    if x < i64::MIN {
        i64::MIN as int
    } else if x > i64::MAX {
        i64::MAX as int
    } else {
        x
    }
}

/// The number in the range of `i64` that is closest to `x`.
pub fn saturate(x: i128) -> (r: i64)
    ensures
        r == saturated(x as int),
{
    if x < i64::MIN as i128 {
        i64::MIN
    } else if x > i64::MAX as i128 {
        i64::MAX
    } else {
        x as i64
    }
}

/// The quotient of two numbers with eight decimal places.
pub open spec fn share(a: int, b: int) -> int {
    saturated(truncated_div(a * 100_000_000, b))
}

/// The quotient of two numbers with eight decimal places.
pub fn share_of(a: i128, b: u128) -> (r: i64)
    requires
        b > 0,
        -0x10_0000_0000_0000_0000_0000_0000 <= a <= 0x10_0000_0000_0000_0000_0000_0000,
    ensures
        r == share(a as int, b as int),
{
    saturate(divide_wide(a * 100_000_000, b))
}

/// The product of two numbers with eight decimal places each.
pub open spec fn product(a: int, b: int) -> int {
    saturated(truncated_div(a * b, 100_000_000))
}

/// The product of two numbers with eight decimal places each.
pub fn product_of(a: i64, b: i64) -> (r: i64)
    ensures
        r == product(a as int, b as int),
{
    let x: i128 = a as i128;
    let y: i128 = b as i128;
    assert(-0x8000_0000_0000_0000 * 0x8000_0000_0000_0000 <= x * y <= 0x8000_0000_0000_0000
        * 0x8000_0000_0000_0000) by (nonlinear_arith)
        requires
            -0x8000_0000_0000_0000 <= x <= 0x8000_0000_0000_0000,
            -0x8000_0000_0000_0000 <= y <= 0x8000_0000_0000_0000,
    ;
    saturate(divide_wide(x * y, 100_000_000))
}

/// The quotient without its fraction, for any signs.
pub open spec fn quotient(a: int, b: int) -> int {
    if b < 0 {
        truncated_div(-a, -b)
    } else {
        truncated_div(a, b)
    }
}

/// The quotient without its fraction, for any signs.
pub fn divide_signed(a: i128, b: i128) -> (q: i128)
    requires
        b != 0,
        b > i128::MIN,
        a > i128::MIN,
    ensures
        q == quotient(a as int, b as int),
{
    if b < 0 {
        divide_wide(-a, (-b) as u128)
    } else {
        divide_wide(a, b as u128)
    }
}

/// The quotient of two numbers with eight decimal places, for any signs.
pub open spec fn ratio(a: int, b: int) -> int {
    saturated(quotient(a * 100_000_000, b))
}

/// The quotient of two numbers with eight decimal places, for any signs.
pub fn ratio_of(a: i128, b: i128) -> (r: i64)
    requires
        b != 0,
        b > i128::MIN,
        -0x10_0000_0000_0000_0000_0000_0000 <= a <= 0x10_0000_0000_0000_0000_0000_0000,
    ensures
        r == ratio(a as int, b as int),
{
    if b < 0 {
        assert((-a) * 100_000_000 == -(a * 100_000_000));
        share_of(-a, (-b) as u128)
    } else {
        share_of(a, b as u128)
    }
}

/// The end of the range on the side of a number.
pub open spec fn end_beside(a: int) -> int {
    if a < 0 {
        i64::MIN as int
    } else {
        i64::MAX as int
    }
}

/// The quotient of two numbers with eight decimal places; over zero, the end of
/// the range on the side of the dividend.
pub open spec fn ratio_or_end(a: int, b: int) -> int {
    if b == 0 {
        end_beside(a)
    } else {
        ratio(a, b)
    }
}

/// The quotient of two numbers with eight decimal places; over zero, the end of
/// the range on the side of the dividend. Zero over zero has no value.
pub fn ratio_or_end_of(a: i128, b: i128) -> (r: i64)
    requires
        a != 0 || b != 0,
        b > i128::MIN,
        -0x10_0000_0000_0000_0000_0000_0000 <= a <= 0x10_0000_0000_0000_0000_0000_0000,
    ensures
        r == ratio_or_end(a as int, b as int),
{
    if b != 0 {
        ratio_of(a, b)
    } else if a < 0 {
        i64::MIN
    } else {
        i64::MAX
    }
}

/// A sum of products, what adds to it and what takes from it kept apart.
#[derive(Debug, Clone, Copy, PartialEq, Eq, Structural)]
pub struct ProductSum {
    pub added: u128,
    pub taken: u128,
}

/// The largest product of two numbers in the range of `i64`.
pub open spec fn largest_product() -> int {
    0x4000_0000_0000_0000_0000_0000_0000_0000
}

impl ProductSum {
    /// The sum.
    pub open spec fn value(self) -> int {
        self.added - self.taken
    }

    /// Nothing.
    pub fn new() -> (s: Self)
        ensures
            s == (ProductSum { added: 0, taken: 0 }),
    {
        ProductSum { added: 0, taken: 0 }
    }

    /// Adds a product.
    pub fn add_product(&mut self, a: i64, b: i64)
        requires
            old(self).added <= 2 * largest_product(),
            old(self).taken <= 2 * largest_product(),
        ensures
            final(self).value() == old(self).value() + a * b,
            final(self).added <= old(self).added + largest_product(),
            final(self).taken <= old(self).taken + largest_product(),
    {
        let x: i128 = a as i128;
        let y: i128 = b as i128;
        assert(-0x4000_0000_0000_0000_0000_0000_0000_0000 <= x * y
            <= 0x4000_0000_0000_0000_0000_0000_0000_0000) by (nonlinear_arith)
            requires
                -0x8000_0000_0000_0000 <= x <= 0x7fff_ffff_ffff_ffff,
                -0x8000_0000_0000_0000 <= y <= 0x7fff_ffff_ffff_ffff,
        ;
        let p: i128 = x * y;
        if p >= 0 {
            self.added = self.added + p as u128;
        } else {
            self.taken = self.taken + (-p) as u128;
        }
    }

    /// The sum divided by a number.
    pub fn divided_by(self, b: i128) -> (r: i64)
        requires
            b != 0,
            b > i128::MIN,
        ensures
            r == saturated(quotient(self.value(), b as int)),
    {
        let divisor: u128 = if b < 0 { (-b) as u128 } else { b as u128 };
        let negative: bool = (self.added < self.taken) != (b < 0);
        let size: u128 = if self.added < self.taken {
            self.taken - self.added
        } else {
            self.added - self.taken
        };
        let q: u128 = size / divisor;
        if self.added == self.taken {
            assert(0int / divisor as int == 0) by (nonlinear_arith)
                requires
                    divisor > 0,
            ;
            0
        } else if negative {
            if q >= 0x8000_0000_0000_0000 {
                i64::MIN
            } else {
                -(q as i64)
            }
        } else if q >= 0x8000_0000_0000_0000 {
            i64::MAX
        } else {
            q as i64
        }
    }
}

/// The smaller of two numbers.
pub open spec fn smaller(a: int, b: int) -> int {
    if a <= b {
        a
    } else {
        b
    }
}

/// The larger of two numbers.
pub open spec fn larger(a: int, b: int) -> int {
    if a >= b {
        a
    } else {
        b
    }
}

/// A number held between two bounds; the upper one wins.
pub open spec fn between(x: int, low: int, high: int) -> int {
    smaller(larger(x, low), high)
}

/// A number held between two bounds; the upper one wins.
pub fn hold_between(x: i64, low: i64, high: i64) -> (r: i64)
    ensures
        r == between(x as int, low as int, high as int),
{
    let y: i64 = if x >= low { x } else { low };
    if y <= high {
        y
    } else {
        high
    }
}

/// Whether `r` is the largest number whose square is at most `n`.
pub open spec fn is_root(r: int, n: int) -> bool {
    0 <= r && r * r <= n && n < (r + 1) * (r + 1)
}

/// There is only one root.
pub proof fn lemma_root_unique(a: int, b: int, n: int)
    requires
        is_root(a, n),
        is_root(b, n),
    ensures
        a == b,
{
    if a < b {
        assert((a + 1) * (a + 1) <= b * b) by (nonlinear_arith)
            requires
                0 <= a < b,
        ;
    }
    if b < a {
        assert((b + 1) * (b + 1) <= a * a) by (nonlinear_arith)
            requires
                0 <= b < a,
        ;
    }
}

/// The largest number whose square is at most `n`.
pub fn root(n: u128) -> (r: u64)
    ensures
        is_root(r as int, n as int),
{
    let mut low: u128 = 0;
    let mut high: u128 = 18446744073709551616;
    assert(n < 18446744073709551616 * 18446744073709551616);
    while low + 1 < high
        invariant
            low < high <= 18446744073709551616,
            low * low <= n < high * high,
        decreases high - low,
    {
        let mid: u128 = low + (high - low) / 2;
        assert(mid * mid <= 0xffff_ffff_ffff_ffff * 0xffff_ffff_ffff_ffff) by (nonlinear_arith)
            requires
                mid <= 0xffff_ffff_ffff_ffff,
        ;
        if mid * mid <= n {
            low = mid;
        } else {
            high = mid;
        }
    }
    assert(high == low + 1);
    low as u64
}

/// The number that digits stand for.
pub open spec fn numeral_value(s: Seq<char>) -> nat
    decreases s.len(),
{
    if s.len() == 0 {
        0
    } else {
        numeral_value(s.drop_last()) * 10 + (s.last() as nat - 48) as nat
    }
}

/// Whether all characters are decimal digits.
pub open spec fn all_numeric(s: Seq<char>) -> bool {
    forall|i: int| 0 <= i < s.len() ==> '0' <= #[trigger] s[i] <= '9'
}

/// The number in a decimal numeral, with or without a plus sign in front,
/// where it is at most `max`.
pub open spec fn numeral(s: Seq<char>, max: nat) -> Option<nat> {
    let digits = if s.len() > 0 && s[0] == '+' {
        s.skip(1)
    } else {
        s
    };
    if digits.len() > 0 && all_numeric(digits) && numeral_value(digits) <= max {
        Some(numeral_value(digits))
    } else {
        None
    }
}

proof fn lemma_numeral_grows(s: Seq<char>, k: int)
    requires
        0 <= k <= s.len(),
        all_numeric(s),
    ensures
        numeral_value(s) >= numeral_value(s.take(k)),
    decreases s.len() - k,
{
    if k == s.len() {
        assert(s.take(k) =~= s);
    } else {
        lemma_numeral_grows(s, k + 1);
        assert(s.take(k + 1).drop_last() =~= s.take(k));
        assert('0' <= s[k] <= '9');
        assert(s.take(k + 1).last() == s[k]);
    }
}

/// The number in a decimal numeral, with or without a plus sign in front,
/// where it fits.
pub fn parse_u64(text: &str) -> (r: Option<u64>)
    ensures
        r is Some <==> numeral(text@, u64::MAX as nat) is Some,
        r matches Some(n) ==> numeral(text@, u64::MAX as nat) == Some(n as nat),
{
    let v = chars_of(text);
    let start: usize = if v.len() > 0 && v[0] == '+' { 1 } else { 0 };
    let ghost digits = if v@.len() > 0 && v@[0] == '+' {
        v@.skip(1)
    } else {
        v@
    };
    assert(digits =~= v@.skip(start as int));
    if start >= v.len() {
        return None;
    }
    let mut value: u128 = 0;
    let mut i: usize = start;
    assert(digits.take(0) =~= Seq::<char>::empty());
    while i < v.len()
        invariant
            start <= i <= v@.len(),
            v@ == text@,
            digits == v@.skip(start as int),
            numeral(text@, u64::MAX as nat) == (if digits.len() > 0 && all_numeric(digits)
                && numeral_value(digits) <= u64::MAX {
                Some(numeral_value(digits))
            } else {
                None
            }),
            forall|j: int| 0 <= j < i - start ==> '0' <= #[trigger] digits[j] <= '9',
            value == numeral_value(digits.take(i - start)),
            value <= u64::MAX,
        decreases v@.len() - i,
    {
        let c: char = v[i];
        assert(digits[i - start] == c);
        if c < '0' || c > '9' {
            return None;
        }
        proof {
            assert(digits.take(i - start + 1).drop_last() =~= digits.take(i - start));
            assert(digits.take(i - start + 1).last() == c);
        }
        value = value * 10 + (c as u32 - 48) as u128;
        i += 1;
        if value > u64::MAX as u128 {
            proof {
                if all_numeric(digits) {
                    lemma_numeral_grows(digits, i - start);
                }
            }
            return None;
        }
    }
    assert(digits.take(digits.len() as int) =~= digits);
    assert(all_numeric(digits));
    Some(value as u64)
}

} // verus!
