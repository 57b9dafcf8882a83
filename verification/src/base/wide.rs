//! Natural numbers of any size, in limbs of thirty-two bits, the lowest first.

use vstd::prelude::*;
use crate::base::amount::magnitude;
use crate::base::numbers::{quotient, saturated};

verus! {

/// The weight of the limb at a place.
pub open spec fn weight(place: nat) -> int
    decreases place,
{
    if place == 0 {
        1
    } else {
        0x1_0000_0000 * weight((place - 1) as nat)
    }
}

/// The number that limbs stand for.
pub open spec fn value(s: Seq<u32>) -> int
    decreases s.len(),
{
    if s.len() == 0 {
        0
    } else {
        value(s.drop_last()) + s.last() * weight((s.len() - 1) as nat)
    }
}

proof fn lemma_weight_positive(place: nat)
    ensures
        weight(place) >= 1,
    decreases place,
{
    if place > 0 {
        lemma_weight_positive((place - 1) as nat);
    }
}

/// The number is not negative and less than the weight of the next place.
proof fn lemma_value_bounds(s: Seq<u32>)
    ensures
        0 <= value(s) < weight(s.len()),
    decreases s.len(),
{
    if s.len() > 0 {
        lemma_value_bounds(s.drop_last());
        let w = weight((s.len() - 1) as nat);
        let x = s.last() as int;
        assert(0 <= x * w && x * w + w <= 0x1_0000_0000 * w) by (nonlinear_arith)
            requires
                0 <= x < 0x1_0000_0000,
                w >= 1,
        ;
    }
}

proof fn lemma_take_next(s: Seq<u32>, i: int)
    requires
        0 <= i < s.len(),
    ensures
        value(s.take(i + 1)) == value(s.take(i)) + s[i] * weight(i as nat),
{
    assert(s.take(i + 1).drop_last() =~= s.take(i));
    assert(s.take(i + 1).last() == s[i]);
}

/// A number in limbs.
pub fn limbs_of(x: u128) -> (r: Vec<u32>)
    ensures
        value(r@) == x,
{
    let mut out: Vec<u32> = Vec::new();
    let mut rest: u128 = x;
    proof {
        assert(weight(0) == 1);
    }
    while rest > 0
        invariant
            value(out@) + rest * weight(out@.len()) == x,
        decreases rest,
    {
        let ghost before = out@;
        let ghost w = weight(before.len());
        let limb: u32 = (rest % 0x1_0000_0000) as u32;
        let next: u128 = rest / 0x1_0000_0000;
        out.push(limb);
        proof {
            assert(out@.drop_last() =~= before);
            assert(weight(out@.len()) == 0x1_0000_0000 * w);
            assert(limb * w + next * (0x1_0000_0000 * w) == rest * w) by (nonlinear_arith)
                requires
                    rest == limb + next * 0x1_0000_0000,
            ;
        }
        rest = next;
    }
    proof {
        assert(0 * weight(out@.len()) == 0) by (nonlinear_arith);
    }
    out
}

/// A number times a small one.
pub fn times_small(s: &Vec<u32>, m: u32) -> (r: Vec<u32>)
    ensures
        value(r@) == value(s@) * m,
{
    let mut out: Vec<u32> = Vec::new();
    let mut carry: u64 = 0;
    let mut i: usize = 0;
    assert(s@.take(0) =~= Seq::<u32>::empty());
    while i < s.len()
        invariant
            i <= s@.len(),
            out@.len() == i,
            carry < 0x1_0000_0000,
            value(out@) + carry * weight(i as nat) == value(s@.take(i as int)) * m,
        decreases s@.len() - i,
    {
        let ghost before = out@;
        let ghost w = weight(i as nat);
        let ghost c = carry as int;
        let x: u32 = s[i];
        assert(0 <= x * m <= 0xffff_ffff * 0xffff_ffff) by (nonlinear_arith)
            requires
                0 <= x <= 0xffff_ffff,
                0 <= m <= 0xffff_ffff,
        ;
        let t: u64 = x as u64 * m as u64 + carry;
        let limb: u32 = (t % 0x1_0000_0000) as u32;
        carry = t / 0x1_0000_0000;
        out.push(limb);
        proof {
            lemma_take_next(s@, i as int);
            assert(out@.drop_last() =~= before);
            assert(weight((i + 1) as nat) == 0x1_0000_0000 * w);
            assert(limb * w + carry * (0x1_0000_0000 * w) == x * w * m + c * w)
                by (nonlinear_arith)
                requires
                    limb + carry * 0x1_0000_0000 == x * m + c,
            ;
            let v = value(s@.take(i as int));
            assert((v + x * w) * m == v * m + x * w * m) by (nonlinear_arith);
        }
        i += 1;
    }
    assert(s@.take(s@.len() as int) =~= s@);
    let ghost before = out@;
    out.push(carry as u32);
    assert(out@.drop_last() =~= before);
    out
}

/// The limb at a place; zero beyond the end.
fn limb_at(s: &Vec<u32>, i: usize) -> (r: u32)
    ensures
        r == (if i < s@.len() {
            s@[i as int]
        } else {
            0
        }),
{
    if i < s.len() {
        s[i]
    } else {
        0
    }
}

/// The number that the limbs below a place stand for.
spec fn low(s: Seq<u32>, i: int) -> int {
    if i < s.len() {
        value(s.take(i))
    } else {
        value(s)
    }
}

proof fn lemma_low_next(s: Seq<u32>, i: int)
    requires
        0 <= i,
    ensures
        low(s, i + 1) == low(s, i) + (if i < s.len() {
            s[i]
        } else {
            0u32
        }) * weight(i as nat),
        0 <= low(s, i) < weight(i as nat),
{
    if i < s.len() {
        lemma_take_next(s, i);
        assert(s.take(s.len() as int) =~= s);
        lemma_value_bounds(s.take(i));
    } else {
        assert(0 * weight(i as nat) == 0) by (nonlinear_arith);
        lemma_value_bounds(s);
        lemma_weights_rise(s.len(), i as nat);
    }
}

proof fn lemma_weights_rise(a: nat, b: nat)
    requires
        a <= b,
    ensures
        weight(a) <= weight(b),
    decreases b,
{
    if a < b {
        lemma_weights_rise(a, (b - 1) as nat);
        lemma_weight_positive((b - 1) as nat);
    }
}

/// The sum of two numbers.
pub fn plus(a: &Vec<u32>, b: &Vec<u32>) -> (r: Vec<u32>)
    ensures
        value(r@) == value(a@) + value(b@),
{
    let n: usize = if a.len() >= b.len() { a.len() } else { b.len() };
    let mut out: Vec<u32> = Vec::new();
    let mut carry: u64 = 0;
    let mut i: usize = 0;
    assert(a@.take(0) =~= Seq::<u32>::empty());
    assert(b@.take(0) =~= Seq::<u32>::empty());
    while i < n
        invariant
            i <= n,
            out@.len() == i,
            carry <= 1,
            value(out@) + carry * weight(i as nat) == low(a@, i as int) + low(b@, i as int),
        decreases n - i,
    {
        let ghost before = out@;
        let ghost w = weight(i as nat);
        let ghost c = carry as int;
        let x: u32 = limb_at(a, i);
        let y: u32 = limb_at(b, i);
        let t: u64 = x as u64 + y as u64 + carry;
        let limb: u32 = (t % 0x1_0000_0000) as u32;
        carry = t / 0x1_0000_0000;
        out.push(limb);
        proof {
            lemma_low_next(a@, i as int);
            lemma_low_next(b@, i as int);
            assert(out@.drop_last() =~= before);
            assert(weight((i + 1) as nat) == 0x1_0000_0000 * w);
            assert(limb * w + carry * (0x1_0000_0000 * w) == x * w + y * w + c * w)
                by (nonlinear_arith)
                requires
                    limb + carry * 0x1_0000_0000 == x + y + c,
            ;
        }
        i += 1;
    }
    let ghost before = out@;
    out.push(carry as u32);
    assert(out@.drop_last() =~= before);
    out
}

/// The product of two numbers.
pub fn times(a: &Vec<u32>, b: &Vec<u32>) -> (r: Vec<u32>)
    ensures
        value(r@) == value(a@) * value(b@),
{
    let mut out: Vec<u32> = Vec::new();
    let mut i: usize = b.len();
    assert(b@.skip(b@.len() as int) =~= Seq::<u32>::empty());
    proof {
        assert(value(a@) * 0 == 0) by (nonlinear_arith);
    }
    while i > 0
        invariant
            i <= b@.len(),
            value(out@) == value(a@) * value(b@.skip(i as int)),
        decreases i,
    {
        i -= 1;
        let mut moved: Vec<u32> = Vec::new();
        moved.push(0);
        let mut k: usize = 0;
        while k < out.len()
            invariant
                k <= out@.len(),
                moved@ == seq![0u32] + out@.take(k as int),
            decreases out@.len() - k,
        {
            moved.push(out[k]);
            k += 1;
            assert(moved@ =~= seq![0u32] + out@.take(k as int));
        }
        let part = times_small(a, b[i]);
        proof {
            assert(out@.take(out@.len() as int) =~= out@);
            lemma_first_limb(0, out@);
            let s = b@.skip(i + 1);
            assert(b@.skip(i as int) =~= seq![b@[i as int]] + s);
            lemma_first_limb(b@[i as int], s);
            let v = value(a@);
            let y = value(s);
            let x = b@[i as int] as int;
            assert(0x1_0000_0000 * (v * y) + v * x == v * (x + 0x1_0000_0000 * y))
                by (nonlinear_arith);
        }
        out = plus(&moved, &part);
    }
    assert(b@.skip(0) =~= b@);
    out
}

proof fn lemma_first_limb(x: u32, s: Seq<u32>)
    ensures
        value(seq![x] + s) == x + 0x1_0000_0000 * value(s),
    decreases s.len(),
{
    let t = seq![x] + s;
    if s.len() == 0 {
        assert(t.drop_last() =~= Seq::<u32>::empty());
        assert(t.last() == x);
        assert(t.len() == 1);
        assert(value(t.drop_last()) == 0);
        assert(value(s) == 0);
        assert(weight(0) == 1);
        assert(value(t) == x * weight(0));
        assert(x * 1 == x) by (nonlinear_arith);
    } else {
        lemma_first_limb(x, s.drop_last());
        assert(t.drop_last() =~= seq![x] + s.drop_last());
        assert(t.last() == s.last());
        let w = weight((s.len() - 1) as nat);
        let y = s.last() as int;
        let v = value(s.drop_last());
        assert(t.len() - 1 == s.len());
        assert(weight((t.len() - 1) as nat) == 0x1_0000_0000 * w);
        assert(value(t) == value(t.drop_last()) + y * (0x1_0000_0000 * w));
        assert(0x1_0000_0000 * v + y * (0x1_0000_0000 * w) == 0x1_0000_0000 * (v + y * w))
            by (nonlinear_arith);
    }
}

/// Whether a number is at most another one.
pub fn at_most(a: &Vec<u32>, b: &Vec<u32>) -> (r: bool)
    ensures
        r == (value(a@) <= value(b@)),
{
    let n: usize = if a.len() >= b.len() { a.len() } else { b.len() };
    let mut i: usize = n;
    while i > 0
        invariant
            i <= n,
            value(a@) - value(b@) == low(a@, i as int) - low(b@, i as int),
        decreases i,
    {
        i -= 1;
        let x: u32 = limb_at(a, i);
        let y: u32 = limb_at(b, i);
        proof {
            lemma_low_next(a@, i as int);
            lemma_low_next(b@, i as int);
            let w = weight(i as nat);
            if x < y {
                assert(x * w + w <= y * w) by (nonlinear_arith)
                    requires
                        x + 1 <= y,
                        w >= 0,
                ;
            }
            if y < x {
                assert(y * w + w <= x * w) by (nonlinear_arith)
                    requires
                        y + 1 <= x,
                        w >= 0,
                ;
            }
        }
        if x < y {
            return true;
        }
        if x > y {
            return false;
        }
    }
    assert(a@.take(0) =~= Seq::<u32>::empty());
    assert(b@.take(0) =~= Seq::<u32>::empty());
    true
}

/// The quotient of two numbers, or the largest number in range where that is
/// less.
pub open spec fn capped_quotient(n: int, d: int) -> int {
    if n / d < u64::MAX {
        n / d
    } else {
        u64::MAX as int
    }
}

/// The quotient of two numbers, up to the largest number in range.
pub fn quotient_up_to_max(n: &Vec<u32>, d: &Vec<u32>) -> (q: u64)
    requires
        value(d@) > 0,
    ensures
        q == capped_quotient(value(n@), value(d@)),
{
    let ghost a = value(n@);
    let ghost b = value(d@);
    let mut low: u128 = 0;
    let mut high: u128 = 0x1_0000_0000_0000_0000;
    proof {
        lemma_value_bounds(n@);
        assert(0 * b == 0) by (nonlinear_arith);
    }
    while low + 1 < high
        invariant
            a == value(n@),
            b == value(d@),
            0 <= low < high <= 0x1_0000_0000_0000_0000,
            low * b <= a,
            high < 0x1_0000_0000_0000_0000 ==> a < high * b,
        decreases high - low,
    {
        let mid: u128 = low + (high - low) / 2;
        let product = times(d, &limbs_of(mid));
        assert(b * mid == mid * b) by (nonlinear_arith);
        if at_most(&product, n) {
            low = mid;
        } else {
            high = mid;
        }
    }
    proof {
        let q = low as int;
        if high < 0x1_0000_0000_0000_0000 {
            assert(a / b == q) by (nonlinear_arith)
                requires
                    q * b <= a < (q + 1) * b,
                    b > 0,
            ;
        } else {
            assert(a / b >= q) by (nonlinear_arith)
                requires
                    q * b <= a,
                    b > 0,
            ;
        }
    }
    low as u64
}

/// The size of a number.
fn size_of(x: i128) -> (r: u128)
    requires
        x > i128::MIN,
    ensures
        r == magnitude(x as int),
{
    if x < 0 {
        (-x) as u128
    } else {
        x as u128
    }
}

/// The size of a product is the product of the sizes, and its sign that of one
/// factor or its opposite.
proof fn lemma_signed_product(a: int, b: int)
    ensures
        magnitude(a * b) == magnitude(a) * magnitude(b),
        a * b < 0 <==> ((a < 0) != (b < 0)) && a != 0 && b != 0,
        a * b == 0 <==> a == 0 || b == 0,
{
    if a < 0 && b < 0 {
        assert(a * b > 0 && a * b == (-a) * (-b)) by (nonlinear_arith)
            requires
                a < 0,
                b < 0,
        ;
    } else if a < 0 && b > 0 {
        assert(a * b < 0 && -(a * b) == (-a) * b) by (nonlinear_arith)
            requires
                a < 0,
                b > 0,
        ;
    } else if a > 0 && b < 0 {
        assert(a * b < 0 && -(a * b) == a * (-b)) by (nonlinear_arith)
            requires
                a > 0,
                b < 0,
        ;
    } else if a > 0 && b > 0 {
        assert(a * b > 0) by (nonlinear_arith)
            requires
                a > 0,
                b > 0,
        ;
    } else {
        assert(a * b == 0) by (nonlinear_arith)
            requires
                a == 0 || b == 0,
        ;
        assert(magnitude(a) * magnitude(b) == 0) by (nonlinear_arith)
            requires
                magnitude(a) == 0 || magnitude(b) == 0,
        ;
    }
}

/// Whether the size of a product is larger than a limit.
pub fn product_exceeds(a: i128, b: i128, limit: u128) -> (r: bool)
    requires
        a > i128::MIN,
        b > i128::MIN,
    ensures
        r == (magnitude(a * b) > limit),
{
    let n = times(&limbs_of(size_of(a)), &limbs_of(size_of(b)));
    proof {
        lemma_signed_product(a as int, b as int);
    }
    !at_most(&n, &limbs_of(limit))
}

/// A product divided by another one, without the fraction and in range.
pub fn divide_products(a: i128, x: i128, b: i128, y: i128) -> (r: i64)
    requires
        a > i128::MIN,
        x > i128::MIN,
        b > i128::MIN,
        y > i128::MIN,
        b != 0,
        y != 0,
    ensures
        r == saturated(quotient(a * x, b * y)),
{
    let n = times(&limbs_of(size_of(a)), &limbs_of(size_of(x)));
    let d = times(&limbs_of(size_of(b)), &limbs_of(size_of(y)));
    proof {
        lemma_signed_product(a as int, x as int);
        lemma_signed_product(b as int, y as int);
    }
    let ghost above = a * x;
    let ghost below = b * y;
    assert(value(d@) > 0);
    let q: u64 = quotient_up_to_max(&n, &d);
    let negative: bool = a != 0 && x != 0 && (((a < 0) != (x < 0)) != ((b < 0) != (y < 0)));
    proof {
        let whole = magnitude(above) as int / magnitude(below) as int;
        assert(whole >= 0) by (nonlinear_arith)
            requires
                whole == magnitude(above) as int / magnitude(below) as int,
                magnitude(below) > 0,
        ;
        if above == 0 {
            assert(0int / magnitude(below) as int == 0) by (nonlinear_arith)
                requires
                    magnitude(below) > 0,
            ;
        }
        assert(quotient(above, below) == (if negative {
            -whole
        } else {
            whole
        }));
    }
    if negative {
        if q >= 0x8000_0000_0000_0000 {
            i64::MIN
        } else {
            -(q as i64)
        }
    } else if q >= 0x8000_0000_0000_0000 {
        i64::MAX
    } else {
        q as i64
    }
}

} // verus!
