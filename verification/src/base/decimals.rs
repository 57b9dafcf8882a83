//! Decimal notation with an optional sign, fraction and power of ten, such as
//! `-12.5e3`, read as an amount.

use vstd::prelude::*;
use crate::base::amount::Amount;
use crate::base::numbers::{all_numeric, numeral_value, saturated};
use crate::base::text::chars_of;

verus! {

/// Ten times itself, `k` times.
pub open spec fn power_of_ten(k: nat) -> nat
    decreases k,
{
    if k == 0 {
        1
    } else {
        10 * power_of_ten((k - 1) as nat)
    }
}

/// `n` with its decimal point moved right by `shift` places, without what then
/// stands behind the point.
pub open spec fn shifted(n: nat, shift: int) -> nat {
    if shift >= 0 {
        n * power_of_ten(shift as nat)
    } else {
        n / power_of_ten((-shift) as nat)
    }
}

/// A plus or minus sign.
pub open spec fn is_sign(c: char) -> bool {
    c == '+' || c == '-'
}

/// Text without the sign in front of it.
pub open spec fn unsigned(s: Seq<char>) -> Seq<char> {
    if s.len() > 0 && is_sign(s[0]) {
        s.skip(1)
    } else {
        s
    }
}

/// Whether a minus sign stands in front.
pub open spec fn is_negative(s: Seq<char>) -> bool {
    s.len() > 0 && s[0] == '-'
}

/// Digits, and the point among them.
pub open spec fn is_mantissa_char(c: char) -> bool {
    '0' <= c <= '9' || c == '.'
}

/// Where the digits and points that start at `i` end.
pub open spec fn mantissa_end(s: Seq<char>, i: int) -> int
    decreases s.len() - i,
{
    if 0 <= i < s.len() && is_mantissa_char(s[i]) {
        mantissa_end(s, i + 1)
    } else {
        i
    }
}

/// How many points there are.
pub open spec fn points(s: Seq<char>) -> nat
    decreases s.len(),
{
    if s.len() == 0 {
        0
    } else {
        points(s.drop_last()) + if s.last() == '.' {
            1nat
        } else {
            0
        }
    }
}

/// The text without its points.
pub open spec fn digits_of(s: Seq<char>) -> Seq<char>
    decreases s.len(),
{
    if s.len() == 0 {
        Seq::empty()
    } else if s.last() == '.' {
        digits_of(s.drop_last())
    } else {
        digits_of(s.drop_last()).push(s.last())
    }
}

/// How many characters stand behind a point.
pub open spec fn places(s: Seq<char>) -> nat
    decreases s.len(),
{
    if points(s) == 0 || s.last() == '.' {
        0
    } else {
        places(s.drop_last()) + 1
    }
}

/// The digits and points in front.
pub open spec fn mantissa(s: Seq<char>) -> Seq<char> {
    unsigned(s).take(mantissa_end(unsigned(s), 0))
}

/// What stands behind the digits and points.
pub open spec fn exponent(s: Seq<char>) -> Seq<char> {
    unsigned(s).skip(mantissa_end(unsigned(s), 0))
}

/// Whether the text is nothing, or the letter `e` and a whole number.
pub open spec fn is_exponent(x: Seq<char>) -> bool {
    x.len() == 0 || ((x[0] == 'e' || x[0] == 'E') && unsigned(x.skip(1)).len() > 0 && all_numeric(
        unsigned(x.skip(1)),
    ))
}

/// The power of ten in an exponent.
pub open spec fn exponent_value(x: Seq<char>) -> int {
    if x.len() == 0 {
        0
    } else {
        let n = numeral_value(unsigned(x.skip(1))) as int;
        if is_negative(x.skip(1)) {
            -n
        } else {
            n
        }
    }
}

/// Whether the text is a number: a sign or none, digits with at most one point
/// among them, and a power of ten or none.
pub open spec fn is_number(s: Seq<char>) -> bool {
    &&& points(mantissa(s)) <= 1
    &&& digits_of(mantissa(s)).len() > 0
    &&& is_exponent(exponent(s))
}

/// The number in a text, in amount units and without what is smaller than one.
pub open spec fn units_in(s: Seq<char>) -> int {
    let size = shifted(
        numeral_value(digits_of(mantissa(s))),
        exponent_value(exponent(s)) - places(mantissa(s)) + 8,
    ) as int;
    if is_negative(s) {
        -size
    } else {
        size
    }
}

/// Whether a letter is a small letter or its capital.
pub open spec fn is_letter(c: char, small: char) -> bool {
    c == small || ('A' <= c <= 'Z' && c as int + 32 == small as int)
}

/// Whether a text is a word of small letters, in small or capital letters.
pub open spec fn reads(s: Seq<char>, word: Seq<char>) -> bool {
    s.len() == word.len() && forall|i: int|
        0 <= i < s.len() ==> is_letter(#[trigger] s[i], word[i])
}

/// Whether the text names a number beyond all others, with a sign or without.
pub open spec fn is_infinite(s: Seq<char>) -> bool {
    reads(unsigned(s), "inf"@) || reads(unsigned(s), "infinity"@)
}

/// The amount in a text, where the text is a number; one that is out of range
/// is replaced by the closest amount.
pub open spec fn amount_in(s: Seq<char>) -> Option<int> {
    if is_number(s) {
        Some(saturated(units_in(s)))
    } else if is_infinite(s) {
        Some(
            if is_negative(s) {
                i64::MIN as int
            } else {
                i64::MAX as int
            },
        )
    } else {
        None
    }
}

proof fn lemma_power_positive(k: nat)
    ensures
        power_of_ten(k) >= 1,
    decreases k,
{
    if k > 0 {
        lemma_power_positive((k - 1) as nat);
    }
}

/// Ten to the power of 20 is out of range of the amounts.
proof fn lemma_power_large(k: nat)
    requires
        k >= 20,
    ensures
        power_of_ten(k) > 0x1_0000_0000_0000_0000,
    decreases k,
{
    if k == 20 {
        reveal_with_fuel(power_of_ten, 21);
    } else {
        lemma_power_large((k - 1) as nat);
    }
}

/// Fewer digits than the power of ten has zeros.
proof fn lemma_numeral_below(s: Seq<char>)
    requires
        all_numeric(s),
    ensures
        numeral_value(s) < power_of_ten(s.len()),
    decreases s.len(),
{
    if s.len() > 0 {
        assert(all_numeric(s.drop_last())) by {
            assert forall|i: int| 0 <= i < s.len() - 1 implies '0' <= #[trigger] s.drop_last()[i]
                <= '9' by {
                assert(s.drop_last()[i] == s[i]);
            }
        }
        lemma_numeral_below(s.drop_last());
        assert('0' <= s[s.len() - 1] <= '9');
    }
}

/// Dividing by a power of ten drops digits at the end.
proof fn lemma_digits_dropped(s: Seq<char>, k: nat)
    requires
        all_numeric(s),
        k <= s.len(),
    ensures
        numeral_value(s) / power_of_ten(k) == numeral_value(s.take(s.len() - k)),
    decreases k,
{
    if k == 0 {
        assert(s.take(s.len() as int) =~= s);
        vstd::arithmetic::div_mod::lemma_div_basics(numeral_value(s) as int);
    } else {
        let t = s.drop_last();
        assert forall|i: int| 0 <= i < t.len() implies '0' <= #[trigger] t[i] <= '9' by {
            assert(t[i] == s[i]);
        }
        lemma_digits_dropped(t, (k - 1) as nat);
        assert(t.take(t.len() - (k - 1)) =~= s.take(s.len() - k));
        lemma_power_positive((k - 1) as nat);
        let p = power_of_ten((k - 1) as nat) as int;
        let n = numeral_value(t) as int;
        assert('0' <= s[s.len() - 1] <= '9');
        let d = s.last() as int - 48;
        assert(numeral_value(s) == n * 10 + d);
        assert(power_of_ten(k) == 10 * p);
        assert((n * 10 + d) / (10 * p) == n / p) by (nonlinear_arith)
            requires
                0 <= d <= 9,
                n >= 0,
                p >= 1,
        {
            assert((n * 10 + d) / 10 == n);
            vstd::arithmetic::div_mod::lemma_div_denominator(n * 10 + d, 10, p);
        }
    }
}

proof fn lemma_digits_numeric(m: Seq<char>)
    requires
        forall|i: int| 0 <= i < m.len() ==> is_mantissa_char(#[trigger] m[i]),
    ensures
        all_numeric(digits_of(m)),
        digits_of(m).len() <= m.len(),
        places(m) <= m.len(),
    decreases m.len(),
{
    if m.len() > 0 {
        let t = m.drop_last();
        assert forall|i: int| 0 <= i < t.len() implies is_mantissa_char(#[trigger] t[i]) by {
            assert(t[i] == m[i]);
        }
        lemma_digits_numeric(t);
        assert(is_mantissa_char(m[m.len() - 1]));
        if m.last() != '.' {
            assert forall|i: int| 0 <= i < digits_of(m).len() implies '0' <= #[trigger] digits_of(
                m,
            )[i] <= '9' by {
                if i < digits_of(t).len() {
                    assert(digits_of(m)[i] == digits_of(t)[i]);
                }
            }
        }
    }
}

proof fn lemma_powers_rise(a: nat, b: nat)
    requires
        a <= b,
    ensures
        power_of_ten(a) <= power_of_ten(b),
    decreases b,
{
    if a < b {
        lemma_powers_rise(a, (b - 1) as nat);
    }
}

/// Larger than any amount of units.
pub open spec fn unit_cap() -> nat {
    0x8000_0000_0000_0000
}

/// The smaller of a number and the cap.
pub open spec fn capped(n: nat) -> nat {
    if n < unit_cap() {
        n
    } else {
        unit_cap()
    }
}

/// A number moved out of the range to the left or to the right stays there when
/// it is moved further.
proof fn lemma_shift_far(n: nat, len: nat, near: int, far: int)
    requires
        n < power_of_ten(len),
        (20 <= near <= far) || far <= near <= -len,
    ensures
        capped(shifted(n, near)) == capped(shifted(n, far)),
{
    if near >= 20 {
        lemma_power_large(near as nat);
        lemma_power_large(far as nat);
        let p = power_of_ten(near as nat) as int;
        let q = power_of_ten(far as nat) as int;
        if n == 0 {
            assert(n * p == 0 && n * q == 0) by (nonlinear_arith)
                requires
                    n == 0,
            ;
        } else {
            assert(n * p >= p && n * q >= q) by (nonlinear_arith)
                requires
                    n >= 1,
                    p >= 1,
                    q >= 1,
            ;
        }
    } else if far < 0 {
        lemma_powers_rise(len, (-far) as nat);
        let q = power_of_ten((-far) as nat) as int;
        assert(n as int / q == 0) by (nonlinear_arith)
            requires
                0 <= n < q,
        ;
        if near < 0 {
            lemma_powers_rise(len, (-near) as nat);
            let p = power_of_ten((-near) as nat) as int;
            assert(n as int / p == 0) by (nonlinear_arith)
                requires
                    0 <= n < p,
            ;
        }
    }
}

/// The number in digits with its point moved, up to the cap.
fn place_digits(digits: &Vec<char>, shift: i128) -> (r: u64)
    requires
        all_numeric(digits@),
        -0x10_0000_0000_0000_0000_0000_0000 <= shift,
    ensures
        r == capped(shifted(numeral_value(digits@), shift as int)),
{
    let n: usize = digits.len();
    if shift < 0 && -shift >= n as i128 {
        proof {
            lemma_numeral_below(digits@);
            lemma_powers_rise(n as nat, (-shift) as nat);
            let v = numeral_value(digits@) as int;
            let p = power_of_ten((-shift) as nat) as int;
            assert(v / p == 0) by (nonlinear_arith)
                requires
                    0 <= v < p,
            ;
        }
        return 0;
    }
    let keep: usize = if shift < 0 { (n as i128 + shift) as usize } else { n };
    let mut u: u64 = 0;
    let mut j: usize = 0;
    assert(digits@.take(0) =~= Seq::<char>::empty());
    while j < keep
        invariant
            j <= keep <= digits@.len(),
            all_numeric(digits@),
            u == capped(numeral_value(digits@.take(j as int))),
        decreases keep - j,
    {
        let c: char = digits[j];
        assert('0' <= digits@[j as int] <= '9');
        proof {
            assert(digits@.take(j + 1).drop_last() =~= digits@.take(j as int));
            assert(digits@.take(j + 1).last() == c);
        }
        let wide: u128 = u as u128 * 10 + (c as u32 - 48) as u128;
        u = if wide < 0x8000_0000_0000_0000 { wide as u64 } else { 0x8000_0000_0000_0000 };
        j += 1;
    }
    if shift < 0 {
        proof {
            lemma_digits_dropped(digits@, (-shift) as nat);
        }
        return u;
    }
    assert(digits@.take(n as int) =~= digits@);
    let ghost v = numeral_value(digits@);
    let mut z: i128 = 0;
    assert(power_of_ten(0) == 1);
    assert(v * 1 == v);
    while z < shift && u != 0 && u < 0x8000_0000_0000_0000
        invariant
            0 <= z <= shift,
            u == capped(v * power_of_ten(z as nat)),
        decreases shift - z,
    {
        proof {
            let p = power_of_ten(z as nat) as int;
            assert(power_of_ten((z + 1) as nat) == 10 * p);
            assert(v * (10 * p) == 10 * (v * p)) by (nonlinear_arith);
        }
        let wide: u128 = u as u128 * 10;
        u = if wide < 0x8000_0000_0000_0000 { wide as u64 } else { 0x8000_0000_0000_0000 };
        z += 1;
    }
    proof {
        lemma_powers_rise(z as nat, shift as nat);
        lemma_power_positive(z as nat);
        let p = power_of_ten(z as nat) as int;
        let q = power_of_ten(shift as nat) as int;
        if u == 0 {
            assert(v == 0) by (nonlinear_arith)
                requires
                    v * p == 0,
                    p >= 1,
                    v >= 0,
            ;
            assert(v * q == 0) by (nonlinear_arith)
                requires
                    v == 0,
            ;
        } else if u == 0x8000_0000_0000_0000 {
            assert(v * p <= v * q) by (nonlinear_arith)
                requires
                    v >= 0,
                    p <= q,
            ;
        }
    }
    u
}

/// The digits from `start` on as a number, up to ten to the power of 30; nothing
/// where there is none or another character among them.
fn read_digits(v: &Vec<char>, start: usize) -> (r: Option<i128>)
    requires
        start <= v@.len(),
    ensures
        r is Some <==> start < v@.len() && all_numeric(v@.skip(start as int)),
        r matches Some(n) ==> {
            let value = numeral_value(v@.skip(start as int));
            n == (if value < 1_000_000_000_000_000_000_000_000_000_000 {
                value as int
            } else {
                1_000_000_000_000_000_000_000_000_000_000
            })
        },
{
    let ghost d = v@.skip(start as int);
    let mut e: i128 = 0;
    let mut i: usize = start;
    assert(d.take(0) =~= Seq::<char>::empty());
    while i < v.len()
        invariant
            start <= i <= v@.len(),
            d == v@.skip(start as int),
            forall|j: int| 0 <= j < i - start ==> '0' <= #[trigger] d[j] <= '9',
            e == (if numeral_value(d.take(i - start)) < 1_000_000_000_000_000_000_000_000_000_000 {
                numeral_value(d.take(i - start)) as int
            } else {
                1_000_000_000_000_000_000_000_000_000_000
            }),
        decreases v@.len() - i,
    {
        let c: char = v[i];
        assert(d[i - start] == c);
        if c < '0' || c > '9' {
            return None;
        }
        proof {
            assert(d.take(i - start + 1).drop_last() =~= d.take(i - start));
            assert(d.take(i - start + 1).last() == c);
        }
        let next: i128 = e * 10 + (c as u32 - 48) as i128;
        e = if next < 1_000_000_000_000_000_000_000_000_000_000 {
            next
        } else {
            1_000_000_000_000_000_000_000_000_000_000
        };
        i += 1;
    }
    assert(d.take(d.len() as int) =~= d);
    if start < v.len() {
        Some(e)
    } else {
        None
    }
}

/// The digits and points from `start` on: the digits, how many points, how many
/// digits behind the last point, and where they end.
fn read_mantissa(v: &Vec<char>, start: usize) -> (r: (Vec<char>, usize, usize, usize))
    requires
        start <= v@.len(),
    ensures
        ({
            let b = v@.skip(start as int);
            let m = b.take(mantissa_end(b, 0));
            &&& r.0@ == digits_of(m)
            &&& all_numeric(r.0@)
            &&& r.1 == points(m)
            &&& r.2 == places(m)
            &&& start <= r.3 <= v@.len()
            &&& r.3 - start == mantissa_end(b, 0)
        }),
{
    let ghost b = v@.skip(start as int);
    let mut digits: Vec<char> = Vec::new();
    let mut dots: usize = 0;
    let mut behind: usize = 0;
    let mut i: usize = start;
    assert(b.take(0) =~= Seq::<char>::empty());
    while i < v.len() && ((v[i] >= '0' && v[i] <= '9') || v[i] == '.')
        invariant
            start <= i <= v@.len(),
            b == v@.skip(start as int),
            mantissa_end(b, 0) == mantissa_end(b, i - start),
            forall|j: int| 0 <= j < i - start ==> is_mantissa_char(#[trigger] b[j]),
            digits@ == digits_of(b.take(i - start)),
            dots == points(b.take(i - start)),
            dots <= i,
            behind == places(b.take(i - start)),
            behind <= i,
        decreases v@.len() - i,
    {
        let c: char = v[i];
        assert(b[i - start] == c);
        proof {
            assert(b.take(i - start + 1).drop_last() =~= b.take(i - start));
            assert(b.take(i - start + 1).last() == c);
        }
        if c == '.' {
            dots += 1;
            behind = 0;
        } else {
            digits.push(c);
            if dots > 0 {
                behind += 1;
            }
        }
        i += 1;
    }
    proof {
        assert(i < v@.len() ==> b[i - start] == v@[i as int]);
        let m = b.take(i - start);
        assert forall|j: int| 0 <= j < m.len() implies is_mantissa_char(#[trigger] m[j]) by {
            assert(m[j] == b[j]);
        }
        lemma_digits_numeric(m);
    }
    (digits, dots, behind, i)
}

/// The power of ten that starts at `start`, up to ten to the power of 30 either
/// way.
fn read_exponent(v: &Vec<char>, start: usize) -> (r: Option<i128>)
    requires
        start <= v@.len(),
    ensures
        r is Some <==> is_exponent(v@.skip(start as int)),
        r matches Some(n) ==> {
            let e = exponent_value(v@.skip(start as int));
            let limit = 1_000_000_000_000_000_000_000_000_000_000int;
            n == (if e > limit {
                limit
            } else if e < -limit {
                -limit
            } else {
                e
            })
        },
{
    let ghost x = v@.skip(start as int);
    if start == v.len() {
        return Some(0);
    }
    assert(x[0] == v@[start as int]);
    if v[start] != 'e' && v[start] != 'E' {
        return None;
    }
    let signed: bool = start + 1 < v.len() && (v[start + 1] == '+' || v[start + 1] == '-');
    let first: usize = if signed { start + 2 } else { start + 1 };
    assert(x.skip(1) =~= v@.skip(start + 1));
    assert(unsigned(x.skip(1)) =~= v@.skip(first as int));
    match read_digits(v, first) {
        Some(n) => if signed && v[start + 1] == '-' {
            Some(-n)
        } else {
            Some(n)
        },
        None => None,
    }
}

fn reads_from(v: &Vec<char>, start: usize, word: &str) -> (r: bool)
    requires
        start <= v@.len(),
    ensures
        r == reads(v@.skip(start as int), word@),
{
    let w = chars_of(word);
    let total: usize = v.len();
    let ghost s = v@.skip(start as int);
    if total - start != w.len() {
        return false;
    }
    let mut i: usize = 0;
    while i < w.len()
        invariant
            i <= w@.len(),
            w@ == word@,
            total == v@.len(),
            start + w@.len() == total,
            s == v@.skip(start as int),
            forall|j: int| 0 <= j < i ==> is_letter(#[trigger] s[j], word@[j]),
        decreases w@.len() - i,
    {
        let c: char = v[start + i];
        assert(s[i as int] == c);
        let small: char = w[i];
        let capital = 'A' <= c && c <= 'Z' && 'a' <= small && small <= 'z' && c as u32 + 32
            == small as u32;
        if c != small && !capital {
            assert(!is_letter(s[i as int], word@[i as int]));
            return false;
        }
        i += 1;
    }
    true
}

/// The end of the range that a text names, where it names one.
fn infinite_amount(v: &Vec<char>, start: usize, negative: bool) -> (r: Option<Amount>)
    requires
        start <= v@.len(),
        v@.skip(start as int) == unsigned(v@),
        negative == is_negative(v@),
        !is_number(v@),
    ensures
        r is Some <==> amount_in(v@) is Some,
        r matches Some(a) ==> amount_in(v@) == Some(a.units as int),
{
    if reads_from(v, start, "inf") || reads_from(v, start, "infinity") {
        Some(
            Amount {
                units: if negative {
                    i64::MIN
                } else {
                    i64::MAX
                },
            },
        )
    } else {
        None
    }
}

/// The amount in a text, where the text is a number; one that is out of range
/// is replaced by the closest amount.
pub fn parse_amount(text: &str) -> (r: Option<Amount>)
    ensures
        r is Some <==> amount_in(text@) is Some,
        r matches Some(a) ==> amount_in(text@) == Some(a.units as int),
{
    let v = chars_of(text);
    let start: usize = if v.len() > 0 && (v[0] == '+' || v[0] == '-') { 1 } else { 0 };
    let negative: bool = v.len() > 0 && v[0] == '-';
    assert(unsigned(text@) =~= v@.skip(start as int));
    let (digits, dots, behind, end) = read_mantissa(&v, start);
    if dots > 1 || digits.len() == 0 {
        return infinite_amount(&v, start, negative);
    }
    assert(exponent(text@) =~= v@.skip(end as int));
    let power: i128 = match read_exponent(&v, end) {
        Some(n) => n,
        None => {
            return infinite_amount(&v, start, negative);
        },
    };
    let shift: i128 = power - behind as i128 + 8;
    let size: u64 = place_digits(&digits, shift);
    proof {
        let e = exponent_value(exponent(text@));
        if e != power {
            lemma_numeral_below(digits@);
            lemma_shift_far(
                numeral_value(digits@),
                digits@.len(),
                shift as int,
                e - places(mantissa(text@)) + 8,
            );
        }
    }
    if negative {
        Some(Amount { units: (-(size as i128)) as i64 })
    } else if size < 0x8000_0000_0000_0000 {
        Some(Amount { units: size as i64 })
    } else {
        Some(Amount { units: i64::MAX })
    }
}

/// The amount in a text, or zero where the text is not a number.
pub open spec fn amount_or_zero(s: Seq<char>) -> Amount {
    match amount_in(s) {
        Some(units) => Amount { units: units as i64 },
        None => Amount { units: 0 },
    }
}

/// The amount in a text, or zero where the text is not a number.
pub fn parse_or_zero(text: &str) -> (r: Amount)
    ensures
        r == amount_or_zero(text@),
{
    match parse_amount(text) {
        Some(a) => a,
        None => Amount::zero(),
    }
}

} // verus!
