//! Amounts as text, and what reading the text gives back.

use vstd::prelude::*;
use crate::base::amount::{
    eight_places, fraction_digits, magnitude, plain_text, without_trailing_zeros,
};
use crate::base::decimals::{
    amount_in, digits_of, exponent, is_mantissa_char, is_number, mantissa, mantissa_end, places,
    points, power_of_ten, shifted, units_in, unsigned,
};
use crate::base::numbers::{all_numeric, numeral_value};
use crate::base::text::{decimal, digit_char, padded};

verus! {

proof fn lemma_numeric_parts(s: Seq<char>)
    requires
        all_numeric(s),
    ensures
        s.len() > 0 ==> all_numeric(s.drop_last()) && '0' <= s.last() <= '9',
{
    if s.len() > 0 {
        assert forall|i: int| 0 <= i < s.drop_last().len() implies '0' <= #[trigger] s.drop_last()[i]
            <= '9' by {
            assert(s.drop_last()[i] == s[i]);
        }
        assert('0' <= s[s.len() - 1] <= '9');
    }
}

/// The numeral of a number has digits only, no zero in front of others, and
/// reads as the number.
pub proof fn law_numeral_reads_back(n: nat)
    ensures
        decimal(n).len() >= 1,
        all_numeric(decimal(n)),
        numeral_value(decimal(n)) == n,
        n > 0 ==> decimal(n)[0] != '0',
    decreases n,
{
    let s = decimal(n);
    if n < 10 {
        assert(s.drop_last() =~= Seq::empty());
        reveal_with_fuel(numeral_value, 2);
        assert(s.last() == digit_char(n));
    } else {
        law_numeral_reads_back(n / 10);
        let t = decimal(n / 10);
        assert(s.drop_last() =~= t);
        assert forall|i: int| 0 <= i < s.len() implies '0' <= #[trigger] s[i] <= '9' by {
            if i < t.len() {
                assert(s[i] == t[i]);
            }
        }
        assert(s[0] == t[0]);
    }
}

proof fn lemma_numeral_concat(a: Seq<char>, b: Seq<char>)
    ensures
        numeral_value(a + b) == numeral_value(a) * power_of_ten(b.len()) + numeral_value(b),
    decreases b.len(),
{
    if b.len() == 0 {
        assert(a + b =~= a);
        let x = numeral_value(a) as int;
        assert(x * 1 == x) by (nonlinear_arith);
        assert(power_of_ten(0) == 1);
        assert(numeral_value(b) == 0);
    } else {
        lemma_numeral_concat(a, b.drop_last());
        assert((a + b).drop_last() =~= a + b.drop_last());
        assert((a + b).last() == b.last());
        let x = numeral_value(a) as int;
        let p = power_of_ten((b.len() - 1) as nat) as int;
        let y = numeral_value(b.drop_last()) as int;
        assert((x * p + y) * 10 == x * (10 * p) + y * 10) by (nonlinear_arith);
    }
}

proof fn lemma_zeros(k: nat)
    ensures
        numeral_value(Seq::new(k, |i: int| '0')) == 0,
        all_numeric(Seq::new(k, |i: int| '0')),
    decreases k,
{
    let s = Seq::new(k, |i: int| '0');
    if k > 0 {
        lemma_zeros((k - 1) as nat);
        assert(s.drop_last() =~= Seq::new((k - 1) as nat, |i: int| '0'));
    }
}

proof fn lemma_padded_value(s: Seq<char>, width: nat)
    requires
        all_numeric(s),
    ensures
        all_numeric(padded(s, width, '0')),
        numeral_value(padded(s, width, '0')) == numeral_value(s),
        s.len() <= width ==> padded(s, width, '0').len() == width,
{
    if s.len() < width {
        let z = Seq::new((width - s.len()) as nat, |i: int| '0');
        lemma_zeros((width - s.len()) as nat);
        lemma_numeral_concat(z, s);
        let p = power_of_ten(s.len()) as int;
        assert(0 * p == 0) by (nonlinear_arith);
        assert(padded(s, width, '0') =~= z + s);
        assert forall|i: int| 0 <= i < (z + s).len() implies '0' <= #[trigger] (z + s)[i] <= '9' by {
            if i >= z.len() {
                assert((z + s)[i] == s[i - z.len()]);
            }
        }
    }
}

proof fn lemma_trimmed_value(s: Seq<char>)
    requires
        all_numeric(s),
    ensures
        all_numeric(without_trailing_zeros(s)),
        without_trailing_zeros(s).len() <= s.len(),
        numeral_value(s) == numeral_value(without_trailing_zeros(s)) * power_of_ten(
            (s.len() - without_trailing_zeros(s).len()) as nat,
        ),
    decreases s.len(),
{
    lemma_numeric_parts(s);
    if s.len() > 0 && s.last() == '0' {
        lemma_trimmed_value(s.drop_last());
        let t = without_trailing_zeros(s);
        let x = numeral_value(t) as int;
        let p = power_of_ten((s.len() - 1 - t.len()) as nat) as int;
        assert((x * p) * 10 == x * (10 * p)) by (nonlinear_arith);
    } else {
        let x = numeral_value(s) as int;
        assert(x * 1 == x) by (nonlinear_arith);
    }
}

proof fn lemma_small_numeral_len(n: nat)
    requires
        n < 100_000_000,
    ensures
        decimal(n).len() <= 8,
{
    reveal_with_fuel(decimal, 9);
}

proof fn lemma_mantissa_whole(t: Seq<char>, i: int)
    requires
        0 <= i <= t.len(),
        forall|k: int| 0 <= k < t.len() ==> is_mantissa_char(#[trigger] t[k]),
    ensures
        mantissa_end(t, i) == t.len(),
    decreases t.len() - i,
{
    if i < t.len() {
        assert(is_mantissa_char(t[i]));
        lemma_mantissa_whole(t, i + 1);
    }
}

proof fn lemma_whole_digits(d: Seq<char>)
    requires
        all_numeric(d),
    ensures
        points(d) == 0,
        digits_of(d) == d,
    decreases d.len(),
{
    if d.len() > 0 {
        lemma_numeric_parts(d);
        lemma_whole_digits(d.drop_last());
        assert(digits_of(d) =~= d);
    }
}

proof fn lemma_point_digits(d: Seq<char>, f: Seq<char>)
    requires
        all_numeric(d),
        all_numeric(f),
    ensures
        points(d.push('.') + f) == 1,
        digits_of(d.push('.') + f) == d + f,
        places(d.push('.') + f) == f.len(),
    decreases f.len(),
{
    let t = d.push('.') + f;
    if f.len() == 0 {
        lemma_whole_digits(d);
        assert(t =~= d.push('.'));
        assert(t.drop_last() =~= d);
        assert(d + f =~= d);
    } else {
        lemma_numeric_parts(f);
        lemma_point_digits(d, f.drop_last());
        assert(t.drop_last() =~= d.push('.') + f.drop_last());
        assert(t.last() == f.last());
        assert(digits_of(t) =~= d + f);
    }
}

proof fn lemma_reads(negative: bool, d: Seq<char>, f: Seq<char>, point: bool)
    requires
        d.len() > 0,
        all_numeric(d),
        all_numeric(f),
        f.len() <= 8,
        !point ==> f.len() == 0,
    ensures
        ({
            let t = if point { d.push('.') + f } else { d };
            let s = if negative { seq!['-'] + t } else { t };
            let size = numeral_value(d) * 100_000_000 + numeral_value(f) * power_of_ten(
                (8 - f.len()) as nat,
            );
            &&& is_number(s)
            &&& units_in(s) == (if negative { -size } else { size as int })
        }),
{
    let t = if point { d.push('.') + f } else { d };
    let s = if negative { seq!['-'] + t } else { t };
    assert forall|k: int| 0 <= k < t.len() implies is_mantissa_char(#[trigger] t[k]) by {
        if k < d.len() {
            assert(t[k] == d[k]);
        } else if k > d.len() {
            assert(t[k] == f[k - d.len() - 1]);
        }
    }
    assert(t[0] == d[0]);
    assert('0' <= d[0] <= '9');
    assert(unsigned(s) =~= t);
    lemma_mantissa_whole(t, 0);
    assert(mantissa(s) =~= t);
    assert(exponent(s) =~= Seq::empty());
    lemma_whole_digits(d);
    let z = d + f;
    if point {
        lemma_point_digits(d, f);
    } else {
        assert(d + f =~= d);
    }
    assert(digits_of(t) == d + f);
    assert(places(t) == f.len());
    lemma_numeral_concat(d, f);
    let k = (8 - f.len()) as nat;
    let x = numeral_value(d) as int;
    let y = numeral_value(f) as int;
    let p = power_of_ten(f.len()) as int;
    let q = power_of_ten(k) as int;
    lemma_powers_multiply(f.len(), k);
    assert(power_of_ten(8) == 100_000_000) by {
        reveal_with_fuel(power_of_ten, 9);
    }
    assert((x * p + y) * q == x * (p * q) + y * q) by (nonlinear_arith);
    assert(shifted(numeral_value(d + f), k as int) == (x * p + y) * q);
}

proof fn lemma_powers_multiply(a: nat, b: nat)
    ensures
        power_of_ten(a) * power_of_ten(b) == power_of_ten(a + b),
    decreases b,
{
    let p = power_of_ten(a) as int;
    if b == 0 {
        assert(p * 1 == p) by (nonlinear_arith);
    } else {
        lemma_powers_multiply(a, (b - 1) as nat);
        let q = power_of_ten((b - 1) as nat) as int;
        assert(p * (10 * q) == 10 * (p * q)) by (nonlinear_arith);
        assert(power_of_ten(a + b) == 10 * power_of_ten((a + b - 1) as nat));
    }
}

/// The text of an amount, short or with all eight places, reads as the amount.
pub proof fn law_amount_text_reads_back(units: i64)
    ensures
        amount_in(plain_text(units as int)) == Some(units as int),
        amount_in(eight_places(units as int)) == Some(units as int),
{
    let u = units as int;
    let m = magnitude(u);
    let whole = m / 100_000_000;
    let frac = m % 100_000_000;
    let d = decimal(whole);
    let w = padded(decimal(frac), 8, '0');
    let f = fraction_digits(frac);
    law_numeral_reads_back(whole);
    law_numeral_reads_back(frac);
    lemma_small_numeral_len(frac);
    lemma_padded_value(decimal(frac), 8);
    lemma_trimmed_value(w);
    lemma_reads(u < 0, d, w, true);
    let e = eight_places(u);
    assert(e =~= (if u < 0 { seq!['-'] + (d.push('.') + w) } else { d.push('.') + w }));
    let y = numeral_value(w) as int;
    assert(power_of_ten(0) == 1);
    assert(y * 1 == y) by (nonlinear_arith);
    assert(units_in(e) == u);
    let s = plain_text(u);
    if frac == 0 {
        lemma_reads(u < 0, d, Seq::empty(), false);
        assert(s =~= (if u < 0 { seq!['-'] + d } else { d }));
        let p = power_of_ten(8) as int;
        assert(numeral_value(Seq::<char>::empty()) == 0);
        assert(0 * p == 0) by (nonlinear_arith);
    } else {
        lemma_reads(u < 0, d, f, true);
        assert(s =~= (if u < 0 { seq!['-'] + (d.push('.') + f) } else { d.push('.') + f }));
    }
    assert(units_in(s) == u);
}

/// A text that is a number stands for the number that its digits say, moved by
/// its point and its power of ten: one digit behind the last of a whole number
/// makes it ten times as large and adds the digit.
pub proof fn law_digit_appended(s: Seq<char>, c: char)
    requires
        s.len() > 0,
        all_numeric(s),
        '0' <= c <= '9',
    ensures
        is_number(s),
        units_in(s.push(c)) == 10 * units_in(s) + (c as int - 48) * 100_000_000,
        units_in(seq!['-'] + s) == -units_in(s),
{
    let t = s.push(c);
    assert forall|i: int| 0 <= i < t.len() implies '0' <= #[trigger] t[i] <= '9' by {
        if i < s.len() {
            assert(t[i] == s[i]);
        }
    }
    let e = Seq::<char>::empty();
    lemma_reads(false, s, e, false);
    lemma_reads(true, s, e, false);
    lemma_reads(false, t, e, false);
    assert(t.drop_last() =~= s);
    let p = power_of_ten(8) as int;
    assert(0 * p == 0) by (nonlinear_arith);
    assert(numeral_value(e) == 0);
}

} // verus!
