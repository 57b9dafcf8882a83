//! Prices and quantities with eight decimals.

use vstd::prelude::*;
use crate::base::text::{
    chars_of, decimal, decimal_of, padded, push_decimal, push_padded, string_of,
};

verus! {

/// How many units make one.
pub const UNITS_PER_ONE: i64 = 100_000_000;

/// A price or quantity, counted in units of one hundred-millionth.
#[derive(Clone, Copy, Debug, PartialEq, Eq, Structural)]
pub struct Amount {
    pub units: i64,
}

/// The distance between two numbers.
pub open spec fn distance(a: int, b: int) -> int {
    if a >= b {
        a - b
    } else {
        b - a
    }
}

/// The size of a number without its sign.
pub open spec fn magnitude(a: int) -> nat {
    distance(a, 0) as nat
}

/// `s` without the zeros at its end.
pub open spec fn without_trailing_zeros(s: Seq<char>) -> Seq<char>
    decreases s.len(),
{
    if s.len() > 0 && s.last() == '0' {
        without_trailing_zeros(s.drop_last())
    } else {
        s
    }
}

/// The digits behind the decimal point for `frac` units, zeros at the end
/// left away.
pub open spec fn fraction_digits(frac: nat) -> Seq<char> {
    without_trailing_zeros(padded(decimal(frac), 8, '0'))
}

/// A minus sign for a negative number.
pub open spec fn sign_text(units: int) -> Seq<char> {
    if units < 0 {
        seq!['-']
    } else {
        Seq::empty()
    }
}

/// The amount in decimal notation, as short as possible: `0.5`, `2`, `-1.25`.
pub open spec fn plain_text(units: int) -> Seq<char> {
    let m = magnitude(units);
    let whole = sign_text(units) + decimal(m / 100_000_000);
    if m % 100_000_000 == 0 {
        whole
    } else {
        whole.push('.') + fraction_digits(m % 100_000_000)
    }
}

/// The significant digits of a small amount with a negative power of ten:
/// `1.5e-7`.
pub open spec fn scientific_text(units: int) -> Seq<char> {
    let digits = without_trailing_zeros(decimal(magnitude(units)));
    let exponent = (9 - decimal(magnitude(units)).len()) as nat;
    let mantissa = if digits.len() <= 1 {
        digits
    } else {
        digits.take(1).push('.') + digits.skip(1)
    };
    sign_text(units) + mantissa + seq!['e', '-'] + decimal(exponent)
}

/// The amount as a number that shows its kind: `0.5`, `2.0`, `1e-5`.
pub open spec fn number_text(units: int) -> Seq<char> {
    let m = magnitude(units);
    if m % 100_000_000 == 0 {
        plain_text(units) + seq!['.', '0']
    } else if m < 10_000 {
        scientific_text(units)
    } else {
        plain_text(units)
    }
}

/// The amount with eight decimal places: `-1.25000000`.
pub open spec fn eight_places(units: int) -> Seq<char> {
    let m = magnitude(units);
    (sign_text(units) + decimal(m / 100_000_000)).push('.') + padded(
        decimal(m % 100_000_000),
        8,
        '0',
    )
}

/// The number of ten-thousandths closest to `m` units, and of two the even one.
pub open spec fn nearest_ten_thousandths(m: nat) -> nat {
    let low = m / 10_000;
    let rest = m % 10_000;
    if rest > 5_000 || (rest == 5_000 && low % 2 == 1) {
        low + 1
    } else {
        low
    }
}

/// The amount rounded to four decimal places: `-1.2500`.
pub open spec fn four_places(units: int) -> Seq<char> {
    let r = nearest_ten_thousandths(magnitude(units));
    (sign_text(units) + decimal(r / 10_000)).push('.') + padded(decimal(r % 10_000), 4, '0')
}

proof fn lemma_decimal_len(n: nat, width: nat)
    requires
        n < 10_000 ==> width >= 4,
        n >= 10_000 ==> width >= 8,
        n < 100_000_000,
    ensures
        1 <= decimal(n).len() <= width,
        n < 10_000 ==> decimal(n).len() <= 4,
{
    reveal_with_fuel(decimal, 9);
}

proof fn lemma_trimmed(s: Seq<char>)
    ensures
        without_trailing_zeros(s).len() <= s.len(),
        without_trailing_zeros(s) == s.take(without_trailing_zeros(s).len() as int),
    decreases s.len(),
{
    if s.len() > 0 && s.last() == '0' {
        lemma_trimmed(s.drop_last());
        assert(s.drop_last().take(without_trailing_zeros(s).len() as int) =~= s.take(
            without_trailing_zeros(s).len() as int,
        ));
    } else {
        assert(s.take(s.len() as int) =~= s);
    }
}

fn trim_zeros(v: &mut Vec<char>)
    ensures
        final(v)@ == without_trailing_zeros(old(v)@),
{
    let ghost goal = without_trailing_zeros(v@);
    while v.len() > 0 && v[v.len() - 1] == '0'
        invariant
            without_trailing_zeros(v@) == goal,
        decreases v.len(),
    {
        let ghost before = v@;
        let _ = v.pop();
        assert(v@ =~= before.drop_last());
    }
}

fn magnitude_of(units: i64) -> (m: u64)
    ensures
        m == magnitude(units as int),
{
    if units == i64::MIN {
        9223372036854775808u64
    } else if units < 0 {
        (-units) as u64
    } else {
        units as u64
    }
}

impl Amount {
    /// Zero.
    pub fn zero() -> (a: Self)
        ensures
            a.units == 0,
    {
        Amount { units: 0 }
    }

    /// An amount of whole ones.
    pub fn whole(n: i32) -> (a: Self)
        ensures
            a.units == n * UNITS_PER_ONE,
    {
        Amount { units: n as i64 * UNITS_PER_ONE }
    }

    /// Whether two amounts lie further apart than `tolerance` units.
    pub fn further_apart(self, other: Amount, tolerance: i64) -> (r: bool)
        ensures
            r == (distance(self.units as int, other.units as int) > tolerance),
    {
        let a: i128 = self.units as i128;
        let b: i128 = other.units as i128;
        let d: i128 = if a >= b {
            a - b
        } else {
            b - a
        };
        d > tolerance as i128
    }

    /// The amount with eight decimal places.
    pub fn to_eight_places(self) -> (s: String)
        ensures
            s@ == eight_places(self.units as int),
    {
        let m: u64 = magnitude_of(self.units);
        let mut out = String::new();
        if self.units < 0 {
            out.push('-');
        }
        push_decimal(&mut out, m / 100_000_000);
        assert(out@ =~= sign_text(self.units as int) + decimal(m as nat / 100_000_000));
        out.push('.');
        push_padded(&mut out, m % 100_000_000, 8);
        out
    }

    /// The amount rounded to four decimal places.
    pub fn to_four_places(self) -> (s: String)
        ensures
            s@ == four_places(self.units as int),
    {
        let m: u64 = magnitude_of(self.units);
        let low: u64 = m / 10_000;
        let rest: u64 = m % 10_000;
        let r: u64 = if rest > 5_000 || (rest == 5_000 && low % 2 == 1) { low + 1 } else { low };
        let mut out = String::new();
        if self.units < 0 {
            out.push('-');
        }
        push_decimal(&mut out, r / 10_000);
        assert(out@ =~= sign_text(self.units as int) + decimal(r as nat / 10_000));
        out.push('.');
        push_padded(&mut out, r % 10_000, 4);
        out
    }

    /// The amount in decimal notation, as short as possible.
    pub fn to_plain_text(self) -> (s: String)
        ensures
            s@ == plain_text(self.units as int),
    {
        let m: u64 = magnitude_of(self.units);
        let mut out = String::new();
        if self.units < 0 {
            out.push('-');
        }
        push_decimal(&mut out, m / 100_000_000);
        assert(out@ =~= sign_text(self.units as int) + decimal(m as nat / 100_000_000));
        let frac: u64 = m % 100_000_000;
        if frac != 0 {
            let digits = decimal_of(frac);
            proof {
                lemma_decimal_len(frac as nat, 8);
            }
            let shown = chars_of(digits.as_str());
            let mut v: Vec<char> = Vec::new();
            while v.len() < 8 - shown.len()
                invariant
                    shown.len() <= 8,
                    v.len() <= 8 - shown.len(),
                    forall|i: int| 0 <= i < v.len() ==> v@[i] == '0',
                decreases 8 - shown.len() - v.len(),
            {
                v.push('0');
            }
            let mut i: usize = 0;
            let ghost zeros = v@;
            while i < shown.len()
                invariant
                    i <= shown.len(),
                    v@ == zeros + shown@.take(i as int),
                decreases shown.len() - i,
            {
                v.push(shown[i]);
                i += 1;
                assert(v@ =~= zeros + shown@.take(i as int));
            }
            assert(v@ =~= padded(decimal(frac as nat), 8, '0'));
            trim_zeros(&mut v);
            out.push('.');
            let rest = string_of(v.as_slice());
            out.push_str(rest.as_str());
        }
        out
    }

    fn to_scientific_text(self) -> (s: String)
        requires
            0 < magnitude(self.units as int) < 10_000,
        ensures
            s@ == scientific_text(self.units as int),
    {
        let m: u64 = magnitude_of(self.units);
        let mut out = String::new();
        if self.units < 0 {
            out.push('-');
        }
        let digits = decimal_of(m);
        let mut v = chars_of(digits.as_str());
        proof {
            lemma_decimal_len(m as nat, 8);
            lemma_trimmed(v@);
        }
        let exponent: u64 = 9 - v.len() as u64;
        trim_zeros(&mut v);
        let ghost start = out@;
        let ghost trimmed = v@;
        let mut i: usize = 0;
        while i < v.len()
            invariant
                i <= v.len(),
                v@ == trimmed,
                i == 0 ==> out@ == start,
                i == 1 ==> out@ == start + trimmed.take(1),
                i > 1 ==> out@ == start + (trimmed.take(1).push('.') + trimmed.subrange(
                    1,
                    i as int,
                )),
            decreases v.len() - i,
        {
            if i == 1 {
                out.push('.');
            }
            out.push(v[i]);
            i += 1;
            assert(i == 1 ==> out@ =~= start + trimmed.take(1));
            assert(i > 1 ==> out@ =~= start + (trimmed.take(1).push('.') + trimmed.subrange(
                1,
                i as int,
            )));
        }
        proof {
            assert(trimmed.len() == 1 ==> trimmed.take(1) =~= trimmed);
            assert(trimmed.len() > 1 ==> trimmed.subrange(1, trimmed.len() as int)
                =~= trimmed.skip(1));
            assert(trimmed.len() == 0 ==> start + trimmed =~= start);
        }
        out.push('e');
        out.push('-');
        push_decimal(&mut out, exponent);
        assert(out@ =~= scientific_text(self.units as int));
        out
    }

    /// The amount as a number that shows its kind.
    pub fn to_number_text(self) -> (s: String)
        ensures
            s@ == number_text(self.units as int),
    {
        let m: u64 = magnitude_of(self.units);
        if m % 100_000_000 == 0 {
            let mut s = self.to_plain_text();
            s.push('.');
            s.push('0');
            assert(s@ =~= number_text(self.units as int));
            s
        } else if m < 10_000 {
            self.to_scientific_text()
        } else {
            self.to_plain_text()
        }
    }
}

} // verus!
