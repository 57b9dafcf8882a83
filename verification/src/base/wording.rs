//! What texts of digits, words and bytes say, told from their characters.

use vstd::prelude::*;
use crate::base::bytes::{
    all_digits, decimal_bytes, digits_value, lemma_decimal_bytes, parsed_unsigned,
    signed_decimal_bytes,
};
use crate::base::clock::{time_of_day, units_of, UtcInstant};
use crate::base::crypto::{base64_char, base64_text, hex_text};
use crate::base::text::{
    closed_words, decimal, has_prefix, is_space, padded, tail_word, trimmed, with_replaced,
    without_leading_space, without_trailing_space, words,
};

verus! {

/// The number that a hexadecimal digit stands for.
pub open spec fn hex_value(c: char) -> int {
    if c <= '9' {
        c as int - '0' as int
    } else {
        c as int - 'a' as int + 10
    }
}

/// Each byte is written with two lower case hexadecimal digits, the higher one
/// first.
pub proof fn law_hex_tells_bytes(s: Seq<u8>, i: int)
    requires
        0 <= i < s.len(),
    ensures
        hex_text(s).len() == 2 * s.len(),
        ({
            let high = hex_text(s)[2 * i];
            let low = hex_text(s)[2 * i + 1];
            &&& 16 * hex_value(high) + hex_value(low) == s[i]
            &&& 0 <= hex_value(high) <= 15
            &&& 0 <= hex_value(low) <= 15
            &&& '0' <= high <= '9' || 'a' <= high <= 'f'
            &&& '0' <= low <= '9' || 'a' <= low <= 'f'
        }),
    decreases s.len(),
{
    lemma_hex_len(s);
    lemma_hex_len(s.drop_last());
    if i < s.len() - 1 {
        law_hex_tells_bytes(s.drop_last(), i);
        assert(s.drop_last()[i] == s[i]);
    }
}

proof fn lemma_hex_len(s: Seq<u8>)
    ensures
        hex_text(s).len() == 2 * s.len(),
    decreases s.len(),
{
    if s.len() > 0 {
        lemma_hex_len(s.drop_last());
    }
}

/// The alphabet runs from `A` to `Z`, on from `a` to `z` and from `0` to `9`, and
/// ends with a plus sign and a slash.
pub proof fn law_base64_alphabet(d: int)
    requires
        0 <= d < 63,
    ensures
        base64_char(0) == 'A',
        base64_char(25) == 'Z',
        base64_char(26) == 'a',
        base64_char(51) == 'z',
        base64_char(52) == '0',
        base64_char(61) == '9',
        base64_char(62) == '+',
        base64_char(63) == '/',
        d != 25 && d != 51 && d < 61 ==> base64_char(d + 1) as int == base64_char(d) as int + 1,
{
}

/// Three bytes make four characters, six bits each from the highest on; one or
/// two bytes at the end are followed by zeros, and equals signs stand for the
/// characters that are not needed.
pub proof fn law_base64_tells_bytes(s: Seq<u8>)
    ensures
        s.len() == 0 ==> base64_text(s).len() == 0,
        s.len() == 1 ==> base64_text(s) == seq![
            base64_char(s[0] as int / 4),
            base64_char(s[0] as int % 4 * 16),
            '=',
            '=',
        ],
        s.len() == 2 ==> base64_text(s) == seq![
            base64_char(s[0] as int / 4),
            base64_char(s[0] as int % 4 * 16 + s[1] as int / 16),
            base64_char(s[1] as int % 16 * 4),
            '=',
        ],
        s.len() >= 3 ==> base64_text(s) == seq![
            base64_char(s[0] as int / 4),
            base64_char(s[0] as int % 4 * 16 + s[1] as int / 16),
            base64_char(s[1] as int % 16 * 4 + s[2] as int / 64),
            base64_char(s[2] as int % 64),
        ] + base64_text(s.skip(3)),
{
    if s.len() == 1 {
        lemma_six_bits(s[0] as int, 0, 0);
    } else if s.len() == 2 {
        lemma_six_bits(s[0] as int, s[1] as int, 0);
    } else if s.len() >= 3 {
        lemma_six_bits(s[0] as int, s[1] as int, s[2] as int);
    }
}

proof fn lemma_six_bits(x: int, y: int, z: int)
    requires
        0 <= x < 256,
        0 <= y < 256,
        0 <= z < 256,
    ensures
        ({
            let n = x * 65536 + y * 256 + z;
            &&& n / 262144 == x / 4
            &&& n / 4096 % 64 == x % 4 * 16 + y / 16
            &&& n / 64 % 64 == y % 16 * 4 + z / 64
            &&& n % 64 == z % 64
        }),
        x * 16 / 64 == x / 4,
        x * 16 % 64 == x % 4 * 16,
        (x * 256 + y) * 4 / 4096 == x / 4,
        (x * 256 + y) * 4 / 64 % 64 == x % 4 * 16 + y / 16,
        (x * 256 + y) * 4 % 64 == y % 16 * 4,
{
    let (a, b) = (x / 4, x % 4);
    let (c, d) = (y / 16, y % 16);
    let (e, f) = (z / 64, z % 64);
    let n = x * 65536 + y * 256 + z;
    assert(n == 262144 * a + 65536 * b + 4096 * c + 256 * d + 64 * e + f);
    assert(n / 4096 == 64 * a + 16 * b + c);
    assert(n / 64 == 64 * (64 * a + 16 * b + c) + 4 * d + e);
    let m = (x * 256 + y) * 4;
    assert(m == 4096 * a + 1024 * b + 64 * c + 4 * d);
    assert(m / 64 == 64 * a + 16 * b + c);
}

/// The time of a day tells hour, minute and second with two digits each and the
/// nanoseconds with nine.
pub proof fn law_time_of_day(at: UtcInstant)
    requires
        at.nanos < 1_000_000_000,
    ensures
        ({
            let t = time_of_day(at);
            let hour = (t[0] as int - 48) * 10 + (t[1] as int - 48);
            let minute = (t[3] as int - 48) * 10 + (t[4] as int - 48);
            let second = (t[6] as int - 48) * 10 + (t[7] as int - 48);
            &&& t[2] == ':'
            &&& t[5] == ':'
            &&& t[8] == '.'
            &&& 0 <= hour < 24
            &&& 0 <= minute < 60
            &&& 0 <= second < 60
            &&& (at.secs - (hour * 3_600 + minute * 60 + second)) % 86_400 == 0
            &&& t.skip(9) == padded(decimal(at.nanos as nat), 9, '0')
        }),
{
    let t = time_of_day(at);
    assert(t.skip(9) =~= padded(decimal(at.nanos as nat), 9, '0'));
}

/// A time in larger units is the number of whole units in it.
pub proof fn law_whole_units(ns: u128, unit: u128)
    requires
        unit > 0,
        ns < unit * 0x1_0000_0000_0000_0000,
    ensures
        units_of(ns, unit) * unit <= ns < units_of(ns, unit) * unit + unit,
{
    let n = ns as int;
    let u = unit as int;
    assert(n / u * u <= n < n / u * u + u && 0 <= n / u < 0x1_0000_0000_0000_0000)
        by (nonlinear_arith)
        requires
            u > 0,
            0 <= n < u * 0x1_0000_0000_0000_0000,
    ;
    assert(n / u % 0x1_0000_0000_0000_0000 == n / u);
}

/// A filled up text ends with the text, is as wide as asked for or as the text
/// is, and holds nothing but the filling before it.
pub proof fn law_filled_up(s: Seq<char>, width: nat, c: char, i: int)
    ensures
        padded(s, width, c).len() == (if s.len() >= width {
            s.len()
        } else {
            width
        }),
        padded(s, width, c).skip(padded(s, width, c).len() - s.len()) == s,
        0 <= i < padded(s, width, c).len() - s.len() ==> padded(s, width, c)[i] == c,
{
    assert(padded(s, width, c).skip(padded(s, width, c).len() - s.len()) =~= s);
}

/// A text starts with another exactly where it goes on from it.
pub proof fn law_prefix(prefix: Seq<char>, rest: Seq<char>, s: Seq<char>)
    ensures
        has_prefix(prefix + rest, prefix),
        has_prefix(s, prefix) ==> prefix + s.skip(prefix.len() as int) == s,
        s.len() < prefix.len() ==> !has_prefix(s, prefix),
{
    assert((prefix + rest).take(prefix.len() as int) =~= prefix);
    if has_prefix(s, prefix) {
        assert(prefix + s.skip(prefix.len() as int) =~= s);
    }
}

/// Replacing a character leaves none of it, and every other as it was.
pub proof fn law_replaced(s: Seq<char>, from: char, to: char, i: int)
    requires
        0 <= i < s.len(),
    ensures
        with_replaced(s, from, to).len() == s.len(),
        s[i] == from ==> with_replaced(s, from, to)[i] == to,
        s[i] != from ==> with_replaced(s, from, to)[i] == s[i],
{
}

/// Blanks, tabs and line ends are spaces; letters, digits and punctuation are
/// not.
pub proof fn law_spaces(c: char)
    ensures
        is_space(' '),
        is_space('\t'),
        is_space('\n'),
        is_space('\r'),
        '!' <= c <= '~' ==> !is_space(c),
{
}

/// Whether a text is made of spaces alone.
pub open spec fn blank(s: Seq<char>) -> bool {
    forall|i: int| 0 <= i < s.len() ==> is_space(#[trigger] s[i])
}

/// Trimming takes the spaces off both ends and nothing else.
pub proof fn law_trimmed(s: Seq<char>)
    ensures
        trimmed(s).len() > 0 ==> !is_space(trimmed(s)[0]) && !is_space(trimmed(s).last()),
        exists|before: Seq<char>, after: Seq<char>| #[trigger]
            blank(before) && #[trigger] blank(after) && s == before + trimmed(s) + after,
{
    let t = without_leading_space(s);
    lemma_leading(s);
    lemma_trailing(t);
    let k = choose|k: int| 0 <= k <= s.len() && blank(s.take(k)) && t == #[trigger] s.skip(k);
    let n = trimmed(s).len() as int;
    assert(trimmed(s).len() > 0 ==> trimmed(s)[0] == t[0]);
    assert(s =~= s.take(k) + trimmed(s) + t.skip(n));
}

proof fn lemma_leading(s: Seq<char>)
    ensures
        without_leading_space(s).len() > 0 ==> !is_space(without_leading_space(s)[0]),
        exists|k: int|
            0 <= k <= s.len() && blank(s.take(k)) && without_leading_space(s) == #[trigger] s.skip(k),
    decreases s.len(),
{
    if s.len() > 0 && is_space(s[0]) {
        lemma_leading(s.skip(1));
        let r = s.skip(1);
        let k = choose|k: int|
            0 <= k <= r.len() && blank(r.take(k)) && without_leading_space(r) == #[trigger] r.skip(k);
        assert(r.skip(k) =~= s.skip(k + 1));
        assert forall|i: int| 0 <= i < s.take(k + 1).len() implies is_space(
            #[trigger] s.take(k + 1)[i],
        ) by {
            if i > 0 {
                assert(s.take(k + 1)[i] == r.take(k)[i - 1]);
            }
        }
    } else {
        assert(s.skip(0) =~= s);
        assert(blank(s.take(0)));
    }
}

proof fn lemma_trailing(s: Seq<char>)
    ensures
        ({
            let t = without_trailing_space(s);
            &&& t.len() <= s.len()
            &&& t == s.take(t.len() as int)
            &&& blank(s.skip(t.len() as int))
            &&& t.len() > 0 ==> !is_space(t.last())
        }),
    decreases s.len(),
{
    let t = without_trailing_space(s);
    if s.len() > 0 && is_space(s.last()) {
        let d = s.drop_last();
        lemma_trailing(d);
        assert(d.take(t.len() as int) =~= s.take(t.len() as int));
        assert forall|i: int| 0 <= i < s.skip(t.len() as int).len() implies is_space(
            #[trigger] s.skip(t.len() as int)[i],
        ) by {
            if i < s.len() - 1 - t.len() {
                assert(s.skip(t.len() as int)[i] == d.skip(t.len() as int)[i]);
            }
        }
    } else {
        assert(s.take(s.len() as int) =~= s);
    }
}

/// A text without spaces is one word, a text of nothing none, and a space parts
/// the words before it from those after it.
pub proof fn law_words(a: Seq<char>, space: char, b: Seq<char>)
    requires
        is_space(space),
    ensures
        words(a + seq![space] + b) == words(a) + words(b),
        words(Seq::empty()) == Seq::<Seq<char>>::empty(),
        (forall|i: int| 0 <= i < a.len() ==> !is_space(#[trigger] a[i])) && a.len() > 0 ==> words(a)
            == seq![a],
{
    lemma_words_parted(a, space, b);
    if forall|i: int| 0 <= i < a.len() ==> !is_space(#[trigger] a[i]) {
        lemma_one_word(a);
        assert(closed_words(a).push(a) =~= seq![a]);
    }
    let s = a + seq![space] + b;
    if tail_word(b).len() > 0 {
        assert((words(a) + closed_words(b)).push(tail_word(b)) =~= words(a) + closed_words(b).push(
            tail_word(b),
        ));
    }
}

proof fn lemma_one_word(a: Seq<char>)
    requires
        forall|i: int| 0 <= i < a.len() ==> !is_space(#[trigger] a[i]),
    ensures
        tail_word(a) == a,
        closed_words(a) == Seq::<Seq<char>>::empty(),
    decreases a.len(),
{
    if a.len() > 0 {
        let d = a.drop_last();
        assert forall|i: int| 0 <= i < d.len() implies !is_space(#[trigger] d[i]) by {
            assert(d[i] == a[i]);
        }
        lemma_one_word(d);
        assert(!is_space(a[a.len() - 1]));
        assert(d.push(a.last()) =~= a);
    }
}

proof fn lemma_words_parted(a: Seq<char>, space: char, b: Seq<char>)
    requires
        is_space(space),
    ensures
        closed_words(a + seq![space] + b) == words(a) + closed_words(b),
        tail_word(a + seq![space] + b) == tail_word(b),
    decreases b.len(),
{
    let s = a + seq![space] + b;
    if b.len() == 0 {
        assert(s.drop_last() =~= a);
        assert(words(a) + closed_words(b) =~= words(a));
    } else {
        let d = b.drop_last();
        lemma_words_parted(a, space, d);
        assert(s.drop_last() =~= a + seq![space] + d);
        assert(s.last() == b.last());
        assert((words(a) + closed_words(d)).push(tail_word(d)) =~= words(a) + closed_words(d).push(
            tail_word(d),
        ));
    }
}

/// A number that was written is read back where it is at most the largest that
/// is asked for, with or without a plus sign; nothing, a lone sign and what holds
/// another character are no number.
pub proof fn law_number_read(n: nat, max: nat, s: Seq<u8>, i: int)
    ensures
        parsed_unsigned(decimal_bytes(n), max) == (if n <= max {
            Some(n)
        } else {
            None
        }),
        parsed_unsigned(seq![43u8] + decimal_bytes(n), max) == parsed_unsigned(
            decimal_bytes(n),
            max,
        ),
        parsed_unsigned(Seq::empty(), max) is None,
        parsed_unsigned(seq![43u8], max) is None,
        0 < i < s.len() && !(48 <= s[i] <= 57) ==> parsed_unsigned(s, max) is None,
{
    lemma_decimal_bytes(n);
    assert((seq![43u8] + decimal_bytes(n)).skip(1) =~= decimal_bytes(n));
    if 0 < i < s.len() && !(48 <= s[i] <= 57) {
        assert(s.skip(1)[i - 1] == s[i]);
    }
}

/// A number below zero is written as a minus sign and the number without it.
pub proof fn law_minus_sign(i: int)
    requires
        i > 0,
    ensures
        signed_decimal_bytes(-i) == seq![45u8] + signed_decimal_bytes(i),
        all_digits(signed_decimal_bytes(i)),
        digits_value(signed_decimal_bytes(i)) == i,
{
    lemma_decimal_bytes(i as nat);
}

} // verus!
