//! What messages carry: the fields that a reader finds in the bytes.

use vstd::prelude::*;
use vstd::utf8::encode_utf8;
use crate::base::amount::{fraction_digits, magnitude, plain_text, without_trailing_zeros, Amount};
use crate::base::amount_text::{law_amount_text_reads_back, law_numeral_reads_back};
use crate::base::bytes::{
    all_digits, decimal_bytes, digits_value, is_digit, lemma_decimal_bytes, signed_decimal_bytes,
    text_of,
};
use crate::base::numbers::all_numeric;
use crate::base::text::{decimal, padded};
use crate::fix::fix_gateway::{
    law_flush_sends_all, report_of, resting, terms_of, GatewayModel, Order, OrderSide, OrderStatus,
    OrderType, TimeInForce,
};
use crate::fix::fix_parser::{
    amount_field, byte_sum, checksum_matches, ends_field, first_value, int_field, integer_of,
    law_integer_exact, message_type, scan, text_field, FixMessageType, FixParseError,
};
use crate::fix::fix_session::{raw_message, SessionModel, SessionState};
use crate::fix::message_builder::{
    cancel_fields, encoded, field_bytes, heartbeat_fields, law_parse_of_encoding,
    lemma_encoded_concat, lemma_encoded_one, lemma_sealed_bytes, logon_fields, new_order_fields,
    plain_value, sealed, sealed_bytes, three_digits, version, with_value, NewOrderTerms,
};

verus! {

/// Whether fields hold exactly one with a tag, and that one has a value; where
/// the value is empty, none with the tag.
pub open spec fn carries(fields: Seq<(u32, Seq<u8>)>, tag: u32, value: Seq<u8>) -> bool {
    if value.len() == 0 {
        forall|j: int| 0 <= j < fields.len() ==> (#[trigger] fields[j]).0 != tag
    } else {
        exists|i: int|
            0 <= i < fields.len() && #[trigger] fields[i] == (tag, value) && forall|j: int|
                0 <= j < fields.len() && j != i ==> (#[trigger] fields[j]).0 != tag
    }
}

/// Whether a text can stand in a message: it holds no end of a field.
pub open spec fn plain_words(s: Seq<char>) -> bool {
    plain_value(encode_utf8(s))
}

proof fn lemma_absent(f: Seq<(u32, Seq<u8>)>, tag: u32)
    requires
        forall|j: int| 0 <= j < f.len() ==> (#[trigger] f[j]).0 != tag,
    ensures
        forall|j: int| 0 <= j < with_value(f).len() ==> (#[trigger] with_value(f)[j]).0 != tag,
    decreases f.len(),
{
    if f.len() > 0 {
        let r = f.skip(1);
        assert forall|j: int| 0 <= j < r.len() implies (#[trigger] r[j]).0 != tag by {
            assert(r[j] == f[j + 1]);
        }
        lemma_absent(r, tag);
        let w = with_value(f);
        assert forall|j: int| 0 <= j < w.len() implies (#[trigger] w[j]).0 != tag by {
            assert(f[0].0 != tag);
            if f[0].1.len() > 0 && j > 0 {
                assert(w[j] == with_value(r)[j - 1]);
            }
        }
    }
}

proof fn lemma_carries(f: Seq<(u32, Seq<u8>)>, i: int)
    requires
        0 <= i < f.len(),
        forall|j: int| 0 <= j < f.len() && j != i ==> (#[trigger] f[j]).0 != f[i].0,
    ensures
        carries(with_value(f), f[i].0, f[i].1),
    decreases f.len(),
{
    let tag = f[i].0;
    let r = f.skip(1);
    let w = with_value(f);
    if i == 0 {
        assert forall|j: int| 0 <= j < r.len() implies (#[trigger] r[j]).0 != tag by {
            assert(r[j] == f[j + 1]);
        }
        lemma_absent(r, tag);
        if f[0].1.len() > 0 {
            assert(w[0] == (tag, f[0].1));
            assert forall|j: int| 0 <= j < w.len() && j != 0 implies (#[trigger] w[j]).0 != tag by {
                assert(w[j] == with_value(r)[j - 1]);
            }
        }
    } else {
        assert(r[i - 1] == f[i]);
        assert forall|j: int| 0 <= j < r.len() && j != i - 1 implies (#[trigger] r[j]).0
            != r[i - 1].0 by {
            assert(r[j] == f[j + 1]);
        }
        lemma_carries(r, i - 1);
        let v = with_value(r);
        assert(f[0].0 != tag);
        let d: int = if f[0].1.len() > 0 { 1 } else { 0 };
        assert forall|j: int| d <= j < w.len() implies #[trigger] w[j] == v[j - d] by {}
        if f[i].1.len() > 0 {
            let k = choose|k: int|
                0 <= k < v.len() && #[trigger] v[k] == (tag, f[i].1) && forall|j: int|
                    0 <= j < v.len() && j != k ==> (#[trigger] v[j]).0 != tag;
            assert(w[k + d] == v[k]);
            assert forall|j: int| 0 <= j < w.len() && j != k + d implies (#[trigger] w[j]).0
                != tag by {
                if j >= d {
                    assert(v[j - d].0 != tag);
                }
            }
        } else {
            assert forall|j: int| 0 <= j < w.len() implies (#[trigger] w[j]).0 != tag by {
                if j >= d {
                    assert(v[j - d].0 != tag);
                }
            }
        }
    }
}

proof fn lemma_first_value(fields: Seq<(u32, Seq<u8>)>, tag: u32, value: Seq<u8>)
    requires
        carries(fields, tag, value),
    ensures
        value.len() > 0 ==> first_value(fields, tag) == Some(value),
        value.len() == 0 ==> first_value(fields, tag) is None,
    decreases fields.len(),
{
    if fields.len() > 0 {
        let r = fields.skip(1);
        assert forall|j: int| 0 <= j < r.len() implies #[trigger] r[j] == fields[j + 1] by {}
        if fields[0].0 != tag {
            if value.len() > 0 {
                let i = choose|i: int|
                    0 <= i < fields.len() && #[trigger] fields[i] == (tag, value) && forall|j: int|
                        0 <= j < fields.len() && j != i ==> (#[trigger] fields[j]).0 != tag;
                assert(r[i - 1] == (tag, value));
                assert forall|j: int| 0 <= j < r.len() && j != i - 1 implies (#[trigger] r[j]).0
                    != tag by {
                    assert(fields[j + 1].0 != tag);
                }
            } else {
                assert forall|j: int| 0 <= j < r.len() implies (#[trigger] r[j]).0 != tag by {
                    assert(fields[j + 1].0 != tag);
                }
            }
            lemma_first_value(r, tag, value);
        } else {
            assert(value.len() > 0);
            let i = choose|i: int|
                0 <= i < fields.len() && #[trigger] fields[i] == (tag, value) && forall|j: int|
                    0 <= j < fields.len() && j != i ==> (#[trigger] fields[j]).0 != tag;
            assert(i == 0);
        }
    }
}

proof fn lemma_digits_plain(n: nat)
    ensures
        plain_value(decimal_bytes(n)),
        decimal_bytes(n).len() > 0,
{
    lemma_decimal_bytes(n);
    let d = decimal_bytes(n);
    assert forall|i: int| 0 <= i < d.len() implies !ends_field(#[trigger] d[i]) by {
        assert(is_digit(d[i]));
    }
}

proof fn lemma_ascii_plain(s: Seq<char>)
    requires
        forall|i: int| 0 <= i < s.len() ==> 32 <= (#[trigger] s[i]) as int <= 126,
    ensures
        plain_words(s),
        encode_utf8(s).len() == s.len(),
        forall|i: int| 0 <= i < s.len() ==> #[trigger] encode_utf8(s)[i] == s[i] as u8,
{
    assert(vstd::utf8::is_ascii_chars(s));
    vstd::utf8::is_ascii_chars_encode_utf8(s);
    let b = encode_utf8(s);
    assert forall|i: int| 0 <= i < b.len() implies !ends_field(#[trigger] b[i]) by {
        assert(b[i] == s[i] as u8);
        assert(32 <= s[i] as int <= 126);
    }
}

proof fn lemma_trimmed_numeric(s: Seq<char>)
    requires
        all_numeric(s),
    ensures
        all_numeric(without_trailing_zeros(s)),
    decreases s.len(),
{
    if s.len() > 0 && s.last() == '0' {
        assert forall|i: int| 0 <= i < s.drop_last().len() implies '0' <= #[trigger] s.drop_last()[i]
            <= '9' by {
            assert(s.drop_last()[i] == s[i]);
        }
        lemma_trimmed_numeric(s.drop_last());
    }
}

proof fn lemma_amount_plain(units: int)
    ensures
        plain_words(plain_text(units)),
        encode_utf8(plain_text(units)).len() > 0,
{
    let m = magnitude(units);
    let d = decimal(m / 100_000_000);
    let w = padded(decimal(m % 100_000_000), 8, '0');
    let f = fraction_digits(m % 100_000_000);
    law_numeral_reads_back(m / 100_000_000);
    law_numeral_reads_back(m % 100_000_000);
    assert forall|i: int| 0 <= i < w.len() implies '0' <= #[trigger] w[i] <= '9' by {
        let s = decimal(m % 100_000_000);
        if s.len() < 8 {
            if i >= 8 - s.len() {
                assert(w[i] == s[i - (8 - s.len())]);
            }
        } else {
            assert(w[i] == s[i]);
        }
    }
    lemma_trimmed_numeric(w);
    let t = plain_text(units);
    let k: int = if units < 0 { 1 } else { 0 };
    assert forall|i: int| 0 <= i < t.len() implies 32 <= (#[trigger] t[i]) as int <= 126 by {
        if i >= k && i < k + d.len() {
            assert(t[i] == d[i - k]);
        } else if i > k + d.len() {
            assert(t[i] == f[i - k - d.len() - 1]);
        }
    }
    lemma_ascii_plain(t);
}

/// A complete message carries each field of its body whose tag stands there
/// once.
pub proof fn law_message_carries_field(body: Seq<(u32, Seq<u8>)>, i: int)
    requires
        0 <= i < body.len(),
        forall|j: int| 0 <= j < body.len() ==> plain_value((#[trigger] body[j]).1),
        forall|j: int| 0 <= j < body.len() && j != i ==> (#[trigger] body[j]).0 != body[i].0,
        body[i].0 != 8,
        body[i].0 != 9,
        body[i].0 != 10,
    ensures
        scan(encoded(sealed(body)), 0).error is None,
        carries(scan(encoded(sealed(body)), 0).fields, body[i].0, body[i].1),
{
    let s = sealed(body);
    lemma_sealed_plain(body);
    law_parse_of_encoding(s);
    assert(s[i + 2] == body[i]);
    assert forall|j: int| 0 <= j < s.len() && j != i + 2 implies (#[trigger] s[j]).0 != s[i + 2].0 by {
        if 2 <= j < s.len() - 1 {
            assert(s[j] == body[j - 2]);
        }
    }
    lemma_carries(s, i + 2);
}

proof fn lemma_sealed_plain(body: Seq<(u32, Seq<u8>)>)
    requires
        forall|j: int| 0 <= j < body.len() ==> plain_value((#[trigger] body[j]).1),
    ensures
        sealed(body).len() == body.len() + 3,
        forall|j: int| 0 <= j < sealed(body).len() ==> plain_value((#[trigger] sealed(body)[j]).1),
        forall|j: int| 0 <= j < body.len() ==> sealed(body)[j + 2] == #[trigger] body[j],
{
    let s = sealed(body);
    lemma_digits_plain(encoded(body).len() + 6);
    assert forall|j: int| 0 <= j < s.len() implies plain_value((#[trigger] s[j]).1) by {
        if 2 <= j < s.len() - 1 {
            assert(s[j] == body[j - 2]);
        } else if j == 0 {
            assert(s[j].1 == version());
        } else if j == s.len() - 1 {
            let sum = byte_sum(
                field_bytes(9u32, decimal_bytes(encoded(body).len() + 6)) + encoded(body),
            ) % 256;
            assert(s[j].1 == three_digits(sum));
        }
    }
}

proof fn lemma_letters()
    ensures
        encode_utf8("A"@) == seq![65u8],
        encode_utf8("D"@) == seq![68u8],
        encode_utf8("F"@) == seq![70u8],
        encode_utf8("Y"@) == seq![89u8],
        encode_utf8("0"@) == seq![48u8],
        encode_utf8("1"@) == seq![49u8],
        encode_utf8("2"@) == seq![50u8],
        encode_utf8("4"@) == seq![52u8],
        plain_value(seq![65u8]),
        plain_value(seq![68u8]),
        plain_value(seq![70u8]),
        plain_value(seq![89u8]),
        plain_value(seq![48u8]),
        plain_value(seq![49u8]),
        plain_value(seq![50u8]),
        plain_value(seq![52u8]),
{
    reveal_strlit("A");
    reveal_strlit("D");
    reveal_strlit("F");
    reveal_strlit("Y");
    reveal_strlit("0");
    reveal_strlit("1");
    reveal_strlit("2");
    reveal_strlit("4");
    lemma_ascii_plain("A"@);
    lemma_ascii_plain("D"@);
    lemma_ascii_plain("F"@);
    lemma_ascii_plain("Y"@);
    lemma_ascii_plain("0"@);
    lemma_ascii_plain("1"@);
    lemma_ascii_plain("2"@);
    lemma_ascii_plain("4"@);
    assert(encode_utf8("A"@) =~= seq![65u8]);
    assert(encode_utf8("D"@) =~= seq![68u8]);
    assert(encode_utf8("F"@) =~= seq![70u8]);
    assert(encode_utf8("Y"@) =~= seq![89u8]);
    assert(encode_utf8("0"@) =~= seq![48u8]);
    assert(encode_utf8("1"@) =~= seq![49u8]);
    assert(encode_utf8("2"@) =~= seq![50u8]);
    assert(encode_utf8("4"@) =~= seq![52u8]);
}

proof fn lemma_amount_field(fields: Seq<(u32, Seq<u8>)>, tag: u32, a: Amount)
    requires
        carries(fields, tag, encode_utf8(plain_text(a.units as int))),
    ensures
        amount_field(fields, tag) == Some(a),
{
    let t = plain_text(a.units as int);
    lemma_amount_plain(a.units as int);
    lemma_first_value(fields, tag, encode_utf8(t));
    vstd::utf8::encode_utf8_valid_utf8(t);
    vstd::utf8::encode_utf8_decode_utf8(t);
    law_amount_text_reads_back(a.units);
}

proof fn lemma_number_field(fields: Seq<(u32, Seq<u8>)>, tag: u32, n: u64)
    requires
        carries(fields, tag, decimal_bytes(n as nat)),
        n <= i64::MAX,
    ensures
        int_field(fields, tag) == Some(n as i64),
{
    lemma_decimal_bytes(n as nat);
    lemma_first_value(fields, tag, decimal_bytes(n as nat));
    law_integer_exact(decimal_bytes(n as nat));
    assert(is_digit(decimal_bytes(n as nat)[0]));
}

/// What the header of a message tells: its type, who sends it to whom, its
/// number and its time.
pub open spec fn carries_header(
    fields: Seq<(u32, Seq<u8>)>,
    msg_type: u8,
    sender: Seq<char>,
    target: Seq<char>,
    seq_num: u64,
    now: Seq<char>,
) -> bool {
    &&& carries(fields, 35, seq![msg_type])
    &&& carries(fields, 49, encode_utf8(sender))
    &&& carries(fields, 56, encode_utf8(target))
    &&& carries(fields, 34, decimal_bytes(seq_num as nat))
    &&& carries(fields, 52, encode_utf8(now))
}

/// A new order carries what it was made from, each under the tag that the
/// protocol gives it and no other: account, order identifier, symbol, side,
/// quantity, price, type of order, time in force and exchange. Quantity and
/// price read as the numbers given.
#[verifier::rlimit(60)]
#[verifier::spinoff_prover]
pub proof fn law_new_order_carries_its_terms(
    sender: Seq<char>,
    target: Seq<char>,
    seq_num: u64,
    now: Seq<char>,
    o: NewOrderTerms,
)
    requires
        plain_words(sender),
        plain_words(target),
        plain_words(now),
        plain_words(o.cl_ord_id),
        plain_words(o.symbol),
        plain_words(o.account),
        plain_words(o.exchange),
        plain_words(seq![o.side]),
        plain_words(seq![o.ord_type]),
        plain_words(seq![o.time_in_force]),
    ensures
        ({
            let s = scan(
                encoded(sealed(new_order_fields(sender, target, seq_num, now, o))),
                0,
            );
            &&& s.error is None
            &&& carries_header(s.fields, 68, sender, target, seq_num, now)
            &&& carries(s.fields, 1, encode_utf8(o.account))
            &&& carries(s.fields, 11, encode_utf8(o.cl_ord_id))
            &&& carries(s.fields, 55, encode_utf8(o.symbol))
            &&& carries(s.fields, 54, encode_utf8(seq![o.side]))
            &&& carries(s.fields, 38, encode_utf8(plain_text(o.order_qty.units as int)))
            &&& carries(s.fields, 44, encode_utf8(plain_text(o.price.units as int)))
            &&& carries(s.fields, 40, encode_utf8(seq![o.ord_type]))
            &&& carries(s.fields, 59, encode_utf8(seq![o.time_in_force]))
            &&& carries(s.fields, 207, encode_utf8(o.exchange))
            &&& amount_field(s.fields, 38) == Some(o.order_qty)
            &&& amount_field(s.fields, 44) == Some(o.price)
            &&& seq_num <= i64::MAX ==> int_field(s.fields, 34) == Some(seq_num as i64)
        }),
{
    let b = new_order_fields(sender, target, seq_num, now, o);
    lemma_new_order_layout(sender, target, seq_num, now, o);
    lemma_all_carried(b, new_order_tags());
    let f = scan(encoded(sealed(b)), 0).fields;
    assert(carries(f, b[0].0, b[0].1) && carries(f, b[1].0, b[1].1));
    assert(carries(f, b[2].0, b[2].1) && carries(f, b[3].0, b[3].1));
    assert(carries(f, b[4].0, b[4].1) && carries(f, b[5].0, b[5].1));
    assert(carries(f, b[6].0, b[6].1) && carries(f, b[7].0, b[7].1));
    assert(carries(f, b[8].0, b[8].1) && carries(f, b[9].0, b[9].1));
    assert(carries(f, b[10].0, b[10].1) && carries(f, b[11].0, b[11].1));
    assert(carries(f, b[12].0, b[12].1) && carries(f, b[13].0, b[13].1));
    lemma_amount_field(f, 38, o.order_qty);
    lemma_amount_field(f, 44, o.price);
    if seq_num <= i64::MAX {
        lemma_number_field(f, 34, seq_num);
    }
}

spec fn new_order_tags() -> Seq<u32> {
    seq![35u32, 49, 56, 34, 52, 1, 11, 55, 54, 38, 44, 40, 59, 207]
}

#[verifier::spinoff_prover]
#[verifier::rlimit(60)]
proof fn lemma_new_order_layout(
    sender: Seq<char>,
    target: Seq<char>,
    seq_num: u64,
    now: Seq<char>,
    o: NewOrderTerms,
)
    requires
        plain_words(sender),
        plain_words(target),
        plain_words(now),
        plain_words(o.cl_ord_id),
        plain_words(o.symbol),
        plain_words(o.account),
        plain_words(o.exchange),
        plain_words(seq![o.side]),
        plain_words(seq![o.ord_type]),
        plain_words(seq![o.time_in_force]),
    ensures
        ({
            let b = new_order_fields(sender, target, seq_num, now, o);
            let t = new_order_tags();
            &&& b.len() == 14
            &&& t.len() == 14
            &&& b[0] == (35u32, seq![68u8])
            &&& b[1] == (49u32, encode_utf8(sender))
            &&& b[2] == (56u32, encode_utf8(target))
            &&& b[3] == (34u32, decimal_bytes(seq_num as nat))
            &&& b[4] == (52u32, encode_utf8(now))
            &&& b[5] == (1u32, encode_utf8(o.account))
            &&& b[6] == (11u32, encode_utf8(o.cl_ord_id))
            &&& b[7] == (55u32, encode_utf8(o.symbol))
            &&& b[8] == (54u32, encode_utf8(seq![o.side]))
            &&& b[9] == (38u32, encode_utf8(plain_text(o.order_qty.units as int)))
            &&& b[10] == (44u32, encode_utf8(plain_text(o.price.units as int)))
            &&& b[11] == (40u32, encode_utf8(seq![o.ord_type]))
            &&& b[12] == (59u32, encode_utf8(seq![o.time_in_force]))
            &&& b[13] == (207u32, encode_utf8(o.exchange))
            &&& forall|j: int|
                0 <= j < b.len() ==> plain_value((#[trigger] b[j]).1) && b[j].0 == t[j]
            &&& forall|i: int, j: int| 0 <= i < j < t.len() ==> #[trigger] t[i] != #[trigger] t[j]
            &&& forall|i: int|
                0 <= i < t.len() ==> #[trigger] t[i] != 8 && t[i] != 9 && t[i] != 10
        }),
{
    let b = new_order_fields(sender, target, seq_num, now, o);
    lemma_letters();
    lemma_digits_plain(seq_num as nat);
    lemma_amount_plain(o.order_qty.units as int);
    lemma_amount_plain(o.price.units as int);
    lemma_new_order_tags();
}

proof fn lemma_new_order_tags()
    ensures
        ({
            let t = new_order_tags();
            &&& t.len() == 14
            &&& forall|i: int, j: int| 0 <= i < j < t.len() ==> #[trigger] t[i] != #[trigger] t[j]
            &&& forall|i: int|
                0 <= i < t.len() ==> #[trigger] t[i] != 8 && t[i] != 9 && t[i] != 10
        }),
{
}

proof fn lemma_all_carried(b: Seq<(u32, Seq<u8>)>, t: Seq<u32>)
    requires
        b.len() == t.len(),
        b.len() > 0,
        forall|j: int| 0 <= j < b.len() ==> plain_value((#[trigger] b[j]).1) && b[j].0 == t[j],
        forall|i: int, j: int| 0 <= i < j < t.len() ==> #[trigger] t[i] != #[trigger] t[j],
        forall|i: int|
            0 <= i < t.len() ==> #[trigger] t[i] != 8 && t[i] != 9 && t[i] != 10,
    ensures
        scan(encoded(sealed(b)), 0).error is None,
        forall|i: int|
            0 <= i < b.len() ==> carries(
                scan(encoded(sealed(b)), 0).fields,
                (#[trigger] b[i]).0,
                b[i].1,
            ),
{
    assert forall|i: int| 0 <= i < b.len() implies carries(
        scan(encoded(sealed(b)), 0).fields,
        (#[trigger] b[i]).0,
        b[i].1,
    ) by {
        assert forall|j: int| 0 <= j < b.len() && j != i implies (#[trigger] b[j]).0 != b[i].0 by {
            assert(b[j].0 == t[j] && b[i].0 == t[i]);
        }
        assert(t[i] == b[i].0);
        law_message_carries_field(b, i);
    }
    assert(carries(scan(encoded(sealed(b)), 0).fields, b[0].0, b[0].1));
    assert(t[0] == b[0].0);
    assert forall|j: int| 0 <= j < b.len() && j != 0 implies (#[trigger] b[j]).0 != b[0].0 by {
        assert(b[j].0 == t[j] && b[0].0 == t[0]);
    }
    law_message_carries_field(b, 0);
}

/// A cancel request carries what it was made from, each under the tag that the
/// protocol gives it and no other: account, its own identifier, that of the
/// order to cancel, symbol and side.
#[verifier::rlimit(60)]
#[verifier::spinoff_prover]
pub proof fn law_cancel_carries_its_terms(
    sender: Seq<char>,
    target: Seq<char>,
    seq_num: u64,
    now: Seq<char>,
    cl_ord_id: Seq<char>,
    orig_cl_ord_id: Seq<char>,
    symbol: Seq<char>,
    side: char,
    account: Seq<char>,
)
    requires
        plain_words(sender),
        plain_words(target),
        plain_words(now),
        plain_words(cl_ord_id),
        plain_words(orig_cl_ord_id),
        plain_words(symbol),
        plain_words(account),
        plain_words(seq![side]),
    ensures
        ({
            let s = scan(
                encoded(
                    sealed(
                        cancel_fields(
                            sender,
                            target,
                            seq_num,
                            now,
                            cl_ord_id,
                            orig_cl_ord_id,
                            symbol,
                            side,
                            account,
                        ),
                    ),
                ),
                0,
            );
            &&& s.error is None
            &&& carries_header(s.fields, 70, sender, target, seq_num, now)
            &&& carries(s.fields, 1, encode_utf8(account))
            &&& carries(s.fields, 11, encode_utf8(cl_ord_id))
            &&& carries(s.fields, 41, encode_utf8(orig_cl_ord_id))
            &&& carries(s.fields, 55, encode_utf8(symbol))
            &&& carries(s.fields, 54, encode_utf8(seq![side]))
        }),
{
    let b = cancel_fields(
        sender,
        target,
        seq_num,
        now,
        cl_ord_id,
        orig_cl_ord_id,
        symbol,
        side,
        account,
    );
    lemma_letters();
    lemma_digits_plain(seq_num as nat);
    assert(b.len() == 10);
    assert(b[0] == (35u32, seq![70u8]));
    assert(b[1] == (49u32, encode_utf8(sender)));
    assert(b[2] == (56u32, encode_utf8(target)));
    assert(b[3] == (34u32, decimal_bytes(seq_num as nat)));
    assert(b[4] == (52u32, encode_utf8(now)));
    assert(b[5] == (1u32, encode_utf8(account)));
    assert(b[6] == (11u32, encode_utf8(cl_ord_id)));
    assert(b[7] == (41u32, encode_utf8(orig_cl_ord_id)));
    assert(b[8] == (55u32, encode_utf8(symbol)));
    assert(b[9] == (54u32, encode_utf8(seq![side])));
    let t = seq![35u32, 49, 56, 34, 52, 1, 11, 41, 55, 54];
    assert forall|j: int| 0 <= j < b.len() implies plain_value((#[trigger] b[j]).1) && b[j].0
        == t[j] by {}
    lemma_all_carried(b, t);
}

/// A heartbeat carries the identifier of the test that it answers.
#[verifier::rlimit(60)]
#[verifier::spinoff_prover]
pub proof fn law_heartbeat_carries_its_test(
    sender: Seq<char>,
    target: Seq<char>,
    seq_num: u64,
    now: Seq<char>,
    test_req_id: Seq<char>,
)
    requires
        plain_words(sender),
        plain_words(target),
        plain_words(now),
        plain_words(test_req_id),
    ensures
        ({
            let s = scan(
                encoded(sealed(heartbeat_fields(sender, target, seq_num, now, test_req_id))),
                0,
            );
            &&& s.error is None
            &&& carries_header(s.fields, 48, sender, target, seq_num, now)
            &&& carries(s.fields, 112, encode_utf8(test_req_id))
        }),
{
    let b = heartbeat_fields(sender, target, seq_num, now, test_req_id);
    lemma_letters();
    lemma_digits_plain(seq_num as nat);
    assert(b.len() == 6);
    assert(b[0] == (35u32, seq![48u8]));
    assert(b[1] == (49u32, encode_utf8(sender)));
    assert(b[2] == (56u32, encode_utf8(target)));
    assert(b[3] == (34u32, decimal_bytes(seq_num as nat)));
    assert(b[4] == (52u32, encode_utf8(now)));
    assert(b[5] == (112u32, encode_utf8(test_req_id)));
    let t = seq![35u32, 49, 56, 34, 52, 112];
    assert forall|j: int| 0 <= j < b.len() implies plain_value((#[trigger] b[j]).1) && b[j].0
        == t[j] by {}
    lemma_all_carried(b, t);
}

/// A logon carries the interval of heartbeats, the method of encryption and an
/// empty length of raw data.
#[verifier::rlimit(60)]
#[verifier::spinoff_prover]
pub proof fn law_logon_carries_its_terms(
    sender: Seq<char>,
    target: Seq<char>,
    seq_num: u64,
    now: Seq<char>,
    heart_bt_int: i32,
    encrypt_method: Seq<char>,
)
    requires
        plain_words(sender),
        plain_words(target),
        plain_words(now),
        plain_words(encrypt_method),
        heart_bt_int >= 0,
    ensures
        ({
            let s = scan(
                encoded(
                    sealed(
                        logon_fields(sender, target, seq_num, now, heart_bt_int, encrypt_method),
                    ),
                ),
                0,
            );
            &&& s.error is None
            &&& carries_header(s.fields, 65, sender, target, seq_num, now)
            &&& carries(s.fields, 98, encode_utf8(encrypt_method))
            &&& carries(s.fields, 108, decimal_bytes(heart_bt_int as nat))
            &&& carries(s.fields, 95, seq![48u8])
            &&& int_field(s.fields, 108) == Some(heart_bt_int as i64)
        }),
{
    let b = logon_fields(sender, target, seq_num, now, heart_bt_int, encrypt_method);
    lemma_letters();
    lemma_digits_plain(seq_num as nat);
    lemma_digits_plain(heart_bt_int as nat);
    assert(b.len() == 9);
    assert(b[0] == (9u32, Seq::<u8>::empty()));
    assert(b[1] == (35u32, seq![65u8]));
    assert(b[2] == (49u32, encode_utf8(sender)));
    assert(b[3] == (56u32, encode_utf8(target)));
    assert(b[4] == (34u32, decimal_bytes(seq_num as nat)));
    assert(b[5] == (52u32, encode_utf8(now)));
    assert(b[6] == (98u32, encode_utf8(encrypt_method)));
    assert(b[7] == (108u32, decimal_bytes(heart_bt_int as nat)));
    assert(b[8] == (95u32, seq![48u8]));
    let t = seq![9u32, 35, 49, 56, 34, 52, 98, 108, 95];
    assert forall|j: int| 0 <= j < b.len() implies plain_value((#[trigger] b[j]).1) && b[j].0
        == t[j] by {}
    let f = scan(encoded(sealed(b)), 0).fields;
    assert forall|i: int| 1 <= i < b.len() implies carries(f, (#[trigger] b[i]).0, b[i].1) by {
        assert forall|j: int| 0 <= j < b.len() && j != i implies (#[trigger] b[j]).0 != b[i].0 by {
            assert(b[j].0 == t[j] && b[i].0 == t[i]);
        }
        assert(b[i].0 == t[i]);
        law_message_carries_field(b, i);
    }
    law_message_carries_field(b, 1);
    lemma_number_field(f, 108, heart_bt_int as u64);
}

/// A complete message starts with the version and the length that it names,
/// six more than the bytes of its body, and ends with the sum of all bytes
/// between version and checksum, modulo 256 and with three digits.
pub proof fn law_message_is_sealed(body: Seq<(u32, Seq<u8>)>)
    ensures
        ({
            let m = encoded(sealed(body));
            let n = encoded(body).len();
            let d = decimal_bytes(n + 6).len() as int;
            let k = m.len() - 7;
            &&& m.len() == 10 + 2 + d + 1 + n + 7
            &&& m.take(12) == seq![56u8, 61, 70, 73, 88, 46, 52, 46, 52, 1, 57, 61]
            &&& digits_value(m.subrange(12, 12 + d)) == n + 6
            &&& m[12 + d] == 1
            &&& m.subrange(13 + d, k) == encoded(body)
            &&& m[k] == 49 && m[k + 1] == 48 && m[k + 2] == 61 && m[k + 6] == 1
            &&& (m[k + 3] - 48) * 100 + (m[k + 4] - 48) * 10 + (m[k + 5] - 48) == byte_sum(
                m.subrange(10, k),
            ) % 256
        }),
{
    let e = encoded(body);
    let digits = decimal_bytes(e.len() + 6);
    lemma_decimal_bytes(e.len() + 6);
    lemma_sealed_bytes(body);
    let head = field_bytes(9u32, digits);
    let sum = byte_sum(head + e) % 256;
    let a = field_bytes(8u32, version());
    let z = field_bytes(10u32, three_digits(sum));
    assert(decimal_bytes(8) =~= seq![56u8]);
    assert(decimal_bytes(9) =~= seq![57u8]);
    assert(decimal_bytes(10) =~= seq![49u8, 48]) by {
        reveal_with_fuel(decimal_bytes, 2);
    }
    assert(a =~= seq![56u8, 61, 70, 73, 88, 46, 52, 46, 52, 1]);
    assert(head =~= seq![57u8, 61] + digits + seq![1u8]);
    assert(z =~= seq![49u8, 48, 61] + three_digits(sum) + seq![1u8]);
    let m = encoded(sealed(body));
    assert(m == a + head + e + z);
    let d = digits.len() as int;
    let k = m.len() - 7;
    assert(m.take(12) =~= seq![56u8, 61, 70, 73, 88, 46, 52, 46, 52, 1, 57, 61]);
    assert(m.subrange(12, 12 + d) =~= digits);
    assert(m.subrange(13 + d, k) =~= e);
    assert(m.subrange(10, k) =~= head + e);
    assert(m[k] == z[0] && m[k + 1] == z[1] && m[k + 2] == z[2] && m[k + 3] == z[3] && m[k + 4]
        == z[4] && m[k + 5] == z[5] && m[k + 6] == z[6]);
}

/// The sum of bytes counts each of them once.
pub proof fn law_byte_sum(s: Seq<u8>, b: u8)
    ensures
        byte_sum(Seq::empty()) == 0,
        byte_sum(s.push(b)) == byte_sum(s) + b,
{
    assert(s.push(b).drop_last() =~= s);
}

proof fn lemma_list_carried(f: Seq<(u32, Seq<u8>)>, t: Seq<u32>)
    requires
        f.len() == t.len(),
        forall|j: int| 0 <= j < f.len() ==> plain_value((#[trigger] f[j]).1) && f[j].0 == t[j],
        forall|i: int, j: int| 0 <= i < j < t.len() ==> #[trigger] t[i] != #[trigger] t[j],
    ensures
        scan(encoded(f), 0).error is None,
        forall|i: int|
            0 <= i < f.len() ==> carries(
                scan(encoded(f), 0).fields,
                (#[trigger] f[i]).0,
                f[i].1,
            ),
{
    law_parse_of_encoding(f);
    assert forall|i: int| 0 <= i < f.len() implies carries(
        scan(encoded(f), 0).fields,
        (#[trigger] f[i]).0,
        f[i].1,
    ) by {
        assert forall|j: int| 0 <= j < f.len() && j != i implies (#[trigger] f[j]).0 != f[i].0 by {
            assert(f[j].0 == t[j] && f[i].0 == t[i]);
        }
        lemma_carries(f, i);
    }
}

proof fn lemma_raw_one(
    length: Seq<char>,
    msg_type: Seq<char>,
    code: u8,
    sender: Seq<char>,
    target: Seq<char>,
    seq_num: u64,
    now: Seq<char>,
    more: Seq<(u32, Seq<u8>)>,
)
    requires
        plain_words(length),
        encode_utf8(msg_type) == seq![code],
        plain_value(seq![code]),
        plain_words(sender),
        plain_words(target),
        plain_words(now),
        1 <= more.len() <= 2,
        forall|j: int| 0 <= j < more.len() ==> plain_value((#[trigger] more[j]).1),
        forall|j: int|
            0 <= j < more.len() ==> (#[trigger] more[j]).0 == 7 || more[j].0 == 16 || more[j].0
                == 36 || more[j].0 == 112 || more[j].0 == 123,
        more.len() == 2 ==> more[0].0 != more[1].0,
    ensures
        ({
            let s = scan(
                raw_message(length, msg_type, sender, target, seq_num, now, more),
                0,
            );
            &&& s.error is None
            &&& carries_header(s.fields, code, sender, target, seq_num, now)
            &&& forall|i: int|
                0 <= i < more.len() ==> carries(s.fields, (#[trigger] more[i]).0, more[i].1)
        }),
{
    reveal_strlit("000");
    lemma_ascii_plain("000"@);
    lemma_digits_plain(seq_num as nat);
    let zeros = encode_utf8("000"@);
    let head = seq![
        (8u32, version()),
        (9u32, encode_utf8(length)),
        (35u32, seq![code]),
        (49u32, encode_utf8(sender)),
        (56u32, encode_utf8(target)),
        (34u32, decimal_bytes(seq_num as nat)),
        (52u32, encode_utf8(now)),
    ];
    let f = head + more + seq![(10u32, zeros)];
    let n = more.len() as int;
    let ht = seq![8u32, 9, 35, 49, 56, 34, 52];
    let t = Seq::new(
        f.len(),
        |i: int|
            if i < 7 {
                ht[i]
            } else if i < 7 + n {
                more[i - 7].0
            } else {
                10u32
            },
    );
    assert(raw_message(length, msg_type, sender, target, seq_num, now, more) == encoded(f));
    assert forall|j: int| 0 <= j < f.len() implies plain_value((#[trigger] f[j]).1) && f[j].0
        == t[j] by {
        if 7 <= j < 7 + n {
            assert(f[j] == more[j - 7]);
        }
    }
    assert forall|i: int, j: int| 0 <= i < j < t.len() implies #[trigger] t[i] != #[trigger] t[j] by {
        if 7 <= j < 7 + n {
            let x = more[j - 7].0;
            if i >= 7 {
                assert(i == 7 && j == 8);
            }
        } else if 7 <= i < 7 + n {
            let x = more[i - 7].0;
        }
    }
    lemma_list_carried(f, t);
    let g = scan(encoded(f), 0).fields;
    assert(carries(g, f[2].0, f[2].1) && carries(g, f[3].0, f[3].1) && carries(g, f[4].0, f[4].1)
        && carries(g, f[5].0, f[5].1) && carries(g, f[6].0, f[6].1));
    assert forall|i: int| 0 <= i < n implies carries(g, (#[trigger] more[i]).0, more[i].1) by {
        assert(f[i + 7] == more[i]);
        assert(carries(g, f[i + 7].0, f[i + 7].1));
    }
}

proof fn lemma_lengths_plain()
    ensures
        plain_words("64"@),
        plain_words("52"@),
        plain_words("58"@),
{
    reveal_strlit("64");
    reveal_strlit("52");
    reveal_strlit("58");
    lemma_ascii_plain("64"@);
    lemma_ascii_plain("52"@);
    lemma_ascii_plain("58"@);
}

/// A session that asks for messages sends one request, numbered with its next
/// number, that names the first and the last one wanted; nothing else of it
/// changes.
pub proof fn law_resend_request(m: SessionModel, begin: u64, end: u64, now: Seq<char>)
    requires
        plain_words(m.sender),
        plain_words(m.target),
        plain_words(now),
    ensures
        ({
            let after = m.asking_resend(begin, end, now);
            let s = scan(after.outbox.last(), 0);
            &&& after.outbox.len() == m.outbox.len() + 1
            &&& after.outbox.drop_last() == m.outbox
            &&& s.error is None
            &&& carries_header(s.fields, 50, m.sender, m.target, m.outgoing_seq, now)
            &&& carries(s.fields, 7, decimal_bytes(begin as nat))
            &&& carries(s.fields, 16, decimal_bytes(end as nat))
            &&& m.outgoing_seq < u64::MAX ==> after.outgoing_seq == m.outgoing_seq + 1
            &&& after.incoming_seq == m.incoming_seq
            &&& after.state == m.state
            &&& after.last_msg_ns == m.last_msg_ns
        }),
{
    lemma_letters();
    lemma_lengths_plain();
    lemma_digits_plain(begin as nat);
    lemma_digits_plain(end as nat);
    let more = seq![
        (7u32, decimal_bytes(begin as nat)),
        (16u32, decimal_bytes(end as nat)),
    ];
    lemma_raw_one("64"@, "2"@, 50, m.sender, m.target, m.outgoing_seq, now, more);
    let after = m.asking_resend(begin, end, now);
    assert(after.outbox.drop_last() =~= m.outbox);
    let f = scan(after.outbox.last(), 0).fields;
    assert(carries(f, more[0].0, more[0].1) && carries(f, more[1].0, more[1].1));
}

/// A session that resets its numbers sends one message, numbered with its next
/// number, that names the new number and fills the gap, and expects that number
/// itself.
pub proof fn law_sequence_reset(m: SessionModel, new_seq: u64, now: Seq<char>)
    requires
        plain_words(m.sender),
        plain_words(m.target),
        plain_words(now),
    ensures
        ({
            let after = m.resetting(new_seq, now);
            let s = scan(after.outbox.last(), 0);
            &&& after.outbox.len() == m.outbox.len() + 1
            &&& after.outbox.drop_last() == m.outbox
            &&& s.error is None
            &&& carries_header(s.fields, 52, m.sender, m.target, m.outgoing_seq, now)
            &&& carries(s.fields, 123, seq![89u8])
            &&& carries(s.fields, 36, decimal_bytes(new_seq as nat))
            &&& m.outgoing_seq < u64::MAX ==> after.outgoing_seq == m.outgoing_seq + 1
            &&& after.incoming_seq == new_seq
            &&& after.state == m.state
        }),
{
    lemma_letters();
    lemma_lengths_plain();
    lemma_digits_plain(new_seq as nat);
    let more = seq![(123u32, seq![89u8]), (36u32, decimal_bytes(new_seq as nat))];
    lemma_raw_one("52"@, "4"@, 52, m.sender, m.target, m.outgoing_seq, now, more);
    let after = m.resetting(new_seq, now);
    assert(after.outbox.drop_last() =~= m.outbox);
    let f = scan(after.outbox.last(), 0).fields;
    assert(carries(f, more[0].0, more[0].1) && carries(f, more[1].0, more[1].1));
}

/// A session that is logged on probes a counterparty that was not heard for
/// more than two heartbeat intervals, by one test request with a new
/// identifier; any other session, and one that heard something since, sends
/// nothing.
pub proof fn law_silence_is_probed(m: SessionModel, now: Seq<char>, at: u64)
    requires
        plain_words(m.sender),
        plain_words(m.target),
        plain_words(now),
        0 <= m.heart_bt_sec <= 1_000_000_000,
        m.test_request_counter < u64::MAX,
    ensures
        ({
            let after = m.probing(now, at);
            let s = scan(after.outbox.last(), 0);
            if m.state == SessionState::LoggedOn && at > m.last_msg_ns + 2
                * m.heart_bt_sec * 1_000_000_000 {
                &&& after.outbox.len() == m.outbox.len() + 1
                &&& after.outbox.drop_last() == m.outbox
                &&& s.error is None
                &&& carries_header(s.fields, 49, m.sender, m.target, m.outgoing_seq, now)
                &&& text_field(s.fields, 112) == Some(
                    "TEST"@ + decimal((m.test_request_counter + 1) as nat),
                )
                &&& after.test_request_counter == m.test_request_counter + 1
                &&& after.state == m.state
                &&& after.incoming_seq == m.incoming_seq
            } else {
                after == m
            }
        }),
{
    let hb = m.heart_bt_sec;
    assert(hb.wrapping_mul(2) == hb * 2);
    let n = (m.test_request_counter + 1) as nat;
    lemma_letters();
    lemma_lengths_plain();
    reveal_strlit("TEST");
    law_numeral_reads_back(n);
    let id = "TEST"@ + decimal(n);
    assert forall|i: int| 0 <= i < id.len() implies 32 <= (#[trigger] id[i]) as int <= 126 by {
        if i >= 4 {
            assert(id[i] == decimal(n)[i - 4]);
        }
    }
    lemma_ascii_plain(id);
    let more = seq![(112u32, encode_utf8(id))];
    lemma_raw_one("58"@, "1"@, 49, m.sender, m.target, m.outgoing_seq, now, more);
    let after = m.probing(now, at);
    if m.state == SessionState::LoggedOn && at > m.last_msg_ns + 2
        * m.heart_bt_sec * 1_000_000_000 {
        assert(after.outbox.drop_last() =~= m.outbox);
        let f = scan(after.outbox.last(), 0).fields;
        assert(carries(f, more[0].0, more[0].1));
        lemma_first_value(f, 112, encode_utf8(id));
        vstd::utf8::encode_utf8_valid_utf8(id);
        vstd::utf8::encode_utf8_decode_utf8(id);
    }
}

/// An order that is submitted while logged on goes out as one message with its
/// own identifier, symbol, side, quantity, price, type and time in force: a
/// purchase as side one and a sale as side two, a market order as type one, a
/// limit as two and a stop limit as three. It is then known under its
/// identifier.
pub proof fn law_submitted_order_goes_out(g: GatewayModel, o: Order, now: Seq<char>)
    requires
        g.session.state == SessionState::LoggedOn,
        plain_words(g.session.sender),
        plain_words(g.session.target),
        plain_words(now),
        plain_words(o.client_order_id@),
        plain_words(o.symbol@),
        plain_words(o.account@),
        plain_words(o.exchange@),
    ensures
        ({
            let after = g.submitted(o, now);
            let s = scan(after.session.outbox.last(), 0);
            &&& after.session.outbox.len() == g.session.outbox.len() + 1
            &&& after.session.outbox.drop_last() == g.session.outbox
            &&& s.error is None
            &&& carries_header(
                s.fields,
                68,
                g.session.sender,
                g.session.target,
                g.session.outgoing_seq,
                now,
            )
            &&& carries(s.fields, 11, encode_utf8(o.client_order_id@))
            &&& carries(s.fields, 55, encode_utf8(o.symbol@))
            &&& carries(s.fields, 1, encode_utf8(o.account@))
            &&& carries(s.fields, 207, encode_utf8(o.exchange@))
            &&& carries(
                s.fields,
                54,
                match o.side {
                    OrderSide::Buy => seq![49u8],
                    OrderSide::Sell => seq![50u8],
                },
            )
            &&& carries(
                s.fields,
                40,
                match o.order_type {
                    OrderType::Market => seq![49u8],
                    OrderType::Limit => seq![50u8],
                    OrderType::StopLimit => seq![51u8],
                },
            )
            &&& carries(
                s.fields,
                59,
                match o.time_in_force {
                    TimeInForce::Day => seq![48u8],
                    TimeInForce::GTC => seq![51u8],
                    TimeInForce::IOC => seq![52u8],
                    TimeInForce::FOK => seq![53u8],
                    TimeInForce::GTD => seq![54u8],
                },
            )
            &&& amount_field(s.fields, 38) == Some(o.quantity)
            &&& o.price is Some ==> amount_field(s.fields, 44) == o.price
            &&& o.price is None ==> amount_field(s.fields, 44) == Some(Amount { units: 0 })
            &&& after.orders.contains_key(o.client_order_id@)
            &&& after.orders[o.client_order_id@] == o
            &&& after.pending_orders == g.pending_orders
        }),
{
    let t = terms_of(o);
    let a = seq![t.side];
    let b = seq![t.ord_type];
    let c = seq![t.time_in_force];
    lemma_ascii_plain(a);
    lemma_ascii_plain(b);
    lemma_ascii_plain(c);
    assert(encode_utf8(a) =~= seq![t.side as u8]);
    assert(encode_utf8(b) =~= seq![t.ord_type as u8]);
    assert(encode_utf8(c) =~= seq![t.time_in_force as u8]);
    law_new_order_carries_its_terms(
        g.session.sender,
        g.session.target,
        g.session.outgoing_seq,
        now,
        t,
    );
    assert(g.submitted(o, now).session.outbox.drop_last() =~= g.session.outbox);
}

/// An order that is submitted while not logged on waits behind the others, and
/// nothing is sent.
pub proof fn law_submitted_order_waits(g: GatewayModel, o: Order, now: Seq<char>)
    requires
        g.session.state != SessionState::LoggedOn,
    ensures
        g.submitted(o, now).session == g.session,
        g.submitted(o, now).orders == g.orders,
        g.submitted(o, now).pending_orders == g.pending_orders.push(o),
{
}

/// A cancel goes out while logged on as one message that names the order by its
/// identifier and carries its symbol, side and account, under an identifier of
/// its own; while not logged on it waits, and one of an unknown order does
/// nothing. The order stays known.
pub proof fn law_cancel_goes_out(g: GatewayModel, id: Seq<char>, now: Seq<char>)
    requires
        plain_words(g.session.sender),
        plain_words(g.session.target),
        plain_words(now),
        g.orders.contains_key(id) ==> plain_words(g.orders[id].client_order_id@) && plain_words(
            g.orders[id].symbol@,
        ) && plain_words(g.orders[id].account@) && plain_words(
            g.orders[id].client_order_id@ + "-CANCEL"@,
        ),
    ensures
        ({
            let after = g.cancelling(id, now);
            let s = scan(after.session.outbox.last(), 0);
            let o = g.orders[id];
            &&& after.orders == g.orders
            &&& !g.orders.contains_key(id) ==> after == g
            &&& g.orders.contains_key(id) && g.session.state
                != SessionState::LoggedOn ==> after.session == g.session
                && after.pending_cancels == g.pending_cancels.push(id)
            &&& g.orders.contains_key(id) && g.session.state
                == SessionState::LoggedOn ==> {
                &&& after.session.outbox.len() == g.session.outbox.len() + 1
                &&& after.session.outbox.drop_last() == g.session.outbox
                &&& s.error is None
                &&& carries_header(
                    s.fields,
                    70,
                    g.session.sender,
                    g.session.target,
                    g.session.outgoing_seq,
                    now,
                )
                &&& carries(s.fields, 41, encode_utf8(o.client_order_id@))
                &&& carries(s.fields, 11, encode_utf8(o.client_order_id@ + "-CANCEL"@))
                &&& carries(s.fields, 55, encode_utf8(o.symbol@))
                &&& carries(s.fields, 1, encode_utf8(o.account@))
                &&& carries(
                    s.fields,
                    54,
                    match o.side {
                        OrderSide::Buy => seq![49u8],
                        OrderSide::Sell => seq![50u8],
                    },
                )
                &&& after.pending_cancels == g.pending_cancels
            }
        }),
{
    if g.orders.contains_key(id) {
        let o = g.orders[id];
        let a = seq![o.side.fix_char()];
        lemma_ascii_plain(a);
        assert(encode_utf8(a) =~= seq![o.side.fix_char() as u8]);
        law_cancel_carries_its_terms(
            g.session.sender,
            g.session.target,
            g.session.outgoing_seq,
            now,
            o.client_order_id@ + "-CANCEL"@,
            o.client_order_id@,
            o.symbol@,
            o.side.fix_char(),
            o.account@,
        );
        if g.session.state == SessionState::LoggedOn {
            assert(g.cancelling(id, now).session.outbox.drop_last() =~= g.session.outbox);
        }
    }
}

/// The bytes that stand for message types are those of the protocol, and no
/// other byte stands for one.
pub proof fn law_message_codes(b: u8)
    ensures
        FixMessageType::decoded(48) == Some(FixMessageType::Heartbeat),
        FixMessageType::decoded(49) == Some(FixMessageType::TestRequest),
        FixMessageType::decoded(50) == Some(FixMessageType::ResendRequest),
        FixMessageType::decoded(51) == Some(FixMessageType::Reject),
        FixMessageType::decoded(52) == Some(FixMessageType::SequenceReset),
        FixMessageType::decoded(53) == Some(FixMessageType::Logout),
        FixMessageType::decoded(56) == Some(FixMessageType::ExecutionReport),
        FixMessageType::decoded(57) == Some(FixMessageType::OrderCancelReject),
        FixMessageType::decoded(65) == Some(FixMessageType::Logon),
        FixMessageType::decoded(68) == Some(FixMessageType::NewOrderSingle),
        FixMessageType::decoded(70) == Some(FixMessageType::OrderCancelRequest),
        FixMessageType::decoded(87) == Some(FixMessageType::MarketDataSnapshot),
        FixMessageType::decoded(88) == Some(FixMessageType::MarketDataIncrementalRefresh),
        FixMessageType::decoded(b) is Some ==> 48 <= b <= 53 || 56 <= b <= 57 || b == 65 || b == 68
            || b == 70 || b == 87 || b == 88,
{
    FixMessageType::lemma_code(FixMessageType::Heartbeat);
    FixMessageType::lemma_code(FixMessageType::TestRequest);
    FixMessageType::lemma_code(FixMessageType::ResendRequest);
    FixMessageType::lemma_code(FixMessageType::Reject);
    FixMessageType::lemma_code(FixMessageType::SequenceReset);
    FixMessageType::lemma_code(FixMessageType::Logout);
    FixMessageType::lemma_code(FixMessageType::ExecutionReport);
    FixMessageType::lemma_code(FixMessageType::OrderCancelReject);
    FixMessageType::lemma_code(FixMessageType::Logon);
    FixMessageType::lemma_code(FixMessageType::NewOrderSingle);
    FixMessageType::lemma_code(FixMessageType::OrderCancelRequest);
    FixMessageType::lemma_code(FixMessageType::MarketDataSnapshot);
    FixMessageType::lemma_code(FixMessageType::MarketDataIncrementalRefresh);
}

proof fn lemma_no_type(fields: Seq<(u32, Seq<u8>)>)
    requires
        forall|j: int| 0 <= j < fields.len() ==> (#[trigger] fields[j]).0 != 35,
    ensures
        message_type(fields) is None,
    decreases fields.len(),
{
    if fields.len() > 0 {
        let d = fields.drop_last();
        assert forall|j: int| 0 <= j < d.len() implies (#[trigger] d[j]).0 != 35 by {
            assert(d[j] == fields[j]);
        }
        assert(fields[fields.len() - 1].0 != 35);
        lemma_no_type(d);
    }
}

/// The type of a message is the one that its only field of that tag names by
/// its first byte.
pub proof fn law_message_type(fields: Seq<(u32, Seq<u8>)>, value: Seq<u8>)
    requires
        carries(fields, 35, value),
        value.len() > 0,
    ensures
        message_type(fields) == FixMessageType::decoded(value[0]),
    decreases fields.len(),
{
    let i = choose|i: int|
        0 <= i < fields.len() && #[trigger] fields[i] == (35u32, value) && forall|j: int|
            0 <= j < fields.len() && j != i ==> (#[trigger] fields[j]).0 != 35;
    let d = fields.drop_last();
    assert forall|j: int| 0 <= j < d.len() implies #[trigger] d[j] == fields[j] by {}
    if i == fields.len() - 1 {
        assert forall|j: int| 0 <= j < d.len() implies (#[trigger] d[j]).0 != 35 by {
            assert(fields[j].0 != 35);
        }
        lemma_no_type(d);
    } else {
        assert(fields[fields.len() - 1].0 != 35);
        assert(d[i] == (35u32, value));
        assert forall|j: int| 0 <= j < d.len() && j != i implies (#[trigger] d[j]).0 != 35 by {
            assert(fields[j].0 != 35);
        }
        law_message_type(d, value);
    }
}

/// Whether a message has a header with a number: version, sender, target and
/// time as text, and the number.
pub open spec fn numbered(fields: Seq<(u32, Seq<u8>)>, n: u64) -> bool {
    &&& text_field(fields, 8) is Some
    &&& text_field(fields, 49) is Some
    &&& text_field(fields, 56) is Some
    &&& text_field(fields, 52) is Some
    &&& int_field(fields, 34) == Some(n as i64)
    &&& n <= i64::MAX
}

/// A message with a number behind the expected one is not taken in, and the
/// numbers from the expected one up to the one before it are asked for; one with
/// a number before the expected one changes nothing.
pub proof fn law_only_expected_number_taken(
    m: SessionModel,
    data: Seq<u8>,
    now: Seq<char>,
    at: u64,
    n: u64,
)
    requires
        scan(data, 0).error is None,
        scan(data, 0).fields.len() > 0,
        numbered(scan(data, 0).fields, n),
        n != m.incoming_seq,
        plain_words(m.sender),
        plain_words(m.target),
        plain_words(now),
    ensures
        ({
            let after = m.after_data(data, now, at);
            let s = scan(after.outbox.last(), 0);
            &&& m.answer(data) == Ok::<Option<FixMessageType>, FixParseError>(None)
            &&& after.incoming_seq == m.incoming_seq
            &&& after.state == m.state
            &&& after.last_msg_ns == m.last_msg_ns
            &&& n < m.incoming_seq ==> after == m
            &&& n > m.incoming_seq ==> {
                &&& after.outbox.len() == m.outbox.len() + 1
                &&& after.outbox.drop_last() == m.outbox
                &&& carries_header(s.fields, 50, m.sender, m.target, m.outgoing_seq, now)
                &&& carries(s.fields, 7, decimal_bytes(m.incoming_seq as nat))
                &&& carries(s.fields, 16, decimal_bytes((n - 1) as nat))
            }
        }),
{
    if n > m.incoming_seq {
        law_resend_request(m, m.incoming_seq, (n - 1) as u64, now);
    }
}

/// What a message with the expected number does, by its type: a logon logs the
/// session on, a logout ends it, a test request is answered by a heartbeat with
/// its identifier, a request to send again by a reset to the number it begins
/// at, a reset sets the expected number; any other leaves the session as it is.
/// But for the last two the next number is expected then, and the counterparty
/// was heard.
#[verifier::rlimit(40)]
#[verifier::spinoff_prover]
pub proof fn law_expected_message(
    m: SessionModel,
    data: Seq<u8>,
    now: Seq<char>,
    at: u64,
    value: Seq<u8>,
)
    requires
        scan(data, 0).error is None,
        numbered(scan(data, 0).fields, m.incoming_seq),
        m.incoming_seq < i64::MAX,
        carries(scan(data, 0).fields, 35, value),
        value.len() == 1,
        plain_words(m.sender),
        plain_words(m.target),
        plain_words(now),
    ensures
        ({
            let fields = scan(data, 0).fields;
            let after = m.after_data(data, now, at);
            let s = scan(after.outbox.last(), 0);
            let code = value[0];
            &&& m.answer(data) == Ok::<Option<FixMessageType>, FixParseError>(
                FixMessageType::decoded(code),
            )
            &&& after.last_msg_ns == at
            &&& code != 50 && code != 52 ==> after.incoming_seq == m.incoming_seq + 1
            &&& after.state == (if code == 65 {
                SessionState::LoggedOn
            } else if code == 53 {
                SessionState::LogoutSent
            } else {
                m.state
            })
            &&& code == 49 && text_field(fields, 112) is Some && plain_words(
                text_field(fields, 112)->0,
            ) ==> {
                &&& after.outbox.len() == m.outbox.len() + 1
                &&& after.outbox.drop_last() == m.outbox
                &&& carries_header(s.fields, 48, m.sender, m.target, m.outgoing_seq, now)
                &&& carries(s.fields, 112, encode_utf8(text_field(fields, 112)->0))
            }
            &&& code == 50 && int_field(fields, 7) is Some && int_field(fields, 7)->0 >= 0 ==> {
                &&& after.outbox.len() == m.outbox.len() + 1
                &&& after.outbox.drop_last() == m.outbox
                &&& carries_header(s.fields, 52, m.sender, m.target, m.outgoing_seq, now)
                &&& carries(s.fields, 36, decimal_bytes(int_field(fields, 7)->0 as nat))
                &&& after.incoming_seq == int_field(fields, 7)->0
            }
            &&& code == 52 && int_field(fields, 36) is Some && int_field(fields, 36)->0 >= 0
                ==> after.incoming_seq == int_field(fields, 36)->0
            &&& code != 49 && code != 50 ==> after.outbox == m.outbox && after.outgoing_seq
                == m.outgoing_seq
        }),
{
    let fields = scan(data, 0).fields;
    law_message_type(fields, value);
    law_message_codes(value[0]);
    let heard = SessionModel {
        incoming_seq: (m.incoming_seq + 1) as u64,
        last_msg_ns: at,
        ..m
    };
    if value[0] == 49 {
        if let Some(id) = text_field(fields, 112) {
            if plain_words(id) {
                law_heartbeat_carries_its_test(m.sender, m.target, m.outgoing_seq, now, id);
                assert(heard.answering_test(id, now).outbox.drop_last() =~= m.outbox);
            }
        }
    }
    if value[0] == 50 {
        if let Some(n) = int_field(fields, 7) {
            if n >= 0 {
                law_sequence_reset(heard, n as u64, now);
            }
        }
    }
}

/// The checksum of a message is found right where its field names the sum of
/// all its bytes, modulo 256.
pub proof fn law_checksum_field(fields: Seq<(u32, Seq<u8>)>, data: Seq<u8>, n: nat)
    requires
        carries(fields, 10, decimal_bytes(n)),
        n < 256,
    ensures
        checksum_matches(fields, data) <==> byte_sum(data) % 256 == n,
{
    lemma_decimal_bytes(n);
    lemma_first_value(fields, 10, decimal_bytes(n));
    crate::base::bytes::lemma_digits_are_text(decimal_bytes(n));
    assert(is_digit(decimal_bytes(n)[0]));
}

/// A report tells what the fields of its message say: identifiers, symbol and
/// time as text, quantities and price as numbers, the side and the status by
/// their characters.
pub proof fn law_report_tells_its_fields(
    fields: Seq<(u32, Seq<u8>)>,
    text: Seq<char>,
    a: Amount,
)
    requires
        text.len() > 0,
    ensures
        carries(fields, 37, encode_utf8(text)) ==> report_of(fields).order_id == text,
        carries(fields, 11, encode_utf8(text)) ==> report_of(fields).client_order_id == text,
        carries(fields, 55, encode_utf8(text)) ==> report_of(fields).symbol == text,
        carries(fields, 60, encode_utf8(text)) ==> report_of(fields).transact_time == text,
        carries(fields, 150, encode_utf8(text)) ==> report_of(fields).exec_type == text[0],
        carries(fields, 54, encode_utf8(text)) ==> (report_of(fields).side == OrderSide::Sell
            <==> text[0] == '2'),
        carries(fields, 39, encode_utf8(text)) ==> {
            let s = report_of(fields).ord_status;
            &&& text[0] == '0' ==> s == OrderStatus::New
            &&& text[0] == '1' ==> s == OrderStatus::PartiallyFilled
            &&& text[0] == '2' ==> s == OrderStatus::Filled
            &&& text[0] == '4' ==> s == OrderStatus::Cancelled
            &&& text[0] == '6' ==> s == OrderStatus::PendingNew
            &&& text[0] == '7' ==> s == OrderStatus::PendingCancel
            &&& text[0] == '8' ==> s == OrderStatus::Rejected
        },
        carries(fields, 151, encode_utf8(plain_text(a.units as int))) ==> report_of(
            fields,
        ).leaves_qty == a,
        carries(fields, 14, encode_utf8(plain_text(a.units as int))) ==> report_of(fields).cum_qty
            == a,
        carries(fields, 32, encode_utf8(plain_text(a.units as int))) ==> report_of(fields).last_qty
            == a,
        carries(fields, 31, encode_utf8(plain_text(a.units as int))) ==> report_of(
            fields,
        ).last_price == a,
        carries(fields, 54, Seq::empty()) ==> report_of(fields).side == OrderSide::Buy,
        carries(fields, 39, Seq::empty()) ==> report_of(fields).ord_status == OrderStatus::New,
        carries(fields, 14, Seq::empty()) ==> report_of(fields).cum_qty.units == 0,
{
    vstd::utf8::encode_utf8_valid_utf8(text);
    vstd::utf8::encode_utf8_decode_utf8(text);
    vstd::utf8::encode_utf8_first_scalar(text);
    let b = encode_utf8(text);
    assert(b.len() > 0);
    assert forall|tag: u32| #[trigger] carries(fields, tag, b) implies text_field(fields, tag)
        == Some(text) by {
        lemma_first_value(fields, tag, b);
    }
    assert forall|tag: u32| #[trigger] carries(
        fields,
        tag,
        encode_utf8(plain_text(a.units as int)),
    ) implies amount_field(fields, tag) == Some(a) by {
        lemma_amount_field(fields, tag, a);
    }
    assert forall|tag: u32| #[trigger] carries(fields, tag, Seq::empty()) implies first_value(
        fields,
        tag,
    ) is None by {
        lemma_first_value(fields, tag, Seq::empty());
    }
}

/// The orders that rest in a book are those of the entries that are no market
/// orders, and all of them.
pub proof fn law_resting_orders(s: Seq<(String, Order)>, o: Order)
    ensures
        resting(s).contains(o) <==> o.order_type != OrderType::Market && exists|i: int|
            0 <= i < s.len() && (#[trigger] s[i]).1 == o,
    decreases s.len(),
{
    if s.len() > 0 {
        let d = s.drop_last();
        law_resting_orders(d, o);
        crate::base::sequences::lemma_push_holds(resting(d), s.last().1, o);
        if exists|i: int| 0 <= i < d.len() && (#[trigger] d[i]).1 == o {
            let i = choose|i: int| 0 <= i < d.len() && (#[trigger] d[i]).1 == o;
            assert(s[i].1 == o);
        }
        if exists|i: int| 0 <= i < s.len() && (#[trigger] s[i]).1 == o {
            let i = choose|i: int| 0 <= i < s.len() && (#[trigger] s[i]).1 == o;
            if i < d.len() {
                assert(d[i].1 == o);
            }
        }
        assert(s[s.len() - 1] == s.last());
    }
}

proof fn lemma_cancels_sent(g: GatewayModel, ids: Seq<Seq<char>>, n: nat, now: Seq<char>)
    requires
        n <= ids.len(),
    ensures
        ({
            let after = g.all_cancelling(ids, n, now);
            &&& after.online() == g.online()
            &&& after.orders == g.orders
            &&& after.pending_orders == g.pending_orders
            &&& g.online() ==> after.pending_cancels == g.pending_cancels
            &&& g.online() ==> g.session.outbox.len() <= after.session.outbox.len()
                <= g.session.outbox.len() + n
            &&& !g.online() ==> after.session == g.session
        }),
    decreases n,
{
    if n > 0 {
        lemma_cancels_sent(g, ids, (n - 1) as nat, now);
    }
}

proof fn lemma_cancels_wait(g: GatewayModel, orders: Seq<Order>, n: nat, now: Seq<char>)
    requires
        n <= orders.len(),
    ensures
        g.all_submitted(orders, n, now).pending_cancels == g.pending_cancels,
    decreases n,
{
    if n > 0 {
        lemma_cancels_wait(g, orders, (n - 1) as nat, now);
    }
}

/// What waits is sent once the session is there, and nothing is left waiting;
/// before that nothing is sent and no order is lost.
pub proof fn law_waiting_requests_sent(g: GatewayModel, now: Seq<char>)
    ensures
        ({
            let after = g.flushed(now);
            let sent = after.session.outbox.len() - g.session.outbox.len();
            &&& after.online() == g.online()
            &&& g.online() ==> {
                &&& after.pending_orders.len() == 0
                &&& after.pending_cancels.len() == 0
                &&& g.pending_orders.len() <= sent <= g.pending_orders.len()
                    + g.pending_cancels.len()
            }
            &&& !g.online() ==> after.session == g.session && after.pending_orders
                == g.pending_orders
        }),
{
    let emptied = GatewayModel { pending_orders: Seq::empty(), ..g };
    let n = g.pending_orders.len();
    law_flush_sends_all(emptied, g.pending_orders, n, now);
    lemma_cancels_wait(emptied, g.pending_orders, n, now);
    let sent = emptied.all_submitted(g.pending_orders, n, now);
    let waiting = sent.pending_cancels;
    lemma_cancels_sent(
        GatewayModel { pending_cancels: Seq::empty(), ..sent },
        waiting,
        waiting.len(),
        now,
    );
    assert(emptied.pending_orders + g.pending_orders.take(n as int) =~= g.pending_orders);
}

} // verus!
