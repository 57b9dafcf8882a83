//! Composes FIX messages.

use vstd::prelude::*;
use vstd::slice::slice_subrange;
use vstd::string::StringSliceAdditionalSpecFns;
use vstd::utf8::encode_utf8;
use crate::base::amount::{plain_text, Amount};
use crate::base::bytes::{
    decimal_bytes, decimal_bytes_of, is_digit, lemma_decimal_bytes, lemma_digits_are_text,
    parsed_unsigned, push_all, push_decimal_bytes, signed_decimal_bytes, signed_decimal_bytes_of,
};
use crate::base::clock::{fix_stamp, fix_time, utc_now, UtcInstant};
use crate::fix::fix_parser::{
    byte_sum, ends_field, lemma_piece_len_is, lemma_tag_len_is, piece_tag, scan, EQUALS, SOH,
};
use crate::fix::tags;

verus! {

/// A field as it stands in a message.
pub open spec fn field_bytes(tag: u32, value: Seq<u8>) -> Seq<u8> {
    decimal_bytes(tag as nat).push(EQUALS) + value.push(SOH)
}

/// Fields as they stand in a message, one behind the other.
pub open spec fn encoded(fields: Seq<(u32, Seq<u8>)>) -> Seq<u8>
    decreases fields.len(),
{
    if fields.len() == 0 {
        Seq::empty()
    } else {
        encoded(fields.drop_last()) + field_bytes(fields.last().0, fields.last().1)
    }
}

/// The version of the protocol: `FIX.4.4`.
pub open spec fn version() -> Seq<u8> {
    seq![70u8, 73, 88, 46, 52, 46, 52]
}

/// A number below a thousand with three digits.
pub open spec fn three_digits(n: nat) -> Seq<u8> {
    seq![(48 + n / 100) as u8, (48 + n / 10 % 10) as u8, (48 + n % 10) as u8]
}

/// The fields of a complete message around the fields of its body: version,
/// length, body, and the checksum over length and body.
pub open spec fn sealed(body: Seq<(u32, Seq<u8>)>) -> Seq<(u32, Seq<u8>)> {
    let length = decimal_bytes(encoded(body).len() + 6);
    let sum = byte_sum(field_bytes(tags::BODY_LENGTH, length) + encoded(body)) % 256;
    seq![(tags::BEGIN_STRING, version()), (tags::BODY_LENGTH, length)] + body + seq![
        (tags::CHECK_SUM, three_digits(sum)),
    ]
}

/// What follows the first end of a field; everything where there is none.
pub open spec fn behind_first_field(s: Seq<u8>) -> Seq<u8>
    decreases s.len(),
{
    if !s.contains(SOH) || s.len() == 0 {
        s
    } else if s[0] == SOH {
        s.skip(1)
    } else {
        behind_first_field(s.skip(1))
    }
}

/// A complete message around a body of bytes.
pub open spec fn sealed_bytes(body: Seq<u8>) -> Seq<u8> {
    let head = field_bytes(tags::BODY_LENGTH, decimal_bytes(body.len() + 6));
    field_bytes(tags::BEGIN_STRING, version()) + head + body + field_bytes(
        tags::CHECK_SUM,
        three_digits(byte_sum(head + body) % 256),
    )
}

/// The fields that every message starts with.
pub open spec fn header_fields(
    msg_type: Seq<char>,
    sender: Seq<char>,
    target: Seq<char>,
    seq_num: u64,
    now: Seq<char>,
) -> Seq<(u32, Seq<u8>)> {
    seq![
        (tags::MSG_TYPE, encode_utf8(msg_type)),
        (tags::SENDER_COMP_ID, encode_utf8(sender)),
        (tags::TARGET_COMP_ID, encode_utf8(target)),
        (tags::MSG_SEQ_NUM, decimal_bytes(seq_num as nat)),
        (tags::SENDING_TIME, encode_utf8(now)),
    ]
}

/// The body of a logon, with an empty length field in front.
pub open spec fn logon_fields(
    sender: Seq<char>,
    target: Seq<char>,
    seq_num: u64,
    now: Seq<char>,
    heart_bt_int: i32,
    encrypt_method: Seq<char>,
) -> Seq<(u32, Seq<u8>)> {
    seq![(tags::BODY_LENGTH, Seq::<u8>::empty())] + header_fields(
        "A"@,
        sender,
        target,
        seq_num,
        now,
    ) + seq![
        (tags::ENCRYPT_METHOD, encode_utf8(encrypt_method)),
        (tags::HEART_BT_INT, signed_decimal_bytes(heart_bt_int as int)),
        (tags::RAW_DATA_LENGTH, encode_utf8("0"@)),
    ]
}

/// The body of a heartbeat.
pub open spec fn heartbeat_fields(
    sender: Seq<char>,
    target: Seq<char>,
    seq_num: u64,
    now: Seq<char>,
    test_req_id: Seq<char>,
) -> Seq<(u32, Seq<u8>)> {
    header_fields("0"@, sender, target, seq_num, now) + seq![
        (tags::TEST_REQ_ID, encode_utf8(test_req_id)),
    ]
}

/// What a new order tells the exchange.
pub struct NewOrderTerms {
    pub cl_ord_id: Seq<char>,
    pub symbol: Seq<char>,
    pub side: char,
    pub order_qty: Amount,
    pub price: Amount,
    pub ord_type: char,
    pub time_in_force: char,
    pub account: Seq<char>,
    pub exchange: Seq<char>,
}

/// The body of a new order.
pub open spec fn new_order_fields(
    sender: Seq<char>,
    target: Seq<char>,
    seq_num: u64,
    now: Seq<char>,
    o: NewOrderTerms,
) -> Seq<(u32, Seq<u8>)> {
    header_fields("D"@, sender, target, seq_num, now) + seq![
        (tags::ACCOUNT, encode_utf8(o.account)),
        (tags::CL_ORD_ID, encode_utf8(o.cl_ord_id)),
        (tags::SYMBOL, encode_utf8(o.symbol)),
        (tags::SIDE, encode_utf8(seq![o.side])),
        (tags::ORDER_QTY, encode_utf8(plain_text(o.order_qty.units as int))),
        (tags::PRICE, encode_utf8(plain_text(o.price.units as int))),
        (tags::ORD_TYPE, encode_utf8(seq![o.ord_type])),
        (tags::TIME_IN_FORCE, encode_utf8(seq![o.time_in_force])),
        (tags::EXCHANGE, encode_utf8(o.exchange)),
    ]
}

/// The body of a cancel request.
pub open spec fn cancel_fields(
    sender: Seq<char>,
    target: Seq<char>,
    seq_num: u64,
    now: Seq<char>,
    cl_ord_id: Seq<char>,
    orig_cl_ord_id: Seq<char>,
    symbol: Seq<char>,
    side: char,
    account: Seq<char>,
) -> Seq<(u32, Seq<u8>)> {
    header_fields("F"@, sender, target, seq_num, now) + seq![
        (tags::ACCOUNT, encode_utf8(account)),
        (tags::CL_ORD_ID, encode_utf8(cl_ord_id)),
        (tags::ORIG_CL_ORD_ID, encode_utf8(orig_cl_ord_id)),
        (tags::SYMBOL, encode_utf8(symbol)),
        (tags::SIDE, encode_utf8(seq![side])),
    ]
}

/// The fields that a list of tags and values stands for.
pub open spec fn field_views(v: Seq<(u32, Vec<u8>)>) -> Seq<(u32, Seq<u8>)> {
    Seq::new(v.len(), |i: int| (v[i].0, v[i].1@))
}

proof fn lemma_behind_version(body: Seq<u8>)
    ensures
        behind_first_field(field_bytes(tags::BEGIN_STRING, version()) + body) == body,
        field_bytes(tags::BEGIN_STRING, version()) == seq![
            56u8,
            61,
            70,
            73,
            88,
            46,
            52,
            46,
            52,
            1,
        ],
{
    let head = field_bytes(tags::BEGIN_STRING, version());
    assert(decimal_bytes(8) =~= seq![56u8]);
    assert(head =~= seq![56u8, 61, 70, 73, 88, 46, 52, 46, 52, 1]);
    lemma_behind(head + body, 9);
    assert((head + body).skip(10) =~= body);
}

proof fn lemma_behind(s: Seq<u8>, n: int)
    requires
        0 <= n < s.len(),
        s[n] == SOH,
        forall|i: int| 0 <= i < n ==> #[trigger] s[i] != SOH,
    ensures
        behind_first_field(s) == s.skip(n + 1),
    decreases n,
{
    assert(s.contains(SOH));
    if n > 0 {
        assert(s[0] != SOH);
        let t = s.skip(1);
        assert forall|i: int| 0 <= i < n - 1 implies #[trigger] t[i] != SOH by {
            assert(t[i] == s[i + 1]);
        }
        lemma_behind(t, n - 1);
        assert(t.skip(n) =~= s.skip(n + 1));
    }
}

pub proof fn lemma_encoded_concat(a: Seq<(u32, Seq<u8>)>, b: Seq<(u32, Seq<u8>)>)
    ensures
        encoded(a + b) == encoded(a) + encoded(b),
    decreases b.len(),
{
    if b.len() == 0 {
        assert(a + b =~= a);
        assert(encoded(a) + encoded(b) =~= encoded(a));
    } else {
        lemma_encoded_concat(a, b.drop_last());
        assert((a + b).drop_last() =~= a + b.drop_last());
        assert(encoded(a + b) =~= encoded(a) + encoded(b));
    }
}

pub proof fn lemma_encoded_one(tag: u32, value: Seq<u8>)
    ensures
        encoded(seq![(tag, value)]) == field_bytes(tag, value),
{
    let s = seq![(tag, value)];
    assert(s.drop_last() =~= Seq::empty());
    reveal_with_fuel(encoded, 2);
    assert(encoded(s) =~= field_bytes(tag, value));
}

/// A complete message is the encoding of its fields.
pub proof fn lemma_sealed_bytes(body: Seq<(u32, Seq<u8>)>)
    ensures
        encoded(sealed(body)) == sealed_bytes(encoded(body)),
{
    let length = decimal_bytes(encoded(body).len() + 6);
    let head = field_bytes(tags::BODY_LENGTH, length);
    let sum = byte_sum(head + encoded(body)) % 256;
    let a = seq![(tags::BEGIN_STRING, version())];
    let b = seq![(tags::BODY_LENGTH, length)];
    let z = seq![(tags::CHECK_SUM, three_digits(sum))];
    assert(sealed(body) =~= a + b + body + z);
    lemma_encoded_concat(a + b + body, z);
    lemma_encoded_concat(a + b, body);
    lemma_encoded_concat(a, b);
    lemma_encoded_one(tags::BEGIN_STRING, version());
    lemma_encoded_one(tags::BODY_LENGTH, length);
    lemma_encoded_one(tags::CHECK_SUM, three_digits(sum));
}

/// Whether a value can stand in a message: it holds no end of a field.
pub open spec fn plain_value(v: Seq<u8>) -> bool {
    forall|i: int| 0 <= i < v.len() ==> !ends_field(#[trigger] v[i])
}

/// The fields with a value.
pub open spec fn with_value(fields: Seq<(u32, Seq<u8>)>) -> Seq<(u32, Seq<u8>)>
    decreases fields.len(),
{
    if fields.len() == 0 {
        Seq::empty()
    } else if fields[0].1.len() > 0 {
        seq![fields[0]] + with_value(fields.skip(1))
    } else {
        with_value(fields.skip(1))
    }
}

proof fn lemma_scan_field(tag: u32, value: Seq<u8>, rest: Seq<u8>, before: u32)
    requires
        plain_value(value),
    ensures
        scan(field_bytes(tag, value) + rest, before).fields == (if value.len() > 0 {
            seq![(tag, value)]
        } else {
            Seq::<(u32, Seq<u8>)>::empty()
        }) + scan(rest, tag).fields,
        scan(field_bytes(tag, value) + rest, before).error == scan(rest, tag).error,
{
    let digits = decimal_bytes(tag as nat);
    lemma_decimal_bytes(tag as nat);
    lemma_digits_are_text(digits);
    let data = field_bytes(tag, value) + rest;
    let d = digits.len() as int;
    let n = d + 1 + value.len();
    assert forall|i: int| 0 <= i < n implies !ends_field(#[trigger] data[i]) by {
        if i < d {
            assert(data[i] == digits[i]);
            assert(is_digit(digits[i]));
        } else if i > d {
            assert(data[i] == value[i - d - 1]);
        }
    }
    assert(data[n] == SOH);
    lemma_piece_len_is(data, n);
    let piece = data.take(n);
    assert(piece =~= digits.push(EQUALS) + value);
    assert forall|i: int| 0 <= i < d implies #[trigger] piece[i] != EQUALS by {
        assert(piece[i] == digits[i]);
        assert(is_digit(digits[i]));
    }
    lemma_tag_len_is(piece, d);
    assert(piece.take(d) =~= digits);
    assert(is_digit(digits[0]));
    assert(parsed_unsigned(digits, u32::MAX as nat) == Some(tag as nat));
    assert(piece_tag(piece, before) == Ok::<u32, crate::fix::fix_parser::FixParseError>(tag));
    assert(piece.skip(d + 1) =~= value);
    assert(data.skip(n + 1) =~= rest);
}

proof fn lemma_scan_encoded(fields: Seq<(u32, Seq<u8>)>, before: u32)
    requires
        forall|i: int| 0 <= i < fields.len() ==> plain_value((#[trigger] fields[i]).1),
    ensures
        scan(encoded(fields), before).fields == with_value(fields),
        scan(encoded(fields), before).error is None,
    decreases fields.len(),
{
    if fields.len() == 0 {
        assert(scan(encoded(fields), before).fields =~= with_value(fields)) by {
            let data = encoded(fields);
            lemma_piece_len_is(data, 0);
            lemma_tag_len_is(data.take(0), 0);
        }
    } else {
        let rest = fields.skip(1);
        assert forall|i: int| 0 <= i < rest.len() implies plain_value((#[trigger] rest[i]).1) by {
            assert(rest[i] == fields[i + 1]);
        }
        lemma_scan_encoded(rest, fields[0].0);
        assert(fields =~= seq![fields[0]] + rest);
        lemma_encoded_concat(seq![fields[0]], rest);
        lemma_encoded_one(fields[0].0, fields[0].1);
        assert(plain_value(fields[0].1));
        lemma_scan_field(fields[0].0, fields[0].1, encoded(rest), before);
        assert(scan(encoded(fields), before).fields =~= with_value(fields));
    }
}

proof fn lemma_with_value_concat(a: Seq<(u32, Seq<u8>)>, b: Seq<(u32, Seq<u8>)>)
    ensures
        with_value(a + b) == with_value(a) + with_value(b),
    decreases a.len(),
{
    if a.len() == 0 {
        assert(a + b =~= b);
        assert(with_value(a) + with_value(b) =~= with_value(b));
    } else {
        lemma_with_value_concat(a.skip(1), b);
        assert((a + b).skip(1) =~= a.skip(1) + b);
        assert((a + b)[0] == a[0]);
        assert(with_value(a + b) =~= with_value(a) + with_value(b));
    }
}

proof fn lemma_with_value_one(tag: u32, value: Seq<u8>)
    requires
        value.len() > 0,
    ensures
        with_value(seq![(tag, value)]) == seq![(tag, value)],
{
    let s = seq![(tag, value)];
    assert(s.skip(1) =~= Seq::empty());
    reveal_with_fuel(with_value, 2);
    assert(with_value(s) =~= s);
}

/// Parsing a complete message gives back the version, the length, the fields
/// of the body that have a value, and the checksum, as long as no value of the
/// body holds the end of a field.
pub proof fn law_parse_of_message(body: Seq<(u32, Seq<u8>)>)
    requires
        forall|i: int| 0 <= i < body.len() ==> plain_value((#[trigger] body[i]).1),
    ensures
        scan(encoded(sealed(body)), 0).error is None,
        scan(encoded(sealed(body)), 0).fields == seq![sealed(body)[0], sealed(body)[1]]
            + with_value(body) + seq![sealed(body).last()],
{
    let s = sealed(body);
    let length = decimal_bytes(encoded(body).len() + 6);
    lemma_decimal_bytes(encoded(body).len() + 6);
    let sum = byte_sum(field_bytes(tags::BODY_LENGTH, length) + encoded(body)) % 256;
    let a = seq![(tags::BEGIN_STRING, version())];
    let b = seq![(tags::BODY_LENGTH, length)];
    let z = seq![(tags::CHECK_SUM, three_digits(sum))];
    assert(s =~= a + b + body + z);
    assert forall|i: int| 0 <= i < s.len() implies plain_value((#[trigger] s[i]).1) by {
        if i == 1 {
            assert forall|j: int| 0 <= j < length.len() implies !ends_field(#[trigger] length[j]) by {
                assert(is_digit(length[j]));
            }
        } else if 2 <= i < s.len() - 1 {
            assert(s[i] == body[i - 2]);
        }
    }
    law_parse_of_encoding(s);
    lemma_with_value_concat(a + b + body, z);
    lemma_with_value_concat(a + b, body);
    lemma_with_value_concat(a, b);
    lemma_with_value_one(tags::BEGIN_STRING, version());
    lemma_with_value_one(tags::BODY_LENGTH, length);
    lemma_with_value_one(tags::CHECK_SUM, three_digits(sum));
    assert(scan(encoded(s), 0).fields =~= seq![s[0], s[1]] + with_value(body) + seq![s.last()]);
}

/// Parsing an encoded message gives back its fields, those without a value
/// left out, as long as no value holds the end of a field.
pub proof fn law_parse_of_encoding(fields: Seq<(u32, Seq<u8>)>)
    requires
        forall|i: int| 0 <= i < fields.len() ==> plain_value((#[trigger] fields[i]).1),
    ensures
        scan(encoded(fields), 0).fields == with_value(fields),
        scan(encoded(fields), 0).error is None,
{
    lemma_scan_encoded(fields, 0);
}

pub fn bytes_of(s: &str) -> (v: Vec<u8>)
    ensures
        v@ == encode_utf8(s@),
{
    let mut v: Vec<u8> = Vec::new();
    push_all(&mut v, s.as_bytes());
    assert(v@ =~= encode_utf8(s@));
    v
}

fn char_bytes(c: char) -> (v: Vec<u8>)
    ensures
        v@ == encode_utf8(seq![c]),
{
    let mut s = String::new();
    s.push(c);
    assert(s@ =~= seq![c]);
    bytes_of(s.as_str())
}

/// Appends a field.
pub fn push_field(buffer: &mut Vec<u8>, tag: u32, value: &[u8])
    ensures
        final(buffer)@ == old(buffer)@ + field_bytes(tag, value@),
{
    let ghost start = buffer@;
    push_decimal_bytes(buffer, tag as u128);
    buffer.push(EQUALS);
    push_all(buffer, value);
    buffer.push(SOH);
    assert(buffer@ =~= start + field_bytes(tag, value@));
}

/// Encodes fields, one behind the other.
pub fn encode(fields: &Vec<(u32, Vec<u8>)>) -> (v: Vec<u8>)
    ensures
        v@ == encoded(field_views(fields@)),
{
    let ghost all = field_views(fields@);
    let mut v: Vec<u8> = Vec::new();
    let mut i: usize = 0;
    assert(all.take(0) =~= Seq::empty());
    while i < fields.len()
        invariant
            i <= fields@.len(),
            all == field_views(fields@),
            v@ == encoded(all.take(i as int)),
        decreases fields@.len() - i,
    {
        assert(all.take(i + 1).drop_last() =~= all.take(i as int));
        push_field(&mut v, fields[i].0, fields[i].1.as_slice());
        i += 1;
    }
    assert(all.take(all.len() as int) =~= all);
    v
}

/// Composes messages of one session.
pub struct FixMessageBuilder {
    pub buffer: Vec<u8>,
    pub seq_num: u64,
    pub sender_comp_id: String,
    pub target_comp_id: String,
}

impl FixMessageBuilder {
    /// The builder after a message: the number moves on, and the names stay.
    pub open spec fn advanced(&self, after: &Self) -> bool {
        &&& after.seq_num == self.seq_num.wrapping_add(1)
        &&& after.sender_comp_id == self.sender_comp_id
        &&& after.target_comp_id == self.target_comp_id
    }

    /// A builder whose first message has the given number.
    pub fn new(sender_comp_id: &str, target_comp_id: &str, initial_seq_num: u64) -> (b: Self)
        ensures
            b.seq_num == initial_seq_num,
            b.sender_comp_id@ == sender_comp_id@,
            b.target_comp_id@ == target_comp_id@,
            b.buffer@.len() == 0,
    {
        FixMessageBuilder {
            buffer: Vec::with_capacity(1024),
            seq_num: initial_seq_num,
            sender_comp_id: sender_comp_id.to_owned(),
            target_comp_id: target_comp_id.to_owned(),
        }
    }

    /// The next number; numbers wrap around at the end of their range.
    pub fn next_seq_num(&mut self) -> (n: u64)
        ensures
            n == old(self).seq_num,
            old(self).advanced(final(self)),
            final(self).buffer == old(self).buffer,
    {
        let n: u64 = self.seq_num;
        self.seq_num = self.seq_num.wrapping_add(1);
        n
    }

    fn add_field(&mut self, tag: u32, value: &[u8])
        ensures
            final(self).buffer@ == old(self).buffer@ + field_bytes(tag, value@),
            final(self).seq_num == old(self).seq_num,
            final(self).sender_comp_id == old(self).sender_comp_id,
            final(self).target_comp_id == old(self).target_comp_id,
    {
        push_field(&mut self.buffer, tag, value);
    }

    /// Wraps what stands behind the first field of the buffer into a complete
    /// message.
    fn finalize(&mut self) -> (r: Vec<u8>)
        ensures
            r@ == sealed_bytes(behind_first_field(old(self).buffer@)),
            *final(self) == *old(self),
    {
        let mut p: usize = 0;
        while p < self.buffer.len() && self.buffer[p] != SOH
            invariant
                p <= self.buffer@.len(),
                forall|i: int| 0 <= i < p ==> #[trigger] self.buffer@[i] != SOH,
            decreases self.buffer@.len() - p,
        {
            p += 1;
        }
        let ghost body = behind_first_field(self.buffer@);
        let body_start: usize = if p < self.buffer.len() { p + 1 } else { 0 };
        proof {
            if p < self.buffer@.len() {
                lemma_behind(self.buffer@, p as int);
            } else {
                assert(!self.buffer@.contains(SOH));
                assert(self.buffer@.skip(0) =~= self.buffer@);
            }
        }
        let body_length: u128 = (self.buffer.len() - body_start) as u128 + 6;
        let mut out: Vec<u8> = Vec::with_capacity(self.buffer.len());
        let fix: [u8; 7] = [70, 73, 88, 46, 52, 46, 52];
        push_field(&mut out, tags::BEGIN_STRING, fix.as_slice());
        proof {
            assert(fix@ =~= version());
            lemma_behind_version(body);
        }
        let length = decimal_bytes_of(body_length);
        push_field(&mut out, tags::BODY_LENGTH, length.as_slice());
        push_all(&mut out, slice_subrange(self.buffer.as_slice(), body_start, self.buffer.len()));
        let ghost head = field_bytes(tags::BODY_LENGTH, decimal_bytes(body.len() + 6));
        proof {
            assert(self.buffer@.subrange(body_start as int, self.buffer@.len() as int) =~= body);
            assert(out@ =~= field_bytes(tags::BEGIN_STRING, version()) + (head + body));
            assert(out@.skip(10) =~= head + body);
        }
        let mut sum: u8 = 0;
        let mut i: usize = 10;
        let ghost summed = out@.skip(10);
        assert(summed.take(0) =~= Seq::<u8>::empty());
        while i < out.len()
            invariant
                10 <= i <= out@.len(),
                summed == out@.skip(10),
                sum == byte_sum(summed.take(i - 10)) % 256,
            decreases out@.len() - i,
        {
            assert(summed.take(i - 10 + 1).drop_last() =~= summed.take(i - 10));
            assert(summed.take(i - 10 + 1).last() == out@[i as int]);
            sum = sum.wrapping_add(out[i]);
            i += 1;
        }
        assert(summed.take(summed.len() as int) =~= summed);
        let digits: [u8; 3] = [48 + sum / 100, 48 + sum / 10 % 10, 48 + sum % 10];
        assert(digits@ =~= three_digits(sum as nat));
        push_field(&mut out, tags::CHECK_SUM, digits.as_slice());
        assert(out@ =~= sealed_bytes(body));
        out
    }

    fn compose(&mut self, body: &Vec<(u32, Vec<u8>)>) -> (r: Vec<u8>)
        ensures
            r@ == encoded(sealed(field_views(body@))),
            final(self).seq_num == old(self).seq_num,
            final(self).sender_comp_id == old(self).sender_comp_id,
            final(self).target_comp_id == old(self).target_comp_id,
    {
        self.buffer.clear();
        let fix: [u8; 7] = [70, 73, 88, 46, 52, 46, 52];
        assert(fix@ =~= version());
        let ghost head = field_bytes(tags::BEGIN_STRING, version());
        self.add_field(tags::BEGIN_STRING, fix.as_slice());
        assert(self.buffer@ =~= head);
        let rest = encode(body);
        push_all(&mut self.buffer, rest.as_slice());
        proof {
            lemma_behind_version(rest@);
            lemma_sealed_bytes(field_views(body@));
        }
        self.finalize()
    }

    fn header(&self, msg_type: &str, seq_num: u64, now: &str) -> (v: Vec<(u32, Vec<u8>)>)
        ensures
            v@.len() == 5,
            field_views(v@) == header_fields(
                msg_type@,
                self.sender_comp_id@,
                self.target_comp_id@,
                seq_num,
                now@,
            ),
    {
        let mut v: Vec<(u32, Vec<u8>)> = Vec::new();
        v.push((tags::MSG_TYPE, bytes_of(msg_type)));
        v.push((tags::SENDER_COMP_ID, bytes_of(self.sender_comp_id.as_str())));
        v.push((tags::TARGET_COMP_ID, bytes_of(self.target_comp_id.as_str())));
        v.push((tags::MSG_SEQ_NUM, decimal_bytes_of(seq_num as u128)));
        v.push((tags::SENDING_TIME, bytes_of(now)));
        assert(field_views(v@) =~= header_fields(
            msg_type@,
            self.sender_comp_id@,
            self.target_comp_id@,
            seq_num,
            now@,
        ));
        v
    }

    /// Composes a logon that is sent at `now`.
    pub fn build_logon_at(&mut self, heart_bt_int: i32, encrypt_method: &str, now: &str) -> (r: Vec<
        u8,
    >)
        ensures
            r@ == encoded(
                sealed(
                    logon_fields(
                        old(self).sender_comp_id@,
                        old(self).target_comp_id@,
                        old(self).seq_num,
                        now@,
                        heart_bt_int,
                        encrypt_method@,
                    ),
                ),
            ),
            old(self).advanced(final(self)),
    {
        let n: u64 = self.next_seq_num();
        let mut v = self.header("A", n, now);
        let ghost head = field_views(v@);
        let ghost v0 = v@;
        assert(head.len() == 5 && v0.len() == 5);
        v.insert(0, (tags::BODY_LENGTH, Vec::new()));
        v.push((tags::ENCRYPT_METHOD, bytes_of(encrypt_method)));
        v.push((tags::HEART_BT_INT, signed_decimal_bytes_of(heart_bt_int)));
        v.push((tags::RAW_DATA_LENGTH, bytes_of("0")));
        assert(field_views(v@) =~= logon_fields(
            self.sender_comp_id@,
            self.target_comp_id@,
            n,
            now@,
            heart_bt_int,
            encrypt_method@,
        )) by {
            assert(v@[0].1@ =~= Seq::<u8>::empty());
            assert forall|i: int| 0 <= i < 5 implies field_views(v@)[i + 1] == head[i] by {
                assert(v@[i + 1] == v0[i]);
            }
        }
        self.compose(&v)
    }

    /// Composes a logon.
    pub fn build_logon(&mut self, heart_bt_int: i32, encrypt_method: &str) -> (r: Vec<u8>)
        ensures
            exists|sent: UtcInstant|
                sent.wf() && r@ == encoded(
                    sealed(
                        #[trigger] logon_fields(
                            old(self).sender_comp_id@,
                            old(self).target_comp_id@,
                            old(self).seq_num,
                            fix_stamp(sent),
                            heart_bt_int,
                            encrypt_method@,
                        ),
                    ),
                ),
            old(self).advanced(final(self)),
    {
        let now = fix_time(utc_now());
        self.build_logon_at(heart_bt_int, encrypt_method, now.as_str())
    }

    /// Composes a heartbeat that is sent at `now`.
    pub fn build_heartbeat_at(&mut self, test_req_id: &str, now: &str) -> (r: Vec<u8>)
        ensures
            r@ == encoded(
                sealed(
                    heartbeat_fields(
                        old(self).sender_comp_id@,
                        old(self).target_comp_id@,
                        old(self).seq_num,
                        now@,
                        test_req_id@,
                    ),
                ),
            ),
            old(self).advanced(final(self)),
    {
        let n: u64 = self.next_seq_num();
        let mut v = self.header("0", n, now);
        let ghost head = field_views(v@);
        let ghost v0 = v@;
        assert(head.len() == 5 && v0.len() == 5);
        v.push((tags::TEST_REQ_ID, bytes_of(test_req_id)));
        assert(field_views(v@) =~= heartbeat_fields(
            self.sender_comp_id@,
            self.target_comp_id@,
            n,
            now@,
            test_req_id@,
        )) by {
            assert forall|i: int| 0 <= i < 5 implies field_views(v@)[i] == head[i] by {
                assert(v@[i] == v0[i]);
            }
        }
        self.compose(&v)
    }

    /// Composes a heartbeat.
    pub fn build_heartbeat(&mut self, test_req_id: &str) -> (r: Vec<u8>)
        ensures
            exists|sent: UtcInstant|
                sent.wf() && r@ == encoded(
                    sealed(
                        #[trigger] heartbeat_fields(
                            old(self).sender_comp_id@,
                            old(self).target_comp_id@,
                            old(self).seq_num,
                            fix_stamp(sent),
                            test_req_id@,
                        ),
                    ),
                ),
            old(self).advanced(final(self)),
    {
        let now = fix_time(utc_now());
        self.build_heartbeat_at(test_req_id, now.as_str())
    }

    /// Composes a new order that is sent at `now`.
    pub fn build_new_order_single_at(
        &mut self,
        cl_ord_id: &str,
        symbol: &str,
        side: char,
        order_qty: Amount,
        price: Amount,
        ord_type: char,
        time_in_force: char,
        account: &str,
        exchange: &str,
        now: &str,
    ) -> (r: Vec<u8>)
        ensures
            r@ == encoded(
                sealed(
                    new_order_fields(
                        old(self).sender_comp_id@,
                        old(self).target_comp_id@,
                        old(self).seq_num,
                        now@,
                        (NewOrderTerms {
                            cl_ord_id: cl_ord_id@,
                            symbol: symbol@,
                            side,
                            order_qty,
                            price,
                            ord_type,
                            time_in_force,
                            account: account@,
                            exchange: exchange@,
                        }),
                    ),
                ),
            ),
            old(self).advanced(final(self)),
    {
        let n: u64 = self.next_seq_num();
        let mut v = self.header("D", n, now);
        let ghost head = field_views(v@);
        let ghost v0 = v@;
        assert(head.len() == 5 && v0.len() == 5);
        v.push((tags::ACCOUNT, bytes_of(account)));
        v.push((tags::CL_ORD_ID, bytes_of(cl_ord_id)));
        v.push((tags::SYMBOL, bytes_of(symbol)));
        v.push((tags::SIDE, char_bytes(side)));
        v.push((tags::ORDER_QTY, bytes_of(order_qty.to_plain_text().as_str())));
        v.push((tags::PRICE, bytes_of(price.to_plain_text().as_str())));
        v.push((tags::ORD_TYPE, char_bytes(ord_type)));
        v.push((tags::TIME_IN_FORCE, char_bytes(time_in_force)));
        v.push((tags::EXCHANGE, bytes_of(exchange)));
        let ghost terms = NewOrderTerms {
            cl_ord_id: cl_ord_id@,
            symbol: symbol@,
            side,
            order_qty,
            price,
            ord_type,
            time_in_force,
            account: account@,
            exchange: exchange@,
        };
        assert(field_views(v@) =~= new_order_fields(
            self.sender_comp_id@,
            self.target_comp_id@,
            n,
            now@,
            terms,
        )) by {
            assert forall|i: int| 0 <= i < 5 implies field_views(v@)[i] == head[i] by {
                assert(v@[i] == v0[i]);
            }
        }
        self.compose(&v)
    }

    /// Composes a new order.
    pub fn build_new_order_single(
        &mut self,
        cl_ord_id: &str,
        symbol: &str,
        side: char,
        order_qty: Amount,
        price: Amount,
        ord_type: char,
        time_in_force: char,
        account: &str,
        exchange: &str,
    ) -> (r: Vec<u8>)
        ensures
            exists|sent: UtcInstant|
                sent.wf() && r@ == encoded(
                    sealed(
                        #[trigger] new_order_fields(
                            old(self).sender_comp_id@,
                            old(self).target_comp_id@,
                            old(self).seq_num,
                            fix_stamp(sent),
                            (NewOrderTerms {
                                cl_ord_id: cl_ord_id@,
                                symbol: symbol@,
                                side,
                                order_qty,
                                price,
                                ord_type,
                                time_in_force,
                                account: account@,
                                exchange: exchange@,
                            }),
                        ),
                    ),
                ),
            old(self).advanced(final(self)),
    {
        let now = fix_time(utc_now());
        self.build_new_order_single_at(
            cl_ord_id,
            symbol,
            side,
            order_qty,
            price,
            ord_type,
            time_in_force,
            account,
            exchange,
            now.as_str(),
        )
    }

    /// Composes a cancel request that is sent at `now`.
    pub fn build_order_cancel_request_at(
        &mut self,
        cl_ord_id: &str,
        orig_cl_ord_id: &str,
        symbol: &str,
        side: char,
        account: &str,
        now: &str,
    ) -> (r: Vec<u8>)
        ensures
            r@ == encoded(
                sealed(
                    cancel_fields(
                        old(self).sender_comp_id@,
                        old(self).target_comp_id@,
                        old(self).seq_num,
                        now@,
                        cl_ord_id@,
                        orig_cl_ord_id@,
                        symbol@,
                        side,
                        account@,
                    ),
                ),
            ),
            old(self).advanced(final(self)),
    {
        let n: u64 = self.next_seq_num();
        let mut v = self.header("F", n, now);
        let ghost head = field_views(v@);
        let ghost v0 = v@;
        assert(head.len() == 5 && v0.len() == 5);
        v.push((tags::ACCOUNT, bytes_of(account)));
        v.push((tags::CL_ORD_ID, bytes_of(cl_ord_id)));
        v.push((tags::ORIG_CL_ORD_ID, bytes_of(orig_cl_ord_id)));
        v.push((tags::SYMBOL, bytes_of(symbol)));
        v.push((tags::SIDE, char_bytes(side)));
        assert(field_views(v@) =~= cancel_fields(
            self.sender_comp_id@,
            self.target_comp_id@,
            n,
            now@,
            cl_ord_id@,
            orig_cl_ord_id@,
            symbol@,
            side,
            account@,
        )) by {
            assert forall|i: int| 0 <= i < 5 implies field_views(v@)[i] == head[i] by {
                assert(v@[i] == v0[i]);
            }
        }
        self.compose(&v)
    }

    /// Composes a cancel request.
    pub fn build_order_cancel_request(
        &mut self,
        cl_ord_id: &str,
        orig_cl_ord_id: &str,
        symbol: &str,
        side: char,
        account: &str,
    ) -> (r: Vec<u8>)
        ensures
            exists|sent: UtcInstant|
                sent.wf() && r@ == encoded(
                    sealed(
                        #[trigger] cancel_fields(
                            old(self).sender_comp_id@,
                            old(self).target_comp_id@,
                            old(self).seq_num,
                            fix_stamp(sent),
                            cl_ord_id@,
                            orig_cl_ord_id@,
                            symbol@,
                            side,
                            account@,
                        ),
                    ),
                ),
            old(self).advanced(final(self)),
    {
        let now = fix_time(utc_now());
        self.build_order_cancel_request_at(
            cl_ord_id,
            orig_cl_ord_id,
            symbol,
            side,
            account,
            now.as_str(),
        )
    }
}

} // verus!
