//! FIX messages: a parser that keeps views into the message it read, and a
//! builder.

use vstd::prelude::*;
use vstd::slice::slice_subrange;
use crate::base::amount::Amount;
use crate::base::bytes::{
    all_digits, digits_value, is_digit, parse_unsigned, parsed_unsigned, push_all, text_of, to_text,
};
use crate::base::decimals::{amount_in, parse_amount};
use crate::fix::tags;

verus! {

/// The byte that ends a field.
pub const SOH: u8 = 1;

/// The byte between a tag and its value.
pub const EQUALS: u8 = 61;

/// Message types.
#[derive(Debug, Clone, Copy, PartialEq, Eq, Structural)]
pub enum FixMessageType {
    Heartbeat,
    TestRequest,
    ResendRequest,
    Reject,
    SequenceReset,
    Logout,
    Logon,
    NewOrderSingle,
    OrderCancelRequest,
    OrderCancelReject,
    ExecutionReport,
    MarketDataSnapshot,
    MarketDataIncrementalRefresh,
}

impl FixMessageType {
    /// The byte that stands for a message type.
    pub open spec fn code(self) -> u8 {
        match self {
            FixMessageType::Heartbeat => 48,
            FixMessageType::TestRequest => 49,
            FixMessageType::ResendRequest => 50,
            FixMessageType::Reject => 51,
            FixMessageType::SequenceReset => 52,
            FixMessageType::Logout => 53,
            FixMessageType::Logon => 65,
            FixMessageType::NewOrderSingle => 68,
            FixMessageType::OrderCancelRequest => 70,
            FixMessageType::OrderCancelReject => 57,
            FixMessageType::ExecutionReport => 56,
            FixMessageType::MarketDataSnapshot => 87,
            FixMessageType::MarketDataIncrementalRefresh => 88,
        }
    }

    /// The message type that a byte stands for, where it stands for one.
    pub open spec fn decoded(b: u8) -> Option<FixMessageType> {
        if exists|t: FixMessageType| #[trigger] t.code() == b {
            Some(choose|t: FixMessageType| #[trigger] t.code() == b)
        } else {
            None
        }
    }

    /// Each message type is the only one with its byte.
    pub proof fn lemma_code(t: FixMessageType)
        ensures
            Self::decoded(t.code()) == Some(t),
    {
        let u = choose|u: FixMessageType| #[trigger] u.code() == t.code();
        assert(u.code() == t.code());
        assert(u == t);
    }

    /// The message type that a byte stands for.
    pub fn from_byte(b: u8) -> (r: Option<Self>)
        ensures
            r == Self::decoded(b),
            r matches Some(t) ==> t.code() == b,
            r is None ==> forall|t: FixMessageType| #[trigger] t.code() != b,
    {
        let r = match b {
            48 => Some(FixMessageType::Heartbeat),
            49 => Some(FixMessageType::TestRequest),
            50 => Some(FixMessageType::ResendRequest),
            51 => Some(FixMessageType::Reject),
            52 => Some(FixMessageType::SequenceReset),
            53 => Some(FixMessageType::Logout),
            65 => Some(FixMessageType::Logon),
            68 => Some(FixMessageType::NewOrderSingle),
            70 => Some(FixMessageType::OrderCancelRequest),
            57 => Some(FixMessageType::OrderCancelReject),
            56 => Some(FixMessageType::ExecutionReport),
            87 => Some(FixMessageType::MarketDataSnapshot),
            88 => Some(FixMessageType::MarketDataIncrementalRefresh),
            _ => None,
        };
        proof {
            if let Some(t) = r {
                Self::lemma_code(t);
            } else {
                assert forall|t: FixMessageType| #[trigger] t.code() != b by {}
            }
        }
        r
    }

    /// The byte that stands for this message type.
    pub fn to_byte(self) -> (b: u8)
        ensures
            b == self.code(),
            Self::decoded(b) == Some(self),
    {
        proof {
            Self::lemma_code(self);
        }
        match self {
            FixMessageType::Heartbeat => 48,
            FixMessageType::TestRequest => 49,
            FixMessageType::ResendRequest => 50,
            FixMessageType::Reject => 51,
            FixMessageType::SequenceReset => 52,
            FixMessageType::Logout => 53,
            FixMessageType::Logon => 65,
            FixMessageType::NewOrderSingle => 68,
            FixMessageType::OrderCancelRequest => 70,
            FixMessageType::OrderCancelReject => 57,
            FixMessageType::ExecutionReport => 56,
            FixMessageType::MarketDataSnapshot => 87,
            FixMessageType::MarketDataIncrementalRefresh => 88,
        }
    }
}

/// Why a message could not be parsed.
#[derive(Debug, Clone, Copy, PartialEq, Eq, Structural)]
pub enum FixParseError {
    InvalidTag,
    InvalidTagEncoding,
    InvalidChecksum,
    IncompleteMessage,
    BufferOverflow,
}

impl FixParseError {
    /// The error in words.
    pub open spec fn text(self) -> Seq<char> {
        match self {
            FixParseError::InvalidTag => "Invalid FIX tag"@,
            FixParseError::InvalidTagEncoding => "Invalid tag encoding"@,
            FixParseError::InvalidChecksum => "Checksum mismatch"@,
            FixParseError::IncompleteMessage => "Incomplete FIX message"@,
            FixParseError::BufferOverflow => "Buffer overflow"@,
        }
    }

    /// The error in words.
    pub fn to_string(&self) -> (s: String)
        ensures
            s@ == self.text(),
    {
        match self {
            FixParseError::InvalidTag => "Invalid FIX tag".to_owned(),
            FixParseError::InvalidTagEncoding => "Invalid tag encoding".to_owned(),
            FixParseError::InvalidChecksum => "Checksum mismatch".to_owned(),
            FixParseError::IncompleteMessage => "Incomplete FIX message".to_owned(),
            FixParseError::BufferOverflow => "Buffer overflow".to_owned(),
        }
    }
}

/// A field of a parsed message: a tag and a view of its value.
#[derive(Debug, Clone)]
pub struct FixField<'a> {
    pub tag: u32,
    pub value: &'a [u8],
}

impl<'a> FixField<'a> {
    /// The value as text.
    pub fn value_str(&self) -> (r: Result<&'a str, core::str::Utf8Error>)
        ensures
            r is Ok <==> text_of(self.value@) is Some,
            r matches Ok(s) ==> text_of(self.value@) == Some(s@),
    {
        let r = core::str::from_utf8(self.value);
        proof {
            if let Ok(s) = r {
                vstd::utf8::encode_utf8_decode_utf8(s@);
            }
        }
        r
    }

    /// The value as an integer.
    pub fn value_as_int(&self) -> (r: Option<i64>)
        ensures
            r == integer_of(self.value@),
    {
        fast_atoi(self.value)
    }

    /// The value as a decimal number.
    pub fn value_as_float(&self) -> (r: Option<Amount>)
        ensures
            r == amount_value(self.value@),
    {
        fast_atof(self.value)
    }
}

/// The decimal number that bytes stand for.
fn fast_atof(bytes: &[u8]) -> (r: Option<Amount>)
    ensures
        r == amount_value(bytes@),
{
    match to_text(bytes) {
        Some(s) => parse_amount(s),
        None => None,
    }
}

/// The number that ASCII digits stand for, modulo the range of `i64`.
pub open spec fn wrapped_value(s: Seq<u8>) -> i64
    decreases s.len(),
{
    if s.len() == 0 {
        0
    } else {
        wrapped_value(s.drop_last()).wrapping_mul(10).wrapping_add((s.last() - 48) as i64)
    }
}

/// The integer that bytes stand for: digits with or without a minus sign in
/// front. A number out of range wraps around.
pub open spec fn integer_of(s: Seq<u8>) -> Option<i64> {
    if s.len() == 0 {
        None
    } else if s[0] == 45 {
        if all_digits(s.skip(1)) {
            Some(0i64.wrapping_sub(wrapped_value(s.skip(1))))
        } else {
            None
        }
    } else if all_digits(s) {
        Some(wrapped_value(s))
    } else {
        None
    }
}

proof fn lemma_value_prefix(s: Seq<u8>)
    requires
        s.len() > 0,
        all_digits(s),
    ensures
        digits_value(s.drop_last()) <= digits_value(s),
        all_digits(s.drop_last()),
{
    assert(is_digit(s[s.len() - 1]));
    assert forall|i: int| 0 <= i < s.drop_last().len() implies is_digit(
        #[trigger] s.drop_last()[i],
    ) by {
        assert(s[i] == s.drop_last()[i]);
    }
}

/// A number in range is what its digits say.
pub proof fn law_integer_exact(s: Seq<u8>)
    requires
        all_digits(s),
        digits_value(s) <= i64::MAX,
    ensures
        wrapped_value(s) == digits_value(s),
    decreases s.len(),
{
    if s.len() > 0 {
        lemma_value_prefix(s);
        law_integer_exact(s.drop_last());
    }
}

/// The integer that bytes stand for.
pub fn fast_atoi(bytes: &[u8]) -> (r: Option<i64>)
    ensures
        r == integer_of(bytes@),
{
    if bytes.len() == 0 {
        return None;
    }
    let negative: bool = bytes[0] == 45;
    let start: usize = if negative { 1 } else { 0 };
    let ghost digits = bytes@.skip(start as int);
    assert(!negative ==> digits =~= bytes@);
    let mut result: i64 = 0;
    let mut i: usize = start;
    assert(digits.take(0) =~= Seq::<u8>::empty());
    while i < bytes.len()
        invariant
            start <= i <= bytes@.len(),
            bytes@.len() > 0,
            negative == (bytes@[0] == 45),
            start == (if negative { 1int } else { 0 }),
            digits == bytes@.skip(start as int),
            !negative ==> digits == bytes@,
            forall|j: int| 0 <= j < i - start ==> is_digit(#[trigger] digits[j]),
            result == wrapped_value(digits.take(i - start)),
        decreases bytes@.len() - i,
    {
        let b: u8 = bytes[i];
        assert(digits[i - start] == b);
        if b < 48 || b > 57 {
            assert(!is_digit(digits[i - start]));
            return None;
        }
        proof {
            assert(digits.take(i - start + 1).drop_last() =~= digits.take(i - start));
            assert(digits.take(i - start + 1).last() == b);
        }
        result = result.wrapping_mul(10).wrapping_add((b - 48) as i64);
        i += 1;
    }
    assert(digits.take(digits.len() as int) =~= digits);
    assert(all_digits(digits));
    if negative {
        Some(0i64.wrapping_sub(result))
    } else {
        Some(result)
    }
}

/// Whether a byte ends a field.
pub open spec fn ends_field(b: u8) -> bool {
    b == SOH || b == 10
}

/// How many bytes stand before the first end of a field.
pub open spec fn piece_len(data: Seq<u8>) -> nat
    decreases data.len(),
{
    if data.len() == 0 || ends_field(data[0]) {
        0
    } else {
        1 + piece_len(data.skip(1))
    }
}

/// How many bytes stand before the first equals sign.
pub open spec fn tag_len(piece: Seq<u8>) -> nat
    decreases piece.len(),
{
    if piece.len() == 0 || piece[0] == EQUALS {
        0
    } else {
        1 + tag_len(piece.skip(1))
    }
}

/// The tag of a piece between two ends of fields. A piece without an equals
/// sign, or with nothing before it, keeps the tag before it.
pub open spec fn piece_tag(piece: Seq<u8>, before: u32) -> Result<u32, FixParseError> {
    let n = tag_len(piece);
    if n == 0 || n == piece.len() {
        Ok(before)
    } else if text_of(piece.take(n as int)) is None {
        Err(FixParseError::InvalidTagEncoding)
    } else {
        match parsed_unsigned(piece.take(n as int), u32::MAX as nat) {
            Some(t) => Ok(t as u32),
            None => Err(FixParseError::InvalidTag),
        }
    }
}

/// The field of a piece: none where it has no equals sign or no value.
pub open spec fn piece_fields(piece: Seq<u8>, tag: u32) -> Seq<(u32, Seq<u8>)> {
    if tag_len(piece) + 1 < piece.len() {
        seq![(tag, piece.skip(tag_len(piece) as int + 1))]
    } else {
        Seq::empty()
    }
}

/// What a message holds: its complete fields, up to the first tag that cannot
/// be read.
pub struct Scan {
    pub fields: Seq<(u32, Seq<u8>)>,
    pub error: Option<FixParseError>,
}

/// What a message holds, read from a position at which a field starts.
pub open spec fn scan(data: Seq<u8>, before: u32) -> Scan
    decreases data.len(),
    via scan_decreases
{
    let n = piece_len(data);
    let piece = data.take(n as int);
    match piece_tag(piece, before) {
        Err(e) => Scan { fields: Seq::empty(), error: Some(e) },
        Ok(tag) => if n >= data.len() {
            Scan { fields: Seq::empty(), error: None }
        } else {
            let rest = scan(data.skip(n as int + 1), tag);
            Scan { fields: piece_fields(piece, tag) + rest.fields, error: rest.error }
        },
    }
}

#[via_fn]
proof fn scan_decreases(data: Seq<u8>, before: u32) {
    lemma_piece_len(data);
}

proof fn lemma_piece_len(data: Seq<u8>)
    ensures
        piece_len(data) <= data.len(),
        forall|i: int| 0 <= i < piece_len(data) ==> !ends_field(#[trigger] data[i]),
        piece_len(data) < data.len() ==> ends_field(data[piece_len(data) as int]),
    decreases data.len(),
{
    if data.len() > 0 && !ends_field(data[0]) {
        let rest = data.skip(1);
        lemma_piece_len(rest);
        assert forall|i: int| 0 <= i < piece_len(data) implies !ends_field(#[trigger] data[i]) by {
            if i > 0 {
                assert(rest[i - 1] == data[i]);
            }
        }
        if piece_len(data) < data.len() {
            assert(rest[piece_len(rest) as int] == data[piece_len(data) as int]);
        }
    }
}

pub proof fn lemma_piece_len_is(data: Seq<u8>, n: int)
    requires
        0 <= n <= data.len(),
        forall|i: int| 0 <= i < n ==> !ends_field(#[trigger] data[i]),
        n < data.len() ==> ends_field(data[n]),
    ensures
        piece_len(data) == n,
{
    lemma_piece_len(data);
    let m = piece_len(data) as int;
    if m < n {
        assert(!ends_field(data[m]));
    }
    if n < m {
        assert(!ends_field(data[n]));
    }
}

proof fn lemma_tag_len(piece: Seq<u8>)
    ensures
        tag_len(piece) <= piece.len(),
        forall|i: int| 0 <= i < tag_len(piece) ==> #[trigger] piece[i] != EQUALS,
        tag_len(piece) < piece.len() ==> piece[tag_len(piece) as int] == EQUALS,
    decreases piece.len(),
{
    if piece.len() > 0 && piece[0] != EQUALS {
        let rest = piece.skip(1);
        lemma_tag_len(rest);
        assert forall|i: int| 0 <= i < tag_len(piece) implies #[trigger] piece[i] != EQUALS by {
            if i > 0 {
                assert(rest[i - 1] == piece[i]);
            }
        }
        if tag_len(piece) < piece.len() {
            assert(rest[tag_len(rest) as int] == piece[tag_len(piece) as int]);
        }
    }
}

pub proof fn lemma_tag_len_is(piece: Seq<u8>, n: int)
    requires
        0 <= n <= piece.len(),
        forall|i: int| 0 <= i < n ==> #[trigger] piece[i] != EQUALS,
        n < piece.len() ==> piece[n] == EQUALS,
    ensures
        tag_len(piece) == n,
{
    lemma_tag_len(piece);
    let m = tag_len(piece) as int;
    if m < n {
        assert(piece[m] != EQUALS);
    }
    if n < m {
        assert(piece[n] != EQUALS);
    }
}

/// The message type that the last readable type field names.
pub open spec fn message_type(fields: Seq<(u32, Seq<u8>)>) -> Option<FixMessageType>
    decreases fields.len(),
{
    if fields.len() == 0 {
        None
    } else if fields.last().0 == tags::MSG_TYPE && FixMessageType::decoded(
        fields.last().1[0],
    ) is Some {
        FixMessageType::decoded(fields.last().1[0])
    } else {
        message_type(fields.drop_last())
    }
}

/// The value of the first field with a tag.
pub open spec fn first_value(fields: Seq<(u32, Seq<u8>)>, tag: u32) -> Option<Seq<u8>>
    decreases fields.len(),
{
    if fields.len() == 0 {
        None
    } else if fields[0].0 == tag {
        Some(fields[0].1)
    } else {
        first_value(fields.skip(1), tag)
    }
}

/// The sum of all bytes.
pub open spec fn byte_sum(data: Seq<u8>) -> nat
    decreases data.len(),
{
    if data.len() == 0 {
        0
    } else {
        byte_sum(data.drop_last()) + data.last() as nat
    }
}

/// Whether the checksum field of a message names the sum of its bytes, those of
/// the checksum field among them.
pub open spec fn checksum_matches(fields: Seq<(u32, Seq<u8>)>, data: Seq<u8>) -> bool {
    match first_value(fields, tags::CHECK_SUM) {
        Some(v) => text_of(v) is Some && parsed_unsigned(v, 255) == Some(byte_sum(data) % 256),
        None => false,
    }
}

/// The integer in the first field with a tag.
pub open spec fn int_field(fields: Seq<(u32, Seq<u8>)>, tag: u32) -> Option<i64> {
    match first_value(fields, tag) {
        Some(v) => integer_of(v),
        None => None,
    }
}

/// The text in the first field with a tag.
pub open spec fn text_field(fields: Seq<(u32, Seq<u8>)>, tag: u32) -> Option<Seq<char>> {
    match first_value(fields, tag) {
        Some(v) => text_of(v),
        None => None,
    }
}

/// The amount in a value.
pub open spec fn amount_value(v: Seq<u8>) -> Option<Amount> {
    match text_of(v) {
        Some(s) => match amount_in(s) {
            Some(units) => Some(Amount { units: units as i64 }),
            None => None,
        },
        None => None,
    }
}

/// The amount in the first field with a tag.
pub open spec fn amount_field(fields: Seq<(u32, Seq<u8>)>, tag: u32) -> Option<Amount> {
    match first_value(fields, tag) {
        Some(v) => amount_value(v),
        None => None,
    }
}

/// The header of a message.
#[derive(Debug, Clone)]
pub struct FixHeaderInfo {
    pub begin_string: String,
    pub sender_comp_id: String,
    pub target_comp_id: String,
    pub msg_seq_num: u64,
    pub sending_time: String,
}

/// Whether a message has a complete header that can be read.
pub open spec fn has_header(fields: Seq<(u32, Seq<u8>)>) -> bool {
    &&& text_field(fields, tags::BEGIN_STRING) is Some
    &&& text_field(fields, tags::SENDER_COMP_ID) is Some
    &&& text_field(fields, tags::TARGET_COMP_ID) is Some
    &&& int_field(fields, tags::MSG_SEQ_NUM) is Some
    &&& text_field(fields, tags::SENDING_TIME) is Some
}

/// Reads FIX messages.
pub struct FixParser {
    /// The message that was read last.
    pub buffer: Vec<u8>,
    pub pos: usize,
    /// Tag, start and end of each field in the buffer.
    pub fields: Vec<(u32, usize, usize)>,
    pub msg_type: Option<FixMessageType>,
    pub checksum_valid: bool,
}

/// The fields that positions in a buffer stand for.
pub open spec fn fields_at(
    buffer: Seq<u8>,
    positions: Seq<(u32, usize, usize)>,
) -> Seq<(u32, Seq<u8>)> {
    Seq::new(
        positions.len(),
        |i: int|
            (
                positions[i].0,
                buffer.subrange(positions[i].1 as int, positions[i].2 as int),
            ),
    )
}

/// Whether positions are non-empty ranges of a buffer.
pub open spec fn in_buffer(buffer: Seq<u8>, positions: Seq<(u32, usize, usize)>) -> bool {
    forall|i: int|
        0 <= i < positions.len() ==> (#[trigger] positions[i]).1 < positions[i].2
            && positions[i].2 <= buffer.len()
}

impl FixParser {
    /// Every field lies in the buffer.
    pub open spec fn wf(&self) -> bool {
        in_buffer(self.buffer@, self.fields@)
    }

    /// The fields of the message.
    pub open spec fn view(&self) -> Seq<(u32, Seq<u8>)> {
        fields_at(self.buffer@, self.fields@)
    }

    /// Whether nothing was read yet.
    pub open spec fn is_new(&self) -> bool {
        &&& self.buffer@.len() == 0
        &&& self.fields@.len() == 0
        &&& self.msg_type is None
        &&& !self.checksum_valid
        &&& self.pos == 0
    }

    /// Whether `data` is the message that was read last. Where a tag could not
    /// be read, it holds the fields before it.
    pub open spec fn has_read(&self, data: Seq<u8>) -> bool {
        &&& self@ == scan(data, 0).fields
        &&& self.buffer@ == data
        &&& self.msg_type == message_type(self@)
        &&& if scan(data, 0).error is Some {
            !self.checksum_valid && self.pos == 0
        } else {
            self.checksum_valid == checksum_matches(self@, data) && self.pos == data.len()
        }
    }

    /// A parser that has read nothing. The capacity is room set aside for a
    /// message; a longer one is read all the same.
    pub fn new(buffer_capacity: usize) -> (p: Self)
        ensures
            p.wf(),
            p@ == Seq::<(u32, Seq<u8>)>::empty(),
            p.is_new(),
    {
        let p = FixParser {
            buffer: Vec::with_capacity(buffer_capacity),
            pos: 0,
            fields: Vec::with_capacity(64),
            msg_type: None,
            checksum_valid: false,
        };
        assert(p@ =~= Seq::<(u32, Seq<u8>)>::empty());
        p
    }

    /// Forgets the message that was read.
    pub fn reset(&mut self)
        ensures
            final(self).wf(),
            final(self)@ == Seq::<(u32, Seq<u8>)>::empty(),
            final(self).is_new(),
    {
        self.buffer.clear();
        self.pos = 0;
        self.fields.clear();
        self.msg_type = None;
        self.checksum_valid = false;
        assert(self@ =~= Seq::<(u32, Seq<u8>)>::empty());
    }

    /// Reads a message. Tells whether it has any field. Where a tag cannot be
    /// read, the fields before it are kept.
    #[verifier::rlimit(40)]
    #[verifier::spinoff_prover]
    pub fn parse(&mut self, data: &[u8]) -> (r: Result<bool, FixParseError>)
        ensures
            final(self).wf(),
            final(self).has_read(data@),
            match scan(data@, 0).error {
                Some(e) => r == Err::<bool, FixParseError>(e),
                None => r == Ok::<bool, FixParseError>(final(self)@.len() > 0),
            },
    {
        self.reset();
        push_all(&mut self.buffer, data);
        assert(self.buffer@ =~= data@);
        let ghost whole = scan(data@, 0);
        let mut tag: u32 = 0;
        let mut start: usize = 0;
        let mut sum: u8 = 0;
        let mut more = true;
        assert(data@.skip(0) =~= data@);
        assert(data@.take(0) =~= Seq::<u8>::empty());
        assert(self@ + whole.fields =~= whole.fields);
        while more
            invariant
                start <= data@.len(),
                self.wf(),
                self.buffer@ == data@,
                !self.checksum_valid,
                self.pos == 0,
                self.msg_type == message_type(self@),
                whole == scan(data@, 0),
                whole.fields == self@ + scan(data@.skip(start as int), tag).fields || (!more
                    && whole.fields == self@),
                more ==> whole.fields == self@ + scan(data@.skip(start as int), tag).fields
                    && whole.error == scan(data@.skip(start as int), tag).error,
                !more ==> whole.fields == self@ && whole.error is None && start == data@.len(),
                sum == byte_sum(data@.take(start as int)) % 256,
            decreases data@.len() - start + (if more { 1int } else { 0 }),
        {
            let ghost rest = data@.skip(start as int);
            // The end of this piece, and the first equals sign in it.
            let mut end: usize = start;
            let mut split: usize = start;
            let mut seen = false;
            while end < data.len() && !(data[end] == SOH || data[end] == 10)
                invariant
                    start <= end <= data@.len(),
                    start <= split <= end,
                    rest == data@.skip(start as int),
                    forall|i: int| 0 <= i < end - start ==> !ends_field(#[trigger] rest[i]),
                    forall|i: int| 0 <= i < split - start ==> #[trigger] rest[i] != EQUALS,
                    seen ==> split < end && rest[split - start] == EQUALS,
                    !seen ==> split == end,
                    sum == byte_sum(data@.take(end as int)) % 256,
                decreases data@.len() - end,
            {
                let b: u8 = data[end];
                assert(rest[end - start] == b);
                proof {
                    assert(data@.take(end + 1).drop_last() =~= data@.take(end as int));
                    assert(data@.take(end + 1).last() == b);
                }
                sum = sum.wrapping_add(b);
                if !seen {
                    if b == EQUALS {
                        seen = true;
                    } else {
                        split += 1;
                    }
                }
                end += 1;
            }
            let ghost n = end - start;
            let ghost piece = rest.take(n);
            proof {
                lemma_piece_len_is(rest, n);
                assert forall|i: int| 0 <= i < split - start implies #[trigger] piece[i]
                    != EQUALS by {
                    assert(piece[i] == rest[i]);
                }
                lemma_tag_len_is(piece, split - start);
            }
            if seen && split > start {
                let text = slice_subrange(data, start, split);
                assert(text@ =~= piece.take(split - start));
                if to_text(text).is_none() {
                    assert(scan(rest, tag).fields =~= Seq::<(u32, Seq<u8>)>::empty());
                    assert(self@ + Seq::<(u32, Seq<u8>)>::empty() =~= self@);
                    return Err(FixParseError::InvalidTagEncoding);
                }
                match parse_unsigned(text, u32::MAX) {
                    Some(t) => {
                        tag = t;
                    },
                    None => {
                        assert(self@ + Seq::<(u32, Seq<u8>)>::empty() =~= self@);
                        return Err(FixParseError::InvalidTag);
                    },
                }
            }
            if end == data.len() {
                more = false;
                start = end;
                assert(self@ + Seq::<(u32, Seq<u8>)>::empty() =~= self@);
            } else {
                let b: u8 = data[end];
                proof {
                    assert(data@.take(end + 1).drop_last() =~= data@.take(end as int));
                    assert(data@.take(end + 1).last() == b);
                    assert(rest.skip(n + 1) =~= data@.skip(end + 1));
                }
                sum = sum.wrapping_add(b);
                let ghost fields0 = self@;
                if seen && split + 1 < end {
                    let ghost value = piece.skip(split - start + 1);
                    let ghost positions0 = self.fields@;
                    self.fields.push((tag, split + 1, end));
                    proof {
                        assert(data@.subrange(split + 1, end as int) =~= value);
                        assert(self@ =~= fields0.push((tag, value)));
                        assert(self@.drop_last() =~= fields0);
                        assert(piece_fields(piece, tag) =~= seq![(tag, value)]);
                        assert(value[0] == data@[split + 1]);
                        assert forall|i: int| 0 <= i < self.fields@.len() implies (
                        #[trigger] self.fields@[i]).1 < self.fields@[i].2 && self.fields@[i].2
                            <= self.buffer@.len() by {
                            if i < positions0.len() {
                                assert(self.fields@[i] == positions0[i]);
                            }
                        }
                    }
                    if tag == tags::MSG_TYPE {
                        let t = FixMessageType::from_byte(data[split + 1]);
                        if t.is_some() {
                            self.msg_type = t;
                        }
                    }
                } else {
                    assert(piece_fields(piece, tag) =~= Seq::<(u32, Seq<u8>)>::empty());
                }
                proof {
                    assert(fields0 + (piece_fields(piece, tag) + scan(
                        rest.skip(n + 1),
                        tag,
                    ).fields) =~= self@ + scan(rest.skip(n + 1), tag).fields);
                }
                start = end + 1;
            }
        }
        assert(data@.take(data@.len() as int) =~= data@);
        let mut valid = false;
        if let Some(field) = self.get_field(tags::CHECK_SUM) {
            if to_text(field.value).is_some() {
                if let Some(received) = parse_unsigned(field.value, 255) {
                    valid = received == sum as u32;
                }
            }
        }
        self.checksum_valid = valid;
        self.pos = data.len();
        Ok(self.fields.len() > 0)
    }

    /// The type of the message.
    pub fn get_msg_type(&self) -> (r: Option<FixMessageType>)
        ensures
            r == self.msg_type,
    {
        self.msg_type
    }

    /// Whether the message names the sum of all its bytes as its checksum.
    pub fn is_checksum_valid(&self) -> (r: bool)
        ensures
            r == self.checksum_valid,
    {
        self.checksum_valid
    }

    /// The first field with a tag.
    pub fn get_field(&self, tag: u32) -> (r: Option<FixField<'_>>)
        requires
            self.wf(),
        ensures
            match r {
                Some(f) => f.tag == tag && first_value(self@, tag) == Some(f.value@),
                None => first_value(self@, tag) is None,
            },
    {
        let mut i: usize = 0;
        assert(self@.skip(0) =~= self@);
        while i < self.fields.len()
            invariant
                i <= self.fields@.len(),
                self.wf(),
                first_value(self@, tag) == first_value(self@.skip(i as int), tag),
            decreases self.fields@.len() - i,
        {
            let (t, start, end) = self.fields[i];
            proof {
                assert(self@.skip(i as int)[0] == self@[i as int]);
                assert(self@.skip(i as int).skip(1) =~= self@.skip(i + 1));
                assert(self.fields@[i as int].1 < self.fields@[i as int].2);
            }
            if t == tag {
                return Some(FixField { tag, value: slice_subrange(self.buffer.as_slice(), start, end) });
            }
            i += 1;
        }
        None
    }

    /// All fields.
    pub fn get_fields(&self) -> (r: Vec<FixField<'_>>)
        requires
            self.wf(),
        ensures
            r@.len() == self@.len(),
            forall|i: int| 0 <= i < r@.len() ==> (#[trigger] r@[i]).tag == self@[i].0 && r@[i].value@ == self@[i].1,
    {
        let mut r: Vec<FixField<'_>> = Vec::new();
        let mut i: usize = 0;
        while i < self.fields.len()
            invariant
                i <= self.fields@.len(),
                self.wf(),
                r@.len() == i,
                forall|k: int| 0 <= k < i ==> (#[trigger] r@[k]).tag == self@[k].0 && r@[k].value@ == self@[k].1,
            decreases self.fields@.len() - i,
        {
            let (tag, start, end) = self.fields[i];
            assert(self.fields@[i as int].1 < self.fields@[i as int].2);
            r.push(FixField { tag, value: slice_subrange(self.buffer.as_slice(), start, end) });
            i += 1;
        }
        r
    }

    /// The text in the first field with a tag.
    pub fn text(&self, tag: u32) -> (r: Option<String>)
        requires
            self.wf(),
        ensures
            r is Some <==> text_field(self@, tag) is Some,
            r matches Some(s) ==> text_field(self@, tag) == Some(s@),
    {
        match self.get_field(tag) {
            Some(f) => match to_text(f.value) {
                Some(s) => Some(s.to_owned()),
                None => None,
            },
            None => None,
        }
    }

    /// The amount in the first field with a tag.
    pub fn amount(&self, tag: u32) -> (r: Option<Amount>)
        requires
            self.wf(),
        ensures
            r == amount_field(self@, tag),
    {
        match self.get_field(tag) {
            Some(f) => f.value_as_float(),
            None => None,
        }
    }

    /// The integer in the first field with a tag.
    pub fn integer(&self, tag: u32) -> (r: Option<i64>)
        requires
            self.wf(),
        ensures
            r == int_field(self@, tag),
    {
        match self.get_field(tag) {
            Some(f) => f.value_as_int(),
            None => None,
        }
    }

    /// The header, where it is complete and can be read.
    pub fn get_header_info(&self) -> (r: Option<FixHeaderInfo>)
        requires
            self.wf(),
        ensures
            r is Some <==> has_header(self@),
            r matches Some(h) ==> {
                &&& text_field(self@, tags::BEGIN_STRING) == Some(h.begin_string@)
                &&& text_field(self@, tags::SENDER_COMP_ID) == Some(h.sender_comp_id@)
                &&& text_field(self@, tags::TARGET_COMP_ID) == Some(h.target_comp_id@)
                &&& h.msg_seq_num == int_field(self@, tags::MSG_SEQ_NUM)->0 as u64
                &&& text_field(self@, tags::SENDING_TIME) == Some(h.sending_time@)
            },
    {
        let begin_string = self.text(tags::BEGIN_STRING)?;
        let sender_comp_id = self.text(tags::SENDER_COMP_ID)?;
        let target_comp_id = self.text(tags::TARGET_COMP_ID)?;
        let seq: i64 = self.integer(tags::MSG_SEQ_NUM)?;
        let sending_time = self.text(tags::SENDING_TIME)?;
        Some(
            FixHeaderInfo {
                begin_string,
                sender_comp_id,
                target_comp_id,
                msg_seq_num: seq as u64,
                sending_time,
            },
        )
    }
}

} // verus!
