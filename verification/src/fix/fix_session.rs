//! A FIX session: logon, sequence numbers, heartbeats and gap handling. The
//! session decides what is sent and queues it; sending is up to its owner.

use vstd::prelude::*;
use vstd::utf8::encode_utf8;
use crate::base::bytes::{decimal_bytes, decimal_bytes_of};
use crate::base::clock::{fix_stamp, fix_time, now_ns, utc_now, UtcInstant};
use crate::base::text::{decimal, push_decimal};
use crate::fix::fix_parser::{
    has_header, int_field, message_type, scan, text_field, FixMessageType, FixParseError, FixParser,
};
use crate::fix::message_builder::{
    bytes_of, encode, encoded, field_views, heartbeat_fields, logon_fields, sealed, version,
    FixMessageBuilder,
};
use crate::fix::tags;

verus! {

/// Where a session stands.
#[derive(Debug, Clone, Copy, PartialEq, Eq, Structural)]
pub enum SessionState {
    Disconnected,
    Connecting,
    SentLogon,
    LoggedOn,
    LogoutSent,
}

/// Settings of a session.
#[derive(Debug, Clone)]
pub struct SessionConfig {
    pub sender_comp_id: String,
    pub target_comp_id: String,
    pub host: String,
    pub port: u16,
    pub heart_bt_sec: i32,
    pub reconnect_delay_ms: u64,
    pub logon_timeout_sec: u64,
    pub max_seq_gap: u64,
}

/// One side of a FIX session.
pub struct FixSession {
    pub config: SessionConfig,
    pub state: SessionState,
    pub parser: FixParser,
    pub outgoing_seq: u64,
    pub incoming_seq: u64,
    /// When the counterparty was last heard, in nanoseconds.
    pub last_msg_ns: u64,
    pub test_request_counter: u64,
    /// Messages to send, oldest first.
    pub outbox: Vec<Vec<u8>>,
    pub shutdown: bool,
}

/// What a session holds, its parser left out.
pub struct SessionModel {
    pub sender: Seq<char>,
    pub target: Seq<char>,
    pub heart_bt_sec: i32,
    pub state: SessionState,
    pub outgoing_seq: u64,
    pub incoming_seq: u64,
    pub last_msg_ns: u64,
    pub test_request_counter: u64,
    pub outbox: Seq<Seq<u8>>,
    pub shutdown: bool,
}

/// The messages of a queue.
pub open spec fn messages(v: Seq<Vec<u8>>) -> Seq<Seq<u8>> {
    Seq::new(v.len(), |i: int| v[i]@)
}

impl View for FixSession {
    type V = SessionModel;

    open spec fn view(&self) -> SessionModel {
        SessionModel {
            sender: self.config.sender_comp_id@,
            target: self.config.target_comp_id@,
            heart_bt_sec: self.config.heart_bt_sec,
            state: self.state,
            outgoing_seq: self.outgoing_seq,
            incoming_seq: self.incoming_seq,
            last_msg_ns: self.last_msg_ns,
            test_request_counter: self.test_request_counter,
            outbox: messages(self.outbox@),
            shutdown: self.shutdown,
        }
    }
}

/// A session message whose length and checksum are fixed in advance.
pub open spec fn raw_message(
    length: Seq<char>,
    msg_type: Seq<char>,
    sender: Seq<char>,
    target: Seq<char>,
    seq_num: u64,
    now: Seq<char>,
    more: Seq<(u32, Seq<u8>)>,
) -> Seq<u8> {
    encoded(
        seq![
            (tags::BEGIN_STRING, version()),
            (tags::BODY_LENGTH, encode_utf8(length)),
            (tags::MSG_TYPE, encode_utf8(msg_type)),
            (tags::SENDER_COMP_ID, encode_utf8(sender)),
            (tags::TARGET_COMP_ID, encode_utf8(target)),
            (tags::MSG_SEQ_NUM, decimal_bytes(seq_num as nat)),
            (tags::SENDING_TIME, encode_utf8(now)),
        ] + more + seq![(tags::CHECK_SUM, encode_utf8("000"@))],
    )
}

impl SessionModel {
    /// The session once a message with the next number is queued.
    pub open spec fn queued(self, message: Seq<u8>) -> SessionModel {
        SessionModel {
            outgoing_seq: self.outgoing_seq.wrapping_add(1),
            outbox: self.outbox.push(message),
            ..self
        }
    }

    /// The session once it has asked for the messages from `begin` to `end`.
    pub open spec fn asking_resend(self, begin: u64, end: u64, now: Seq<char>) -> SessionModel {
        self.queued(
            raw_message(
                "64"@,
                "2"@,
                self.sender,
                self.target,
                self.outgoing_seq,
                now,
                seq![
                    (tags::BEGIN_SEQ_NO, decimal_bytes(begin as nat)),
                    (tags::END_SEQ_NO, decimal_bytes(end as nat)),
                ],
            ),
        )
    }

    /// The session once it has answered a test request.
    pub open spec fn answering_test(self, id: Seq<char>, now: Seq<char>) -> SessionModel {
        self.queued(
            encoded(
                sealed(
                    heartbeat_fields(self.sender, self.target, self.outgoing_seq, now, id),
                ),
            ),
        )
    }

    /// The session once it has announced `new_seq` as its next number. It also
    /// expects that number next.
    pub open spec fn resetting(self, new_seq: u64, now: Seq<char>) -> SessionModel {
        SessionModel {
            incoming_seq: new_seq,
            ..self.queued(
                raw_message(
                    "52"@,
                    "4"@,
                    self.sender,
                    self.target,
                    self.outgoing_seq,
                    now,
                    seq![
                        (tags::GAP_FILL_FLAG, encode_utf8("Y"@)),
                        (tags::NEW_SEQ_NUM, decimal_bytes(new_seq as nat)),
                    ],
                ),
            )
        }
    }

    /// Whether a message breaks the sequence.
    pub open spec fn out_of_sequence(self, fields: Seq<(u32, Seq<u8>)>) -> bool {
        has_header(fields) && int_field(fields, tags::MSG_SEQ_NUM)->0 as u64 != self.incoming_seq
    }

    /// The session once a message that breaks the sequence has come: a gap is
    /// asked for, an old message is passed over.
    pub open spec fn after_break(self, fields: Seq<(u32, Seq<u8>)>, now: Seq<char>) -> SessionModel {
        let got = int_field(fields, tags::MSG_SEQ_NUM)->0 as u64;
        if got > self.incoming_seq {
            self.asking_resend(self.incoming_seq, (got - 1) as u64, now)
        } else {
            self
        }
    }

    /// The session once a message in sequence has come.
    pub open spec fn after_message(
        self,
        fields: Seq<(u32, Seq<u8>)>,
        now: Seq<char>,
        at: u64,
    ) -> SessionModel {
        let heard = SessionModel {
            incoming_seq: if has_header(fields) {
                self.incoming_seq.wrapping_add(1)
            } else {
                self.incoming_seq
            },
            last_msg_ns: at,
            ..self
        };
        match message_type(fields) {
            Some(FixMessageType::Logon) => SessionModel { state: SessionState::LoggedOn, ..heard },
            Some(FixMessageType::Logout) => SessionModel {
                state: SessionState::LogoutSent,
                ..heard
            },
            Some(FixMessageType::TestRequest) => match text_field(fields, tags::TEST_REQ_ID) {
                Some(id) => heard.answering_test(id, now),
                None => heard,
            },
            Some(FixMessageType::ResendRequest) => heard.resetting(
                match int_field(fields, tags::BEGIN_SEQ_NO) {
                    Some(n) => n as u64,
                    None => 1,
                },
                now,
            ),
            Some(FixMessageType::SequenceReset) => match int_field(fields, tags::NEW_SEQ_NUM) {
                Some(n) => SessionModel { incoming_seq: n as u64, ..heard },
                None => heard,
            },
            _ => heard,
        }
    }

    /// The session once `data` has come.
    pub open spec fn after_data(self, data: Seq<u8>, now: Seq<char>, at: u64) -> SessionModel {
        let s = scan(data, 0);
        if s.error is Some || s.fields.len() == 0 {
            self
        } else if self.out_of_sequence(s.fields) {
            self.after_break(s.fields, now)
        } else {
            self.after_message(s.fields, now, at)
        }
    }

    /// What processing `data` tells.
    pub open spec fn answer(self, data: Seq<u8>) -> Result<Option<FixMessageType>, FixParseError> {
        let s = scan(data, 0);
        match s.error {
            Some(e) => Err(e),
            None => if s.fields.len() == 0 || self.out_of_sequence(s.fields) {
                Ok(None)
            } else {
                Ok(message_type(s.fields))
            },
        }
    }

    /// Whether nothing was heard for more than two heartbeat intervals at `at`.
    pub open spec fn silent_at(self, at: u64) -> bool {
        at - self.last_msg_ns > (self.heart_bt_sec.wrapping_mul(2) as u64) * 1_000_000_000
    }

    /// The session after it was asked to probe a silent counterparty.
    pub open spec fn probing(self, now: Seq<char>, at: u64) -> SessionModel {
        if self.silent_at(at) && self.state == SessionState::LoggedOn {
            let n = self.test_request_counter.wrapping_add(1);
            SessionModel {
                test_request_counter: n,
                ..self.queued(
                    raw_message(
                        "58"@,
                        "1"@,
                        self.sender,
                        self.target,
                        self.outgoing_seq,
                        now,
                        seq![(tags::TEST_REQ_ID, encode_utf8("TEST"@ + decimal(n as nat)))],
                    ),
                )
            }
        } else {
            self
        }
    }
}

/// A message in sequence moves the expected number on by one, unless it is
/// one that sets the number itself.
pub proof fn law_in_sequence(m: SessionModel, data: Seq<u8>, now: Seq<char>, at: u64)
    requires
        scan(data, 0).error is None,
        scan(data, 0).fields.len() > 0,
        has_header(scan(data, 0).fields),
        !m.out_of_sequence(scan(data, 0).fields),
        message_type(scan(data, 0).fields) != Some(FixMessageType::ResendRequest),
        message_type(scan(data, 0).fields) != Some(FixMessageType::SequenceReset),
    ensures
        m.after_data(data, now, at).incoming_seq == m.incoming_seq.wrapping_add(1),
        m.answer(data) == Ok::<Option<FixMessageType>, FixParseError>(
            message_type(scan(data, 0).fields),
        ),
{
}

/// A message that comes too early is answered by a resend request for exactly
/// the missing numbers and otherwise ignored; one that comes too late is
/// ignored altogether.
pub proof fn law_out_of_sequence(m: SessionModel, data: Seq<u8>, now: Seq<char>, at: u64)
    requires
        scan(data, 0).error is None,
        scan(data, 0).fields.len() > 0,
        m.out_of_sequence(scan(data, 0).fields),
    ensures
        m.answer(data) == Ok::<Option<FixMessageType>, FixParseError>(None),
        m.after_data(data, now, at).incoming_seq == m.incoming_seq,
        m.after_data(data, now, at).state == m.state,
        ({
            let got = int_field(scan(data, 0).fields, tags::MSG_SEQ_NUM)->0 as u64;
            if got > m.incoming_seq {
                m.after_data(data, now, at) == m.asking_resend(
                    m.incoming_seq,
                    (got - 1) as u64,
                    now,
                )
            } else {
                m.after_data(data, now, at) == m
            }
        }),
{
}

impl FixSession {
    /// The parser's fields lie in its buffer.
    pub open spec fn wf(&self) -> bool {
        self.parser.wf()
    }

    /// A session that is not connected, heard of last at `at`.
    pub fn new_at(config: SessionConfig, at: u64) -> (s: Self)
        ensures
            s.wf(),
            s.config == config,
            s.state == SessionState::Disconnected,
            s.outgoing_seq == 1,
            s.incoming_seq == 1,
            s.last_msg_ns == at,
            s.test_request_counter == 0,
            s.outbox@.len() == 0,
            !s.shutdown,
            s.parser.is_new(),
    {
        FixSession {
            parser: FixParser::new(8192),
            config,
            state: SessionState::Disconnected,
            outgoing_seq: 1,
            incoming_seq: 1,
            last_msg_ns: at,
            test_request_counter: 0,
            outbox: Vec::new(),
            shutdown: false,
        }
    }

    /// A session that is not connected.
    pub fn new(config: SessionConfig) -> (s: Self)
        ensures
            s.wf(),
            s.config == config,
            s.state == SessionState::Disconnected,
            s.outgoing_seq == 1,
            s.incoming_seq == 1,
            s.test_request_counter == 0,
            s.outbox@.len() == 0,
            !s.shutdown,
            s.parser.is_new(),
    {
        FixSession::new_at(config, now_ns())
    }

    /// Starts to connect, and tells where to.
    pub fn connect(&mut self) -> (address: String)
        ensures
            address@ == old(self).config.host@ + ":"@ + decimal(old(self).config.port as nat),
            *final(self) == (FixSession { state: SessionState::Connecting, ..*old(self) }),
    {
        self.state = SessionState::Connecting;
        let mut address = self.config.host.clone();
        address.push_str(":");
        push_decimal(&mut address, self.config.port as u64);
        address
    }

    /// Composes the logon to send at `now`, and spends a number on it.
    pub fn send_logon_at(&mut self, now: &str) -> (message: Vec<u8>)
        ensures
            message@ == encoded(
                sealed(
                    logon_fields(
                        old(self).config.sender_comp_id@,
                        old(self).config.target_comp_id@,
                        old(self).outgoing_seq,
                        now@,
                        old(self).config.heart_bt_sec,
                        "NONE"@,
                    ),
                ),
            ),
            *final(self) == (FixSession {
                outgoing_seq: old(self).outgoing_seq.wrapping_add(1),
                ..*old(self)
            }),
    {
        let mut builder = self.builder();
        let message = builder.build_logon_at(self.config.heart_bt_sec, "NONE", now);
        self.outgoing_seq = self.outgoing_seq.wrapping_add(1);
        message
    }

    /// Composes the logon to send, and spends a number on it.
    pub fn send_logon(&mut self) -> (message: Vec<u8>)
        ensures
            exists|sent: UtcInstant|
                sent.wf() && message@ == encoded(
                    sealed(
                        #[trigger] logon_fields(
                            old(self).config.sender_comp_id@,
                            old(self).config.target_comp_id@,
                            old(self).outgoing_seq,
                            fix_stamp(sent),
                            old(self).config.heart_bt_sec,
                            "NONE"@,
                        ),
                    ),
                ),
            *final(self) == (FixSession {
                outgoing_seq: old(self).outgoing_seq.wrapping_add(1),
                ..*old(self)
            }),
    {
        let now = fix_time(utc_now());
        self.send_logon_at(now.as_str())
    }

    /// Takes note that the logon was sent at `at`.
    pub fn logon_sent_at(&mut self, at: u64)
        ensures
            *final(self) == (FixSession {
                state: SessionState::SentLogon,
                last_msg_ns: at,
                ..*old(self)
            }),
    {
        self.state = SessionState::SentLogon;
        self.last_msg_ns = at;
    }

    fn builder(&self) -> (b: FixMessageBuilder)
        ensures
            b.seq_num == self.outgoing_seq,
            b.sender_comp_id@ == self.config.sender_comp_id@,
            b.target_comp_id@ == self.config.target_comp_id@,
    {
        FixMessageBuilder::new(
            self.config.sender_comp_id.as_str(),
            self.config.target_comp_id.as_str(),
            self.outgoing_seq,
        )
    }

    /// Queues a message that bears the next number.
    pub fn queue(&mut self, message: Vec<u8>)
        ensures
            final(self)@ == old(self)@.queued(message@),
            final(self).parser == old(self).parser,
            final(self).config == old(self).config,
    {
        let ghost before = messages(self.outbox@);
        self.outbox.push(message);
        self.outgoing_seq = self.outgoing_seq.wrapping_add(1);
        assert(messages(self.outbox@) =~= before.push(message@));
    }

    fn raw(&self, length: &str, msg_type: &str, now: &str, more: Vec<(u32, Vec<u8>)>) -> (r: Vec<
        u8,
    >)
        ensures
            r@ == raw_message(
                length@,
                msg_type@,
                self.config.sender_comp_id@,
                self.config.target_comp_id@,
                self.outgoing_seq,
                now@,
                field_views(more@),
            ),
    {
        let fix: [u8; 7] = [70, 73, 88, 46, 52, 46, 52];
        let mut version_bytes: Vec<u8> = Vec::new();
        crate::base::bytes::push_all(&mut version_bytes, fix.as_slice());
        assert(version_bytes@ =~= version());
        let mut v: Vec<(u32, Vec<u8>)> = Vec::new();
        v.push((tags::BEGIN_STRING, version_bytes));
        v.push((tags::BODY_LENGTH, bytes_of(length)));
        v.push((tags::MSG_TYPE, bytes_of(msg_type)));
        v.push((tags::SENDER_COMP_ID, bytes_of(self.config.sender_comp_id.as_str())));
        v.push((tags::TARGET_COMP_ID, bytes_of(self.config.target_comp_id.as_str())));
        v.push((tags::MSG_SEQ_NUM, decimal_bytes_of(self.outgoing_seq as u128)));
        v.push((tags::SENDING_TIME, bytes_of(now)));
        let ghost head = v@;
        let mut rest = more;
        let ghost middle = rest@;
        v.append(&mut rest);
        v.push((tags::CHECK_SUM, bytes_of("000")));
        assert(field_views(v@) =~= field_views(head) + field_views(middle) + seq![
            (tags::CHECK_SUM, encode_utf8("000"@)),
        ]);
        assert(field_views(head) =~= seq![
            (tags::BEGIN_STRING, version()),
            (tags::BODY_LENGTH, encode_utf8(length@)),
            (tags::MSG_TYPE, encode_utf8(msg_type@)),
            (tags::SENDER_COMP_ID, encode_utf8(self.config.sender_comp_id@)),
            (tags::TARGET_COMP_ID, encode_utf8(self.config.target_comp_id@)),
            (tags::MSG_SEQ_NUM, decimal_bytes(self.outgoing_seq as nat)),
            (tags::SENDING_TIME, encode_utf8(now@)),
        ]);
        encode(&v)
    }

    fn send_heartbeat(&mut self, test_req_id: &str, now: &str)
        ensures
            final(self)@ == old(self)@.answering_test(test_req_id@, now@),
            final(self).parser == old(self).parser,
            final(self).config == old(self).config,
    {
        let mut builder = self.builder();
        let message = builder.build_heartbeat_at(test_req_id, now);
        self.queue(message);
    }

    fn send_resend_request(&mut self, begin: u64, end: u64, now: &str)
        ensures
            final(self)@ == old(self)@.asking_resend(begin, end, now@),
            final(self).parser == old(self).parser,
            final(self).config == old(self).config,
    {
        let mut more: Vec<(u32, Vec<u8>)> = Vec::new();
        more.push((tags::BEGIN_SEQ_NO, decimal_bytes_of(begin as u128)));
        more.push((tags::END_SEQ_NO, decimal_bytes_of(end as u128)));
        assert(field_views(more@) =~= seq![
            (tags::BEGIN_SEQ_NO, decimal_bytes(begin as nat)),
            (tags::END_SEQ_NO, decimal_bytes(end as nat)),
        ]);
        let message = self.raw("64", "2", now, more);
        self.queue(message);
    }

    fn send_sequence_reset(&mut self, new_seq: u64, now: &str)
        ensures
            final(self)@ == old(self)@.resetting(new_seq, now@),
            final(self).parser == old(self).parser,
            final(self).config == old(self).config,
    {
        let mut more: Vec<(u32, Vec<u8>)> = Vec::new();
        more.push((tags::GAP_FILL_FLAG, bytes_of("Y")));
        more.push((tags::NEW_SEQ_NUM, decimal_bytes_of(new_seq as u128)));
        assert(field_views(more@) =~= seq![
            (tags::GAP_FILL_FLAG, encode_utf8("Y"@)),
            (tags::NEW_SEQ_NUM, decimal_bytes(new_seq as nat)),
        ]);
        let message = self.raw("52", "4", now, more);
        self.queue(message);
        self.incoming_seq = new_seq;
    }

    /// Answers a request to send messages again: the numbers are declared
    /// filled from where the request starts.
    fn handle_resend_request(&mut self, now: &str)
        requires
            old(self).wf(),
        ensures
            final(self)@ == old(self)@.resetting(
                match int_field(old(self).parser@, tags::BEGIN_SEQ_NO) {
                    Some(n) => n as u64,
                    None => 1,
                },
                now@,
            ),
            final(self).parser == old(self).parser,
            final(self).config == old(self).config,
    {
        let begin: u64 = match self.parser.integer(tags::BEGIN_SEQ_NO) {
            Some(n) => n as u64,
            None => 1,
        };
        self.send_sequence_reset(begin, now);
    }

    /// Processes a message that came at `at`, with `now` as the text of that
    /// time.
    pub fn process_message_at(&mut self, data: &[u8], now: &str, at: u64) -> (r: Result<
        Option<FixMessageType>,
        FixParseError,
    >)
        ensures
            final(self).wf(),
            final(self)@ == old(self)@.after_data(data@, now@, at),
            final(self).config == old(self).config,
            final(self).parser.has_read(data@),
            r == old(self)@.answer(data@),
    {
        let parsed = self.parser.parse(data);
        assert(self@ == old(self)@);
        match parsed {
            Err(e) => {
                return Err(e);
            },
            Ok(any) => {
                if !any {
                    return Ok(None);
                }
            },
        }
        if let Some(header) = self.parser.get_header_info() {
            if header.msg_seq_num != self.incoming_seq {
                if header.msg_seq_num > self.incoming_seq {
                    self.send_resend_request(self.incoming_seq, header.msg_seq_num - 1, now);
                }
                return Ok(None);
            }
            self.incoming_seq = self.incoming_seq.wrapping_add(1);
        }
        self.last_msg_ns = at;
        match self.parser.get_msg_type() {
            Some(FixMessageType::Logon) => {
                self.state = SessionState::LoggedOn;
            },
            Some(FixMessageType::TestRequest) => {
                if let Some(id) = self.parser.text(tags::TEST_REQ_ID) {
                    self.send_heartbeat(id.as_str(), now);
                }
            },
            Some(FixMessageType::Logout) => {
                self.state = SessionState::LogoutSent;
            },
            Some(FixMessageType::ResendRequest) => {
                self.handle_resend_request(now);
            },
            Some(FixMessageType::SequenceReset) => {
                if let Some(n) = self.parser.integer(tags::NEW_SEQ_NUM) {
                    self.incoming_seq = n as u64;
                }
            },
            _ => {},
        }
        Ok(self.parser.get_msg_type())
    }

    /// Processes a message.
    pub fn process_message(&mut self, data: &[u8]) -> (r: Result<
        Option<FixMessageType>,
        FixParseError,
    >)
        ensures
            final(self).wf(),
            exists|sent: UtcInstant, at: u64|
                sent.wf() && final(self)@ == #[trigger] old(self)@.after_data(
                    data@,
                    fix_stamp(sent),
                    at,
                ),
            final(self).config == old(self).config,
            final(self).parser.has_read(data@),
            r == old(self)@.answer(data@),
    {
        let now = fix_time(utc_now());
        let at: u64 = now_ns();
        self.process_message_at(data, now.as_str(), at)
    }

    /// Whether nothing was heard for more than two heartbeat intervals at `at`.
    pub fn check_heartbeat_timeout_at(&self, at: u64) -> (r: bool)
        ensures
            r == self@.silent_at(at),
    {
        let elapsed: i128 = at as i128 - self.last_msg_ns as i128;
        let limit: u64 = self.config.heart_bt_sec.wrapping_mul(2) as u64;
        elapsed > limit as i128 * 1_000_000_000
    }

    /// Whether nothing was heard for more than two heartbeat intervals.
    pub fn check_heartbeat_timeout(&self) -> (r: bool)
        ensures
            exists|at: u64| r == #[trigger] self@.silent_at(at),
    {
        let at: u64 = now_ns();
        self.check_heartbeat_timeout_at(at)
    }

    /// Probes a counterparty that has been silent for too long at `at`.
    pub fn maybe_send_test_request_at(&mut self, now: &str, at: u64)
        ensures
            final(self)@ == old(self)@.probing(now@, at),
            final(self).parser == old(self).parser,
            final(self).config == old(self).config,
    {
        if self.check_heartbeat_timeout_at(at) && self.state == SessionState::LoggedOn {
            self.test_request_counter = self.test_request_counter.wrapping_add(1);
            let mut id = "TEST".to_owned();
            push_decimal(&mut id, self.test_request_counter);
            let mut more: Vec<(u32, Vec<u8>)> = Vec::new();
            more.push((tags::TEST_REQ_ID, bytes_of(id.as_str())));
            assert(field_views(more@) =~= seq![(tags::TEST_REQ_ID, encode_utf8(id@))]);
            let message = self.raw("58", "1", now, more);
            self.queue(message);
        }
    }

    /// Probes a counterparty that has been silent for too long.
    pub fn maybe_send_test_request(&mut self)
        ensures
            exists|sent: UtcInstant, at: u64|
                sent.wf() && final(self)@ == #[trigger] old(self)@.probing(fix_stamp(sent), at),
            final(self).parser == old(self).parser,
            final(self).config == old(self).config,
    {
        let now = fix_time(utc_now());
        let at: u64 = now_ns();
        self.maybe_send_test_request_at(now.as_str(), at);
    }

    /// Where the session stands.
    pub fn get_state(&self) -> (s: SessionState)
        ensures
            s == self.state,
    {
        self.state
    }

    /// Whether the session is logged on.
    pub fn is_logged_on(&self) -> (r: bool)
        ensures
            r == (self.state == SessionState::LoggedOn),
    {
        self.state == SessionState::LoggedOn
    }

    /// Ends the session.
    pub fn shutdown(&mut self)
        ensures
            *final(self) == (FixSession {
                shutdown: true,
                state: SessionState::LogoutSent,
                ..*old(self)
            }),
    {
        self.shutdown = true;
        self.state = SessionState::LogoutSent;
    }
}

} // verus!
