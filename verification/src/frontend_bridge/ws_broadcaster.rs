//! One stream of messages to many clients: order books, profits, signals and
//! logs.

use vstd::prelude::*;
use vstd::bytes::{
    spec_u32_to_le_bytes, spec_u64_to_le_bytes, u32_to_le_bytes, u64_to_le_bytes,
};
use vstd::utf8::encode_utf8;
use crate::base::amount::{eight_places, four_places, number_text, Amount};
use crate::base::bytes::push_all;
use crate::base::clock::{now_ms, now_ns};
use crate::base::text::{push_signed_decimal, signed_decimal};

verus! {

/// Kinds of messages.
#[derive(Debug, Clone, Copy, PartialEq, Eq, Structural)]
pub enum WsMessageType {
    OrderBook,
    PnL,
    Signal,
    Log,
    Heartbeat,
}

impl WsMessageType {
    /// The code of a kind.
    pub open spec fn code(self) -> u8 {
        match self {
            WsMessageType::OrderBook => 0,
            WsMessageType::PnL => 1,
            WsMessageType::Signal => 2,
            WsMessageType::Log => 3,
            WsMessageType::Heartbeat => 255,
        }
    }

    /// The code of a kind.
    pub fn to_byte(&self) -> (b: u8)
        ensures
            b == self.code(),
    {
        match self {
            WsMessageType::OrderBook => 0,
            WsMessageType::PnL => 1,
            WsMessageType::Signal => 2,
            WsMessageType::Log => 3,
            WsMessageType::Heartbeat => 255,
        }
    }
}

/// Length of a header in bytes.
pub const HEADER_SIZE: usize = 24;

/// What stands before each payload.
#[derive(Debug, Clone, Copy, PartialEq, Eq, Structural)]
pub struct WsMessageHeader {
    pub msg_type: u8,
    pub flags: u8,
    pub sequence: u32,
    pub payload_len: u32,
    pub timestamp_ns: u64,
}

impl WsMessageHeader {
    /// The header as it is sent: each number starts at a multiple of its size,
    /// lowest byte first, and gaps hold zeros.
    pub open spec fn bytes(self) -> Seq<u8> {
        seq![self.msg_type, self.flags, 0u8, 0u8] + spec_u32_to_le_bytes(self.sequence)
            + spec_u32_to_le_bytes(self.payload_len) + seq![0u8, 0u8, 0u8, 0u8]
            + spec_u64_to_le_bytes(self.timestamp_ns)
    }

    /// A header without number and time.
    pub fn new(msg_type: WsMessageType, payload_len: u32) -> (h: Self)
        ensures
            h == (WsMessageHeader {
                msg_type: msg_type.code(),
                flags: 0,
                sequence: 0,
                payload_len,
                timestamp_ns: 0,
            }),
    {
        WsMessageHeader {
            msg_type: msg_type.to_byte(),
            flags: 0,
            sequence: 0,
            payload_len,
            timestamp_ns: 0,
        }
    }

    /// The header as it is sent.
    pub fn to_bytes(&self) -> (r: Vec<u8>)
        ensures
            r@ == self.bytes(),
            r@.len() == HEADER_SIZE,
    {
        let mut out: Vec<u8> = Vec::new();
        out.push(self.msg_type);
        out.push(self.flags);
        out.push(0);
        out.push(0);
        assert(out@ =~= seq![self.msg_type, self.flags, 0u8, 0u8]);
        let sequence: Vec<u8> = u32_to_le_bytes(self.sequence);
        push_all(&mut out, sequence.as_slice());
        let payload_len: Vec<u8> = u32_to_le_bytes(self.payload_len);
        push_all(&mut out, payload_len.as_slice());
        let ghost before = out@;
        out.push(0);
        out.push(0);
        out.push(0);
        out.push(0);
        assert(out@ =~= before + seq![0u8, 0u8, 0u8, 0u8]);
        let timestamp: Vec<u8> = u64_to_le_bytes(self.timestamp_ns);
        push_all(&mut out, timestamp.as_slice());
        out
    }
}

/// A connected client.
#[derive(Debug, Clone, Copy, PartialEq, Eq, Structural)]
pub struct ClientHandle {
    pub client_id: u64,
    /// In milliseconds.
    pub connected_at: u64,
    /// In milliseconds.
    pub last_heartbeat: u64,
    pub messages_sent: u64,
    pub is_active: bool,
}

impl ClientHandle {
    /// The client once a message was sent at `now`, in nanoseconds, to all that
    /// are active.
    pub open spec fn served(self, now: u64) -> Self {
        if self.is_active {
            ClientHandle {
                messages_sent: (self.messages_sent + 1) as u64,
                last_heartbeat: now / 1_000_000,
                ..self
            }
        } else {
            self
        }
    }
}

/// The clients once a message was sent to all that are active.
pub open spec fn all_served(s: Seq<ClientHandle>, now: u64) -> Seq<ClientHandle> {
    Seq::new(s.len(), |i: int| s[i].served(now))
}

/// How many clients are active.
pub open spec fn active_count(s: Seq<ClientHandle>) -> nat
    decreases s.len(),
{
    if s.len() == 0 {
        0
    } else {
        active_count(s.drop_last()) + if s.last().is_active {
            1nat
        } else {
            0
        }
    }
}

/// The clients without the one of a number.
pub open spec fn without_client(s: Seq<ClientHandle>, id: u64) -> Seq<ClientHandle>
    decreases s.len(),
{
    if s.len() == 0 {
        Seq::empty()
    } else if s.last().client_id == id {
        without_client(s.drop_last(), id)
    } else {
        without_client(s.drop_last(), id).push(s.last())
    }
}

/// Whether a client has a number.
pub open spec fn connected(s: Seq<ClientHandle>, id: u64) -> bool {
    exists|i: int| 0 <= i < s.len() && (#[trigger] s[i]).client_id == id
}

proof fn lemma_without_client(s: Seq<ClientHandle>, id: u64)
    ensures
        without_client(s, id).len() <= s.len(),
        !connected(without_client(s, id), id),
        !connected(s, id) ==> without_client(s, id) == s,
        forall|c: ClientHandle| #[trigger]
            without_client(s, id).contains(c) <==> s.contains(c) && c.client_id != id,
    decreases s.len(),
{
    if s.len() > 0 {
        let t = s.drop_last();
        lemma_without_client(t, id);
        let r = without_client(s, id);
        assert forall|c: ClientHandle| #[trigger] r.contains(c) implies s.contains(c)
            && c.client_id != id by {
            let i = choose|i: int| 0 <= i < r.len() && r[i] == c;
            if s.last().client_id == id {
                assert(without_client(t, id).contains(c));
                let k = choose|k: int| 0 <= k < t.len() && t[k] == c;
                assert(s[k] == c);
            } else if i < r.len() - 1 {
                assert(without_client(t, id)[i] == c);
                assert(without_client(t, id).contains(c));
                let k = choose|k: int| 0 <= k < t.len() && t[k] == c;
                assert(s[k] == c);
            } else {
                assert(s[s.len() - 1] == c);
            }
        }
        assert forall|c: ClientHandle| s.contains(c) && c.client_id
            != id implies #[trigger] r.contains(c) by {
            let k = choose|k: int| 0 <= k < s.len() && s[k] == c;
            if k < s.len() - 1 {
                assert(t[k] == c);
                assert(t.contains(c));
                assert(without_client(t, id).contains(c));
                let i = choose|i: int|
                    0 <= i < without_client(t, id).len() && without_client(t, id)[i] == c;
                assert(r[i] == c);
            } else {
                assert(r[r.len() - 1] == c);
            }
        }
        assert(!connected(r, id)) by {
            if connected(r, id) {
                let i = choose|i: int| 0 <= i < r.len() && (#[trigger] r[i]).client_id == id;
                assert(r.contains(r[i]));
            }
        }
        if !connected(s, id) {
            assert(s[s.len() - 1].client_id != id);
            assert(!connected(t, id)) by {
                if connected(t, id) {
                    let i = choose|i: int| 0 <= i < t.len() && (#[trigger] t[i]).client_id == id;
                    assert(s[i].client_id == id);
                }
            }
            assert(r =~= s);
        }
    }
}

/// A client that was removed is not connected any more, and no other client is
/// lost.
pub proof fn law_remove_client(s: Seq<ClientHandle>, id: u64)
    ensures
        !connected(without_client(s, id), id),
        forall|c: ClientHandle| #[trigger]
            without_client(s, id).contains(c) <==> s.contains(c) && c.client_id != id,
{
    lemma_without_client(s, id);
}

/// The point with the largest second number, and of equals the last.
pub open spec fn highest(s: Seq<(Amount, Amount)>) -> (Amount, Amount)
    decreases s.len(),
{
    if s.len() <= 1 {
        s[0]
    } else {
        let h = highest(s.drop_last());
        if s.last().1.units >= h.1.units {
            s.last()
        } else {
            h
        }
    }
}

/// A series reduced to about `target` points: all where it is short, else the
/// first, the highest of each bucket between, and the last.
pub open spec fn sampled(s: Seq<(Amount, Amount)>, target: int) -> Seq<(Amount, Amount)> {
    if s.len() <= target {
        s
    } else {
        let size = s.len() as int / target;
        (seq![s[0]] + Seq::new(
            (if target >= 2 {
                target - 2
            } else {
                0
            }) as nat,
            |i: int| highest(s.subrange((i + 1) * size, (i + 2) * size)),
        )).push(s.last())
    }
}

/// Reduces series.
#[derive(Debug, Clone, Copy, PartialEq, Eq, Structural)]
pub struct LttbDownsampler {
    pub bucket_size: usize,
}

impl LttbDownsampler {
    /// A downsampler.
    pub fn new(bucket_size: usize) -> (d: Self)
        ensures
            d.bucket_size == bucket_size,
    {
        LttbDownsampler { bucket_size }
    }

    /// A series reduced to about `target_points` points.
    pub fn downsample(&self, data: &[(Amount, Amount)], target_points: usize) -> (r: Vec<
        (Amount, Amount),
    >)
        requires
            target_points > 0 || data@.len() == 0,
        ensures
            r@ == sampled(data@, target_points as int),
    {
        let mut result: Vec<(Amount, Amount)> = Vec::new();
        if data.len() <= target_points {
            let mut k: usize = 0;
            while k < data.len()
                invariant
                    k <= data@.len(),
                    result@ == data@.take(k as int),
                decreases data@.len() - k,
            {
                result.push(data[k]);
                assert(result@ =~= data@.take(k + 1));
                k += 1;
            }
            assert(result@ =~= data@);
            return result;
        }
        let points: usize = data.len();
        let size: usize = points / target_points;
        let ghost len = data@.len() as int;
        let ghost target = target_points as int;
        assert(size >= 1 && size * target <= len) by (nonlinear_arith)
            requires
                size == len / target,
                len > target,
                target > 0,
        ;
        result.push(data[0]);
        let ghost middle = |i: int|
            highest(data@.subrange((i + 1) * size, (i + 2) * size));
        let mut i: usize = 1;
        assert(result@ =~= seq![data@[0]] + Seq::new(0, middle));
        while i < target_points - 1
            invariant
                1 <= i,
                i <= target_points - 1 || i == 1,
                target_points > 0,
                size >= 1,
                size * target_points <= points,
                points == data@.len(),
                points > 0,
                result@ == seq![data@[0]] + Seq::new(
                    (i - 1) as nat,
                    |i: int| highest(data@.subrange((i + 1) * size, (i + 2) * size)),
                ),
            decreases target_points - i,
        {
            assert(0 <= i * size && (i + 1) * size == i * size + size && (i + 1) * size <= size
                * target_points) by (nonlinear_arith)
                requires
                    i + 1 <= target_points,
                    size >= 1,
            ;
            let start: usize = i * size;
            let top: (Amount, Amount) = highest_of(data, start, start + size);
            result.push(top);
            assert(result@ =~= seq![data@[0]] + Seq::new(
                i as nat,
                |i: int| highest(data@.subrange((i + 1) * size, (i + 2) * size)),
            ));
            i += 1;
        }
        result.push(data[data.len() - 1]);
        assert(result@ =~= sampled(data@, target));
        result
    }
}

fn highest_of(data: &[(Amount, Amount)], start: usize, end: usize) -> (r: (Amount, Amount))
    requires
        start < end <= data@.len(),
    ensures
        r == highest(data@.subrange(start as int, end as int)),
{
    let ghost s = data@.subrange(start as int, end as int);
    let mut best: (Amount, Amount) = data[start];
    let mut i: usize = start + 1;
    while i < end
        invariant
            start < i <= end <= data@.len(),
            s == data@.subrange(start as int, end as int),
            best == highest(s.take(i - start)),
        decreases end - i,
    {
        assert(s.take(i - start + 1).drop_last() =~= s.take(i - start));
        if data[i].1.units >= best.1.units {
            best = data[i];
        }
        i += 1;
    }
    assert(s.take(s.len() as int) =~= s);
    best
}

/// A reduced series has no more points than asked for, two at least, and keeps
/// its ends.
pub proof fn law_sampled_keeps_ends(s: Seq<(Amount, Amount)>, target: int)
    requires
        target >= 2,
        s.len() > 0,
    ensures
        0 < sampled(s, target).len() <= target,
        sampled(s, target)[0] == s[0],
        sampled(s, target).last() == s.last(),
{
}

/// Points between brackets.
pub open spec fn point_text(p: (Amount, Amount)) -> Seq<char> {
    "("@ + number_text(p.0.units as int) + ", "@ + number_text(p.1.units as int) + ")"@
}

/// Points, each behind a comma but the first.
pub open spec fn point_list(s: Seq<(Amount, Amount)>) -> Seq<char>
    decreases s.len(),
{
    if s.len() == 0 {
        Seq::empty()
    } else if s.len() == 1 {
        point_text(s[0])
    } else {
        point_list(s.drop_last()) + ", "@ + point_text(s.last())
    }
}

/// A series in square brackets.
pub open spec fn series_text(s: Seq<(Amount, Amount)>) -> Seq<char> {
    "["@ + point_list(s) + "]"@
}

fn push_point(out: &mut String, p: (Amount, Amount))
    ensures
        final(out)@ == old(out)@ + point_text(p),
{
    let ghost start = out@;
    out.push_str("(");
    let x: String = p.0.to_number_text();
    out.push_str(x.as_str());
    out.push_str(", ");
    let y: String = p.1.to_number_text();
    out.push_str(y.as_str());
    out.push_str(")");
    assert(out@ =~= start + point_text(p));
}

fn push_series(out: &mut String, s: &Vec<(Amount, Amount)>)
    ensures
        final(out)@ == old(out)@ + series_text(s@),
{
    let ghost start = out@;
    out.push_str("[");
    let ghost open = out@;
    let mut i: usize = 0;
    assert(s@.take(0) =~= Seq::empty());
    assert(open + point_list(s@.take(0)) =~= open);
    while i < s.len()
        invariant
            i <= s@.len(),
            out@ == open + point_list(s@.take(i as int)),
        decreases s@.len() - i,
    {
        let ghost before = point_list(s@.take(i as int));
        assert(s@.take(i + 1).drop_last() =~= s@.take(i as int));
        if i > 0 {
            out.push_str(", ");
        }
        push_point(out, s[i]);
        assert(out@ =~= open + point_list(s@.take(i + 1)));
        i += 1;
    }
    assert(s@.take(s@.len() as int) =~= s@);
    out.push_str("]");
    assert(out@ =~= start + series_text(s@));
}

/// Counters of a broadcaster.
#[derive(Debug, Clone, Copy, PartialEq, Eq, Structural)]
pub struct WsBroadcasterStats {
    pub client_count: usize,
    pub total_messages: u64,
    pub is_running: bool,
}

/// The clients of a broadcaster, and what decides who becomes one.
#[verifier::ext_equal]
pub struct Roster {
    pub clients: Seq<ClientHandle>,
    pub next_client_id: u64,
    pub running: bool,
    pub max_clients: usize,
}

impl Roster {
    /// Nobody has come yet.
    pub open spec fn fresh(max_clients: usize) -> Roster {
        Roster { clients: Seq::empty(), next_client_id: 1, running: false, max_clients }
    }

    /// The number that a client gets who comes next.
    pub open spec fn offer(self) -> Option<u64> {
        if self.clients.len() < self.max_clients {
            Some(self.next_client_id)
        } else {
            None
        }
    }

    /// The roster once a client came at `now`.
    pub open spec fn added(self, now: u64) -> Roster {
        if self.offer() is Some {
            Roster {
                clients: self.clients.push(
                    ClientHandle {
                        client_id: self.next_client_id,
                        connected_at: now,
                        last_heartbeat: now,
                        messages_sent: 0,
                        is_active: true,
                    },
                ),
                next_client_id: (self.next_client_id + 1) as u64,
                ..self
            }
        } else {
            self
        }
    }

    /// The roster once a client was removed.
    pub open spec fn removed(self, client_id: u64) -> Roster {
        Roster { clients: without_client(self.clients, client_id), ..self }
    }

    /// The roster of a broadcaster that was started.
    pub open spec fn started(self) -> Roster {
        Roster { running: true, ..self }
    }

    /// The roster of a broadcaster that was stopped.
    pub open spec fn stopped(self) -> Roster {
        Roster { running: false, clients: Seq::empty(), ..self }
    }

    /// The roster once a message was sent at `now`.
    pub open spec fn served(self, now: u64) -> Roster {
        if self.running {
            Roster { clients: all_served(self.clients, now), ..self }
        } else {
            self
        }
    }
}

/// A call on a broadcaster.
pub enum RosterCall {
    Add { now: u64 },
    Remove { client_id: u64 },
    Broadcast { now: u64 },
    Start,
    Stop,
}

/// The roster after some calls.
pub open spec fn after_calls(start: Roster, calls: Seq<RosterCall>) -> Roster
    decreases calls.len(),
{
    if calls.len() == 0 {
        start
    } else {
        let before = after_calls(start, calls.drop_last());
        match calls.last() {
            RosterCall::Add { now } => before.added(now),
            RosterCall::Remove { client_id } => before.removed(client_id),
            RosterCall::Broadcast { now } => before.served(now),
            RosterCall::Start => before.started(),
            RosterCall::Stop => before.stopped(),
        }
    }
}

/// The numbers that were given out in some calls, in their order.
pub open spec fn numbers_given(start: Roster, calls: Seq<RosterCall>) -> Seq<u64>
    decreases calls.len(),
{
    if calls.len() == 0 {
        Seq::empty()
    } else {
        let given = numbers_given(start, calls.drop_last());
        let before = after_calls(start, calls.drop_last());
        if calls.last() is Add && before.offer() is Some {
            given.push(before.offer()->0)
        } else {
            given
        }
    }
}

/// Whatever clients come and go, and whether the broadcaster is started,
/// stopped or sends in between, clients are numbered from one in the order in
/// which they come, and no number is given out twice. The next client is
/// turned away, and nothing changes, where there are as many as allowed;
/// otherwise it gets the number behind the last one given out and there is one
/// client more.
pub proof fn law_numbers_never_reused(max_clients: usize, calls: Seq<RosterCall>, now: u64)
    requires
        calls.len() < u64::MAX - 1,
    ensures
        ({
            let given = numbers_given(Roster::fresh(max_clients), calls);
            let roster = after_calls(Roster::fresh(max_clients), calls);
            &&& forall|i: int| 0 <= i < given.len() ==> #[trigger] given[i] == i + 1
            &&& given.no_duplicates()
            &&& roster.max_clients == max_clients
            &&& roster.clients.len() <= max_clients
            &&& if roster.clients.len() < max_clients {
                &&& roster.offer() == Some((given.len() + 1) as u64)
                &&& !given.contains((given.len() + 1) as u64)
                &&& roster.added(now).clients.len() == roster.clients.len() + 1
            } else {
                &&& roster.offer() is None
                &&& roster.added(now) == roster
            }
        }),
{
    let start = Roster::fresh(max_clients);
    lemma_numbers_given(max_clients, calls);
    let given = numbers_given(start, calls);
    let next = (given.len() + 1) as u64;
    if given.contains(next) {
        let i = choose|i: int| 0 <= i < given.len() && given[i] == next;
        assert(given[i] == i + 1);
    }
}

proof fn lemma_numbers_given(max_clients: usize, calls: Seq<RosterCall>)
    requires
        calls.len() < u64::MAX - 1,
    ensures
        ({
            let given = numbers_given(Roster::fresh(max_clients), calls);
            let roster = after_calls(Roster::fresh(max_clients), calls);
            &&& given.len() <= calls.len()
            &&& forall|i: int| 0 <= i < given.len() ==> #[trigger] given[i] == i + 1
            &&& roster.next_client_id == given.len() + 1
            &&& roster.max_clients == max_clients
            &&& roster.clients.len() <= max_clients
        }),
    decreases calls.len(),
{
    let start = Roster::fresh(max_clients);
    if calls.len() > 0 {
        lemma_numbers_given(max_clients, calls.drop_last());
        if let RosterCall::Remove { client_id } = calls.last() {
            lemma_without_client(after_calls(start, calls.drop_last()).clients, client_id);
        }
    }
}

/// Sends messages to its clients.
#[derive(Debug, Clone)]
pub struct WsBroadcaster {
    pub clients: Vec<ClientHandle>,
    pub next_client_id: u64,
    pub sequence: u64,
    pub running: bool,
    /// The last message.
    pub message_buffer: Vec<u8>,
    pub downsampler: LttbDownsampler,
    pub max_clients: usize,
    pub heartbeat_interval_ms: u64,
}

impl WsBroadcaster {
    /// No two clients share a number, all numbers were given out, and no client
    /// got more messages than were sent.
    pub open spec fn wf(&self) -> bool {
        &&& forall|i: int, j: int|
            0 <= i < j < self.clients@.len() ==> (#[trigger] self.clients@[i]).client_id != (
            #[trigger] self.clients@[j]).client_id
        &&& forall|i: int|
            0 <= i < self.clients@.len() ==> (#[trigger] self.clients@[i]).client_id
                < self.next_client_id && self.clients@[i].messages_sent <= self.sequence
    }

    /// The clients, and what decides who becomes one.
    pub open spec fn roster(&self) -> Roster {
        Roster {
            clients: self.clients@,
            next_client_id: self.next_client_id,
            running: self.running,
            max_clients: self.max_clients,
        }
    }

    /// A message: its header and its payload.
    pub open spec fn message(&self, msg_type: WsMessageType, payload: Seq<u8>, now: u64) -> Seq<
        u8,
    > {
        WsMessageHeader {
            msg_type: msg_type.code(),
            flags: 0,
            sequence: self.sequence as u32,
            payload_len: payload.len() as usize as u32,
            timestamp_ns: now,
        }.bytes() + payload
    }

    /// Whether `self` is `before` once it sent a payload at `now`: while it
    /// runs, a numbered message to every active client.
    pub open spec fn sent(
        &self,
        before: Self,
        msg_type: WsMessageType,
        payload: Seq<u8>,
        now: u64,
    ) -> bool {
        if before.running {
            &&& self.message_buffer@ == before.message(msg_type, payload, now)
            &&& self.clients@ == all_served(before.clients@, now)
            &&& self.sequence == before.sequence + 1
            &&& self.next_client_id == before.next_client_id
            &&& self.running == before.running
            &&& self.downsampler == before.downsampler
            &&& self.max_clients == before.max_clients
            &&& self.heartbeat_interval_ms == before.heartbeat_interval_ms
        } else {
            *self == before
        }
    }

    /// A stopped broadcaster without clients.
    pub fn new(max_clients: usize) -> (b: Self)
        ensures
            b.wf(),
            b.roster() == Roster::fresh(max_clients),
            b.clients@.len() == 0,
            b.next_client_id == 1,
            b.sequence == 0,
            !b.running,
            b.message_buffer@.len() == 0,
            b.downsampler.bucket_size == 100,
            b.max_clients == max_clients,
            b.heartbeat_interval_ms == 5000,
    {
        WsBroadcaster {
            clients: Vec::new(),
            next_client_id: 1,
            sequence: 0,
            running: false,
            message_buffer: Vec::new(),
            downsampler: LttbDownsampler::new(100),
            max_clients,
            heartbeat_interval_ms: 5000,
        }
    }

    /// Adds a client at `now`, in milliseconds, unless there are as many as
    /// allowed; gives its number, which no client had before.
    pub fn add_client_at(&mut self, now: u64) -> (r: Option<u64>)
        requires
            old(self).wf(),
            old(self).roster().offer() is Some ==> old(self).next_client_id < u64::MAX,
        ensures
            final(self).wf(),
            r == old(self).roster().offer(),
            final(self).roster() == old(self).roster().added(now),
            r is None ==> *final(self) == *old(self),
            final(self).sequence == old(self).sequence,
            final(self).running == old(self).running,
            final(self).message_buffer == old(self).message_buffer,
            final(self).downsampler == old(self).downsampler,
            final(self).max_clients == old(self).max_clients,
            final(self).heartbeat_interval_ms == old(self).heartbeat_interval_ms,
    {
        if self.clients.len() >= self.max_clients {
            return None;
        }
        let client_id: u64 = self.next_client_id;
        self.next_client_id = self.next_client_id + 1;
        self.clients.push(
            ClientHandle {
                client_id,
                connected_at: now,
                last_heartbeat: now,
                messages_sent: 0,
                is_active: true,
            },
        );
        Some(client_id)
    }

    /// Adds a client, unless there are as many as allowed.
    pub fn add_client(&mut self) -> (r: Option<u64>)
        requires
            old(self).wf(),
            old(self).roster().offer() is Some ==> old(self).next_client_id < u64::MAX,
        ensures
            final(self).wf(),
            r == old(self).roster().offer(),
            exists|now: u64| final(self).roster() == #[trigger] old(self).roster().added(now),
            r is None ==> *final(self) == *old(self),
            final(self).sequence == old(self).sequence,
            final(self).running == old(self).running,
            final(self).message_buffer == old(self).message_buffer,
            final(self).downsampler == old(self).downsampler,
            final(self).max_clients == old(self).max_clients,
            final(self).heartbeat_interval_ms == old(self).heartbeat_interval_ms,
    {
        let now: u64 = now_ms();
        self.add_client_at(now)
    }

    /// Removes a client.
    pub fn remove_client(&mut self, client_id: u64)
        requires
            old(self).wf(),
        ensures
            final(self).wf(),
            final(self).roster() == old(self).roster().removed(client_id),
            *final(self) == (WsBroadcaster { clients: final(self).clients, ..*old(self) }),
    {
        let mut kept: Vec<ClientHandle> = Vec::new();
        let ghost all = self.clients@;
        let mut i: usize = 0;
        assert(all.take(0) =~= Seq::empty());
        while i < self.clients.len()
            invariant
                i <= all.len(),
                all == self.clients@,
                self.wf(),
                kept@ == without_client(all.take(i as int), client_id),
                forall|k: int| 0 <= k < kept@.len() ==> all.take(i as int).contains(
                    #[trigger] kept@[k],
                ),
                forall|a: int, b: int|
                    0 <= a < b < kept@.len() ==> (#[trigger] kept@[a]).client_id != (
                    #[trigger] kept@[b]).client_id,
                forall|k: int|
                    0 <= k < kept@.len() ==> (#[trigger] kept@[k]).client_id < self.next_client_id
                        && kept@[k].messages_sent <= self.sequence,
            decreases all.len() - i,
        {
            let client: ClientHandle = self.clients[i];
            let ghost before = kept@;
            assert(all.take(i + 1).drop_last() =~= all.take(i as int));
            assert(all.take(i + 1).last() == client);
            if client.client_id != client_id {
                proof {
                    assert forall|k: int| 0 <= k < before.len() implies (
                    #[trigger] before[k]).client_id != client.client_id by {
                        assert(all.take(i as int).contains(before[k]));
                        let j = choose|j: int|
                            0 <= j < i && all.take(i as int)[j] == before[k];
                        assert(all[j] == before[k]);
                        assert(all[j].client_id != all[i as int].client_id);
                    }
                }
                kept.push(client);
            }
            proof {
                assert forall|k: int| 0 <= k < kept@.len() implies all.take(i + 1).contains(
                    #[trigger] kept@[k],
                ) by {
                    if k < before.len() {
                        assert(all.take(i as int).contains(before[k]));
                        let j = choose|j: int|
                            0 <= j < i && all.take(i as int)[j] == before[k];
                        assert(all.take(i + 1)[j] == kept@[k]);
                    } else {
                        assert(all.take(i + 1)[i as int] == kept@[k]);
                    }
                }
            }
            i += 1;
        }
        assert(all.take(all.len() as int) =~= all);
        self.clients = kept;
    }

    /// Sends a payload to all active clients at `now`, in nanoseconds, while
    /// the broadcaster runs; tells how many there are.
    pub fn broadcast_at(&mut self, msg_type: WsMessageType, payload: &[u8], now: u64) -> (r: usize)
        requires
            old(self).wf(),
            old(self).sequence < u64::MAX,
        ensures
            final(self).wf(),
            final(self).sent(*old(self), msg_type, payload@, now),
            final(self).roster() == old(self).roster().served(now),
            r == (if old(self).running {
                active_count(old(self).clients@)
            } else {
                0
            }),
    {
        if !self.running {
            return 0;
        }
        let seq: u64 = self.sequence;
        self.sequence = seq + 1;
        let mut header = WsMessageHeader::new(msg_type, payload.len() as u32);
        header.sequence = seq as u32;
        header.timestamp_ns = now;
        let mut message: Vec<u8> = header.to_bytes();
        push_all(&mut message, payload);
        self.message_buffer = message;
        let ghost served = all_served(old(self).clients@, now);
        let mut sent: usize = 0;
        let mut i: usize = 0;
        assert(self.clients@.take(0) =~= Seq::empty());
        while i < self.clients.len()
            invariant
                i <= self.clients@.len(),
                self.clients@.len() == old(self).clients@.len(),
                old(self).wf(),
                old(self).running,
                old(self).sequence < u64::MAX,
                served == all_served(old(self).clients@, now),
                forall|k: int| 0 <= k < i ==> self.clients@[k] == served[k],
                forall|k: int|
                    i <= k < self.clients@.len() ==> self.clients@[k] == old(self).clients@[k],
                sent == active_count(old(self).clients@.take(i as int)),
                sent <= i,
                self.message_buffer@ == old(self).message(msg_type, payload@, now),
                self.sequence == old(self).sequence + 1,
                self.next_client_id == old(self).next_client_id,
                self.running == old(self).running,
                self.downsampler == old(self).downsampler,
                self.max_clients == old(self).max_clients,
                self.heartbeat_interval_ms == old(self).heartbeat_interval_ms,
            decreases self.clients@.len() - i,
        {
            let mut client: ClientHandle = self.clients[i];
            assert(client == old(self).clients@[i as int]);
            assert(old(self).clients@.take(i + 1).drop_last() =~= old(self).clients@.take(
                i as int,
            ));
            if client.is_active {
                client.messages_sent = client.messages_sent + 1;
                client.last_heartbeat = now / 1_000_000;
                sent = sent + 1;
                self.clients.set(i, client);
            }
            i += 1;
        }
        assert(self.clients@ =~= served);
        assert(old(self).clients@.take(old(self).clients@.len() as int) =~= old(self).clients@);
        proof {
            assert forall|a: int, b: int| 0 <= a < b < self.clients@.len() implies (
            #[trigger] self.clients@[a]).client_id != (#[trigger] self.clients@[b]).client_id by {
                assert(old(self).clients@[a].client_id != old(self).clients@[b].client_id);
            }
        }
        sent
    }

    /// Sends a payload to all active clients, while the broadcaster runs; tells
    /// how many there are.
    pub fn broadcast(&mut self, msg_type: WsMessageType, payload: &[u8]) -> (r: usize)
        requires
            old(self).wf(),
            old(self).sequence < u64::MAX,
        ensures
            final(self).wf(),
            exists|now: u64| #[trigger] final(self).sent(*old(self), msg_type, payload@, now),
            r == (if old(self).running {
                active_count(old(self).clients@)
            } else {
                0
            }),
    {
        let now: u64 = now_ns();
        self.broadcast_at(msg_type, payload, now)
    }

    /// The payload of an order book: symbol, bids and asks, each side reduced
    /// to fifty points.
    pub open spec fn orderbook_text(
        symbol: Seq<char>,
        bids: Seq<(Amount, Amount)>,
        asks: Seq<(Amount, Amount)>,
    ) -> Seq<char> {
        symbol + ":"@ + series_text(sampled(bids, 50)) + ":"@ + series_text(sampled(asks, 50))
    }

    /// Sends an order book.
    pub fn send_orderbook(
        &mut self,
        symbol: &str,
        bids: &[(Amount, Amount)],
        asks: &[(Amount, Amount)],
    )
        requires
            old(self).wf(),
            old(self).sequence < u64::MAX,
        ensures
            final(self).wf(),
            exists|now: u64| #[trigger]
                final(self).sent(
                    *old(self),
                    WsMessageType::OrderBook,
                    encode_utf8(Self::orderbook_text(symbol@, bids@, asks@)),
                    now,
                ),
    {
        let bids_downsampled: Vec<(Amount, Amount)> = self.downsampler.downsample(bids, 50);
        let asks_downsampled: Vec<(Amount, Amount)> = self.downsampler.downsample(asks, 50);
        let mut payload: String = symbol.to_string();
        payload.push_str(":");
        push_series(&mut payload, &bids_downsampled);
        payload.push_str(":");
        push_series(&mut payload, &asks_downsampled);
        assert(payload@ == Self::orderbook_text(symbol@, bids@, asks@));
        self.broadcast(WsMessageType::OrderBook, payload.as_str().as_bytes());
    }

    /// The payload of a profit report: total, realized and unrealized.
    pub open spec fn pnl_text(total: Amount, realized: Amount, unrealized: Amount) -> Seq<char> {
        eight_places(total.units as int) + ":"@ + eight_places(realized.units as int) + ":"@
            + eight_places(unrealized.units as int)
    }

    /// Sends a profit report.
    pub fn send_pnl(&mut self, total_pnl: Amount, realized: Amount, unrealized: Amount)
        requires
            old(self).wf(),
            old(self).sequence < u64::MAX,
        ensures
            final(self).wf(),
            exists|now: u64| #[trigger]
                final(self).sent(
                    *old(self),
                    WsMessageType::PnL,
                    encode_utf8(Self::pnl_text(total_pnl, realized, unrealized)),
                    now,
                ),
    {
        let mut payload: String = total_pnl.to_eight_places();
        payload.push_str(":");
        payload.push_str(realized.to_eight_places().as_str());
        payload.push_str(":");
        payload.push_str(unrealized.to_eight_places().as_str());
        assert(payload@ == Self::pnl_text(total_pnl, realized, unrealized));
        self.broadcast(WsMessageType::PnL, payload.as_str().as_bytes());
    }

    /// The payload of a signal.
    pub open spec fn signal_text(
        symbol: Seq<char>,
        side: i8,
        quantity: Amount,
        confidence: Amount,
    ) -> Seq<char> {
        symbol + ":"@ + signed_decimal(side as int) + ":"@ + four_places(quantity.units as int)
            + ":"@ + four_places(confidence.units as int)
    }

    /// Sends a signal.
    pub fn send_signal(&mut self, symbol: &str, side: i8, quantity: Amount, confidence: Amount)
        requires
            old(self).wf(),
            old(self).sequence < u64::MAX,
        ensures
            final(self).wf(),
            exists|now: u64| #[trigger]
                final(self).sent(
                    *old(self),
                    WsMessageType::Signal,
                    encode_utf8(Self::signal_text(symbol@, side, quantity, confidence)),
                    now,
                ),
    {
        let mut payload: String = symbol.to_string();
        payload.push_str(":");
        push_signed_decimal(&mut payload, side as i64);
        payload.push_str(":");
        payload.push_str(quantity.to_four_places().as_str());
        payload.push_str(":");
        payload.push_str(confidence.to_four_places().as_str());
        assert(payload@ == Self::signal_text(symbol@, side, quantity, confidence));
        self.broadcast(WsMessageType::Signal, payload.as_str().as_bytes());
    }

    /// Sends a line of a log: level and message.
    pub fn send_log(&mut self, level: &str, message: &str)
        requires
            old(self).wf(),
            old(self).sequence < u64::MAX,
        ensures
            final(self).wf(),
            exists|now: u64| #[trigger]
                final(self).sent(
                    *old(self),
                    WsMessageType::Log,
                    encode_utf8(level@ + ":"@ + message@),
                    now,
                ),
    {
        let mut payload: String = level.to_string();
        payload.push_str(":");
        payload.push_str(message);
        self.broadcast(WsMessageType::Log, payload.as_str().as_bytes());
    }

    /// Starts the broadcaster.
    pub fn start(&mut self)
        ensures
            final(self).roster() == old(self).roster().started(),
            *final(self) == (WsBroadcaster { running: true, ..*old(self) }),
    {
        self.running = true;
    }

    /// Stops the broadcaster and disconnects all clients.
    pub fn stop(&mut self)
        requires
            old(self).wf(),
        ensures
            final(self).wf(),
            final(self).roster() == old(self).roster().stopped(),
            *final(self) == (WsBroadcaster {
                running: false,
                clients: final(self).clients,
                ..*old(self)
            }),
    {
        self.running = false;
        self.clients.clear();
    }

    /// How many clients are connected.
    pub fn client_count(&self) -> (n: usize)
        ensures
            n == self.clients@.len(),
    {
        self.clients.len()
    }

    /// The counters.
    pub fn get_stats(&self) -> (r: WsBroadcasterStats)
        ensures
            r == (WsBroadcasterStats {
                client_count: self.clients@.len() as usize,
                total_messages: self.sequence,
                is_running: self.running,
            }),
    {
        WsBroadcasterStats {
            client_count: self.clients.len(),
            total_messages: self.sequence,
            is_running: self.running,
        }
    }
}

impl Default for WsBroadcaster {
    fn default() -> (b: Self)
        ensures
            b.wf(),
            b.max_clients == 100,
            b.clients@.len() == 0,
            b.next_client_id == 1,
            b.sequence == 0,
            !b.running,
            b.message_buffer@.len() == 0,
            b.downsampler.bucket_size == 100,
            b.heartbeat_interval_ms == 5000,
    {
        WsBroadcaster::new(100)
    }
}

} // verus!
