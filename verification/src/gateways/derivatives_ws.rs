//! The adapter to derivatives exchanges: subscriptions, messages, sequence
//! numbers and reconnection.

use vstd::prelude::*;
use crate::base::json::{
    entry_number, entry_text, entry_unsigned, get_number, get_text, get_unsigned, held_json,
    held_list, json_array, json_get, json_insert, json_items, json_number_text, json_object,
    json_str, json_string, json_u64, make_operation, operation, parse_json, parsed_json, tree_get,
    tree_items, tree_number, tree_text, tree_unsigned, JsonTree,
};
use crate::base::table::{lemma_update, Table};
use crate::base::text::{same, views};

verus! {

/// A level of an options order book. Numbers are given in JSON notation.
#[derive(Debug, Clone)]
pub struct OptionsOrderBookLevel {
    pub strike: String,
    pub expiry: String,
    /// `call` or `put`.
    pub option_type: String,
    pub bid_price: String,
    pub bid_size: String,
    pub ask_price: String,
    pub ask_size: String,
    pub mark_iv: String,
    pub timestamp_ns: u64,
}

/// What a level holds.
pub struct LevelModel {
    pub strike: Seq<char>,
    pub expiry: Seq<char>,
    pub option_type: Seq<char>,
    pub bid_price: Seq<char>,
    pub bid_size: Seq<char>,
    pub ask_price: Seq<char>,
    pub ask_size: Seq<char>,
    pub mark_iv: Seq<char>,
    pub timestamp_ns: u64,
}

impl View for OptionsOrderBookLevel {
    type V = LevelModel;

    open spec fn view(&self) -> LevelModel {
        LevelModel {
            strike: self.strike@,
            expiry: self.expiry@,
            option_type: self.option_type@,
            bid_price: self.bid_price@,
            bid_size: self.bid_size@,
            ask_price: self.ask_price@,
            ask_size: self.ask_size@,
            mark_iv: self.mark_iv@,
            timestamp_ns: self.timestamp_ns,
        }
    }
}

/// Changes of an options chain.
#[derive(Debug, Clone)]
pub struct OptionsChainDelta {
    pub symbol: String,
    pub updates: Vec<OptionsOrderBookLevel>,
    pub sequence: u64,
    pub is_snapshot: bool,
}

/// A message of the exchange. Numbers with a fraction are given in JSON
/// notation.
#[derive(Debug, Clone)]
pub enum DerivativesMessage {
    ChainDelta(OptionsChainDelta),
    FundingRate { symbol: String, rate: String, timestamp_ns: u64 },
    OpenInterest { symbol: String, oi: String, oi_usd: String, timestamp_ns: u64 },
    Liquidation { symbol: String, side: String, quantity: String, price: String, value_usd: String },
    Heartbeat(u64),
}

/// What a message holds.
pub enum MessageModel {
    ChainDelta { symbol: Seq<char>, updates: Seq<LevelModel>, sequence: u64, is_snapshot: bool },
    FundingRate { symbol: Seq<char>, rate: Seq<char>, timestamp_ns: u64 },
    OpenInterest { symbol: Seq<char>, oi: Seq<char>, oi_usd: Seq<char>, timestamp_ns: u64 },
    Liquidation {
        symbol: Seq<char>,
        side: Seq<char>,
        quantity: Seq<char>,
        price: Seq<char>,
        value_usd: Seq<char>,
    },
    Heartbeat(u64),
}

/// What levels hold.
pub open spec fn level_models(v: Seq<OptionsOrderBookLevel>) -> Seq<LevelModel> {
    Seq::new(v.len(), |i: int| v[i]@)
}

impl View for DerivativesMessage {
    type V = MessageModel;

    open spec fn view(&self) -> MessageModel {
        match *self {
            DerivativesMessage::ChainDelta(d) => MessageModel::ChainDelta {
                symbol: d.symbol@,
                updates: level_models(d.updates@),
                sequence: d.sequence,
                is_snapshot: d.is_snapshot,
            },
            DerivativesMessage::FundingRate { symbol, rate, timestamp_ns } => {
                MessageModel::FundingRate { symbol: symbol@, rate: rate@, timestamp_ns }
            },
            DerivativesMessage::OpenInterest { symbol, oi, oi_usd, timestamp_ns } => {
                MessageModel::OpenInterest {
                    symbol: symbol@,
                    oi: oi@,
                    oi_usd: oi_usd@,
                    timestamp_ns,
                }
            },
            DerivativesMessage::Liquidation { symbol, side, quantity, price, value_usd } => {
                MessageModel::Liquidation {
                    symbol: symbol@,
                    side: side@,
                    quantity: quantity@,
                    price: price@,
                    value_usd: value_usd@,
                }
            },
            DerivativesMessage::Heartbeat(ts) => MessageModel::Heartbeat(ts),
        }
    }
}

/// The parts of a level, from an object or from a list in the order of the
/// fields.
pub open spec fn level_part(t: JsonTree, key: Seq<char>, i: int) -> Option<JsonTree> {
    match t {
        JsonTree::List(l) => if l.len() == 9 {
            Some(l[i])
        } else {
            None
        },
        _ => tree_get(t, key),
    }
}

/// The notation of a part that is a number.
pub open spec fn part_number(t: JsonTree, key: Seq<char>, i: int) -> Option<Seq<char>> {
    match level_part(t, key, i) {
        Some(x) => tree_number(x),
        None => None,
    }
}

/// A part that is a text.
pub open spec fn part_text(t: JsonTree, key: Seq<char>, i: int) -> Option<Seq<char>> {
    match level_part(t, key, i) {
        Some(x) => tree_text(x),
        None => None,
    }
}

/// A part that is a number without fraction and sign.
pub open spec fn part_unsigned(t: JsonTree, key: Seq<char>, i: int) -> Option<u64> {
    match level_part(t, key, i) {
        Some(x) => tree_unsigned(x),
        None => None,
    }
}

/// The level that a value stands for, where every part is there and of the
/// right kind.
pub open spec fn level_of(t: JsonTree) -> Option<LevelModel> {
    if part_number(t, "strike"@, 0) is Some && part_text(t, "expiry"@, 1) is Some && part_text(
        t,
        "option_type"@,
        2,
    ) is Some && part_number(t, "bid_price"@, 3) is Some && part_number(t, "bid_size"@, 4) is Some
        && part_number(t, "ask_price"@, 5) is Some && part_number(t, "ask_size"@, 6) is Some
        && part_number(t, "mark_iv"@, 7) is Some && part_unsigned(
        t,
        "timestamp_ns"@,
        8,
    ) is Some {
        Some(
            LevelModel {
                strike: part_number(t, "strike"@, 0)->0,
                expiry: part_text(t, "expiry"@, 1)->0,
                option_type: part_text(t, "option_type"@, 2)->0,
                bid_price: part_number(t, "bid_price"@, 3)->0,
                bid_size: part_number(t, "bid_size"@, 4)->0,
                ask_price: part_number(t, "ask_price"@, 5)->0,
                ask_size: part_number(t, "ask_size"@, 6)->0,
                mark_iv: part_number(t, "mark_iv"@, 7)->0,
                timestamp_ns: part_unsigned(t, "timestamp_ns"@, 8)->0,
            },
        )
    } else {
        None
    }
}

/// The levels among the first `n` items that can be read.
pub open spec fn levels_of(items: Seq<JsonTree>, n: nat) -> Seq<LevelModel>
    decreases n,
{
    if n == 0 {
        Seq::empty()
    } else {
        let before = levels_of(items, (n - 1) as nat);
        match level_of(items[n - 1]) {
            Some(l) => before.push(l),
            None => before,
        }
    }
}

/// A text, or another one where there is none.
pub open spec fn text_or(s: Option<Seq<char>>, other: Seq<char>) -> Seq<char> {
    match s {
        Some(t) => t,
        None => other,
    }
}

/// A number, or zero where there is none.
pub open spec fn unsigned_or_zero(n: Option<u64>) -> u64 {
    match n {
        Some(x) => x,
        None => 0,
    }
}

/// The changes that a message brings, where it brings any that can be read.
pub open spec fn chain_of(t: JsonTree) -> Option<MessageModel> {
    match tree_get(t, "params"@) {
        Some(params) => match tree_get(params, "data"@) {
            Some(data) => match tree_items(data) {
                Some(items) => if levels_of(items, items.len()).len() > 0 {
                    Some(
                        MessageModel::ChainDelta {
                            symbol: text_or(entry_text(params, "instrument"@), "UNKNOWN"@),
                            updates: levels_of(items, items.len()),
                            sequence: unsigned_or_zero(entry_unsigned(params, "change_id"@)),
                            is_snapshot: false,
                        },
                    )
                } else {
                    None
                },
                None => None,
            },
            None => None,
        },
        None => None,
    }
}

/// The message that a value stands for: a heartbeat, changes of a chain, a
/// funding rate, an open interest or a liquidation, whatever fits first.
pub open spec fn message_of(t: JsonTree) -> Option<MessageModel> {
    if entry_text(t, "op"@) == Some("heartbeat"@) {
        Some(MessageModel::Heartbeat(unsigned_or_zero(entry_unsigned(t, "ts"@))))
    } else if chain_of(t) is Some {
        chain_of(t)
    } else if entry_number(t, "funding_rate"@) is Some {
        Some(
            MessageModel::FundingRate {
                symbol: text_or(entry_text(t, "symbol"@), Seq::empty()),
                rate: entry_number(t, "funding_rate"@)->0,
                timestamp_ns: unsigned_or_zero(entry_unsigned(t, "timestamp"@)),
            },
        )
    } else if entry_number(t, "open_interest"@) is Some {
        Some(
            MessageModel::OpenInterest {
                symbol: text_or(entry_text(t, "symbol"@), Seq::empty()),
                oi: entry_number(t, "open_interest"@)->0,
                oi_usd: text_or(entry_number(t, "open_interest_usd"@), "0"@),
                timestamp_ns: unsigned_or_zero(entry_unsigned(t, "timestamp"@)),
            },
        )
    } else {
        match tree_get(t, "liquidation"@) {
            Some(liq) => Some(
                MessageModel::Liquidation {
                    symbol: text_or(entry_text(liq, "symbol"@), Seq::empty()),
                    side: text_or(entry_text(liq, "side"@), Seq::empty()),
                    quantity: text_or(entry_number(liq, "quantity"@), "0"@),
                    price: text_or(entry_number(liq, "price"@), "0"@),
                    value_usd: text_or(entry_number(liq, "value_usd"@), "0"@),
                },
            ),
            None => None,
        }
    }
}

fn part<'a>(v: &'a serde_json::Value, key: &str, i: usize) -> (r: Option<&'a serde_json::Value>)
    requires
        i < 9,
    ensures
        match r {
            Some(x) => level_part(held_json(*v), key@, i as int) == Some(held_json(*x)),
            None => level_part(held_json(*v), key@, i as int) is None,
        },
{
    match json_items(v) {
        Some(items) => {
            if items.len() == 9 {
                let ghost l = tree_items(held_json(*v))->0;
                assert(l[i as int] == held_json(items@[i as int]));
                Some(&items[i])
            } else {
                None
            }
        },
        None => json_get(v, key),
    }
}

fn number_part(v: &serde_json::Value, key: &str, i: usize) -> (r: Option<String>)
    requires
        i < 9,
    ensures
        match r {
            Some(s) => part_number(held_json(*v), key@, i as int) == Some(s@),
            None => part_number(held_json(*v), key@, i as int) is None,
        },
{
    match part(v, key, i) {
        Some(x) => json_number_text(x),
        None => None,
    }
}

fn text_part(v: &serde_json::Value, key: &str, i: usize) -> (r: Option<String>)
    requires
        i < 9,
    ensures
        match r {
            Some(s) => part_text(held_json(*v), key@, i as int) == Some(s@),
            None => part_text(held_json(*v), key@, i as int) is None,
        },
{
    match part(v, key, i) {
        Some(x) => match json_str(x) {
            Some(s) => Some(s.to_owned()),
            None => None,
        },
        None => None,
    }
}

fn read_level(v: &serde_json::Value) -> (r: Option<OptionsOrderBookLevel>)
    ensures
        match r {
            Some(l) => level_of(held_json(*v)) == Some(l@),
            None => level_of(held_json(*v)) is None,
        },
{
    let strike = number_part(v, "strike", 0)?;
    let expiry = text_part(v, "expiry", 1)?;
    let option_type = text_part(v, "option_type", 2)?;
    let bid_price = number_part(v, "bid_price", 3)?;
    let bid_size = number_part(v, "bid_size", 4)?;
    let ask_price = number_part(v, "ask_price", 5)?;
    let ask_size = number_part(v, "ask_size", 6)?;
    let mark_iv = number_part(v, "mark_iv", 7)?;
    let timestamp_ns: u64 = match part(v, "timestamp_ns", 8) {
        Some(x) => match json_u64(x) {
            Some(n) => n,
            None => {
                return None;
            },
        },
        None => {
            return None;
        },
    };
    Some(
        OptionsOrderBookLevel {
            strike,
            expiry,
            option_type,
            bid_price,
            bid_size,
            ask_price,
            ask_size,
            mark_iv,
            timestamp_ns,
        },
    )
}

fn or_text(s: Option<String>, other: &str) -> (r: String)
    ensures
        r@ == (match s {
            Some(t) => t@,
            None => other@,
        }),
{
    match s {
        Some(t) => t,
        None => other.to_owned(),
    }
}

fn or_empty(s: Option<String>) -> (r: String)
    ensures
        r@ == (match s {
            Some(t) => t@,
            None => Seq::<char>::empty(),
        }),
{
    match s {
        Some(t) => t,
        None => String::new(),
    }
}

fn or_zero(n: Option<u64>) -> (r: u64)
    ensures
        r == unsigned_or_zero(n),
{
    match n {
        Some(x) => x,
        None => 0,
    }
}

fn read_chain(v: &serde_json::Value) -> (r: Option<DerivativesMessage>)
    ensures
        match r {
            Some(m) => chain_of(held_json(*v)) == Some(m@),
            None => chain_of(held_json(*v)) is None,
        },
{
    let params = json_get(v, "params")?;
    let data = json_get(params, "data")?;
    let items = json_items(data)?;
    let ghost all = held_list(items@);
    let mut updates: Vec<OptionsOrderBookLevel> = Vec::new();
    let mut i: usize = 0;
    assert(level_models(updates@) =~= levels_of(all, 0));
    while i < items.len()
        invariant
            i <= items@.len(),
            all == held_list(items@),
            level_models(updates@) == levels_of(all, i as nat),
        decreases items@.len() - i,
    {
        let ghost before = level_models(updates@);
        assert(all[i as int] == held_json(items@[i as int]));
        if let Some(l) = read_level(&items[i]) {
            updates.push(l);
            assert(level_models(updates@) =~= before.push(l@));
        }
        i += 1;
    }
    if updates.len() == 0 {
        return None;
    }
    let symbol = or_text(get_text(params, "instrument"), "UNKNOWN");
    let sequence: u64 = or_zero(get_unsigned(params, "change_id"));
    Some(
        DerivativesMessage::ChainDelta(
            OptionsChainDelta { symbol, updates, sequence, is_snapshot: false },
        ),
    )
}

/// Reads a message that has been parsed.
pub fn read_message(v: &serde_json::Value) -> (r: Option<DerivativesMessage>)
    ensures
        match r {
            Some(m) => message_of(held_json(*v)) == Some(m@),
            None => message_of(held_json(*v)) is None,
        },
{
    if let Some(op) = get_text(v, "op") {
        if same(op.as_str(), "heartbeat") {
            return Some(DerivativesMessage::Heartbeat(or_zero(get_unsigned(v, "ts"))));
        }
    }
    if let Some(m) = read_chain(v) {
        return Some(m);
    }
    if let Some(rate) = get_number(v, "funding_rate") {
        return Some(
            DerivativesMessage::FundingRate {
                symbol: or_empty(get_text(v, "symbol")),
                rate,
                timestamp_ns: or_zero(get_unsigned(v, "timestamp")),
            },
        );
    }
    if let Some(oi) = get_number(v, "open_interest") {
        return Some(
            DerivativesMessage::OpenInterest {
                symbol: or_empty(get_text(v, "symbol")),
                oi,
                oi_usd: or_text(get_number(v, "open_interest_usd"), "0"),
                timestamp_ns: or_zero(get_unsigned(v, "timestamp")),
            },
        );
    }
    if let Some(liq) = json_get(v, "liquidation") {
        return Some(
            DerivativesMessage::Liquidation {
                symbol: or_empty(get_text(liq, "symbol")),
                side: or_empty(get_text(liq, "side")),
                quantity: or_text(get_number(liq, "quantity"), "0"),
                price: or_text(get_number(liq, "price"), "0"),
                value_usd: or_text(get_number(liq, "value_usd"), "0"),
            },
        );
    }
    None
}

/// The symbols subscribed to on a channel.
pub open spec fn subscribed(m: Map<Seq<char>, Vec<String>>, channel: Seq<char>) -> Seq<Seq<char>> {
    if m.contains_key(channel) {
        views(m[channel]@)
    } else {
        Seq::empty()
    }
}

/// One subscription.
pub open spec fn subscription(channel: Seq<char>, symbol: Seq<char>) -> JsonTree {
    JsonTree::Object(
        Map::<Seq<char>, JsonTree>::empty().insert("channel"@, JsonTree::Text(channel)).insert(
            "symbol"@,
            JsonTree::Text(symbol),
        ),
    )
}

/// The subscriptions of the first `n` symbols of a channel.
pub open spec fn channel_subscriptions(
    channel: Seq<char>,
    symbols: Seq<String>,
    n: nat,
) -> Seq<JsonTree>
    decreases n,
{
    if n == 0 {
        Seq::empty()
    } else {
        channel_subscriptions(channel, symbols, (n - 1) as nat).push(
            subscription(channel, symbols[n - 1]@),
        )
    }
}

/// The subscriptions of the first `n` channels.
pub open spec fn all_subscriptions(s: Seq<(String, Vec<String>)>, n: nat) -> Seq<JsonTree>
    decreases n,
{
    if n == 0 {
        Seq::empty()
    } else {
        all_subscriptions(s, (n - 1) as nat) + channel_subscriptions(
            s[n - 1].0@,
            s[n - 1].1@,
            s[n - 1].1@.len(),
        )
    }
}

/// What to do after a connection has ended.
#[derive(Debug, Clone, Copy, PartialEq, Eq, Structural)]
pub enum ReconnectAction {
    /// Connect again, after so many seconds.
    Retry { wait_secs: u64 },
    /// Give up.
    GiveUp,
}

/// How many attempts failed in a row, once another ended.
pub open spec fn failures_after(failures: u32, ok: bool) -> int {
    if ok {
        0
    } else {
        failures + 1
    }
}

/// What to do once a connection ended: wait a second for each failure in a row,
/// half a minute at most, and give up at the limit.
pub open spec fn reconnection(failures: u32, limit: u32, ok: bool) -> ReconnectAction {
    if ok {
        ReconnectAction::Retry { wait_secs: 0 }
    } else if failures + 1 < limit {
        ReconnectAction::Retry {
            wait_secs: (if failures + 1 < 30 {
                failures + 1
            } else {
                30
            }) as u64,
        }
    } else {
        ReconnectAction::GiveUp
    }
}

/// The adapter's state.
pub struct DerivativesWsAdapter {
    pub url: String,
    /// Symbols by channel, in the order in which they were subscribed to.
    pub subscriptions: Table<Vec<String>>,
    /// The last sequence number by symbol.
    pub sequences: Table<u64>,
    pub reconnect_count: u32,
    pub max_reconnects: u32,
}

impl DerivativesWsAdapter {
    /// No channel and no symbol occurs twice.
    pub open spec fn wf(&self) -> bool {
        self.subscriptions.wf() && self.sequences.wf()
    }

    /// An adapter without subscriptions.
    pub fn new(url: &str) -> (a: Self)
        ensures
            a.wf(),
            a.url@ == url@,
            a.subscriptions@ == Map::<Seq<char>, Vec<String>>::empty(),
            a.subscriptions.entries@.len() == 0,
            a.sequences@ == Map::<Seq<char>, u64>::empty(),
            a.reconnect_count == 0,
            a.max_reconnects == 10,
    {
        DerivativesWsAdapter {
            url: url.to_owned(),
            subscriptions: Table::new(),
            sequences: Table::new(),
            reconnect_count: 0,
            max_reconnects: 10,
        }
    }

    fn subscribe(&mut self, channel: &str, symbol: &str)
        requires
            old(self).wf(),
        ensures
            final(self).wf(),
            forall|c: Seq<char>| #[trigger]
                subscribed(final(self).subscriptions@, c) == (if c == channel@ {
                    subscribed(old(self).subscriptions@, c).push(symbol@)
                } else {
                    subscribed(old(self).subscriptions@, c)
                }),
            *final(self) == (DerivativesWsAdapter {
                subscriptions: final(self).subscriptions,
                ..*old(self)
            }),
    {
        let ghost before = self.subscriptions.entries@;
        match self.subscriptions.find(channel) {
            Some(i) => {
                let entry = &mut self.subscriptions.entries[i];
                entry.1.push(symbol.to_owned());
                proof {
                    let after = self.subscriptions.entries@;
                    assert(after =~= before.update(i as int, after[i as int]));
                    lemma_update(before, i as int, after[i as int]);
                    assert(views(after[i as int].1@) =~= views(before[i as int].1@).push(symbol@));
                }
            },
            None => {
                let mut symbols: Vec<String> = Vec::new();
                symbols.push(symbol.to_owned());
                assert(views(symbols@) =~= Seq::empty().push(symbol@));
                let _ = self.subscriptions.insert(channel.to_owned(), symbols);
            },
        }
    }

    fn subscribe_all(&mut self, channel: &str, symbols: &[&str])
        requires
            old(self).wf(),
        ensures
            final(self).wf(),
            forall|c: Seq<char>| #[trigger]
                subscribed(final(self).subscriptions@, c) == (if c == channel@ {
                    subscribed(old(self).subscriptions@, c) + str_views(symbols@)
                } else {
                    subscribed(old(self).subscriptions@, c)
                }),
            *final(self) == (DerivativesWsAdapter {
                subscriptions: final(self).subscriptions,
                ..*old(self)
            }),
    {
        let ghost wanted = str_views(symbols@);
        let ghost first = subscribed(old(self).subscriptions@, channel@);
        let mut i: usize = 0;
        assert(first + wanted.take(0) =~= first);
        while i < symbols.len()
            invariant
                i <= symbols@.len(),
                wanted == str_views(symbols@),
                first == subscribed(old(self).subscriptions@, channel@),
                self.wf(),
                forall|c: Seq<char>| #[trigger]
                    subscribed(self.subscriptions@, c) == (if c == channel@ {
                        first + wanted.take(i as int)
                    } else {
                        subscribed(old(self).subscriptions@, c)
                    }),
                *self == (DerivativesWsAdapter {
                    subscriptions: self.subscriptions,
                    ..*old(self)
                }),
            decreases symbols@.len() - i,
        {
            self.subscribe(channel, symbols[i]);
            assert((first + wanted.take(i as int)).push(wanted[i as int]) =~= first + wanted.take(
                i + 1,
            ));
            i += 1;
        }
        assert(wanted.take(wanted.len() as int) =~= wanted);
    }

    /// Subscribes to the options chain of an underlying.
    pub fn subscribe_options_chain(&mut self, underlying: &str)
        requires
            old(self).wf(),
        ensures
            final(self).wf(),
            forall|c: Seq<char>| #[trigger]
                subscribed(final(self).subscriptions@, c) == (if c == "options"@ {
                    subscribed(old(self).subscriptions@, c).push(underlying@)
                } else {
                    subscribed(old(self).subscriptions@, c)
                }),
            *final(self) == (DerivativesWsAdapter {
                subscriptions: final(self).subscriptions,
                ..*old(self)
            }),
    {
        self.subscribe("options", underlying);
    }

    /// Subscribes to funding rates.
    pub fn subscribe_funding_rates(&mut self, symbols: &[&str])
        requires
            old(self).wf(),
        ensures
            final(self).wf(),
            forall|c: Seq<char>| #[trigger]
                subscribed(final(self).subscriptions@, c) == (if c == "funding"@ {
                    subscribed(old(self).subscriptions@, c) + str_views(symbols@)
                } else {
                    subscribed(old(self).subscriptions@, c)
                }),
            *final(self) == (DerivativesWsAdapter {
                subscriptions: final(self).subscriptions,
                ..*old(self)
            }),
    {
        self.subscribe_all("funding", symbols);
    }

    /// Subscribes to open interest.
    pub fn subscribe_open_interest(&mut self, symbols: &[&str])
        requires
            old(self).wf(),
        ensures
            final(self).wf(),
            forall|c: Seq<char>| #[trigger]
                subscribed(final(self).subscriptions@, c) == (if c == "oi"@ {
                    subscribed(old(self).subscriptions@, c) + str_views(symbols@)
                } else {
                    subscribed(old(self).subscriptions@, c)
                }),
            *final(self) == (DerivativesWsAdapter {
                subscriptions: final(self).subscriptions,
                ..*old(self)
            }),
    {
        self.subscribe_all("oi", symbols);
    }

    /// Subscribes to liquidations.
    pub fn subscribe_liquidations(&mut self, symbols: &[&str])
        requires
            old(self).wf(),
        ensures
            final(self).wf(),
            forall|c: Seq<char>| #[trigger]
                subscribed(final(self).subscriptions@, c) == (if c == "liquidations"@ {
                    subscribed(old(self).subscriptions@, c) + str_views(symbols@)
                } else {
                    subscribed(old(self).subscriptions@, c)
                }),
            *final(self) == (DerivativesWsAdapter {
                subscriptions: final(self).subscriptions,
                ..*old(self)
            }),
    {
        self.subscribe_all("liquidations", symbols);
    }

    /// The request for all subscriptions.
    pub fn build_subscribe_message(&self) -> (v: serde_json::Value)
        ensures
            held_json(v) == operation(
                "subscribe"@,
                JsonTree::List(
                    all_subscriptions(
                        self.subscriptions.entries@,
                        self.subscriptions.entries@.len(),
                    ),
                ),
            ),
    {
        let ghost s = self.subscriptions.entries@;
        let mut params: Vec<serde_json::Value> = Vec::new();
        let mut i: usize = 0;
        assert(held_list(params@) =~= all_subscriptions(s, 0));
        while i < self.subscriptions.entries.len()
            invariant
                i <= s.len(),
                s == self.subscriptions.entries@,
                held_list(params@) == all_subscriptions(s, i as nat),
            decreases s.len() - i,
        {
            let channel = &self.subscriptions.entries[i].0;
            let symbols = &self.subscriptions.entries[i].1;
            let ghost before = held_list(params@);
            let mut k: usize = 0;
            assert(before + channel_subscriptions(channel@, symbols@, 0) =~= before);
            while k < symbols.len()
                invariant
                    k <= symbols@.len(),
                    held_list(params@) == before + channel_subscriptions(
                        channel@,
                        symbols@,
                        k as nat,
                    ),
                decreases symbols@.len() - k,
            {
                let ghost so_far = held_list(params@);
                let mut entry = json_object();
                json_insert(&mut entry, "channel", json_string(channel.as_str()));
                json_insert(&mut entry, "symbol", json_string(symbols[k].as_str()));
                params.push(entry);
                assert(held_list(params@) =~= so_far.push(
                    subscription(channel@, symbols@[k as int]@),
                ));
                assert(held_list(params@) =~= before + channel_subscriptions(
                    channel@,
                    symbols@,
                    (k + 1) as nat,
                ));
                k += 1;
            }
            i += 1;
        }
        make_operation("subscribe", json_array(params))
    }

    /// Takes note of how a connection ended, and decides what comes next. A
    /// good end starts the count anew; after a bad one there is a wait of as
    /// many seconds as there were attempts, thirty at most.
    pub fn connection_ended(&mut self, ok: bool) -> (a: ReconnectAction)
        requires
            old(self).reconnect_count < old(self).max_reconnects,
        ensures
            final(self).reconnect_count == failures_after(old(self).reconnect_count, ok),
            *final(self) == (DerivativesWsAdapter {
                reconnect_count: final(self).reconnect_count,
                ..*old(self)
            }),
            a == reconnection(old(self).reconnect_count, old(self).max_reconnects, ok),
    {
        if ok {
            self.reconnect_count = 0;
            return ReconnectAction::Retry { wait_secs: 0 };
        }
        self.reconnect_count = self.reconnect_count + 1;
        if self.reconnect_count < self.max_reconnects {
            let wait_secs: u64 = if self.reconnect_count < 30 {
                self.reconnect_count as u64
            } else {
                30
            };
            ReconnectAction::Retry { wait_secs }
        } else {
            ReconnectAction::GiveUp
        }
    }

    /// Reads a message.
    pub fn parse_message(&self, text: &str) -> (r: Option<DerivativesMessage>)
        ensures
            match parsed_json(text@) {
                Some(t) => match r {
                    Some(m) => message_of(t) == Some(m@),
                    None => message_of(t) is None,
                },
                None => r is None,
            },
    {
        match parse_json(text) {
            Some(v) => read_message(&v),
            None => None,
        }
    }

    /// The last sequence number of a symbol; zero where none is known.
    pub fn get_sequence(&self, symbol: &str) -> (n: u64)
        requires
            self.wf(),
        ensures
            n == (if self.sequences@.contains_key(symbol@) {
                self.sequences@[symbol@]
            } else {
                0
            }),
    {
        match self.sequences.get(symbol) {
            Some(n) => *n,
            None => 0,
        }
    }

    /// Takes note of the sequence number of a symbol.
    pub fn update_sequence(&mut self, symbol: &str, seq: u64)
        requires
            old(self).wf(),
        ensures
            final(self).wf(),
            final(self).sequences@ == old(self).sequences@.insert(symbol@, seq),
            *final(self) == (DerivativesWsAdapter {
                sequences: final(self).sequences,
                ..*old(self)
            }),
    {
        let _ = self.sequences.insert(symbol.to_owned(), seq);
    }
}

/// The views of a list of string slices.
pub open spec fn str_views(v: Seq<&str>) -> Seq<Seq<char>> {
    Seq::new(v.len(), |i: int| v[i]@)
}

/// Counts the messages that are forwarded.
pub struct NautilusDerivativesBridge {
    pub event_count: u64,
}

impl NautilusDerivativesBridge {
    /// A bridge that has forwarded nothing.
    pub fn new() -> (b: Self)
        ensures
            b.event_count == 0,
    {
        NautilusDerivativesBridge { event_count: 0 }
    }

    /// Counts a message.
    pub fn note_message(&mut self)
        requires
            old(self).event_count < u64::MAX,
        ensures
            final(self).event_count == old(self).event_count + 1,
    {
        self.event_count = self.event_count + 1;
    }

    /// How many messages were forwarded.
    pub fn event_count(&self) -> (n: u64)
        ensures
            n == self.event_count,
    {
        self.event_count
    }
}

} // verus!
