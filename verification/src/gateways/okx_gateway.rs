//! The OKX gateway: instrument identifiers, signatures, requests and order
//! books.

use vstd::prelude::*;
use vstd::string::StringSliceAdditionalSpecFns;
use vstd::utf8::encode_utf8;
use crate::base::amount::Amount;
use crate::base::clock::{
    ends_with, iso_stamp, iso_time, now_ns, time_of_day, utc_now, UtcInstant,
};
use crate::base::crypto::{base64_encode, base64_text, hmac_sha256, hmac_sha256_of};
use crate::base::decimals::{amount_in, parse_amount};
use crate::base::json::{
    entry_text, get_text, held_json, held_list, json_array, json_get, json_insert, json_items,
    json_object, json_str, json_string, json_text, make_operation, operation, render_json,
    tree_get, tree_items, tree_text, JsonTree,
};
use crate::base::table::Table;
use crate::base::text::{same, split, split_on};

verus! {

/// Credentials of an account.
#[derive(Debug, Clone)]
pub struct OkxCredentials {
    pub api_key: String,
    pub api_secret: String,
    pub passphrase: String,
}

/// Kind of an account.
#[derive(Debug, Clone, Copy, PartialEq, Eq, Structural)]
pub enum OkxAccountType {
    Demo,
    Live,
}

/// Kind of an instrument.
#[derive(Debug, Clone, Copy, PartialEq, Eq, Structural)]
pub enum OkxInstType {
    Spot,
    Swap,
    Futures,
    Option,
}

/// Side of an order.
#[derive(Debug, Clone, Copy, PartialEq, Eq, Structural)]
pub enum OkxSide {
    Buy,
    Sell,
}

/// Side of a position.
#[derive(Debug, Clone, Copy, PartialEq, Eq, Structural)]
pub enum OkxPosSide {
    Long,
    Short,
    Net,
}

/// Type of an order.
#[derive(Debug, Clone, Copy, PartialEq, Eq, Structural)]
pub enum OkxOrderType {
    Market,
    Limit,
    PostOnly,
    FOK,
    IOC,
}

/// State of an order.
#[derive(Debug, Clone, Copy, PartialEq, Eq, Structural)]
pub enum OkxOrderState {
    Live,
    PartiallyFilled,
    Filled,
    Canceled,
    MmpCanceled,
}

/// An instrument.
#[derive(Debug, Clone)]
pub struct OkxInstrumentId {
    pub base_currency: String,
    pub quote_currency: String,
    pub inst_type: OkxInstType,
    pub expiry: Option<String>,
    pub strike: Option<String>,
    pub option_type: Option<String>,
}

/// What an instrument holds.
pub struct InstrumentModel {
    pub base_currency: Seq<char>,
    pub quote_currency: Seq<char>,
    pub inst_type: OkxInstType,
    pub expiry: Option<Seq<char>>,
    pub strike: Option<Seq<char>>,
    pub option_type: Option<Seq<char>>,
}

/// The view of an optional text.
pub open spec fn optional_view(s: Option<String>) -> Option<Seq<char>> {
    match s {
        Some(t) => Some(t@),
        None => None,
    }
}

impl View for OkxInstrumentId {
    type V = InstrumentModel;

    open spec fn view(&self) -> InstrumentModel {
        InstrumentModel {
            base_currency: self.base_currency@,
            quote_currency: self.quote_currency@,
            inst_type: self.inst_type,
            expiry: optional_view(self.expiry),
            strike: optional_view(self.strike),
            option_type: optional_view(self.option_type),
        }
    }
}

/// A text, or another one where there is none.
pub open spec fn text_or(s: Option<Seq<char>>, other: Seq<char>) -> Seq<char> {
    match s {
        Some(t) => t,
        None => other,
    }
}

/// The identifier of an instrument.
pub open spec fn okx_id(i: InstrumentModel) -> Seq<char> {
    let pair = i.base_currency + "-"@ + i.quote_currency;
    match i.inst_type {
        OkxInstType::Spot => pair,
        OkxInstType::Swap => pair + "-SWAP"@,
        OkxInstType::Futures => match i.expiry {
            Some(expiry) => pair + "-"@ + expiry,
            None => pair + "-FUTURES"@,
        },
        OkxInstType::Option => pair + "-"@ + text_or(i.expiry, Seq::empty()) + "-"@ + text_or(
            i.strike,
            Seq::empty(),
        ) + "-"@ + text_or(i.option_type, "C"@),
    }
}

/// The instrument that an identifier stands for: its pieces between hyphens.
/// Five pieces make an option.
pub open spec fn parsed_id(id: Seq<char>) -> Option<InstrumentModel> {
    let parts = split_on(id, '-');
    if parts.len() < 2 {
        None
    } else {
        Some(
            InstrumentModel {
                base_currency: parts[0],
                quote_currency: parts[1],
                inst_type: if parts.len() < 3 {
                    OkxInstType::Spot
                } else if parts.len() == 5 {
                    OkxInstType::Option
                } else if parts[2] == "SWAP"@ {
                    OkxInstType::Swap
                } else if parts.len() == 3 {
                    OkxInstType::Futures
                } else {
                    OkxInstType::Spot
                },
                expiry: if parts.len() < 3 {
                    None
                } else {
                    Some(parts[2])
                },
                strike: if parts.len() == 5 {
                    Some(parts[3])
                } else {
                    None
                },
                option_type: if parts.len() == 5 {
                    Some(parts[4])
                } else {
                    None
                },
            },
        )
    }
}

proof fn lemma_split_plain(a: Seq<char>, sep: char)
    requires
        !a.contains(sep),
    ensures
        split_on(a, sep) == seq![a],
    decreases a.len(),
{
    if a.len() > 0 {
        assert(!a.drop_last().contains(sep)) by {
            if a.drop_last().contains(sep) {
                let k = choose|k: int| 0 <= k < a.drop_last().len() && a.drop_last()[k] == sep;
                assert(a[k] == sep);
            }
        }
        lemma_split_plain(a.drop_last(), sep);
        assert(a.last() != sep) by {
            assert(a[a.len() - 1] == a.last());
        }
        let rest = split_on(a.drop_last(), sep);
        assert(rest.last() == a.drop_last());
        assert(a.drop_last().push(a.last()) =~= a);
        assert(split_on(a, sep) =~= seq![a]);
    } else {
        assert(a =~= Seq::<char>::empty());
        assert(split_on(a, sep) =~= seq![a]);
    }
}

proof fn lemma_split_behind(a: Seq<char>, b: Seq<char>, sep: char)
    requires
        !b.contains(sep),
    ensures
        split_on(a.push(sep) + b, sep) == split_on(a, sep).push(b),
    decreases b.len(),
{
    let s = a.push(sep) + b;
    if b.len() == 0 {
        assert(s =~= a.push(sep));
        assert(s.drop_last() =~= a);
        assert(b =~= Seq::<char>::empty());
    } else {
        let c = b.drop_last();
        assert(!c.contains(sep)) by {
            if c.contains(sep) {
                let k = choose|k: int| 0 <= k < c.len() && c[k] == sep;
                assert(b[k] == sep);
            }
        }
        lemma_split_behind(a, c, sep);
        assert(s.drop_last() =~= a.push(sep) + c);
        assert(b.last() != sep) by {
            assert(b[b.len() - 1] == b.last());
        }
        let rest = split_on(s.drop_last(), sep);
        assert(rest.last() == c);
        assert(c.push(b.last()) =~= b);
        assert(split_on(s, sep) =~= split_on(a, sep).push(b));
    }
}

/// The identifier of an instrument gives back its currencies and its kind, that
/// of a future also its expiry, and that of an option its expiry, strike and
/// type, as long as no part holds a hyphen and no expiry of a future reads like
/// a swap. A part that an option lacks comes back as it was written: an empty
/// expiry or strike, and a call.
pub proof fn law_id_round_trip(i: InstrumentModel)
    requires
        !i.base_currency.contains('-'),
        !i.quote_currency.contains('-'),
        i.inst_type == OkxInstType::Futures ==> (i.expiry is Some ==> !i.expiry->0.contains('-')
            && i.expiry->0 != "SWAP"@),
        i.inst_type == OkxInstType::Option ==> !text_or(i.expiry, Seq::empty()).contains('-')
            && !text_or(i.strike, Seq::empty()).contains('-') && !text_or(
            i.option_type,
            "C"@,
        ).contains('-'),
    ensures
        parsed_id(okx_id(i)) is Some,
        parsed_id(okx_id(i))->0.base_currency == i.base_currency,
        parsed_id(okx_id(i))->0.quote_currency == i.quote_currency,
        parsed_id(okx_id(i))->0.inst_type == i.inst_type,
        i.inst_type == OkxInstType::Futures && i.expiry is Some ==> parsed_id(okx_id(i))->0.expiry
            == i.expiry,
        i.inst_type == OkxInstType::Option ==> {
            let read = parsed_id(okx_id(i))->0;
            &&& read.expiry == Some(text_or(i.expiry, Seq::empty()))
            &&& read.strike == Some(text_or(i.strike, Seq::empty()))
            &&& read.option_type == Some(text_or(i.option_type, "C"@))
        },
{
    reveal_strlit("-");
    reveal_strlit("SWAP");
    reveal_strlit("-SWAP");
    reveal_strlit("FUTURES");
    reveal_strlit("-FUTURES");
    let pair = i.base_currency + "-"@ + i.quote_currency;
    assert(pair =~= i.base_currency.push('-') + i.quote_currency);
    lemma_split_plain(i.base_currency, '-');
    lemma_split_behind(i.base_currency, i.quote_currency, '-');
    assert(split_on(pair, '-') =~= seq![i.base_currency, i.quote_currency]);
    match i.inst_type {
        OkxInstType::Spot => {},
        OkxInstType::Swap => {
            assert(okx_id(i) =~= pair.push('-') + "SWAP"@);
            assert(!"SWAP"@.contains('-'));
            lemma_split_behind(pair, "SWAP"@, '-');
        },
        OkxInstType::Futures => match i.expiry {
            Some(expiry) => {
                assert(okx_id(i) =~= pair.push('-') + expiry);
                lemma_split_behind(pair, expiry, '-');
            },
            None => {
                assert(okx_id(i) =~= pair.push('-') + "FUTURES"@);
                assert(!"FUTURES"@.contains('-'));
                lemma_split_behind(pair, "FUTURES"@, '-');
                assert("FUTURES"@.len() != "SWAP"@.len());
            },
        },
        OkxInstType::Option => {
            let expiry = text_or(i.expiry, Seq::empty());
            let strike = text_or(i.strike, Seq::empty());
            let kind = text_or(i.option_type, "C"@);
            let dated = pair.push('-') + expiry;
            let struck = dated.push('-') + strike;
            assert(okx_id(i) =~= struck.push('-') + kind);
            lemma_split_behind(pair, expiry, '-');
            lemma_split_behind(dated, strike, '-');
            lemma_split_behind(struck, kind, '-');
        },
    }
}

fn push_or(out: &mut String, s: &Option<String>, other: &str)
    ensures
        final(out)@ == old(out)@ + text_or(optional_view(*s), other@),
{
    match s {
        Some(t) => out.push_str(t.as_str()),
        None => out.push_str(other),
    }
}

impl OkxInstrumentId {
    /// The identifier of this instrument.
    pub fn to_okx_id(&self) -> (r: String)
        ensures
            r@ == okx_id(self@),
    {
        let mut s = self.base_currency.clone();
        s.push_str("-");
        s.push_str(self.quote_currency.as_str());
        match self.inst_type {
            OkxInstType::Spot => {},
            OkxInstType::Swap => {
                s.push_str("-SWAP");
            },
            OkxInstType::Futures => {
                match &self.expiry {
                    Some(expiry) => {
                        s.push_str("-");
                        s.push_str(expiry.as_str());
                    },
                    None => {
                        s.push_str("-FUTURES");
                    },
                }
            },
            OkxInstType::Option => {
                s.push_str("-");
                push_or(&mut s, &self.expiry, "");
                s.push_str("-");
                push_or(&mut s, &self.strike, "");
                s.push_str("-");
                push_or(&mut s, &self.option_type, "C");
                proof {
                    reveal_strlit("");
                    assert(""@ =~= Seq::<char>::empty());
                }
            },
        }
        s
    }

    /// The instrument that an identifier stands for.
    pub fn from_okx_id(inst_id: &str) -> (r: Option<Self>)
        ensures
            match r {
                Some(i) => parsed_id(inst_id@) == Some(i@),
                None => parsed_id(inst_id@) is None,
            },
    {
        let parts = split(inst_id, '-');
        let ghost all = split_on(inst_id@, '-');
        assert(all.len() == parts@.len());
        if parts.len() < 2 {
            return None;
        }
        assert(all[0] == parts@[0]@ && all[1] == parts@[1]@);
        if parts.len() < 3 {
            return Some(
                OkxInstrumentId {
                    base_currency: parts[0].clone(),
                    quote_currency: parts[1].clone(),
                    inst_type: OkxInstType::Spot,
                    expiry: None,
                    strike: None,
                    option_type: None,
                },
            );
        }
        assert(all[2] == parts@[2]@);
        if parts.len() == 5 {
            assert(all[3] == parts@[3]@ && all[4] == parts@[4]@);
            return Some(
                OkxInstrumentId {
                    base_currency: parts[0].clone(),
                    quote_currency: parts[1].clone(),
                    inst_type: OkxInstType::Option,
                    expiry: Some(parts[2].clone()),
                    strike: Some(parts[3].clone()),
                    option_type: Some(parts[4].clone()),
                },
            );
        }
        let inst_type = if same(parts[2].as_str(), "SWAP") {
            OkxInstType::Swap
        } else if parts.len() == 3 {
            OkxInstType::Futures
        } else {
            OkxInstType::Spot
        };
        Some(
            OkxInstrumentId {
                base_currency: parts[0].clone(),
                quote_currency: parts[1].clone(),
                inst_type,
                expiry: Some(parts[2].clone()),
                strike: None,
                option_type: None,
            },
        )
    }
}

/// An order to place.
#[derive(Debug, Clone)]
pub struct OkxPlaceOrderRequest {
    pub inst_id: String,
    pub td_mode: String,
    pub side: OkxSide,
    pub pos_side: Option<OkxPosSide>,
    pub ord_type: OkxOrderType,
    pub sz: String,
    pub px: Option<String>,
    pub ccy: Option<String>,
    pub reduce_only: Option<bool>,
    pub tgt_ccy: Option<String>,
    pub ban_amend: Option<bool>,
    pub quick_mgn_type: Option<String>,
    pub cl_ord_id: Option<String>,
    pub tag: Option<String>,
}

/// An order to cancel.
#[derive(Debug, Clone)]
pub struct OkxCancelOrderRequest {
    pub inst_id: String,
    pub ord_id: Option<String>,
    pub cl_ord_id: Option<String>,
}

/// What a WebSocket message is about.
#[derive(Debug, Clone)]
pub struct OkxWsArg {
    pub channel: String,
    pub inst_id: Option<String>,
    pub inst_family: Option<String>,
}

/// A WebSocket message.
#[derive(Debug, Clone)]
pub struct OkxWsMessage {
    pub arg: OkxWsArg,
    pub data: Vec<serde_json::Value>,
}

/// An order book: prices and sizes.
#[derive(Debug, Clone)]
pub struct UnifiedOrderbook {
    pub symbol: String,
    pub bids: Vec<(Amount, Amount)>,
    pub asks: Vec<(Amount, Amount)>,
}

/// The amount in a text that the tree holds.
pub open spec fn tree_amount(t: JsonTree) -> Option<Amount> {
    match tree_text(t) {
        Some(s) => match amount_in(s) {
            Some(units) => Some(Amount { units: units as i64 }),
            None => None,
        },
        None => None,
    }
}

/// The price and the size of a level, where both are given as text that is a
/// number.
pub open spec fn level_of(t: JsonTree) -> Option<(Amount, Amount)> {
    match tree_items(t) {
        Some(l) => if l.len() >= 2 && tree_amount(l[0]) is Some && tree_amount(l[1]) is Some {
            Some((tree_amount(l[0])->0, tree_amount(l[1])->0))
        } else {
            None
        },
        None => None,
    }
}

/// The levels among the first `n` items that can be read.
pub open spec fn levels_of(items: Seq<JsonTree>, n: nat) -> Seq<(Amount, Amount)>
    decreases n,
{
    if n == 0 {
        Seq::empty()
    } else {
        let before = levels_of(items, (n - 1) as nat);
        match level_of(items[n - 1]) {
            Some(l) => before.push(l),
            None => before,
        }
    }
}

/// One side of an order book, where it is a list.
pub open spec fn side_of(t: JsonTree, key: Seq<char>) -> Option<Seq<(Amount, Amount)>> {
    match tree_get(t, key) {
        Some(x) => match tree_items(x) {
            Some(items) => Some(levels_of(items, items.len())),
            None => None,
        },
        None => None,
    }
}

fn read_amount(v: &serde_json::Value) -> (r: Option<Amount>)
    ensures
        r == tree_amount(held_json(*v)),
{
    match json_str(v) {
        Some(s) => parse_amount(s),
        None => None,
    }
}

fn read_level(v: &serde_json::Value) -> (r: Option<(Amount, Amount)>)
    ensures
        r == level_of(held_json(*v)),
{
    match json_items(v) {
        Some(items) => {
            if items.len() < 2 {
                return None;
            }
            let ghost l = tree_items(held_json(*v))->0;
            assert(l[0] == held_json(items@[0]) && l[1] == held_json(items@[1]));
            match (read_amount(&items[0]), read_amount(&items[1])) {
                (Some(price), Some(size)) => Some((price, size)),
                _ => None,
            }
        },
        None => None,
    }
}

fn read_side(v: &serde_json::Value, key: &str) -> (r: Option<Vec<(Amount, Amount)>>)
    ensures
        match r {
            Some(s) => side_of(held_json(*v), key@) == Some(s@),
            None => side_of(held_json(*v), key@) is None,
        },
{
    match json_get(v, key) {
        Some(x) => match json_items(x) {
            Some(items) => {
                let ghost all = held_list(items@);
                let mut out: Vec<(Amount, Amount)> = Vec::new();
                let mut i: usize = 0;
                assert(out@ =~= levels_of(all, 0));
                while i < items.len()
                    invariant
                        i <= items@.len(),
                        all == held_list(items@),
                        out@ == levels_of(all, i as nat),
                    decreases items@.len() - i,
                {
                    assert(all[i as int] == held_json(items@[i as int]));
                    if let Some(l) = read_level(&items[i]) {
                        out.push(l);
                    }
                    i += 1;
                }
                Some(out)
            },
            None => None,
        },
        None => None,
    }
}

/// Requests stand at least this far apart, in nanoseconds.
pub const REQUEST_GAP_NS: u64 = 50_000_000;

/// How long a request waits after the last one.
pub open spec fn pause_after(last: u64, now: u64) -> int {
    if now - last < REQUEST_GAP_NS {
        if now < last {
            REQUEST_GAP_NS as int
        } else {
            REQUEST_GAP_NS - (now - last)
        }
    } else {
        0
    }
}

/// Whether a tree has both sides of a book.
pub open spec fn has_sides(t: JsonTree) -> bool {
    side_of(t, "bids"@) is Some && side_of(t, "asks"@) is Some
}

/// Whether a book says what a tree does.
pub open spec fn is_book(t: JsonTree, b: UnifiedOrderbook) -> bool {
    &&& side_of(t, "bids"@) == Some(b.bids@)
    &&& side_of(t, "asks"@) == Some(b.asks@)
    &&& b.symbol@ == text_or(entry_text(t, "instId"@), Seq::empty())
}

/// The signature of a request.
pub open spec fn signature(
    secret: Seq<char>,
    timestamp: Seq<char>,
    method: Seq<char>,
    request_path: Seq<char>,
    body: Seq<char>,
) -> Seq<char> {
    base64_text(
        hmac_sha256_of(
            encode_utf8(secret),
            encode_utf8(timestamp + method + request_path + body),
        ),
    )
}

/// The headers of a signed request.
pub open spec fn auth_headers(
    c: OkxCredentials,
    account: OkxAccountType,
    timestamp: Seq<char>,
    method: Seq<char>,
    request_path: Seq<char>,
    body: Seq<char>,
) -> Map<Seq<char>, Seq<char>> {
    let m = Map::<Seq<char>, Seq<char>>::empty().insert("OK-ACCESS-KEY"@, c.api_key@).insert(
        "OK-ACCESS-SIGN"@,
        signature(c.api_secret@, timestamp, method, request_path, body),
    ).insert("OK-ACCESS-TIMESTAMP"@, timestamp).insert(
        "OK-ACCESS-PASSPHRASE"@,
        c.passphrase@,
    ).insert("Content-Type"@, "application/json"@);
    if account == OkxAccountType::Demo {
        m.insert("x-simulated-trading"@, "1"@)
    } else {
        m
    }
}

/// What a map of texts holds.
pub open spec fn header_views(m: Map<Seq<char>, String>) -> Map<Seq<char>, Seq<char>> {
    m.map_values(|s: String| s@)
}

/// The arguments of a login.
pub open spec fn login_args(c: OkxCredentials, timestamp: Seq<char>) -> JsonTree {
    JsonTree::List(
        seq![
            JsonTree::Object(
                Map::<Seq<char>, JsonTree>::empty().insert(
                    "apiKey"@,
                    JsonTree::Text(c.api_key@),
                ).insert("passphrase"@, JsonTree::Text(c.passphrase@)).insert(
                    "timestamp"@,
                    JsonTree::Text(timestamp),
                ).insert(
                    "sign"@,
                    JsonTree::Text(
                        signature(
                            c.api_secret@,
                            timestamp,
                            "GET"@,
                            "/users/self/verify"@,
                            ""@,
                        ),
                    ),
                ),
            ),
        ],
    )
}

/// The arguments of a subscription.
pub open spec fn channel_args(channel: Seq<char>, inst_id: Seq<char>) -> JsonTree {
    JsonTree::List(
        seq![
            JsonTree::Object(
                Map::<Seq<char>, JsonTree>::empty().insert(
                    "channel"@,
                    JsonTree::Text(channel),
                ).insert("instId"@, JsonTree::Text(inst_id)),
            ),
        ],
    )
}

/// The instrument that a symbol stands for: a pair with a slash between, or a
/// currency against the dollar.
pub open spec fn instrument_for(symbol: Seq<char>, inst_type: OkxInstType) -> InstrumentModel {
    let parts = split_on(symbol, '/');
    InstrumentModel {
        base_currency: if parts.len() == 2 {
            parts[0]
        } else {
            symbol
        },
        quote_currency: if parts.len() == 2 {
            parts[1]
        } else {
            "USDT"@
        },
        inst_type,
        expiry: None,
        strike: None,
        option_type: None,
    }
}

/// A connection to the exchange.
pub struct OkxGateway {
    pub credentials: Option<OkxCredentials>,
    pub account_type: OkxAccountType,
    pub base_url: String,
    pub ws_url: String,
    pub rate_limit_tokens: u32,
    /// When the last request was made, in nanoseconds.
    pub last_request_ns: u64,
    pub instrument_cache: Table<OkxInstrumentId>,
}

impl OkxGateway {
    /// No symbol is cached twice.
    pub open spec fn wf(&self) -> bool {
        self.instrument_cache.wf()
    }

    /// A gateway for an account.
    pub fn new(credentials: Option<OkxCredentials>, account_type: OkxAccountType) -> (g: Self)
        ensures
            g.wf(),
            g.credentials == credentials,
            g.account_type == account_type,
            g.base_url@ == "https://www.okx.com"@,
            g.ws_url@ == (match account_type {
                OkxAccountType::Demo => "wss://ws.okx.com:8443/ws/v5/public?brokerId=9999"@,
                OkxAccountType::Live => "wss://ws.okx.com:8443/ws/v5/private"@,
            }),
            g.rate_limit_tokens == 20,
            g.instrument_cache@ == Map::<Seq<char>, OkxInstrumentId>::empty(),
    {
        let ws_url = match account_type {
            OkxAccountType::Demo => "wss://ws.okx.com:8443/ws/v5/public?brokerId=9999",
            OkxAccountType::Live => "wss://ws.okx.com:8443/ws/v5/private",
        };
        OkxGateway {
            credentials,
            account_type,
            base_url: "https://www.okx.com".to_owned(),
            ws_url: ws_url.to_owned(),
            rate_limit_tokens: 20,
            last_request_ns: now_ns(),
            instrument_cache: Table::new(),
        }
    }

    /// The signature of a request.
    pub fn generate_signature(
        &self,
        timestamp: &str,
        method: &str,
        request_path: &str,
        body: &str,
    ) -> (r: String)
        requires
            self.credentials is Some,
        ensures
            r@ == signature(
                self.credentials->0.api_secret@,
                timestamp@,
                method@,
                request_path@,
                body@,
            ),
    {
        let mut message = timestamp.to_owned();
        message.push_str(method);
        message.push_str(request_path);
        message.push_str(body);
        match &self.credentials {
            Some(creds) => {
                let mac = hmac_sha256(
                    creds.api_secret.as_str().as_bytes(),
                    message.as_str().as_bytes(),
                );
                base64_encode(mac.as_slice())
            },
            None => String::new(),
        }
    }

    /// A moment in ISO notation.
    pub fn get_timestamp_iso_at(at: UtcInstant) -> (s: String)
        requires
            at.wf(),
        ensures
            s@ == iso_stamp(at),
            ends_with(s@, (seq!['T'] + time_of_day(at)).push('Z')),
            s@.len() > 0,
            s@.last() == 'Z',
            s@.contains('T'),
    {
        let s = iso_time(at);
        proof {
            let tail = (seq!['T'] + time_of_day(at)).push('Z');
            let n = s@.len() - tail.len();
            assert(tail[0] == 'T');
            assert(s@.skip(n)[0] == s@[n]);
            assert(s@.skip(n).last() == s@.last());
        }
        s
    }

    /// The current time in ISO notation.
    pub fn get_timestamp_iso() -> (s: String)
        ensures
            exists|at: UtcInstant|
                at.wf() && s@ == #[trigger] iso_stamp(at) && ends_with(
                    s@,
                    (seq!['T'] + time_of_day(at)).push('Z'),
                ),
            s@.len() > 0,
            s@.last() == 'Z',
            s@.contains('T'),
    {
        Self::get_timestamp_iso_at(utc_now())
    }

    /// The headers of a request that is signed at `timestamp`, where there are
    /// credentials.
    pub fn build_auth_headers_at(
        &self,
        method: &str,
        request_path: &str,
        body: &str,
        timestamp: &str,
    ) -> (r: Option<Table<String>>)
        ensures
            r is Some <==> self.credentials is Some,
            r matches Some(h) ==> h.wf() && header_views(h@) == auth_headers(
                self.credentials->0,
                self.account_type,
                timestamp@,
                method@,
                request_path@,
                body@,
            ),
    {
        match &self.credentials {
            Some(creds) => {
                let sign = self.generate_signature(timestamp, method, request_path, body);
                let mut headers: Table<String> = Table::new();
                let _ = headers.insert("OK-ACCESS-KEY".to_owned(), creds.api_key.clone());
                let _ = headers.insert("OK-ACCESS-SIGN".to_owned(), sign);
                let _ = headers.insert("OK-ACCESS-TIMESTAMP".to_owned(), timestamp.to_owned());
                let _ = headers.insert(
                    "OK-ACCESS-PASSPHRASE".to_owned(),
                    creds.passphrase.clone(),
                );
                let _ = headers.insert("Content-Type".to_owned(), "application/json".to_owned());
                if self.account_type == OkxAccountType::Demo {
                    let _ = headers.insert("x-simulated-trading".to_owned(), "1".to_owned());
                }
                assert(header_views(headers@) =~= auth_headers(
                    *creds,
                    self.account_type,
                    timestamp@,
                    method@,
                    request_path@,
                    body@,
                ));
                Some(headers)
            },
            None => None,
        }
    }

    /// The headers of a request, where there are credentials.
    pub fn build_auth_headers(&self, method: &str, request_path: &str, body: &str) -> (r: Option<
        Table<String>,
    >)
        ensures
            r is Some <==> self.credentials is Some,
            r matches Some(h) ==> h.wf() && exists|at: UtcInstant|
                at.wf() && header_views(h@) == #[trigger] auth_headers(
                    self.credentials->0,
                    self.account_type,
                    iso_stamp(at),
                    method@,
                    request_path@,
                    body@,
                ),
    {
        let timestamp = Self::get_timestamp_iso();
        self.build_auth_headers_at(method, request_path, body, timestamp.as_str())
    }

    /// The login that is signed at `timestamp`, where there are credentials.
    pub fn build_ws_auth_message_at(&self, timestamp: &str) -> (r: Option<String>)
        ensures
            r is Some <==> self.credentials is Some,
            r matches Some(s) ==> s@ == json_text(
                operation("login"@, login_args(self.credentials->0, timestamp@)),
            ),
    {
        match &self.credentials {
            Some(creds) => {
                let sign = self.generate_signature(timestamp, "GET", "/users/self/verify", "");
                let mut entry = json_object();
                json_insert(&mut entry, "apiKey", json_string(creds.api_key.as_str()));
                json_insert(&mut entry, "passphrase", json_string(creds.passphrase.as_str()));
                json_insert(&mut entry, "timestamp", json_string(timestamp));
                json_insert(&mut entry, "sign", json_string(sign.as_str()));
                let mut args: Vec<serde_json::Value> = Vec::new();
                args.push(entry);
                assert(held_list(args@) =~= login_args(*creds, timestamp@)->List_0);
                Some(render_json(&make_operation("login", json_array(args))))
            },
            None => None,
        }
    }

    /// The login, where there are credentials.
    pub fn build_ws_auth_message(&self) -> (r: Option<String>)
        ensures
            r is Some <==> self.credentials is Some,
            r matches Some(s) ==> exists|at: UtcInstant|
                at.wf() && s@ == json_text(
                    operation("login"@, #[trigger] login_args(self.credentials->0, iso_stamp(at))),
                ),
    {
        let timestamp = Self::get_timestamp_iso();
        self.build_ws_auth_message_at(timestamp.as_str())
    }

    fn subscription(channel: &str, inst_id: &str) -> (r: String)
        ensures
            r@ == json_text(operation("subscribe"@, channel_args(channel@, inst_id@))),
    {
        let mut entry = json_object();
        json_insert(&mut entry, "channel", json_string(channel));
        json_insert(&mut entry, "instId", json_string(inst_id));
        let mut args: Vec<serde_json::Value> = Vec::new();
        args.push(entry);
        assert(held_list(args@) =~= channel_args(channel@, inst_id@)->List_0);
        render_json(&make_operation("subscribe", json_array(args)))
    }

    /// The request that subscribes to an order book.
    pub fn subscribe_orderbook(&self, inst_id: &str) -> (r: String)
        ensures
            r@ == json_text(operation("subscribe"@, channel_args("books"@, inst_id@))),
    {
        Self::subscription("books", inst_id)
    }

    /// The request that subscribes to trades.
    pub fn subscribe_trades(&self, inst_id: &str) -> (r: String)
        ensures
            r@ == json_text(operation("subscribe"@, channel_args("trades"@, inst_id@))),
    {
        Self::subscription("trades", inst_id)
    }

    /// The request that subscribes to tickers.
    pub fn subscribe_tickers(&self, inst_id: &str) -> (r: String)
        ensures
            r@ == json_text(operation("subscribe"@, channel_args("tickers"@, inst_id@))),
    {
        Self::subscription("tickers", inst_id)
    }

    /// Method and address of the request that places an order.
    pub fn build_place_order_request(&self, request: &OkxPlaceOrderRequest) -> (r: (String, String))
        ensures
            r.0@ == "POST"@,
            r.1@ == self.base_url@ + "/api/v5/trade/order"@,
    {
        let mut url = self.base_url.clone();
        url.push_str("/api/v5/trade/order");
        ("POST".to_owned(), url)
    }

    /// Method and address of the request that cancels an order.
    pub fn build_cancel_order_request(&self, request: &OkxCancelOrderRequest) -> (r: (
        String,
        String,
    ))
        ensures
            r.0@ == "DELETE"@,
            r.1@ == self.base_url@ + "/api/v5/trade/cancel-order"@,
    {
        let mut url = self.base_url.clone();
        url.push_str("/api/v5/trade/cancel-order");
        ("DELETE".to_owned(), url)
    }

    /// How long to wait before the next request, in nanoseconds, as of `now`.
    pub fn rate_limit_wait_at(&self, now: u64) -> (wait: u64)
        ensures
            wait == pause_after(self.last_request_ns, now),
    {
        let elapsed: u64 = now.saturating_sub(self.last_request_ns);
        if elapsed < REQUEST_GAP_NS {
            REQUEST_GAP_NS - elapsed
        } else {
            0
        }
    }

    /// Takes note of a request at `now`: a token comes back, up to twenty.
    pub fn request_made_at(&mut self, now: u64)
        ensures
            *final(self) == (OkxGateway {
                rate_limit_tokens: if old(self).rate_limit_tokens < 20 {
                    (old(self).rate_limit_tokens + 1) as u32
                } else {
                    old(self).rate_limit_tokens
                },
                last_request_ns: now,
                ..*old(self)
            }),
    {
        if self.rate_limit_tokens < 20 {
            self.rate_limit_tokens = self.rate_limit_tokens + 1;
        }
        self.last_request_ns = now;
    }

    /// Remembers the instrument of a symbol.
    pub fn cache_instrument(&mut self, symbol: &str, inst_id: OkxInstrumentId)
        requires
            old(self).wf(),
        ensures
            final(self).wf(),
            final(self).instrument_cache@ == old(self).instrument_cache@.insert(symbol@, inst_id),
            *final(self) == (OkxGateway {
                instrument_cache: final(self).instrument_cache,
                ..*old(self)
            }),
    {
        let _ = self.instrument_cache.insert(symbol.to_owned(), inst_id);
    }

    /// The identifier of a symbol's instrument, which is remembered from the
    /// first time on.
    pub fn get_or_create_inst_id(&mut self, symbol: &str, inst_type: OkxInstType) -> (id: String)
        requires
            old(self).wf(),
        ensures
            final(self).wf(),
            old(self).instrument_cache@.contains_key(symbol@) ==> id@ == okx_id(
                old(self).instrument_cache@[symbol@]@,
            ) && final(self).instrument_cache@ == old(self).instrument_cache@,
            !old(self).instrument_cache@.contains_key(symbol@) ==> id@ == okx_id(
                instrument_for(symbol@, inst_type),
            ) && exists|i: OkxInstrumentId|
                i@ == instrument_for(symbol@, inst_type) && final(self).instrument_cache@
                    == #[trigger] old(self).instrument_cache@.insert(symbol@, i),
            *final(self) == (OkxGateway {
                instrument_cache: final(self).instrument_cache,
                ..*old(self)
            }),
    {
        if let Some(cached) = self.instrument_cache.get(symbol) {
            return cached.to_okx_id();
        }
        let parts = split(symbol, '/');
        let ghost all = split_on(symbol@, '/');
        assert(all.len() == parts@.len());
        let inst = if parts.len() == 2 {
            assert(all[0] == parts@[0]@ && all[1] == parts@[1]@);
            OkxInstrumentId {
                base_currency: parts[0].clone(),
                quote_currency: parts[1].clone(),
                inst_type,
                expiry: None,
                strike: None,
                option_type: None,
            }
        } else {
            OkxInstrumentId {
                base_currency: symbol.to_owned(),
                quote_currency: "USDT".to_owned(),
                inst_type,
                expiry: None,
                strike: None,
                option_type: None,
            }
        };
        let id = inst.to_okx_id();
        assert(inst@ == instrument_for(symbol@, inst_type));
        let _ = self.instrument_cache.insert(symbol.to_owned(), inst);
        id
    }

    /// Reads an order book: nothing where one of the sides is missing. Levels
    /// that cannot be read are left out.
    pub fn parse_orderbook(&self, data: &serde_json::Value) -> (r: Option<UnifiedOrderbook>)
        ensures
            r is Some <==> has_sides(held_json(*data)),
            r matches Some(b) ==> is_book(held_json(*data), b),
    {
        let bids = read_side(data, "bids")?;
        let asks = read_side(data, "asks")?;
        let symbol = match get_text(data, "instId") {
            Some(s) => s,
            None => String::new(),
        };
        Some(UnifiedOrderbook { symbol, bids, asks })
    }
}

} // verus!
