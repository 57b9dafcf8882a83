//! What orders, messages and scores say once they are put into the words of a
//! venue.

use vstd::prelude::*;
use crate::base::amount::{plain_text, Amount};
use crate::base::json::{entry_number, entry_text, entry_unsigned, tree_get, tree_number, tree_text, tree_unsigned, JsonTree};
use crate::base::text::{contains_part, split_on};
use crate::gateways::bybit_ws::{auth_args, levels, orderbook_topic};
use crate::gateways::derivatives_ws::{
    all_subscriptions, channel_subscriptions, level_of, message_of, subscription, MessageModel,
    ReconnectAction,
};
use crate::gateways::okx_gateway::{
    auth_headers, channel_args, instrument_for, login_args, okx_id, signature, InstrumentModel,
    OkxAccountType, OkxCredentials, OkxInstType,
};
use crate::gateways::unified_router::{
    bybit_category, default_symbol, is_binance_order, is_bybit_order, is_okx_order, optional_view,
    registered_symbol, BinanceOrder, BybitOrder, OKXOrder, UnifiedOrder, UnifiedOrderType,
    UnifiedRouter, UnifiedSide, UnifiedTimeInForce, Venue, VenueOrder, VenueStats, VenueSymbols,
};

verus! {

/// An order for Binance buys where the order buys and sells where it sells, of
/// the same type, quantity, price and name, and lasts as long.
pub proof fn law_binance_order_says_the_same(o: UnifiedOrder, symbol: Seq<char>, b: BinanceOrder)
    requires
        is_binance_order(o, symbol, b),
    ensures
        o.side == UnifiedSide::Buy ==> b.side@ == "BUY"@,
        o.side == UnifiedSide::Sell ==> b.side@ == "SELL"@,
        b.symbol@ == symbol,
        b.new_client_order_id@ == o.client_order_id@,
        b.quantity@ == plain_text(o.quantity.units as int),
        o.price is Some ==> b.price is Some && b.price->0@ == plain_text(o.price->0.units as int),
        o.price is None ==> b.price is None,
        o.order_type == UnifiedOrderType::Market ==> b.order_type@ == "MARKET"@ && b.time_in_force
            is None,
        o.order_type == UnifiedOrderType::Limit ==> b.order_type@ == "LIMIT"@ && b.time_in_force
            is Some,
        o.order_type == UnifiedOrderType::StopLimit ==> b.order_type@ == "STOP_LOSS_LIMIT"@
            && b.time_in_force is Some && b.time_in_force->0@ == "GTC"@,
        o.order_type == UnifiedOrderType::StopMarket ==> b.order_type@ == "STOP_LOSS"@
            && b.time_in_force is Some && b.time_in_force->0@ == "GTC"@,
        o.order_type == UnifiedOrderType::Limit ==> {
            &&& o.time_in_force == UnifiedTimeInForce::GTC ==> b.time_in_force->0@ == "GTC"@
            &&& o.time_in_force == UnifiedTimeInForce::IOC ==> b.time_in_force->0@ == "IOC"@
            &&& o.time_in_force == UnifiedTimeInForce::FOK ==> b.time_in_force->0@ == "FOK"@
            &&& o.time_in_force == UnifiedTimeInForce::Day ==> b.time_in_force->0@ == "DAY"@
            &&& o.time_in_force == UnifiedTimeInForce::GTD ==> b.time_in_force->0@ == "GTC"@
        },
        o.reduce_only ==> b.reduce_only == Some(true),
        !o.reduce_only ==> b.reduce_only is None,
{
}

/// An order for Bybit says the same in its words.
pub proof fn law_bybit_order_says_the_same(o: UnifiedOrder, symbol: Seq<char>, b: BybitOrder)
    requires
        is_bybit_order(o, symbol, b),
    ensures
        o.side == UnifiedSide::Buy ==> b.side@ == "Buy"@,
        o.side == UnifiedSide::Sell ==> b.side@ == "Sell"@,
        b.symbol@ == symbol,
        b.order_id is Some && b.order_id->0@ == o.client_order_id@,
        b.qty@ == plain_text(o.quantity.units as int),
        o.price is Some ==> b.price is Some && b.price->0@ == plain_text(o.price->0.units as int),
        o.price is None ==> b.price is None,
        o.order_type == UnifiedOrderType::Market ==> b.order_type@ == "Market"@,
        o.order_type != UnifiedOrderType::Market ==> b.order_type@ == "Limit"@,
        o.time_in_force == UnifiedTimeInForce::IOC ==> b.time_in_force@ == "ImmediateOrCancel"@,
        o.time_in_force == UnifiedTimeInForce::FOK ==> b.time_in_force@ == "FillOrKill"@,
        o.time_in_force != UnifiedTimeInForce::IOC && o.time_in_force != UnifiedTimeInForce::FOK
            ==> b.time_in_force@ == "GoodTillCancel"@,
        o.reduce_only ==> b.reduce_only == Some(true),
        !o.reduce_only ==> b.reduce_only is None,
{
}

/// An order for OKX says the same in its words.
pub proof fn law_okx_order_says_the_same(o: UnifiedOrder, symbol: Seq<char>, b: OKXOrder)
    requires
        is_okx_order(o, symbol, b),
    ensures
        o.side == UnifiedSide::Buy ==> b.side@ == "buy"@,
        o.side == UnifiedSide::Sell ==> b.side@ == "sell"@,
        b.inst_id@ == symbol,
        b.cl_ord_id is Some && b.cl_ord_id->0@ == o.client_order_id@,
        b.sz@ == plain_text(o.quantity.units as int),
        o.price is Some ==> b.px is Some && b.px->0@ == plain_text(o.price->0.units as int),
        o.price is None ==> b.px is None,
        o.order_type == UnifiedOrderType::Market || o.order_type == UnifiedOrderType::StopMarket
            ==> b.ord_type@ == "market"@,
        o.order_type == UnifiedOrderType::Limit || o.order_type == UnifiedOrderType::StopLimit
            ==> b.ord_type@ == "limit"@,
        o.reduce_only ==> b.td_mode@ == "isolated_margin"@,
        !o.reduce_only ==> b.td_mode@ == "cash"@,
{
}

/// On every venue, a buy order and a sell order are sent with different sides.
pub proof fn law_sides_differ(
    buy: UnifiedOrder,
    sell: UnifiedOrder,
    symbol: Seq<char>,
    binance: (BinanceOrder, BinanceOrder),
    bybit: (BybitOrder, BybitOrder),
    okx: (OKXOrder, OKXOrder),
)
    requires
        buy.side == UnifiedSide::Buy,
        sell.side == UnifiedSide::Sell,
        is_binance_order(buy, symbol, binance.0),
        is_binance_order(sell, symbol, binance.1),
        is_bybit_order(buy, symbol, bybit.0),
        is_bybit_order(sell, symbol, bybit.1),
        is_okx_order(buy, symbol, okx.0),
        is_okx_order(sell, symbol, okx.1),
    ensures
        binance.0.side@ != binance.1.side@,
        bybit.0.side@ != bybit.1.side@,
        okx.0.side@ != okx.1.side@,
{
    reveal_strlit("BUY");
    assert("BUY"@.len() == 3);
    reveal_strlit("SELL");
    assert("SELL"@.len() == 4);
    reveal_strlit("Buy");
    assert("Buy"@.len() == 3);
    reveal_strlit("Sell");
    assert("Sell"@.len() == 4);
    reveal_strlit("buy");
    assert("buy"@.len() == 3);
    reveal_strlit("sell");
    assert("sell"@.len() == 4);
}

/// Each venue has its own name and its own symbol, and its own figures.
pub proof fn law_venues_kept_apart(s: VenueSymbols, r: UnifiedRouter)
    ensures
        Venue::Binance.name() == "binance"@,
        Venue::Bybit.name() == "bybit"@,
        Venue::OKX.name() == "okx"@,
        s.at(Venue::Binance) == optional_view(s.binance),
        s.at(Venue::Bybit) == optional_view(s.bybit),
        s.at(Venue::OKX) == optional_view(s.okx),
        r.stats(Venue::Binance) == r.binance_stats,
        r.stats(Venue::Bybit) == r.bybit_stats,
        r.stats(Venue::OKX) == r.okx_stats,
{
}

/// A registered symbol of a venue is used there; without one, OKX writes the
/// pair with a hyphen for each slash and the others in capitals.
pub proof fn law_symbol_at_venue(r: UnifiedRouter, symbol: Seq<char>, venue: Venue)
    ensures
        registered_symbol(r.symbol_mappings@, symbol, venue) is Some ==> Some(
            r.venue_symbol(symbol, venue),
        ) == registered_symbol(r.symbol_mappings@, symbol, venue),
        registered_symbol(r.symbol_mappings@, symbol, venue) is None ==> r.venue_symbol(
            symbol,
            venue,
        ) == default_symbol(symbol, venue),
        r.symbol_mappings@.contains_key(symbol) ==> registered_symbol(
            r.symbol_mappings@,
            symbol,
            venue,
        ) == r.symbol_mappings@[symbol].at(venue),
        !r.symbol_mappings@.contains_key(symbol) ==> registered_symbol(
            r.symbol_mappings@,
            symbol,
            venue,
        ) is None,
        venue == Venue::OKX ==> default_symbol(symbol, venue).len() == symbol.len() && forall|
            i: int,
        |
            0 <= i < symbol.len() ==> #[trigger] default_symbol(symbol, venue)[i] == (if symbol[i]
                == '/' {
                '-'
            } else {
                symbol[i]
            }),
{
}

/// A venue that answers faster scores lower, and so does one that charges less
/// where fees count; where they do not count, only the time decides.
pub proof fn law_lower_score_is_better(a: VenueStats, b: VenueStats)
    ensures
        a.latency_us < b.latency_us ==> a.score(false) < b.score(false),
        a.latency_us == b.latency_us ==> a.score(false) == b.score(false),
        a.latency_us < b.latency_us && a.taker_fee.units <= b.taker_fee.units ==> a.score(true)
            < b.score(true),
        a.latency_us == b.latency_us && a.taker_fee.units < b.taker_fee.units ==> a.score(true)
            < b.score(true),
        a.latency_us + 1 == b.latency_us && a.taker_fee.units == b.taker_fee.units + 100_000
            ==> a.score(true) == b.score(true),
{
}

/// Where venues are compared, no other answers faster, or charges less in the
/// same time, than the one that is picked; where they are not, it is the
/// default one.
pub proof fn law_picked_venue_is_best(r: UnifiedRouter, picked: Venue, other: Venue)
    requires
        r.picks(picked),
    ensures
        !r.config.smart_routing_enabled ==> picked == r.config.default_venue,
        r.config.smart_routing_enabled && !r.config.fee_optimization_enabled ==> r.stats(
            picked,
        ).latency_us <= r.stats(other).latency_us,
        r.config.smart_routing_enabled && r.config.fee_optimization_enabled ==> r.stats(
            picked,
        ).latency_us < r.stats(other).latency_us || r.stats(picked).taker_fee.units <= r.stats(
            other,
        ).taker_fee.units,
        r.config.smart_routing_enabled && r.stats(Venue::Binance) == r.stats(Venue::Bybit)
            && r.stats(Venue::Bybit) == r.stats(Venue::OKX) ==> picked == Venue::Binance,
{
    assert(r.score(picked) <= r.score(other) || !r.config.smart_routing_enabled);
}

/// A venue's time and rate of success move by a tenth towards the latest ones.
pub proof fn law_venue_figures_move(s: VenueStats, latency: u64, success: bool, now: u64)
    requires
        0 <= s.success_rate.units <= 100_000_000,
    ensures
        ({
            let n = s.updated(latency, success, now);
            &&& 10 * n.latency_us <= 9 * s.latency_us + latency < 10 * n.latency_us + 10
            &&& success ==> 10 * n.success_rate.units <= 9 * s.success_rate.units + 100_000_000 < 10
                * n.success_rate.units + 10
            &&& !success ==> 10 * n.success_rate.units <= 9 * s.success_rate.units < 10
                * n.success_rate.units + 10
            &&& 0 <= n.success_rate.units <= 100_000_000
            &&& n.maker_fee == s.maker_fee
            &&& n.taker_fee == s.taker_fee
            &&& n.last_update_ns == now
        }),
{
}

/// Pairs against the dollar that are not perpetual are linear.
pub proof fn law_bybit_category(symbol: Seq<char>)
    ensures
        contains_part(symbol, "USDT"@) && !contains_part(
            symbol,
            "PERP"@,
        ) ==> bybit_category(symbol) == "linear"@,
        !contains_part(symbol, "USDT"@) && contains_part(
            symbol,
            "2"@,
        ) ==> bybit_category(symbol) == "option"@,
        !contains_part(symbol, "USDT"@) && !contains_part(
            symbol,
            "2"@,
        ) ==> bybit_category(symbol) == "spot"@,
{
}

/// The topic of a book names its depth and its symbol.
pub proof fn law_book_topic(symbol: Seq<char>, depth: usize)
    ensures
        depth == 1 ==> orderbook_topic(symbol, depth) == "orderbook.1."@ + symbol,
        depth == 50 ==> orderbook_topic(symbol, depth) == "orderbook.50."@ + symbol,
        depth != 1 && depth != 50 ==> orderbook_topic(symbol, depth) == "orderbook.500."@ + symbol,
{
}

/// A level of a Bybit book is its price and then its quantity.
pub proof fn law_bybit_level(v: Seq<[String; 2]>, i: int)
    requires
        0 <= i < v.len(),
    ensures
        levels(v).len() == v.len(),
        levels(v)[i].0 == crate::base::decimals::amount_or_zero(v[i]@[0]@),
        levels(v)[i].1 == crate::base::decimals::amount_or_zero(v[i]@[1]@),
{
}

/// A Bybit login gives the key, the time, the window of five seconds and the
/// signature, in this order.
pub proof fn law_bybit_login(key: Seq<char>, secret: Seq<char>, timestamp: u64)
    ensures
        auth_args(key, secret, timestamp) is List,
        ({
            let l = auth_args(key, secret, timestamp)->List_0;
            &&& l.len() == 4
            &&& tree_text(l[0]) == Some(key)
            &&& tree_unsigned(l[1]) == Some(timestamp)
            &&& tree_unsigned(l[2]) == Some(5000u64)
            &&& tree_text(l[3]) == Some(
                crate::gateways::bybit_ws::signature(secret, timestamp, 5000),
            )
        }),
{
}

/// A spot instrument is named by its pair, a swap and a future without expiry by
/// the word behind it, a future by its expiry, and an option by expiry, strike
/// and kind.
pub proof fn law_instrument_names(i: InstrumentModel)
    ensures
        i.inst_type == OkxInstType::Spot ==> okx_id(i) == i.base_currency + "-"@
            + i.quote_currency,
        i.inst_type == OkxInstType::Swap ==> okx_id(i) == i.base_currency + "-"@ + i.quote_currency
            + "-SWAP"@,
        i.inst_type == OkxInstType::Futures && i.expiry is Some ==> okx_id(i) == i.base_currency
            + "-"@ + i.quote_currency + "-"@ + i.expiry->0,
        i.inst_type == OkxInstType::Futures && i.expiry is None ==> okx_id(i) == i.base_currency
            + "-"@ + i.quote_currency + "-FUTURES"@,
        i.inst_type == OkxInstType::Option && i.expiry is Some && i.strike is Some && i.option_type
            is Some ==> okx_id(i) == i.base_currency + "-"@ + i.quote_currency + "-"@ + i.expiry->0
            + "-"@ + i.strike->0 + "-"@ + i.option_type->0,
        i.inst_type == OkxInstType::Option && i.option_type is None && i.expiry is Some && i.strike
            is Some ==> okx_id(i) == i.base_currency + "-"@ + i.quote_currency + "-"@ + i.expiry->0
            + "-"@ + i.strike->0 + "-"@ + "C"@,
{
}

/// An instrument that is made for a symbol has no expiry, strike or kind, and
/// is of the wanted type.
pub proof fn law_instrument_for_symbol(symbol: Seq<char>, t: OkxInstType)
    ensures
        instrument_for(symbol, t).inst_type == t,
        instrument_for(symbol, t).expiry is None,
        instrument_for(symbol, t).strike is None,
        instrument_for(symbol, t).option_type is None,
        split_on(symbol, '/').len() == 2 ==> instrument_for(
            symbol,
            t,
        ).base_currency == split_on(symbol, '/')[0] && instrument_for(
            symbol,
            t,
        ).quote_currency == split_on(symbol, '/')[1],
        split_on(symbol, '/').len() != 2 ==> instrument_for(
            symbol,
            t,
        ).base_currency == symbol && instrument_for(symbol, t).quote_currency == "USDT"@,
{
}

/// The headers of a request to OKX hold the key, the passphrase, the time and
/// the signature of time, method, path and body under the secret; a demo
/// account is marked, a live one is not.
pub proof fn law_okx_headers(
    c: OkxCredentials,
    account: OkxAccountType,
    timestamp: Seq<char>,
    method: Seq<char>,
    path: Seq<char>,
    body: Seq<char>,
)
    ensures
        ({
            let h = auth_headers(c, account, timestamp, method, path, body);
            &&& h.contains_key("OK-ACCESS-KEY"@) && h["OK-ACCESS-KEY"@] == c.api_key@
            &&& h.contains_key("OK-ACCESS-SIGN"@) && h["OK-ACCESS-SIGN"@] == signature(
                c.api_secret@,
                timestamp,
                method,
                path,
                body,
            )
            &&& h.contains_key("OK-ACCESS-TIMESTAMP"@) && h["OK-ACCESS-TIMESTAMP"@] == timestamp
            &&& h.contains_key("OK-ACCESS-PASSPHRASE"@) && h["OK-ACCESS-PASSPHRASE"@]
                == c.passphrase@
            &&& h.contains_key("Content-Type"@) && h["Content-Type"@] == "application/json"@
            &&& h.contains_key("x-simulated-trading"@) <==> account == OkxAccountType::Demo
            &&& account == OkxAccountType::Demo ==> h["x-simulated-trading"@] == "1"@
        }),
{
    reveal_strlit("OK-ACCESS-KEY");
    assert("OK-ACCESS-KEY"@.len() == 13);
    reveal_strlit("OK-ACCESS-SIGN");
    assert("OK-ACCESS-SIGN"@.len() == 14);
    reveal_strlit("OK-ACCESS-TIMESTAMP");
    assert("OK-ACCESS-TIMESTAMP"@.len() == 19);
    reveal_strlit("OK-ACCESS-PASSPHRASE");
    assert("OK-ACCESS-PASSPHRASE"@.len() == 20);
    reveal_strlit("Content-Type");
    assert("Content-Type"@.len() == 12);
    reveal_strlit("x-simulated-trading");
    assert("x-simulated-trading"@.len() == 19);
    assert("OK-ACCESS-TIMESTAMP"@[0] == 'O' && "x-simulated-trading"@[0] == 'x');
}

/// A login at OKX gives key, passphrase, time and the signature of the time with
/// the path of the login.
pub proof fn law_okx_login(c: OkxCredentials, timestamp: Seq<char>)
    ensures
        login_args(c, timestamp) is List,
        login_args(c, timestamp)->List_0.len() == 1,
        ({
            let t = login_args(c, timestamp)->List_0[0];
            &&& tree_get(t, "apiKey"@) == Some(JsonTree::Text(c.api_key@))
            &&& tree_get(t, "passphrase"@) == Some(JsonTree::Text(c.passphrase@))
            &&& tree_get(t, "timestamp"@) == Some(JsonTree::Text(timestamp))
            &&& tree_get(t, "sign"@) == Some(
                JsonTree::Text(
                    signature(c.api_secret@, timestamp, "GET"@, "/users/self/verify"@, ""@),
                ),
            )
        }),
{
    reveal_strlit("apiKey");
    assert("apiKey"@.len() == 6);
    reveal_strlit("passphrase");
    assert("passphrase"@.len() == 10);
    reveal_strlit("timestamp");
    assert("timestamp"@.len() == 9);
    reveal_strlit("sign");
    assert("sign"@.len() == 4);
}

/// A subscription names its channel and its instrument.
pub proof fn law_subscriptions_name_channel(channel: Seq<char>, name: Seq<char>)
    ensures
        channel_args(channel, name) is List,
        channel_args(channel, name)->List_0.len() == 1,
        tree_get(channel_args(channel, name)->List_0[0], "channel"@) == Some(
            JsonTree::Text(channel),
        ),
        tree_get(channel_args(channel, name)->List_0[0], "instId"@) == Some(JsonTree::Text(name)),
        tree_get(subscription(channel, name), "channel"@) == Some(JsonTree::Text(channel)),
        tree_get(subscription(channel, name), "symbol"@) == Some(JsonTree::Text(name)),
{
    reveal_strlit("channel");
    assert("channel"@.len() == 7);
    reveal_strlit("instId");
    assert("instId"@.len() == 6);
    reveal_strlit("symbol");
    assert("symbol"@.len() == 6);
}

/// A level of an options chain that comes as a list has its parts in this order:
/// strike, expiry, kind, bid and its size, ask and its size, volatility, time.
pub proof fn law_level_in_list(l: Seq<JsonTree>)
    ensures
        level_of(JsonTree::List(l)) is Some <==> l.len() == 9 && tree_number(l[0]) is Some
            && tree_text(l[1]) is Some && tree_text(l[2]) is Some && tree_number(l[3]) is Some
            && tree_number(l[4]) is Some && tree_number(l[5]) is Some && tree_number(l[6]) is Some
            && tree_number(l[7]) is Some && tree_unsigned(l[8]) is Some,
        level_of(JsonTree::List(l)) is Some ==> ({
            let x = level_of(JsonTree::List(l))->0;
            &&& tree_number(l[0]) == Some(x.strike)
            &&& tree_text(l[1]) == Some(x.expiry)
            &&& tree_text(l[2]) == Some(x.option_type)
            &&& tree_number(l[3]) == Some(x.bid_price)
            &&& tree_number(l[4]) == Some(x.bid_size)
            &&& tree_number(l[5]) == Some(x.ask_price)
            &&& tree_number(l[6]) == Some(x.ask_size)
            &&& tree_number(l[7]) == Some(x.mark_iv)
            &&& tree_unsigned(l[8]) == Some(x.timestamp_ns)
        }),
{
}

/// A level that comes as an object has its parts under their names.
pub proof fn law_level_in_object(m: Map<Seq<char>, JsonTree>)
    ensures
        ({
            let t = JsonTree::Object(m);
            level_of(t) is Some <==> entry_number(t, "strike"@) is Some && entry_text(
                t,
                "expiry"@,
            ) is Some && entry_text(t, "option_type"@) is Some && entry_number(
                t,
                "bid_price"@,
            ) is Some && entry_number(t, "bid_size"@) is Some && entry_number(
                t,
                "ask_price"@,
            ) is Some && entry_number(t, "ask_size"@) is Some && entry_number(
                t,
                "mark_iv"@,
            ) is Some && entry_unsigned(t, "timestamp_ns"@) is Some
        }),
        level_of(JsonTree::Object(m)) is Some ==> ({
            let t = JsonTree::Object(m);
            let x = level_of(t)->0;
            &&& entry_number(t, "strike"@) == Some(x.strike)
            &&& entry_text(t, "expiry"@) == Some(x.expiry)
            &&& entry_text(t, "option_type"@) == Some(x.option_type)
            &&& entry_number(t, "bid_price"@) == Some(x.bid_price)
            &&& entry_number(t, "bid_size"@) == Some(x.bid_size)
            &&& entry_number(t, "ask_price"@) == Some(x.ask_price)
            &&& entry_number(t, "ask_size"@) == Some(x.ask_size)
            &&& entry_number(t, "mark_iv"@) == Some(x.mark_iv)
            &&& entry_unsigned(t, "timestamp_ns"@) == Some(x.timestamp_ns)
        }),
{
}

/// A heartbeat is read first, with its time; a rate of funding, an open interest
/// and a liquidation tell what stands under their names.
pub proof fn law_messages_tell_their_entries(t: JsonTree)
    ensures
        entry_text(t, "op"@) == Some("heartbeat"@)
            && entry_unsigned(t, "ts"@) is Some ==> message_of(t) == Some(
            MessageModel::Heartbeat(entry_unsigned(t, "ts"@)->0),
        ),
        message_of(t) matches Some(MessageModel::FundingRate { symbol, rate, timestamp_ns }) ==> {
            &&& entry_number(t, "funding_rate"@) == Some(rate)
            &&& entry_text(t, "symbol"@) is Some
                ==> entry_text(t, "symbol"@) == Some(symbol)
            &&& entry_unsigned(t, "timestamp"@) is Some
                ==> entry_unsigned(t, "timestamp"@) == Some(timestamp_ns)
        },
        message_of(t) matches Some(MessageModel::OpenInterest { symbol, oi, oi_usd, timestamp_ns })
            ==> {
            &&& entry_number(t, "open_interest"@) == Some(oi)
            &&& entry_number(t, "open_interest_usd"@) is Some
                ==> entry_number(t, "open_interest_usd"@) == Some(oi_usd)
            &&& entry_text(t, "symbol"@) is Some
                ==> entry_text(t, "symbol"@) == Some(symbol)
            &&& entry_unsigned(t, "timestamp"@) is Some
                ==> entry_unsigned(t, "timestamp"@) == Some(timestamp_ns)
        },
        message_of(t) matches Some(
            MessageModel::Liquidation { symbol, side, quantity, price, value_usd },
        ) ==> {
            let l = tree_get(t, "liquidation"@)->0;
            &&& tree_get(t, "liquidation"@) is Some
            &&& entry_text(l, "symbol"@) is Some
                ==> entry_text(l, "symbol"@) == Some(symbol)
            &&& entry_text(l, "side"@) is Some ==> entry_text(
                l,
                "side"@,
            ) == Some(side)
            &&& entry_number(l, "quantity"@) is Some
                ==> entry_number(l, "quantity"@) == Some(quantity)
            &&& entry_number(l, "price"@) is Some
                ==> entry_number(l, "price"@) == Some(price)
            &&& entry_number(l, "value_usd"@) is Some
                ==> entry_number(l, "value_usd"@) == Some(value_usd)
        },
{
}

/// Bids stay bids and asks stay asks, whichever venue a book comes from.
pub proof fn law_books_keep_sides(
    s: crate::gateways::bybit_ws::OrderbookSnapshot,
    b: crate::gateways::bybit_ws::UnifiedOrderbook,
    t: JsonTree,
    o: crate::gateways::okx_gateway::UnifiedOrderbook,
)
    requires
        crate::gateways::bybit_ws::is_book(s, b),
        crate::gateways::okx_gateway::is_book(t, o),
    ensures
        b.bids@ == levels(s.b@),
        b.asks@ == levels(s.a@),
        b.symbol@ == s.s@,
        b.update_id == s.u,
        b.sequence == s.seq,
        crate::gateways::okx_gateway::has_sides(t),
        crate::gateways::okx_gateway::side_of(t, "bids"@) == Some(o.bids@),
        crate::gateways::okx_gateway::side_of(t, "asks"@) == Some(o.asks@),
        entry_text(t, "instId"@) is Some ==> entry_text(t, "instId"@) == Some(o.symbol@),
{
}

/// A level of an OKX book is its price and then its quantity, and one that
/// cannot be read is left out.
pub proof fn law_okx_levels(items: Seq<JsonTree>, n: nat, l: Seq<JsonTree>)
    requires
        n < items.len(),
    ensures
        crate::gateways::okx_gateway::levels_of(items, 0).len() == 0,
        crate::gateways::okx_gateway::level_of(items[n as int]) matches Some(x)
            ==> crate::gateways::okx_gateway::levels_of(items, n + 1)
            == crate::gateways::okx_gateway::levels_of(items, n).push(x),
        crate::gateways::okx_gateway::level_of(items[n as int]) is None
            ==> crate::gateways::okx_gateway::levels_of(items, n + 1)
            == crate::gateways::okx_gateway::levels_of(items, n),
        crate::gateways::okx_gateway::level_of(JsonTree::List(l)) matches Some(x) ==> l.len() >= 2
            && crate::gateways::okx_gateway::tree_amount(l[0]) == Some(x.0)
            && crate::gateways::okx_gateway::tree_amount(l[1]) == Some(x.1),
{
}

/// Requests lie a tenth of a second apart at Bybit, and the waits between
/// attempts to connect double up to a minute.
pub proof fn law_pauses(last: u64, now: u64, delay: u64)
    ensures
        last <= now && now - last < 100_000_000 ==> now
            + crate::gateways::bybit_ws::pause_after(last, now) == last + 100_000_000,
        now - last >= 100_000_000 ==> crate::gateways::bybit_ws::pause_after(last, now) == 0,
        now < last ==> crate::gateways::bybit_ws::pause_after(last, now) == 100_000_000,
        2 * delay <= 60_000 ==> crate::gateways::bybit_ws::next_delay(delay) == 2 * delay,
        2 * delay >= 60_000 ==> crate::gateways::bybit_ws::next_delay(delay) == 60_000,
{
}

/// Requests lie a twentieth of a second apart at OKX.
pub proof fn law_okx_pauses(last: u64, now: u64)
    ensures
        last <= now && now - last < 50_000_000 ==> now
            + crate::gateways::okx_gateway::pause_after(last, now) == last + 50_000_000,
        now - last >= 50_000_000 ==> crate::gateways::okx_gateway::pause_after(last, now) == 0,
        now < last ==> crate::gateways::okx_gateway::pause_after(last, now) == 50_000_000,
{
}

/// A connection that ended well is made again at once and its failures are
/// forgotten; one that failed waits a second for each failure in a row, half a
/// minute at most, until there are as many as allowed.
pub proof fn law_reconnections(failures: u32, limit: u32)
    ensures
        crate::gateways::derivatives_ws::failures_after(failures, true) == 0,
        crate::gateways::derivatives_ws::failures_after(failures, false) == failures + 1,
        crate::gateways::derivatives_ws::reconnection(failures, limit, true)
            == (ReconnectAction::Retry { wait_secs: 0 }),
        failures + 1 < limit && failures < 30 ==> crate::gateways::derivatives_ws::reconnection(
            failures,
            limit,
            false,
        ) == (ReconnectAction::Retry { wait_secs: (failures + 1) as u64 }),
        failures + 1 < limit && failures >= 30 ==> crate::gateways::derivatives_ws::reconnection(
            failures,
            limit,
            false,
        ) == (ReconnectAction::Retry { wait_secs: 30 }),
        failures + 1 >= limit ==> crate::gateways::derivatives_ws::reconnection(
            failures,
            limit,
            false,
        ) == ReconnectAction::GiveUp,
{
}

/// An order goes to its own venue, in the words of that venue and under its
/// symbol there; one without a venue goes to Binance, or to the default venue
/// where venues are not compared.
pub proof fn law_order_goes_to_its_venue(r: UnifiedRouter, o: UnifiedOrder, v: VenueOrder)
    requires
        r.translates(o, v),
    ensures
        o.venue == Venue::Binance ==> (v matches VenueOrder::Binance(b) && b.symbol@
            == r.venue_symbol(o.symbol@, Venue::Binance) && b.quantity@ == plain_text(
            o.quantity.units as int,
        )),
        o.venue == Venue::Bybit ==> (v matches VenueOrder::Bybit(b) && b.symbol@ == r.venue_symbol(
            o.symbol@,
            Venue::Bybit,
        ) && b.qty@ == plain_text(o.quantity.units as int)),
        o.venue == Venue::OKX ==> (v matches VenueOrder::OKX(b) && b.inst_id@ == r.venue_symbol(
            o.symbol@,
            Venue::OKX,
        ) && b.sz@ == plain_text(o.quantity.units as int)),
        r.venue_or(Some(o.venue)) == o.venue,
        r.config.smart_routing_enabled ==> r.venue_or(None) == Venue::Binance,
        !r.config.smart_routing_enabled ==> r.venue_or(None) == r.config.default_venue,
{
}

/// Every symbol of every channel is subscribed to, and nothing else is.
pub proof fn law_every_subscription(
    s: Seq<(String, Vec<String>)>,
    i: int,
    j: int,
    t: JsonTree,
    n: nat,
)
    requires
        n <= s.len(),
    ensures
        0 <= i < n && 0 <= j < s[i].1@.len() ==> all_subscriptions(s, n).contains(
            subscription(s[i].0@, s[i].1@[j]@),
        ),
        all_subscriptions(s, n).contains(t) ==> exists|a: int, b: int|
            0 <= a < n && 0 <= b < s[a].1@.len() && t == #[trigger] subscription(
                s[a].0@,
                s[a].1@[b]@,
            ),
    decreases n,
{
    if n > 0 {
        let before = all_subscriptions(s, (n - 1) as nat);
        let c = s[n - 1].0@;
        let names = s[n - 1].1@;
        let more = channel_subscriptions(c, names, names.len());
        law_every_subscription(s, i, j, t, (n - 1) as nat);
        lemma_channel_subscriptions(c, names, names.len());
        let all = all_subscriptions(s, n);
        assert(all =~= before + more);
        if 0 <= i < n && 0 <= j < s[i].1@.len() {
            let x = subscription(s[i].0@, s[i].1@[j]@);
            if i < n - 1 {
                let k = choose|k: int| 0 <= k < before.len() && before[k] == x;
                assert(all[k] == x);
            } else {
                assert(all[before.len() + j] == more[j]);
            }
        }
        if all.contains(t) {
            let k = choose|k: int| 0 <= k < all.len() && all[k] == t;
            if k < before.len() {
                assert(before[k] == t);
            } else {
                let b = k - before.len();
                assert(more[b] == t);
                assert(t == subscription(s[n - 1].0@, s[n - 1].1@[b]@));
            }
        }
    }
}

proof fn lemma_channel_subscriptions(channel: Seq<char>, symbols: Seq<String>, n: nat)
    requires
        n <= symbols.len(),
    ensures
        channel_subscriptions(channel, symbols, n).len() == n,
        forall|i: int|
            0 <= i < n ==> #[trigger] channel_subscriptions(channel, symbols, n)[i] == subscription(
                channel,
                symbols[i]@,
            ),
    decreases n,
{
    if n > 0 {
        lemma_channel_subscriptions(channel, symbols, (n - 1) as nat);
    }
}

} // verus!
