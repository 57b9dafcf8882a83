//! An order gateway over a FIX session: orders and cancels are sent while the
//! session is logged on and wait otherwise; execution reports are read.

use vstd::prelude::*;
use crate::base::amount::Amount;
use crate::base::clock::{fix_stamp, fix_time, utc_now, UtcInstant};
use crate::base::table::Table;
use crate::base::text::views;
use crate::fix::fix_parser::{amount_field, text_field, FixParser};
use crate::fix::fix_session::{FixSession, SessionConfig, SessionModel, SessionState};
use crate::fix::message_builder::{
    cancel_fields, encoded, new_order_fields, sealed, FixMessageBuilder, NewOrderTerms,
};
use crate::fix::tags;

verus! {

/// Side of an order.
#[derive(Debug, Clone, Copy, PartialEq, Eq, Structural)]
pub enum OrderSide {
    Buy,
    Sell,
}

impl OrderSide {
    /// The character that stands for a side.
    pub open spec fn fix_char(self) -> char {
        match self {
            OrderSide::Buy => '1',
            OrderSide::Sell => '2',
        }
    }

    /// The character that stands for this side.
    pub fn to_fix_char(&self) -> (c: char)
        ensures
            c == self.fix_char(),
    {
        match self {
            OrderSide::Buy => '1',
            OrderSide::Sell => '2',
        }
    }
}

/// Type of an order.
#[derive(Debug, Clone, Copy, PartialEq, Eq, Structural)]
pub enum OrderType {
    Market,
    Limit,
    StopLimit,
}

impl OrderType {
    /// The character that stands for an order type.
    pub open spec fn fix_char(self) -> char {
        match self {
            OrderType::Market => '1',
            OrderType::Limit => '2',
            OrderType::StopLimit => '3',
        }
    }

    /// The character that stands for this order type.
    pub fn to_fix_char(&self) -> (c: char)
        ensures
            c == self.fix_char(),
    {
        match self {
            OrderType::Market => '1',
            OrderType::Limit => '2',
            OrderType::StopLimit => '3',
        }
    }
}

/// How long an order stays in force.
#[derive(Debug, Clone, Copy, PartialEq, Eq, Structural)]
pub enum TimeInForce {
    Day,
    GTC,
    IOC,
    FOK,
    GTD,
}

impl TimeInForce {
    /// The character that stands for a time in force.
    pub open spec fn fix_char(self) -> char {
        match self {
            TimeInForce::Day => '0',
            TimeInForce::GTC => '3',
            TimeInForce::IOC => '4',
            TimeInForce::FOK => '5',
            TimeInForce::GTD => '6',
        }
    }

    /// The character that stands for this time in force.
    pub fn to_fix_char(&self) -> (c: char)
        ensures
            c == self.fix_char(),
    {
        match self {
            TimeInForce::Day => '0',
            TimeInForce::GTC => '3',
            TimeInForce::IOC => '4',
            TimeInForce::FOK => '5',
            TimeInForce::GTD => '6',
        }
    }
}

/// No two sides, order types or times in force share a character.
pub proof fn law_fix_chars_distinct(
    a: OrderSide,
    b: OrderSide,
    c: OrderType,
    d: OrderType,
    e: TimeInForce,
    f: TimeInForce,
)
    ensures
        a.fix_char() == b.fix_char() ==> a == b,
        c.fix_char() == d.fix_char() ==> c == d,
        e.fix_char() == f.fix_char() ==> e == f,
{
}

/// Status of an order.
#[derive(Debug, Clone, Copy, PartialEq, Eq, Structural)]
pub enum OrderStatus {
    New,
    PartiallyFilled,
    Filled,
    Cancelled,
    Rejected,
    PendingNew,
    PendingCancel,
}

/// An order.
#[derive(Debug, Clone)]
pub struct Order {
    pub order_id: String,
    pub client_order_id: String,
    pub symbol: String,
    pub side: OrderSide,
    pub order_type: OrderType,
    pub quantity: Amount,
    pub price: Option<Amount>,
    pub time_in_force: TimeInForce,
    pub account: String,
    pub exchange: String,
    /// When the order was made, in nanoseconds.
    pub created_at_ns: u64,
}

/// What the exchange reports of an order.
#[derive(Debug, Clone)]
pub struct ExecutionReport {
    pub order_id: String,
    pub client_order_id: String,
    pub exec_type: char,
    pub ord_status: OrderStatus,
    pub symbol: String,
    pub side: OrderSide,
    pub leaves_qty: Amount,
    pub cum_qty: Amount,
    pub last_qty: Amount,
    pub last_price: Amount,
    pub transact_time: String,
}

/// What an execution report holds.
pub struct ReportModel {
    pub order_id: Seq<char>,
    pub client_order_id: Seq<char>,
    pub exec_type: char,
    pub ord_status: OrderStatus,
    pub symbol: Seq<char>,
    pub side: OrderSide,
    pub leaves_qty: Amount,
    pub cum_qty: Amount,
    pub last_qty: Amount,
    pub last_price: Amount,
    pub transact_time: Seq<char>,
}

impl View for ExecutionReport {
    type V = ReportModel;

    open spec fn view(&self) -> ReportModel {
        ReportModel {
            order_id: self.order_id@,
            client_order_id: self.client_order_id@,
            exec_type: self.exec_type,
            ord_status: self.ord_status,
            symbol: self.symbol@,
            side: self.side,
            leaves_qty: self.leaves_qty,
            cum_qty: self.cum_qty,
            last_qty: self.last_qty,
            last_price: self.last_price,
            transact_time: self.transact_time@,
        }
    }
}

/// Errors of the gateway.
#[derive(Debug, Clone, Copy, PartialEq, Eq, Structural)]
pub enum GatewayError {
    OrderNotFound,
    SessionNotConnected,
    InvalidOrder,
    SequenceGap,
    ParseError,
}

impl GatewayError {
    /// The error in words.
    pub open spec fn text(self) -> Seq<char> {
        match self {
            GatewayError::OrderNotFound => "Order not found"@,
            GatewayError::SessionNotConnected => "FIX session not connected"@,
            GatewayError::InvalidOrder => "Invalid order parameters"@,
            GatewayError::SequenceGap => "FIX sequence gap detected"@,
            GatewayError::ParseError => "FIX parse error"@,
        }
    }

    /// The error in words.
    pub fn to_string(&self) -> (s: String)
        ensures
            s@ == self.text(),
    {
        match self {
            GatewayError::OrderNotFound => "Order not found".to_owned(),
            GatewayError::SessionNotConnected => "FIX session not connected".to_owned(),
            GatewayError::InvalidOrder => "Invalid order parameters".to_owned(),
            GatewayError::SequenceGap => "FIX sequence gap detected".to_owned(),
            GatewayError::ParseError => "FIX parse error".to_owned(),
        }
    }
}

/// The status that a character stands for; `New` for an unknown one.
pub open spec fn status_for(c: char) -> OrderStatus {
    if c == '1' {
        OrderStatus::PartiallyFilled
    } else if c == '2' {
        OrderStatus::Filled
    } else if c == '4' {
        OrderStatus::Cancelled
    } else if c == '8' {
        OrderStatus::Rejected
    } else if c == '6' {
        OrderStatus::PendingNew
    } else if c == '7' {
        OrderStatus::PendingCancel
    } else {
        OrderStatus::New
    }
}

/// The text in a field, or an empty one.
pub open spec fn text_or_empty(fields: Seq<(u32, Seq<u8>)>, tag: u32) -> Seq<char> {
    match text_field(fields, tag) {
        Some(s) => s,
        None => Seq::empty(),
    }
}

/// The first character of the text in a field, or another one.
pub open spec fn first_char_or(fields: Seq<(u32, Seq<u8>)>, tag: u32, other: char) -> char {
    match text_field(fields, tag) {
        Some(s) => if s.len() > 0 {
            s[0]
        } else {
            other
        },
        None => other,
    }
}

/// The amount in a field, or zero.
pub open spec fn amount_or_zero(fields: Seq<(u32, Seq<u8>)>, tag: u32) -> Amount {
    match amount_field(fields, tag) {
        Some(a) => a,
        None => Amount { units: 0 },
    }
}

/// The report that a message makes.
pub open spec fn report_of(fields: Seq<(u32, Seq<u8>)>) -> ReportModel {
    ReportModel {
        order_id: text_or_empty(fields, tags::ORDER_ID),
        client_order_id: text_or_empty(fields, tags::CL_ORD_ID),
        exec_type: first_char_or(fields, tags::EXEC_TYPE, '0'),
        ord_status: status_for(first_char_or(fields, tags::ORD_STATUS, '0')),
        symbol: text_or_empty(fields, tags::SYMBOL),
        side: if first_char_or(fields, tags::SIDE, '1') == '2' {
            OrderSide::Sell
        } else {
            OrderSide::Buy
        },
        leaves_qty: amount_or_zero(fields, tags::LEAVES_QTY),
        cum_qty: amount_or_zero(fields, tags::CUM_QTY),
        last_qty: amount_or_zero(fields, tags::LAST_QTY),
        last_price: amount_or_zero(fields, tags::LAST_PRICE),
        transact_time: text_or_empty(fields, tags::TRANSACT_TIME),
    }
}

/// What an order tells the exchange. A market order has the price zero.
pub open spec fn terms_of(o: Order) -> NewOrderTerms {
    NewOrderTerms {
        cl_ord_id: o.client_order_id@,
        symbol: o.symbol@,
        side: o.side.fix_char(),
        order_qty: o.quantity,
        price: match o.price {
            Some(p) => p,
            None => Amount { units: 0 },
        },
        ord_type: o.order_type.fix_char(),
        time_in_force: o.time_in_force.fix_char(),
        account: o.account@,
        exchange: o.exchange@,
    }
}

/// What a gateway holds.
pub struct GatewayModel {
    pub session: SessionModel,
    pub orders: Map<Seq<char>, Order>,
    pub pending_orders: Seq<Order>,
    pub pending_cancels: Seq<Seq<char>>,
}

impl GatewayModel {
    /// Whether messages can be sent.
    pub open spec fn online(self) -> bool {
        self.session.state == SessionState::LoggedOn
    }

    /// The gateway once an order was submitted at `now`.
    pub open spec fn submitted(self, order: Order, now: Seq<char>) -> GatewayModel {
        if self.online() {
            GatewayModel {
                session: self.session.queued(
                    encoded(
                        sealed(
                            new_order_fields(
                                self.session.sender,
                                self.session.target,
                                self.session.outgoing_seq,
                                now,
                                terms_of(order),
                            ),
                        ),
                    ),
                ),
                orders: self.orders.insert(order.client_order_id@, order),
                ..self
            }
        } else {
            GatewayModel { pending_orders: self.pending_orders.push(order), ..self }
        }
    }

    /// The gateway once a cancel was asked for at `now`.
    pub open spec fn cancelling(self, id: Seq<char>, now: Seq<char>) -> GatewayModel {
        if !self.orders.contains_key(id) {
            self
        } else if self.online() {
            let o = self.orders[id];
            GatewayModel {
                session: self.session.queued(
                    encoded(
                        sealed(
                            cancel_fields(
                                self.session.sender,
                                self.session.target,
                                self.session.outgoing_seq,
                                now,
                                o.client_order_id@ + "-CANCEL"@,
                                o.client_order_id@,
                                o.symbol@,
                                o.side.fix_char(),
                                o.account@,
                            ),
                        ),
                    ),
                ),
                ..self
            }
        } else {
            GatewayModel { pending_cancels: self.pending_cancels.push(id), ..self }
        }
    }

    /// The gateway once the first `n` of some orders were submitted.
    pub open spec fn all_submitted(self, orders: Seq<Order>, n: nat, now: Seq<char>) -> GatewayModel
        decreases n,
    {
        if n == 0 {
            self
        } else {
            self.all_submitted(orders, (n - 1) as nat, now).submitted(orders[n - 1], now)
        }
    }

    /// The gateway once cancels were asked for the first `n` of some orders.
    pub open spec fn all_cancelling(
        self,
        ids: Seq<Seq<char>>,
        n: nat,
        now: Seq<char>,
    ) -> GatewayModel
        decreases n,
    {
        if n == 0 {
            self
        } else {
            self.all_cancelling(ids, (n - 1) as nat, now).cancelling(ids[n - 1], now)
        }
    }

    /// The gateway once everything that waits was tried again.
    pub open spec fn flushed(self, now: Seq<char>) -> GatewayModel {
        let emptied = GatewayModel { pending_orders: Seq::empty(), ..self };
        let sent = emptied.all_submitted(self.pending_orders, self.pending_orders.len(), now);
        let waiting = sent.pending_cancels;
        (GatewayModel { pending_cancels: Seq::empty(), ..sent }).all_cancelling(
            waiting,
            waiting.len(),
            now,
        )
    }
}

/// Submitting while logged on sends exactly one message per order and leaves
/// no order waiting; while not logged on, every order waits and nothing is
/// sent.
pub proof fn law_flush_sends_all(
    g: GatewayModel,
    orders: Seq<Order>,
    n: nat,
    now: Seq<char>,
)
    requires
        n <= orders.len(),
    ensures
        g.online() == g.all_submitted(orders, n, now).online(),
        g.online() ==> g.all_submitted(orders, n, now).session.outbox.len()
            == g.session.outbox.len() + n && g.all_submitted(orders, n, now).pending_orders
            == g.pending_orders,
        !g.online() ==> g.all_submitted(orders, n, now).session == g.session
            && g.all_submitted(orders, n, now).pending_orders == g.pending_orders + orders.take(
            n as int,
        ),
    decreases n,
{
    if n > 0 {
        law_flush_sends_all(g, orders, (n - 1) as nat, now);
        assert(orders.take(n as int) =~= orders.take(n - 1).push(orders[n - 1]));
        assert(g.pending_orders + orders.take(n as int) =~= (g.pending_orders + orders.take(
            n - 1,
        )).push(orders[n - 1]));
    } else {
        assert(orders.take(0) =~= Seq::empty());
        assert(g.pending_orders + orders.take(0) =~= g.pending_orders);
    }
}

/// Routes orders over a FIX session.
pub struct FixGateway {
    pub session: FixSession,
    pub orders: Table<Order>,
    /// Reports for the strategy engine, oldest first.
    pub executions: Vec<ExecutionReport>,
    pub pending_orders: Vec<Order>,
    pub pending_cancels: Vec<String>,
}

impl View for FixGateway {
    type V = GatewayModel;

    open spec fn view(&self) -> GatewayModel {
        GatewayModel {
            session: self.session@,
            orders: self.orders@,
            pending_orders: self.pending_orders@,
            pending_cancels: views(self.pending_cancels@),
        }
    }
}

fn text_or(parser: &FixParser, tag: u32) -> (s: String)
    requires
        parser.wf(),
    ensures
        s@ == text_or_empty(parser@, tag),
{
    match parser.text(tag) {
        Some(s) => s,
        None => String::new(),
    }
}

fn char_or(parser: &FixParser, tag: u32, other: char) -> (c: char)
    requires
        parser.wf(),
    ensures
        c == first_char_or(parser@, tag, other),
{
    match parser.text(tag) {
        Some(s) => {
            if s.as_str().unicode_len() > 0 {
                s.as_str().get_char(0)
            } else {
                other
            }
        },
        None => other,
    }
}

fn amount_or(parser: &FixParser, tag: u32) -> (a: Amount)
    requires
        parser.wf(),
    ensures
        a == amount_or_zero(parser@, tag),
{
    match parser.amount(tag) {
        Some(a) => a,
        None => Amount::zero(),
    }
}

impl ExecutionReport {
    fn duplicate(&self) -> (r: Self)
        ensures
            r@ == self@,
    {
        ExecutionReport {
            order_id: self.order_id.clone(),
            client_order_id: self.client_order_id.clone(),
            exec_type: self.exec_type,
            ord_status: self.ord_status,
            symbol: self.symbol.clone(),
            side: self.side,
            leaves_qty: self.leaves_qty,
            cum_qty: self.cum_qty,
            last_qty: self.last_qty,
            last_price: self.last_price,
            transact_time: self.transact_time.clone(),
        }
    }
}

/// What a queue of reports holds.
pub open spec fn reports(v: Seq<ExecutionReport>) -> Seq<ReportModel> {
    Seq::new(v.len(), |i: int| v[i]@)
}

/// The keys of a table's entries.
pub open spec fn keys(s: Seq<(String, Order)>) -> Seq<Seq<char>> {
    Seq::new(s.len(), |i: int| s[i].0@)
}

/// The orders among the entries that rest in a book.
pub open spec fn resting(s: Seq<(String, Order)>) -> Seq<Order>
    decreases s.len(),
{
    if s.len() == 0 {
        Seq::empty()
    } else if s.last().1.order_type == OrderType::Market {
        resting(s.drop_last())
    } else {
        resting(s.drop_last()).push(s.last().1)
    }
}

impl FixGateway {
    /// No two orders have one identifier, and the parser's fields lie in its
    /// buffer.
    pub open spec fn wf(&self) -> bool {
        self.session.wf() && self.orders.wf()
    }

    /// A gateway over a new session.
    pub fn new(config: SessionConfig) -> (g: Self)
        ensures
            g.wf(),
            g.session.config == config,
            g.session.state == SessionState::Disconnected,
            g@.orders == Map::<Seq<char>, Order>::empty(),
            g.executions@.len() == 0,
            g.pending_orders@.len() == 0,
            g.pending_cancels@.len() == 0,
            g.session.outgoing_seq == 1,
            g.session.incoming_seq == 1,
            g.session.test_request_counter == 0,
            g.session.outbox@.len() == 0,
            !g.session.shutdown,
            g.session.parser.is_new(),
    {
        FixGateway {
            session: FixSession::new(config),
            orders: Table::new(),
            executions: Vec::new(),
            pending_orders: Vec::new(),
            pending_cancels: Vec::new(),
        }
    }

    fn send_new_order_single(&mut self, order: &Order, now: &str)
        ensures
            final(self).session@ == old(self).session@.queued(
                encoded(
                    sealed(
                        new_order_fields(
                            old(self).session@.sender,
                            old(self).session@.target,
                            old(self).session@.outgoing_seq,
                            now@,
                            terms_of(*order),
                        ),
                    ),
                ),
            ),
            final(self).session.parser == old(self).session.parser,
            final(self).session.config == old(self).session.config,
            *final(self) == (FixGateway { session: final(self).session, ..*old(self) }),
    {
        let mut builder = FixMessageBuilder::new(
            self.session.config.sender_comp_id.as_str(),
            self.session.config.target_comp_id.as_str(),
            self.session.outgoing_seq,
        );
        let price = match order.price {
            Some(p) => p,
            None => Amount::zero(),
        };
        let message = builder.build_new_order_single_at(
            order.client_order_id.as_str(),
            order.symbol.as_str(),
            order.side.to_fix_char(),
            order.quantity,
            price,
            order.order_type.to_fix_char(),
            order.time_in_force.to_fix_char(),
            order.account.as_str(),
            order.exchange.as_str(),
            now,
        );
        self.session.queue(message);
    }

    /// Submits an order at `now`: it is sent, or waits for the session.
    pub fn submit_order_at(&mut self, order: Order, now: &str) -> (r: Result<(), GatewayError>)
        requires
            old(self).wf(),
        ensures
            final(self).wf(),
            final(self)@ == old(self)@.submitted(order, now@),
            final(self).executions == old(self).executions,
            final(self).session.config == old(self).session.config,
            final(self).session.parser == old(self).session.parser,
            r is Ok,
    {
        if !self.session.is_logged_on() {
            self.pending_orders.push(order);
            return Ok(());
        }
        self.send_new_order_single(&order, now);
        let _ = self.orders.insert(order.client_order_id.clone(), order);
        Ok(())
    }

    /// Submits an order.
    pub fn submit_order(&mut self, order: Order) -> (r: Result<(), GatewayError>)
        requires
            old(self).wf(),
        ensures
            final(self).wf(),
            exists|sent: UtcInstant|
                sent.wf() && final(self)@ == #[trigger] old(self)@.submitted(
                    order,
                    fix_stamp(sent),
                ),
            final(self).executions == old(self).executions,
            final(self).session.config == old(self).session.config,
            final(self).session.parser == old(self).session.parser,
            r is Ok,
    {
        let now = fix_time(utc_now());
        self.submit_order_at(order, now.as_str())
    }

    /// Asks at `now` to cancel an order. Refused where the order is unknown.
    pub fn cancel_order_at(&mut self, client_order_id: &str, now: &str) -> (r: Result<
        (),
        GatewayError,
    >)
        requires
            old(self).wf(),
        ensures
            final(self).wf(),
            final(self)@ == old(self)@.cancelling(client_order_id@, now@),
            final(self).executions == old(self).executions,
            final(self).orders == old(self).orders,
            final(self).session.config == old(self).session.config,
            final(self).session.parser == old(self).session.parser,
            r == (if old(self)@.orders.contains_key(client_order_id@) {
                Ok::<(), GatewayError>(())
            } else {
                Err::<(), GatewayError>(GatewayError::OrderNotFound)
            }),
    {
        match self.orders.find(client_order_id) {
            None => Err(GatewayError::OrderNotFound),
            Some(i) => {
                if !self.session.is_logged_on() {
                    let ghost before = views(self.pending_cancels@);
                    self.pending_cancels.push(client_order_id.to_owned());
                    assert(views(self.pending_cancels@) =~= before.push(client_order_id@));
                    return Ok(());
                }
                let mut builder = FixMessageBuilder::new(
                    self.session.config.sender_comp_id.as_str(),
                    self.session.config.target_comp_id.as_str(),
                    self.session.outgoing_seq,
                );
                let order = &self.orders.entries[i].1;
                let mut cancel_id = order.client_order_id.clone();
                cancel_id.push_str("-CANCEL");
                let message = builder.build_order_cancel_request_at(
                    cancel_id.as_str(),
                    order.client_order_id.as_str(),
                    order.symbol.as_str(),
                    order.side.to_fix_char(),
                    order.account.as_str(),
                    now,
                );
                self.session.queue(message);
                Ok(())
            },
        }
    }

    /// Asks to cancel an order.
    pub fn cancel_order(&mut self, client_order_id: &str) -> (r: Result<(), GatewayError>)
        requires
            old(self).wf(),
        ensures
            final(self).wf(),
            exists|sent: UtcInstant|
                sent.wf() && final(self)@ == #[trigger] old(self)@.cancelling(
                    client_order_id@,
                    fix_stamp(sent),
                ),
            final(self).executions == old(self).executions,
            final(self).orders == old(self).orders,
            final(self).session.config == old(self).session.config,
            final(self).session.parser == old(self).session.parser,
            r == (if old(self)@.orders.contains_key(client_order_id@) {
                Ok::<(), GatewayError>(())
            } else {
                Err::<(), GatewayError>(GatewayError::OrderNotFound)
            }),
    {
        let now = fix_time(utc_now());
        self.cancel_order_at(client_order_id, now.as_str())
    }

    /// Reads an execution report and hands it to the strategy engine.
    pub fn process_execution_report(&mut self, parser: &FixParser) -> (r: Result<
        Option<ExecutionReport>,
        GatewayError,
    >)
        requires
            parser.wf(),
        ensures
            r is Ok,
            r->Ok_0 is Some,
            r->Ok_0->0@ == report_of(parser@),
            reports(final(self).executions@) == reports(old(self).executions@).push(
                report_of(parser@),
            ),
            *final(self) == (FixGateway { executions: final(self).executions, ..*old(self) }),
    {
        let order_id = text_or(parser, tags::ORDER_ID);
        let client_order_id = text_or(parser, tags::CL_ORD_ID);
        let exec_type = char_or(parser, tags::EXEC_TYPE, '0');
        let ord_status = match char_or(parser, tags::ORD_STATUS, '0') {
            '0' => OrderStatus::New,
            '1' => OrderStatus::PartiallyFilled,
            '2' => OrderStatus::Filled,
            '4' => OrderStatus::Cancelled,
            '8' => OrderStatus::Rejected,
            '6' => OrderStatus::PendingNew,
            '7' => OrderStatus::PendingCancel,
            _ => OrderStatus::New,
        };
        let symbol = text_or(parser, tags::SYMBOL);
        let side = match char_or(parser, tags::SIDE, '1') {
            '2' => OrderSide::Sell,
            _ => OrderSide::Buy,
        };
        let leaves_qty = amount_or(parser, tags::LEAVES_QTY);
        let cum_qty = amount_or(parser, tags::CUM_QTY);
        let last_qty = amount_or(parser, tags::LAST_QTY);
        let last_price = amount_or(parser, tags::LAST_PRICE);
        let transact_time = text_or(parser, tags::TRANSACT_TIME);
        let report = ExecutionReport {
            order_id,
            client_order_id,
            exec_type,
            ord_status,
            symbol,
            side,
            leaves_qty,
            cum_qty,
            last_qty,
            last_price,
            transact_time,
        };
        let ghost before = reports(self.executions@);
        self.executions.push(report.duplicate());
        assert(reports(self.executions@) =~= before.push(report@));
        Ok(Some(report))
    }

    /// Tries everything that waits again, at `now`.
    pub fn flush_pending_orders_at(&mut self, now: &str) -> (r: Result<(), GatewayError>)
        requires
            old(self).wf(),
        ensures
            final(self).wf(),
            final(self)@ == old(self)@.flushed(now@),
            final(self).executions == old(self).executions,
            final(self).session.config == old(self).session.config,
            final(self).session.parser == old(self).session.parser,
            r is Ok,
    {
        let ghost g0 = self@;
        let mut pending: Vec<Order> = Vec::new();
        std::mem::swap(&mut pending, &mut self.pending_orders);
        let ghost all = pending@;
        let ghost emptied = GatewayModel { pending_orders: Seq::empty(), ..g0 };
        assert(self@ == emptied);
        while pending.len() > 0
            invariant
                pending@.len() <= all.len(),
                pending@ == all.skip(all.len() - pending@.len()),
                self.wf(),
                self@ == emptied.all_submitted(all, (all.len() - pending@.len()) as nat, now@),
                self.executions == old(self).executions,
                self.session.config == old(self).session.config,
                self.session.parser == old(self).session.parser,
            decreases pending@.len(),
        {
            let ghost k = all.len() - pending@.len();
            let order = pending.remove(0);
            assert(order == all[k]);
            assert(pending@ =~= all.skip(k + 1));
            let _ = self.submit_order_at(order, now);
        }
        let ghost sent = self@;
        let mut cancels: Vec<String> = Vec::new();
        std::mem::swap(&mut cancels, &mut self.pending_cancels);
        let ghost ids = views(cancels@);
        let ghost start = GatewayModel { pending_cancels: Seq::empty(), ..sent };
        assert(views(self.pending_cancels@) =~= Seq::empty());
        let mut i: usize = 0;
        while i < cancels.len()
            invariant
                i <= cancels@.len(),
                ids == views(cancels@),
                self.wf(),
                self@ == start.all_cancelling(ids, i as nat, now@),
                self.executions == old(self).executions,
                self.session.config == old(self).session.config,
                self.session.parser == old(self).session.parser,
            decreases cancels@.len() - i,
        {
            let _ = self.cancel_order_at(cancels[i].as_str(), now);
            i += 1;
        }
        Ok(())
    }

    /// Tries everything that waits again.
    pub fn flush_pending_orders(&mut self) -> (r: Result<(), GatewayError>)
        requires
            old(self).wf(),
        ensures
            final(self).wf(),
            exists|sent: UtcInstant|
                sent.wf() && final(self)@ == #[trigger] old(self)@.flushed(fix_stamp(sent)),
            final(self).executions == old(self).executions,
            final(self).session.config == old(self).session.config,
            final(self).session.parser == old(self).session.parser,
            r is Ok,
    {
        let now = fix_time(utc_now());
        self.flush_pending_orders_at(now.as_str())
    }

    /// An order by its identifier.
    pub fn get_order(&self, client_order_id: &str) -> (r: Option<&Order>)
        requires
            self.wf(),
        ensures
            r is Some <==> self@.orders.contains_key(client_order_id@),
            r matches Some(o) ==> *o == self@.orders[client_order_id@],
    {
        self.orders.get(client_order_id)
    }

    /// The orders that rest in a book: all but market orders.
    pub fn get_active_orders(&self) -> (r: Vec<&Order>)
        ensures
            r@.unref() == resting(self.orders.entries@),
    {
        let ghost all = self.orders.entries@;
        let mut r: Vec<&Order> = Vec::new();
        let mut i: usize = 0;
        assert(all.take(0) =~= Seq::empty());
        assert(r@.unref() =~= Seq::empty());
        while i < self.orders.entries.len()
            invariant
                i <= all.len(),
                all == self.orders.entries@,
                r@.unref() == resting(all.take(i as int)),
            decreases all.len() - i,
        {
            let ghost before = r@.unref();
            assert(all.take(i + 1).drop_last() =~= all.take(i as int));
            match self.orders.entries[i].1.order_type {
                OrderType::Limit | OrderType::StopLimit => {
                    r.push(&self.orders.entries[i].1);
                    assert(r@.unref() =~= before.push(all[i as int].1));
                },
                _ => {},
            }
            i += 1;
        }
        assert(all.take(all.len() as int) =~= all);
        r
    }

    /// Whether messages can be sent.
    pub fn is_connected(&self) -> (r: bool)
        ensures
            r == self@.online(),
    {
        self.session.is_logged_on()
    }

    /// Ends the session. Since nothing can be sent any more, a cancel of every
    /// order waits.
    pub fn shutdown(&mut self)
        requires
            old(self).wf(),
        ensures
            final(self).wf(),
            final(self).session == (FixSession {
                shutdown: true,
                state: SessionState::LogoutSent,
                ..old(self).session
            }),
            final(self).orders == old(self).orders,
            final(self).pending_orders == old(self).pending_orders,
            final(self).executions == old(self).executions,
            views(final(self).pending_cancels@) == views(old(self).pending_cancels@) + keys(
                old(self).orders.entries@,
            ),
    {
        self.session.shutdown();
        let ghost before = views(self.pending_cancels@);
        let ghost ids = keys(self.orders.entries@);
        let mut i: usize = 0;
        assert(before + ids.take(0) =~= before);
        while i < self.orders.entries.len()
            invariant
                i <= self.orders.entries@.len(),
                ids == keys(self.orders.entries@),
                views(self.pending_cancels@) == before + ids.take(i as int),
                *self == (FixGateway {
                    session: (FixSession {
                        shutdown: true,
                        state: SessionState::LogoutSent,
                        ..old(self).session
                    }),
                    pending_cancels: self.pending_cancels,
                    ..*old(self)
                }),
            decreases self.orders.entries@.len() - i,
        {
            let ghost so_far = views(self.pending_cancels@);
            self.pending_cancels.push(self.orders.entries[i].0.clone());
            assert(views(self.pending_cancels@) =~= so_far.push(ids[i as int]));
            assert(before + ids.take(i + 1) =~= (before + ids.take(i as int)).push(ids[i as int]));
            i += 1;
        }
        assert(ids.take(ids.len() as int) =~= ids);
    }
}

} // verus!
