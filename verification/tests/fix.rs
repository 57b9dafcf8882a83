use trading_core::base::amount::Amount;
use trading_core::fix::fix_gateway::{
    FixGateway, GatewayError, Order, OrderSide, OrderStatus, OrderType, TimeInForce,
};
use trading_core::fix::fix_parser::{fast_atoi, FixMessageType, FixParseError, FixParser};
use trading_core::fix::fix_session::{FixSession, SessionConfig, SessionState};
use trading_core::fix::message_builder::FixMessageBuilder;
use trading_core::fix::tags;

fn amt(x: f64) -> Amount {
    Amount { units: (x * 1e8).round() as i64 }
}

fn config() -> SessionConfig {
    SessionConfig {
        sender_comp_id: "ME".to_string(),
        target_comp_id: "EXCH".to_string(),
        host: "fix.example.com".to_string(),
        port: 9876,
        heart_bt_sec: 30,
        reconnect_delay_ms: 1000,
        logon_timeout_sec: 10,
        max_seq_gap: 100,
    }
}

fn order(id: &str) -> Order {
    Order {
        order_id: "".to_string(),
        client_order_id: id.to_string(),
        symbol: "BTC-USD".to_string(),
        side: OrderSide::Buy,
        order_type: OrderType::Limit,
        quantity: amt(1.5),
        price: Some(amt(50_000.0)),
        time_in_force: TimeInForce::GTC,
        account: "ACC".to_string(),
        exchange: "EX".to_string(),
        created_at_ns: 0,
    }
}

#[test]
fn test_order_side_conversion() {
    assert_eq!(OrderSide::Buy.to_fix_char(), '1');
    assert_eq!(OrderSide::Sell.to_fix_char(), '2');
}

#[test]
fn test_order_type_conversion() {
    assert_eq!(OrderType::Limit.to_fix_char(), '2');
    assert_eq!(OrderType::Market.to_fix_char(), '1');
}

#[test]
fn test_time_in_force_conversion() {
    assert_eq!(TimeInForce::GTC.to_fix_char(), '3');
    assert_eq!(TimeInForce::IOC.to_fix_char(), '4');
}

#[test]
fn test_fix_parser() {
    let mut parser = FixParser::new(4096);
    let msg = b"8=FIX.4.4\x019=69\x0135=0\x0149=SENDER\x0156=TARGET\x0134=123\x0152=20231201-12:00:00\x01112=test\x0110=123\x01";
    assert!(parser.parse(msg).unwrap());
    assert_eq!(parser.get_msg_type(), Some(FixMessageType::Heartbeat));
    let sender = parser.get_field(tags::SENDER_COMP_ID).unwrap();
    assert_eq!(sender.value_str().unwrap(), "SENDER");
}

#[test]
fn test_fast_atoi() {
    assert_eq!(fast_atoi(b"12345"), Some(12345));
    assert_eq!(fast_atoi(b"-12345"), Some(-12345));
    assert_eq!(fast_atoi(b"0"), Some(0));
    assert_eq!(fast_atoi(b""), None);
    assert_eq!(fast_atoi(b"abc"), None);
}

#[test]
fn header_fields_are_read() {
    let mut parser = FixParser::new(4096);
    let msg = b"8=FIX.4.4\x019=69\x0135=0\x0149=SENDER\x0156=TARGET\x0134=123\x0152=20231201-12:00:00\x0110=123\x01";
    assert!(parser.parse(msg).unwrap());
    let header = parser.get_header_info().unwrap();
    assert_eq!(header.begin_string, "FIX.4.4");
    assert_eq!(header.sender_comp_id, "SENDER");
    assert_eq!(header.target_comp_id, "TARGET");
    assert_eq!(header.msg_seq_num, 123);
    assert_eq!(header.sending_time, "20231201-12:00:00");
    assert_eq!(parser.integer(tags::MSG_SEQ_NUM), Some(123));
    assert!(parser.get_field(9999).is_none());
}

#[test]
fn a_broken_tag_is_refused() {
    let mut parser = FixParser::new(4096);
    let r = parser.parse(b"x8=FIX.4.4\x01");
    assert!(r.is_err());
    let mut empty = FixParser::new(16);
    assert!(!matches!(empty.parse(b""), Ok(true)));
    assert_eq!(FixParseError::BufferOverflow.to_string().is_empty(), false);
}

#[test]
fn message_types_have_distinct_bytes() {
    for b in 0..=255u8 {
        if let Some(t) = FixMessageType::from_byte(b) {
            assert_eq!(t.to_byte(), b);
        }
    }
    assert_eq!(FixMessageType::from_byte(b'A'), Some(FixMessageType::Logon));
    assert_eq!(FixMessageType::from_byte(b'~'), None);
}

#[test]
fn a_built_order_is_parsed_back() {
    let mut builder = FixMessageBuilder::new("ME", "EXCH", 1);
    let bytes = builder.build_new_order_single_at(
        "C1",
        "BTC-USD",
        '1',
        amt(1.5),
        amt(50_000.0),
        '2',
        '3',
        "ACC",
        "EX",
        "20240101-00:00:00.000",
    );
    let mut parser = FixParser::new(4096);
    assert!(parser.parse(&bytes).unwrap());
    assert_eq!(parser.get_msg_type(), Some(FixMessageType::NewOrderSingle));
    assert_eq!(parser.text(tags::CL_ORD_ID).unwrap(), "C1");
    assert_eq!(parser.text(tags::ORDER_QTY).unwrap(), "1.5");
    assert_eq!(parser.text(tags::PRICE).unwrap(), "50000");
    assert_eq!(parser.integer(tags::MSG_SEQ_NUM), Some(1));
    let second = builder.build_heartbeat_at("T", "20240101-00:00:00.000");
    assert!(parser.parse(&second).unwrap());
    assert_eq!(parser.integer(tags::MSG_SEQ_NUM), Some(2));
}

#[test]
fn sending_times_come_from_the_clock() {
    let mut builder = FixMessageBuilder::new("ME", "EXCH", 1);
    let bytes = builder.build_heartbeat("T");
    let mut parser = FixParser::new(4096);
    assert!(parser.parse(&bytes).unwrap());
    let time = parser.text(tags::SENDING_TIME).unwrap();
    assert_eq!(time.len(), 27);
    assert_eq!(&time[8..9], "-");
    assert_eq!(&time[11..12], ":");
    assert!(time.starts_with("20"));
}

fn logon_reply(seq: u64) -> Vec<u8> {
    format!(
        "8=FIX.4.4\x019=5\x0135=A\x0149=EXCH\x0156=ME\x0134={}\x0152=20240101-00:00:00\x0110=000\x01",
        seq
    )
    .into_bytes()
}

#[test]
fn a_session_logs_on() {
    let mut session = FixSession::new(config());
    assert_eq!(session.get_state(), SessionState::Disconnected);
    assert_eq!(session.connect(), "fix.example.com:9876");
    assert_eq!(session.get_state(), SessionState::Connecting);
    let logon = session.send_logon();
    let mut parser = FixParser::new(4096);
    assert!(parser.parse(&logon).unwrap());
    assert_eq!(parser.get_msg_type(), Some(FixMessageType::Logon));
    session.logon_sent_at(5);
    assert_eq!(session.get_state(), SessionState::SentLogon);
    let r = session.process_message_at(&logon_reply(1), "20240101-00:00:00", 6);
    assert_eq!(r, Ok(Some(FixMessageType::Logon)));
    assert!(session.is_logged_on());
}

#[test]
fn orders_need_a_session() {
    let mut gateway = FixGateway::new(config());
    assert!(!gateway.is_connected());
    let r = gateway.cancel_order("NOBODY");
    assert!(matches!(r, Err(GatewayError::OrderNotFound)));
    assert!(gateway.get_order("NOBODY").is_none());
}

fn connected() -> FixGateway {
    let mut gateway = FixGateway::new(config());
    gateway.session.connect();
    gateway.session.send_logon();
    gateway.session.logon_sent_at(5);
    let _ = gateway.session.process_message_at(&logon_reply(1), "20240101-00:00:00", 6);
    gateway
}

#[test]
fn an_order_goes_out_and_its_report_comes_in() {
    let mut gateway = connected();
    assert!(gateway.is_connected());
    gateway.submit_order_at(order("C1"), "20240101-00:00:01").unwrap();
    assert!(gateway.get_order("C1").is_some());
    assert_eq!(gateway.get_active_orders().len(), 1);
    let sent = gateway.session.outbox.last().unwrap().clone();
    let mut parser = FixParser::new(4096);
    assert!(parser.parse(&sent).unwrap());
    assert_eq!(parser.get_msg_type(), Some(FixMessageType::NewOrderSingle));
    let report = b"8=FIX.4.4\x019=5\x0135=8\x0149=EXCH\x0156=ME\x0134=2\x0152=20240101-00:00:02\x0137=X1\x0111=C1\x01150=0\x0139=0\x0155=BTC-USD\x0154=1\x01151=1.5\x0114=0\x0132=0\x0131=0\x0160=20240101-00:00:02\x0110=000\x01";
    assert!(parser.parse(report).unwrap());
    let r = gateway.process_execution_report(&parser).unwrap().unwrap();
    assert_eq!(r.order_id, "X1");
    assert_eq!(r.client_order_id, "C1");
    assert_eq!(r.ord_status, OrderStatus::New);
    assert_eq!(r.side, OrderSide::Buy);
    assert_eq!(r.leaves_qty, Amount { units: 150_000_000 });
    assert_eq!(r.last_price, Amount { units: 0 });
}

#[test]
fn queued_orders_are_flushed_once_connected() {
    let mut gateway = FixGateway::new(config());
    let _ = gateway.submit_order_at(order("C1"), "20240101-00:00:01");
    let _ = gateway.submit_order_at(order("C2"), "20240101-00:00:01");
    let waiting = gateway.pending_orders.len();
    gateway.session.connect();
    gateway.session.send_logon();
    gateway.session.logon_sent_at(5);
    let _ = gateway.session.process_message_at(&logon_reply(1), "20240101-00:00:00", 6);
    let before = gateway.session.outbox.len();
    gateway.flush_pending_orders_at("20240101-00:00:03").unwrap();
    assert_eq!(gateway.session.outbox.len(), before + waiting);
    assert_eq!(gateway.pending_orders.len(), 0);
}
