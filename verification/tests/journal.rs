use trading_core::base::amount::Amount;
use trading_core::journal::event_logger::{
    EventRingBuffer, JournalWriter, OrderStage, OrderTracker, TradeEvent,
};

fn event(order_id: u64, timestamp_ns: u64, stage: OrderStage) -> TradeEvent {
    let mut e = TradeEvent::new();
    e.order_id = order_id;
    e.timestamp_ns = timestamp_ns;
    e.stage = stage;
    e
}

#[test]
fn test_ring_buffer_basic() {
    let mut buffer: EventRingBuffer<1024> = EventRingBuffer::new();
    assert!(buffer.push(event(12345, 1000, OrderStage::Signal)));
    assert_eq!(buffer.len(), 1);
    let popped = buffer.pop();
    assert!(popped.is_some());
    assert_eq!(popped.unwrap().order_id, 12345);
    assert_eq!(buffer.len(), 0);
}

#[test]
fn test_zero_allocation_path() {
    let mut buffer: EventRingBuffer<100> = EventRingBuffer::new();
    for i in 0..1000 {
        let _ = buffer.push(event(i, i * 1000, OrderStage::Signal));
    }
    assert!(buffer.total_written() > 0);
}

#[test]
fn test_latency_tracking() {
    let mut buffer: EventRingBuffer<256> = EventRingBuffer::new();
    buffer.push(event(99999, 1000, OrderStage::Signal));
    buffer.push(event(99999, 1500, OrderStage::Routing));
    buffer.push(event(99999, 2000, OrderStage::Ack));
    buffer.push(event(99999, 2500, OrderStage::Filled));
    let stats = buffer.get_latency_stats(99999);
    assert_eq!(stats.total_latency_ns, 1500);
    assert_eq!(stats.stage_count, 4);
}

#[test]
fn draining_takes_the_oldest_first() {
    let mut buffer: EventRingBuffer<8> = EventRingBuffer::new();
    for i in 0..5 {
        buffer.push(event(i, i, OrderStage::Signal));
    }
    let mut out = [TradeEvent::new(); 3];
    assert_eq!(buffer.drain_into(&mut out), 3);
    assert_eq!(out[0].order_id, 0);
    assert_eq!(out[2].order_id, 2);
    assert_eq!(buffer.len(), 2);
    assert_eq!(buffer.drain_into(&mut out), 2);
    assert_eq!(out[0].order_id, 3);
    assert_eq!(out[2].order_id, 2);
    assert!(buffer.is_empty());
    buffer.shutdown();
    assert!(buffer.is_shutdown());
}

#[test]
fn stages_are_remembered() {
    let mut tracker = OrderTracker::new(7);
    assert!(!tracker.has_reached_stage(OrderStage::Signal));
    tracker.record_event(&event(7, 100, OrderStage::Signal));
    tracker.record_event(&event(7, 400, OrderStage::Partial));
    tracker.record_event(&event(7, 900, OrderStage::Filled));
    assert!(tracker.has_reached_stage(OrderStage::Signal));
    assert!(tracker.has_reached_stage(OrderStage::Filled));
    assert!(!tracker.has_reached_stage(OrderStage::Cancelled));
    assert_eq!(tracker.get_total_latency_ns(), 800);
    assert_eq!(tracker.get_fill_count(), 2);
}

#[test]
fn a_tracker_full_of_fills_takes_other_stages() {
    let mut tracker = OrderTracker::new(7);
    for i in 0..255u64 {
        tracker.record_event(&event(7, 1 + i, OrderStage::Partial));
    }
    assert_eq!(tracker.get_fill_count(), 255);
    tracker.record_event(&event(7, 1000, OrderStage::Cancelled));
    assert!(tracker.has_reached_stage(OrderStage::Cancelled));
    assert_eq!(tracker.get_fill_count(), 255);
    assert_eq!(tracker.get_total_latency_ns(), 999);
}

#[test]
fn a_flush_counts_what_the_ring_takes() {
    let buffer: EventRingBuffer<3> = EventRingBuffer::default();
    let mut writer = JournalWriter::new(buffer);
    writer.set_flush_interval(100);
    for id in 0..4u64 {
        writer.log_event_at(event(id, id, OrderStage::Signal), 50);
    }
    assert_eq!(writer.batch.len(), 4);
    assert_eq!(writer.buffer.total_written(), 0);
    assert_eq!(writer.last_flush_ns, 0);
    writer.log_event_at(event(9, 9, OrderStage::Signal), 101);
    assert_eq!(writer.batch.len(), 0);
    assert_eq!(writer.last_flush_ns, 101);
    assert_eq!(writer.buffer.total_written(), 3);
    assert_eq!(writer.buffer.head, 3);
    assert_eq!(writer.buffer.tail, 0);
    assert!(!writer.buffer.is_shutdown());
    assert_eq!(writer.buffer.pop().unwrap().order_id, 0);
    writer.buffer.shutdown();
    writer.log_event_at(event(10, 10, OrderStage::Signal), 150);
    writer.force_flush();
    assert_eq!(writer.buffer.total_written(), 3);
    assert!(writer.buffer.is_shutdown());
    assert_eq!(writer.batch.len(), 0);
    assert_eq!(writer.last_flush_ns, 101);
}

#[test]
fn a_writer_flushes_its_batch() {
    let buffer: EventRingBuffer<64> = EventRingBuffer::new();
    let mut writer = JournalWriter::new(buffer);
    writer.log_event(event(1, 1, OrderStage::Signal));
    writer.log_event(event(2, 2, OrderStage::Signal));
    writer.force_flush();
    assert_eq!(writer.batch.len(), 0);
    assert_eq!(writer.buffer.total_written(), 2);
}

#[test]
fn prices_and_quantities_are_scaled() {
    let cents = Amount { units: 10_000_000_000 };
    let price = Amount { units: 1_234_500_000 };
    let mut e = TradeEvent::new();
    e.set_price(price, cents);
    assert_eq!(e.price_scaled, 1234);
    assert_eq!(e.get_price(cents), Amount { units: 1_234_000_000 });
    e.set_quantity(Amount { units: -250_000_000 }, cents);
    assert_eq!(e.quantity_scaled, -250);
    assert_eq!(e.get_quantity(cents), Amount { units: -250_000_000 });
}

#[test]
fn ring_keeps_order_through_pushes_and_pops() {
    let mut ring: EventRingBuffer<4> = EventRingBuffer::new();
    let mut taken = Vec::new();
    let mut given = Vec::new();
    for id in 0..20u64 {
        if ring.push(event(id, id, OrderStage::Signal)) {
            taken.push(id);
        }
        if id % 3 == 0 {
            if let Some(e) = ring.pop() {
                given.push(e.order_id);
            }
        }
    }
    while let Some(e) = ring.pop() {
        given.push(e.order_id);
    }
    assert_eq!(given, taken);
    assert!(taken.len() < 20);
}
