use hftbacktest::types::{
    event_is, Event, BUY_EVENT, EXCH_BID_DEPTH_EVENT, EXCH_EVENT, LOCAL_BID_DEPTH_CLEAR_EVENT,
    LOCAL_BID_DEPTH_EVENT, LOCAL_BID_DEPTH_SNAPSHOT_EVENT, LOCAL_BUY_TRADE_EVENT, LOCAL_EVENT,
};

fn event(ev: u64) -> Event {
    Event { ev, exch_ts: 0, local_ts: 0, price_tick: 0, qty_lot: 0, order_id: 0, ival: 0 }
}

#[test]
fn test_event_is() {
    let event1 = event(LOCAL_BID_DEPTH_CLEAR_EVENT | (1 << 20));

    assert!(!event1.is(LOCAL_BID_DEPTH_EVENT));
    assert!(!event1.is(LOCAL_BUY_TRADE_EVENT));
    assert!(event1.is(LOCAL_BID_DEPTH_CLEAR_EVENT));

    let event2 = event(LOCAL_EVENT | BUY_EVENT | 0xff);

    assert!(!event2.is(LOCAL_BID_DEPTH_EVENT));
    assert!(!event2.is(LOCAL_BUY_TRADE_EVENT));
    assert!(!event2.is(LOCAL_BID_DEPTH_CLEAR_EVENT));
    assert!(!event2.is(LOCAL_BID_DEPTH_SNAPSHOT_EVENT));
    assert!(event2.is(LOCAL_EVENT));
    assert!(event2.is(BUY_EVENT));
}

#[test]
fn event_kind_is_the_low_byte_and_flags_are_bits() {
    // The kind in the low byte must match exactly; the flags above it must all be present.
    assert!(event_is(EXCH_BID_DEPTH_EVENT, EXCH_EVENT));
    assert!(event_is(EXCH_BID_DEPTH_EVENT, EXCH_BID_DEPTH_EVENT));
    assert!(!event_is(EXCH_BID_DEPTH_EVENT, LOCAL_BID_DEPTH_EVENT));
    assert!(!event_is(EXCH_EVENT | BUY_EVENT, EXCH_BID_DEPTH_EVENT));
}
