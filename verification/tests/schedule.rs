use hftbacktest::backtest::models::{
    ConstantLatency, IntpOrderLatency, LatencyLookup, LatencyModel, OrderLatencyAdjustment,
    OrderLatencyRow,
};
use hftbacktest::backtest::data::DataPreprocess;
use hftbacktest::backtest::models::latency::{FeedLatencyAdjustment, FeedTimestamps};
use hftbacktest::backtest::order::{route_request, OrderBus, Route};
use hftbacktest::backtest::{BacktestError, EventIntent, EventIntentKind, EventSet, Goto, Step};
use hftbacktest::backtest::cursor::{event_seen_timestamp, BacktestProcessorState, Viewpoint};
use hftbacktest::types::{
    ElapseResult, Event, OrdType, Order, Side, TimeInForce, WaitOrderResponse, DEPTH_EVENT,
    EXCH_EVENT, LOCAL_EVENT,
};

fn order(id: u64) -> Order {
    Order::new(id, 100, 1, Side::Buy, OrdType::Limit, TimeInForce::GTC)
}

#[test]
fn event_set_picks_the_earliest_slot_first_on_ties() {
    let mut evs = EventSet::new(2);
    assert!(evs.next().is_none());
    evs.update_exch_data(1, 10);
    evs.update_local_order(0, 20);
    let ev = evs.next().unwrap();
    assert_eq!((ev.timestamp, ev.asset_no, ev.kind), (10, 1, EventIntentKind::ExchData));
    // A tie goes to the earlier slot: asset 0 before asset 1.
    evs.update_local_order(0, 10);
    let ev = evs.next().unwrap();
    assert_eq!((ev.timestamp, ev.asset_no, ev.kind), (10, 0, EventIntentKind::LocalOrder));
    evs.update_local_data(1, 5);
    let ev = evs.next().unwrap();
    assert_eq!((ev.timestamp, ev.asset_no, ev.kind), (5, 1, EventIntentKind::LocalData));
    evs.invalidate_local_data(1);
    evs.invalidate_exch_data(1);
    evs.update_exch_order(0, 30);
    let ev = evs.next().unwrap();
    assert_eq!((ev.timestamp, ev.asset_no, ev.kind), (10, 0, EventIntentKind::LocalOrder));
}

#[test]
fn order_bus_keeps_timestamp_order_and_receives_only_due_orders() {
    let mut bus = OrderBus::new();
    assert!(bus.is_empty());
    assert_eq!(bus.earliest_timestamp(), None);
    bus.append(order(1), 10);
    bus.append(order(2), 5);
    assert_eq!(bus.len(), 2);
    // The later append is raised to the latest timestamp in the bus.
    assert_eq!(bus.earliest_timestamp(), Some(10));
    assert!(bus.receive(9).is_none());
    assert_eq!(bus.receive(10).unwrap().order_id, 1);
    let (o, ts) = bus.pop_front().unwrap();
    assert_eq!((o.order_id, ts), (2, 10));
    assert!(bus.pop_front().is_none());
    bus.append(order(3), 1);
    bus.reset();
    assert!(bus.is_empty());
}

#[test]
fn negative_entry_latency_is_a_rejection() {
    assert!(matches!(route_request(100, 20), Route::ToExchange(120)));
    assert!(matches!(route_request(100, -20), Route::Rejected(120)));
}

#[test]
fn constant_latency_is_constant() {
    let mut model = ConstantLatency::new(50, 70);
    assert_eq!(model.entry(0, &order(1)), 50);
    assert_eq!(model.entry(1_000, &order(2)), 50);
    assert_eq!(model.response(5, &order(1)), 70);
}

#[test]
fn latency_adjustments_shift_the_timestamps() {
    let mut rows = vec![OrderLatencyRow { req_ts: 1, exch_ts: 10, resp_ts: 20, _padding: 0 }];
    OrderLatencyAdjustment::new(3).preprocess(&mut rows).unwrap();
    assert_eq!((rows[0].req_ts, rows[0].exch_ts, rows[0].resp_ts), (1, 13, 26));

    let mut feed = vec![FeedTimestamps { exch_ts: 10, local_ts: 15 }];
    FeedLatencyAdjustment::new(5).preprocess(&mut feed).unwrap();
    assert_eq!((feed[0].exch_ts, feed[0].local_ts), (10, 20));
}

#[test]
fn goto_processes_events_up_to_the_target_then_stops() {

    let g = Goto::new(10, false, WaitOrderResponse::Nil);
    assert!(matches!(g.step(None), Step::EndOfData));
    let ev = EventIntent { timestamp: 10, asset_no: 0, kind: EventIntentKind::LocalData };
    assert!(matches!(g.step(Some(ev)), Step::Process(e) if e.timestamp == 10));
    let later = EventIntent { timestamp: 11, asset_no: 0, kind: EventIntentKind::ExchData };
    assert!(matches!(g.step(Some(later)), Step::Stop(10, ElapseResult::Elapsed)));
}

#[test]
fn goto_waiting_for_the_feed_stops_at_the_feed() {

    let mut evs = EventSet::new(1);
    let mut g = Goto::new(100, true, WaitOrderResponse::Nil);
    let ev = EventIntent { timestamp: 7, asset_no: 0, kind: EventIntentKind::LocalData };
    g.after_local_data(&mut evs, ev, Ok(9)).unwrap();
    assert_eq!((g.timestamp, g.result), (7, ElapseResult::MarketFeed));
    let next = evs.next().unwrap();
    assert_eq!((next.timestamp, next.kind), (9, EventIntentKind::LocalData));
    assert!(matches!(g.step(Some(next)), Step::Stop(7, ElapseResult::MarketFeed)));

    // The end of the data clears the slot; another error stops the move unchanged.
    g.after_local_data(&mut evs, ev, Err(BacktestError::EndOfData)).unwrap();
    assert!(evs.next().is_none());
    let before = g;
    assert!(matches!(
        g.after_local_data(&mut evs, ev, Err(BacktestError::DataError("bad".to_string()))),
        Err(BacktestError::DataError(_))
    ));
    assert_eq!(g.timestamp, before.timestamp);
}

#[test]
fn goto_waiting_for_a_response_stops_when_it_comes() {

    let wait = WaitOrderResponse::Specified { asset_no: 1, order_id: 42 };
    let mut g = Goto::new(100, true, wait);
    assert_eq!(g.wait_order_id(1), Some(42));
    assert_eq!(g.wait_order_id(0), None);
    let mut evs = EventSet::new(2);
    let ev = EventIntent { timestamp: 20, asset_no: 1, kind: EventIntentKind::LocalOrder };
    g.after_local_order(&mut evs, ev, false, 30);
    assert_eq!((g.timestamp, g.result), (100, ElapseResult::Elapsed));
    g.after_local_order(&mut evs, ev, true, 40);
    assert_eq!((g.timestamp, g.result), (20, ElapseResult::OrderResponse));
    let next = evs.next().unwrap();
    assert_eq!((next.timestamp, next.asset_no, next.kind), (40, 1, EventIntentKind::LocalOrder));
}

#[test]
fn goto_schedules_order_times_per_asset() {

    let mut evs = EventSet::new(2);
    Goto::schedule_orders(&mut evs, &vec![50, 60], &vec![i64::MAX, 5]);
    let next = evs.next().unwrap();
    assert_eq!((next.timestamp, next.asset_no, next.kind), (5, 1, EventIntentKind::LocalOrder));
    let ev = EventIntent { timestamp: 5, asset_no: 1, kind: EventIntentKind::LocalOrder };
    Goto::after_exch_order(&mut evs, ev, i64::MAX, i64::MAX);
    let next = evs.next().unwrap();
    assert_eq!((next.timestamp, next.asset_no, next.kind), (50, 0, EventIntentKind::ExchOrder));
    Goto::after_exch_data(&mut evs, ev, Ok(55), 52).unwrap();
    let next = evs.next().unwrap();
    assert_eq!((next.timestamp, next.asset_no), (50, 0));
}

fn latency_row(req_ts: i64, exch_ts: i64, resp_ts: i64) -> OrderLatencyRow {
    OrderLatencyRow { req_ts, exch_ts, resp_ts, _padding: 0 }
}

#[test]
fn interpolated_entry_latency_searches_the_rows() {
    let rows = vec![latency_row(100, 110, 130), latency_row(200, 215, 240)];
    let next = vec![latency_row(300, 0, 340)];
    let mut model = IntpOrderLatency::new(rows, next);
    assert!(matches!(model.entry(50), LatencyLookup::Latency(10)));
    assert!(matches!(
        model.entry(150),
        LatencyLookup::Interpolate { x: 150, x1: 100, y1: 10, x2: 200, y2: 15, rejected: false }
    ));
    // The row after the chunk's last one has no exchange timestamp: a rejection.
    assert!(matches!(
        model.entry(250),
        LatencyLookup::Interpolate { x: 250, x1: 200, y1: 40, x2: 300, y2: 40, rejected: true }
    ));
    assert!(matches!(model.entry(350), LatencyLookup::NeedsChunk));
    let released = model.next_data(Vec::new()).unwrap();
    assert_eq!(released.len(), 2);
    // No next chunk is held any more: moving on leaves the model as it is.
    assert!(!model.has_next_data());
    assert!(model.next_data(vec![latency_row(1, 2, 3)]).is_none());
    assert!(matches!(model.entry_from_start(350), LatencyLookup::Latency(-300)));
}

#[test]
fn interpolated_response_latency_searches_the_rows() {
    let rows = vec![latency_row(100, 110, 130), latency_row(200, 215, 240)];
    let mut model = IntpOrderLatency::new(rows, Vec::new());
    assert!(matches!(model.response(105), LatencyLookup::Latency(20)));
    assert!(matches!(
        model.response(212),
        LatencyLookup::Interpolate { x: 212, x1: 110, y1: 20, x2: 215, y2: 25, rejected: false }
    ));
    // Past the last row of the data, the last row's latency stands.
    assert!(matches!(model.response(900), LatencyLookup::Latency(25)));
    assert!(model.response_row_loaded());
    assert!(model.entry_row_loaded());
}

fn feed_event(ev: u64, exch_ts: i64, local_ts: i64) -> Event {
    Event { ev, exch_ts, local_ts, price_tick: 100, qty_lot: 1, order_id: 0, ival: 0 }
}

#[test]
fn processor_state_passes_over_events_it_does_not_see() {
    let chunk = vec![
        feed_event(LOCAL_EVENT | DEPTH_EVENT, 1, 5),
        feed_event(EXCH_EVENT | DEPTH_EVENT, 3, 4),
        feed_event(EXCH_EVENT | LOCAL_EVENT | DEPTH_EVENT, 7, 9),
    ];
    let mut local = BacktestProcessorState::new(Viewpoint::Local);
    assert_eq!(local.advance(), None);
    assert!(local.next_data(chunk.clone()).is_empty());
    assert_eq!(local.advance(), Some(5));
    assert_eq!(local.next_row(), Some(0));
    assert_eq!(local.advance(), Some(9));
    assert_eq!(local.next_row(), Some(2));
    assert_eq!(local.current_event().exch_ts, 7);
    // The chunk holds no more: the position stays until the next chunk comes.
    assert_eq!(local.advance(), None);
    assert_eq!(local.next_row(), Some(2));
    assert_eq!(local.next_data(Vec::new()).len(), 3);
    assert_eq!(local.next_row(), None);

    let mut exch = BacktestProcessorState::new(Viewpoint::Exchange);
    exch.next_data(chunk);
    assert_eq!(exch.advance(), Some(3));
    assert_eq!(exch.advance(), Some(7));
    assert_eq!(exch.advance(), None);
    assert_eq!(event_seen_timestamp(&feed_event(LOCAL_EVENT, 1, 2), Viewpoint::Exchange), None);
}
