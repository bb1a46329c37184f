use hftbacktest::backtest::order::OrderBus;
use hftbacktest::backtest::proc::Local;
use hftbacktest::backtest::BacktestError;
use hftbacktest::depth::{HashMapMarketDepth, MarketDepth};
use hftbacktest::types::{
    Event, OrdType, Side, Status, TimeInForce, LOCAL_BID_DEPTH_CLEAR_EVENT, LOCAL_BID_DEPTH_EVENT,
    LOCAL_BUY_TRADE_EVENT,
};

fn event(ev: u64, price_tick: i64, qty_lot: i64) -> Event {
    Event { ev, exch_ts: 1, local_ts: 2, price_tick, qty_lot, order_id: 0, ival: 0 }
}

#[test]
fn local_order_requests_follow_the_order_state() {
    let mut local = Local::new(HashMapMarketDepth::new(), 0);
    let req = local
        .submit_order(1, Side::Buy, 100, 5, OrdType::Limit, TimeInForce::GTC, 10)
        .unwrap();
    assert_eq!(req.order.req, Status::New);
    assert_eq!(req.order.local_timestamp, 10);
    assert_eq!(req.on_reject.req, Status::Rejected);
    assert!(matches!(
        local.submit_order(1, Side::Buy, 100, 5, OrdType::Limit, TimeInForce::GTC, 11),
        Err(BacktestError::OrderIdExist)
    ));
    // The new order is in flight: no other request on it.
    assert!(matches!(local.cancel(1, 12), Err(BacktestError::OrderRequestInProcess)));
    assert!(matches!(local.cancel(2, 12), Err(BacktestError::OrderNotFound)));

    // The exchange accepts it.
    let mut accepted = req.order;
    accepted.req = Status::Nil;
    accepted.status = Status::New;
    accepted.exch_timestamp = 15;
    assert!(local.receive_response(accepted, 20, Some(1)));
    assert_eq!(local.last_order_latency, Some((10, 15, 20)));
    let o = local.orders[&1];
    assert_eq!((o.status, o.req, o.local_timestamp), (Status::New, Status::Nil, 10));

    // A modify is rejected before the matching engine: the request is cleared.
    let req = local.modify(1, 101, 6, 30).unwrap();
    assert_eq!((req.order.price_tick, req.order.qty), (101, 6));
    assert_eq!((req.on_reject.price_tick, req.on_reject.qty), (100, 5));
    assert!(!local.receive_response(req.on_reject, 35, None));
    assert_eq!(local.orders[&1].req, Status::Nil);

    // A cancel goes through.
    let req = local.cancel(1, 40).unwrap();
    let mut canceled = req.order;
    canceled.req = Status::Nil;
    canceled.status = Status::Canceled;
    local.receive_response(canceled, 45, None);
    assert_eq!(local.orders[&1].status, Status::Canceled);
    local.clear_inactive_orders();
    assert!(local.orders.is_empty());
}

#[test]
fn rejected_new_order_expires() {
    let mut local = Local::new(HashMapMarketDepth::new(), 0);
    let req = local
        .submit_order(3, Side::Sell, 100, 1, OrdType::Limit, TimeInForce::GTC, 10)
        .unwrap();
    local.receive_response(req.on_reject, 12, None);
    let o = local.orders[&3];
    assert_eq!((o.status, o.req), (Status::Expired, Status::Nil));
    assert!(local.last_order_latency.is_none());
}

#[test]
fn local_feed_updates_depth_and_keeps_trades() {
    let mut local = Local::new(HashMapMarketDepth::new(), 10);
    local.process(&event(LOCAL_BID_DEPTH_EVENT, 100, 5), true);
    local.process(&event(LOCAL_BID_DEPTH_EVENT, 98, 2), true);
    assert_eq!(local.depth.best_bid_tick(), 100);
    assert_eq!(local.last_feed_latency, Some((1, 2)));
    local.process(&event(LOCAL_BUY_TRADE_EVENT, 100, 1), true);
    assert_eq!(local.trades.len(), 1);
    // Clearing the bids from 100 up leaves 98 as the best bid.
    local.process(&event(LOCAL_BID_DEPTH_CLEAR_EVENT, 100, 0), true);
    assert_eq!(local.depth.best_bid_tick(), 98);
    local.process(&event(LOCAL_BID_DEPTH_CLEAR_EVENT, 0, 0), false);
    assert_eq!(local.depth.best_bid_qty(), 0);

    let mut no_trades = Local::new(HashMapMarketDepth::new(), 0);
    no_trades.process(&event(LOCAL_BUY_TRADE_EVENT, 100, 1), true);
    assert!(no_trades.trades.is_empty());
}

#[test]
fn local_receives_every_response_due_at_the_timestamp() {
    let mut local = Local::new(HashMapMarketDepth::new(), 0);
    let r1 = local.submit_order(1, Side::Buy, 100, 5, OrdType::Limit, TimeInForce::GTC, 10).unwrap();
    let r2 = local.submit_order(2, Side::Sell, 110, 3, OrdType::Limit, TimeInForce::GTC, 10).unwrap();
    let mut bus = OrderBus::new();
    let mut a1 = r1.order;
    a1.req = Status::Nil;
    a1.status = Status::Filled;
    a1.exch_timestamp = 15;
    let mut a2 = r2.order;
    a2.req = Status::Nil;
    a2.status = Status::New;
    a2.exch_timestamp = 16;
    let mut unknown = r2.on_reject;
    unknown.order_id = 9;
    bus.append(a1, 20);
    bus.append(unknown, 20);
    bus.append(a2, 20);
    bus.append(r2.on_reject, 30);
    let (received, filled, handled) = local.process_recv_order(&mut bus, 20, Some(2));
    assert!(received);
    // The rejection of an order the local does not know is dropped unseen.
    let ids: Vec<u64> = handled.iter().map(|o| o.order_id).collect();
    assert_eq!(ids, vec![1, 2]);
    assert!(!local.orders.contains_key(&9));
    assert_eq!(filled.len(), 1);
    assert_eq!(filled[0].order_id, 1);
    assert_eq!(bus.len(), 1);
    assert_eq!(local.orders[&1].status, Status::Filled);
    assert_eq!(local.orders[&2].status, Status::New);
    assert_eq!(local.last_order_latency, Some((10, 16, 20)));
    // Nothing else is due at 25; the rejection arrives at 30.
    let (received, filled, handled) = local.process_recv_order(&mut bus, 25, None);
    assert!(!received && filled.is_empty() && handled.is_empty());
    assert_eq!(bus.len(), 1);
}
