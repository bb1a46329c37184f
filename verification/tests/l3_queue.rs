use hftbacktest::backtest::models::L3FIFOQueueModel;
use hftbacktest::depth::HashMapMarketDepth;
use hftbacktest::types::{
    Event, OrdType, Order, Side, Status, TimeInForce, ADD_ORDER_EVENT, BUY_EVENT, EXCH_EVENT,
    FILL_EVENT, SELL_EVENT,
};

// Tick size and lot size are both 1: prices and quantities are the ticks and lots themselves.
fn event(ev: u64, price_tick: i64, qty_lot: i64, order_id: u64) -> Event {
    Event { ev, exch_ts: 0, local_ts: 0, price_tick, qty_lot, order_id, ival: 0 }
}

fn backtest_order(order_id: u64, price_tick: i64, side: Side) -> Order {
    Order {
        qty: 1,
        leaves_qty: 0,
        exec_qty: 0,
        exec_price_tick: 0,
        price_tick,
        exch_timestamp: 0,
        local_timestamp: 0,
        order_id,
        maker: false,
        order_type: OrdType::Limit,
        req: Status::Nil,
        status: Status::Nil,
        side,
        time_in_force: TimeInForce::GTC,
    }
}

#[test]
fn fill_by_crossing() {
    let mut depth = HashMapMarketDepth::new();
    let mut qm = L3FIFOQueueModel::new();

    let ev = event(EXCH_EVENT | BUY_EVENT | ADD_ORDER_EVENT, 100, 1, 1);
    depth.add_buy_order(ev.order_id, ev.price_tick, ev.qty_lot, ev.exch_ts).unwrap();
    qm.add_market_feed_order(&ev, &depth).unwrap();

    let ev = event(EXCH_EVENT | SELL_EVENT | ADD_ORDER_EVENT, 101, 1, 2);
    depth.add_sell_order(ev.order_id, ev.price_tick, ev.qty_lot, ev.exch_ts).unwrap();
    qm.add_market_feed_order(&ev, &depth).unwrap();

    qm.add_backtest_order(backtest_order(1, 100, Side::Buy), &depth).unwrap();

    let filled = qm.on_best_ask_update(101, 100).unwrap();
    assert_eq!(filled.len(), 1);
    assert!(!qm.contains_backtest_order(1));

    qm.add_backtest_order(backtest_order(1, 101, Side::Sell), &depth).unwrap();

    let filled = qm.on_best_bid_update(100, 101).unwrap();
    assert_eq!(filled.len(), 1);
    assert!(!qm.contains_backtest_order(1));
}

#[test]
fn fill_in_queue() {
    let mut depth = HashMapMarketDepth::new();
    let mut qm = L3FIFOQueueModel::new();

    let ev = event(EXCH_EVENT | BUY_EVENT | ADD_ORDER_EVENT, 100, 1, 1);
    depth.add_buy_order(ev.order_id, ev.price_tick, ev.qty_lot, ev.exch_ts).unwrap();
    qm.add_market_feed_order(&ev, &depth).unwrap();

    qm.add_backtest_order(backtest_order(1, 100, Side::Buy), &depth).unwrap();

    let ev = event(EXCH_EVENT | BUY_EVENT | ADD_ORDER_EVENT, 100, 1, 2);
    depth.add_buy_order(ev.order_id, ev.price_tick, ev.qty_lot, ev.exch_ts).unwrap();
    qm.add_market_feed_order(&ev, &depth).unwrap();

    let ev = event(EXCH_EVENT | BUY_EVENT | ADD_ORDER_EVENT, 100, 1, 3);
    depth.add_buy_order(ev.order_id, ev.price_tick, ev.qty_lot, ev.exch_ts).unwrap();
    qm.add_market_feed_order(&ev, &depth).unwrap();

    depth.delete_order(1, 0).unwrap();

    let ev = event(EXCH_EVENT | BUY_EVENT | FILL_EVENT, 100, 1, 1);
    let filled = qm.fill_market_feed_order(1, &ev, &depth, false).unwrap();
    assert_eq!(filled.len(), 0);

    let ev = event(EXCH_EVENT | BUY_EVENT | FILL_EVENT, 100, 1, 2);
    depth.delete_order(2, 0).unwrap();
    let filled = qm.fill_market_feed_order(2, &ev, &depth, false).unwrap();
    assert_eq!(filled.len(), 1);
    assert!(!qm.contains_backtest_order(1));
}

#[test]
fn canceling_a_backtest_order_returns_it_and_forgets_it() {
    let depth = HashMapMarketDepth::new();
    let mut qm = L3FIFOQueueModel::new();
    qm.add_backtest_order(backtest_order(7, 100, Side::Buy), &depth).unwrap();
    assert!(qm.add_backtest_order(backtest_order(7, 101, Side::Buy), &depth).is_err());
    let order = qm.cancel_backtest_order(7, &depth).unwrap();
    assert_eq!(order.order_id, 7);
    assert_eq!(order.price_tick, 100);
    assert!(!qm.contains_backtest_order(7));
    assert!(qm.cancel_backtest_order(7, &depth).is_err());
}

#[test]
fn clearing_a_side_expires_its_backtest_orders() {
    let depth = HashMapMarketDepth::new();
    let mut qm = L3FIFOQueueModel::new();
    qm.add_backtest_order(backtest_order(1, 100, Side::Buy), &depth).unwrap();
    qm.add_backtest_order(backtest_order(2, 99, Side::Buy), &depth).unwrap();
    qm.add_backtest_order(backtest_order(3, 105, Side::Sell), &depth).unwrap();
    let expired = qm.clear_orders(Side::Buy);
    assert_eq!(expired.len(), 2);
    assert!(!qm.contains_backtest_order(1));
    assert!(!qm.contains_backtest_order(2));
    assert!(qm.contains_backtest_order(3));
    let expired = qm.clear_orders(Side::Nil);
    assert_eq!(expired.len(), 1);
    assert_eq!(expired[0].order_id, 3);
}
