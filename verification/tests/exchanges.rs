use hftbacktest::backtest::models::{L3FIFOQueueModel, RiskAdverseQueueModel};
use hftbacktest::backtest::proc::{L3NoPartialFillExchange, PartialFillExchange};
use hftbacktest::backtest::BacktestError;
use hftbacktest::depth::{HashMapMarketDepth, MarketDepth};
use hftbacktest::types::{
    Event, OrdType, Order, Side, Status, TimeInForce, EXCH_ASK_ADD_ORDER_EVENT,
    EXCH_ASK_DEPTH_EVENT, EXCH_BID_ADD_ORDER_EVENT, EXCH_BID_DEPTH_CLEAR_EVENT,
    EXCH_BID_DEPTH_EVENT, EXCH_BUY_TRADE_EVENT, EXCH_CANCEL_ORDER_EVENT, EXCH_SELL_TRADE_EVENT,
};

fn request(order_id: u64, price_tick: i64, qty: i64, side: Side, tif: TimeInForce) -> Order {
    let mut order = Order::new(order_id, price_tick, qty, side, OrdType::Limit, tif);
    order.req = Status::New;
    order
}

/// A book with 5 lots bid at 100 and 5 lots offered at 101 and 102 each.
fn partial_fill_exchange() -> PartialFillExchange<HashMapMarketDepth> {
    let mut exch = PartialFillExchange::new(HashMapMarketDepth::new(), RiskAdverseQueueModel::new());
    exch.process(EXCH_BID_DEPTH_EVENT, 1, Some(100), 5).unwrap();
    exch.process(EXCH_ASK_DEPTH_EVENT, 1, Some(101), 5).unwrap();
    exch.process(EXCH_ASK_DEPTH_EVENT, 1, Some(102), 5).unwrap();
    exch
}

#[test]
fn gtc_order_rests_in_the_book() {
    let mut exch = partial_fill_exchange();
    exch.process_recv_order(request(1, 100, 2, Side::Buy, TimeInForce::GTC), 10).unwrap();
    assert_eq!(exch.responses.len(), 1);
    assert_eq!(exch.responses[0].status, Status::New);
    assert_eq!(exch.responses[0].req, Status::Nil);
    assert_eq!(exch.responses[0].exch_timestamp, 10);
    assert!(exch.orders.contains_key(&1));
    assert!(exch.fills.is_empty());
    // The same order id again is refused.
    assert!(matches!(
        exch.process_recv_order(request(1, 99, 2, Side::Buy, TimeInForce::GTC), 11),
        Err(BacktestError::OrderIdExist)
    ));
}

#[test]
fn ioc_order_sweeps_the_levels_it_crosses() {
    let mut exch = partial_fill_exchange();
    exch.process_recv_order(request(2, 102, 7, Side::Buy, TimeInForce::IOC), 10).unwrap();
    // 5 lots at 101 then 2 lots at 102.
    assert_eq!(exch.fills.len(), 2);
    assert_eq!(exch.fills[0].exec_price_tick, 101);
    assert_eq!(exch.fills[0].exec_qty, 5);
    assert_eq!(exch.fills[1].exec_price_tick, 102);
    assert_eq!(exch.fills[1].exec_qty, 2);
    assert_eq!(exch.fills[1].leaves_qty, 0);
    assert_eq!(exch.fills[1].status, Status::Filled);
    assert!(!exch.fills[0].maker);
    assert_eq!(exch.responses.last().unwrap().status, Status::Filled);
    assert!(!exch.orders.contains_key(&2));
}

#[test]
fn fok_order_is_all_or_nothing() {
    let mut exch = partial_fill_exchange();
    // 11 lots cannot be filled from the 10 offered up to 102.
    exch.process_recv_order(request(3, 102, 11, Side::Buy, TimeInForce::FOK), 10).unwrap();
    assert!(exch.fills.is_empty());
    assert_eq!(exch.responses[0].status, Status::Expired);
    // 10 lots can.
    exch.process_recv_order(request(4, 102, 10, Side::Buy, TimeInForce::FOK), 11).unwrap();
    assert_eq!(exch.fills.len(), 2);
    assert_eq!(exch.responses[1].status, Status::Filled);
}

#[test]
fn post_only_order_crossing_the_book_expires() {
    let mut exch = partial_fill_exchange();
    exch.process_recv_order(request(5, 101, 1, Side::Buy, TimeInForce::GTX), 10).unwrap();
    assert!(exch.fills.is_empty());
    assert_eq!(exch.responses[0].status, Status::Expired);
    exch.process_recv_order(request(6, 100, 1, Side::Sell, TimeInForce::GTX), 10).unwrap();
    assert_eq!(exch.responses[1].status, Status::Expired);
}

#[test]
fn resting_order_fills_when_the_best_ask_reaches_it() {
    let mut exch = partial_fill_exchange();
    exch.process_recv_order(request(7, 100, 2, Side::Buy, TimeInForce::GTC), 10).unwrap();
    exch.process(EXCH_ASK_DEPTH_EVENT, 20, Some(100), 1).unwrap();
    assert_eq!(exch.depth.best_ask_tick(), 100);
    assert_eq!(exch.fills.len(), 1);
    assert!(exch.fills[0].maker);
    assert_eq!(exch.fills[0].exec_price_tick, 100);
    assert_eq!(exch.fills[0].exec_qty, 2);
    assert_eq!(exch.fills[0].status, Status::Filled);
    assert!(!exch.orders.contains_key(&7));
}

#[test]
fn trade_through_the_price_fills_a_resting_order() {
    let mut exch = partial_fill_exchange();
    exch.process_recv_order(request(8, 101, 3, Side::Sell, TimeInForce::GTC), 10).unwrap();
    // A buy trade at 102 goes through the sell order's price.
    exch.process(EXCH_BUY_TRADE_EVENT, 20, Some(102), 1).unwrap();
    assert_eq!(exch.fills.len(), 1);
    assert_eq!(exch.fills[0].exec_price_tick, 101);
    assert_eq!(exch.fills[0].exec_qty, 3);
    // A sell trade does not touch a sell order.
    let mut exch = partial_fill_exchange();
    exch.process_recv_order(request(9, 101, 3, Side::Sell, TimeInForce::GTC), 10).unwrap();
    exch.process(EXCH_SELL_TRADE_EVENT, 20, Some(99), 1).unwrap();
    assert!(exch.fills.is_empty());
}

#[test]
fn cancel_removes_a_resting_order_and_rejects_an_unknown_one() {
    let mut exch = partial_fill_exchange();
    exch.process_recv_order(request(10, 99, 2, Side::Buy, TimeInForce::GTC), 10).unwrap();
    let mut cancel = Order::new(10, 99, 2, Side::Buy, OrdType::Limit, TimeInForce::GTC);
    cancel.req = Status::Canceled;
    exch.process_recv_order(cancel, 11).unwrap();
    assert_eq!(exch.responses[1].status, Status::Canceled);
    assert!(!exch.orders.contains_key(&10));
    exch.process_recv_order(cancel, 12).unwrap();
    assert_eq!(exch.responses[2].req, Status::Rejected);
    // A request that is neither new, cancel nor modify is invalid.
    let mut other = cancel;
    other.req = Status::Filled;
    assert!(matches!(exch.process_recv_order(other, 13), Err(BacktestError::InvalidOrderRequest)));
}

#[test]
fn l3_order_crossing_the_book_fills_entirely_at_the_best_price() {
    let mut depth = HashMapMarketDepth::new();
    depth.add_sell_order(100, 101, 1, 0).unwrap();
    depth.add_buy_order(101, 99, 1, 0).unwrap();
    let mut exch = L3NoPartialFillExchange::new(depth, L3FIFOQueueModel::new());
    // Crossing: filled entirely at the best ask whatever the quantity there.
    exch.process_recv_order(request(1, 105, 10, Side::Buy, TimeInForce::GTC), 5).unwrap();
    assert_eq!(exch.fills.len(), 1);
    assert_eq!(exch.fills[0].exec_price_tick, 101);
    assert_eq!(exch.fills[0].exec_qty, 10);
    assert_eq!(exch.responses[0].status, Status::Filled);
    // Resting: joins the queue.
    exch.process_recv_order(request(2, 99, 1, Side::Buy, TimeInForce::GTC), 6).unwrap();
    assert_eq!(exch.responses[1].status, Status::New);
    assert!(exch.queue_model.contains_backtest_order(2));
    // Not crossing with IOC: expires.
    exch.process_recv_order(request(3, 98, 1, Side::Buy, TimeInForce::IOC), 7).unwrap();
    assert_eq!(exch.responses[2].status, Status::Expired);
    // Cancel: leaves the queue.
    let mut cancel = request(2, 99, 1, Side::Buy, TimeInForce::GTC);
    cancel.req = Status::Canceled;
    exch.process_recv_order(cancel, 8).unwrap();
    assert_eq!(exch.responses[3].status, Status::Canceled);
    assert!(!exch.queue_model.contains_backtest_order(2));
}

fn feed(ev: u64, order_id: u64, price_tick: i64, qty_lot: i64, ts: i64) -> Event {
    Event { ev, exch_ts: ts, local_ts: ts, price_tick, qty_lot, order_id, ival: 0 }
}

#[test]
fn l3_resting_order_fills_when_an_ask_crosses_it() {
    let mut exch = L3NoPartialFillExchange::new(HashMapMarketDepth::new(), L3FIFOQueueModel::new());
    exch.process(&feed(EXCH_BID_ADD_ORDER_EVENT, 10, 99, 1, 1)).unwrap();
    exch.process(&feed(EXCH_ASK_ADD_ORDER_EVENT, 11, 101, 1, 2)).unwrap();
    exch.process_recv_order(request(1, 99, 2, Side::Buy, TimeInForce::GTC), 3).unwrap();
    assert!(exch.queue_model.contains_backtest_order(1));
    // The same feed order id again is refused.
    assert!(matches!(
        exch.process(&feed(EXCH_BID_ADD_ORDER_EVENT, 10, 98, 1, 4)),
        Err(BacktestError::OrderIdExist)
    ));
    // An ask at 99 brings the best ask down onto the resting bid.
    exch.process(&feed(EXCH_ASK_ADD_ORDER_EVENT, 12, 99, 1, 5)).unwrap();
    assert_eq!(exch.depth.best_ask_tick(), 99);
    assert_eq!(exch.fills.len(), 1);
    assert!(exch.fills[0].maker);
    assert_eq!((exch.fills[0].exec_price_tick, exch.fills[0].exec_qty), (99, 2));
    assert_eq!(exch.fills[0].exch_timestamp, 5);
    assert_eq!(exch.responses.last().unwrap().status, Status::Filled);
    assert!(!exch.queue_model.contains_backtest_order(1));
    // Canceling an unknown feed order is an error.
    assert!(matches!(
        exch.process(&feed(EXCH_CANCEL_ORDER_EVENT, 77, 0, 0, 6)),
        Err(BacktestError::OrderNotFound)
    ));
    exch.process(&feed(EXCH_CANCEL_ORDER_EVENT, 11, 0, 0, 7)).unwrap();
    assert_eq!(exch.depth.ask_qty_at_tick(101), 0);
}

#[test]
fn l3_clear_expires_the_queued_backtest_orders() {
    let mut exch = L3NoPartialFillExchange::new(HashMapMarketDepth::new(), L3FIFOQueueModel::new());
    exch.process(&feed(EXCH_BID_ADD_ORDER_EVENT, 10, 99, 1, 1)).unwrap();
    exch.process(&feed(EXCH_ASK_ADD_ORDER_EVENT, 11, 101, 1, 2)).unwrap();
    exch.process_recv_order(request(1, 98, 2, Side::Buy, TimeInForce::GTC), 3).unwrap();
    exch.process(&feed(EXCH_BID_DEPTH_CLEAR_EVENT, 0, 0, 0, 9)).unwrap();
    let last = exch.responses.last().unwrap();
    assert_eq!((last.order_id, last.status, last.exch_timestamp), (1, Status::Expired, 9));
    assert_eq!(exch.depth.best_bid_tick(), hftbacktest::depth::INVALID_MIN);
    assert_eq!(exch.depth.best_ask_tick(), 101);
    assert!(!exch.queue_model.contains_backtest_order(1));
}
