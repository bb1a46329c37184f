use hftbacktest::depth::fuse::DepthEvent;
use hftbacktest::depth::FusedHashMapMarketDepth;
use hftbacktest::types::{BUY_EVENT, DEPTH_EVENT, SELL_EVENT};

// Prices are in ticks of 0.1 and quantities in lots of 0.01: 10.1 is tick 101 and 0.03 is 3 lots.
fn ev(ev: u64, exch_ts: i64, local_ts: i64, price_tick: i64, qty_lot: i64) -> DepthEvent {
    DepthEvent { ev, exch_ts, local_ts, price_tick, qty_lot }
}

#[test]
fn test_update_bid_depth() {
    let mut depth = FusedHashMapMarketDepth::new();

    depth.update_bid_depth(ev(BUY_EVENT | DEPTH_EVENT, 1, 1, 101, 1));
    depth.update_bid_depth(ev(BUY_EVENT | DEPTH_EVENT, 1, 1, 102, 2));
    assert_eq!(depth.best_bid_tick(), 102);
    depth.update_bid_depth(ev(BUY_EVENT | DEPTH_EVENT, 0, 0, 102, 3));
    assert_eq!(depth.bid_qty_at_tick(102), 2);
    depth.update_bid_depth(ev(BUY_EVENT | DEPTH_EVENT, 0, 0, 103, 3));
    assert_eq!(depth.best_bid_tick(), 102);
    depth.update_bid_depth(ev(BUY_EVENT | DEPTH_EVENT, 2, 2, 103, 3));
    assert_eq!(depth.best_bid_tick(), 103);
    depth.update_bid_depth(ev(BUY_EVENT | DEPTH_EVENT, 1, 1, 103, 0));
    assert_eq!(depth.best_bid_tick(), 103);
    assert_eq!(depth.bid_qty_at_tick(103), 3);
    depth.update_bid_depth(ev(BUY_EVENT | DEPTH_EVENT, 2, 2, 103, 0));
    assert_eq!(depth.best_bid_tick(), 102);
}

#[test]
fn test_update_ask_depth() {
    let mut depth = FusedHashMapMarketDepth::new();

    depth.update_ask_depth(ev(SELL_EVENT | DEPTH_EVENT, 1, 1, 102, 2));
    depth.update_ask_depth(ev(SELL_EVENT | DEPTH_EVENT, 1, 1, 101, 1));
    assert_eq!(depth.best_ask_tick(), 101);
    depth.update_ask_depth(ev(SELL_EVENT | DEPTH_EVENT, 0, 0, 101, 3));
    assert_eq!(depth.ask_qty_at_tick(101), 1);
    depth.update_ask_depth(ev(SELL_EVENT | DEPTH_EVENT, 0, 0, 100, 3));
    assert_eq!(depth.best_ask_tick(), 101);
    depth.update_ask_depth(ev(SELL_EVENT | DEPTH_EVENT, 2, 2, 100, 3));
    assert_eq!(depth.best_ask_tick(), 100);
    depth.update_ask_depth(ev(SELL_EVENT | DEPTH_EVENT, 1, 1, 100, 0));
    assert_eq!(depth.best_ask_tick(), 100);
    assert_eq!(depth.ask_qty_at_tick(100), 3);
    depth.update_ask_depth(ev(SELL_EVENT | DEPTH_EVENT, 2, 2, 100, 0));
    assert_eq!(depth.best_ask_tick(), 101);
}

#[test]
fn test_update_bid_ask_depth_cross() {
    let mut depth = FusedHashMapMarketDepth::new();

    depth.update_bid_depth(ev(BUY_EVENT | DEPTH_EVENT, 1, 1, 101, 1));
    depth.update_bid_depth(ev(BUY_EVENT | DEPTH_EVENT, 1, 1, 102, 2));
    depth.update_ask_depth(ev(SELL_EVENT | DEPTH_EVENT, 1, 1, 103, 2));
    depth.update_ask_depth(ev(SELL_EVENT | DEPTH_EVENT, 1, 1, 104, 1));

    depth.update_ask_depth(ev(SELL_EVENT | DEPTH_EVENT, 3, 3, 102, 1));
    assert_eq!(depth.best_bid_tick(), 101);
    assert_eq!(depth.best_ask_tick(), 102);

    depth.update_bid_depth(ev(BUY_EVENT | DEPTH_EVENT, 5, 5, 102, 3));
    assert_eq!(depth.best_bid_tick(), 102);
    assert_eq!(depth.best_ask_tick(), 103);

    depth.update_ask_depth(ev(SELL_EVENT | DEPTH_EVENT, 4, 4, 102, 1));
    assert_eq!(depth.best_bid_tick(), 102);
    assert_eq!(depth.best_ask_tick(), 103);
    depth.update_ask_depth(ev(SELL_EVENT | DEPTH_EVENT, 4, 4, 102, 0));

    depth.update_ask_depth(ev(SELL_EVENT | DEPTH_EVENT, 7, 7, 103, 1));
    depth.update_bid_depth(ev(BUY_EVENT | DEPTH_EVENT, 6, 6, 103, 1));
    assert_eq!(depth.best_bid_tick(), 102);
    assert_eq!(depth.best_ask_tick(), 103);
}

#[test]
fn test_update_best_bid() {
    let mut depth = FusedHashMapMarketDepth::new();

    depth.update_bid_depth(ev(BUY_EVENT | DEPTH_EVENT, 1, 1, 101, 1));
    depth.update_bid_depth(ev(BUY_EVENT | DEPTH_EVENT, 1, 1, 102, 2));
    depth.update_ask_depth(ev(SELL_EVENT | DEPTH_EVENT, 1, 1, 103, 2));
    depth.update_ask_depth(ev(SELL_EVENT | DEPTH_EVENT, 1, 1, 104, 1));

    depth.update_best_bid(ev(BUY_EVENT | DEPTH_EVENT, 0, 0, 103, 3));
    assert_eq!(depth.best_bid_tick(), 102);
    depth.update_best_bid(ev(BUY_EVENT | DEPTH_EVENT, 2, 2, 102, 3));
    assert_eq!(depth.bid_qty_at_tick(102), 3);
    depth.update_best_bid(ev(BUY_EVENT | DEPTH_EVENT, 3, 3, 103, 1));
    assert_eq!(depth.best_bid_tick(), 103);
    assert_eq!(depth.bid_qty_at_tick(103), 1);
    assert_eq!(depth.best_ask_tick(), 104);

    depth.update_bid_depth(ev(BUY_EVENT | DEPTH_EVENT, 5, 5, 101, 1));
    depth.update_bid_depth(ev(BUY_EVENT | DEPTH_EVENT, 5, 5, 102, 2));
    depth.update_best_bid(ev(BUY_EVENT | DEPTH_EVENT, 2, 2, 101, 5));
    assert_eq!(depth.best_bid_tick(), 103);
    assert_eq!(depth.best_ask_tick(), 104);
    assert_eq!(depth.bid_qty_at_tick(101), 1);

    depth.update_best_bid(ev(BUY_EVENT | DEPTH_EVENT, 6, 6, 101, 5));
    assert_eq!(depth.best_bid_tick(), 101);
}

#[test]
fn test_update_best_ask() {
    let mut depth = FusedHashMapMarketDepth::new();

    depth.update_bid_depth(ev(BUY_EVENT | DEPTH_EVENT, 1, 1, 101, 1));
    depth.update_bid_depth(ev(BUY_EVENT | DEPTH_EVENT, 1, 1, 102, 2));
    depth.update_ask_depth(ev(SELL_EVENT | DEPTH_EVENT, 1, 1, 103, 2));
    depth.update_ask_depth(ev(SELL_EVENT | DEPTH_EVENT, 1, 1, 104, 1));

    depth.update_best_ask(ev(SELL_EVENT | DEPTH_EVENT, 0, 0, 102, 3));
    assert_eq!(depth.best_ask_tick(), 103);
    depth.update_best_ask(ev(SELL_EVENT | DEPTH_EVENT, 2, 2, 103, 3));
    assert_eq!(depth.ask_qty_at_tick(103), 3);
    depth.update_best_ask(ev(SELL_EVENT | DEPTH_EVENT, 3, 3, 102, 1));
    assert_eq!(depth.best_bid_tick(), 101);
    assert_eq!(depth.ask_qty_at_tick(102), 1);
    assert_eq!(depth.best_ask_tick(), 102);

    depth.update_ask_depth(ev(SELL_EVENT | DEPTH_EVENT, 5, 5, 103, 2));
    depth.update_ask_depth(ev(SELL_EVENT | DEPTH_EVENT, 5, 5, 104, 1));
    depth.update_best_ask(ev(SELL_EVENT | DEPTH_EVENT, 2, 2, 104, 5));
    assert_eq!(depth.best_bid_tick(), 101);
    assert_eq!(depth.best_ask_tick(), 102);
    assert_eq!(depth.ask_qty_at_tick(104), 1);

    depth.update_best_ask(ev(SELL_EVENT | DEPTH_EVENT, 6, 6, 104, 5));
    assert_eq!(depth.best_ask_tick(), 104);
}
