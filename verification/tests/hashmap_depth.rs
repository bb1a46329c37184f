use hftbacktest::depth::{HashMapMarketDepth, MarketDepth, INVALID_MAX, INVALID_MIN};
use hftbacktest::types::{Side, BUY_EVENT, DEPTH_SNAPSHOT_EVENT, EXCH_EVENT, LOCAL_EVENT, SELL_EVENT};

// Prices are in ticks of 0.1 and quantities in lots of 0.001: 500.1 is tick 5001 and 0.005 is
// 5 lots.

#[test]
fn hashmapmarketdepth_test_l3_add_delete_buy_order() {
    let mut depth = HashMapMarketDepth::new();

    let (prev_best, best) = depth.add_buy_order(1, 5001, 1, 0).unwrap();
    assert_eq!(prev_best, INVALID_MIN);
    assert_eq!(best, 5001);
    assert_eq!(depth.best_bid_tick(), 5001);
    assert_eq!(depth.bid_qty_at_tick(5001), 1);

    assert!(depth.add_buy_order(1, 5002, 1, 0).is_err());

    let (prev_best, best) = depth.add_buy_order(2, 5003, 5, 0).unwrap();
    assert_eq!(prev_best, 5001);
    assert_eq!(best, 5003);
    assert_eq!(depth.best_bid_tick(), 5003);
    assert_eq!(depth.bid_qty_at_tick(5003), 5);

    let (prev_best, best) = depth.add_buy_order(3, 5001, 5, 0).unwrap();
    assert_eq!(prev_best, 5003);
    assert_eq!(best, 5003);
    assert_eq!(depth.best_bid_tick(), 5003);
    assert_eq!(depth.bid_qty_at_tick(5001), 6);

    let (prev_best, best) = depth.add_buy_order(4, 5005, 5, 0).unwrap();
    assert_eq!(prev_best, 5003);
    assert_eq!(best, 5005);
    assert_eq!(depth.best_bid_tick(), 5005);
    assert_eq!(depth.bid_qty_at_tick(5005), 5);

    assert!(depth.delete_order(10, 0).is_err());

    let (side, prev_best, best) = depth.delete_order(2, 0).unwrap();
    assert_eq!(side, Side::Buy);
    assert_eq!(prev_best, 5005);
    assert_eq!(best, 5005);
    assert_eq!(depth.best_bid_tick(), 5005);
    assert_eq!(depth.bid_qty_at_tick(5003), 0);

    let (side, prev_best, best) = depth.delete_order(4, 0).unwrap();
    assert_eq!(side, Side::Buy);
    assert_eq!(prev_best, 5005);
    assert_eq!(best, 5001);
    assert_eq!(depth.best_bid_tick(), 5001);
    assert_eq!(depth.bid_qty_at_tick(5005), 0);

    let (side, prev_best, best) = depth.delete_order(3, 0).unwrap();
    assert_eq!(side, Side::Buy);
    assert_eq!(prev_best, 5001);
    assert_eq!(best, 5001);
    assert_eq!(depth.best_bid_tick(), 5001);
    assert_eq!(depth.bid_qty_at_tick(5001), 1);

    let (side, prev_best, best) = depth.delete_order(1, 0).unwrap();
    assert_eq!(side, Side::Buy);
    assert_eq!(prev_best, 5001);
    assert_eq!(best, INVALID_MIN);
    assert_eq!(depth.best_bid_tick(), INVALID_MIN);
    assert_eq!(depth.bid_qty_at_tick(5001), 0);
}

#[test]
fn hashmapmarketdepth_test_l3_add_delete_sell_order() {
    let mut depth = HashMapMarketDepth::new();

    let (prev_best, best) = depth.add_sell_order(1, 5001, 1, 0).unwrap();
    assert_eq!(prev_best, INVALID_MAX);
    assert_eq!(best, 5001);
    assert_eq!(depth.best_ask_tick(), 5001);
    assert_eq!(depth.ask_qty_at_tick(5001), 1);

    assert!(depth.add_sell_order(1, 5002, 1, 0).is_err());

    let (prev_best, best) = depth.add_sell_order(2, 4993, 5, 0).unwrap();
    assert_eq!(prev_best, 5001);
    assert_eq!(best, 4993);
    assert_eq!(depth.best_ask_tick(), 4993);
    assert_eq!(depth.ask_qty_at_tick(4993), 5);

    let (prev_best, best) = depth.add_sell_order(3, 5001, 5, 0).unwrap();
    assert_eq!(prev_best, 4993);
    assert_eq!(best, 4993);
    assert_eq!(depth.best_ask_tick(), 4993);
    assert_eq!(depth.ask_qty_at_tick(5001), 6);

    let (prev_best, best) = depth.add_sell_order(4, 4985, 5, 0).unwrap();
    assert_eq!(prev_best, 4993);
    assert_eq!(best, 4985);
    assert_eq!(depth.best_ask_tick(), 4985);
    assert_eq!(depth.ask_qty_at_tick(4985), 5);

    assert!(depth.delete_order(10, 0).is_err());

    let (side, prev_best, best) = depth.delete_order(2, 0).unwrap();
    assert_eq!(side, Side::Sell);
    assert_eq!(prev_best, 4985);
    assert_eq!(best, 4985);
    assert_eq!(depth.best_ask_tick(), 4985);
    assert_eq!(depth.ask_qty_at_tick(4993), 0);

    let (side, prev_best, best) = depth.delete_order(4, 0).unwrap();
    assert_eq!(side, Side::Sell);
    assert_eq!(prev_best, 4985);
    assert_eq!(best, 5001);
    assert_eq!(depth.best_ask_tick(), 5001);
    assert_eq!(depth.ask_qty_at_tick(4985), 0);

    let (side, prev_best, best) = depth.delete_order(3, 0).unwrap();
    assert_eq!(side, Side::Sell);
    assert_eq!(prev_best, 5001);
    assert_eq!(best, 5001);
    assert_eq!(depth.best_ask_tick(), 5001);
    assert_eq!(depth.ask_qty_at_tick(5001), 1);

    let (side, prev_best, best) = depth.delete_order(1, 0).unwrap();
    assert_eq!(side, Side::Sell);
    assert_eq!(prev_best, 5001);
    assert_eq!(best, INVALID_MAX);
    assert_eq!(depth.best_ask_tick(), INVALID_MAX);
    assert_eq!(depth.ask_qty_at_tick(5001), 0);
}

#[test]
fn hashmapmarketdepth_test_l3_modify_buy_order() {
    let mut depth = HashMapMarketDepth::new();

    depth.add_buy_order(1, 5001, 1, 0).unwrap();
    depth.add_buy_order(2, 5003, 5, 0).unwrap();
    depth.add_buy_order(3, 5001, 5, 0).unwrap();
    depth.add_buy_order(4, 5005, 5, 0).unwrap();

    assert!(depth.modify_order(10, 5005, 1, 0).is_err());

    let (side, prev_best, best) = depth.modify_order(2, 5005, 1, 0).unwrap();
    assert_eq!(side, Side::Buy);
    assert_eq!(prev_best, 5005);
    assert_eq!(best, 5005);
    assert_eq!(depth.best_bid_tick(), 5005);
    assert_eq!(depth.bid_qty_at_tick(5005), 6);

    let (side, prev_best, best) = depth.modify_order(2, 5007, 2, 0).unwrap();
    assert_eq!(side, Side::Buy);
    assert_eq!(prev_best, 5005);
    assert_eq!(best, 5007);
    assert_eq!(depth.best_bid_tick(), 5007);
    assert_eq!(depth.bid_qty_at_tick(5005), 5);
    assert_eq!(depth.bid_qty_at_tick(5007), 2);

    let (side, prev_best, best) = depth.modify_order(2, 5006, 2, 0).unwrap();
    assert_eq!(side, Side::Buy);
    assert_eq!(prev_best, 5007);
    assert_eq!(best, 5006);
    assert_eq!(depth.best_bid_tick(), 5006);
    assert_eq!(depth.bid_qty_at_tick(5007), 0);

    let _ = depth.delete_order(4, 0).unwrap();
    let (side, prev_best, best) = depth.modify_order(2, 5000, 2, 0).unwrap();
    assert_eq!(side, Side::Buy);
    assert_eq!(prev_best, 5006);
    assert_eq!(best, 5001);
    assert_eq!(depth.best_bid_tick(), 5001);
    assert_eq!(depth.bid_qty_at_tick(5006), 0);
    assert_eq!(depth.bid_qty_at_tick(5000), 2);
}

#[test]
fn hashmapmarketdepth_test_l3_modify_sell_order() {
    let mut depth = HashMapMarketDepth::new();

    depth.add_sell_order(1, 5001, 1, 0).unwrap();
    depth.add_sell_order(2, 4993, 5, 0).unwrap();
    depth.add_sell_order(3, 5001, 5, 0).unwrap();
    depth.add_sell_order(4, 4985, 5, 0).unwrap();

    assert!(depth.modify_order(10, 5005, 1, 0).is_err());

    let (side, prev_best, best) = depth.modify_order(2, 4985, 1, 0).unwrap();
    assert_eq!(side, Side::Sell);
    assert_eq!(prev_best, 4985);
    assert_eq!(best, 4985);
    assert_eq!(depth.best_ask_tick(), 4985);
    assert_eq!(depth.ask_qty_at_tick(4985), 6);

    let (side, prev_best, best) = depth.modify_order(2, 4977, 2, 0).unwrap();
    assert_eq!(side, Side::Sell);
    assert_eq!(prev_best, 4985);
    assert_eq!(best, 4977);
    assert_eq!(depth.best_ask_tick(), 4977);
    assert_eq!(depth.ask_qty_at_tick(4985), 5);
    assert_eq!(depth.ask_qty_at_tick(4977), 2);

    let (side, prev_best, best) = depth.modify_order(2, 4981, 2, 0).unwrap();
    assert_eq!(side, Side::Sell);
    assert_eq!(prev_best, 4977);
    assert_eq!(best, 4981);
    assert_eq!(depth.best_ask_tick(), 4981);
    assert_eq!(depth.ask_qty_at_tick(4977), 0);

    let _ = depth.delete_order(4, 0).unwrap();
    let (side, prev_best, best) = depth.modify_order(2, 5002, 2, 0).unwrap();
    assert_eq!(side, Side::Sell);
    assert_eq!(prev_best, 4981);
    assert_eq!(best, 5001);
    assert_eq!(depth.best_ask_tick(), 5001);
    assert_eq!(depth.ask_qty_at_tick(4981), 0);
    assert_eq!(depth.ask_qty_at_tick(5002), 2);
}

#[test]
fn l2_update_reports_previous_best_and_quantities() {
    let mut depth = HashMapMarketDepth::new();
    let (tick, prev_best, best, prev_qty, qty, ts) = depth.update_bid_depth(100, 5, 1);
    assert_eq!((tick, prev_best, best, prev_qty, qty, ts), (100, INVALID_MIN, 100, 0, 5, 1));
    let (_, prev_best, best, prev_qty, qty, _) = depth.update_bid_depth(101, 3, 2);
    assert_eq!((prev_best, best, prev_qty, qty), (100, 101, 0, 3));
    let (_, _, _, _, _, _) = depth.update_ask_depth(103, 4, 3);
    assert_eq!(depth.best_ask_tick(), 103);
    assert_eq!(depth.best_bid_qty(), 3);
    assert_eq!(depth.best_ask_qty(), 4);
    // Removing the best bid moves it to the next level down.
    let (_, prev_best, best, prev_qty, qty, _) = depth.update_bid_depth(101, 0, 4);
    assert_eq!((prev_best, best, prev_qty, qty), (101, 100, 3, 0));
    // An ask at or below the best bid pushes the bid side below it.
    depth.update_ask_depth(100, 1, 5);
    assert_eq!(depth.best_ask_tick(), 100);
    assert_eq!(depth.best_bid_tick(), INVALID_MIN);
}

#[test]
fn snapshot_lists_bids_downwards_then_asks_upwards() {
    let mut depth = HashMapMarketDepth::new();
    depth.update_bid_depth(100, 5, 1);
    depth.update_bid_depth(102, 3, 1);
    depth.update_bid_depth(101, 1, 1);
    depth.update_ask_depth(105, 2, 1);
    depth.update_ask_depth(104, 7, 1);
    let events = depth.snapshot();
    let rows: Vec<(u64, i64, i64)> = events.iter().map(|e| (e.ev, e.price_tick, e.qty_lot)).collect();
    let bid = EXCH_EVENT | LOCAL_EVENT | BUY_EVENT | DEPTH_SNAPSHOT_EVENT;
    let ask = EXCH_EVENT | LOCAL_EVENT | SELL_EVENT | DEPTH_SNAPSHOT_EVENT;
    assert_eq!(rows, vec![(bid, 102, 3), (bid, 101, 1), (bid, 100, 5), (ask, 104, 7), (ask, 105, 2)]);
    assert!(events.iter().all(|e| e.exch_ts == 0 && e.local_ts == 0 && e.order_id == 0));
    assert!(HashMapMarketDepth::new().snapshot().is_empty());
}
