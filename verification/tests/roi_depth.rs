use hftbacktest::depth::hashmapmarketdepth::SnapshotLevel;
use hftbacktest::depth::{MarketDepth, ROIVectorMarketDepth, INVALID_MAX, INVALID_MIN};
use hftbacktest::types::{Side, BUY_EVENT, SELL_EVENT};

// Prices are in ticks of 0.1 and quantities in lots of 0.001: 500.1 is tick 5001 and 0.005 is
// 5 lots. The range of interest 0.0 to 2000.0 is ticks 0 to 20000.

#[test]
fn roivectormarketdepth_test_l3_add_delete_buy_order() {
    let mut depth = ROIVectorMarketDepth::new(0, 20000);

    let (prev_best, best) = depth.add_buy_order(1, 5001, 1, 0).unwrap();
    assert_eq!(prev_best, INVALID_MIN);
    assert_eq!(best, 5001);
    assert_eq!(depth.best_bid_tick(), 5001);
    assert_eq!(depth.bid_qty_at_tick(5001), 1);

    assert!(depth.add_buy_order(1, 5002, 1, 0).is_err());

    let (prev_best, best) = depth.add_buy_order(2, 5003, 5, 0).unwrap();
    assert_eq!(prev_best, 5001);
    assert_eq!(best, 5003);
    assert_eq!(depth.best_bid_tick(), 5003);
    assert_eq!(depth.bid_qty_at_tick(5003), 5);

    let (prev_best, best) = depth.add_buy_order(3, 5001, 5, 0).unwrap();
    assert_eq!(prev_best, 5003);
    assert_eq!(best, 5003);
    assert_eq!(depth.best_bid_tick(), 5003);
    assert_eq!(depth.bid_qty_at_tick(5001), 6);

    let (prev_best, best) = depth.add_buy_order(4, 5005, 5, 0).unwrap();
    assert_eq!(prev_best, 5003);
    assert_eq!(best, 5005);
    assert_eq!(depth.best_bid_tick(), 5005);
    assert_eq!(depth.bid_qty_at_tick(5005), 5);

    assert!(depth.delete_order(10, 0).is_err());

    let (side, prev_best, best) = depth.delete_order(2, 0).unwrap();
    assert_eq!(side, Side::Buy);
    assert_eq!(prev_best, 5005);
    assert_eq!(best, 5005);
    assert_eq!(depth.best_bid_tick(), 5005);
    assert_eq!(depth.bid_qty_at_tick(5003), 0);

    let (side, prev_best, best) = depth.delete_order(4, 0).unwrap();
    assert_eq!(side, Side::Buy);
    assert_eq!(prev_best, 5005);
    assert_eq!(best, 5001);
    assert_eq!(depth.best_bid_tick(), 5001);
    assert_eq!(depth.bid_qty_at_tick(5005), 0);

    let (side, prev_best, best) = depth.delete_order(3, 0).unwrap();
    assert_eq!(side, Side::Buy);
    assert_eq!(prev_best, 5001);
    assert_eq!(best, 5001);
    assert_eq!(depth.best_bid_tick(), 5001);
    assert_eq!(depth.bid_qty_at_tick(5001), 1);

    let (side, prev_best, best) = depth.delete_order(1, 0).unwrap();
    assert_eq!(side, Side::Buy);
    assert_eq!(prev_best, 5001);
    assert_eq!(best, INVALID_MIN);
    assert_eq!(depth.best_bid_tick(), INVALID_MIN);
    assert_eq!(depth.bid_qty_at_tick(5001), 0);
}

#[test]
fn roivectormarketdepth_test_l3_add_delete_sell_order() {
    let mut depth = ROIVectorMarketDepth::new(0, 20000);

    let (prev_best, best) = depth.add_sell_order(1, 5001, 1, 0).unwrap();
    assert_eq!(prev_best, INVALID_MAX);
    assert_eq!(best, 5001);
    assert_eq!(depth.best_ask_tick(), 5001);
    assert_eq!(depth.ask_qty_at_tick(5001), 1);

    assert!(depth.add_sell_order(1, 5002, 1, 0).is_err());

    let (prev_best, best) = depth.add_sell_order(2, 4993, 5, 0).unwrap();
    assert_eq!(prev_best, 5001);
    assert_eq!(best, 4993);
    assert_eq!(depth.best_ask_tick(), 4993);
    assert_eq!(depth.ask_qty_at_tick(4993), 5);

    let (prev_best, best) = depth.add_sell_order(3, 5001, 5, 0).unwrap();
    assert_eq!(prev_best, 4993);
    assert_eq!(best, 4993);
    assert_eq!(depth.best_ask_tick(), 4993);
    assert_eq!(depth.ask_qty_at_tick(5001), 6);

    let (prev_best, best) = depth.add_sell_order(4, 4985, 5, 0).unwrap();
    assert_eq!(prev_best, 4993);
    assert_eq!(best, 4985);
    assert_eq!(depth.best_ask_tick(), 4985);
    assert_eq!(depth.ask_qty_at_tick(4985), 5);

    assert!(depth.delete_order(10, 0).is_err());

    let (side, prev_best, best) = depth.delete_order(2, 0).unwrap();
    assert_eq!(side, Side::Sell);
    assert_eq!(prev_best, 4985);
    assert_eq!(best, 4985);
    assert_eq!(depth.best_ask_tick(), 4985);
    assert_eq!(depth.ask_qty_at_tick(4993), 0);

    let (side, prev_best, best) = depth.delete_order(4, 0).unwrap();
    assert_eq!(side, Side::Sell);
    assert_eq!(prev_best, 4985);
    assert_eq!(best, 5001);
    assert_eq!(depth.best_ask_tick(), 5001);
    assert_eq!(depth.ask_qty_at_tick(4985), 0);

    let (side, prev_best, best) = depth.delete_order(3, 0).unwrap();
    assert_eq!(side, Side::Sell);
    assert_eq!(prev_best, 5001);
    assert_eq!(best, 5001);
    assert_eq!(depth.best_ask_tick(), 5001);
    assert_eq!(depth.ask_qty_at_tick(5001), 1);

    let (side, prev_best, best) = depth.delete_order(1, 0).unwrap();
    assert_eq!(side, Side::Sell);
    assert_eq!(prev_best, 5001);
    assert_eq!(best, INVALID_MAX);
    assert_eq!(depth.best_ask_tick(), INVALID_MAX);
    assert_eq!(depth.ask_qty_at_tick(5001), 0);
}

#[test]
fn roivectormarketdepth_test_l3_modify_buy_order() {
    let mut depth = ROIVectorMarketDepth::new(0, 20000);

    depth.add_buy_order(1, 5001, 1, 0).unwrap();
    depth.add_buy_order(2, 5003, 5, 0).unwrap();
    depth.add_buy_order(3, 5001, 5, 0).unwrap();
    depth.add_buy_order(4, 5005, 5, 0).unwrap();

    assert!(depth.modify_order(10, 5005, 1, 0).is_err());

    let (side, prev_best, best) = depth.modify_order(2, 5005, 1, 0).unwrap();
    assert_eq!(side, Side::Buy);
    assert_eq!(prev_best, 5005);
    assert_eq!(best, 5005);
    assert_eq!(depth.best_bid_tick(), 5005);
    assert_eq!(depth.bid_qty_at_tick(5005), 6);

    let (side, prev_best, best) = depth.modify_order(2, 5007, 2, 0).unwrap();
    assert_eq!(side, Side::Buy);
    assert_eq!(prev_best, 5005);
    assert_eq!(best, 5007);
    assert_eq!(depth.best_bid_tick(), 5007);
    assert_eq!(depth.bid_qty_at_tick(5005), 5);
    assert_eq!(depth.bid_qty_at_tick(5007), 2);

    let (side, prev_best, best) = depth.modify_order(2, 5006, 2, 0).unwrap();
    assert_eq!(side, Side::Buy);
    assert_eq!(prev_best, 5007);
    assert_eq!(best, 5006);
    assert_eq!(depth.best_bid_tick(), 5006);
    assert_eq!(depth.bid_qty_at_tick(5007), 0);

    let _ = depth.delete_order(4, 0).unwrap();
    let (side, prev_best, best) = depth.modify_order(2, 5000, 2, 0).unwrap();
    assert_eq!(side, Side::Buy);
    assert_eq!(prev_best, 5006);
    assert_eq!(best, 5001);
    assert_eq!(depth.best_bid_tick(), 5001);
    assert_eq!(depth.bid_qty_at_tick(5006), 0);
    assert_eq!(depth.bid_qty_at_tick(5000), 2);
}

#[test]
fn roivectormarketdepth_test_l3_modify_sell_order() {
    let mut depth = ROIVectorMarketDepth::new(0, 20000);

    depth.add_sell_order(1, 5001, 1, 0).unwrap();
    depth.add_sell_order(2, 4993, 5, 0).unwrap();
    depth.add_sell_order(3, 5001, 5, 0).unwrap();
    depth.add_sell_order(4, 4985, 5, 0).unwrap();

    assert!(depth.modify_order(10, 5005, 1, 0).is_err());

    let (side, prev_best, best) = depth.modify_order(2, 4985, 1, 0).unwrap();
    assert_eq!(side, Side::Sell);
    assert_eq!(prev_best, 4985);
    assert_eq!(best, 4985);
    assert_eq!(depth.best_ask_tick(), 4985);
    assert_eq!(depth.ask_qty_at_tick(4985), 6);

    let (side, prev_best, best) = depth.modify_order(2, 4977, 2, 0).unwrap();
    assert_eq!(side, Side::Sell);
    assert_eq!(prev_best, 4985);
    assert_eq!(best, 4977);
    assert_eq!(depth.best_ask_tick(), 4977);
    assert_eq!(depth.ask_qty_at_tick(4985), 5);
    assert_eq!(depth.ask_qty_at_tick(4977), 2);

    let (side, prev_best, best) = depth.modify_order(2, 4981, 2, 0).unwrap();
    assert_eq!(side, Side::Sell);
    assert_eq!(prev_best, 4977);
    assert_eq!(best, 4981);
    assert_eq!(depth.best_ask_tick(), 4981);
    assert_eq!(depth.ask_qty_at_tick(4977), 0);

    let _ = depth.delete_order(4, 0).unwrap();
    let (side, prev_best, best) = depth.modify_order(2, 5002, 2, 0).unwrap();
    assert_eq!(side, Side::Sell);
    assert_eq!(prev_best, 4981);
    assert_eq!(best, 5001);
    assert_eq!(depth.best_ask_tick(), 5001);
    assert_eq!(depth.ask_qty_at_tick(4981), 0);
    assert_eq!(depth.ask_qty_at_tick(5002), 2);
}

#[test]
fn roi_orders_outside_the_range_keep_no_quantity() {
    let mut depth = ROIVectorMarketDepth::new(100, 200);
    assert_eq!(depth.bid_depth().len(), 101);
    let (prev_best, best) = depth.add_buy_order(1, 50, 5, 0).unwrap();
    assert_eq!((prev_best, best), (INVALID_MIN, 50));
    assert_eq!(depth.bid_qty_at_tick(50), 0);
    assert_eq!(depth.best_bid_qty(), 0);
    // The level is outside the range, so deleting the order leaves the best bid where it was.
    let (side, prev_best, best) = depth.delete_order(1, 0).unwrap();
    assert_eq!((side, prev_best, best), (Side::Buy, 50, 50));
    assert!(depth.orders().is_empty());
}

#[test]
fn roi_update_outside_the_range_changes_nothing() {
    let mut depth = ROIVectorMarketDepth::new(100, 200);
    depth.update_bid_depth(150, 3, 1);
    let r = depth.update_bid_depth(250, 7, 2);
    assert_eq!(r, (250, 150, 150, 0, 7, 2));
    assert_eq!(depth.bid_qty_at_tick(250), 0);
    let r = depth.update_ask_depth(160, 4, 3);
    assert_eq!(r, (160, INVALID_MAX, 160, 0, 4, 3));
    assert_eq!(depth.roi_tick(), (100, 200));
    assert_eq!(depth.ask_depth()[60], 4);
    // Emptying the best ask with no other ask level leaves no best ask.
    let r = depth.update_ask_depth(160, 0, 4);
    assert_eq!(r, (160, 160, INVALID_MAX, 4, 0, 4));
}

#[test]
fn roi_clear_bids_from_a_price() {
    let mut depth = ROIVectorMarketDepth::new(100, 200);
    depth.update_bid_depth(150, 3, 1);
    depth.update_bid_depth(160, 4, 1);
    depth.update_bid_depth(170, 5, 1);
    depth.clear_depth(Side::Buy, Some(160));
    assert_eq!(depth.bid_qty_at_tick(170), 0);
    assert_eq!(depth.bid_qty_at_tick(160), 0);
    assert_eq!(depth.bid_qty_at_tick(150), 3);
    assert_eq!(depth.best_bid_tick(), 150);
    depth.clear_depth(Side::Buy, None);
    assert_eq!(depth.bid_qty_at_tick(150), 0);
    assert_eq!(depth.best_bid_tick(), INVALID_MIN);
}

#[test]
fn roi_clear_asks_counts_its_end_from_the_upper_bound() {
    let mut depth = ROIVectorMarketDepth::new(100, 200);
    depth.update_ask_depth(150, 3, 1);
    depth.update_ask_depth(160, 4, 1);
    // The cleared range ends at 155 + 1 - 200, before the best ask, so no level is emptied,
    // while the best ask is searched for above 156.
    depth.clear_depth(Side::Sell, Some(155));
    assert_eq!(depth.ask_qty_at_tick(150), 3);
    assert_eq!(depth.best_ask_tick(), 160);
    depth.clear_depth(Side::Nil, None);
    assert_eq!(depth.ask_qty_at_tick(160), 0);
    assert_eq!(depth.best_ask_tick(), INVALID_MAX);
    assert_eq!(depth.best_bid_tick(), INVALID_MIN);
}

#[test]
fn roi_snapshot_keeps_levels_within_the_range() {
    let mut depth = ROIVectorMarketDepth::new(100, 200);
    depth.update_bid_depth(120, 9, 1);
    let rows = vec![
        SnapshotLevel { ev: BUY_EVENT, price_tick: 150, qty: 2 },
        SnapshotLevel { ev: BUY_EVENT, price_tick: 155, qty: 3 },
        SnapshotLevel { ev: SELL_EVENT, price_tick: 160, qty: 4 },
        SnapshotLevel { ev: SELL_EVENT, price_tick: 300, qty: 1 },
    ];
    depth.apply_snapshot(&rows);
    assert_eq!(depth.bid_qty_at_tick(120), 0);
    assert_eq!(depth.best_bid_tick(), 155);
    assert_eq!(depth.best_bid_qty(), 3);
    assert_eq!(depth.best_ask_tick(), 160);
    assert_eq!(depth.ask_qty_at_tick(300), 0);
}

#[test]
fn roi_clear_orders_of_one_side() {
    let mut depth = ROIVectorMarketDepth::new(100, 200);
    depth.add_buy_order(1, 150, 2, 0).unwrap();
    depth.add_buy_order(2, 151, 2, 0).unwrap();
    depth.add_sell_order(3, 160, 2, 0).unwrap();
    depth.clear_orders(Side::Buy);
    assert_eq!(depth.orders().len(), 1);
    assert!(depth.orders().contains_key(&3));
    assert_eq!(depth.bid_qty_at_tick(151), 0);
    assert_eq!(depth.best_bid_tick(), INVALID_MIN);
    assert_eq!(depth.best_ask_tick(), 160);
}
