use hftbacktest::connector::binancefutures::{
    errors_after, BinanceFuturesBuilder, ConnectionEnd, Endpoint as BinanceEndpoint,
};
use hftbacktest::connector::bybit::{BybitBuilder, Endpoint as BybitEndpoint};
use hftbacktest::connector::reconnect_delay_secs;
use hftbacktest::live::ipc::{ChannelConfig, IceoryxBuilder, CHANNEL_BUFFER_SIZE, MAX_BOTS_PER_CONNECTOR};
use hftbacktest::connector::bybit::ordermanager::{HandleError, OrderManager};
use hftbacktest::types::{BuildError, OrdType, Order, Side, Status, TimeInForce};

#[test]
fn binance_builder_requires_urls_and_keys() {
    match BinanceFuturesBuilder::new().build() {
        Err(BuildError::BuilderIncomplete(f)) => assert_eq!(f, "stream_url"),
        _ => panic!("expected an incomplete builder"),
    }
    let builder = BinanceFuturesBuilder::new().endpoint(BinanceEndpoint::Testnet);
    match builder.build() {
        Err(BuildError::BuilderIncomplete(f)) => assert_eq!(f, "api_key"),
        _ => panic!("expected an incomplete builder"),
    }
    let params = BinanceFuturesBuilder::new()
        .endpoint(BinanceEndpoint::Public)
        .api_url(BinanceEndpoint::Custom("https://example.invalid".to_string()))
        .api_key("key")
        .secret("secret")
        .order_prefix("bot")
        .add_stream("btcusdt@bookTicker")
        .add_stream("btcusdt@bookTicker")
        .build()
        .unwrap();
    assert_eq!(params.url, "wss://fstream.binance.com");
    assert_eq!(params.api_url, "https://example.invalid");
    assert_eq!(params.prefix, "bot");
    assert_eq!(params.streams, vec!["btcusdt@bookTicker".to_string()]);
}

#[test]
fn bybit_builder_requires_every_url_keys_and_category() {
    let builder = BybitBuilder::new().endpoint(BybitEndpoint::Linear).api_key("k").secret("s");
    match builder.build() {
        Err(BuildError::BuilderIncomplete(f)) => assert_eq!(f, "category"),
        _ => panic!("expected an incomplete builder"),
    }
    let params = BybitBuilder::new()
        .endpoint(BybitEndpoint::Testnet)
        .api_key("k")
        .secret("s")
        .category("linear")
        .order_prefix("bot")
        .subscribe_multiple_depth()
        .build()
        .unwrap();
    assert_eq!(params.public_url, "wss://stream-testnet.bybit.com/v5/public/linear");
    assert_eq!(params.private_url, "wss://stream-testnet.bybit.com/v5/private");
    let mut topics = params.topics.clone();
    topics.sort();
    assert_eq!(topics, vec!["orderbook.1".to_string(), "orderbook.500".to_string()]);
}

#[test]
fn ipc_service_names_depend_on_the_end() {
    let builder = IceoryxBuilder::new("conn");
    assert!(builder.get_bot());
    assert_eq!(builder.get_name(), "conn");
    assert_eq!(builder.receiver_service_name(), "conn/ToBot");
    assert_eq!(builder.sender_service_name(), "conn/FromBot");
    let builder = builder.bot(false);
    assert_eq!(builder.receiver_service_name(), "conn/FromBot");
    assert_eq!(builder.sender_service_name(), "conn/ToBot");
}

#[test]
fn channel_config_defaults_when_nothing_was_loaded() {
    let config = ChannelConfig::or_default(None);
    assert_eq!(config.buffer_size, CHANNEL_BUFFER_SIZE);
    assert_eq!(config.max_bots, MAX_BOTS_PER_CONNECTOR);
    let loaded = ChannelConfig { buffer_size: 3, max_bots: 4 };
    let config = ChannelConfig::or_default(Some(loaded));
    assert_eq!((config.buffer_size, config.max_bots), (3, 4));
}

#[test]
fn connections_wait_only_after_an_error() {
    assert_eq!(reconnect_delay_secs(0), 0);
    assert_eq!(reconnect_delay_secs(1), 5);
    assert_eq!(reconnect_delay_secs(7), 5);
}

#[test]
fn binance_stream_url_combines_user_and_market_streams() {
    let params = BinanceFuturesBuilder::new()
        .endpoint(BinanceEndpoint::Public)
        .api_key("k")
        .secret("s")
        .add_stream("btcusdt@bookTicker")
        .build()
        .unwrap();
    let url = params.stream_url("LISTEN", &vec!["BTCUSDT".to_string(), "ETHUSDT".to_string()]);
    assert_eq!(
        url,
        "wss://fstream.binance.com/stream?streams=LISTEN/btcusdt@depth@0ms/btcusdt@trade/\
         ethusdt@depth@0ms/ethusdt@trade/btcusdt@bookTicker"
    );
}

#[test]
fn bybit_public_topics_start_with_the_book_and_trades() {
    let params = BybitBuilder::new()
        .endpoint(BybitEndpoint::Linear)
        .api_key("k")
        .secret("s")
        .category("linear")
        .add_topic("tickers.BTCUSDT")
        .build()
        .unwrap();
    assert_eq!(
        params.public_topics(),
        vec!["orderbook.50".to_string(), "publicTrade".to_string(), "tickers.BTCUSDT".to_string()]
    );
}

fn bybit_order(id: u64, side: Side, tif: TimeInForce) -> Order {
    Order::new(id, 500_000, 10, side, OrdType::Limit, tif)
}

#[test]
fn bybit_new_order_names_the_order_by_its_link_id() {
    let mut m = OrderManager::new("pfx");
    let b = m
        .new_order("BTCUSDT", "linear", 1, bybit_order(42, Side::Buy, TimeInForce::GTC), "0.01000".to_string(), "50000.0".to_string(), "abcdefgh")
        .unwrap();
    assert_eq!(b.symbol, "BTCUSDT");
    assert_eq!(b.side.as_deref(), Some("Buy"));
    assert_eq!(b.order_type.as_deref(), Some("Limit"));
    assert_eq!(b.time_in_force.as_deref(), Some("GTC"));
    assert_eq!(b.qty.as_deref(), Some("0.01000"));
    assert_eq!(b.price.as_deref(), Some("50000.0"));
    assert_eq!(b.category, "linear");
    assert_eq!(b.order_link_id, "pfxabcdefgh42");
    assert!(matches!(
        m.new_order("BTCUSDT", "linear", 1, bybit_order(42, Side::Sell, TimeInForce::GTC), String::new(), String::new(), "zzzzzzzz"),
        Err(HandleError::OrderAlreadyExist)
    ));
    let b = m
        .new_order("BTCUSDT", "linear", 1, bybit_order(7, Side::Sell, TimeInForce::GTX), String::new(), String::new(), "zzzzzzzz")
        .unwrap();
    assert_eq!(b.side.as_deref(), Some("Sell"));
    assert_eq!(b.time_in_force.as_deref(), Some("PostOnly"));
    assert!(matches!(
        m.new_order("BTCUSDT", "linear", 1, bybit_order(8, Side::Nil, TimeInForce::GTC), String::new(), String::new(), "zzzzzzzz"),
        Err(HandleError::InvalidArg("side"))
    ));
    assert!(matches!(
        m.new_order("BTCUSDT", "linear", 1, bybit_order(8, Side::Buy, TimeInForce::Unsupported), String::new(), String::new(), "zzzzzzzz"),
        Err(HandleError::InvalidArg("time_in_force"))
    ));
    let c = m.cancel_order("BTCUSDT", "linear", 42).unwrap();
    assert_eq!(c.order_link_id, "pfxabcdefgh42");
    assert!(c.side.is_none() && c.qty.is_none() && c.price.is_none());
    assert!(matches!(m.cancel_order("BTCUSDT", "linear", 99), Err(HandleError::OrderNotFound)));
}

#[test]
fn bybit_order_updates_follow_the_link_id() {
    let mut m = OrderManager::new("pfx");
    m.new_order("BTCUSDT", "linear", 3, bybit_order(42, Side::Buy, TimeInForce::GTC), String::new(), String::new(), "abcdefgh").unwrap();
    assert!(matches!(m.update_order("other12345678", Status::New, 1), Err(HandleError::PrefixUnmatched)));
    match m.update_order("pfxabcdefghX1", Status::New, 1) {
        Err(HandleError::InvalidOrderId(msg)) => assert_eq!(msg, "invalid digit found in string"),
        _ => panic!("expected an invalid order id"),
    }
    assert!(matches!(m.update_order("pfxabcdefgh43", Status::New, 1), Err(HandleError::OrderNotFound)));
    let (asset_no, o) = m.update_order("pfxabcdefgh42", Status::New, 1_700).unwrap();
    assert_eq!(asset_no, 3);
    assert_eq!(o.status, Status::New);
    assert_eq!(o.req, Status::Nil);
    assert_eq!(o.exch_timestamp, 1_700_000_000);
    let (_, o) = m.update_execution("pfxabcdefgh42", 499_990, 4, 1_800).unwrap();
    assert_eq!((o.exec_price_tick, o.exec_qty, o.exch_timestamp), (499_990, 4, 1_800_000_000));
    let (_, o) = m.update_cancel_fail("pfxabcdefgh42").unwrap();
    assert_eq!(o.req, Status::Nil);
    // A filled order is no longer active and is forgotten.
    let (_, o) = m.update_order("pfxabcdefgh42", Status::Filled, 1_900).unwrap();
    assert_eq!(o.status, Status::Filled);
    assert!(matches!(m.update_order("pfxabcdefgh42", Status::New, 2), Err(HandleError::OrderNotFound)));
}

#[test]
fn bybit_refused_and_cleared_orders() {
    let mut m = OrderManager::new("p");
    m.new_order("ETHUSDT", "linear", 0, bybit_order(1, Side::Buy, TimeInForce::IOC), String::new(), String::new(), "12345678").unwrap();
    m.new_order("ETHUSDT", "linear", 2, bybit_order(2, Side::Sell, TimeInForce::FOK), String::new(), String::new(), "12345678").unwrap();
    let (asset_no, o) = m.update_submit_fail("p123456781").unwrap();
    assert_eq!((asset_no, o.status, o.req), (0, Status::Expired, Status::Nil));
    assert!(matches!(m.update_submit_fail("p123456781"), Err(HandleError::OrderNotFound)));
    let cleared = m.clear_orders();
    assert_eq!(cleared.len(), 1);
    assert_eq!(cleared[0].0, 2);
    assert_eq!(cleared[0].1.order_id, 2);
    assert_eq!(cleared[0].1.status, Status::Canceled);
    assert!(m.clear_orders().is_empty());
}

#[test]
fn binance_connection_errors_count_except_the_user_stream_start() {
    assert_eq!(errors_after(ConnectionEnd::CancelAllOrders, 0), 1);
    assert_eq!(errors_after(ConnectionEnd::GetPositions, 1), 2);
    assert_eq!(errors_after(ConnectionEnd::Stream, 2), 3);
    assert_eq!(errors_after(ConnectionEnd::StartUserDataStream, 0), 0);
    assert_eq!(reconnect_delay_secs(errors_after(ConnectionEnd::StartUserDataStream, 0)), 0);
}
