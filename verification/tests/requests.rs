use rust_orderbook::binance::{
    BinanceClient, FetchError, RawTrade, Reply, Side, Ticker, Trade, BASE_URL, MAX_UTC_MILLIS,
    MIN_UTC_MILLIS, SYMBOL,
};
use rust_orderbook::decimal::Decimal;

fn amount(text: &str) -> Decimal {
    Decimal::parse(text).expect("a decimal")
}

fn raw_trade(id: u64, time: i64, is_buyer_maker: bool) -> RawTrade {
    RawTrade { id, price: amount("50000.12"), qty: amount("0.25"), time, is_buyer_maker }
}

fn some_ticker() -> Ticker {
    Ticker {
        last_price: amount("50000.12"),
        open_price: amount("49000"),
        high_price: amount("51000.5"),
        low_price: amount("48500.25"),
        volume: amount("1234.5678"),
        price_change_percent: amount("-2.04"),
    }
}

#[test]
fn the_pair_and_the_address_are_fixed() {
    assert_eq!(SYMBOL, "BTCUSDT");
    assert_eq!(BASE_URL, "https://api.binance.com/api/v3");
}

#[test]
fn order_book_url_names_pair_and_depth() {
    let client = BinanceClient::new();
    assert_eq!(
        client.order_book_url(15),
        "https://api.binance.com/api/v3/depth?symbol=BTCUSDT&limit=15"
    );
    assert_eq!(
        client.order_book_url(5000),
        "https://api.binance.com/api/v3/depth?symbol=BTCUSDT&limit=5000"
    );
    assert_eq!(
        client.order_book_url(0),
        "https://api.binance.com/api/v3/depth?symbol=BTCUSDT&limit=0"
    );
    assert_eq!(
        client.order_book_url(usize::MAX),
        format!("https://api.binance.com/api/v3/depth?symbol=BTCUSDT&limit={}", usize::MAX)
    );
}

#[test]
fn ticker_url_names_the_pair() {
    assert_eq!(
        BinanceClient::new().ticker_url(),
        "https://api.binance.com/api/v3/ticker/24hr?symbol=BTCUSDT"
    );
}

#[test]
fn recent_trades_url_names_pair_and_limit() {
    let client = BinanceClient::new();
    assert_eq!(
        client.recent_trades_url(15),
        "https://api.binance.com/api/v3/trades?symbol=BTCUSDT&limit=15"
    );
    assert_eq!(
        client.recent_trades_url(1009),
        "https://api.binance.com/api/v3/trades?symbol=BTCUSDT&limit=1009"
    );
    assert_eq!(client.recent_trades_url(7), format!("{}/trades?symbol={}&limit={}", BASE_URL, SYMBOL, 7));
}

#[test]
fn buyer_maker_means_sell() {
    assert_eq!(Side::from_buyer_maker(true), Side::Sell);
    assert_eq!(Side::from_buyer_maker(false), Side::Buy);
    let sold = Trade::from_raw(raw_trade(1, 1_700_000_000_000, true));
    assert_eq!(sold.side, Side::Sell);
    assert!(sold.is_buyer_maker);
    let bought = Trade::from_raw(raw_trade(2, 1_700_000_000_000, false));
    assert_eq!(bought.side, Side::Buy);
    assert!(!bought.is_buyer_maker);
}

#[test]
fn a_trade_keeps_what_the_exchange_sent() {
    let trade = Trade::from_raw(raw_trade(42, 947_638_923_004, true));
    assert_eq!(trade.id, 42);
    assert_eq!(trade.price, amount("50000.12"));
    assert_eq!(trade.qty, amount("0.25"));
    assert_eq!(trade.time, 947_638_923_004);
}

#[test]
fn a_time_that_is_no_instant_becomes_the_epoch() {
    assert_eq!(Trade::from_raw(raw_trade(1, i64::MAX, false)).time, 0);
    assert_eq!(Trade::from_raw(raw_trade(1, i64::MIN, false)).time, 0);
    assert_eq!(Trade::from_raw(raw_trade(1, -1, false)).time, -1);
    assert_eq!(Trade::from_raw(raw_trade(1, 0, false)).time, 0);
    assert_eq!(Trade::from_raw(raw_trade(1, 8_000_000_000_000_000, false)).time, 8_000_000_000_000_000);
}

#[test]
fn the_bounds_of_time_are_those_of_chrono() {
    assert_eq!(MIN_UTC_MILLIS, chrono::DateTime::<chrono::Utc>::MIN_UTC.timestamp_millis());
    assert_eq!(MAX_UTC_MILLIS, chrono::DateTime::<chrono::Utc>::MAX_UTC.timestamp_millis());
    assert!(chrono::DateTime::from_timestamp_millis(MIN_UTC_MILLIS).is_some());
    assert!(chrono::DateTime::from_timestamp_millis(MIN_UTC_MILLIS - 1).is_none());
    assert!(chrono::DateTime::from_timestamp_millis(MAX_UTC_MILLIS).is_some());
    assert!(chrono::DateTime::from_timestamp_millis(MAX_UTC_MILLIS + 1).is_none());
}

#[test]
fn a_time_is_kept_exactly_within_the_bounds() {
    assert_eq!(Trade::from_raw(raw_trade(1, MIN_UTC_MILLIS, false)).time, MIN_UTC_MILLIS);
    assert_eq!(Trade::from_raw(raw_trade(1, MIN_UTC_MILLIS - 1, false)).time, 0);
    assert_eq!(Trade::from_raw(raw_trade(1, MAX_UTC_MILLIS, false)).time, MAX_UTC_MILLIS);
    assert_eq!(Trade::from_raw(raw_trade(1, MAX_UTC_MILLIS + 1, false)).time, 0);
    let mut state: u64 = 99;
    for _ in 0..20000 {
        state = state.wrapping_mul(6364136223846793005).wrapping_add(1442695040888963407);
        let time = (state as i64) >> (state % 12);
        let kept = MIN_UTC_MILLIS <= time && time <= MAX_UTC_MILLIS;
        assert_eq!(chrono::DateTime::from_timestamp_millis(time).is_some(), kept);
        assert_eq!(Trade::from_raw(raw_trade(1, time, true)).time, if kept { time } else { 0 });
    }
}

#[test]
fn the_conversion_of_the_time_agrees_with_chrono() {
    for time in [i64::MIN, -9_000_000_000_000_000, -1, 0, 1_700_000_000_123, 9_000_000_000_000_000, i64::MAX] {
        let expected = chrono::DateTime::from_timestamp_millis(time).unwrap_or_default();
        assert_eq!(Trade::from_raw(raw_trade(1, time, true)).time, expected.timestamp_millis());
    }
}

#[test]
fn with_instant_follows_the_outcome_it_is_given() {
    let kept = Trade::with_instant(raw_trade(3, 1234, true), true);
    assert_eq!(kept.time, 1234);
    assert_eq!(kept.side, Side::Sell);
    let replaced = Trade::with_instant(raw_trade(3, 1234, false), false);
    assert_eq!(replaced.time, 0);
    assert_eq!(replaced.side, Side::Buy);
    assert_eq!(replaced.id, 3);
}

#[test]
fn recent_trades_keep_the_order_received() {
    let raw = vec![
        raw_trade(12, 1_700_000_002_000, false),
        raw_trade(10, 1_700_000_000_000, true),
        raw_trade(11, i64::MAX, true),
    ];
    let trades = BinanceClient::new().get_recent_trades(Reply::Decoded(raw)).expect("trades");
    let ids: Vec<u64> = trades.iter().map(|t| t.id).collect();
    assert_eq!(ids, vec![12, 10, 11]);
    let sides: Vec<Side> = trades.iter().map(|t| t.side).collect();
    assert_eq!(sides, vec![Side::Buy, Side::Sell, Side::Sell]);
    let times: Vec<i64> = trades.iter().map(|t| t.time).collect();
    assert_eq!(times, vec![1_700_000_002_000, 1_700_000_000_000, 0]);
    let none = BinanceClient::new().get_recent_trades(Reply::Decoded(vec![])).expect("trades");
    assert!(none.is_empty());
}

#[test]
fn recent_trades_failures_are_classified() {
    let client = BinanceClient::new();
    let undecodable = client.get_recent_trades(Reply::Malformed("expected a sequence".to_string()));
    assert_eq!(
        undecodable.err(),
        Some(FetchError::DecodeError("expected a sequence".to_string()))
    );
    let unreachable = client.get_recent_trades(Reply::Unreachable("dns error".to_string()));
    assert_eq!(unreachable.err(), Some(FetchError::TransportError("dns error".to_string())));
}

#[test]
fn ticker_is_handed_on() {
    let ticker = BinanceClient::new().get_ticker(Reply::Decoded(some_ticker())).expect("a ticker");
    assert_eq!(ticker.last_price, amount("50000.12"));
    assert_eq!(ticker.open_price, amount("49000"));
    assert_eq!(ticker.high_price, amount("51000.5"));
    assert_eq!(ticker.low_price, amount("48500.25"));
    assert_eq!(ticker.volume, amount("1234.5678"));
    assert_eq!(ticker.price_change_percent, amount("-2.04"));
    assert!(ticker.price_change_percent < Decimal::zero());
}

#[test]
fn ticker_failures_are_classified() {
    let client = BinanceClient::new();
    let unknown = client.get_ticker(Reply::Malformed("invalid symbol".to_string()));
    assert_eq!(unknown.err(), Some(FetchError::DataUnavailable("invalid symbol".to_string())));
    let unreachable = client.get_ticker(Reply::Unreachable("connection reset".to_string()));
    assert_eq!(
        unreachable.err(),
        Some(FetchError::TransportError("connection reset".to_string()))
    );
}

#[test]
fn an_error_carries_its_report() {
    assert_eq!(FetchError::TransportError("a".to_string()).message(), "a");
    assert_eq!(FetchError::DecodeError("b".to_string()).message(), "b");
    assert_eq!(FetchError::DataUnavailable("c".to_string()).message(), "c");
}
