use rust_orderbook::binance::{
    BinanceClient, FetchError, Order, OrderBook, RawLevel, RawOrderBook, Reply, Side,
};
use rust_orderbook::levels::sort_levels;
use rust_orderbook::decimal::{Decimal, MAX_MANTISSA};
use std::cmp::Ordering;
use std::collections::HashMap;

fn num(text: &str) -> Decimal {
    Decimal::parse(text).expect("a decimal")
}

fn level(price: &str, quantity: &str, side: Side) -> Order {
    Order::new(price.to_string(), quantity.to_string(), side)
}

fn raw(price: &str, quantity: &str) -> RawLevel {
    RawLevel { price: price.to_string(), quantity: quantity.to_string() }
}

fn prices(levels: &[Order]) -> Vec<Decimal> {
    levels.iter().map(|l| l.price).collect()
}

#[test]
fn total_is_price_times_quantity() {
    let order = level("50000.12", "0.001500", Side::Buy);
    assert_eq!(order.price, num("50000.12"));
    assert_eq!(order.amount, num("0.001500"));
    assert_eq!(order.total, num("75.000180"));
    assert_eq!(order.side, Side::Buy);
}

#[test]
fn total_has_no_rounding_drift() {
    let order = level("0.1", "0.2", Side::Sell);
    assert_eq!(order.total, num("0.02"));
    assert_eq!(order.total.mantissa(), 2);
    assert_eq!(order.total.scale(), 2);
    let many = level("19999.99", "3", Side::Sell);
    assert_eq!(many.total, num("59999.97"));
    let fine = level("0.00000001", "0.00000001", Side::Buy);
    assert_eq!(fine.total, num("0.0000000000000001"));
}

#[test]
fn a_text_that_is_no_number_counts_as_zero() {
    let order = level("n/a", "2", Side::Buy);
    assert_eq!(order.price, Decimal::zero());
    assert_eq!(order.amount, num("2"));
    assert_eq!(order.total, Decimal::zero());
    let other = level("100.5", "", Side::Sell);
    assert_eq!(other.price, num("100.5"));
    assert_eq!(other.amount, Decimal::zero());
    assert_eq!(other.total, Decimal::zero());
    assert_eq!(other.side, Side::Sell);
}

#[test]
fn try_new_agrees_with_new_and_reports_overflow() {
    let order = Order::try_new("100.0".to_string(), "2".to_string(), Side::Buy).expect("fits");
    assert_eq!(order.price, num("100.0"));
    assert_eq!(order.amount, num("2"));
    assert_eq!(order.total, num("200.0"));
    assert_eq!(order.side, Side::Buy);
    let huge = "79228162514264337593543950335";
    assert!(Order::try_new(huge.to_string(), "2".to_string(), Side::Buy).is_none());
    assert!(Order::try_new(huge.to_string(), huge.to_string(), Side::Sell).is_none());
    assert!(Order::try_new(huge.to_string(), "1".to_string(), Side::Sell).is_some());
}

#[test]
fn total_is_exact_wherever_it_can_be_written() {
    let large = "79228162514264337593543950330";
    let order = Order::try_new(large.to_string(), "1.0".to_string(), Side::Buy).expect("exact");
    assert_eq!(order.total, num(large));
    let fine = Order::try_new("0.0000000000000000000000000005".to_string(), "0.2".to_string(), Side::Sell)
        .expect("exact");
    assert_eq!(fine.total, num("0.0000000000000000000000000001"));
    let levels = RawOrderBook { bids: vec![raw(large, "1.0")], asks: vec![raw("0.50", "0.20")] };
    let book = BinanceClient::new()
        .try_get_order_book(Reply::Decoded(levels))
        .expect("exact")
        .expect("a book");
    assert_eq!(book.bids[0].total, num(large));
    assert_eq!(book.asks[0].total, num("0.1"));
}

#[test]
fn try_from_parsed_builds_from_readings() {
    let price = Decimal::try_from_i128_with_scale(1000, 1);
    let quantity = Decimal::try_from_i128_with_scale(2, 0);
    let order = Order::try_from_parsed(price, quantity, Side::Sell).expect("fits");
    assert_eq!(order.price.mantissa(), 1000);
    assert_eq!(order.price.scale(), 1);
    assert_eq!(order.total, num("200"));
    assert_eq!(order.side, Side::Sell);
    let lenient = Order::try_from_parsed(None, quantity, Side::Buy).expect("fits");
    assert_eq!(lenient.price.mantissa(), 0);
    assert_eq!(lenient.total, Decimal::zero());
    let largest = Decimal::try_from_i128_with_scale(MAX_MANTISSA, 0);
    assert!(Order::try_from_parsed(largest, largest, Side::Buy).is_none());
}

#[test]
fn levels_are_equal_when_their_prices_are() {
    assert_eq!(level("100.0", "1", Side::Buy), level("100.00", "7", Side::Buy));
    assert_eq!(level("100.0", "1", Side::Buy), level("100", "1", Side::Sell));
    assert_ne!(level("100.0", "1", Side::Buy), level("100.1", "1", Side::Buy));
}

#[test]
fn buy_levels_order_by_descending_price() {
    let high = level("101", "1", Side::Buy);
    let low = level("100", "1", Side::Buy);
    assert_eq!(high.cmp(&low), Ordering::Less);
    assert_eq!(low.cmp(&high), Ordering::Greater);
    assert_eq!(high.cmp(&level("101.0", "5", Side::Buy)), Ordering::Equal);
    assert!(high < low);
    assert!(high.comes_before(&low));
    assert!(!low.comes_before(&high));
    assert!(!high.comes_before(&high));
    assert_eq!(high.partial_cmp(&low), Some(Ordering::Less));
}

#[test]
fn sell_levels_order_by_ascending_price() {
    let high = level("101", "1", Side::Sell);
    let low = level("100", "1", Side::Sell);
    assert_eq!(low.cmp(&high), Ordering::Less);
    assert_eq!(high.cmp(&low), Ordering::Greater);
    assert!(low < high);
    assert!(low.comes_before(&high));
    assert!(!high.comes_before(&low));
}

#[test]
fn sorting_bids_gives_strictly_descending_prices() {
    let mut bids = vec![
        level("100.5", "1", Side::Buy),
        level("102", "2", Side::Buy),
        level("99.99", "3", Side::Buy),
        level("101.25", "4", Side::Buy),
    ];
    sort_levels(&mut bids);
    assert_eq!(prices(&bids), vec![num("102"), num("101.25"), num("100.5"), num("99.99")]);
    for pair in bids.windows(2) {
        assert!(pair[0].price > pair[1].price);
    }
}

#[test]
fn sorting_asks_gives_strictly_ascending_prices() {
    let mut asks = vec![
        level("100.5", "1", Side::Sell),
        level("102", "2", Side::Sell),
        level("99.99", "3", Side::Sell),
        level("101.25", "4", Side::Sell),
    ];
    sort_levels(&mut asks);
    assert_eq!(prices(&asks), vec![num("99.99"), num("100.5"), num("101.25"), num("102")]);
    for pair in asks.windows(2) {
        assert!(pair[0].price < pair[1].price);
    }
}

#[test]
fn sorting_keeps_every_level_and_the_order_of_equal_ones() {
    let mut bids = vec![
        level("100", "1", Side::Buy),
        level("101", "2", Side::Buy),
        level("100.0", "3", Side::Buy),
        level("101.00", "4", Side::Buy),
    ];
    sort_levels(&mut bids);
    let quantities: Vec<Decimal> = bids.iter().map(|l| l.amount).collect();
    assert_eq!(quantities, vec![num("2"), num("4"), num("1"), num("3")]);
    let mut none: Vec<Order> = Vec::new();
    sort_levels(&mut none);
    assert!(none.is_empty());
}

#[test]
fn sorting_agrees_with_the_standard_sort() {
    let texts = ["5", "3.5", "9", "1", "7.25", "2", "8", "6", "4", "0.5"];
    let mut ours: Vec<Order> = texts.iter().map(|t| level(t, "1", Side::Sell)).collect();
    let mut theirs = ours.clone();
    sort_levels(&mut ours);
    theirs.sort_by(|a, b| a.cmp(b));
    assert_eq!(prices(&ours), prices(&theirs));
}

#[test]
fn order_book_is_parsed_from_the_exchange_json() {
    let json = r#"{"bids":[["100.0","2"]],"asks":[["101.0","1"]]}"#;
    let mut decoded: HashMap<String, Vec<(String, String)>> =
        serde_json::from_str(json).expect("well-formed");
    let pairs = |levels: Vec<(String, String)>| -> Vec<RawLevel> {
        levels.into_iter().map(|(price, quantity)| RawLevel { price, quantity }).collect()
    };
    let raw_book = RawOrderBook {
        bids: pairs(decoded.remove("bids").expect("bids")),
        asks: pairs(decoded.remove("asks").expect("asks")),
    };
    let book = BinanceClient::new().get_order_book(Reply::Decoded(raw_book)).expect("a book");
    assert_eq!(book.bids.len(), 1);
    assert_eq!(book.bids[0].side, Side::Buy);
    assert_eq!(book.bids[0].price, num("100.0"));
    assert_eq!(book.bids[0].amount, num("2"));
    assert_eq!(book.bids[0].total, num("200.0"));
    assert_eq!(book.asks.len(), 1);
    assert_eq!(book.asks[0].side, Side::Sell);
    assert_eq!(book.asks[0].price, num("101.0"));
    assert_eq!(book.asks[0].amount, num("1"));
    assert_eq!(book.asks[0].total, num("101.0"));
    assert_eq!(book.lowest_ask(), Some(num("101.0")));
    assert_eq!(book.highest_bid(), Some(num("100.0")));
    let spread = book.asks[0].price.checked_sub(&book.bids[0].price);
    assert_eq!(spread, Some(num("1.0")));
}

#[test]
fn order_book_keeps_the_order_received() {
    let raw_book = RawOrderBook {
        bids: vec![raw("99", "1"), raw("100", "2"), raw("98", "3")],
        asks: vec![raw("103", "1"), raw("bad", "2"), raw("102", "0.5")],
    };
    let book = BinanceClient::new().get_order_book(Reply::Decoded(raw_book)).expect("a book");
    assert_eq!(prices(&book.bids), vec![num("99"), num("100"), num("98")]);
    assert_eq!(prices(&book.asks), vec![num("103"), Decimal::zero(), num("102")]);
    assert!(book.bids.iter().all(|l| l.side == Side::Buy));
    assert!(book.asks.iter().all(|l| l.side == Side::Sell));
    assert_eq!(book.asks[2].total, num("51"));
    assert_eq!(book.asks[1].total, Decimal::zero());
}

#[test]
fn a_thin_book_may_be_empty_on_either_side() {
    let raw_book = RawOrderBook { bids: vec![], asks: vec![raw("101", "1")] };
    let book = BinanceClient::new().get_order_book(Reply::Decoded(raw_book)).expect("a book");
    assert!(book.bids.is_empty());
    assert_eq!(book.asks.len(), 1);
    assert_eq!(book.highest_bid(), None);
    assert_eq!(book.lowest_ask(), Some(num("101")));
}

#[test]
fn order_book_failures_are_classified() {
    let client = BinanceClient::new();
    let undecodable = client.get_order_book(Reply::Malformed("missing field `bids`".to_string()));
    assert_eq!(
        undecodable.err(),
        Some(FetchError::DecodeError("missing field `bids`".to_string()))
    );
    let unreachable = client.get_order_book(Reply::Unreachable("connection refused".to_string()));
    assert_eq!(
        unreachable.err(),
        Some(FetchError::TransportError("connection refused".to_string()))
    );
}

#[test]
fn try_get_order_book_reports_overflow() {
    let client = BinanceClient::new();
    let huge = "79228162514264337593543950335";
    let overflowing = RawOrderBook { bids: vec![raw("1", "1"), raw(huge, "10")], asks: vec![] };
    assert!(client.try_get_order_book(Reply::Decoded(overflowing)).is_none());
    let in_asks = RawOrderBook { bids: vec![], asks: vec![raw(huge, huge)] };
    assert!(client.try_get_order_book(Reply::Decoded(in_asks)).is_none());
    let fine = RawOrderBook { bids: vec![raw("100", "2")], asks: vec![raw("101", "1")] };
    let book = client.try_get_order_book(Reply::Decoded(fine)).expect("fits").expect("a book");
    assert_eq!(book.bids[0].total, num("200"));
    assert_eq!(book.asks[0].total, num("101"));
    let failed = client.try_get_order_book(Reply::Unreachable("timed out".to_string()));
    assert_eq!(
        failed.expect("no level to overflow").err(),
        Some(FetchError::TransportError("timed out".to_string()))
    );
}

#[test]
fn best_prices_are_found_by_scanning() {
    let book = OrderBook {
        bids: vec![level("99", "1", Side::Buy), level("100.5", "1", Side::Buy), level("98", "1", Side::Buy)],
        asks: vec![level("103", "1", Side::Sell), level("101.5", "1", Side::Sell), level("102", "1", Side::Sell)],
    };
    assert_eq!(book.highest_bid(), Some(num("100.5")));
    assert_eq!(book.lowest_ask(), Some(num("101.5")));
}

#[test]
fn of_equal_best_prices_min_takes_the_first_and_max_the_last() {
    let book = OrderBook {
        bids: vec![level("100.0", "1", Side::Buy), level("100.00", "1", Side::Buy)],
        asks: vec![level("101.0", "1", Side::Sell), level("101.00", "1", Side::Sell)],
    };
    assert_eq!(book.lowest_ask().map(|d| d.scale()), Some(1));
    assert_eq!(book.highest_bid().map(|d| d.scale()), Some(2));
    let std_min = book.asks.iter().map(|a| a.price.scale()).min_by_key(|_| 0);
    let std_max = book.bids.iter().map(|b| b.price.scale()).max_by_key(|_| 0);
    assert_eq!(book.lowest_ask().map(|d| d.scale()), std_min);
    assert_eq!(book.highest_bid().map(|d| d.scale()), std_max);
}
