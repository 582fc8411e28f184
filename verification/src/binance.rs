//! The exchange's market data in one typed model: price levels, the order
//! book, the 24-hour ticker and recent trades, and the rules by which the
//! exchange's replies are turned into them.

use crate::decimal::{
    decimal_from_text, decimal_product, is_product, option_view, order_of, product_fits,
    product_is_representable, view_or_zero, Decimal, DecimalView,
};
use crate::text::{decimal_text, push_decimal};
use std::cmp::Ordering;
use vstd::prelude::*;
use vstd::string::StringExecFns;

verus! {

/// The trading pair that every request names.
pub const SYMBOL: &'static str = "BTCUSDT";

/// The address under which the exchange serves its public market data.
pub const BASE_URL: &'static str = "https://api.binance.com/api/v3";

/// The side of the book a price level rests on, or the side that took a trade.
#[derive(Debug, Clone, Copy, PartialEq, Eq, Structural)]
pub enum Side {
    Buy,
    Sell,
}

impl Side {
    /// The side of a trade's aggressor: where the buyer was the maker the
    /// seller took, so the trade counts as a sell; otherwise as a buy.
    pub open spec fn of_trade(is_buyer_maker: bool) -> Side {
        if is_buyer_maker {
            Side::Sell
        } else {
            Side::Buy
        }
    }

    /// Classifies a trade by its "buyer is maker" flag.
    pub fn from_buyer_maker(is_buyer_maker: bool) -> (side: Side)
        ensures
            side == Side::of_trade(is_buyer_maker),
    {
        if is_buyer_maker {
            Side::Sell
        } else {
            Side::Buy
        }
    }
}

/// One row of the order book.
#[derive(Debug, Clone, Copy)]
pub struct Order {
    pub price: Decimal,
    pub amount: Decimal,
    pub total: Decimal,
    pub side: Side,
}

/// The total of a level whose price and quantity are given as texts, each read
/// leniently: `None` where the multiplication overflows.
pub open spec fn level_total(price_text: Seq<char>, amount_text: Seq<char>) -> Option<DecimalView> {
    decimal_product(
        view_or_zero(decimal_from_text(price_text)),
        view_or_zero(decimal_from_text(amount_text)),
    )
}

/// The defined ordering of price levels, decided by the side of the first:
/// a buy level comes before every level of lower price, a sell level before
/// every level of higher price.
pub open spec fn level_order(a: Order, b: Order) -> Ordering {
    match a.side {
        Side::Buy => order_of(b.price@.units(), a.price@.units()),
        Side::Sell => order_of(a.price@.units(), b.price@.units()),
    }
}

/// Whether the first level comes strictly before the second in the defined
/// ordering: a buy level before one of lower price, a sell level before one
/// of higher price.
pub open spec fn precedes(a: Order, b: Order) -> bool {
    match a.side {
        Side::Buy => a.price@.units() > b.price@.units(),
        Side::Sell => a.price@.units() < b.price@.units(),
    }
}

/// The product of the price and the quantity that the two texts stand for,
/// each read leniently, can be written as a decimal: the total then needs no
/// rounding and does not overflow.
pub open spec fn total_is_exact(price_text: Seq<char>, amount_text: Seq<char>) -> bool {
    product_is_representable(
        view_or_zero(decimal_from_text(price_text)),
        view_or_zero(decimal_from_text(amount_text)),
    )
}

impl Order {
    /// The total is what `rust_decimal` gives as price times quantity, and
    /// is exactly price times quantity wherever that product can be written
    /// as a decimal.
    pub open spec fn well_formed(&self) -> bool {
        &&& Some(self.total@) == decimal_product(self.price@, self.amount@)
        &&& self.total@.valid()
        &&& product_is_representable(self.price@, self.amount@) ==> is_product(
            self.total@,
            self.price@,
            self.amount@,
        )
    }

    /// The level that the given readings make, each missing reading counting
    /// as zero.
    pub open spec fn made_of(
        &self,
        price: Option<DecimalView>,
        amount: Option<DecimalView>,
        side: Side,
    ) -> bool {
        &&& self.price@ == view_or_zero(price)
        &&& self.amount@ == view_or_zero(amount)
        &&& self.side == side
        &&& self.well_formed()
    }

    /// Builds a level from the outcomes of reading its price and its quantity.
    /// A reading that failed counts as zero. `None` where the total overflows,
    /// which it does not where the product can be written as a decimal.
    pub fn try_from_parsed(price: Option<Decimal>, amount: Option<Decimal>, side: Side) -> (r:
        Option<Order>)
        ensures
            r is Some <==> decimal_product(
                view_or_zero(option_view(price)),
                view_or_zero(option_view(amount)),
            ) is Some,
            r matches Some(order) ==> order.made_of(option_view(price), option_view(amount), side),
            product_is_representable(
                view_or_zero(option_view(price)),
                view_or_zero(option_view(amount)),
            ) ==> r is Some,
            product_fits(view_or_zero(option_view(price)), view_or_zero(option_view(amount)))
                ==> r is Some,
    {
        let price = Decimal::or_zero(price);
        let amount = Decimal::or_zero(amount);
        match price.checked_mul(&amount) {
            Some(total) => Some(Order { price, amount, total, side }),
            None => None,
        }
    }

    /// Builds a level from the exchange's two texts. A text that is no number
    /// counts as zero; the total is price times quantity.
    pub fn new(price_str: String, amount_str: String, side: Side) -> (order: Order)
        requires
            level_total(price_str@, amount_str@) is Some,
        ensures
            order.made_of(decimal_from_text(price_str@), decimal_from_text(amount_str@), side),
    {
        let price = Decimal::parse(price_str.as_str());
        let amount = Decimal::parse(amount_str.as_str());
        Order::try_from_parsed(price, amount, side).unwrap()
    }

    /// As [`Order::new`], for any two texts: `None` where the total overflows,
    /// which it does not where the product can be written as a decimal.
    pub fn try_new(price_str: String, amount_str: String, side: Side) -> (r: Option<Order>)
        ensures
            r is Some <==> level_total(price_str@, amount_str@) is Some,
            r matches Some(order) ==> order.made_of(
                decimal_from_text(price_str@),
                decimal_from_text(amount_str@),
                side,
            ),
            total_is_exact(price_str@, amount_str@) ==> r is Some,
            total_fits(price_str@, amount_str@) ==> r is Some,
    {
        let price = Decimal::parse_or_zero(price_str.as_str());
        let amount = Decimal::parse_or_zero(amount_str.as_str());
        if price.checked_mul(&amount).is_some() {
            Some(Order::new(price_str, amount_str, side))
        } else {
            None
        }
    }

    /// Compares two levels by the defined ordering.
    pub fn cmp(&self, other: &Order) -> (r: Ordering)
        ensures
            r == level_order(*self, *other),
    {
        match self.side {
            Side::Buy => other.price.cmp(&self.price),
            Side::Sell => self.price.cmp(&other.price),
        }
    }

    /// Whether this level comes strictly before the other in the defined
    /// ordering.
    pub fn comes_before(&self, other: &Order) -> (r: bool)
        ensures
            r == precedes(*self, *other),
    {
        match self.cmp(other) {
            Ordering::Less => true,
            _ => false,
        }
    }
}

impl PartialEq for Order {
    /// Two levels are equal when their prices are, whatever their quantities.
    fn eq(&self, other: &Order) -> (r: bool) {
        self.price == other.price
    }
}

impl Eq for Order {

}

impl vstd::std_specs::cmp::PartialEqSpecImpl for Order {
    open spec fn obeys_eq_spec() -> bool {
        true
    }

    open spec fn eq_spec(&self, other: &Order) -> bool {
        self.price@.units() == other.price@.units()
    }
}

impl PartialOrd for Order {
    fn partial_cmp(&self, other: &Order) -> (r: Option<Ordering>) {
        Some(self.cmp(other))
    }
}

impl vstd::std_specs::cmp::PartialOrdSpecImpl for Order {
    open spec fn obeys_partial_cmp_spec() -> bool {
        true
    }

    open spec fn partial_cmp_spec(&self, other: &Order) -> Option<Ordering> {
        Some(level_order(*self, *other))
    }
}

/// One price level as the exchange sends it: the price and the quantity, each
/// as a text.
#[derive(Debug, Clone)]
pub struct RawLevel {
    pub price: String,
    pub quantity: String,
}

/// The order book as the exchange sends it.
#[derive(Debug, Clone)]
pub struct RawOrderBook {
    pub bids: Vec<RawLevel>,
    pub asks: Vec<RawLevel>,
}

/// The bids and the asks, each in the order in which the exchange sent them.
#[derive(Debug, Clone)]
pub struct OrderBook {
    pub bids: Vec<Order>,
    pub asks: Vec<Order>,
}

/// The 24-hour statistics of the pair.
#[derive(Debug, Clone, Copy)]
pub struct Ticker {
    pub last_price: Decimal,
    pub open_price: Decimal,
    pub high_price: Decimal,
    pub low_price: Decimal,
    pub volume: Decimal,
    pub price_change_percent: Decimal,
}

/// One executed trade as the exchange sends it. The time counts milliseconds
/// since 1 January 1970, 00:00 UTC.
#[derive(Debug, Clone, Copy)]
pub struct RawTrade {
    pub id: u64,
    pub price: Decimal,
    pub qty: Decimal,
    pub time: i64,
    pub is_buyer_maker: bool,
}

/// One executed trade. The time counts milliseconds since 1 January 1970,
/// 00:00 UTC, and is an instant that `chrono` can represent, or the epoch.
#[derive(Debug, Clone, Copy)]
pub struct Trade {
    pub id: u64,
    pub price: Decimal,
    pub qty: Decimal,
    pub time: i64,
    pub is_buyer_maker: bool,
    pub side: Side,
}

/// Why a request brought no data.
#[derive(Debug, Clone, PartialEq, Eq)]
pub enum FetchError {
    /// The exchange could not be reached.
    TransportError(String),
    /// The reply does not have the expected shape.
    DecodeError(String),
    /// The reply is well-formed but holds no statistics for the pair.
    DataUnavailable(String),
}

/// What came back for one request: the decoded body, or the report of the
/// stage that failed.
#[derive(Debug, Clone)]
pub enum Reply<T> {
    /// The body, decoded into the expected shape.
    Decoded(T),
    /// A body arrived that does not have the expected shape.
    Malformed(String),
    /// No body arrived: the connection or the transfer failed.
    Unreachable(String),
}

/// The least instant that `chrono` represents as a UTC date and time, in
/// milliseconds since the epoch: the first moment of the year -262143.
pub const MIN_UTC_MILLIS: i64 = -8_334_601_228_800_000;

/// The greatest instant that `chrono` represents as a UTC date and time, in
/// milliseconds since the epoch: the last millisecond of the year 262142.
pub const MAX_UTC_MILLIS: i64 = 8_210_266_876_799_999;

/// Whether `chrono` can represent the instant that lies the given number of
/// milliseconds after the epoch as a UTC date and time.
pub open spec fn utc_instant_exists(millis: int) -> bool {
    MIN_UTC_MILLIS <= millis <= MAX_UTC_MILLIS
}

/// Calls `chrono::DateTime::from_timestamp_millis` and reports whether an
/// instant came back.
///
/// Taken on trust: one comes back for exactly the instants from
/// `DateTime::<Utc>::MIN_UTC` to `DateTime::<Utc>::MAX_UTC`, whose
/// millisecond counts are [`MIN_UTC_MILLIS`] and [`MAX_UTC_MILLIS`].
#[verifier::external_body]
fn instant_exists_outside(millis: i64) -> (r: bool)
    ensures
        r == utc_instant_exists(millis as int),
{
    chrono::DateTime::from_timestamp_millis(millis).is_some()
}

/// Every level of the sequence has a total.
pub open spec fn totals_exist(raw: Seq<RawLevel>) -> bool {
    forall|i: int|
        0 <= i < raw.len() ==> (#[trigger] level_total(raw[i].price@, raw[i].quantity@)) is Some
}

/// The levels are those that the raw levels make, one for one and in the
/// same order, all on the given side.
pub open spec fn levels_made_of(levels: Seq<Order>, raw: Seq<RawLevel>, side: Side) -> bool {
    &&& levels.len() == raw.len()
    &&& forall|i: int|
        0 <= i < raw.len() ==> (#[trigger] levels[i]).made_of(
            decimal_from_text(raw[i].price@),
            decimal_from_text(raw[i].quantity@),
            side,
        )
}

/// The total of a level whose price and quantity are given as texts fits as
/// it stands: the mantissas' product in 96 bits, the scales' sum in 28.
pub open spec fn total_fits(price_text: Seq<char>, amount_text: Seq<char>) -> bool {
    product_fits(
        view_or_zero(decimal_from_text(price_text)),
        view_or_zero(decimal_from_text(amount_text)),
    )
}

/// The total of every level of the sequence fits as it stands.
pub open spec fn totals_fit(raw: Seq<RawLevel>) -> bool {
    forall|i: int| 0 <= i < raw.len() ==> #[trigger] total_fits(raw[i].price@, raw[i].quantity@)
}

/// The total of every level of a decoded book fits as it stands.
pub open spec fn book_totals_fit(reply: Reply<RawOrderBook>) -> bool {
    reply matches Reply::Decoded(raw) ==> totals_fit(raw.bids@) && totals_fit(raw.asks@)
}

/// The total of every level of the sequence can be written as a decimal.
pub open spec fn totals_are_exact(raw: Seq<RawLevel>) -> bool {
    forall|i: int|
        0 <= i < raw.len() ==> #[trigger] total_is_exact(raw[i].price@, raw[i].quantity@)
}

/// The total of every level of a decoded book can be written as a decimal.
pub open spec fn book_totals_are_exact(reply: Reply<RawOrderBook>) -> bool {
    reply matches Reply::Decoded(raw) ==> totals_are_exact(raw.bids@) && totals_are_exact(
        raw.asks@,
    )
}

/// Every level of a decoded book has a total.
pub open spec fn book_totals_exist(reply: Reply<RawOrderBook>) -> bool {
    reply matches Reply::Decoded(raw) ==> totals_exist(raw.bids@) && totals_exist(raw.asks@)
}

/// `outcome` is what the reply to an order-book request makes: of a decoded
/// body the book, with the bids as buys and the asks as sells; of a body of
/// the wrong shape a decode error; of no body a transport error.
pub open spec fn is_order_book_of(
    outcome: Result<OrderBook, FetchError>,
    reply: Reply<RawOrderBook>,
) -> bool {
    match reply {
        Reply::Decoded(raw) => outcome matches Ok(book) && levels_made_of(
            book.bids@,
            raw.bids@,
            Side::Buy,
        ) && levels_made_of(book.asks@, raw.asks@, Side::Sell),
        Reply::Malformed(report) => outcome == Err::<OrderBook, FetchError>(
            FetchError::DecodeError(report),
        ),
        Reply::Unreachable(report) => outcome == Err::<OrderBook, FetchError>(
            FetchError::TransportError(report),
        ),
    }
}

/// The trades are those that the raw trades make, one for one and in the
/// same order.
pub open spec fn trades_made_of(trades: Seq<Trade>, raw: Seq<RawTrade>) -> bool {
    &&& trades.len() == raw.len()
    &&& forall|i: int|
        0 <= i < raw.len() ==> (#[trigger] trades[i]).made_of(
            raw[i],
            utc_instant_exists(raw[i].time as int),
        )
}

impl FetchError {
    /// The report that the error carries.
    pub open spec fn text(&self) -> Seq<char> {
        match self {
            FetchError::TransportError(m) => m@,
            FetchError::DecodeError(m) => m@,
            FetchError::DataUnavailable(m) => m@,
        }
    }

    /// The report that the error carries.
    pub fn message(&self) -> (m: String)
        ensures
            m@ == self.text(),
    {
        match self {
            FetchError::TransportError(m) => m.clone(),
            FetchError::DecodeError(m) => m.clone(),
            FetchError::DataUnavailable(m) => m.clone(),
        }
    }
}

impl Trade {
    /// The trade that a raw trade makes, given whether its time is an instant
    /// that can be represented: if not, the time is the epoch.
    pub open spec fn made_of(&self, raw: RawTrade, instant_exists: bool) -> bool {
        &&& self.id == raw.id
        &&& self.price == raw.price
        &&& self.qty == raw.qty
        &&& self.time == (if instant_exists {
            raw.time
        } else {
            0
        })
        &&& self.is_buyer_maker == raw.is_buyer_maker
        &&& self.side == Side::of_trade(raw.is_buyer_maker)
    }

    /// Builds a trade from a raw trade and the outcome of converting its time.
    pub fn with_instant(raw: RawTrade, instant_exists: bool) -> (trade: Trade)
        ensures
            trade.made_of(raw, instant_exists),
    {
        Trade {
            id: raw.id,
            price: raw.price,
            qty: raw.qty,
            time: if instant_exists {
                raw.time
            } else {
                0
            },
            is_buyer_maker: raw.is_buyer_maker,
            side: Side::from_buyer_maker(raw.is_buyer_maker),
        }
    }

    /// Builds a trade from a raw trade. A time that is no representable
    /// instant becomes the epoch.
    pub fn from_raw(raw: RawTrade) -> (trade: Trade)
        ensures
            trade.made_of(raw, utc_instant_exists(raw.time as int)),
    {
        let instant_exists = instant_exists_outside(raw.time);
        Trade::with_instant(raw, instant_exists)
    }
}

/// Whether a raw level has a total.
fn total_exists(level: &RawLevel) -> (r: bool)
    ensures
        r == level_total(level.price@, level.quantity@) is Some,
        total_is_exact(level.price@, level.quantity@) ==> r,
        total_fits(level.price@, level.quantity@) ==> r,
{
    let price = Decimal::parse_or_zero(level.price.as_str());
    let amount = Decimal::parse_or_zero(level.quantity.as_str());
    price.checked_mul(&amount).is_some()
}

/// Whether every raw level has a total.
fn all_totals_exist(raw: &Vec<RawLevel>) -> (r: bool)
    ensures
        r == totals_exist(raw@),
        totals_are_exact(raw@) ==> r,
        totals_fit(raw@) ==> r,
{
    let mut i: usize = 0;
    while i < raw.len()
        invariant
            i <= raw.len(),
            forall|j: int|
                0 <= j < i ==> (#[trigger] level_total(raw[j].price@, raw[j].quantity@)) is Some,
        decreases raw.len() - i,
    {
        if !total_exists(&raw[i]) {
            assert(!total_is_exact(raw[i as int].price@, raw[i as int].quantity@));
            assert(!total_fits(raw[i as int].price@, raw[i as int].quantity@));
            return false;
        }
        i += 1;
    }
    true
}

/// Builds the levels of one side.
fn levels_of(raw: &Vec<RawLevel>, side: Side) -> (levels: Vec<Order>)
    requires
        totals_exist(raw@),
    ensures
        levels_made_of(levels@, raw@, side),
{
    let mut levels: Vec<Order> = Vec::new();
    let mut i: usize = 0;
    while i < raw.len()
        invariant
            i <= raw.len(),
            totals_exist(raw@),
            levels.len() == i,
            forall|j: int|
                0 <= j < i ==> (#[trigger] levels[j]).made_of(
                    decimal_from_text(raw[j].price@),
                    decimal_from_text(raw[j].quantity@),
                    side,
                ),
        decreases raw.len() - i,
    {
        let level = &raw[i];
        assert(level_total(raw[i as int].price@, raw[i as int].quantity@) is Some);
        let order = Order::new(level.price.clone(), level.quantity.clone(), side);
        levels.push(order);
        i += 1;
    }
    levels
}

/// The client of the exchange's public market data. It holds no state: it
/// says which address to ask, and turns what came back into the model.
#[derive(Debug, Clone, Copy)]
pub struct BinanceClient {}

impl BinanceClient {
    /// A client. All clients are alike.
    pub fn new() -> (client: BinanceClient)
        ensures
            client == (BinanceClient {  }),
    {
        BinanceClient {  }
    }

    /// The address of the top `limit` levels of each side of the book.
    pub open spec fn order_book_address(limit: nat) -> Seq<char> {
        BASE_URL@ + "/depth?symbol="@ + SYMBOL@ + "&limit="@ + decimal_text(limit)
    }

    /// The address of the 24-hour statistics.
    pub open spec fn ticker_address() -> Seq<char> {
        BASE_URL@ + "/ticker/24hr?symbol="@ + SYMBOL@
    }

    /// The address of the most recent `limit` trades.
    pub open spec fn recent_trades_address(limit: nat) -> Seq<char> {
        BASE_URL@ + "/trades?symbol="@ + SYMBOL@ + "&limit="@ + decimal_text(limit)
    }

    /// The address to ask for the top `limit` levels of each side.
    pub fn order_book_url(&self, limit: usize) -> (url: String)
        ensures
            url@ == BinanceClient::order_book_address(limit as nat),
    {
        let mut url = String::from_str(BASE_URL);
        url.append("/depth?symbol=");
        url.append(SYMBOL);
        url.append("&limit=");
        push_decimal(&mut url, limit);
        url
    }

    /// The address to ask for the 24-hour statistics.
    pub fn ticker_url(&self) -> (url: String)
        ensures
            url@ == BinanceClient::ticker_address(),
    {
        let mut url = String::from_str(BASE_URL);
        url.append("/ticker/24hr?symbol=");
        url.append(SYMBOL);
        url
    }

    /// The address to ask for the most recent `limit` trades.
    pub fn recent_trades_url(&self, limit: usize) -> (url: String)
        ensures
            url@ == BinanceClient::recent_trades_address(limit as nat),
    {
        let mut url = String::from_str(BASE_URL);
        url.append("/trades?symbol=");
        url.append(SYMBOL);
        url.append("&limit=");
        push_decimal(&mut url, limit);
        url
    }

    /// Turns the reply to an order-book request into the order book: the bids
    /// tagged as buys, the asks as sells, each side in the order received.
    pub fn get_order_book(&self, reply: Reply<RawOrderBook>) -> (r: Result<OrderBook, FetchError>)
        requires
            book_totals_exist(reply),
        ensures
            is_order_book_of(r, reply),
    {
        match reply {
            Reply::Decoded(raw) => {
                let bids = levels_of(&raw.bids, Side::Buy);
                let asks = levels_of(&raw.asks, Side::Sell);
                Ok(OrderBook { bids, asks })
            },
            Reply::Malformed(report) => Err(FetchError::DecodeError(report)),
            Reply::Unreachable(report) => Err(FetchError::TransportError(report)),
        }
    }

    /// As [`BinanceClient::get_order_book`], for any reply: `None` where the
    /// total of some level overflows, which none does whose product can be
    /// written as a decimal.
    pub fn try_get_order_book(&self, reply: Reply<RawOrderBook>) -> (r: Option<
        Result<OrderBook, FetchError>,
    >)
        ensures
            r is Some <==> book_totals_exist(reply),
            book_totals_are_exact(reply) ==> r is Some,
            book_totals_fit(reply) ==> r is Some,
            r matches Some(outcome) ==> is_order_book_of(outcome, reply),
    {
        let fits = match &reply {
            Reply::Decoded(raw) => all_totals_exist(&raw.bids) && all_totals_exist(&raw.asks),
            _ => true,
        };
        if fits {
            Some(self.get_order_book(reply))
        } else {
            None
        }
    }

    /// Turns the reply to a ticker request into the ticker. A body that could
    /// not be decoded means that the exchange has no statistics to give.
    pub fn get_ticker(&self, reply: Reply<Ticker>) -> (r: Result<Ticker, FetchError>)
        ensures
            r == (match reply {
                Reply::Decoded(ticker) => Ok::<Ticker, FetchError>(ticker),
                Reply::Malformed(report) => Err::<Ticker, FetchError>(
                    FetchError::DataUnavailable(report),
                ),
                Reply::Unreachable(report) => Err::<Ticker, FetchError>(
                    FetchError::TransportError(report),
                ),
            }),
    {
        match reply {
            Reply::Decoded(ticker) => Ok(ticker),
            Reply::Malformed(report) => Err(FetchError::DataUnavailable(report)),
            Reply::Unreachable(report) => Err(FetchError::TransportError(report)),
        }
    }

    /// Turns the reply to a recent-trades request into the trades, in the
    /// order received.
    pub fn get_recent_trades(&self, reply: Reply<Vec<RawTrade>>) -> (r: Result<
        Vec<Trade>,
        FetchError,
    >)
        ensures
            match reply {
                Reply::Decoded(raw) => r matches Ok(trades) && trades_made_of(trades@, raw@),
                Reply::Malformed(report) => r == Err::<Vec<Trade>, FetchError>(
                    FetchError::DecodeError(report),
                ),
                Reply::Unreachable(report) => r == Err::<Vec<Trade>, FetchError>(
                    FetchError::TransportError(report),
                ),
            },
    {
        match reply {
            Reply::Decoded(raw) => {
                let mut trades: Vec<Trade> = Vec::new();
                let mut i: usize = 0;
                while i < raw.len()
                    invariant
                        i <= raw.len(),
                        trades.len() == i,
                        forall|j: int|
                            0 <= j < i ==> (#[trigger] trades[j]).made_of(
                                raw[j],
                                utc_instant_exists(raw[j].time as int),
                            ),
                    decreases raw.len() - i,
                {
                    trades.push(Trade::from_raw(raw[i]));
                    i += 1;
                }
                Ok(trades)
            },
            Reply::Malformed(report) => Err(FetchError::DecodeError(report)),
            Reply::Unreachable(report) => Err(FetchError::TransportError(report)),
        }
    }
}

} // verus!
