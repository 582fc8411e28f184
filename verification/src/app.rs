//! The session: the latest snapshot of the market, the date and time at
//! which it was taken, and the two lines of text that report on the last
//! refresh.

use crate::binance::{FetchError, OrderBook, Ticker, Trade};
use crate::decimal::{
    decimal_difference, difference_fits, difference_is_representable, is_difference,
    lemma_representable_goes_by_number, option_view, Decimal, DecimalView,
};
use crate::levels::{
    highest_price, lemma_best_prices_ignore_order, lowest_price, prices_distinct,
};
use crate::text::{push_two_digits, two_digit_text};
use vstd::prelude::*;
use vstd::string::StringExecFns;

verus! {

/// How many levels of each side of the book one refresh asks for.
pub const BOOK_DEPTH: usize = 15;

/// How many recent trades one refresh asks for.
pub const TRADE_LIMIT: usize = 15;

/// A reading of the wall clock.
pub struct Clock {
    pub hour: nat,
    pub minute: nat,
    pub second: nat,
}

impl Clock {
    /// The reading as `HH:MM:SS`.
    pub open spec fn text(self) -> Seq<char> {
        two_digit_text(self.hour) + seq![':'] + two_digit_text(self.minute) + seq![':']
            + two_digit_text(self.second)
    }
}

/// A date and a time of day.
pub struct Moment {
    pub year: int,
    pub month: nat,
    pub day: nat,
    pub clock: Clock,
}

/// The date and the time of day, in the viewer's time zone, at which
/// something happened. The month lies within 1 to 12, the day within 1 to 31
/// and the time on the dial; which months have how many days is not looked at.
#[derive(Debug, Clone, Copy, PartialEq, Eq, Structural)]
pub struct LocalDateTime {
    year: i32,
    month: u32,
    day: u32,
    hour: u32,
    minute: u32,
    second: u32,
}

impl View for LocalDateTime {
    type V = Moment;

    closed spec fn view(&self) -> Moment {
        Moment {
            year: self.year as int,
            month: self.month as nat,
            day: self.day as nat,
            clock: Clock {
                hour: self.hour as nat,
                minute: self.minute as nat,
                second: self.second as nat,
            },
        }
    }
}

/// The month lies within 1 to 12, the day within 1 to 31, and the time is
/// on the dial.
pub open spec fn is_date_and_time(
    month: u32,
    day: u32,
    hour: u32,
    minute: u32,
    second: u32,
) -> bool {
    &&& 1 <= month <= 12
    &&& 1 <= day <= 31
    &&& hour < 24
    &&& minute < 60
    &&& second < 60
}

impl LocalDateTime {
    #[verifier::type_invariant]
    closed spec fn on_calendar_and_dial(self) -> bool {
        is_date_and_time(self.month, self.day, self.hour, self.minute, self.second)
    }

    /// The moment with the given date and time of day, or `None` where the
    /// month, the day or the time lies outside its range.
    pub fn from_ymd_hms_opt(
        year: i32,
        month: u32,
        day: u32,
        hour: u32,
        minute: u32,
        second: u32,
    ) -> (r: Option<LocalDateTime>)
        ensures
            r is Some <==> is_date_and_time(month, day, hour, minute, second),
            r matches Some(t) ==> t@ == (Moment {
                year: year as int,
                month: month as nat,
                day: day as nat,
                clock: Clock { hour: hour as nat, minute: minute as nat, second: second as nat },
            }),
    {
        if 1 <= month && month <= 12 && 1 <= day && day <= 31 && hour < 24 && minute < 60 && second
            < 60 {
            Some(LocalDateTime { year, month, day, hour, minute, second })
        } else {
            None
        }
    }

    pub fn year(&self) -> (y: i32)
        ensures
            y == self@.year,
    {
        self.year
    }

    pub fn month(&self) -> (m: u32)
        ensures
            m == self@.month,
            1 <= m <= 12,
    {
        proof {
            use_type_invariant(self);
        }
        self.month
    }

    pub fn day(&self) -> (d: u32)
        ensures
            d == self@.day,
            1 <= d <= 31,
    {
        proof {
            use_type_invariant(self);
        }
        self.day
    }

    pub fn hour(&self) -> (h: u32)
        ensures
            h == self@.clock.hour,
            h < 24,
    {
        proof {
            use_type_invariant(self);
        }
        self.hour
    }

    pub fn minute(&self) -> (m: u32)
        ensures
            m == self@.clock.minute,
            m < 60,
    {
        proof {
            use_type_invariant(self);
        }
        self.minute
    }

    pub fn second(&self) -> (s: u32)
        ensures
            s == self@.clock.second,
            s < 60,
    {
        proof {
            use_type_invariant(self);
        }
        self.second
    }

    /// The time of day as `HH:MM:SS`.
    pub fn clock_text(&self) -> (text: String)
        ensures
            text@ == self@.clock.text(),
    {
        proof {
            use_type_invariant(self);
            reveal_strlit(":");
        }
        let mut text = String::new();
        push_two_digits(&mut text, self.hour as usize);
        text.append(":");
        push_two_digits(&mut text, self.minute as usize);
        text.append(":");
        push_two_digits(&mut text, self.second as usize);
        assert(text@ =~= self@.clock.text());
        text
    }
}

/// The first of the three requests of one refresh that failed, in the order
/// in which they are made: order book, ticker, trades.
pub open spec fn first_failure(
    order_book: Result<OrderBook, FetchError>,
    ticker: Result<Ticker, FetchError>,
    trades: Result<Vec<Trade>, FetchError>,
) -> Option<FetchError> {
    match order_book {
        Err(e) => Some(e),
        Ok(_) => match ticker {
            Err(e) => Some(e),
            Ok(_) => match trades {
                Err(e) => Some(e),
                Ok(_) => None,
            },
        },
    }
}

/// The line that reports a failed refresh.
pub open spec fn failure_report(failure: FetchError) -> Seq<char> {
    "Error: "@ + failure.text()
}

/// The line that reports a successful refresh completed at the given time.
pub open spec fn success_status(now: Clock) -> Seq<char> {
    "Last updated: "@ + now.text()
}

/// The difference between the lowest ask and the highest bid as
/// `rust_decimal` computes it, for a book with levels on both sides.
pub open spec fn book_spread(book: OrderBook) -> Option<DecimalView> {
    decimal_difference(lowest_price(book.asks@), highest_price(book.bids@))
}

/// The book has levels on both sides.
pub open spec fn two_sided(book: Option<OrderBook>) -> bool {
    book matches Some(b) && b.asks@.len() > 0 && b.bids@.len() > 0
}

/// The subtraction that the spread of the book asks for does not overflow.
pub open spec fn spread_exists(book: Option<OrderBook>) -> bool {
    two_sided(book) ==> book_spread(book.unwrap()) is Some
}

/// The lowest ask less the highest bid of the book can be written as a
/// decimal: the spread then needs no rounding and does not overflow.
pub open spec fn spread_is_exact(book: Option<OrderBook>) -> bool {
    two_sided(book) && difference_is_representable(
        lowest_price(book.unwrap().asks@),
        highest_price(book.unwrap().bids@),
    )
}

/// The lowest ask and the highest bid of the book, written with the larger
/// of their scales, can be subtracted within 96 bits.
pub open spec fn spread_fits(book: Option<OrderBook>) -> bool {
    two_sided(book) && difference_fits(
        lowest_price(book.unwrap().asks@),
        highest_price(book.unwrap().bids@),
    )
}

/// `spread` is the spread of the book: none where a side is missing, else
/// the lowest ask less the highest bid, exactly so wherever that difference
/// can be written as a decimal.
pub open spec fn is_spread_of(spread: Option<Decimal>, book: Option<OrderBook>) -> bool {
    &&& spread is Some <==> two_sided(book)
    &&& two_sided(book) ==> option_view(spread) == book_spread(book.unwrap())
    &&& spread_is_exact(book) ==> is_difference(
        spread.unwrap()@,
        lowest_price(book.unwrap().asks@),
        highest_price(book.unwrap().bids@),
    )
}

/// The spread does not depend on the order in which the levels of either
/// side stand. Of two books that hold the same asks and the same bids, the
/// spread of one can be written exactly if that of the other can, and then
/// the two spreads are the same number; where no two levels of a side share
/// a price they are the same decimal in any case.
pub proof fn lemma_spread_ignores_order(
    first: OrderBook,
    second: OrderBook,
    spread_of_first: Option<Decimal>,
    spread_of_second: Option<Decimal>,
)
    requires
        first.asks@.len() > 0,
        first.bids@.len() > 0,
        first.asks@.to_multiset() == second.asks@.to_multiset(),
        first.bids@.to_multiset() == second.bids@.to_multiset(),
        is_spread_of(spread_of_first, Some(first)),
        is_spread_of(spread_of_second, Some(second)),
    ensures
        spread_of_first is Some,
        spread_of_second is Some,
        lowest_price(first.asks@).units() == lowest_price(second.asks@).units(),
        highest_price(first.bids@).units() == highest_price(second.bids@).units(),
        spread_is_exact(Some(first)) == spread_is_exact(Some(second)),
        spread_is_exact(Some(first)) ==> spread_of_first.unwrap()@.units()
            == spread_of_second.unwrap()@.units(),
        prices_distinct(first.asks@) && prices_distinct(first.bids@) ==> option_view(
            spread_of_first,
        ) == option_view(spread_of_second),
{
    first.asks@.to_multiset_ensures();
    second.asks@.to_multiset_ensures();
    first.bids@.to_multiset_ensures();
    second.bids@.to_multiset_ensures();
    lemma_best_prices_ignore_order(first.asks@, second.asks@);
    lemma_best_prices_ignore_order(first.bids@, second.bids@);
    lemma_representable_goes_by_number(
        lowest_price(first.asks@),
        highest_price(first.bids@),
        lowest_price(second.asks@),
        highest_price(second.bids@),
    );
}

/// The state of a session.
pub struct App {
    /// The order book of the last successful refresh.
    pub order_book: Option<OrderBook>,
    /// The ticker of the last successful refresh.
    pub ticker: Option<Ticker>,
    /// The trades of the last successful refresh.
    pub trades: Vec<Trade>,
    /// When the last successful refresh was completed.
    pub last_update: LocalDateTime,
    /// What the session last did.
    pub status_message: String,
    /// What went wrong in the last refresh, if anything did.
    pub error: Option<String>,
}

impl App {
    /// The session holds the given snapshot, taken at `now`, and reports no
    /// error.
    pub open spec fn holds_snapshot(
        &self,
        order_book: OrderBook,
        ticker: Ticker,
        trades: Vec<Trade>,
        now: LocalDateTime,
    ) -> bool {
        &&& self.order_book == Some(order_book)
        &&& self.ticker == Some(ticker)
        &&& self.trades == trades
        &&& self.last_update == now
        &&& self.status_message@ == success_status(now@.clock)
        &&& self.error is None
    }

    /// The session holds the snapshot and the time that `before` held, and
    /// reports the failure.
    pub open spec fn holds_failure(&self, before: App, failure: FetchError) -> bool {
        &&& self.order_book == before.order_book
        &&& self.ticker == before.ticker
        &&& self.trades == before.trades
        &&& self.last_update == before.last_update
        &&& self.error is Some
        &&& self.error.unwrap()@ == failure_report(failure)
        &&& self.error.unwrap()@.len() > 0
    }

    /// A session that has fetched nothing yet.
    pub fn new(now: LocalDateTime) -> (app: App)
        ensures
            app.order_book is None,
            app.ticker is None,
            app.trades@.len() == 0,
            app.last_update == now,
            app.status_message@ == "Loading data..."@,
            app.error is None,
    {
        App {
            order_book: None,
            ticker: None,
            trades: Vec::new(),
            last_update: now,
            status_message: String::from_str("Loading data..."),
            error: None,
        }
    }

    /// Takes in the outcomes of the three requests of one refresh. Where all
    /// three brought data, the snapshot is replaced as a whole; where one
    /// failed, nothing changes and the first failure is returned.
    pub fn fetch_data(
        &mut self,
        order_book: Result<OrderBook, FetchError>,
        ticker: Result<Ticker, FetchError>,
        trades: Result<Vec<Trade>, FetchError>,
    ) -> (r: Result<(), FetchError>)
        ensures
            r is Ok <==> first_failure(order_book, ticker, trades) is None,
            r matches Err(e) ==> first_failure(order_book, ticker, trades) == Some(e),
            r is Err ==> *final(self) == *old(self),
            r is Ok ==> final(self).order_book == Some(order_book->Ok_0),
            r is Ok ==> final(self).ticker == Some(ticker->Ok_0),
            r is Ok ==> final(self).trades == trades->Ok_0,
            final(self).last_update == old(self).last_update,
            final(self).status_message == old(self).status_message,
            final(self).error == old(self).error,
    {
        let order_book = match order_book {
            Ok(book) => book,
            Err(e) => {
                return Err(e);
            },
        };
        let ticker = match ticker {
            Ok(ticker) => ticker,
            Err(e) => {
                return Err(e);
            },
        };
        let trades = match trades {
            Ok(trades) => trades,
            Err(e) => {
                return Err(e);
            },
        };
        self.order_book = Some(order_book);
        self.ticker = Some(ticker);
        self.trades = trades;
        Ok(())
    }

    /// Completes one refresh at the time `now`. Where all three requests
    /// brought data the snapshot is replaced, the time and the status are set
    /// and the error is cleared. Where one failed the snapshot, the time and
    /// the status stay and the error reports the first failure.
    pub fn update(
        &mut self,
        order_book: Result<OrderBook, FetchError>,
        ticker: Result<Ticker, FetchError>,
        trades: Result<Vec<Trade>, FetchError>,
        now: LocalDateTime,
    ) -> (refreshed: bool)
        ensures
            refreshed <==> first_failure(order_book, ticker, trades) is None,
            refreshed ==> final(self).holds_snapshot(
                order_book->Ok_0,
                ticker->Ok_0,
                trades->Ok_0,
                now,
            ),
            !refreshed ==> final(self).holds_failure(
                *old(self),
                first_failure(order_book, ticker, trades).unwrap(),
            ),
            !refreshed ==> final(self).status_message == old(self).status_message,
    {
        match self.fetch_data(order_book, ticker, trades) {
            Ok(_) => {
                self.last_update = now;
                let mut status = String::from_str("Last updated: ");
                status.append(now.clock_text().as_str());
                self.status_message = status;
                self.error = None;
                true
            },
            Err(e) => {
                proof {
                    reveal_strlit("Error: ");
                }
                let mut report = String::from_str("Error: ");
                report.append(e.message().as_str());
                self.error = Some(report);
                false
            },
        }
    }

    /// A refresh asked for by the user. It does what a refresh on the timer
    /// does: where one of the requests failed, the status stays as it was.
    pub fn refresh_now(
        &mut self,
        order_book: Result<OrderBook, FetchError>,
        ticker: Result<Ticker, FetchError>,
        trades: Result<Vec<Trade>, FetchError>,
        now: LocalDateTime,
    ) -> (refreshed: bool)
        ensures
            refreshed <==> first_failure(order_book, ticker, trades) is None,
            refreshed ==> final(self).holds_snapshot(
                order_book->Ok_0,
                ticker->Ok_0,
                trades->Ok_0,
                now,
            ),
            !refreshed ==> final(self).holds_failure(
                *old(self),
                first_failure(order_book, ticker, trades).unwrap(),
            ),
            !refreshed ==> final(self).status_message == old(self).status_message,
    {
        self.update(order_book, ticker, trades, now)
    }

    /// The bid/ask spread: the lowest ask less the highest bid, each found by
    /// looking at every level of its side. There is none where the session
    /// has no book or a side of the book is empty. A crossed book gives a
    /// negative spread.
    pub fn calculate_spread(&self) -> (spread: Option<Decimal>)
        requires
            spread_exists(self.order_book),
        ensures
            is_spread_of(spread, self.order_book),
            spread_fits(self.order_book) ==> spread_is_exact(self.order_book),
    {
        match &self.order_book {
            Some(book) => {
                match (book.lowest_ask(), book.highest_bid()) {
                    (Some(lowest_ask), Some(highest_bid)) => lowest_ask.checked_sub(&highest_bid),
                    _ => None,
                }
            },
            None => None,
        }
    }

    /// As [`App::calculate_spread`], for any session: `None` where the
    /// subtraction overflows, which it does not where the difference can be
    /// written as a decimal.
    pub fn try_calculate_spread(&self) -> (r: Option<Option<Decimal>>)
        ensures
            r is Some <==> spread_exists(self.order_book),
            spread_is_exact(self.order_book) ==> r is Some,
            spread_fits(self.order_book) ==> spread_is_exact(self.order_book),
            r matches Some(spread) ==> is_spread_of(spread, self.order_book),
    {
        let exists = match &self.order_book {
            Some(book) => {
                match (book.lowest_ask(), book.highest_bid()) {
                    (Some(lowest_ask), Some(highest_bid)) => lowest_ask.checked_sub(
                        &highest_bid,
                    ).is_some(),
                    _ => true,
                }
            },
            None => true,
        };
        if exists {
            Some(self.calculate_spread())
        } else {
            None
        }
    }
}

} // verus!
