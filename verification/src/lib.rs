//! Market data of one trading pair: exact decimals, the order book, the
//! ticker and recent trades as the exchange reports them, and the session
//! that holds the latest snapshot.
//!
//! The library does no input or output. Its caller sends the requests that
//! [`binance::BinanceClient`] names, decodes the bodies, reads the clock, and
//! hands all of that in; the library turns it into the model and decides what
//! the session holds afterwards.
//!
//! - [`decimal`]: exact decimal numbers, computed by `rust_decimal`.
//! - [`binance`]: the model of the market data and the client's rules.
//! - [`levels`]: price levels in order, and the best price of each side.
//! - [`app`]: the session and the bid/ask spread.
//! - [`text`]: numbers written in decimal digits.

pub mod app;
pub mod binance;
pub mod decimal;
pub mod levels;
pub mod text;
