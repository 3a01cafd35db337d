//! A limit order book kept from the order-book messages of an exchange feed.
//!
//! Messages are JSON documents (held here as [`JsonValue`]). A snapshot message
//! fills a [`LimitOrderBook`]; each later message is read into a [`LimitOrder`]
//! whose levels are applied to the book: `new` levels are inserted and the side is
//! re-sorted (bids by falling price, asks by rising price), `change` levels set the
//! size of every level at that price, `delete` levels remove the first level at
//! that price. [`OrderBookFeed`] keeps the book with the messages applied to it
//! and tells when a message was lost.

pub mod feed;
pub mod json;
pub mod laws;
pub mod limit_order_fns;
pub mod models;
pub mod order_book_fns;
pub mod price;
pub mod update_order_book_fns;

pub use feed::OrderBookFeed;
pub use json::{JsonNumber, JsonValue};
pub use limit_order_fns::{check_limit_order_message, populate_limit_order};
pub use models::{LimitOrder, LimitOrderBook, OrderData};
pub use order_book_fns::{check_order_book_snapshot, get_populated_limit_order_book};
pub use update_order_book_fns::{try_update_order_book, update_order_book};
