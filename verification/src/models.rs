//! The order levels, the parsed order messages and the order book.

use vstd::prelude::*;

verus! {

/// One price level of a message or of the book: its kind (`"new"`, `"change"`,
/// `"delete"` in a message), its price and its size, the last two as float
/// bit patterns (see [`crate::price`]).
pub struct OrderData {
    pub order_type: String,
    pub price: u64,
    pub size: u64,
}

/// What an [`OrderData`] holds, with the kind as its characters.
pub struct OrderView {
    pub order_type: Seq<char>,
    pub price: u64,
    pub size: u64,
}

impl View for OrderData {
    type V = OrderView;

    open spec fn view(&self) -> OrderView {
        OrderView { order_type: self.order_type@, price: self.price, size: self.size }
    }
}

/// The views of a sequence of levels, in order.
pub open spec fn views(s: Seq<OrderData>) -> Seq<OrderView> {
    s.map_values(|o: OrderData| o@)
}

/// One order-book change message: its header and its bid and ask levels.
pub struct LimitOrder {
    pub order_type: String,
    pub timestamp: u64,
    pub prev_change_id: u64,
    pub change_id: u64,
    pub bids: Vec<OrderData>,
    pub asks: Vec<OrderData>,
}

/// What a [`LimitOrder`] holds.
pub struct LimitOrderView {
    pub order_type: Seq<char>,
    pub timestamp: u64,
    pub prev_change_id: u64,
    pub change_id: u64,
    pub bids: Seq<OrderView>,
    pub asks: Seq<OrderView>,
}

impl View for LimitOrder {
    type V = LimitOrderView;

    open spec fn view(&self) -> LimitOrderView {
        LimitOrderView {
            order_type: self.order_type@,
            timestamp: self.timestamp,
            prev_change_id: self.prev_change_id,
            change_id: self.change_id,
            bids: views(self.bids@),
            asks: views(self.asks@),
        }
    }
}

/// The order book: its bid levels and its ask levels.
pub struct LimitOrderBook {
    pub bids: Vec<OrderData>,
    pub asks: Vec<OrderData>,
}

/// What a [`LimitOrderBook`] holds.
pub struct BookView {
    pub bids: Seq<OrderView>,
    pub asks: Seq<OrderView>,
}

impl View for LimitOrderBook {
    type V = BookView;

    open spec fn view(&self) -> BookView {
        BookView { bids: views(self.bids@), asks: views(self.asks@) }
    }
}

impl OrderData {
    /// A level with the same kind, price and size.
    pub fn duplicate(&self) -> (r: OrderData)
        ensures
            r@ == self@,
    {
        OrderData { order_type: self.order_type.clone(), price: self.price, size: self.size }
    }
}

} // verus!
