//! Following the feed: the book, the change messages applied to it, and the
//! check for a lost message.

use vstd::prelude::*;

use crate::models::{LimitOrder, LimitOrderBook, OrderData};
use crate::update_order_book_fns::{apply_updates, stuck_at_level, try_update_order_book, updates_defined};

verus! {

/// The book and every change message applied to it, oldest first.
pub struct OrderBookFeed {
    pub limit_order_book: LimitOrderBook,
    pub limit_orders: Vec<LimitOrder>,
}

/// A message was lost before `limit_order`: more than one message has been
/// applied and the change id the new message follows is not that of the
/// last one applied. The result is the change id of the last one applied.
pub open spec fn lost_before(limit_orders: Seq<LimitOrder>, limit_order: LimitOrder) -> Option<u64> {
    if limit_orders.len() > 1 && limit_order.prev_change_id != limit_orders.last().change_id {
        Some(limit_orders.last().change_id)
    } else {
        None
    }
}

impl OrderBookFeed {
    /// A feed that starts from a snapshot book, with no change message applied.
    pub fn new(limit_order_book: LimitOrderBook) -> (r: OrderBookFeed)
        ensures
            r.limit_order_book == limit_order_book,
            r.limit_orders@.len() == 0,
    {
        OrderBookFeed { limit_order_book, limit_orders: Vec::new() }
    }

    /// Checks a new change message against the last one applied; gives the
    /// last applied change id where a message was lost in between.
    pub fn packet_lost(&self, limit_order: &LimitOrder) -> (r: Option<u64>)
        ensures
            r == lost_before(self.limit_orders@, *limit_order),
    {
        let n = self.limit_orders.len();
        if n > 1 {
            let last = self.limit_orders[n - 1].change_id;
            if limit_order.prev_change_id != last {
                return Some(last);
            }
        }
        None
    }

    /// Applies a change message to the book and records it; reports whether
    /// every level of it could be applied. Where one could not, the message
    /// is not recorded and the book holds the levels applied before it.
    pub fn receive(&mut self, limit_order: LimitOrder) -> (ok: bool)
        ensures
            ok == (updates_defined(old(self).limit_order_book@.bids, limit_order@.bids, true)
                && updates_defined(old(self).limit_order_book@.asks, limit_order@.asks, false)),
            ok ==> final(self).limit_order_book@.bids == apply_updates(
                old(self).limit_order_book@.bids,
                limit_order@.bids,
                true,
            ),
            ok ==> final(self).limit_order_book@.asks == apply_updates(
                old(self).limit_order_book@.asks,
                limit_order@.asks,
                false,
            ),
            ok ==> final(self).limit_orders@ == old(self).limit_orders@.push(limit_order),
            !ok ==> final(self).limit_orders@ == old(self).limit_orders@,
            !updates_defined(old(self).limit_order_book@.bids, limit_order@.bids, true) ==> stuck_at_level(
                old(self).limit_order_book@.bids,
                limit_order@.bids,
                true,
                final(self).limit_order_book@.bids,
            ) && final(self).limit_order_book@.asks == old(self).limit_order_book@.asks,
            updates_defined(old(self).limit_order_book@.bids, limit_order@.bids, true) && !updates_defined(
                old(self).limit_order_book@.asks,
                limit_order@.asks,
                false,
            ) ==> final(self).limit_order_book@.bids == apply_updates(
                old(self).limit_order_book@.bids,
                limit_order@.bids,
                true,
            ) && stuck_at_level(
                old(self).limit_order_book@.asks,
                limit_order@.asks,
                false,
                final(self).limit_order_book@.asks,
            ),
    {
        let ok = try_update_order_book(&mut self.limit_order_book, &limit_order);
        if ok {
            self.limit_orders.push(limit_order);
        }
        ok
    }

    /// The best bid and the best ask: the first level of each side, where
    /// both sides have one.
    pub fn best_bid_ask(&self) -> (r: Option<(&OrderData, &OrderData)>)
        ensures
            r is Some <==> self.limit_order_book.bids@.len() > 0 && self.limit_order_book.asks@.len() > 0,
            r matches Some((bid, ask)) ==> *bid == self.limit_order_book.bids@[0]
                && *ask == self.limit_order_book.asks@[0],
    {
        if self.limit_order_book.bids.len() > 0 && self.limit_order_book.asks.len() > 0 {
            Some((&self.limit_order_book.bids[0], &self.limit_order_book.asks[0]))
        } else {
            None
        }
    }
}

} // verus!
