//! Reading a snapshot message into a [`LimitOrderBook`].
//!
//! A snapshot message is an object whose member `params.data` holds the
//! arrays `bids` and `asks` of levels `[kind, price, size]`.

use vstd::prelude::*;

use crate::json::{json_array, json_get, JsonValue};
use crate::limit_order_fns::{are_levels, check_levels, levels_of, message_data, order_data_of};
use crate::models::{views, BookView, LimitOrderBook};

verus! {

/// The member `data_type` of `params.data` of a message.
pub open spec fn message_member(v: JsonValue, data_type: Seq<char>) -> Option<JsonValue> {
    match message_data(v) {
        Some(data) => json_get(data, data_type),
        None => None,
    }
}

/// The value is an array of levels.
pub open spec fn is_level_array(v: JsonValue) -> bool {
    json_array(v) matches Some(items) && are_levels(items)
}

/// The value is a snapshot message that can be read.
pub open spec fn is_order_book_snapshot(v: JsonValue) -> bool {
    &&& message_member(v, "asks"@) matches Some(asks)
    &&& message_member(v, "bids"@) matches Some(bids)
    &&& is_level_array(bids)
    &&& is_level_array(asks)
}

/// The book a snapshot message denotes: its levels in the order sent.
pub open spec fn order_book_of(v: JsonValue) -> BookView {
    BookView {
        bids: levels_of(json_array(message_member(v, "bids"@).unwrap()).unwrap()),
        asks: levels_of(json_array(message_member(v, "asks"@).unwrap()).unwrap()),
    }
}

/// Whether a value is a snapshot message that can be read.
pub fn check_order_book_snapshot(order_book_state_raw: &JsonValue) -> (r: bool)
    ensures
        r == is_order_book_snapshot(*order_book_state_raw),
{
    let data = match order_book_state_raw.get("params") {
        Some(p) => match p.get("data") {
            Some(d) => d,
            None => return false,
        },
        None => return false,
    };
    let asks = match data.get("asks") {
        Some(a) => match a.as_array() {
            Some(items) => check_levels(items),
            None => false,
        },
        None => false,
    };
    let bids = match data.get("bids") {
        Some(b) => match b.as_array() {
            Some(items) => check_levels(items),
            None => false,
        },
        None => false,
    };
    asks && bids
}

/// Reads a snapshot message into a book.
pub fn get_populated_limit_order_book(order_book_state_raw: &JsonValue) -> (r: LimitOrderBook)
    requires
        is_order_book_snapshot(*order_book_state_raw),
    ensures
        r@ == order_book_of(*order_book_state_raw),
{
    let asks = extract_data(order_book_state_raw, "asks");
    let bids = extract_data(order_book_state_raw, "bids");
    let mut limit_order_book = LimitOrderBook { bids: Vec::new(), asks: Vec::new() };
    push_data_to_order_book(&mut limit_order_book, bids, true);
    push_data_to_order_book(&mut limit_order_book, asks, false);
    assert(limit_order_book@.bids =~= order_book_of(*order_book_state_raw).bids);
    assert(limit_order_book@.asks =~= order_book_of(*order_book_state_raw).asks);
    limit_order_book
}

/// Appends the levels of an array value to the bids (`is_bid`) or the asks.
pub fn push_data_to_order_book(limit_order_book: &mut LimitOrderBook, data: &JsonValue, is_bid: bool)
    requires
        is_level_array(*data),
    ensures
        is_bid ==> final(limit_order_book)@.bids == old(limit_order_book)@.bids + levels_of(
            json_array(*data).unwrap(),
        ),
        is_bid ==> final(limit_order_book).asks == old(limit_order_book).asks,
        !is_bid ==> final(limit_order_book)@.asks == old(limit_order_book)@.asks + levels_of(
            json_array(*data).unwrap(),
        ),
        !is_bid ==> final(limit_order_book).bids == old(limit_order_book).bids,
{
    let data = data.as_array().unwrap();
    let ghost bids0 = views(limit_order_book.bids@);
    let ghost asks0 = views(limit_order_book.asks@);
    let mut i: usize = 0;
    while i < data.len()
        invariant
            i <= data.len(),
            are_levels(data@),
            bids0 == views(old(limit_order_book).bids@),
            asks0 == views(old(limit_order_book).asks@),
            is_bid ==> views(limit_order_book.bids@) == bids0 + levels_of(data@.take(i as int)),
            is_bid ==> limit_order_book.asks == old(limit_order_book).asks,
            !is_bid ==> views(limit_order_book.asks@) == asks0 + levels_of(data@.take(i as int)),
            !is_bid ==> limit_order_book.bids == old(limit_order_book).bids,
        decreases data.len() - i,
    {
        let order_data = order_data_of(&data[i]);
        proof {
            assert(levels_of(data@.take(i as int + 1)) =~= levels_of(data@.take(i as int)).push(
                order_data@,
            ));
        }
        if is_bid {
            let ghost before = limit_order_book.bids@;
            limit_order_book.bids.push(order_data);
            assert(views(limit_order_book.bids@) =~= views(before).push(order_data@));
        } else {
            let ghost before = limit_order_book.asks@;
            limit_order_book.asks.push(order_data);
            assert(views(limit_order_book.asks@) =~= views(before).push(order_data@));
        }
        i = i + 1;
    }
    assert(data@.take(i as int) =~= data@);
}

/// The member `data_type` of `params.data` of a message.
pub fn extract_data<'a>(order_book_state_raw: &'a JsonValue, data_type: &str) -> (r: &'a JsonValue)
    requires
        message_member(*order_book_state_raw, data_type@) is Some,
    ensures
        Some(*r) == message_member(*order_book_state_raw, data_type@),
{
    order_book_state_raw.get("params").unwrap().get("data").unwrap().get(data_type).unwrap()
}

} // verus!
