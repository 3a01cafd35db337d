//! Reading a change message into a [`LimitOrder`].
//!
//! A change message is an object whose member `params.data` holds the header
//! (`type`, `timestamp`, `prev_change_id`, `change_id`) and the arrays `asks`
//! and `bids`; each of their elements is an array `[kind, price, size]`.

use vstd::prelude::*;

use crate::json::{
    element_float_bits, element_str, json_get, member_array, member_str, member_u64, JsonValue,
};
use crate::models::{views, LimitOrder, LimitOrderView, OrderData, OrderView};

verus! {

/// The value is a level: an array whose first three elements are a string and
/// two numbers.
pub open spec fn is_level(v: JsonValue) -> bool {
    &&& element_str(v, 0) is Some
    &&& element_float_bits(v, 1) is Some
    &&& element_float_bits(v, 2) is Some
}

/// The level a value denotes.
pub open spec fn level_of(v: JsonValue) -> OrderView {
    OrderView {
        order_type: element_str(v, 0).unwrap(),
        price: element_float_bits(v, 1).unwrap(),
        size: element_float_bits(v, 2).unwrap(),
    }
}

/// Every value is a level.
pub open spec fn are_levels(s: Seq<JsonValue>) -> bool {
    forall|i: int| 0 <= i < s.len() ==> is_level(#[trigger] s[i])
}

/// The levels the values denote, in order.
pub open spec fn levels_of(s: Seq<JsonValue>) -> Seq<OrderView> {
    s.map_values(|v: JsonValue| level_of(v))
}

/// The member `params.data` of a message.
pub open spec fn message_data(v: JsonValue) -> Option<JsonValue> {
    match json_get(v, "params"@) {
        Some(p) => json_get(p, "data"@),
        None => None,
    }
}

/// The header of a change message can be read.
pub open spec fn has_limit_order_header(data: JsonValue) -> bool {
    &&& member_str(data, "type"@) is Some
    &&& member_u64(data, "timestamp"@) is Some
    &&& member_u64(data, "prev_change_id"@) is Some
    &&& member_u64(data, "change_id"@) is Some
}

/// The value is a change message that can be read.
pub open spec fn is_limit_order_message(v: JsonValue) -> bool {
    &&& message_data(v) matches Some(data)
    &&& has_limit_order_header(data)
    &&& member_array(data, "asks"@) matches Some(asks)
    &&& are_levels(asks)
    &&& member_array(data, "bids"@) matches Some(bids)
    &&& are_levels(bids)
}

/// The change message a value denotes.
pub open spec fn limit_order_of(v: JsonValue) -> LimitOrderView {
    let data = message_data(v).unwrap();
    LimitOrderView {
        order_type: member_str(data, "type"@).unwrap(),
        timestamp: member_u64(data, "timestamp"@).unwrap(),
        prev_change_id: member_u64(data, "prev_change_id"@).unwrap(),
        change_id: member_u64(data, "change_id"@).unwrap(),
        bids: levels_of(member_array(data, "bids"@).unwrap()),
        asks: levels_of(member_array(data, "asks"@).unwrap()),
    }
}

/// Reads one level `[kind, price, size]`.
pub fn order_data_of(level: &JsonValue) -> (r: OrderData)
    requires
        is_level(*level),
    ensures
        r@ == level_of(*level),
{
    let order_type = level.get_index(0).unwrap().as_str().unwrap().clone();
    let price = level.get_index(1).unwrap().as_float_bits().unwrap();
    let size = level.get_index(2).unwrap().as_float_bits().unwrap();
    OrderData { order_type, price, size }
}

/// Whether every value is a level.
pub fn check_levels(data: &Vec<JsonValue>) -> (r: bool)
    ensures
        r == are_levels(data@),
{
    let mut i: usize = 0;
    while i < data.len()
        invariant
            i <= data.len(),
            forall|k: int| 0 <= k < i ==> is_level(#[trigger] data@[k]),
        decreases data.len() - i,
    {
        let level = &data[i];
        let ok = match level.get_index(0) {
            Some(t) => t.as_str().is_some(),
            None => false,
        } && match level.get_index(1) {
            Some(p) => p.as_float_bits().is_some(),
            None => false,
        } && match level.get_index(2) {
            Some(z) => z.as_float_bits().is_some(),
            None => false,
        };
        if !ok {
            return false;
        }
        i = i + 1;
    }
    true
}

/// Whether a value is a change message that can be read.
pub fn check_limit_order_message(order_state_raw: &JsonValue) -> (r: bool)
    ensures
        r == is_limit_order_message(*order_state_raw),
{
    let data = match order_state_raw.get("params") {
        Some(p) => match p.get("data") {
            Some(d) => d,
            None => return false,
        },
        None => return false,
    };
    let header = match data.get("type") {
        Some(t) => t.as_str().is_some(),
        None => false,
    } && match data.get("timestamp") {
        Some(t) => t.as_u64().is_some(),
        None => false,
    } && match data.get("prev_change_id") {
        Some(t) => t.as_u64().is_some(),
        None => false,
    } && match data.get("change_id") {
        Some(t) => t.as_u64().is_some(),
        None => false,
    };
    if !header {
        return false;
    }
    let asks = match data.get("asks") {
        Some(a) => match a.as_array() {
            Some(items) => check_levels(items),
            None => false,
        },
        None => false,
    };
    let bids = match data.get("bids") {
        Some(b) => match b.as_array() {
            Some(items) => check_levels(items),
            None => false,
        },
        None => false,
    };
    asks && bids
}

/// Reads a change message.
pub fn populate_limit_order(order_state_raw: &mut JsonValue) -> (r: LimitOrder)
    requires
        is_limit_order_message(*old(order_state_raw)),
    ensures
        r@ == limit_order_of(*old(order_state_raw)),
        *final(order_state_raw) == *old(order_state_raw),
{
    let raw: &JsonValue = order_state_raw;
    let data = raw.get("params").unwrap().get("data").unwrap();
    let mut limit_order = initialise_limit_order_struct(data);
    let asks = data.get("asks").unwrap().as_array().unwrap();
    let bids = data.get("bids").unwrap().as_array().unwrap();
    push_to_limit_order(&mut limit_order, asks, false);
    push_to_limit_order(&mut limit_order, bids, true);
    assert(limit_order@.bids =~= levels_of(bids@));
    assert(limit_order@.asks =~= levels_of(asks@));
    limit_order
}

/// The header of a change message, with no levels yet.
pub fn initialise_limit_order_struct(data: &JsonValue) -> (r: LimitOrder)
    requires
        has_limit_order_header(*data),
    ensures
        r.order_type@ == member_str(*data, "type"@).unwrap(),
        r.timestamp == member_u64(*data, "timestamp"@).unwrap(),
        r.prev_change_id == member_u64(*data, "prev_change_id"@).unwrap(),
        r.change_id == member_u64(*data, "change_id"@).unwrap(),
        r.bids@.len() == 0,
        r.asks@.len() == 0,
{
    LimitOrder {
        order_type: data.get("type").unwrap().as_str().unwrap().clone(),
        timestamp: data.get("timestamp").unwrap().as_u64().unwrap(),
        prev_change_id: data.get("prev_change_id").unwrap().as_u64().unwrap(),
        change_id: data.get("change_id").unwrap().as_u64().unwrap(),
        bids: Vec::new(),
        asks: Vec::new(),
    }
}

/// Appends the levels of an array to the bids (`is_bid`) or the asks of a
/// change message.
pub fn push_to_limit_order(limit_order: &mut LimitOrder, data: &Vec<JsonValue>, is_bid: bool)
    requires
        are_levels(data@),
    ensures
        final(limit_order).order_type == old(limit_order).order_type,
        final(limit_order).timestamp == old(limit_order).timestamp,
        final(limit_order).prev_change_id == old(limit_order).prev_change_id,
        final(limit_order).change_id == old(limit_order).change_id,
        is_bid ==> final(limit_order)@.bids == old(limit_order)@.bids + levels_of(data@),
        is_bid ==> final(limit_order).asks == old(limit_order).asks,
        !is_bid ==> final(limit_order)@.asks == old(limit_order)@.asks + levels_of(data@),
        !is_bid ==> final(limit_order).bids == old(limit_order).bids,
{
    let ghost bids0 = views(limit_order.bids@);
    let ghost asks0 = views(limit_order.asks@);
    let mut i: usize = 0;
    while i < data.len()
        invariant
            i <= data.len(),
            are_levels(data@),
            limit_order.order_type == old(limit_order).order_type,
            limit_order.timestamp == old(limit_order).timestamp,
            limit_order.prev_change_id == old(limit_order).prev_change_id,
            limit_order.change_id == old(limit_order).change_id,
            bids0 == views(old(limit_order).bids@),
            asks0 == views(old(limit_order).asks@),
            is_bid ==> views(limit_order.bids@) == bids0 + levels_of(data@.take(i as int)),
            is_bid ==> limit_order.asks == old(limit_order).asks,
            !is_bid ==> views(limit_order.asks@) == asks0 + levels_of(data@.take(i as int)),
            !is_bid ==> limit_order.bids == old(limit_order).bids,
        decreases data.len() - i,
    {
        let order_data = order_data_of(&data[i]);
        proof {
            assert(levels_of(data@.take(i as int + 1)) =~= levels_of(data@.take(i as int)).push(
                order_data@,
            ));
        }
        if is_bid {
            let ghost before = limit_order.bids@;
            limit_order.bids.push(order_data);
            assert(views(limit_order.bids@) =~= views(before).push(order_data@));
        } else {
            let ghost before = limit_order.asks@;
            limit_order.asks.push(order_data);
            assert(views(limit_order.asks@) =~= views(before).push(order_data@));
        }
        i = i + 1;
    }
    assert(data@.take(i as int) =~= data@);
}

} // verus!
