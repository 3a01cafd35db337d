//! Laws of the order book: what the operations keep, what one undoes of
//! another, and how messages compose.

use vstd::prelude::*;

use crate::feed::lost_before;
use crate::models::{LimitOrder, OrderView};
use crate::price::{is_nan, lemma_price_eq_is_float_equality, lemma_rank_is_float_order, price_eq, rank, SIGN_BIT};
use crate::json::{object_lookup, json_array, json_float_bits, json_get, json_index, json_str, json_u64, JsonValue};
use crate::limit_order_fns::{is_level, is_limit_order_message, limit_order_of};
use crate::order_book_fns::{is_order_book_snapshot, order_book_of};
use crate::update_order_book_fns::{
    apply_change, apply_delete, apply_new, apply_update, apply_updates, first_level_at,
    has_level_at, is_first_level_at, is_sorted_side, kind_of, lemma_insert_sorted_position, lemma_sort_side_sorted, side_key, sort_side, update_defined,
    updates_defined, LevelKind,
};

verus! {

/// Where some level of a side has a price, there is a first such level.
pub proof fn lemma_first_level_exists(s: Seq<OrderView>, price: u64)
    requires
        has_level_at(s, price),
    ensures
        is_first_level_at(s, price, first_level_at(s, price)),
{
    let i = choose|i: int| 0 <= i < s.len() && price_eq(#[trigger] s[i].price, price);
    lemma_first_level_below(s, price, i);
}

proof fn lemma_first_level_below(s: Seq<OrderView>, price: u64, i: int)
    requires
        0 <= i < s.len(),
        price_eq(s[i].price, price),
    ensures
        is_first_level_at(s, price, first_level_at(s, price)),
    decreases i,
{
    if exists|k: int| 0 <= k < i && price_eq(#[trigger] s[k].price, price) {
        let k = choose|k: int| 0 <= k < i && price_eq(#[trigger] s[k].price, price);
        lemma_first_level_below(s, price, k);
    } else {
        assert(is_first_level_at(s, price, i));
    }
}

/// The sort of a side holds the same levels as the side, each as many times.
pub proof fn lemma_sort_side_permutes(s: Seq<OrderView>, is_bid: bool)
    ensures
        sort_side(s, is_bid).to_multiset() == s.to_multiset(),
    decreases s.len(),
{
    broadcast use vstd::seq_lib::to_multiset_insert, vstd::seq_lib::to_multiset_build;

    if s.len() > 0 {
        let t = s.drop_last();
        lemma_sort_side_permutes(t, is_bid);
        lemma_insert_sorted_position(sort_side(t, is_bid), s.last(), is_bid);
        assert(t.push(s.last()) =~= s);
    }
}

/// A sorted side is its own sort.
pub proof fn lemma_sort_side_of_sorted(s: Seq<OrderView>, is_bid: bool)
    requires
        is_sorted_side(s, is_bid),
    ensures
        sort_side(s, is_bid) == s,
    decreases s.len(),
{
    if s.len() > 0 {
        let t = s.drop_last();
        assert(is_sorted_side(t, is_bid));
        lemma_sort_side_of_sorted(t, is_bid);
        if t.len() > 0 {
            assert(side_key(t.last(), is_bid) <= side_key(s.last(), is_bid));
        }
        assert(t.push(s.last()) =~= s);
    }
}

/// Removing a level keeps a sorted side sorted.
proof fn lemma_remove_keeps_sorted(s: Seq<OrderView>, p: int, is_bid: bool)
    requires
        is_sorted_side(s, is_bid),
        0 <= p < s.len(),
    ensures
        is_sorted_side(s.remove(p), is_bid),
{
    let r = s.remove(p);
    assert forall|a: int, b: int| 0 <= a <= b < r.len() implies side_key(#[trigger] r[a], is_bid)
        <= side_key(#[trigger] r[b], is_bid) by {
        let a0 = if a < p { a } else { a + 1 };
        let b0 = if b < p { b } else { b + 1 };
        assert(r[a] == s[a0] && r[b] == s[b0]);
    }
}

/// Every level of a message that can be applied keeps a sorted side sorted.
pub proof fn lemma_update_keeps_sorted(s: Seq<OrderView>, o: OrderView, is_bid: bool)
    requires
        is_sorted_side(s, is_bid),
        update_defined(s, o, is_bid),
    ensures
        is_sorted_side(apply_update(s, o, is_bid), is_bid),
{
    match kind_of(o.order_type) {
        LevelKind::New => {
            lemma_sort_side_sorted(s.push(o), is_bid);
        },
        LevelKind::Change => {
            let r = apply_change(s, o.price, o.size);
            assert forall|a: int, b: int| 0 <= a <= b < r.len() implies side_key(
                #[trigger] r[a],
                is_bid,
            ) <= side_key(#[trigger] r[b], is_bid) by {
                assert(r[a].price == s[a].price && r[b].price == s[b].price);
            }
        },
        LevelKind::Delete => {
            lemma_first_level_exists(s, o.price);
            lemma_remove_keeps_sorted(s, first_level_at(s, o.price), is_bid);
        },
        LevelKind::Other => {},
    }
}

/// A message whose levels can all be applied keeps a sorted side sorted.
pub proof fn lemma_updates_keep_sorted(s: Seq<OrderView>, os: Seq<OrderView>, is_bid: bool)
    requires
        is_sorted_side(s, is_bid),
        updates_defined(s, os, is_bid),
    ensures
        is_sorted_side(apply_updates(s, os, is_bid), is_bid),
    decreases os.len(),
{
    if os.len() > 0 {
        lemma_updates_keep_sorted(s, os.drop_last(), is_bid);
        lemma_update_keeps_sorted(apply_updates(s, os.drop_last(), is_bid), os.last(), is_bid);
    }
}

/// On a sorted side with no level at its price, a `delete` at the price of a
/// `new` level takes the side back to what it was.
pub proof fn lemma_delete_undoes_new(s: Seq<OrderView>, o: OrderView, is_bid: bool)
    requires
        is_sorted_side(s, is_bid),
        !is_nan(o.price),
        !has_level_at(s, o.price),
    ensures
        apply_delete(apply_new(s, o, is_bid), o.price) == s,
{
    lemma_sort_side_of_sorted(s, is_bid);
    assert(s.push(o).drop_last() =~= s);
    let j = lemma_insert_sorted_position(s, o, is_bid);
    let r = s.insert(j, o);
    assert(apply_new(s, o, is_bid) == r);
    assert(r[j] == o);
    assert forall|k: int| 0 <= k < j implies !price_eq(#[trigger] r[k].price, o.price) by {
        assert(r[k] == s[k]);
    }
    assert(is_first_level_at(r, o.price, j));
    assert(has_level_at(r, o.price));
    lemma_first_level_exists(r, o.price);
    let q = first_level_at(r, o.price);
    if q < j {
        assert(!price_eq(r[q].price, o.price));
    } else if q > j {
        assert(!price_eq(r[j].price, o.price));
    }
    assert(r.remove(j) =~= s);
}

/// A `change` keeps the number of levels and every level's kind and price,
/// and gives the levels at its price its size.
pub proof fn lemma_change_sets_sizes(s: Seq<OrderView>, price: u64, size: u64)
    ensures
        apply_change(s, price, size).len() == s.len(),
        forall|i: int|
            0 <= i < s.len() ==> {
                let c = #[trigger] apply_change(s, price, size)[i];
                &&& c.order_type == s[i].order_type
                &&& c.price == s[i].price
                &&& c.size == (if price_eq(s[i].price, price) {
                    size
                } else {
                    s[i].size
                })
            },
{
}

/// A `change` applied twice does what it does once.
pub proof fn lemma_change_idempotent(s: Seq<OrderView>, price: u64, size: u64)
    ensures
        apply_change(apply_change(s, price, size), price, size) == apply_change(s, price, size),
{
    assert(apply_change(apply_change(s, price, size), price, size) =~= apply_change(s, price, size));
}

/// A `delete` removes one level, the first at its price.
pub proof fn lemma_delete_removes_one(s: Seq<OrderView>, price: u64)
    requires
        has_level_at(s, price),
    ensures
        apply_delete(s, price).len() + 1 == s.len(),
        apply_delete(s, price).to_multiset() == s.to_multiset().remove(s[first_level_at(s, price)]),
        price_eq(s[first_level_at(s, price)].price, price),
{
    broadcast use vstd::seq_lib::to_multiset_remove;

    lemma_first_level_exists(s, price);
}

/// Applying two messages in turn is applying their levels one after the
/// other, and both can be applied exactly when all those levels can.
pub proof fn lemma_updates_compose(s: Seq<OrderView>, a: Seq<OrderView>, b: Seq<OrderView>, is_bid: bool)
    ensures
        apply_updates(s, a + b, is_bid) == apply_updates(apply_updates(s, a, is_bid), b, is_bid),
        updates_defined(s, a + b, is_bid) == (updates_defined(s, a, is_bid) && updates_defined(
            apply_updates(s, a, is_bid),
            b,
            is_bid,
        )),
    decreases b.len(),
{
    if b.len() == 0 {
        assert(a + b =~= a);
    } else {
        lemma_updates_compose(s, a, b.drop_last(), is_bid);
        assert((a + b).drop_last() =~= a + b.drop_last());
        assert((a + b).last() == b.last());
    }
}

/// On a sorted side the first level is the best: no bid is higher than the
/// first bid, no ask lower than the first ask.
pub proof fn lemma_first_level_is_best(s: Seq<OrderView>, is_bid: bool, i: int)
    requires
        is_sorted_side(s, is_bid),
        0 <= i < s.len(),
    ensures
        is_bid ==> rank(s[i].price) <= rank(s[0].price),
        !is_bid ==> rank(s[0].price) <= rank(s[i].price),
{
    assert(side_key(s[0], is_bid) <= side_key(s[i], is_bid));
}

/// A message that follows the last one applied is never reported as coming
/// after a lost one.
pub proof fn lemma_following_message_not_lost(
    limit_orders: Seq<LimitOrder>,
    last: LimitOrder,
    next: LimitOrder,
)
    requires
        next.prev_change_id == last.change_id,
    ensures
        lost_before(limit_orders.push(last), next) is None,
{
}


/// A `new` bid above every bid of a sorted bid side (prices compared as the
/// non-negative floats they are) becomes the first, best bid; the other bids
/// follow in their order.
pub proof fn lemma_new_best_bid_goes_first(s: Seq<OrderView>, o: OrderView)
    requires
        is_sorted_side(s, true),
        o.price < SIGN_BIT,
        !is_nan(o.price),
        forall|i: int| 0 <= i < s.len() ==> (#[trigger] s[i]).price < o.price,
    ensures
        apply_new(s, o, true)[0] == o,
        apply_new(s, o, true) == seq![o] + s,
{
    lemma_sort_side_of_sorted(s, true);
    assert(s.push(o).drop_last() =~= s);
    let j = lemma_insert_sorted_position(s, o, true);
    if j > 0 {
        lemma_nan_below(s[j - 1].price, o.price);
        lemma_rank_is_float_order(s[j - 1].price, o.price);
    }
    assert(s.insert(0, o) =~= seq![o] + s);
}

/// A `new` ask below every ask of a sorted ask side (prices compared as the
/// non-negative floats they are) becomes the first, best ask; the other asks
/// follow in their order.
pub proof fn lemma_new_best_ask_goes_first(s: Seq<OrderView>, o: OrderView)
    requires
        is_sorted_side(s, false),
        !is_nan(o.price),
        forall|i: int| 0 <= i < s.len() ==> o.price < (#[trigger] s[i]).price && s[i].price < SIGN_BIT && !is_nan(s[i].price),
    ensures
        apply_new(s, o, false)[0] == o,
        apply_new(s, o, false) == seq![o] + s,
{
    lemma_sort_side_of_sorted(s, false);
    assert(s.push(o).drop_last() =~= s);
    let j = lemma_insert_sorted_position(s, o, false);
    if j > 0 {
        lemma_rank_is_float_order(s[j - 1].price, o.price);
    }
    assert(s.insert(0, o) =~= seq![o] + s);
}

/// A non-negative bit pattern below a non-NaN one is no NaN.
proof fn lemma_nan_below(a: u64, b: u64)
    requires
        a < b,
        b < SIGN_BIT,
        !is_nan(b),
    ensures
        !is_nan(a),
{
}

/// A `change` touches only the levels at its price: a level whose price is
/// another float keeps its size, and (for a non-NaN price) a level at exactly
/// that price takes the new size. Every level keeps its kind and price.
pub proof fn lemma_change_only_at_its_price(s: Seq<OrderView>, price: u64, size: u64, i: int)
    requires
        0 <= i < s.len(),
    ensures
        apply_change(s, price, size).len() == s.len(),
        apply_change(s, price, size)[i].price == s[i].price,
        apply_change(s, price, size)[i].order_type == s[i].order_type,
        s[i].price != price && !((s[i].price == 0 || s[i].price == SIGN_BIT) && (price == 0 || price
            == SIGN_BIT)) ==> apply_change(s, price, size)[i] == s[i],
        s[i].price == price && !is_nan(price) ==> apply_change(s, price, size)[i].size == size,
        is_nan(price) ==> apply_change(s, price, size)[i] == s[i],
{
    lemma_price_eq_is_float_equality(s[i].price, price);
}

/// The level an array `[kind, price, size]` holds, read from its elements.
pub open spec fn level_from_elements(v: JsonValue) -> OrderView {
    OrderView {
        order_type: json_str(json_index(v, 0).unwrap()).unwrap(),
        price: json_float_bits(json_index(v, 1).unwrap()).unwrap(),
        size: json_float_bits(json_index(v, 2).unwrap()).unwrap(),
    }
}

/// The value is an array whose first three elements are a string and two
/// numbers.
pub open spec fn has_level_elements(v: JsonValue) -> bool {
    &&& json_index(v, 0) matches Some(t) && json_str(t) is Some
    &&& json_index(v, 1) matches Some(p) && json_float_bits(p) is Some
    &&& json_index(v, 2) matches Some(z) && json_float_bits(z) is Some
}

/// A change message can be read exactly when `params.data` has a string
/// `type`, unsigned `timestamp`, `prev_change_id` and `change_id`, and arrays
/// `asks` and `bids` of levels, whatever their lengths (empty ones too). Read,
/// it holds those header fields and, on each side, one level per element of
/// the array, in the order of the array.
pub proof fn lemma_limit_order_message_readable(
    v: JsonValue,
    data: JsonValue,
    asks: Seq<JsonValue>,
    bids: Seq<JsonValue>,
)
    requires
        json_get(v, "params"@) matches Some(p) && json_get(p, "data"@) == Some(data),
        json_get(data, "asks"@) matches Some(a) && json_array(a) == Some(asks),
        json_get(data, "bids"@) matches Some(b) && json_array(b) == Some(bids),
    ensures
        is_limit_order_message(v) <==> (json_get(data, "type"@) matches Some(t) && json_str(t) is Some)
            && (json_get(data, "timestamp"@) matches Some(t) && json_u64(t) is Some) && (json_get(
            data,
            "prev_change_id"@,
        ) matches Some(t) && json_u64(t) is Some) && (json_get(data, "change_id"@) matches Some(t)
            && json_u64(t) is Some) && (forall|i: int|
            0 <= i < asks.len() ==> has_level_elements(#[trigger] asks[i])) && (forall|i: int|
            0 <= i < bids.len() ==> has_level_elements(#[trigger] bids[i])),
        is_limit_order_message(v) ==> {
            let r = limit_order_of(v);
            &&& r.order_type == json_str(json_get(data, "type"@).unwrap()).unwrap()
            &&& r.timestamp == json_u64(json_get(data, "timestamp"@).unwrap()).unwrap()
            &&& r.prev_change_id == json_u64(json_get(data, "prev_change_id"@).unwrap()).unwrap()
            &&& r.change_id == json_u64(json_get(data, "change_id"@).unwrap()).unwrap()
            &&& r.asks.len() == asks.len()
            &&& r.bids.len() == bids.len()
            &&& forall|i: int| 0 <= i < asks.len() ==> #[trigger] r.asks[i] == level_from_elements(asks[i])
            &&& forall|i: int| 0 <= i < bids.len() ==> #[trigger] r.bids[i] == level_from_elements(bids[i])
        },
{
    assert forall|i: int| 0 <= i < asks.len() implies (is_level(#[trigger] asks[i]) <==> has_level_elements(asks[i])) by {}
    assert forall|i: int| 0 <= i < bids.len() implies (is_level(#[trigger] bids[i]) <==> has_level_elements(bids[i])) by {}
}

/// A snapshot can be read exactly when `params.data` has arrays `bids` and
/// `asks` of levels, whatever their lengths. Read, each side holds one level
/// per element of its own array, in the order of the array.
pub proof fn lemma_snapshot_readable(v: JsonValue, data: JsonValue, asks: Seq<JsonValue>, bids: Seq<JsonValue>)
    requires
        json_get(v, "params"@) matches Some(p) && json_get(p, "data"@) == Some(data),
        json_get(data, "asks"@) matches Some(a) && json_array(a) == Some(asks),
        json_get(data, "bids"@) matches Some(b) && json_array(b) == Some(bids),
    ensures
        is_order_book_snapshot(v) <==> (forall|i: int|
            0 <= i < asks.len() ==> has_level_elements(#[trigger] asks[i])) && (forall|i: int|
            0 <= i < bids.len() ==> has_level_elements(#[trigger] bids[i])),
        is_order_book_snapshot(v) ==> {
            let r = order_book_of(v);
            &&& r.asks.len() == asks.len()
            &&& r.bids.len() == bids.len()
            &&& forall|i: int| 0 <= i < asks.len() ==> #[trigger] r.asks[i] == level_from_elements(asks[i])
            &&& forall|i: int| 0 <= i < bids.len() ==> #[trigger] r.bids[i] == level_from_elements(bids[i])
        },
{
    assert forall|i: int| 0 <= i < asks.len() implies (is_level(#[trigger] asks[i]) <==> has_level_elements(asks[i])) by {}
    assert forall|i: int| 0 <= i < bids.len() implies (is_level(#[trigger] bids[i]) <==> has_level_elements(bids[i])) by {}
}

/// With more than one message applied, a new message whose `prev_change_id`
/// is not the last applied `change_id` is reported, with that change id; a
/// message that follows on, or one arriving before two are applied, is not.
pub proof fn lemma_lost_message_reported(limit_orders: Seq<LimitOrder>, limit_order: LimitOrder)
    ensures
        limit_orders.len() > 1 && limit_order.prev_change_id != limit_orders[limit_orders.len() - 1].change_id
            ==> lost_before(limit_orders, limit_order) == Some(limit_orders[limit_orders.len() - 1].change_id),
        limit_orders.len() <= 1 || limit_order.prev_change_id == limit_orders[limit_orders.len() - 1].change_id
            ==> lost_before(limit_orders, limit_order) is None,
{
}


/// Looking up a key in an object gives the value of the first member with
/// that key, and nothing where no member has it; an element index gives that
/// element of an array.
pub proof fn lemma_json_lookup(entries: Seq<(String, JsonValue)>, key: Seq<char>, i: int)
    ensures
        0 <= i < entries.len() && entries[i].0@ == key && (forall|k: int|
            0 <= k < i ==> (#[trigger] entries[k]).0@ != key) ==> object_lookup(entries, key) == Some(
            entries[i].1,
        ),
        (forall|k: int| 0 <= k < entries.len() ==> (#[trigger] entries[k]).0@ != key) ==> object_lookup(
            entries,
            key,
        ) is None,
    decreases entries.len(),
{
    if entries.len() > 0 {
        let t = entries.drop_first();
        lemma_json_lookup(t, key, i - 1);
        if 0 < i < entries.len() && entries[i].0@ == key && (forall|k: int|
            0 <= k < i ==> (#[trigger] entries[k]).0@ != key) {
            assert(entries[0].0@ != key);
            assert(t[i - 1] == entries[i]);
            assert forall|k: int| 0 <= k < i - 1 implies (#[trigger] t[k]).0@ != key by {
                assert(t[k] == entries[k + 1]);
            }
        }
        if forall|k: int| 0 <= k < entries.len() ==> (#[trigger] entries[k]).0@ != key {
            assert(entries[0].0@ != key);
            assert forall|k: int| 0 <= k < t.len() implies (#[trigger] t[k]).0@ != key by {
                assert(t[k] == entries[k + 1]);
            }
        }
    }
}

/// A `delete` at a price removes the first level whose price is that float
/// (the same bit pattern, or both zeros) and keeps every other level in
/// order.
pub proof fn lemma_delete_removes_first_at_price(s: Seq<OrderView>, price: u64, p: int)
    requires
        0 <= p < s.len(),
        !is_nan(price),
        s[p].price == price || ((s[p].price == 0 || s[p].price == SIGN_BIT) && (price == 0 || price
            == SIGN_BIT)),
        forall|k: int|
            0 <= k < p ==> (#[trigger] s[k]).price != price && !((s[k].price == 0 || s[k].price
                == SIGN_BIT) && (price == 0 || price == SIGN_BIT)),
    ensures
        apply_delete(s, price) == s.take(p) + s.skip(p + 1),
{
    lemma_price_eq_is_float_equality(s[p].price, price);
    assert forall|k: int| 0 <= k < p implies !price_eq(#[trigger] s[k].price, price) by {
        lemma_price_eq_is_float_equality(s[k].price, price);
    }
    assert(is_first_level_at(s, price, p));
    lemma_first_level_exists(s, price);
    let q = first_level_at(s, price);
    if q < p {
        assert(!price_eq(s[q].price, price));
    } else if q > p {
        assert(!price_eq(s[p].price, price));
    }
    assert(s.remove(p) =~= s.take(p) + s.skip(p + 1));
}

} // verus!
