//! Applying the levels of a change message to the order book.

use vstd::prelude::*;

use crate::models::{views, LimitOrder, LimitOrderBook, OrderData, OrderView};
use crate::price::{is_nan, price_eq, prices_equal, rank, rank_of, is_nan_bits};

verus! {

// ---------------------------------------------------------------------------
// Sorting a side
// ---------------------------------------------------------------------------

/// The key by which a side is sorted, smallest first: bids by falling price,
/// asks by rising price.
pub open spec fn side_key(o: OrderView, is_bid: bool) -> int {
    if is_bid {
        -rank(o.price)
    } else {
        rank(o.price)
    }
}

/// Every level comes no later than the levels with a greater key.
pub open spec fn is_sorted_side(s: Seq<OrderView>, is_bid: bool) -> bool {
    forall|i: int, j: int|
        0 <= i <= j < s.len() ==> side_key(#[trigger] s[i], is_bid) <= side_key(#[trigger] s[j], is_bid)
}

/// The levels of `s` whose key is `k`, in their order in `s`.
pub open spec fn levels_with_key(s: Seq<OrderView>, k: int, is_bid: bool) -> Seq<OrderView> {
    s.filter(|o: OrderView| side_key(o, is_bid) == k)
}

/// `x` moved in from the back of `s` past every level with a greater key.
pub open spec fn insert_sorted(s: Seq<OrderView>, x: OrderView, is_bid: bool) -> Seq<OrderView>
    decreases s.len(),
{
    if s.len() == 0 {
        seq![x]
    } else if side_key(s.last(), is_bid) <= side_key(x, is_bid) {
        s.push(x)
    } else {
        insert_sorted(s.drop_last(), x, is_bid).push(s.last())
    }
}

/// The stable sort of a side by [`side_key`]: the levels of `s` ordered by key,
/// levels of equal key in their order in `s`.
pub open spec fn sort_side(s: Seq<OrderView>, is_bid: bool) -> Seq<OrderView>
    decreases s.len(),
{
    if s.len() == 0 {
        s
    } else {
        insert_sorted(sort_side(s.drop_last(), is_bid), s.last(), is_bid)
    }
}

/// `insert_sorted` places `x` at the one position `j` where the level before
/// has a key no greater than `x`'s and all later levels have a greater key.
pub proof fn lemma_insert_sorted_at(s: Seq<OrderView>, x: OrderView, is_bid: bool, j: int)
    requires
        0 <= j <= s.len(),
        j == 0 || side_key(s[j - 1], is_bid) <= side_key(x, is_bid),
        forall|k: int| j <= k < s.len() ==> side_key(#[trigger] s[k], is_bid) > side_key(x, is_bid),
    ensures
        insert_sorted(s, x, is_bid) == s.insert(j, x),
    decreases s.len(),
{
    if s.len() == 0 {
        assert(seq![x] =~= s.insert(j, x));
    } else if side_key(s.last(), is_bid) <= side_key(x, is_bid) {
        assert(j == s.len());
        assert(s.push(x) =~= s.insert(j, x));
    } else {
        let t = s.drop_last();
        assert(j < s.len());
        lemma_insert_sorted_at(t, x, is_bid, j);
        assert(t.insert(j, x).push(s.last()) =~= s.insert(j, x));
    }
}

/// Where `insert_sorted` places `x`.
pub proof fn lemma_insert_sorted_position(s: Seq<OrderView>, x: OrderView, is_bid: bool) -> (j: int)
    ensures
        0 <= j <= s.len(),
        j == 0 || side_key(s[j - 1], is_bid) <= side_key(x, is_bid),
        forall|k: int| j <= k < s.len() ==> side_key(#[trigger] s[k], is_bid) > side_key(x, is_bid),
        insert_sorted(s, x, is_bid) == s.insert(j, x),
    decreases s.len(),
{
    if s.len() == 0 {
        assert(seq![x] =~= s.insert(0, x));
        0
    } else if side_key(s.last(), is_bid) <= side_key(x, is_bid) {
        assert(s.push(x) =~= s.insert(s.len() as int, x));
        s.len() as int
    } else {
        let t = s.drop_last();
        let j = lemma_insert_sorted_position(t, x, is_bid);
        assert(t.insert(j, x).push(s.last()) =~= s.insert(j, x));
        assert forall|k: int| j <= k < s.len() implies side_key(#[trigger] s[k], is_bid) > side_key(
            x,
            is_bid,
        ) by {
            if k < s.len() - 1 {
                assert(s[k] == t[k]);
            }
        }
        j
    }
}

/// Inserting into a sorted side keeps it sorted.
pub proof fn lemma_insert_sorted_keeps_sorted(s: Seq<OrderView>, x: OrderView, is_bid: bool)
    requires
        is_sorted_side(s, is_bid),
    ensures
        is_sorted_side(insert_sorted(s, x, is_bid), is_bid),
{
    let j = lemma_insert_sorted_position(s, x, is_bid);
    let r = s.insert(j, x);
    assert forall|a: int, b: int| 0 <= a <= b < r.len() implies side_key(#[trigger] r[a], is_bid)
        <= side_key(#[trigger] r[b], is_bid) by {
        if a < j && b < j {
            assert(r[a] == s[a] && r[b] == s[b]);
        } else if a < j && b == j {
            assert(r[a] == s[a]);
            assert(side_key(s[a], is_bid) <= side_key(s[j - 1], is_bid));
        } else if a < j {
            assert(r[a] == s[a] && r[b] == s[b - 1]);
        } else if a == j && b > j {
            assert(r[b] == s[b - 1]);
        } else if a > j {
            assert(r[a] == s[a - 1] && r[b] == s[b - 1]);
        }
    }
}

/// The sort of a side is sorted.
pub proof fn lemma_sort_side_sorted(s: Seq<OrderView>, is_bid: bool)
    ensures
        is_sorted_side(sort_side(s, is_bid), is_bid),
        sort_side(s, is_bid).len() == s.len(),
    decreases s.len(),
{
    if s.len() > 0 {
        lemma_sort_side_sorted(s.drop_last(), is_bid);
        let t = sort_side(s.drop_last(), is_bid);
        lemma_insert_sorted_keeps_sorted(t, s.last(), is_bid);
        lemma_insert_sorted_position(t, s.last(), is_bid);
    }
}

/// A filter that keeps nothing is empty.
proof fn lemma_filter_keeps_nothing(s: Seq<OrderView>, pred: spec_fn(OrderView) -> bool)
    requires
        forall|i: int| 0 <= i < s.len() ==> !pred(#[trigger] s[i]),
    ensures
        s.filter(pred) == Seq::<OrderView>::empty(),
    decreases s.len(),
{
    reveal(Seq::filter);
    if s.len() > 0 {
        lemma_filter_keeps_nothing(s.drop_last(), pred);
    }
    assert(s.filter(pred) =~= Seq::<OrderView>::empty());
}

/// Filtering after a push.
proof fn lemma_filter_push(s: Seq<OrderView>, x: OrderView, pred: spec_fn(OrderView) -> bool)
    ensures
        s.push(x).filter(pred) == (if pred(x) {
            s.filter(pred).push(x)
        } else {
            s.filter(pred)
        }),
{
    reveal(Seq::filter);
    assert(s.push(x).drop_last() =~= s);
}

/// Inserting into a sorted side adds `x` to the end of the levels of its key
/// and leaves the levels of every other key as they were.
proof fn lemma_insert_sorted_levels(s: Seq<OrderView>, x: OrderView, is_bid: bool, k: int)
    requires
        is_sorted_side(s, is_bid),
    ensures
        levels_with_key(insert_sorted(s, x, is_bid), k, is_bid) == levels_with_key(
            s.push(x),
            k,
            is_bid,
        ),
{
    let pred = |o: OrderView| side_key(o, is_bid) == k;
    let j = lemma_insert_sorted_position(s, x, is_bid);
    let a = s.take(j);
    let b = s.skip(j);
    assert(s =~= a + b);
    assert(s.insert(j, x) =~= a + (seq![x] + b));
    Seq::filter_distributes_over_add(a, b, pred);
    Seq::filter_distributes_over_add(a, seq![x] + b, pred);
    Seq::filter_distributes_over_add(seq![x], b, pred);
    lemma_filter_push(Seq::<OrderView>::empty(), x, pred);
    assert(Seq::<OrderView>::empty().push(x) =~= seq![x]);
    lemma_filter_keeps_nothing(Seq::<OrderView>::empty(), pred);
    lemma_filter_push(s, x, pred);
    if pred(x) {
        assert forall|i: int| 0 <= i < b.len() implies !pred(#[trigger] b[i]) by {
            assert(b[i] == s[j + i]);
        }
        lemma_filter_keeps_nothing(b, pred);
        assert(a.filter(pred) + (seq![x] + b.filter(pred)) =~= (a.filter(pred) + b.filter(
            pred,
        )).push(x));
    } else {
        assert(a.filter(pred) + (Seq::<OrderView>::empty() + b.filter(pred)) =~= a.filter(pred)
            + b.filter(pred));
    }
}

/// The sort of a side keeps, for every key, the levels of that key in their
/// order: it is a stable sort.
pub proof fn lemma_sort_side_stable(s: Seq<OrderView>, is_bid: bool, k: int)
    ensures
        levels_with_key(sort_side(s, is_bid), k, is_bid) == levels_with_key(s, k, is_bid),
    decreases s.len(),
{
    let pred = |o: OrderView| side_key(o, is_bid) == k;
    if s.len() == 0 {
    } else {
        let t = s.drop_last();
        lemma_sort_side_stable(t, is_bid, k);
        lemma_sort_side_sorted(t, is_bid);
        lemma_insert_sorted_levels(sort_side(t, is_bid), s.last(), is_bid, k);
        lemma_filter_push(sort_side(t, is_bid), s.last(), pred);
        lemma_filter_push(t, s.last(), pred);
        assert(t.push(s.last()) =~= s);
    }
}

// ---------------------------------------------------------------------------
// Sorting, executable
// ---------------------------------------------------------------------------

/// The [`side_key`] of a price.
fn key_of(price: u64, is_bid: bool) -> (r: i128)
    ensures
        r == side_key(OrderView { order_type: Seq::empty(), price: price, size: 0 }, is_bid),
{
    let r = rank_of(price);
    if is_bid {
        -r
    } else {
        r
    }
}

/// The position at which `insert_sorted` places `x` in `orders`.
fn insertion_index(orders: &Vec<OrderData>, x: &OrderData, is_bid: bool) -> (j: usize)
    ensures
        j <= orders.len(),
        j == 0 || side_key(orders@[j - 1]@, is_bid) <= side_key(x@, is_bid),
        forall|k: int| j <= k < orders.len() ==> side_key(#[trigger] orders@[k]@, is_bid) > side_key(x@, is_bid),
{
    let kx = key_of(x.price, is_bid);
    let mut j = orders.len();
    while j > 0
        invariant
            j <= orders.len(),
            kx == side_key(x@, is_bid),
            forall|k: int| j <= k < orders.len() ==> side_key(#[trigger] orders@[k]@, is_bid) > kx,
        ensures
            j <= orders.len(),
            j == 0 || side_key(orders@[j - 1]@, is_bid) <= kx,
            forall|k: int| j <= k < orders.len() ==> side_key(#[trigger] orders@[k]@, is_bid) > kx,
        decreases j,
    {
        let kj = key_of(orders[j - 1].price, is_bid);
        if kj <= kx {
            break;
        }
        j = j - 1;
    }
    j
}

/// Sorts a side stably by [`side_key`].
fn sort_orders(orders: &mut Vec<OrderData>, is_bid: bool)
    ensures
        views(final(orders)@) == sort_side(views(old(orders)@), is_bid),
{
    let mut input: Vec<OrderData> = Vec::new();
    std::mem::swap(&mut input, orders);
    let ghost orig = input@;
    let ghost mut k: int = 0;
    assert(views(orig.take(0)) =~= Seq::<OrderView>::empty());
    assert(orig.skip(0) =~= orig);
    assert(views(orders@) =~= Seq::<OrderView>::empty());
    while input.len() > 0
        invariant
            0 <= k <= orig.len(),
            input@ == orig.skip(k),
            views(orders@) == sort_side(views(orig.take(k)), is_bid),
        decreases input.len(),
    {
        let x = input.remove(0);
        let j = insertion_index(orders, &x, is_bid);
        proof {
            let prefix = views(orig.take(k + 1));
            assert(prefix.drop_last() =~= views(orig.take(k)));
            assert(prefix.last() == x@);
            lemma_insert_sorted_at(views(orders@), x@, is_bid, j as int);
            assert(views(orders@).insert(j as int, x@) =~= views(orders@.insert(j as int, x)));
        }
        orders.insert(j, x);
        proof {
            assert(input@ =~= orig.skip(k + 1));
            k = k + 1;
        }
    }
    assert(orig.take(k) =~= orig);
}


// ---------------------------------------------------------------------------
// What one level of a message does to a side
// ---------------------------------------------------------------------------

/// The kinds of level a change message carries.
pub enum LevelKind {
    New,
    Change,
    Delete,
    Other,
}

/// The kind named by a level's `order_type`.
pub open spec fn kind_of(order_type: Seq<char>) -> LevelKind {
    if order_type == "new"@ {
        LevelKind::New
    } else if order_type == "change"@ {
        LevelKind::Change
    } else if order_type == "delete"@ {
        LevelKind::Delete
    } else {
        LevelKind::Other
    }
}

/// Some level of `s` has a NaN price.
pub open spec fn has_nan_price(s: Seq<OrderView>) -> bool {
    exists|i: int| 0 <= i < s.len() && is_nan(#[trigger] s[i].price)
}

/// Some level of `s` has a price equal to `price`.
pub open spec fn has_level_at(s: Seq<OrderView>, price: u64) -> bool {
    exists|i: int| 0 <= i < s.len() && price_eq(#[trigger] s[i].price, price)
}

/// `p` is the first level of `s` whose price equals `price`.
pub open spec fn is_first_level_at(s: Seq<OrderView>, price: u64, p: int) -> bool {
    &&& 0 <= p < s.len()
    &&& price_eq(s[p].price, price)
    &&& forall|k: int| 0 <= k < p ==> !price_eq(#[trigger] s[k].price, price)
}

/// The first level of `s` whose price equals `price`.
pub open spec fn first_level_at(s: Seq<OrderView>, price: u64) -> int {
    choose|p: int| is_first_level_at(s, price, p)
}

/// A level with its size replaced where its price equals `price`.
pub open spec fn change_level(o: OrderView, price: u64, size: u64) -> OrderView {
    if price_eq(o.price, price) {
        OrderView { order_type: o.order_type, price: o.price, size: size }
    } else {
        o
    }
}

/// A `new` level: appended, then the side sorted.
pub open spec fn apply_new(s: Seq<OrderView>, o: OrderView, is_bid: bool) -> Seq<OrderView> {
    sort_side(s.push(o), is_bid)
}

/// A `change` level: every level at the price takes the new size.
pub open spec fn apply_change(s: Seq<OrderView>, price: u64, size: u64) -> Seq<OrderView> {
    s.map_values(|o: OrderView| change_level(o, price, size))
}

/// A `delete` level: the first level at the price is removed.
pub open spec fn apply_delete(s: Seq<OrderView>, price: u64) -> Seq<OrderView> {
    s.remove(first_level_at(s, price))
}

/// What a level of a message does to a side; a level of another kind does nothing.
pub open spec fn apply_update(s: Seq<OrderView>, o: OrderView, is_bid: bool) -> Seq<OrderView> {
    match kind_of(o.order_type) {
        LevelKind::New => apply_new(s, o, is_bid),
        LevelKind::Change => apply_change(s, o.price, o.size),
        LevelKind::Delete => apply_delete(s, o.price),
        LevelKind::Other => s,
    }
}

/// Whether a level can be applied: sorting after a `new` level compares
/// prices, which fails on a NaN once the side has two levels; a `delete` level
/// needs a level at its price.
pub open spec fn update_defined(s: Seq<OrderView>, o: OrderView, is_bid: bool) -> bool {
    match kind_of(o.order_type) {
        LevelKind::New => s.len() >= 1 ==> !has_nan_price(s) && !is_nan(o.price),
        LevelKind::Delete => has_level_at(s, o.price),
        _ => true,
    }
}

/// The levels of a message applied to a side in their order.
pub open spec fn apply_updates(s: Seq<OrderView>, os: Seq<OrderView>, is_bid: bool) -> Seq<OrderView>
    decreases os.len(),
{
    if os.len() == 0 {
        s
    } else {
        apply_update(apply_updates(s, os.drop_last(), is_bid), os.last(), is_bid)
    }
}

/// Every level of a message can be applied in its turn.
pub open spec fn updates_defined(s: Seq<OrderView>, os: Seq<OrderView>, is_bid: bool) -> bool
    decreases os.len(),
{
    os.len() == 0 || (updates_defined(s, os.drop_last(), is_bid) && update_defined(
        apply_updates(s, os.drop_last(), is_bid),
        os.last(),
        is_bid,
    ))
}

/// `r` is `s` with the levels of `os` applied up to the first one that
/// cannot be applied, which exists.
pub open spec fn stuck_at_level(s: Seq<OrderView>, os: Seq<OrderView>, is_bid: bool, r: Seq<OrderView>) -> bool {
    exists|n: int|
        0 <= n < os.len() && updates_defined(s, #[trigger] os.take(n), is_bid) && !update_defined(
            apply_updates(s, os.take(n), is_bid),
            os[n],
            is_bid,
        ) && r == apply_updates(s, os.take(n), is_bid)
}

/// The kind of a level.
pub fn level_kind(order_type: &String) -> (k: LevelKind)
    ensures
        k == kind_of(order_type@),
{
    if *order_type == "new".to_owned() {
        LevelKind::New
    } else if *order_type == "change".to_owned() {
        LevelKind::Change
    } else if *order_type == "delete".to_owned() {
        LevelKind::Delete
    } else {
        LevelKind::Other
    }
}

/// Whether some level has a NaN price.
fn any_nan_price(orders: &Vec<OrderData>) -> (r: bool)
    ensures
        r == has_nan_price(views(orders@)),
{
    let mut i: usize = 0;
    while i < orders.len()
        invariant
            i <= orders.len(),
            forall|k: int| 0 <= k < i ==> !is_nan(#[trigger] orders@[k].price),
        decreases orders.len() - i,
    {
        if is_nan_bits(orders[i].price) {
            assert(views(orders@)[i as int].price == orders@[i as int].price);
            return true;
        }
        i = i + 1;
    }
    assert forall|k: int| 0 <= k < views(orders@).len() implies !is_nan(
        #[trigger] views(orders@)[k].price,
    ) by {
        assert(views(orders@)[k].price == orders@[k].price);
    }
    false
}

/// The index of the first level whose price equals `price`, if there is one.
fn position_of_price(orders: &Vec<OrderData>, price: u64) -> (r: Option<usize>)
    ensures
        r is None <==> !has_level_at(views(orders@), price),
        r matches Some(p) ==> is_first_level_at(views(orders@), price, p as int)
            && p as int == first_level_at(views(orders@), price),
{
    let ghost vs = views(orders@);
    let mut i: usize = 0;
    while i < orders.len()
        invariant
            i <= orders.len(),
            vs == views(orders@),
            forall|k: int| 0 <= k < i ==> !price_eq(#[trigger] vs[k].price, price),
        decreases orders.len() - i,
    {
        if prices_equal(orders[i].price, price) {
            proof {
                assert(is_first_level_at(vs, price, i as int));
                let q = first_level_at(vs, price);
                assert(is_first_level_at(vs, price, q));
                if q < i {
                    assert(!price_eq(vs[q].price, price));
                } else if q > i {
                    assert(!price_eq(vs[i as int].price, price));
                }
            }
            return Some(i);
        }
        i = i + 1;
    }
    None
}

/// Adds a `new` level to a side and sorts the side: bids by falling price,
/// asks by rising price, levels of equal price in their earlier order.
pub fn handle_new_order(limit_order_book_orders: &mut Vec<OrderData>, order: &OrderData, is_bid: bool)
    requires
        old(limit_order_book_orders).len() >= 1 ==> !has_nan_price(views(old(limit_order_book_orders)@))
            && !is_nan(order.price),
    ensures
        views(final(limit_order_book_orders)@) == apply_new(
            views(old(limit_order_book_orders)@),
            order@,
            is_bid,
        ),
        is_sorted_side(views(final(limit_order_book_orders)@), is_bid),
        forall|k: int|
            levels_with_key(#[trigger] views(final(limit_order_book_orders)@), k, is_bid)
                == levels_with_key(views(old(limit_order_book_orders)@).push(order@), k, is_bid),
{
    let ghost before = views(limit_order_book_orders@);
    let new_limit_order = order.duplicate();
    limit_order_book_orders.push(new_limit_order);
    assert(views(limit_order_book_orders@) =~= before.push(order@));
    sort_orders(limit_order_book_orders, is_bid);
    proof {
        lemma_sort_side_sorted(before.push(order@), is_bid);
        assert forall|k: int|
            levels_with_key(#[trigger] views(limit_order_book_orders@), k, is_bid)
                == levels_with_key(before.push(order@), k, is_bid) by {
            lemma_sort_side_stable(before.push(order@), is_bid, k);
        }
    }
}

/// Sets the size of every level whose price equals the level's price.
pub fn handle_change_order(limit_order_book_orders: &mut Vec<OrderData>, order: &OrderData)
    ensures
        views(final(limit_order_book_orders)@) == apply_change(
            views(old(limit_order_book_orders)@),
            order.price,
            order.size,
        ),
{
    let ghost before = limit_order_book_orders@;
    let mut i: usize = 0;
    while i < limit_order_book_orders.len()
        invariant
            i <= limit_order_book_orders.len(),
            limit_order_book_orders.len() == before.len(),
            forall|k: int|
                0 <= k < i ==> (#[trigger] limit_order_book_orders@[k])@ == change_level(
                    before[k]@,
                    order.price,
                    order.size,
                ),
            forall|k: int| i <= k < before.len() ==> #[trigger] limit_order_book_orders@[k] == before[k],
        decreases limit_order_book_orders.len() - i,
    {
        if prices_equal(limit_order_book_orders[i].price, order.price) {
            let updated = OrderData {
                order_type: limit_order_book_orders[i].order_type.clone(),
                price: limit_order_book_orders[i].price,
                size: order.size,
            };
            limit_order_book_orders.set(i, updated);
        }
        i = i + 1;
    }
    assert(views(limit_order_book_orders@) =~= apply_change(views(before), order.price, order.size));
}

/// Removes the first level whose price equals the level's price.
pub fn handle_delete_order(limit_order_book_orders: &mut Vec<OrderData>, order: &OrderData)
    requires
        has_level_at(views(old(limit_order_book_orders)@), order.price),
    ensures
        views(final(limit_order_book_orders)@) == apply_delete(
            views(old(limit_order_book_orders)@),
            order.price,
        ),
        views(final(limit_order_book_orders)@).len() + 1 == old(limit_order_book_orders).len(),
{
    let ghost before = limit_order_book_orders@;
    let index = position_of_price(limit_order_book_orders, order.price);
    match index {
        Some(index) => {
            limit_order_book_orders.remove(index);
            assert(views(limit_order_book_orders@) =~= views(before).remove(index as int));
        },
        None => {},
    }
}

/// Applies one level to a side where it can be applied; reports whether it could.
fn apply_level(orders: &mut Vec<OrderData>, order: &OrderData, is_bid: bool) -> (ok: bool)
    ensures
        ok == update_defined(views(old(orders)@), order@, is_bid),
        ok ==> views(final(orders)@) == apply_update(views(old(orders)@), order@, is_bid),
        !ok ==> final(orders)@ == old(orders)@,
{
    match level_kind(&order.order_type) {
        LevelKind::New => {
            if orders.len() >= 1 && (any_nan_price(orders) || is_nan_bits(order.price)) {
                return false;
            }
            handle_new_order(orders, order, is_bid);
            true
        },
        LevelKind::Change => {
            handle_change_order(orders, order);
            true
        },
        LevelKind::Delete => {
            if position_of_price(orders, order.price).is_none() {
                return false;
            }
            handle_delete_order(orders, order);
            true
        },
        LevelKind::Other => true,
    }
}

/// Applies the levels of a message to a side in their order, up to the first
/// that cannot be applied; reports whether all could.
pub fn try_update_orders(
    limit_order_book_orders: &mut Vec<OrderData>,
    limit_orders: &Vec<OrderData>,
    is_bid: bool,
) -> (ok: bool)
    ensures
        ok == updates_defined(views(old(limit_order_book_orders)@), views(limit_orders@), is_bid),
        ok ==> views(final(limit_order_book_orders)@) == apply_updates(
            views(old(limit_order_book_orders)@),
            views(limit_orders@),
            is_bid,
        ),
        !ok ==> stuck_at_level(
            views(old(limit_order_book_orders)@),
            views(limit_orders@),
            is_bid,
            views(final(limit_order_book_orders)@),
        ),
{
    let ghost start = views(limit_order_book_orders@);
    let ghost os = views(limit_orders@);
    let mut i: usize = 0;
    assert(os.take(0) =~= Seq::<OrderView>::empty());
    while i < limit_orders.len()
        invariant
            i <= limit_orders.len(),
            os == views(limit_orders@),
            start == views(old(limit_order_book_orders)@),
            updates_defined(start, os.take(i as int), is_bid),
            views(limit_order_book_orders@) == apply_updates(start, os.take(i as int), is_bid),
        decreases limit_orders.len() - i,
    {
        let ghost prefix = os.take(i as int + 1);
        assert(prefix.drop_last() =~= os.take(i as int));
        assert(prefix.last() == limit_orders@[i as int]@);
        let ok = apply_level(limit_order_book_orders, &limit_orders[i], is_bid);
        if !ok {
            proof {
                assert(!updates_defined(start, prefix, is_bid));
                lemma_undefined_extends(start, os, is_bid, i as int + 1);
                assert(os.take(os.len() as int) =~= os);
                assert(os[i as int] == limit_orders@[i as int]@);
            }
            return false;
        }
        i = i + 1;
    }
    assert(os.take(i as int) =~= os);
    true
}

/// Once a prefix of a message cannot be applied, no longer prefix can.
proof fn lemma_undefined_extends(s: Seq<OrderView>, os: Seq<OrderView>, is_bid: bool, n: int)
    requires
        0 <= n <= os.len(),
        !updates_defined(s, os.take(n), is_bid),
    ensures
        !updates_defined(s, os.take(os.len() as int), is_bid),
    decreases os.len() - n,
{
    if n < os.len() {
        assert(os.take(n + 1).drop_last() =~= os.take(n));
        lemma_undefined_extends(s, os, is_bid, n + 1);
    }
}

/// Applies the levels of a message to a side in their order.
pub fn update_orders(limit_order_book_orders: &mut Vec<OrderData>, limit_orders: &Vec<OrderData>, is_bid: bool)
    requires
        updates_defined(views(old(limit_order_book_orders)@), views(limit_orders@), is_bid),
    ensures
        views(final(limit_order_book_orders)@) == apply_updates(
            views(old(limit_order_book_orders)@),
            views(limit_orders@),
            is_bid,
        ),
{
    try_update_orders(limit_order_book_orders, limit_orders, is_bid);
}

/// Applies a change message to the book: its bid levels to the bids, its ask
/// levels to the asks.
pub fn update_order_book(limit_order_book: &mut LimitOrderBook, limit_order: &LimitOrder)
    requires
        updates_defined(old(limit_order_book)@.bids, limit_order@.bids, true),
        updates_defined(old(limit_order_book)@.asks, limit_order@.asks, false),
    ensures
        final(limit_order_book)@.bids == apply_updates(old(limit_order_book)@.bids, limit_order@.bids, true),
        final(limit_order_book)@.asks == apply_updates(old(limit_order_book)@.asks, limit_order@.asks, false),
{
    update_orders(&mut limit_order_book.bids, &limit_order.bids, true);
    update_orders(&mut limit_order_book.asks, &limit_order.asks, false);
}

/// Applies a change message to the book where every level can be applied;
/// reports whether they all could. Where a level cannot be applied the book
/// is left as it was when that level came up, with no later level applied.
pub fn try_update_order_book(limit_order_book: &mut LimitOrderBook, limit_order: &LimitOrder) -> (ok: bool)
    ensures
        ok == (updates_defined(old(limit_order_book)@.bids, limit_order@.bids, true)
            && updates_defined(old(limit_order_book)@.asks, limit_order@.asks, false)),
        ok ==> final(limit_order_book)@.bids == apply_updates(old(limit_order_book)@.bids, limit_order@.bids, true),
        ok ==> final(limit_order_book)@.asks == apply_updates(old(limit_order_book)@.asks, limit_order@.asks, false),
        !updates_defined(old(limit_order_book)@.bids, limit_order@.bids, true) ==> stuck_at_level(
            old(limit_order_book)@.bids,
            limit_order@.bids,
            true,
            final(limit_order_book)@.bids,
        ) && final(limit_order_book)@.asks == old(limit_order_book)@.asks,
        updates_defined(old(limit_order_book)@.bids, limit_order@.bids, true)
            ==> final(limit_order_book)@.bids == apply_updates(old(limit_order_book)@.bids, limit_order@.bids, true),
        updates_defined(old(limit_order_book)@.bids, limit_order@.bids, true) && !updates_defined(
            old(limit_order_book)@.asks,
            limit_order@.asks,
            false,
        ) ==> stuck_at_level(
            old(limit_order_book)@.asks,
            limit_order@.asks,
            false,
            final(limit_order_book)@.asks,
        ),
{
    if !try_update_orders(&mut limit_order_book.bids, &limit_order.bids, true) {
        return false;
    }
    try_update_orders(&mut limit_order_book.asks, &limit_order.asks, false)
}

} // verus!
