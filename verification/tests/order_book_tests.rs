use order_book::feed::OrderBookFeed;
use order_book::json::{JsonNumber, JsonValue};
use order_book::limit_order_fns::{
    check_limit_order_message, initialise_limit_order_struct, order_data_of, populate_limit_order,
    push_to_limit_order,
};
use order_book::models::{LimitOrder, LimitOrderBook, OrderData};
use order_book::order_book_fns::{
    check_order_book_snapshot, extract_data, get_populated_limit_order_book, push_data_to_order_book,
};
use order_book::price::{is_nan_bits, prices_equal, rank_of};
use order_book::update_order_book_fns::{
    handle_change_order, handle_delete_order, handle_new_order, level_kind, try_update_order_book,
    try_update_orders, update_order_book, update_orders, LevelKind,
};

fn num(f: f64) -> JsonValue {
    let unsigned = if f >= 0.0 && f.fract() == 0.0 { Some(f as u64) } else { None };
    JsonValue::Number(JsonNumber { unsigned, float_bits: f.to_bits() })
}

fn whole(n: u64) -> JsonValue {
    JsonValue::Number(JsonNumber { unsigned: Some(n), float_bits: (n as f64).to_bits() })
}

fn text(s: &str) -> JsonValue {
    JsonValue::String(s.to_string())
}

fn object(members: Vec<(&str, JsonValue)>) -> JsonValue {
    JsonValue::Object(members.into_iter().map(|(k, v)| (k.to_string(), v)).collect())
}

fn level_json(kind: &str, price: f64, size: f64) -> JsonValue {
    JsonValue::Array(vec![text(kind), num(price), num(size)])
}

fn level(kind: &str, price: f64, size: f64) -> OrderData {
    OrderData { order_type: kind.to_string(), price: price.to_bits(), size: size.to_bits() }
}

fn prices(levels: &Vec<OrderData>) -> Vec<f64> {
    levels.iter().map(|o| f64::from_bits(o.price)).collect()
}

fn sizes(levels: &Vec<OrderData>) -> Vec<f64> {
    levels.iter().map(|o| f64::from_bits(o.size)).collect()
}

fn change_message(bids: Vec<JsonValue>, asks: Vec<JsonValue>) -> JsonValue {
    object(vec![
        ("jsonrpc", text("2.0")),
        ("method", text("subscription")),
        (
            "params",
            object(vec![
                ("channel", text("book.BTC-PERPETUAL.raw")),
                (
                    "data",
                    object(vec![
                        ("type", text("change")),
                        ("timestamp", whole(1_600_000_000_000)),
                        ("prev_change_id", whole(41)),
                        ("change_id", whole(42)),
                        ("asks", JsonValue::Array(asks)),
                        ("bids", JsonValue::Array(bids)),
                    ]),
                ),
            ]),
        ),
    ])
}

#[test]
fn populate_reads_header_and_levels_in_order() {
    let mut msg = change_message(
        vec![level_json("new", 100.5, 10.0), level_json("change", 99.0, 20.0)],
        vec![level_json("delete", 101.0, 0.0)],
    );
    assert!(check_limit_order_message(&msg));
    let order = populate_limit_order(&mut msg);
    assert_eq!(order.order_type, "change");
    assert_eq!(order.timestamp, 1_600_000_000_000);
    assert_eq!(order.prev_change_id, 41);
    assert_eq!(order.change_id, 42);
    assert_eq!(prices(&order.bids), vec![100.5, 99.0]);
    assert_eq!(sizes(&order.bids), vec![10.0, 20.0]);
    assert_eq!(order.bids[0].order_type, "new");
    assert_eq!(order.bids[1].order_type, "change");
    assert_eq!(prices(&order.asks), vec![101.0]);
    assert_eq!(order.asks[0].order_type, "delete");
}

#[test]
fn integer_prices_read_as_floats() {
    let mut msg = change_message(vec![JsonValue::Array(vec![text("new"), whole(27000), whole(5)])], vec![]);
    let order = populate_limit_order(&mut msg);
    assert_eq!(prices(&order.bids), vec![27000.0]);
    assert_eq!(sizes(&order.bids), vec![5.0]);
}

#[test]
fn malformed_messages_are_refused() {
    assert!(!check_limit_order_message(&object(vec![])));
    assert!(!check_limit_order_message(&object(vec![("params", object(vec![]))])));
    assert!(!check_limit_order_message(&JsonValue::Null));
    // a level with a string price
    let msg = change_message(vec![JsonValue::Array(vec![text("new"), text("1.0"), num(1.0)])], vec![]);
    assert!(!check_limit_order_message(&msg));
    // a level with two elements only
    let msg = change_message(vec![], vec![JsonValue::Array(vec![text("new"), num(1.0)])]);
    assert!(!check_limit_order_message(&msg));
    // a negative change id has no unsigned reading
    let msg = object(vec![(
        "params",
        object(vec![(
            "data",
            object(vec![
                ("type", text("change")),
                ("timestamp", whole(1)),
                ("prev_change_id", num(-1.0)),
                ("change_id", whole(2)),
                ("asks", JsonValue::Array(vec![])),
                ("bids", JsonValue::Array(vec![])),
            ]),
        )]),
    )]);
    assert!(!check_limit_order_message(&msg));
}

#[test]
fn initialise_and_push_build_a_limit_order() {
    let data = object(vec![
        ("type", text("snapshot")),
        ("timestamp", whole(7)),
        ("prev_change_id", whole(8)),
        ("change_id", whole(9)),
    ]);
    let mut order = initialise_limit_order_struct(&data);
    assert_eq!(order.order_type, "snapshot");
    assert_eq!((order.timestamp, order.prev_change_id, order.change_id), (7, 8, 9));
    assert!(order.bids.is_empty() && order.asks.is_empty());
    push_to_limit_order(&mut order, &vec![level_json("new", 2.0, 3.0)], true);
    push_to_limit_order(&mut order, &vec![level_json("new", 4.0, 5.0), level_json("new", 6.0, 7.0)], false);
    assert_eq!(prices(&order.bids), vec![2.0]);
    assert_eq!(prices(&order.asks), vec![4.0, 6.0]);
}

#[test]
fn order_data_of_reads_a_level() {
    let o = order_data_of(&level_json("change", 12.25, 0.5));
    assert_eq!(o.order_type, "change");
    assert_eq!(f64::from_bits(o.price), 12.25);
    assert_eq!(f64::from_bits(o.size), 0.5);
}

fn snapshot(bids: Vec<JsonValue>, asks: Vec<JsonValue>) -> JsonValue {
    object(vec![(
        "params",
        object(vec![("data", object(vec![("bids", JsonValue::Array(bids)), ("asks", JsonValue::Array(asks))]))]),
    )])
}

#[test]
fn snapshot_fills_the_book_in_order_sent() {
    let snap = snapshot(
        vec![level_json("new", 10.0, 1.0), level_json("new", 9.0, 2.0)],
        vec![level_json("new", 12.0, 3.0), level_json("new", 11.0, 4.0)],
    );
    assert!(check_order_book_snapshot(&snap));
    let book = get_populated_limit_order_book(&snap);
    assert_eq!(prices(&book.bids), vec![10.0, 9.0]);
    // levels are kept as sent, not sorted
    assert_eq!(prices(&book.asks), vec![12.0, 11.0]);
    assert_eq!(sizes(&book.asks), vec![3.0, 4.0]);
}

#[test]
fn snapshot_checks_and_extract() {
    assert!(!check_order_book_snapshot(&object(vec![])));
    let no_asks = object(vec![("params", object(vec![("data", object(vec![("bids", JsonValue::Array(vec![]))]))]))]);
    assert!(!check_order_book_snapshot(&no_asks));
    let snap = snapshot(vec![], vec![level_json("new", 1.0, 1.0)]);
    match extract_data(&snap, "asks") {
        JsonValue::Array(items) => assert_eq!(items.len(), 1),
        _ => panic!("asks is an array"),
    }
    let mut book = LimitOrderBook { bids: vec![], asks: vec![] };
    push_data_to_order_book(&mut book, extract_data(&snap, "asks"), false);
    assert_eq!(prices(&book.asks), vec![1.0]);
    assert!(book.bids.is_empty());
}

#[test]
fn new_bid_sorts_bids_by_falling_price() {
    let mut bids = vec![level("new", 10.0, 1.0), level("new", 8.0, 1.0)];
    handle_new_order(&mut bids, &level("new", 9.0, 2.0), true);
    assert_eq!(prices(&bids), vec![10.0, 9.0, 8.0]);
    handle_new_order(&mut bids, &level("new", 11.0, 3.0), true);
    assert_eq!(prices(&bids), vec![11.0, 10.0, 9.0, 8.0]);
}

#[test]
fn new_ask_sorts_asks_by_rising_price() {
    let mut asks = vec![level("new", 10.0, 1.0), level("new", 12.0, 1.0)];
    handle_new_order(&mut asks, &level("new", 11.0, 2.0), false);
    assert_eq!(prices(&asks), vec![10.0, 11.0, 12.0]);
    handle_new_order(&mut asks, &level("new", 9.5, 2.0), false);
    assert_eq!(prices(&asks), vec![9.5, 10.0, 11.0, 12.0]);
}

#[test]
fn new_order_sorts_an_unsorted_side_stably() {
    let mut asks = vec![level("new", 12.0, 1.0), level("new", 10.0, 2.0), level("new", 12.0, 3.0)];
    handle_new_order(&mut asks, &level("new", 10.0, 4.0), false);
    assert_eq!(prices(&asks), vec![10.0, 10.0, 12.0, 12.0]);
    // levels of equal price keep their order
    assert_eq!(sizes(&asks), vec![2.0, 4.0, 1.0, 3.0]);
}

#[test]
fn new_order_on_empty_side() {
    let mut bids = vec![];
    handle_new_order(&mut bids, &level("new", 5.0, 1.0), true);
    assert_eq!(prices(&bids), vec![5.0]);
    assert_eq!(bids[0].order_type, "new");
}

#[test]
fn change_sets_size_of_every_level_at_price() {
    let mut asks = vec![level("new", 10.0, 1.0), level("new", 11.0, 2.0), level("new", 10.0, 3.0)];
    handle_change_order(&mut asks, &level("change", 10.0, 7.0));
    assert_eq!(sizes(&asks), vec![7.0, 2.0, 7.0]);
    assert_eq!(prices(&asks), vec![10.0, 11.0, 10.0]);
    handle_change_order(&mut asks, &level("change", 50.0, 9.0));
    assert_eq!(sizes(&asks), vec![7.0, 2.0, 7.0]);
}

#[test]
fn change_treats_zeros_as_equal() {
    let mut bids = vec![level("new", 0.0, 1.0)];
    handle_change_order(&mut bids, &level("change", -0.0, 4.0));
    assert_eq!(sizes(&bids), vec![4.0]);
}

#[test]
fn delete_removes_first_level_at_price() {
    let mut bids = vec![level("new", 10.0, 1.0), level("new", 9.0, 2.0), level("new", 9.0, 3.0)];
    handle_delete_order(&mut bids, &level("delete", 9.0, 0.0));
    assert_eq!(prices(&bids), vec![10.0, 9.0]);
    assert_eq!(sizes(&bids), vec![1.0, 3.0]);
}

#[test]
fn update_orders_applies_levels_in_turn() {
    let mut asks = vec![level("new", 10.0, 1.0)];
    let levels = vec![
        level("new", 9.0, 2.0),
        level("change", 10.0, 5.0),
        level("delete", 9.0, 0.0),
        level("snapshot", 1.0, 1.0),
        level("new", 11.0, 6.0),
    ];
    update_orders(&mut asks, &levels, false);
    assert_eq!(prices(&asks), vec![10.0, 11.0]);
    assert_eq!(sizes(&asks), vec![5.0, 6.0]);
}

#[test]
fn update_order_book_keeps_sides_apart() {
    let mut book = LimitOrderBook {
        bids: vec![level("new", 10.0, 1.0)],
        asks: vec![level("new", 11.0, 1.0)],
    };
    let order = LimitOrder {
        order_type: "change".to_string(),
        timestamp: 1,
        prev_change_id: 1,
        change_id: 2,
        bids: vec![level("new", 10.5, 2.0)],
        asks: vec![level("change", 11.0, 3.0)],
    };
    update_order_book(&mut book, &order);
    assert_eq!(prices(&book.bids), vec![10.5, 10.0]);
    assert_eq!(prices(&book.asks), vec![11.0]);
    assert_eq!(sizes(&book.asks), vec![3.0]);
}

#[test]
fn delete_of_missing_price_is_refused() {
    let mut book = LimitOrderBook { bids: vec![level("new", 10.0, 1.0)], asks: vec![level("new", 11.0, 1.0)] };
    let order = LimitOrder {
        order_type: "change".to_string(),
        timestamp: 1,
        prev_change_id: 1,
        change_id: 2,
        bids: vec![level("change", 10.0, 4.0), level("delete", 12.0, 0.0), level("new", 1.0, 1.0)],
        asks: vec![level("new", 12.0, 1.0)],
    };
    assert!(!try_update_order_book(&mut book, &order));
    // the book is left as it was when the failing level came up
    assert_eq!(sizes(&book.bids), vec![4.0]);
    assert_eq!(prices(&book.asks), vec![11.0]);
}

#[test]
fn new_nan_price_is_refused_on_a_nonempty_side() {
    let mut bids = vec![level("new", 1.0, 1.0)];
    assert!(!try_update_orders(&mut bids, &vec![level("new", f64::NAN, 1.0)], true));
    assert_eq!(prices(&bids), vec![1.0]);
    let mut empty = vec![];
    assert!(try_update_orders(&mut empty, &vec![level("new", f64::NAN, 1.0)], true));
    assert_eq!(empty.len(), 1);
}

#[test]
fn level_kinds() {
    assert!(matches!(level_kind(&"new".to_string()), LevelKind::New));
    assert!(matches!(level_kind(&"change".to_string()), LevelKind::Change));
    assert!(matches!(level_kind(&"delete".to_string()), LevelKind::Delete));
    assert!(matches!(level_kind(&"snapshot".to_string()), LevelKind::Other));
}

#[test]
fn float_bits_model() {
    assert!(is_nan_bits(f64::NAN.to_bits()));
    assert!(!is_nan_bits(f64::INFINITY.to_bits()));
    assert!(!is_nan_bits(f64::NEG_INFINITY.to_bits()));
    assert!(prices_equal(0.0f64.to_bits(), (-0.0f64).to_bits()));
    assert!(!prices_equal(f64::NAN.to_bits(), f64::NAN.to_bits()));
    assert!(prices_equal(2.5f64.to_bits(), 2.5f64.to_bits()));
    assert_eq!(rank_of(0.0f64.to_bits()), 0);
    assert_eq!(rank_of((-0.0f64).to_bits()), 0);
    assert_eq!(rank_of(1.0f64.to_bits()), 0x3ff0_0000_0000_0000);
    assert_eq!(rank_of((-1.0f64).to_bits()), -0x3ff0_0000_0000_0000);
    let values = [-3.0f64, -1.5, -0.0, 0.5, 2.0, 1e300, f64::INFINITY];
    for w in values.windows(2) {
        assert!(rank_of(w[0].to_bits()) <= rank_of(w[1].to_bits()));
    }
}

#[test]
fn negative_prices_sort_numerically() {
    let mut asks = vec![];
    for p in [3.0, -2.0, 0.5, -7.0] {
        handle_new_order(&mut asks, &level("new", p, 1.0), false);
    }
    assert_eq!(prices(&asks), vec![-7.0, -2.0, 0.5, 3.0]);
}

#[test]
fn json_accessors() {
    let v = object(vec![("a", whole(1)), ("b", JsonValue::Array(vec![text("x")])), ("a", whole(2))]);
    assert!(matches!(v.get("a"), Some(JsonValue::Number(n)) if n.unsigned == Some(1)));
    assert!(v.get("c").is_none());
    assert!(v.get_index(0).is_none());
    let b = v.get("b").unwrap();
    assert_eq!(b.get_index(0).unwrap().as_str().unwrap(), "x");
    assert!(b.get_index(1).is_none());
    assert_eq!(b.as_array().unwrap().len(), 1);
    assert_eq!(whole(5).as_u64(), Some(5));
    assert_eq!(num(1.5).as_u64(), None);
    assert_eq!(num(1.5).as_float_bits(), Some(1.5f64.to_bits()));
    assert!(text("x").as_float_bits().is_none());
    assert!(JsonValue::Bool(true).as_str().is_none());
}

fn order_with(prev: u64, change: u64) -> LimitOrder {
    LimitOrder { order_type: "change".to_string(), timestamp: 0, prev_change_id: prev, change_id: change, bids: vec![], asks: vec![] }
}

#[test]
fn feed_reports_lost_messages() {
    let mut feed = OrderBookFeed::new(LimitOrderBook { bids: vec![], asks: vec![] });
    assert_eq!(feed.packet_lost(&order_with(5, 6)), None);
    assert!(feed.receive(order_with(0, 1)));
    // one message applied: no check yet
    assert_eq!(feed.packet_lost(&order_with(5, 6)), None);
    assert!(feed.receive(order_with(1, 2)));
    assert_eq!(feed.packet_lost(&order_with(2, 3)), None);
    assert_eq!(feed.packet_lost(&order_with(5, 6)), Some(2));
    assert_eq!(feed.limit_orders.len(), 2);
}

#[test]
fn feed_best_bid_ask() {
    let mut feed = OrderBookFeed::new(LimitOrderBook { bids: vec![level("new", 9.0, 1.0)], asks: vec![] });
    assert!(feed.best_bid_ask().is_none());
    let mut order = order_with(0, 1);
    order.asks = vec![level("new", 10.0, 2.0), level("new", 9.5, 3.0)];
    order.bids = vec![level("new", 9.25, 4.0)];
    assert!(feed.receive(order));
    let (bid, ask) = feed.best_bid_ask().unwrap();
    assert_eq!(f64::from_bits(bid.price), 9.25);
    assert_eq!(f64::from_bits(ask.price), 9.5);
    assert_eq!(f64::from_bits(ask.size), 3.0);
}

#[test]
fn feed_refuses_a_delete_without_level() {
    let mut feed = OrderBookFeed::new(LimitOrderBook { bids: vec![], asks: vec![] });
    let mut order = order_with(0, 1);
    order.bids = vec![level("delete", 1.0, 0.0)];
    assert!(!feed.receive(order));
    assert!(feed.limit_orders.is_empty());
}

#[test]
fn law_delete_undoes_new_on_sorted_side() {
    let before = vec![level("new", 12.0, 1.0), level("new", 10.0, 2.0), level("new", 8.0, 3.0)];
    let mut bids: Vec<OrderData> = before.iter().map(|o| o.duplicate()).collect();
    handle_new_order(&mut bids, &level("new", 11.0, 5.0), true);
    handle_delete_order(&mut bids, &level("delete", 11.0, 0.0));
    assert_eq!(prices(&bids), prices(&before));
    assert_eq!(sizes(&bids), sizes(&before));
}

#[test]
fn law_change_is_idempotent() {
    let mut once = vec![level("new", 1.0, 1.0), level("new", 2.0, 2.0)];
    handle_change_order(&mut once, &level("change", 2.0, 9.0));
    let mut twice: Vec<OrderData> = once.iter().map(|o| o.duplicate()).collect();
    handle_change_order(&mut twice, &level("change", 2.0, 9.0));
    assert_eq!(sizes(&once), sizes(&twice));
    assert_eq!(prices(&once), prices(&twice));
}

#[test]
fn law_updates_compose() {
    let a = vec![level("new", 5.0, 1.0), level("new", 3.0, 1.0)];
    let b = vec![level("change", 3.0, 4.0), level("delete", 5.0, 0.0)];
    let mut in_turn = vec![];
    update_orders(&mut in_turn, &a, false);
    update_orders(&mut in_turn, &b, false);
    let mut joined = vec![];
    let all: Vec<OrderData> = a.iter().chain(b.iter()).map(|o| o.duplicate()).collect();
    update_orders(&mut joined, &all, false);
    assert_eq!(prices(&in_turn), prices(&joined));
    assert_eq!(sizes(&in_turn), sizes(&joined));
    assert_eq!(prices(&joined), vec![3.0]);
    assert_eq!(sizes(&joined), vec![4.0]);
}

#[test]
fn law_updates_keep_a_sorted_side_sorted() {
    let mut asks = vec![level("new", 1.0, 1.0), level("new", 2.0, 1.0), level("new", 3.0, 1.0)];
    let levels = vec![level("delete", 2.0, 0.0), level("change", 3.0, 5.0), level("new", 2.5, 1.0), level("new", 0.5, 1.0)];
    update_orders(&mut asks, &levels, false);
    let ps = prices(&asks);
    assert!(ps.windows(2).all(|w| w[0] <= w[1]));
    assert_eq!(ps, vec![0.5, 1.0, 2.5, 3.0]);
}
