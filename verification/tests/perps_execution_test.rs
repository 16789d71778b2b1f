use hl_backtest::ingest::OrderLevel;
use hl_backtest::orderbook::OrderBook;
use hl_backtest::orders::types::{Action, Order, OrderStatus, Side, Tif};
use hl_backtest::perps::execution::PerpsExecution;

fn px(x: f64) -> u64 {
    (x * 1e8) as u64
}

fn sz(x: f64) -> u64 {
    (x * 1e8).round() as u64
}

fn to_f64(x: u64) -> f64 {
    x as f64 / 1e8
}

// A book with the given bids and asks, each a price and a size.
fn create_test_book(bids: Vec<(f64, f64)>, asks: Vec<(f64, f64)>) -> OrderBook {
    let mut book = OrderBook::new();
    let bid_levels: Vec<OrderLevel> = bids
        .into_iter()
        .enumerate()
        .map(|(i, (price, size))| OrderLevel { px: px(price), sz: sz(size), n: i as u64 })
        .collect();
    let ask_levels: Vec<OrderLevel> = asks
        .into_iter()
        .enumerate()
        .map(|(i, (price, size))| OrderLevel { px: px(price), sz: sz(size), n: i as u64 })
        .collect();
    book.apply_snapshot(&[bid_levels, ask_levels]);
    book
}

fn market(side: Side, size: f64, filled: f64, status: OrderStatus) -> Order {
    Order {
        id: 1,
        action: Action::Market { side, sz: sz(size) },
        created_at: 1000,
        filled_sz: sz(filled),
        status,
    }
}

fn limit(side: Side, price: f64, size: f64, tif: Tif, post_only: bool) -> Order {
    Order {
        id: 1,
        action: Action::Limit {
            side,
            px: px(price),
            sz: sz(size),
            tif,
            post_only,
            reduce_only: false,
        },
        created_at: 1000,
        filled_sz: 0,
        status: OrderStatus::Pending,
    }
}

#[test]
fn test_execute_market_buy_full_fill() {
    let book = create_test_book(vec![(25000.0, 1.0)], vec![(25001.0, 2.0), (25002.0, 1.0)]);
    let mut order = market(Side::Buy, 1.5, 0.0, OrderStatus::Pending);

    let result = PerpsExecution::execute_market(&mut order, &book);
    assert!(result.is_some());
    let fill = result.unwrap();
    assert_eq!(to_f64(fill.filled_sz), 1.5);
    assert_eq!(to_f64(fill.fill_price), 25001.0);
    assert!(!fill.is_maker);
    assert_eq!(to_f64(order.filled_sz), 1.5);
    assert_eq!(order.status, OrderStatus::Filled);
}

#[test]
fn test_execute_market_buy_partial_fill() {
    let book = create_test_book(vec![(25000.0, 1.0)], vec![(25001.0, 1.0)]);
    let mut order = market(Side::Buy, 2.0, 0.0, OrderStatus::Pending);

    let result = PerpsExecution::execute_market(&mut order, &book);
    assert!(result.is_some());
    let fill = result.unwrap();
    assert_eq!(to_f64(fill.filled_sz), 1.0);
    assert_eq!(to_f64(fill.fill_price), 25001.0);
    assert_eq!(to_f64(order.filled_sz), 1.0);
    assert_eq!(order.status, OrderStatus::PartiallyFilled);
}

#[test]
fn test_execute_market_buy_no_liquidity() {
    let book = OrderBook::new();
    let mut order = market(Side::Buy, 1.0, 0.0, OrderStatus::Pending);

    let result = PerpsExecution::execute_market(&mut order, &book);
    assert!(result.is_none());
    assert_eq!(to_f64(order.filled_sz), 0.0);
    assert_eq!(order.status, OrderStatus::Pending);
}

#[test]
fn test_execute_market_buy_already_filled() {
    let book = create_test_book(vec![(25000.0, 1.0)], vec![(25001.0, 1.0)]);
    let mut order = market(Side::Buy, 1.0, 1.0, OrderStatus::Filled);

    let result = PerpsExecution::execute_market(&mut order, &book);
    assert!(result.is_none());
}

#[test]
fn test_execute_market_sell_full_fill() {
    let book = create_test_book(vec![(25000.0, 2.0), (24999.0, 1.0)], vec![(25001.0, 1.0)]);
    let mut order = market(Side::Sell, 1.5, 0.0, OrderStatus::Pending);

    let result = PerpsExecution::execute_market(&mut order, &book);
    assert!(result.is_some());
    let fill = result.unwrap();
    assert_eq!(to_f64(fill.filled_sz), 1.5);
    assert_eq!(to_f64(fill.fill_price), 25000.0);
    assert!(!fill.is_maker);
    assert_eq!(order.status, OrderStatus::Filled);
}

#[test]
fn test_execute_market_multiple_levels() {
    let book = create_test_book(
        vec![(25000.0, 1.0)],
        vec![(25001.0, 0.5), (25002.0, 0.5), (25003.0, 1.0)],
    );
    let mut order = market(Side::Buy, 1.5, 0.0, OrderStatus::Pending);

    let result = PerpsExecution::execute_market(&mut order, &book);
    assert!(result.is_some());
    let fill = result.unwrap();
    assert_eq!(to_f64(fill.filled_sz), 1.5);
    // (0.5 * 25001 + 0.5 * 25002 + 0.5 * 25003) / 1.5
    assert!(to_f64(fill.fill_price) >= 25001.0 && to_f64(fill.fill_price) <= 25003.0);
    assert_eq!(fill.fill_price, px(25002.0));
}

#[test]
fn test_check_limit_fill_buy_crosses_ask() {
    let book = create_test_book(vec![(25000.0, 1.0)], vec![(25001.0, 1.0)]);
    let mut order = limit(Side::Buy, 25001.0, 0.5, Tif::Gtc, false);

    let result = PerpsExecution::check_limit_fill(&mut order, &book);
    assert!(result.is_some());
    let fill = result.unwrap();
    assert_eq!(to_f64(fill.filled_sz), 0.5);
    assert_eq!(to_f64(fill.fill_price), 25001.0);
    assert!(fill.is_maker);
    assert_eq!(to_f64(order.filled_sz), 0.5);
    assert_eq!(order.status, OrderStatus::Filled);
}

#[test]
fn test_check_limit_fill_buy_below_ask_no_fill() {
    let book = create_test_book(vec![(25000.0, 1.0)], vec![(25001.0, 1.0)]);
    let mut order = limit(Side::Buy, 25000.5, 0.5, Tif::Gtc, false);

    let result = PerpsExecution::check_limit_fill(&mut order, &book);
    assert!(result.is_none());
}

#[test]
fn test_check_limit_fill_sell_crosses_bid() {
    let book = create_test_book(vec![(25000.0, 1.0)], vec![(25001.0, 1.0)]);
    let mut order = limit(Side::Sell, 25000.0, 0.5, Tif::Gtc, false);

    let result = PerpsExecution::check_limit_fill(&mut order, &book);
    assert!(result.is_some());
    let fill = result.unwrap();
    assert_eq!(to_f64(fill.filled_sz), 0.5);
    assert_eq!(to_f64(fill.fill_price), 25000.0);
    assert!(fill.is_maker);
}

#[test]
fn test_check_limit_fill_partial_fill() {
    let book = create_test_book(vec![(25000.0, 1.0)], vec![(25001.0, 0.3)]);
    let mut order = limit(Side::Buy, 25001.0, 0.5, Tif::Gtc, false);

    let result = PerpsExecution::check_limit_fill(&mut order, &book);
    assert!(result.is_some());
    let fill = result.unwrap();
    assert_eq!(to_f64(fill.filled_sz), 0.3);
    assert_eq!(to_f64(order.filled_sz), 0.3);
    assert_eq!(order.status, OrderStatus::PartiallyFilled);

    // What is left open is the order's size less what is filled.
    if let Action::Limit { sz: whole, .. } = order.action {
        let left = whole - order.filled_sz;
        assert!((to_f64(left) - 0.2).abs() < 1e-6);
        assert_eq!(left, sz(0.2));
        assert_eq!(whole, sz(0.5));
    } else {
        panic!("Expected Limit action");
    }
}

#[test]
fn test_check_limit_fill_multiple_partial_fills() {
    let book = create_test_book(vec![(25000.0, 1.0)], vec![(25001.0, 0.2)]);
    let mut order = limit(Side::Buy, 25001.0, 0.5, Tif::Gtc, false);

    let result1 = PerpsExecution::check_limit_fill(&mut order, &book);
    assert!(result1.is_some());
    assert_eq!(to_f64(order.filled_sz), 0.2);
    assert_eq!(order.status, OrderStatus::PartiallyFilled);

    let book2 = create_test_book(vec![(25000.0, 1.0)], vec![(25001.0, 0.3)]);

    // 0.2 of 0.5 is filled: 0.3 is open, and the book holds just that.
    let result2 = PerpsExecution::check_limit_fill(&mut order, &book2);
    assert!(result2.is_some());
    let fill2 = result2.unwrap();
    assert_eq!(fill2.filled_sz, sz(0.3));
    assert_eq!(fill2.order_status, OrderStatus::Filled);
    assert_eq!(order.filled_sz, sz(0.5));
    assert_eq!(order.status, OrderStatus::Filled);

    // The order has come to its end: nothing fills it again.
    let before = order;
    assert!(PerpsExecution::check_limit_fill(&mut order, &book2).is_none());
    assert_eq!(order, before);
}

#[test]
fn test_check_limit_fill_already_filled() {
    let book = create_test_book(vec![(25000.0, 1.0)], vec![(25001.0, 1.0)]);
    let mut order = limit(Side::Buy, 25001.0, 0.5, Tif::Gtc, false);
    order.filled_sz = sz(0.5);
    order.status = OrderStatus::Filled;

    let result = PerpsExecution::check_limit_fill(&mut order, &book);
    assert!(result.is_none());
}

#[test]
fn test_check_limit_fill_insufficient_liquidity() {
    let book = create_test_book(vec![(25000.0, 1.0)], vec![(25001.0, 0.0)]);
    let mut order = limit(Side::Buy, 25001.0, 0.5, Tif::Gtc, false);

    let result = PerpsExecution::check_limit_fill(&mut order, &book);
    assert!(result.is_none());
}

#[test]
fn test_check_limit_fill_empty_book() {
    let book = OrderBook::new();
    let mut order = limit(Side::Buy, 25001.0, 0.5, Tif::Gtc, false);

    let result = PerpsExecution::check_limit_fill(&mut order, &book);
    assert!(result.is_none());
}

#[test]
fn test_can_place_limit_post_only_not_crossing() {
    let book = create_test_book(vec![(25000.0, 1.0)], vec![(25001.0, 1.0)]);
    let order = limit(Side::Buy, 25000.5, 0.5, Tif::Alo, true);

    assert!(PerpsExecution::can_place_limit(&order, &book, true));
}

#[test]
fn test_can_place_limit_post_only_crossing() {
    let book = create_test_book(vec![(25000.0, 1.0)], vec![(25001.0, 1.0)]);
    let order = limit(Side::Buy, 25001.0, 0.5, Tif::Alo, true);

    assert!(!PerpsExecution::can_place_limit(&order, &book, true));
}

#[test]
fn an_order_that_adds_liquidity_only_by_its_time_in_force_cannot_be_placed_across() {
    let book = create_test_book(vec![(25000.0, 1.0)], vec![(25001.0, 1.0)]);
    let crossing = limit(Side::Buy, 25001.0, 0.5, Tif::Alo, false);
    assert!(!PerpsExecution::can_place_limit(&crossing, &book, false));
    let resting = limit(Side::Buy, 25000.5, 0.5, Tif::Alo, false);
    assert!(PerpsExecution::can_place_limit(&resting, &book, false));
    let forced = limit(Side::Sell, 25000.0, 0.5, Tif::Gtc, false);
    assert!(!PerpsExecution::can_place_limit(&forced, &book, true));
    assert!(PerpsExecution::can_place_limit(&forced, &book, false));
}

#[test]
fn test_can_place_limit_non_post_only_crossing_allowed() {
    let book = create_test_book(vec![(25000.0, 1.0)], vec![(25001.0, 1.0)]);
    let order = limit(Side::Buy, 25001.0, 0.5, Tif::Gtc, false);

    assert!(PerpsExecution::can_place_limit(&order, &book, false));
}

#[test]
fn test_execute_market_very_small_size() {
    let book = create_test_book(vec![(25000.0, 1.0)], vec![(25001.0, 1.0)]);
    // A size below the resolution of sizes is no size.
    let mut order = market(Side::Buy, 1e-9, 0.0, OrderStatus::Pending);

    let result = PerpsExecution::execute_market(&mut order, &book);
    assert!(result.is_some() || result.is_none());
    assert!(result.is_none());
}

#[test]
fn test_check_limit_fill_very_small_remaining() {
    let book = create_test_book(vec![(25000.0, 1.0)], vec![(25001.0, 1.0)]);
    let mut order = limit(Side::Buy, 25001.0, 0.5, Tif::Gtc, false);
    order.filled_sz = sz(0.4999999999);
    order.status = OrderStatus::PartiallyFilled;

    let result = PerpsExecution::check_limit_fill(&mut order, &book);
    if result.is_some() {
        let fill = result.unwrap();
        assert!(fill.filled_sz > 0);
    }
}

#[test]
fn limit_buy_at_the_best_ask_fills_whole_as_maker() {
    let book = create_test_book(vec![(99.0, 1.0)], vec![(100.0, 1.0)]);
    let mut order = limit(Side::Buy, 100.0, 1.0, Tif::Gtc, false);

    let fill = PerpsExecution::check_limit_fill(&mut order, &book).unwrap();
    assert_eq!(fill.filled_sz, sz(1.0));
    assert_eq!(fill.fill_price, px(100.0));
    assert!(fill.is_maker);
    assert_eq!(fill.order_status, OrderStatus::Filled);
    assert_eq!(order.status, OrderStatus::Filled);
    assert_eq!(order.filled_sz, sz(1.0));
}

#[test]
fn limit_order_fills_at_the_book_price_not_its_own() {
    let book = create_test_book(vec![(99.0, 1.0)], vec![(100.0, 1.0)]);
    let mut order = limit(Side::Buy, 105.0, 0.5, Tif::Gtc, false);
    let fill = PerpsExecution::check_limit_fill(&mut order, &book).unwrap();
    assert_eq!(fill.fill_price, px(100.0));
    assert!(!fill.is_maker);

    let mut sell = limit(Side::Sell, 95.0, 0.5, Tif::Gtc, false);
    let fill = PerpsExecution::check_limit_fill(&mut sell, &book).unwrap();
    assert_eq!(fill.fill_price, px(99.0));
    assert!(!fill.is_maker);
}

#[test]
fn limit_order_through_which_the_book_has_gone_fills_as_taker() {
    let book = create_test_book(vec![(25000.0, 1.0)], vec![(25001.0, 1.0)]);
    let mut order = limit(Side::Buy, 25002.0, 0.5, Tif::Gtc, false);
    let fill = PerpsExecution::check_limit_fill(&mut order, &book).unwrap();
    assert_eq!(fill.filled_sz, sz(0.5));
    assert_eq!(fill.fill_price, px(25001.0));
    assert!(!fill.is_maker);
    assert_eq!(fill.order_status, OrderStatus::Filled);

    let mut at_price = limit(Side::Buy, 25001.0, 0.5, Tif::Gtc, false);
    let fill = PerpsExecution::check_limit_fill(&mut at_price, &book).unwrap();
    assert!(fill.is_maker);
}

#[test]
fn canceled_and_filled_orders_are_left_alone() {
    let book = create_test_book(vec![(25000.0, 1.0)], vec![(25001.0, 1.0)]);

    let mut canceled = market(Side::Buy, 1.0, 0.0, OrderStatus::Canceled);
    assert!(PerpsExecution::execute_market(&mut canceled, &book).is_none());
    assert_eq!(canceled.status, OrderStatus::Canceled);
    assert_eq!(canceled.filled_sz, 0);

    let mut filled = market(Side::Sell, 1.0, 0.5, OrderStatus::Filled);
    assert!(PerpsExecution::execute_market(&mut filled, &book).is_none());
    assert_eq!(filled, market(Side::Sell, 1.0, 0.5, OrderStatus::Filled));

    let mut resting = limit(Side::Buy, 25001.0, 0.5, Tif::Gtc, false);
    resting.status = OrderStatus::Canceled;
    assert!(PerpsExecution::check_limit_fill(&mut resting, &book).is_none());
    assert_eq!(resting.status, OrderStatus::Canceled);
    assert_eq!(resting.filled_sz, 0);

    let mut done = limit(Side::Sell, 25000.0, 0.5, Tif::Gtc, false);
    done.status = OrderStatus::Filled;
    assert!(PerpsExecution::check_limit_fill(&mut done, &book).is_none());
    assert_eq!(done.filled_sz, 0);
}

#[test]
fn partly_filled_market_order_takes_what_is_open() {
    let book = create_test_book(vec![(25000.0, 1.0)], vec![(25001.0, 5.0)]);
    let mut order = market(Side::Buy, 2.0, 0.5, OrderStatus::PartiallyFilled);
    let fill = PerpsExecution::execute_market(&mut order, &book).unwrap();
    assert_eq!(fill.filled_sz, sz(1.5));
    assert_eq!(order.filled_sz, sz(2.0));
    assert_eq!(order.status, OrderStatus::Filled);
}

#[test]
fn immediate_or_cancel_order_that_does_not_touch_is_canceled() {
    let book = create_test_book(vec![(25000.0, 1.0)], vec![(25001.0, 1.0)]);
    let mut order = limit(Side::Buy, 25000.5, 0.5, Tif::Ioc, false);
    let got = PerpsExecution::check_limit_fill(&mut order, &book).unwrap();
    assert_eq!(got.filled_sz, 0);
    assert_eq!(got.fill_price, px(25000.5));
    assert!(!got.is_maker);
    assert_eq!(got.order_status, OrderStatus::Canceled);
    assert_eq!(order.status, OrderStatus::Canceled);
    assert_eq!(order.filled_sz, 0);

    // One that touches fills, and what it cannot fill stays open.
    let mut touching = limit(Side::Sell, 25000.0, 2.0, Tif::Ioc, false);
    let got = PerpsExecution::check_limit_fill(&mut touching, &book).unwrap();
    assert_eq!(got.filled_sz, sz(1.0));
    assert_eq!(got.order_status, OrderStatus::PartiallyFilled);

    // In an empty book nothing touches.
    let mut alone = limit(Side::Sell, 25000.0, 2.0, Tif::Ioc, false);
    let got = PerpsExecution::check_limit_fill(&mut alone, &OrderBook::new()).unwrap();
    assert_eq!(got.order_status, OrderStatus::Canceled);
}

#[test]
fn post_only_order_that_crosses_is_canceled_not_filled() {
    let book = create_test_book(vec![(25000.0, 1.0)], vec![(25001.0, 1.0)]);
    let mut by_flag = limit(Side::Buy, 25001.0, 0.5, Tif::Gtc, true);
    let got = PerpsExecution::check_limit_fill(&mut by_flag, &book).unwrap();
    assert_eq!(got.filled_sz, 0);
    assert_eq!(got.order_status, OrderStatus::Canceled);
    assert_eq!(by_flag.status, OrderStatus::Canceled);
    assert_eq!(by_flag.filled_sz, 0);

    let mut by_tif = limit(Side::Sell, 24999.0, 0.5, Tif::Alo, false);
    let got = PerpsExecution::check_limit_fill(&mut by_tif, &book).unwrap();
    assert_eq!(got.order_status, OrderStatus::Canceled);
    assert_eq!(by_tif.status, OrderStatus::Canceled);

    // One that does not cross rests on.
    let mut resting = limit(Side::Buy, 25000.5, 0.5, Tif::Alo, true);
    assert!(PerpsExecution::check_limit_fill(&mut resting, &book).is_none());
    assert_eq!(resting.status, OrderStatus::Pending);
}

#[test]
fn post_only_order_that_crosses_is_rejected_though_it_would_fill() {
    let book = create_test_book(vec![(99.0, 1.0)], vec![(100.0, 1.0)]);
    let order = limit(Side::Buy, 100.0, 1.0, Tif::Alo, true);
    assert!(!PerpsExecution::can_place_limit(&order, &book, false));

    // Without the restriction the same order fills whole.
    let mut free = limit(Side::Buy, 100.0, 1.0, Tif::Gtc, false);
    let fill = PerpsExecution::check_limit_fill(&mut free, &book).unwrap();
    assert_eq!(fill.filled_sz, sz(1.0));
    assert_eq!(fill.order_status, OrderStatus::Filled);

    // With it the order is canceled and nothing is filled.
    let mut same = order;
    let got = PerpsExecution::check_limit_fill(&mut same, &book).unwrap();
    assert_eq!(got.filled_sz, 0);
    assert_eq!(got.order_status, OrderStatus::Canceled);
    assert_eq!(same.filled_sz, 0);

    let sell = limit(Side::Sell, 99.0, 1.0, Tif::Alo, true);
    assert!(!PerpsExecution::can_place_limit(&sell, &book, false));
}

#[test]
fn only_limit_orders_can_be_placed_and_only_market_orders_sweep() {
    let book = create_test_book(vec![(99.0, 1.0)], vec![(100.0, 1.0)]);
    let market_order = market(Side::Buy, 1.0, 0.0, OrderStatus::Pending);
    assert!(!PerpsExecution::can_place_limit(&market_order, &book, false));

    let mut limit_order = limit(Side::Buy, 100.0, 1.0, Tif::Gtc, false);
    assert!(PerpsExecution::execute_market(&mut limit_order, &book).is_none());
    let mut other = market_order;
    assert!(PerpsExecution::check_limit_fill(&mut other, &book).is_none());
    assert_eq!(other, market_order);
}
