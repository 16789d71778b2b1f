use hl_backtest::ingest::OrderLevel;
use hl_backtest::orderbook::OrderBook;

fn px(x: f64) -> u64 {
    (x * 1e8) as u64
}

fn sz(x: f64) -> u64 {
    (x * 1e8).round() as u64
}

fn to_f64(x: u64) -> f64 {
    x as f64 / 1e8
}

fn wide_to_f64(x: u128) -> f64 {
    x as f64 / 1e8
}

fn level(price: f64, size: f64, n: u64) -> OrderLevel {
    OrderLevel { px: px(price), sz: sz(size), n }
}

#[test]
fn test_order_book_snapshot() {
    let mut book = OrderBook::new();

    let levels = vec![
        vec![level(25000.0, 1.5, 1), level(24999.0, 2.0, 2)],
        vec![level(25001.0, 1.0, 3), level(25002.0, 1.5, 4)],
    ];

    book.apply_snapshot(&levels);

    let best_bid = book.best_bid().unwrap();
    assert_eq!(to_f64(best_bid.0), 25000.0);
    assert_eq!(wide_to_f64(best_bid.1), 1.5);

    let best_ask = book.best_ask().unwrap();
    assert_eq!(to_f64(best_ask.0), 25001.0);
    assert_eq!(wide_to_f64(best_ask.1), 1.0);

    let mid = book.mid_price().unwrap();
    assert_eq!(to_f64(mid), 25000.5);
}

#[test]
fn test_market_sweep() {
    let mut book = OrderBook::new();
    let levels = vec![vec![level(25000.0, 1.0, 1)], vec![level(25001.0, 2.0, 2)]];
    book.apply_snapshot(&levels);

    // Buy 1.5: all of it at 25001.0, where 2.0 is offered.
    let (filled, avg_price, is_maker) = book.sweep_market_buy(sz(1.5)).unwrap();
    assert_eq!(to_f64(filled), 1.5);
    assert_eq!(to_f64(avg_price), 25001.0);
    assert!(!is_maker);
}

#[test]
fn test_market_sweep_multiple_levels() {
    let mut book = OrderBook::new();
    let levels = vec![
        vec![level(25000.0, 1.0, 1), level(24999.0, 2.0, 2)],
        vec![level(25001.0, 1.5, 3), level(25002.0, 2.0, 4)],
    ];
    book.apply_snapshot(&levels);

    // Buy 3.0: 1.5 at 25001.0 and 1.5 at 25002.0.
    let (filled, avg_price, _) = book.sweep_market_buy(sz(3.0)).unwrap();
    assert_eq!(to_f64(filled), 3.0);
    assert!((to_f64(avg_price) - 25001.5).abs() < 0.01);
    assert_eq!(avg_price, px(25001.5));
}

#[test]
fn test_would_cross() {
    let mut book = OrderBook::new();
    let levels = vec![vec![level(25000.0, 1.0, 1)], vec![level(25001.0, 1.0, 2)]];
    book.apply_snapshot(&levels);

    assert!(book.would_cross_buy(px(25001.0)));
    assert!(book.would_cross_buy(px(25002.0)));
    assert!(!book.would_cross_buy(px(25000.0)));

    assert!(book.would_cross_sell(px(25000.0)));
    assert!(book.would_cross_sell(px(24999.0)));
    assert!(!book.would_cross_sell(px(25001.0)));
}

#[test]
fn test_depth_queries() {
    let mut book = OrderBook::new();
    let levels = vec![
        vec![level(25000.0, 1.0, 1), level(24999.0, 2.0, 2)],
        vec![level(25001.0, 1.5, 3), level(25002.0, 2.0, 4)],
    ];
    book.apply_snapshot(&levels);

    assert_eq!(wide_to_f64(book.bid_depth_to(px(25000.0))), 1.0);
    assert_eq!(wide_to_f64(book.bid_depth_to(px(24999.0))), 3.0);
    assert_eq!(wide_to_f64(book.ask_depth_to(px(25002.0))), 3.5);
    assert_eq!(wide_to_f64(book.ask_depth_to(px(25001.0))), 1.5);
}

#[test]
fn sweep_takes_the_cheapest_asks_first() {
    let mut book = OrderBook::new();
    book.apply_snapshot(&[vec![], vec![level(102.0, 2.0, 1), level(101.0, 1.0, 2)]]);

    let (filled, price, is_maker) = book.sweep_market_buy(sz(1.5)).unwrap();
    assert_eq!(filled, 150_000_000);
    // (1 * 101 + 0.5 * 102) / 1.5 = 101.333..., rounded down.
    assert_eq!(price, 10_133_333_333);
    assert!((to_f64(price) - 101.33).abs() < 0.01);
    assert!(!is_maker);
}

#[test]
fn sweep_sell_takes_the_highest_bids_first() {
    let mut book = OrderBook::new();
    book.apply_snapshot(&[vec![level(99.0, 1.0, 1), level(100.0, 1.0, 2)], vec![]]);

    let (filled, price, is_maker) = book.sweep_market_sell(sz(1.5)).unwrap();
    assert_eq!(filled, sz(1.5));
    // (1 * 100 + 0.5 * 99) / 1.5 = 99.666..., rounded down.
    assert_eq!(price, 9_966_666_666);
    assert!(!is_maker);
}

#[test]
fn sweep_fills_what_there_is() {
    let mut book = OrderBook::new();
    book.apply_snapshot(&[vec![], vec![level(101.0, 1.0, 1), level(102.0, 2.0, 2)]]);

    let (filled, _, _) = book.sweep_market_buy(sz(10.0)).unwrap();
    assert_eq!(filled, sz(3.0));
    assert_eq!(book.sweep_market_buy(0), None);
    assert_eq!(book.sweep_market_sell(sz(1.0)), None);
}

#[test]
fn empty_book_has_no_prices() {
    let book = OrderBook::new();
    assert_eq!(book.best_bid(), None);
    assert_eq!(book.best_ask(), None);
    assert_eq!(book.mid_price(), None);
    assert!(!book.would_cross_buy(px(1.0)));
    assert!(!book.would_cross_sell(px(1.0)));
    assert_eq!(book.bid_depth_to(0), 0);
    assert_eq!(book.ask_depth_to(u64::MAX), 0);
}

#[test]
fn one_sided_book_has_no_mid_price() {
    let mut book = OrderBook::new();
    book.apply_snapshot(&[vec![level(100.0, 1.0, 1)]]);
    assert_eq!(book.best_bid(), Some((px(100.0), sz(1.0) as u128)));
    assert_eq!(book.best_ask(), None);
    assert_eq!(book.mid_price(), None);
}

#[test]
fn snapshot_adds_sizes_quoted_at_one_price() {
    let mut book = OrderBook::new();
    book.apply_snapshot(&[
        vec![level(100.0, 1.0, 1), level(99.0, 0.5, 2), level(100.0, 2.0, 3)],
        vec![level(101.0, 1.0, 4), level(101.0, 1.0, 5)],
    ]);
    assert_eq!(book.best_bid(), Some((px(100.0), sz(3.0) as u128)));
    assert_eq!(book.best_ask(), Some((px(101.0), sz(2.0) as u128)));
    assert_eq!(book.bid_depth_to(px(99.0)), sz(3.5) as u128);
}

#[test]
fn snapshot_replaces_the_book() {
    let mut book = OrderBook::new();
    book.apply_snapshot(&[vec![level(100.0, 1.0, 1)], vec![level(101.0, 1.0, 2)]]);
    book.apply_snapshot(&[vec![level(50.0, 2.0, 1)], vec![level(51.0, 3.0, 2)]]);
    assert_eq!(book.best_bid(), Some((px(50.0), sz(2.0) as u128)));
    assert_eq!(book.best_ask(), Some((px(51.0), sz(3.0) as u128)));
    book.apply_snapshot(&[]);
    assert_eq!(book.best_bid(), None);
    assert_eq!(book.best_ask(), None);
}

#[test]
fn same_snapshot_gives_the_same_book() {
    let levels = vec![
        vec![level(25000.0, 1.0, 1), level(24999.0, 2.0, 2)],
        vec![level(25002.0, 2.0, 4), level(25001.0, 1.5, 3)],
    ];
    let mut once = OrderBook::new();
    once.apply_snapshot(&levels);
    let mut twice = OrderBook::new();
    twice.apply_snapshot(&[vec![level(1.0, 1.0, 1)], vec![level(2.0, 1.0, 1)]]);
    twice.apply_snapshot(&levels);
    twice.apply_snapshot(&levels);

    assert_eq!(once.best_bid(), twice.best_bid());
    assert_eq!(once.best_ask(), twice.best_ask());
    assert_eq!(once.mid_price(), twice.mid_price());
    assert_eq!(once.bid_depth_to(px(24999.0)), twice.bid_depth_to(px(24999.0)));
    assert_eq!(once.ask_depth_to(px(25002.0)), twice.ask_depth_to(px(25002.0)));
    assert_eq!(once.sweep_market_buy(sz(2.0)), twice.sweep_market_buy(sz(2.0)));
}
