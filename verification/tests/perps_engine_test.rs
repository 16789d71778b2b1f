use hl_backtest::ingest::OrderLevel;
use hl_backtest::orders::types::{Action, OrderStatus, Side, SimConfig, Tif};
use hl_backtest::perps::engine::{EngineError, PerpsRun, Tick};
use hl_backtest::perps::funding::FundingSchedule;
use hl_backtest::perps::PerpsEngine;

fn px(x: f64) -> u64 {
    (x * 1e8) as u64
}

fn sz(x: f64) -> u64 {
    (x * 1e8).round() as u64
}

fn money(x: f64) -> i128 {
    (x * 1e8).round() as i128
}

fn snapshot(bid: f64, ask: f64, size: f64) -> Vec<Vec<OrderLevel>> {
    vec![
        vec![OrderLevel { px: px(bid), sz: sz(size), n: 1 }],
        vec![OrderLevel { px: px(ask), sz: sz(size), n: 1 }],
    ]
}

fn config() -> SimConfig {
    SimConfig {
        initial_capital: money(100000.0),
        maker_fee_bps: -1,
        taker_fee_bps: 10,
        slippage_bps: 5,
        trade_cooldown_ms: None,
    }
}

fn run_with(funding: FundingSchedule, lookback: usize) -> PerpsRun {
    let engine = PerpsEngine::new(funding, &config());
    PerpsRun::new(engine, &config(), "BTC", 60_000, lookback)
}

fn limit_buy(price: f64, size: f64) -> Action {
    Action::Limit {
        side: Side::Buy,
        px: px(price),
        sz: sz(size),
        tif: Tif::Gtc,
        post_only: false,
        reduce_only: false,
    }
}

const T0: u64 = 1_694_858_400_000;

#[test]
fn three_snapshots_and_a_strategy_that_buys_when_flat_give_one_trade() {
    let mut run = run_with(FundingSchedule::new(), 0);
    let events = [
        (T0, snapshot(25000.0, 25001.0, 5.0)),
        (T0 + 1000, snapshot(25010.0, 25011.0, 5.0)),
        (T0 + 2000, snapshot(25020.0, 25021.0, 5.0)),
    ];
    for (ts, levels) in events.iter() {
        let tick = run.begin_tick(*ts, levels);
        if tick == Tick::Entry {
            run.propose(Action::Market { side: Side::Buy, sz: sz(1.0) });
        }
        run.finish_tick().unwrap();
    }

    assert_eq!(run.trades().len(), 1);
    let trade = &run.trades()[0];
    assert_eq!(trade.side, "BUY");
    assert_eq!(trade.symbol, "BTC");
    assert_eq!(trade.size, sz(1.0));
    assert_eq!(trade.price, px(25001.0));
    assert_eq!(trade.timestamp, T0);
    assert_eq!(trade.order_id, 1);
    // The taker fee of 10 basis points on 25001.
    assert_eq!(trade.fee, money(25.001));
    assert_eq!(run.portfolio().cash, money(100000.0) - money(25001.0) - money(25.001));
    assert_eq!(run.portfolio().get_position("BTC"), sz(1.0) as i64);
    assert!(run.active_orders().is_empty());

    let result = run.finish().unwrap();
    assert_eq!(result.num_trades, 1);
    // Valued at the last mid price, 25020.5.
    let equity = money(100000.0) - money(25001.0) - money(25.001) + money(25020.5);
    assert_eq!(result.final_equity, equity);
    assert_eq!(result.total_return, equity - money(100000.0));
    assert_eq!(result.total_return_pct, (equity - money(100000.0)) * 10_000_000_000 / money(100000.0));
}

#[test]
fn a_book_without_a_mid_price_passes_the_tick_over() {
    let mut run = run_with(FundingSchedule::new(), 0);
    let one_sided = vec![vec![OrderLevel { px: px(100.0), sz: sz(1.0), n: 1 }], vec![]];
    assert_eq!(run.begin_tick(T0, &one_sided), Tick::Skipped);
    assert_eq!(run.propose(Action::Market { side: Side::Buy, sz: sz(1.0) }), None);
    run.finish_tick().unwrap();
    assert!(run.trades().is_empty());
    assert!(run.equity_curve().is_empty());
    assert!(run.active_orders().is_empty());
}

#[test]
fn the_strategy_is_not_asked_before_the_lookback_is_seen() {
    let mut run = run_with(FundingSchedule::new(), 2);
    assert_eq!(run.begin_tick(T0, &snapshot(100.0, 101.0, 1.0)), Tick::Quiet);
    run.finish_tick().unwrap();
    assert_eq!(run.begin_tick(T0 + 1, &snapshot(100.0, 101.0, 1.0)), Tick::Quiet);
    run.finish_tick().unwrap();
    assert_eq!(run.begin_tick(T0 + 2, &snapshot(100.0, 101.0, 1.0)), Tick::Entry);
}

#[test]
fn the_strategy_is_asked_again_once_the_price_has_moved() {
    let mut run = run_with(FundingSchedule::new(), 0);
    assert_eq!(run.begin_tick(T0, &snapshot(50000.0, 50000.0, 1.0)), Tick::Entry);
    run.finish_tick().unwrap();
    // 0.1 on 50000 is less than 0.01%.
    assert_eq!(run.begin_tick(T0 + 1, &snapshot(50000.1, 50000.1, 1.0)), Tick::Quiet);
    run.finish_tick().unwrap();
    // Exactly 0.01% is not more than 0.01%.
    assert_eq!(run.begin_tick(T0 + 2, &snapshot(50005.0, 50005.0, 1.0)), Tick::Quiet);
    run.finish_tick().unwrap();
    assert_eq!(run.begin_tick(T0 + 3, &snapshot(50010.0, 50010.0, 1.0)), Tick::Entry);
}

#[test]
fn entries_wait_for_the_cooldown_and_exits_do_not() {
    let mut run = run_with(FundingSchedule::new(), 0);
    assert_eq!(run.begin_tick(T0, &snapshot(100.0, 101.0, 5.0)), Tick::Entry);
    run.propose(Action::Market { side: Side::Buy, sz: sz(1.0) });
    run.finish_tick().unwrap();

    // In a position: the exit path, at once.
    assert_eq!(run.begin_tick(T0 + 1000, &snapshot(110.0, 111.0, 5.0)), Tick::Exit);
    run.propose(Action::Market { side: Side::Sell, sz: sz(1.0) });
    run.finish_tick().unwrap();
    assert_eq!(run.portfolio().get_position("BTC"), 0);
    assert_eq!(run.trades().len(), 2);
    assert_eq!(run.trades()[1].side, "SELL");
    assert_eq!(run.trades()[1].price, px(110.0));

    // Flat again, but the last fill is less than 15 minutes ago.
    assert_eq!(run.begin_tick(T0 + 2000, &snapshot(120.0, 121.0, 5.0)), Tick::Quiet);
    assert_eq!(run.propose(Action::Market { side: Side::Buy, sz: sz(1.0) }), None);
    run.finish_tick().unwrap();
    assert_eq!(
        run.begin_tick(T0 + 1000 + 900_000 - 1, &snapshot(130.0, 131.0, 5.0)),
        Tick::Quiet
    );
    run.finish_tick().unwrap();
    assert_eq!(run.begin_tick(T0 + 1000 + 900_000, &snapshot(140.0, 141.0, 5.0)), Tick::Entry);
}

#[test]
fn two_near_limit_buys_collapse_to_one_active_order() {
    let mut run = run_with(FundingSchedule::new(), 0);
    assert_eq!(run.begin_tick(T0, &snapshot(50100.0, 50101.0, 5.0)), Tick::Entry);
    assert_eq!(run.propose(limit_buy(50000.0, 0.5)), Some(1));
    // Less than 0.01 in price and 0.000001 in size away.
    assert_eq!(run.propose(limit_buy(50000.009, 0.5000001)), None);
    assert_eq!(run.active_orders().len(), 1);
    assert_eq!(run.active_orders()[0].id, 1);
    assert_eq!(run.active_orders()[0].status, OrderStatus::Pending);

    // Further away in price, on the other side, or of another kind: no duplicate.
    assert_eq!(run.propose(limit_buy(50010.0, 0.5)), Some(2));
    assert_eq!(
        run.propose(Action::Limit {
            side: Side::Sell,
            px: px(50000.0),
            sz: sz(0.5),
            tif: Tif::Gtc,
            post_only: false,
            reduce_only: false,
        }),
        Some(3)
    );
    assert_eq!(run.propose(Action::Market { side: Side::Buy, sz: sz(0.5) }), Some(4));
    assert_eq!(run.propose(Action::Market { side: Side::Buy, sz: sz(0.5) + 99 }), None);
    assert_eq!(run.propose(Action::Market { side: Side::Buy, sz: sz(0.5) + 100 }), Some(5));
    assert_eq!(run.active_orders().len(), 5);
}

#[test]
fn a_market_order_without_liquidity_waits_for_the_next_tick() {
    let mut run = run_with(FundingSchedule::new(), 0);
    let levels = snapshot(100.0, 101.0, 0.0);
    assert_eq!(run.begin_tick(T0, &levels), Tick::Entry);
    assert_eq!(run.propose(Action::Market { side: Side::Buy, sz: sz(1.0) }), Some(1));
    run.finish_tick().unwrap();
    assert_eq!(run.active_orders().len(), 1);
    assert!(run.trades().is_empty());

    run.begin_tick(T0 + 1000, &snapshot(100.0, 101.0, 0.4));
    run.finish_tick().unwrap();
    // A partial fill is booked and the order stays for what is open.
    assert_eq!(run.trades().len(), 1);
    assert_eq!(run.trades()[0].size, sz(0.4));
    assert_eq!(run.active_orders().len(), 1);
    assert_eq!(run.active_orders()[0].id, 1);
    assert_eq!(run.active_orders()[0].filled_sz, sz(0.4));
    assert_eq!(run.active_orders()[0].status, OrderStatus::PartiallyFilled);
    assert_eq!(run.active_orders()[0].action, Action::Market { side: Side::Buy, sz: sz(1.0) });

    // The rest fills when the book holds it, and then the order leaves.
    run.begin_tick(T0 + 2000, &snapshot(100.0, 102.0, 5.0));
    run.finish_tick().unwrap();
    assert_eq!(run.trades().len(), 2);
    assert_eq!(run.trades()[1].size, sz(0.6));
    assert_eq!(run.trades()[1].price, px(102.0));
    assert_eq!(run.trades()[1].order_id, 1);
    assert!(run.active_orders().is_empty());
    assert_eq!(run.portfolio().get_position("BTC"), sz(1.0) as i64);
}

#[test]
fn a_partly_filled_limit_order_stays_for_what_is_open() {
    let mut run = run_with(FundingSchedule::new(), 0);
    assert_eq!(run.begin_tick(T0, &snapshot(100.0, 101.0, 0.2)), Tick::Entry);
    assert_eq!(run.propose(limit_buy(101.0, 0.5)), Some(1));
    run.finish_tick().unwrap();
    assert_eq!(run.trades().len(), 1);
    assert_eq!(run.trades()[0].size, sz(0.2));
    assert_eq!(run.active_orders().len(), 1);
    assert_eq!(run.active_orders()[0].filled_sz, sz(0.2));
    assert_eq!(run.active_orders()[0].status, OrderStatus::PartiallyFilled);
    assert_eq!(run.active_orders()[0].action, limit_buy(101.0, 0.5));

    run.begin_tick(T0 + 1000, &snapshot(100.0, 101.0, 0.3));
    run.finish_tick().unwrap();
    assert_eq!(run.trades().len(), 2);
    assert_eq!(run.trades()[1].size, sz(0.3));
    assert!(run.active_orders().is_empty());
    assert_eq!(run.portfolio().get_position("BTC"), sz(0.5) as i64);
}

#[test]
fn a_limit_order_that_the_book_has_gone_through_pays_the_taker_fee() {
    let mut run = run_with(FundingSchedule::new(), 0);
    assert_eq!(run.begin_tick(T0, &snapshot(25000.0, 25001.0, 5.0)), Tick::Entry);
    assert_eq!(run.propose(limit_buy(25002.0, 1.0)), Some(1));
    run.finish_tick().unwrap();
    assert_eq!(run.trades().len(), 1);
    let trade = &run.trades()[0];
    assert_eq!(trade.price, px(25001.0));
    // Ten basis points on 25001, not the maker's rebate.
    assert_eq!(trade.fee, money(25.001));
    assert!(run.active_orders().is_empty());
}

#[test]
fn an_immediate_or_cancel_order_that_does_not_touch_is_canceled() {
    let mut run = run_with(FundingSchedule::new(), 0);
    assert_eq!(run.begin_tick(T0, &snapshot(100.0, 101.0, 5.0)), Tick::Entry);
    let order = Action::Limit {
        side: Side::Buy,
        px: px(99.0),
        sz: sz(1.0),
        tif: Tif::Ioc,
        post_only: false,
        reduce_only: false,
    };
    assert_eq!(run.propose(order), Some(1));
    assert_eq!(run.propose(limit_buy(98.0, 1.0)), Some(2));
    run.finish_tick().unwrap();
    // The order is gone without a trade; the one that is good till cancel rests.
    assert!(run.trades().is_empty());
    assert_eq!(run.active_orders().len(), 1);
    assert_eq!(run.active_orders()[0].id, 2);
    assert_eq!(run.portfolio().cash, money(100000.0));

    // It does not come back when the book reaches its price.
    run.begin_tick(T0 + 1000, &snapshot(98.5, 99.0, 5.0));
    run.finish_tick().unwrap();
    assert!(run.trades().is_empty());
}

#[test]
fn a_post_only_order_that_crosses_is_canceled() {
    let mut run = run_with(FundingSchedule::new(), 0);
    assert_eq!(run.begin_tick(T0, &snapshot(100.0, 101.0, 5.0)), Tick::Entry);
    let crossing = Action::Limit {
        side: Side::Buy,
        px: px(101.0),
        sz: sz(1.0),
        tif: Tif::Alo,
        post_only: true,
        reduce_only: false,
    };
    let resting = Action::Limit {
        side: Side::Sell,
        px: px(102.0),
        sz: sz(1.0),
        tif: Tif::Alo,
        post_only: true,
        reduce_only: false,
    };
    assert_eq!(run.propose(crossing), Some(1));
    assert_eq!(run.propose(resting), Some(2));
    run.finish_tick().unwrap();
    assert!(run.trades().is_empty());
    assert_eq!(run.active_orders().len(), 1);
    assert_eq!(run.active_orders()[0].id, 2);
    assert_eq!(run.active_orders()[0].status, OrderStatus::Pending);
    assert_eq!(run.portfolio().get_position("BTC"), 0);
}

#[test]
fn a_limit_order_stays_until_the_book_reaches_it() {
    let mut run = run_with(FundingSchedule::new(), 0);
    assert_eq!(run.begin_tick(T0, &snapshot(100.0, 101.0, 5.0)), Tick::Entry);
    assert_eq!(run.propose(limit_buy(99.0, 2.0)), Some(1));
    run.finish_tick().unwrap();
    assert_eq!(run.active_orders().len(), 1);
    assert!(run.trades().is_empty());

    run.begin_tick(T0 + 1000, &snapshot(98.0, 99.0, 5.0));
    run.finish_tick().unwrap();
    assert!(run.active_orders().is_empty());
    assert_eq!(run.trades().len(), 1);
    let trade = &run.trades()[0];
    assert_eq!(trade.price, px(99.0));
    assert_eq!(trade.size, sz(2.0));
    // The maker rebate of 1 basis point on 198.
    assert_eq!(trade.fee, money(-0.0198));
    assert_eq!(run.portfolio().cash, money(100000.0 - 198.0 + 0.0198));
}

#[test]
fn funding_is_paid_by_longs_every_eight_hours() {
    let mut funding = FundingSchedule::new();
    funding.add_point(0, 10_000);
    let mut run = run_with(funding, 0);

    run.begin_tick(T0, &snapshot(100.0, 100.0, 5.0));
    run.propose(Action::Market { side: Side::Buy, sz: sz(2.0) });
    run.finish_tick().unwrap();
    // Bought 2 at 100 with a fee of 0.2, then funding of 0.01% on 200.
    let after_first = money(100000.0 - 200.0 - 0.2 - 0.02);
    assert_eq!(run.portfolio().cash, after_first);

    run.begin_tick(T0 + 28_800_000 - 1, &snapshot(100.0, 100.0, 5.0));
    run.finish_tick().unwrap();
    assert_eq!(run.portfolio().cash, after_first);

    run.begin_tick(T0 + 28_800_000, &snapshot(150.0, 150.0, 5.0));
    run.finish_tick().unwrap();
    assert_eq!(run.portfolio().cash, after_first - money(0.03));
}

#[test]
fn funding_is_received_by_shorts() {
    let mut funding = FundingSchedule::new();
    funding.add_point(0, 10_000);
    let mut run = run_with(funding, 0);

    run.begin_tick(T0, &snapshot(100.0, 100.0, 5.0));
    run.propose(Action::Market { side: Side::Sell, sz: sz(2.0) });
    run.finish_tick().unwrap();
    assert_eq!(run.portfolio().cash, money(100000.0 + 200.0 - 0.2 + 0.02));
}

#[test]
fn equity_is_sampled_on_whole_minutes() {
    let mut run = run_with(FundingSchedule::new(), 0);
    assert_eq!(T0 % 60_000, 0);
    run.begin_tick(T0, &snapshot(100.0, 102.0, 5.0));
    run.propose(Action::Market { side: Side::Buy, sz: sz(1.0) });
    run.finish_tick().unwrap();
    run.begin_tick(T0 + 1, &snapshot(100.0, 102.0, 5.0));
    run.finish_tick().unwrap();
    run.begin_tick(T0 + 60_000, &snapshot(110.0, 112.0, 5.0));
    run.finish_tick().unwrap();

    let curve = run.equity_curve();
    assert_eq!(curve.len(), 2);
    let cash = money(100000.0 - 102.0 - 0.102);
    assert_eq!(curve[0].timestamp, T0);
    assert_eq!(curve[0].cash, cash);
    assert_eq!(curve[0].position_value, money(101.0));
    assert_eq!(curve[0].equity, cash + money(101.0));
    assert_eq!(curve[1].timestamp, T0 + 60_000);
    assert_eq!(curve[1].position_value, money(111.0));
}

#[test]
fn the_candle_follows_the_ticks_within_a_bucket() {
    let mut run = run_with(FundingSchedule::new(), 0);
    run.begin_tick(T0 + 5, &snapshot(100.0, 100.0, 5.0));
    run.finish_tick().unwrap();
    run.begin_tick(T0 + 10, &snapshot(120.0, 120.0, 5.0));
    run.finish_tick().unwrap();
    run.begin_tick(T0 + 20, &snapshot(90.0, 90.0, 5.0));
    run.finish_tick().unwrap();
    {
        let candle = run.candle();
        assert_eq!(candle.time_open, T0);
        assert_eq!(candle.time_close, T0 + 20);
        assert_eq!(candle.open, px(100.0));
        assert_eq!(candle.high, px(120.0));
        assert_eq!(candle.low, px(90.0));
        assert_eq!(candle.close, px(90.0));
        assert_eq!(candle.coin, "BTC");
    }
    assert_eq!(run.prev_candle_close(), None);

    run.begin_tick(T0 + 60_000, &snapshot(95.0, 95.0, 5.0));
    let candle = run.candle();
    assert_eq!(candle.time_open, T0 + 60_000);
    assert_eq!(candle.open, px(95.0));
    assert_eq!(candle.high, px(95.0));
    assert_eq!(candle.low, px(95.0));
    assert_eq!(run.prev_candle_close(), Some(px(90.0)));
}

#[test]
fn a_fill_that_the_ledger_cannot_hold_ends_the_run() {
    let mut run = run_with(FundingSchedule::new(), 0);
    let deep = vec![
        vec![OrderLevel { px: px(100.0), sz: u64::MAX, n: 1 }],
        vec![OrderLevel { px: px(100.0), sz: u64::MAX, n: 1 }],
    ];
    run.begin_tick(T0, &deep);
    assert_eq!(run.propose(Action::Market { side: Side::Buy, sz: sz(1.0) }), Some(1));
    assert_eq!(run.propose(Action::Market { side: Side::Buy, sz: u64::MAX }), Some(2));
    assert_eq!(run.propose(Action::Market { side: Side::Buy, sz: sz(2.0) }), Some(3));
    assert_eq!(run.finish_tick(), Err(EngineError::LimitExceeded));
    // The run stops before the fill that it cannot hold: the first order is
    // booked and recorded as filled, the others are as they were.
    assert_eq!(run.trades().len(), 1);
    assert_eq!(run.trades()[0].order_id, 1);
    assert_eq!(run.portfolio().get_position("BTC"), sz(1.0) as i64);
    assert_eq!(run.active_orders().len(), 3);
    assert_eq!(run.active_orders()[0].status, OrderStatus::Filled);
    assert_eq!(run.active_orders()[1].status, OrderStatus::Pending);
    assert_eq!(run.active_orders()[1].filled_sz, 0);
    assert_eq!(run.active_orders()[2].status, OrderStatus::Pending);
}

#[test]
fn test_perps_engine_new() {
    let funding = FundingSchedule::new();
    let config = SimConfig {
        initial_capital: money(10000.0),
        maker_fee_bps: -1,
        taker_fee_bps: 10,
        slippage_bps: 5,
        trade_cooldown_ms: None,
    };
    let engine = PerpsEngine::new(funding, &config);
    let run = PerpsRun::new(engine, &config, "BTC", 60_000, 0);
    assert_eq!(run.portfolio().cash, money(10000.0));
    assert!(run.book().best_bid().is_none());
}
