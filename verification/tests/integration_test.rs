use hl_backtest::data::types::Candle;
use hl_backtest::fees::FeeCalculator;
use hl_backtest::orders::fills::{can_process, process_order_fill};
use hl_backtest::orders::types::{Action, Order, OrderStatus, Side, Tif};
use hl_backtest::portfolio::Portfolio;

fn px(x: f64) -> u64 {
    (x * 1e8) as u64
}

fn sz(x: f64) -> u64 {
    (x * 1e8).round() as u64
}

fn to_f64(x: u64) -> f64 {
    x as f64 / 1e8
}

fn create_test_candle(time: u64, open: f64, high: f64, low: f64, close: f64) -> Candle {
    Candle {
        time_open: time,
        time_close: time + 60000,
        coin: "ETH".to_string(),
        interval: "1m".to_string(),
        open: px(open),
        close: px(close),
        high: px(high),
        low: px(low),
        volume: sz(1000.0),
        num_trades: 100,
    }
}

fn order(action: Action) -> Order {
    Order { id: 1, action, created_at: 1000, filled_sz: 0, status: OrderStatus::Pending }
}

fn limit(side: Side, price: f64, tif: Tif, post_only: bool) -> Order {
    order(Action::Limit {
        side,
        px: px(price),
        sz: sz(1.0),
        tif,
        post_only,
        reduce_only: false,
    })
}

#[test]
fn test_market_order_fill() {
    let candle = create_test_candle(1000, 100.0, 105.0, 95.0, 102.0);
    let fee_calc = FeeCalculator::new(-1, 10, 5);
    let portfolio = Portfolio::new(1_000_000_000_000, fee_calc.clone());

    let mut order = order(Action::Market { side: Side::Buy, sz: sz(1.0) });

    let result = process_order_fill(&mut order, &candle, &portfolio, &fee_calc);
    assert!(result.is_some());
    let fill = result.unwrap();
    assert_eq!(to_f64(fill.filled_sz), 1.0);
    assert!(!fill.is_maker);
    assert_eq!(fill.order_status, OrderStatus::Filled);
    // The open with 5 basis points of slippage.
    assert_eq!(fill.fill_price, px(100.05));
}

#[test]
fn test_limit_order_fill_buy() {
    let candle = create_test_candle(1000, 100.0, 105.0, 95.0, 102.0);
    let fee_calc = FeeCalculator::new(-1, 10, 5);
    let portfolio = Portfolio::new(1_000_000_000_000, fee_calc.clone());

    // Buy limit at 98 fills: the low, 95, is below it.
    let mut order = limit(Side::Buy, 98.0, Tif::Gtc, false);

    let result = process_order_fill(&mut order, &candle, &portfolio, &fee_calc);
    assert!(result.is_some());
    let fill = result.unwrap();
    assert_eq!(to_f64(fill.filled_sz), 1.0);
    assert_eq!(to_f64(fill.fill_price), 98.0);
    assert!(fill.is_maker);
}

#[test]
fn test_limit_order_no_fill() {
    let candle = create_test_candle(1000, 100.0, 105.0, 95.0, 102.0);
    let fee_calc = FeeCalculator::new(-1, 10, 5);
    let portfolio = Portfolio::new(1_000_000_000_000, fee_calc.clone());

    let mut order = limit(Side::Buy, 90.0, Tif::Gtc, false);

    let result = process_order_fill(&mut order, &candle, &portfolio, &fee_calc);
    assert!(result.is_none());
}

#[test]
fn test_ioc_order_cancel() {
    let candle = create_test_candle(1000, 100.0, 105.0, 95.0, 102.0);
    let fee_calc = FeeCalculator::new(-1, 10, 5);
    let portfolio = Portfolio::new(1_000_000_000_000, fee_calc.clone());

    let mut order = limit(Side::Buy, 90.0, Tif::Ioc, false);

    let result = process_order_fill(&mut order, &candle, &portfolio, &fee_calc);
    assert!(result.is_some());
    let fill = result.unwrap();
    assert_eq!(fill.order_status, OrderStatus::Canceled);
    assert_eq!(fill.filled_sz, 0);
    assert_eq!(fill.fill_price, px(90.0));
}

fn fill(action: Action, candle: &Candle) -> Option<(u64, u64, bool, OrderStatus)> {
    let fee_calc = FeeCalculator::new(-1, 10, 5);
    let portfolio = Portfolio::new(0, fee_calc);
    let mut o = order(action);
    assert!(can_process(&o, candle, &fee_calc));
    let r = process_order_fill(&mut o, candle, &portfolio, &fee_calc);
    assert_eq!(o, order(action));
    r.map(|f| (f.filled_sz, f.fill_price, f.is_maker, f.order_status))
}

#[test]
fn market_sell_gets_less_by_the_slippage() {
    let candle = create_test_candle(1000, 100.0, 105.0, 95.0, 102.0);
    assert_eq!(
        fill(Action::Market { side: Side::Sell, sz: sz(2.0) }, &candle),
        Some((sz(2.0), px(99.95), false, OrderStatus::Filled))
    );
}

#[test]
fn limit_order_that_the_open_gapped_through_fills_at_the_open_as_taker() {
    let candle = create_test_candle(1000, 100.0, 105.0, 95.0, 102.0);
    let buy = limit(Side::Buy, 103.0, Tif::Gtc, false).action;
    assert_eq!(fill(buy, &candle), Some((sz(1.0), px(100.0), false, OrderStatus::Filled)));
    let sell = limit(Side::Sell, 97.0, Tif::Gtc, false).action;
    assert_eq!(fill(sell, &candle), Some((sz(1.0), px(100.0), false, OrderStatus::Filled)));
    let resting_sell = limit(Side::Sell, 104.0, Tif::Gtc, false).action;
    assert_eq!(fill(resting_sell, &candle), Some((sz(1.0), px(104.0), true, OrderStatus::Filled)));
    let untouched_sell = limit(Side::Sell, 106.0, Tif::Gtc, false).action;
    assert_eq!(fill(untouched_sell, &candle), None);
}

#[test]
fn post_only_limit_that_would_cross_is_canceled() {
    let candle = create_test_candle(1000, 100.0, 105.0, 95.0, 102.0);
    let buy = limit(Side::Buy, 98.0, Tif::Alo, true).action;
    assert_eq!(fill(buy, &candle), Some((0, px(98.0), false, OrderStatus::Canceled)));
    // Touched exactly at the low, with the open above: it rests and fills.
    let at_low = limit(Side::Buy, 95.0, Tif::Alo, true).action;
    assert_eq!(fill(at_low, &candle), Some((sz(1.0), px(95.0), true, OrderStatus::Filled)));
    let sell = limit(Side::Sell, 103.0, Tif::Alo, true).action;
    assert_eq!(fill(sell, &candle), Some((0, px(103.0), false, OrderStatus::Canceled)));
}

#[test]
fn stop_orders_fill_once_the_trigger_is_reached() {
    let candle = create_test_candle(1000, 100.0, 105.0, 95.0, 102.0);
    let buy = Action::StopMarket { side: Side::Buy, trigger: px(104.0), sz: sz(1.0) };
    // At the trigger, which is above the open, with slippage.
    assert_eq!(fill(buy, &candle), Some((sz(1.0), px(104.052), false, OrderStatus::Filled)));
    let gapped = Action::StopMarket { side: Side::Buy, trigger: px(99.0), sz: sz(1.0) };
    assert_eq!(fill(gapped, &candle), Some((sz(1.0), px(100.05), false, OrderStatus::Filled)));
    let far = Action::StopMarket { side: Side::Buy, trigger: px(106.0), sz: sz(1.0) };
    assert_eq!(fill(far, &candle), None);
    let sell = Action::StopMarket { side: Side::Sell, trigger: px(96.0), sz: sz(1.0) };
    assert_eq!(fill(sell, &candle), Some((sz(1.0), px(95.952), false, OrderStatus::Filled)));
    let sell_far = Action::StopMarket { side: Side::Sell, trigger: px(94.0), sz: sz(1.0) };
    assert_eq!(fill(sell_far, &candle), None);
}

#[test]
fn stop_limit_needs_trigger_and_limit() {
    let candle = create_test_candle(1000, 100.0, 105.0, 95.0, 102.0);
    let both = Action::StopLimit {
        side: Side::Buy,
        trigger: px(104.0),
        px: px(99.0),
        sz: sz(1.0),
        tif: Tif::Gtc,
    };
    assert_eq!(fill(both, &candle), Some((sz(1.0), px(99.0), true, OrderStatus::Filled)));
    let no_trigger = Action::StopLimit {
        side: Side::Buy,
        trigger: px(106.0),
        px: px(99.0),
        sz: sz(1.0),
        tif: Tif::Gtc,
    };
    assert_eq!(fill(no_trigger, &candle), None);
    let no_limit = Action::StopLimit {
        side: Side::Buy,
        trigger: px(104.0),
        px: px(94.0),
        sz: sz(1.0),
        tif: Tif::Gtc,
    };
    assert_eq!(fill(no_limit, &candle), None);
}

#[test]
fn take_orders_trigger_in_the_favourable_direction() {
    let candle = create_test_candle(1000, 100.0, 105.0, 95.0, 102.0);
    let buy = Action::TakeMarket { side: Side::Buy, trigger: px(96.0), sz: sz(1.0) };
    // The lower of open and trigger, and the slippage that a buy pays.
    assert_eq!(fill(buy, &candle), Some((sz(1.0), px(96.048), false, OrderStatus::Filled)));
    let sell = Action::TakeMarket { side: Side::Sell, trigger: px(104.0), sz: sz(1.0) };
    // The higher of open and trigger, less the slippage that a sell gives up.
    assert_eq!(fill(sell, &candle), Some((sz(1.0), px(103.948), false, OrderStatus::Filled)));
    let not_reached = Action::TakeMarket { side: Side::Buy, trigger: px(94.0), sz: sz(1.0) };
    assert_eq!(fill(not_reached, &candle), None);

    let take_limit = Action::TakeLimit {
        side: Side::Buy,
        trigger: px(96.0),
        px: px(104.0),
        sz: sz(1.0),
        tif: Tif::Gtc,
    };
    // Once set off it is a limit buy: the open is below its price, so it
    // fills at the open and takes.
    assert_eq!(fill(take_limit, &candle), Some((sz(1.0), px(100.0), false, OrderStatus::Filled)));
    let take_limit_resting = Action::TakeLimit {
        side: Side::Buy,
        trigger: px(96.0),
        px: px(99.0),
        sz: sz(1.0),
        tif: Tif::Gtc,
    };
    assert_eq!(
        fill(take_limit_resting, &candle),
        Some((sz(1.0), px(99.0), true, OrderStatus::Filled))
    );
    let take_limit_sell = Action::TakeLimit {
        side: Side::Sell,
        trigger: px(104.0),
        px: px(103.0),
        sz: sz(1.0),
        tif: Tif::Gtc,
    };
    assert_eq!(
        fill(take_limit_sell, &candle),
        Some((sz(1.0), px(103.0), true, OrderStatus::Filled))
    );
    let take_limit_untouched = Action::TakeLimit {
        side: Side::Sell,
        trigger: px(104.0),
        px: px(106.0),
        sz: sz(1.0),
        tif: Tif::Gtc,
    };
    assert_eq!(fill(take_limit_untouched, &candle), None);
}

#[test]
fn take_market_orders_pay_slippage_on_their_own_side() {
    let candle = create_test_candle(1000, 100.0, 105.0, 95.0, 102.0);
    let fee_calc = FeeCalculator::new(0, 0, 100);
    let portfolio = Portfolio::new(1_000_000_000_000, fee_calc.clone());

    let mut buy = order(Action::TakeMarket { side: Side::Buy, trigger: px(98.0), sz: sz(1.0) });
    assert!(can_process(&buy, &candle, &fee_calc));
    let got = process_order_fill(&mut buy, &candle, &portfolio, &fee_calc).unwrap();
    assert_eq!(got.fill_price, 9_898_000_000);
    assert!(!got.is_maker);

    let mut sell = order(Action::TakeMarket { side: Side::Sell, trigger: px(102.0), sz: sz(1.0) });
    let got = process_order_fill(&mut sell, &candle, &portfolio, &fee_calc).unwrap();
    assert_eq!(got.fill_price, 10_098_000_000);

    // The open is the better price where it lies beyond the trigger.
    let mut gapped = order(Action::TakeMarket { side: Side::Buy, trigger: px(101.0), sz: sz(1.0) });
    let got = process_order_fill(&mut gapped, &candle, &portfolio, &fee_calc).unwrap();
    assert_eq!(got.fill_price, 10_100_000_000);
}

#[test]
fn scale_and_twap_orders_never_fill() {
    let candle = create_test_candle(1000, 100.0, 105.0, 95.0, 102.0);
    let scale = Action::Scale {
        side: Side::Buy,
        from_px: px(90.0),
        to_px: px(110.0),
        steps: 5,
        total_sz: sz(1.0),
    };
    assert_eq!(fill(scale, &candle), None);
    let twap = Action::Twap { side: Side::Sell, total_sz: sz(1.0), duration_s: 60 };
    assert_eq!(fill(twap, &candle), None);
}

#[test]
fn slippage_that_leaves_no_price_is_told_before_the_fill() {
    let candle = create_test_candle(1000, 100.0, 105.0, 95.0, 102.0);
    let steep = FeeCalculator::new(0, 0, 20_000);
    let sell = order(Action::Market { side: Side::Sell, sz: sz(1.0) });
    assert!(!can_process(&sell, &candle, &steep));
    let buy = order(Action::Market { side: Side::Buy, sz: sz(1.0) });
    assert!(can_process(&buy, &candle, &steep));
    let resting = limit(Side::Sell, 104.0, Tif::Gtc, false);
    assert!(can_process(&resting, &candle, &steep));
}

#[test]
fn an_order_that_has_come_to_its_end_gets_nothing_from_a_candle() {
    let candle = create_test_candle(1000, 100.0, 105.0, 95.0, 102.0);
    let fee_calc = FeeCalculator::new(-1, 10, 5);
    let portfolio = Portfolio::new(1_000_000_000_000, fee_calc.clone());

    for status in [OrderStatus::Filled, OrderStatus::Canceled] {
        let mut market = order(Action::Market { side: Side::Buy, sz: sz(1.0) });
        market.status = status;
        assert!(can_process(&market, &candle, &fee_calc));
        assert_eq!(process_order_fill(&mut market, &candle, &portfolio, &fee_calc), None);
        assert_eq!(market.status, status);
        assert_eq!(market.filled_sz, 0);

        let mut resting = limit(Side::Buy, 99.0, Tif::Ioc, false);
        resting.status = status;
        assert_eq!(process_order_fill(&mut resting, &candle, &portfolio, &fee_calc), None);
    }
}

#[test]
fn a_candle_fills_what_is_open_of_an_order() {
    let candle = create_test_candle(1000, 100.0, 105.0, 95.0, 102.0);
    let fee_calc = FeeCalculator::new(-1, 10, 5);
    let portfolio = Portfolio::new(1_000_000_000_000, fee_calc.clone());

    let mut partly = order(Action::Market { side: Side::Sell, sz: sz(1.0) });
    partly.filled_sz = sz(0.25);
    partly.status = OrderStatus::PartiallyFilled;
    let got = process_order_fill(&mut partly, &candle, &portfolio, &fee_calc).unwrap();
    assert_eq!(got.filled_sz, sz(0.75));
    assert_eq!(got.order_status, OrderStatus::Filled);

    let mut resting = limit(Side::Sell, 104.0, Tif::Gtc, false);
    resting.filled_sz = sz(0.4);
    resting.status = OrderStatus::PartiallyFilled;
    let got = process_order_fill(&mut resting, &candle, &portfolio, &fee_calc).unwrap();
    assert_eq!(got.filled_sz, sz(0.6));
    assert_eq!(got.fill_price, px(104.0));
    assert!(got.is_maker);

    // Nothing is open: nothing happens, also where the order would be canceled.
    let mut nothing = limit(Side::Buy, 90.0, Tif::Ioc, false);
    nothing.filled_sz = sz(1.0);
    nothing.status = OrderStatus::PartiallyFilled;
    assert_eq!(process_order_fill(&mut nothing, &candle, &portfolio, &fee_calc), None);
    let mut empty = order(Action::Market { side: Side::Buy, sz: 0 });
    assert_eq!(process_order_fill(&mut empty, &candle, &portfolio, &fee_calc), None);
}

#[test]
fn a_stop_or_take_order_with_a_limit_is_a_limit_order_once_set_off() {
    let candle = create_test_candle(1000, 100.0, 105.0, 95.0, 102.0);
    // Set off at 104, and the candle does not come down to 94.
    let stop = |tif| Action::StopLimit {
        side: Side::Buy,
        trigger: px(104.0),
        px: px(94.0),
        sz: sz(1.0),
        tif,
    };
    assert_eq!(fill(stop(Tif::Gtc), &candle), None);
    assert_eq!(fill(stop(Tif::Ioc), &candle), Some((0, px(94.0), false, OrderStatus::Canceled)));
    // Not set off: it waits, whatever its time in force.
    let waiting = Action::StopLimit {
        side: Side::Buy,
        trigger: px(106.0),
        px: px(94.0),
        sz: sz(1.0),
        tif: Tif::Ioc,
    };
    assert_eq!(fill(waiting, &candle), None);

    let take = |tif| Action::TakeLimit {
        side: Side::Sell,
        trigger: px(104.0),
        px: px(106.0),
        sz: sz(1.0),
        tif,
    };
    assert_eq!(fill(take(Tif::Gtc), &candle), None);
    assert_eq!(fill(take(Tif::Ioc), &candle), Some((0, px(106.0), false, OrderStatus::Canceled)));
    // One that adds liquidity only is canceled where the candle goes through its price.
    let passive = Action::TakeLimit {
        side: Side::Sell,
        trigger: px(104.0),
        px: px(103.0),
        sz: sz(1.0),
        tif: Tif::Alo,
    };
    assert_eq!(fill(passive, &candle), Some((0, px(103.0), false, OrderStatus::Canceled)));
}

#[test]
fn an_order_that_adds_liquidity_only_by_its_time_in_force_does_not_cross() {
    let candle = create_test_candle(1000, 100.0, 105.0, 95.0, 102.0);
    let by_tif = limit(Side::Buy, 98.0, Tif::Alo, false).action;
    assert_eq!(fill(by_tif, &candle), Some((0, px(98.0), false, OrderStatus::Canceled)));
    let at_low = limit(Side::Buy, 95.0, Tif::Alo, false).action;
    assert_eq!(fill(at_low, &candle), Some((sz(1.0), px(95.0), true, OrderStatus::Filled)));
}
