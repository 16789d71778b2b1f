use hl_backtest::fees::FeeCalculator;
use hl_backtest::orders::types::{Action, OrderStatus, Side, Tif};
use hl_backtest::perps::execution::FillResult;
use hl_backtest::perps::trade_utils::{
    calculate_trade_fee, create_trade_from_fill, extract_side_from_action, side_to_string,
};

fn px(x: f64) -> u64 {
    (x * 1e8) as u64
}

fn sz(x: f64) -> u64 {
    (x * 1e8).round() as u64
}

fn money(x: f64) -> i128 {
    (x * 1e8).round() as i128
}

fn to_f64(x: i128) -> f64 {
    x as f64 / 1e8
}

#[test]
fn test_side_to_string_buy() {
    assert_eq!(side_to_string(Side::Buy), "BUY");
}

#[test]
fn test_side_to_string_sell() {
    assert_eq!(side_to_string(Side::Sell), "SELL");
}

#[test]
fn test_extract_side_from_market_buy() {
    let action = Action::Market { side: Side::Buy, sz: sz(1.0) };
    assert_eq!(extract_side_from_action(&action), Some(Side::Buy));
}

#[test]
fn test_extract_side_from_market_sell() {
    let action = Action::Market { side: Side::Sell, sz: sz(1.0) };
    assert_eq!(extract_side_from_action(&action), Some(Side::Sell));
}

#[test]
fn test_extract_side_from_limit_buy() {
    let action = Action::Limit {
        side: Side::Buy,
        px: px(50000.0),
        sz: sz(0.5),
        tif: Tif::Gtc,
        post_only: false,
        reduce_only: false,
    };
    assert_eq!(extract_side_from_action(&action), Some(Side::Buy));
}

#[test]
fn test_extract_side_from_limit_sell() {
    let action = Action::Limit {
        side: Side::Sell,
        px: px(50000.0),
        sz: sz(0.5),
        tif: Tif::Gtc,
        post_only: false,
        reduce_only: false,
    };
    assert_eq!(extract_side_from_action(&action), Some(Side::Sell));
}

#[test]
fn test_extract_side_from_stop_market_returns_none() {
    let action = Action::StopMarket { side: Side::Buy, trigger: px(50000.0), sz: sz(1.0) };
    assert_eq!(extract_side_from_action(&action), None);
}

#[test]
fn test_create_trade_from_fill() {
    let fill_result = FillResult {
        filled_sz: sz(0.5),
        fill_price: px(50000.0),
        is_maker: true,
        order_status: OrderStatus::Filled,
    };

    let trade = create_trade_from_fill(&fill_result, 123, 1000, "BTC", Side::Buy);

    assert_eq!(trade.order_id, 123);
    assert_eq!(trade.timestamp, 1000);
    assert_eq!(trade.symbol, "BTC");
    assert_eq!(trade.side, "BUY");
    assert_eq!(trade.size, sz(0.5));
    assert_eq!(trade.price, px(50000.0));
    assert_eq!(trade.fee, 0);
}

#[test]
fn test_calculate_trade_fee_maker() {
    let fee_calc = FeeCalculator::new(-1, 10, 5);
    let notional = money(10000.0);
    let fee = calculate_trade_fee(notional, true, &fee_calc);
    // Maker fee: -1 bps of 10000 = -1.0
    assert!((to_f64(fee) - (-1.0)).abs() < 0.01);
    assert_eq!(fee, money(-1.0));
}

#[test]
fn test_calculate_trade_fee_taker() {
    let fee_calc = FeeCalculator::new(-1, 10, 5);
    let notional = money(10000.0);
    let fee = calculate_trade_fee(notional, false, &fee_calc);
    // Taker fee: 10 bps of 10000 = 10.0
    assert!((to_f64(fee) - 10.0).abs() < 0.01);
    assert_eq!(fee, money(10.0));
}

#[test]
fn fee_rounds_towards_zero() {
    let fee_calc = FeeCalculator::new(-3, 3, 0);
    // 3 bps of 0.00009999 is 0.00000002(9997): two units, whatever the sign.
    assert_eq!(fee_calc.calculate_fee(9_999, false), 2);
    assert_eq!(fee_calc.calculate_fee(9_999, true), -2);
    assert_eq!(fee_calc.calculate_fee(-9_999, false), -2);
    assert_eq!(fee_calc.calculate_fee(0, true), 0);
}

#[test]
fn slippage_moves_the_price_against_the_order() {
    let fee_calc = FeeCalculator::new(-1, 10, 5);
    assert!(fee_calc.can_apply_slippage(px(100.0), true));
    assert!(fee_calc.can_apply_slippage(px(100.0), false));
    assert_eq!(fee_calc.apply_slippage(px(100.0), true), px(100.05));
    assert_eq!(fee_calc.apply_slippage(px(100.0), false), px(99.95));
    let none = FeeCalculator::new(0, 0, 0);
    assert_eq!(none.apply_slippage(px(100.0), true), px(100.0));
}

#[test]
fn slippage_that_leaves_no_price_is_told_apart() {
    let steep = FeeCalculator::new(0, 0, 20_000);
    assert!(!steep.can_apply_slippage(px(100.0), false));
    assert!(steep.can_apply_slippage(px(100.0), true));
    assert_eq!(steep.apply_slippage(px(100.0), true), px(300.0));
    assert!(!steep.can_apply_slippage(u64::MAX, true));
}
