use hl_backtest::data::types::Candle;

fn px(x: f64) -> u64 {
    (x * 1e8) as u64
}

fn create_test_candle(price: u64) -> Candle {
    Candle {
        time_open: 1000,
        time_close: 1000,
        coin: "BTC".to_string(),
        interval: "1h".to_string(),
        open: price,
        high: price,
        low: price,
        close: price,
        volume: 0,
        num_trades: 0,
    }
}

#[test]
fn test_invalid_candle_price_zero() {
    let candle = create_test_candle(px(0.0));
    assert_eq!(candle.close, 0);
    assert!(!(candle.close > 0));
}

#[test]
fn test_valid_candle_price() {
    let candle = create_test_candle(px(50000.0));
    assert_eq!(candle.close, px(50000.0));
    assert!(candle.close > 0);
}

#[test]
fn test_order_size_validation_zero_cash() {
    assert!(f64::EPSILON > 0.0);
}

#[test]
fn test_order_size_validation_negative_cash() {
    let negative_cash = -100.0;
    assert!(negative_cash < 0.0);
}

#[test]
fn test_limit_price_validation() {
    let invalid_prices: Vec<f64> = vec![0.0, -1.0, f64::NAN, f64::INFINITY, f64::NEG_INFINITY];

    for price in invalid_prices {
        if price.is_nan() || price.is_infinite() || price <= 0.0 {
            assert!(price.is_nan() || price.is_infinite() || price <= 0.0);
        }
    }
}

#[test]
fn test_order_size_nan_validation() {
    assert!(f64::NAN.is_nan());
    assert!(!50000.0_f64.is_nan());
}

#[test]
fn test_order_size_infinite_validation() {
    assert!(f64::INFINITY.is_infinite());
    assert!(f64::NEG_INFINITY.is_infinite());
    assert!(!50000.0_f64.is_infinite());
}

#[test]
fn test_invalid_candle_price_negative() {
    // A price below zero is no price: it comes out as zero.
    let candle = create_test_candle(px(-100.0));
    assert_eq!(candle.close, 0);
    assert!(!(candle.close > 0));
}
