use hl_backtest::indicators2::IndicatorRegistry;
use hl_backtest::ir::types::Param;

fn param(name: &str, value: f64) -> Param {
    Param { name: name.to_string(), value: (value * 1e8).round() as i128 }
}

#[test]
fn test_indicator_registry_lookback() {
    let registry = IndicatorRegistry::new();

    let mut params = vec![param("length", 20.0)];
    let lookback = registry.get_lookback("SMA", &params).unwrap();
    assert_eq!(lookback, 20);

    params.clear();
    params.push(param("length", 14.0));
    let lookback = registry.get_lookback("RSI", &params).unwrap();
    assert_eq!(lookback, 15);

    params.clear();
    params.push(param("fast", 12.0));
    params.push(param("slow", 26.0));
    params.push(param("signal", 9.0));
    let lookback = registry.get_lookback("MACD", &params).unwrap();
    assert_eq!(lookback, 26 + 9 * 3);
}
