use hl_backtest::indicators2::values::OutputValue;
use hl_backtest::ir::types::Param;
use hl_backtest::strategy::{
    compile_strategy, Action, ComparisonOp, Condition, CrossDirection, EvalState, IndicatorSpec,
    Instrument, Rule, Strategy,
};

fn fixed(x: f64) -> i128 {
    (x * 1e8).round() as i128
}

fn values(pairs: &[(&str, f64)]) -> Vec<OutputValue> {
    pairs.iter().map(|(name, v)| OutputValue { name: name.to_string(), value: fixed(*v) }).collect()
}

fn threshold(indicator: &str, op: ComparisonOp, value: f64) -> Condition {
    Condition::Threshold { indicator: indicator.to_string(), op, value: fixed(value) }
}

fn crossover(direction: CrossDirection) -> Condition {
    Condition::Crossover {
        fast: "fast_ma".to_string(),
        slow: "slow_ma".to_string(),
        direction,
    }
}

fn create_test_strategy() -> Strategy {
    Strategy {
        name: "Test RSI Strategy".to_string(),
        instrument: Instrument {
            symbol: "BTCUSD".to_string(),
            coin: "BTC".to_string(),
            venue: "HL".to_string(),
            timeframe: "1h".to_string(),
        },
        indicators: vec![IndicatorSpec {
            id: "rsi_14".to_string(),
            indicator_type: "RSI".to_string(),
            params: vec![Param { name: "period".to_string(), value: fixed(14.0) }],
            outputs: vec!["value".to_string()],
        }],
        entry: Rule {
            condition: threshold("rsi_14", ComparisonOp::Lt, 30.0),
            action: Action::Buy { size_pct: fixed(100.0) },
        },
        exit: Some(Rule {
            condition: threshold("rsi_14", ComparisonOp::Gt, 70.0),
            action: Action::Close,
        }),
    }
}

#[test]
fn test_strategy_creation() {
    let strategy = create_test_strategy();
    assert_eq!(strategy.name, "Test RSI Strategy");
    assert_eq!(strategy.instrument.coin, "BTC");
    assert_eq!(strategy.indicators.len(), 1);
    assert!(strategy.exit.is_some());
}

#[test]
fn test_compile_strategy() {
    let strategy = create_test_strategy();
    let compiled = compile_strategy(strategy).unwrap();

    assert_eq!(compiled.instrument.coin, "BTC");
    assert_eq!(compiled.indicators.len(), 1);
    assert!(compiled.indicators[0].lookback > 0);
    assert_eq!(compiled.indicators[0].lookback, 15);
    assert_eq!(compiled.indicators[0].id, "rsi_14");
    assert!(matches!(compiled.entry.action, Action::Buy { .. }));
}

#[test]
fn test_eval_state_threshold_lt() {
    let state = EvalState::new();
    let values = values(&[("rsi", 25.0)]);
    assert!(state.evaluate(&threshold("rsi", ComparisonOp::Lt, 30.0), &values));
}

#[test]
fn test_eval_state_threshold_gt() {
    let state = EvalState::new();
    let values = values(&[("rsi", 75.0)]);
    assert!(state.evaluate(&threshold("rsi", ComparisonOp::Gt, 70.0), &values));
}

#[test]
fn test_eval_state_threshold_eq() {
    let state = EvalState::new();
    let values = values(&[("rsi", 50.0)]);
    assert!(state.evaluate(&threshold("rsi", ComparisonOp::Eq, 50.0), &values));
}

#[test]
fn test_eval_state_threshold_missing_indicator() {
    let state = EvalState::new();
    let values = values(&[]);
    assert!(!state.evaluate(&threshold("rsi", ComparisonOp::Lt, 30.0), &values));
}

#[test]
fn test_eval_state_crossover_above() {
    let mut state = EvalState::new();
    state.update(values(&[("fast_ma", 99.0), ("slow_ma", 100.0)]));
    let curr_values = values(&[("fast_ma", 101.0), ("slow_ma", 100.0)]);
    assert!(state.evaluate(&crossover(CrossDirection::Above), &curr_values));
}

#[test]
fn test_eval_state_crossover_below() {
    let mut state = EvalState::new();
    state.update(values(&[("fast_ma", 101.0), ("slow_ma", 100.0)]));
    let curr_values = values(&[("fast_ma", 99.0), ("slow_ma", 100.0)]);
    assert!(state.evaluate(&crossover(CrossDirection::Below), &curr_values));
}

#[test]
fn test_eval_state_crossover_no_cross() {
    let mut state = EvalState::new();
    state.update(values(&[("fast_ma", 101.0), ("slow_ma", 100.0)]));
    let curr_values = values(&[("fast_ma", 102.0), ("slow_ma", 100.0)]);
    assert!(!state.evaluate(&crossover(CrossDirection::Above), &curr_values));
}

#[test]
fn test_eval_state_and_condition() {
    let state = EvalState::new();
    let values = values(&[("rsi", 25.0), ("macd", 0.5)]);
    let condition = Condition::And {
        conditions: vec![
            threshold("rsi", ComparisonOp::Lt, 30.0),
            threshold("macd", ComparisonOp::Gt, 0.0),
        ],
    };
    assert!(state.evaluate(&condition, &values));
}

#[test]
fn test_eval_state_and_condition_one_false() {
    let state = EvalState::new();
    let values = values(&[("rsi", 25.0), ("macd", -0.5)]);
    let condition = Condition::And {
        conditions: vec![
            threshold("rsi", ComparisonOp::Lt, 30.0),
            threshold("macd", ComparisonOp::Gt, 0.0),
        ],
    };
    assert!(!state.evaluate(&condition, &values));
}

#[test]
fn test_eval_state_or_condition() {
    let state = EvalState::new();
    let values = values(&[("rsi", 15.0)]);
    let condition = Condition::Or {
        conditions: vec![
            threshold("rsi", ComparisonOp::Lt, 20.0),
            threshold("rsi", ComparisonOp::Gt, 80.0),
        ],
    };
    assert!(state.evaluate(&condition, &values));
}

#[test]
fn test_eval_state_or_condition_all_false() {
    let state = EvalState::new();
    let values = values(&[("rsi", 50.0)]);
    let condition = Condition::Or {
        conditions: vec![
            threshold("rsi", ComparisonOp::Lt, 20.0),
            threshold("rsi", ComparisonOp::Gt, 80.0),
        ],
    };
    assert!(!state.evaluate(&condition, &values));
}

#[test]
fn test_all_comparison_operators() {
    let state = EvalState::new();

    let at_30 = values(&[("x", 30.0)]);
    assert!(state.evaluate(&threshold("x", ComparisonOp::Lte, 30.0), &at_30));
    assert!(state.evaluate(&threshold("x", ComparisonOp::Gte, 30.0), &at_30));

    let at_25 = values(&[("x", 25.0)]);
    assert!(state.evaluate(&threshold("x", ComparisonOp::Ne, 30.0), &at_25));
    assert!(!state.evaluate(&threshold("x", ComparisonOp::Ne, 25.0), &at_25));
    assert!(!state.evaluate(&threshold("x", ComparisonOp::Gte, 30.0), &at_25));
}

#[test]
fn test_threshold_condition() {
    let state = EvalState::new();
    let values = values(&[("rsi", 25.0)]);
    assert!(state.evaluate(&threshold("rsi", ComparisonOp::Lt, 30.0), &values));
}

#[test]
fn test_crossover_above() {
    let mut state = EvalState::new();
    state.update(values(&[("fast_ma", 99.0), ("slow_ma", 100.0)]));
    let curr_values = values(&[("fast_ma", 101.0), ("slow_ma", 100.0)]);
    assert!(state.evaluate(&crossover(CrossDirection::Above), &curr_values));
}

#[test]
fn test_and_condition() {
    let state = EvalState::new();
    let values = values(&[("rsi", 25.0), ("macd", 0.5)]);
    let condition = Condition::And {
        conditions: vec![
            threshold("rsi", ComparisonOp::Lt, 30.0),
            threshold("macd", ComparisonOp::Gt, 0.0),
        ],
    };
    assert!(state.evaluate(&condition, &values));
}

#[test]
fn nested_conditions_and_empty_ones() {
    let state = EvalState::new();
    let values = values(&[("rsi", 25.0)]);
    // No condition to fail: all hold. No condition to hold: none does.
    assert!(state.evaluate(&Condition::And { conditions: vec![] }, &values));
    assert!(!state.evaluate(&Condition::Or { conditions: vec![] }, &values));
    let nested = Condition::Or {
        conditions: vec![
            threshold("rsi", ComparisonOp::Gt, 30.0),
            Condition::And {
                conditions: vec![
                    threshold("rsi", ComparisonOp::Lt, 30.0),
                    Condition::Or { conditions: vec![threshold("rsi", ComparisonOp::Eq, 25.0)] },
                ],
            },
        ],
    };
    assert!(state.evaluate(&nested, &values));
}

#[test]
fn a_crossover_needs_all_four_values() {
    let mut state = EvalState::new();
    let curr_values = values(&[("fast_ma", 101.0), ("slow_ma", 100.0)]);
    assert!(!state.evaluate(&crossover(CrossDirection::Above), &curr_values));
    state.update(values(&[("fast_ma", 100.0)]));
    assert!(!state.evaluate(&crossover(CrossDirection::Above), &curr_values));
    state.update(values(&[("fast_ma", 100.0), ("slow_ma", 100.0)]));
    // Not above before, above now.
    assert!(state.evaluate(&crossover(CrossDirection::Above), &curr_values));
    assert!(!state.evaluate(&crossover(CrossDirection::Below), &curr_values));
}

#[test]
fn a_strategy_with_an_unknown_indicator_does_not_compile() {
    let mut strategy = create_test_strategy();
    strategy.indicators.push(IndicatorSpec {
        id: "x".to_string(),
        indicator_type: "VWAP".to_string(),
        params: vec![],
        outputs: vec![],
    });
    let refused = compile_strategy(strategy).unwrap_err();
    assert_eq!(refused.index, 1);
    assert_eq!(
        refused.cause,
        hl_backtest::indicators2::registry::LookbackError::UnknownIndicator
    );
}
