use hl_backtest::orders::types::{Action, Order, OrderStatus, Side, Tif};
use hl_backtest::perps::trade_utils::extract_side_from_action;

fn px(x: f64) -> u64 {
    (x * 1e8) as u64
}

fn sz(x: f64) -> u64 {
    (x * 1e8).round() as u64
}

fn limit_order(id: u64, side: Side, price: f64, size: f64) -> Order {
    Order {
        id,
        action: Action::Limit {
            side,
            px: px(price),
            sz: sz(size),
            tif: Tif::Gtc,
            post_only: false,
            reduce_only: false,
        },
        created_at: 1000,
        filled_sz: 0,
        status: OrderStatus::Pending,
    }
}

#[test]
fn test_order_deduplication_logic() {
    let order1 = limit_order(1, Side::Buy, 50000.0, 0.5);
    let order2 = limit_order(2, Side::Buy, 50000.009, 0.5000001);

    let side1 = extract_side_from_action(&order1.action).unwrap();
    let side2 = extract_side_from_action(&order2.action).unwrap();
    assert_eq!(side1, side2);

    if let (Action::Limit { px: px1, sz: sz1, .. }, Action::Limit { px: px2, sz: sz2, .. }) =
        (&order1.action, &order2.action)
    {
        assert_eq!(side1, side2);
        assert!(px1.abs_diff(*px2) < px(1e-2), "Price difference {} should be < 0.01", px1.abs_diff(*px2));
        assert!(sz1.abs_diff(*sz2) < sz(1e-6), "Size difference {} should be < 1e-6", sz1.abs_diff(*sz2));
    }
}

#[test]
fn test_order_deduplication_different_prices() {
    let order1 = limit_order(1, Side::Buy, 50000.0, 0.5);
    let order2 = limit_order(2, Side::Buy, 50010.0, 0.5);

    if let (Action::Limit { px: px1, .. }, Action::Limit { px: px2, .. }) =
        (&order1.action, &order2.action)
    {
        assert!(px1.abs_diff(*px2) >= px(1e-2));
    }
}

#[test]
fn test_order_deduplication_market_orders() {
    let order1 = Order {
        id: 1,
        action: Action::Market { side: Side::Buy, sz: sz(1.0) },
        created_at: 1000,
        filled_sz: 0,
        status: OrderStatus::Pending,
    };
    let order2 = Order {
        id: 2,
        action: Action::Market { side: Side::Buy, sz: sz(1.0000001) },
        created_at: 1000,
        filled_sz: 0,
        status: OrderStatus::Pending,
    };

    if let (Action::Market { side: s1, sz: sz1 }, Action::Market { side: s2, sz: sz2 }) =
        (&order1.action, &order2.action)
    {
        assert_eq!(s1, s2);
        assert!(sz1.abs_diff(*sz2) < sz(1e-6));
    }
}

#[test]
fn test_order_deduplication_different_sides() {
    let order1 = limit_order(1, Side::Buy, 50000.0, 0.5);
    let order2 = limit_order(2, Side::Sell, 50000.0, 0.5);

    if let (Action::Limit { side: s1, .. }, Action::Limit { side: s2, .. }) =
        (&order1.action, &order2.action)
    {
        assert_ne!(s1, s2);
    }
}
