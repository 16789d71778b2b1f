//! A run whose strategy buys once.
//!
//! The strategy proposes one action whenever it is asked for an entry, and
//! nothing when it is asked for an exit. For a market purchase that the
//! first book can fill whole, the run then holds exactly one trade, however
//! many events follow.

use crate::fixed::{mul_div, notional_of, MAX_NOTIONAL, SCALE};
use crate::orderbook::{best_first, lemma_sweep_filled, market_fill, total_size, OrderBook};
use crate::orders::types::{Action, Order, OrderStatus, Side, TradeView};
use crate::perps::engine::{lemma_fill_moves_cash, swap_remove_all, Env, RunModel, Tick};
use crate::perps::execution::{market_execution, order_after};
use crate::perps::trade_utils::side_name;
use crate::portfolio::{has_position, lemma_booked, CASH_LIMIT};
use vstd::prelude::*;

verus! {

/// The state after one event at `ts_ms`: the tick begins with the book of
/// `env`, the strategy proposes `action` where it is asked for an entry, and
/// the tick ends. `None` where the ledger's range is left.
pub open spec fn ticked(m: RunModel, env: Env, ts_ms: u64, action: Action) -> Option<RunModel> {
    let begun = m.begun(env, ts_ms, env.book.mid_price_of());
    let decided = if begun.tick == Tick::Entry {
        begun.proposed(action)
    } else {
        begun
    };
    decided.finished(env)
}

/// The setting of a run with another book.
pub open spec fn at_book(env: Env, book: OrderBook) -> Env {
    Env { book, ..env }
}

/// A market purchase of `size`.
pub open spec fn purchase(size: u64) -> Action {
    Action::Market { side: Side::Buy, sz: size }
}

/// The price at which a market purchase of `size` fills against `book`.
pub open spec fn purchase_price(book: OrderBook, size: u64) -> u64 {
    match market_fill(best_first(book.asks(), false), size as nat) {
        Some(fill) => fill.1,
        None => 0,
    }
}

/// The trade of a market purchase of `size` that fills whole at `ts_ms`
/// against the book of `env`, with the taker's fee.
pub open spec fn purchase_trade(env: Env, ts_ms: u64, size: u64, order_id: u64) -> TradeView {
    let price = purchase_price(env.book, size);
    TradeView {
        timestamp: ts_ms,
        symbol: env.coin,
        side: "BUY"@,
        size,
        price,
        fee: env.fee_calc.fee_of(notional_of(size as int, price as int), false) as i128,
        order_id,
    }
}

/// What a purchase costs: the notional at the fill price and the taker's
/// fee on it.
pub open spec fn purchase_cost(env: Env, size: u64) -> int {
    let value = notional_of(size as int, purchase_price(env.book, size) as int);
    value + env.fee_calc.fee_of(value, false)
}

/// A run that has not traded and waits for its first decision: it holds
/// nothing and no order, has never decided, and has seen the events that the
/// strategy looks back on.
pub open spec fn untraded(m: RunModel, env: Env) -> bool {
    &&& m.holdings.wf()
    &&& m.holdings.positions.len() == 0
    &&& m.active.len() == 0
    &&& m.trades.len() == 0
    &&& m.last_trade_ts is None
    &&& m.last_evaluated_price == 0
    &&& m.ticks >= env.max_lookback
    &&& m.next_order_id < u64::MAX
}

/// At the first event of a run that has not traded, a market purchase that
/// the asks can fill whole is booked as one trade at that event's time, at
/// the price of the sweep and with the taker's fee; the cash falls by
/// notional and fee, the position is the size bought, and no order is left.
pub proof fn lemma_first_purchase(start: RunModel, env: Env, ts_ms: u64, size: u64)
    requires
        untraded(start, env),
        env.funding.points().len() == 0,
        env.book.mid_price_of() is Some,
        0 < size <= i64::MAX,
        size <= total_size(env.book.asks()),
        -CASH_LIMIT <= start.holdings.cash - purchase_cost(env, size) <= CASH_LIMIT,
    ensures
        ticked(start, env, ts_ms, purchase(size)) is Some,
        ({
            let after = ticked(start, env, ts_ms, purchase(size)).unwrap();
            &&& after.trades == seq![purchase_trade(env, ts_ms, size, start.next_order_id)]
            &&& after.active.len() == 0
            &&& after.holdings.wf()
            &&& after.holdings.cash == start.holdings.cash - purchase_cost(env, size)
            &&& after.holdings.size_of(env.coin) == size
        }),
{
    reveal_strlit("BUY");
    reveal_strlit("SELL");
    let action = purchase(size);
    let begun = start.begun(env, ts_ms, env.book.mid_price_of());
    assert(!has_position(start.holdings.positions, env.coin));
    assert(begun.tick == Tick::Entry);
    let decided = begun.proposed(action);
    let order = Order {
        id: start.next_order_id,
        action,
        created_at: begun.bar.time_open,
        filled_sz: 0,
        status: OrderStatus::Pending,
    };
    assert(begun.active =~= Seq::<Order>::empty());
    assert(begun.accepts(action));
    assert(decided.active =~= seq![order]);

    // The order fills whole.
    let walk = best_first(env.book.asks(), false);
    lemma_sweep_filled(walk, size as nat);
    let fill = market_execution(order, env.book).unwrap();
    assert(fill.filled_sz == size);
    assert(fill.fill_price == purchase_price(env.book, size));
    assert(fill.order_status == OrderStatus::Filled);
    assert(!fill.is_maker);

    // The trade is booked.
    let value = notional_of(size as int, fill.fill_price as int);
    crate::fixed::lemma_mul_le(size as int, fill.fill_price as int, u64::MAX as int, u64::MAX as int);
    assert(0xFFFF_FFFF_FFFF_FFFFint * 0xFFFF_FFFF_FFFF_FFFFint / 100_000_000 == MAX_NOTIONAL as int);
    env.fee_calc.lemma_fee_fits(value, false);
    let none = decided.orders_done(env, true, 0).unwrap();
    assert(none.0 == decided);
    let stored = RunModel { active: decided.active.update(0, order_after(order, fill)), ..decided };
    let trade = stored.trade_for(env, order.id, Side::Buy, fill);
    assert(trade == purchase_trade(env, ts_ms, size, start.next_order_id));
    assert(stored.holdings.can_book(trade, fill.fill_price));
    let booked = stored.settled(env, order.id, Side::Buy, fill).unwrap();
    lemma_fill_moves_cash(stored, env, order.id, Side::Buy, fill);
    lemma_booked(stored.holdings, trade, fill.fill_price);
    assert(decided.orders_done(env, true, 1) == Some((booked, seq![0usize]))) by {
        assert(Seq::<usize>::empty().push(0usize) =~= seq![0usize]);
    }
    let left = booked.without(seq![0usize]);
    assert(left.active =~= Seq::<Order>::empty()) by {
        let s = booked.active;
        let removed = seq![0usize];
        assert(removed.drop_last() =~= Seq::<usize>::empty());
        assert(s.update(0, s.last()).drop_last() =~= Seq::<Order>::empty());
        assert(swap_remove_all(s.update(0, s.last()).drop_last(), removed.drop_last())
            =~= Seq::<Order>::empty());
    }
    assert(decided.after_markets(env) == Some(left));
    assert(left.after_limits(env) == Some(left)) by {
        assert(left.orders_done(env, false, 0) == Some((left, Seq::<usize>::empty())));
        assert(swap_remove_all(left.active, Seq::<usize>::empty()) == left.active);
    }
    assert(booked.trades =~= seq![trade]);
    lemma_unfunded(left, env);
}

/// Without a funding point no payment is made: funding leaves the holdings
/// and the trades as they are.
pub proof fn lemma_unfunded(m: RunModel, env: Env)
    requires
        m.holdings.wf(),
        env.funding.points().len() == 0,
    ensures
        m.funded(env) is Some,
        m.funded(env).unwrap().holdings == m.holdings,
        m.funded(env).unwrap().trades == m.trades,
        m.funded(env).unwrap().active == m.active,
        m.funded(env).unwrap().sampled(env).holdings == m.holdings,
        m.funded(env).unwrap().sampled(env).trades == m.trades,
        m.funded(env).unwrap().sampled(env).active == m.active,
{
    assert(env.funding.rate_of(m.tick_ts) is None);
    assert(m.funding_payment(env) == 0);
}

/// An event that finds a position and no active order changes neither the
/// trades nor the holdings, whatever the strategy would propose for an
/// entry: it is not asked for one.
pub proof fn lemma_holding_tick(m: RunModel, env: Env, ts_ms: u64, action: Action)
    requires
        m.holdings.wf(),
        m.holdings.size_of(env.coin) != 0,
        m.active.len() == 0,
        env.funding.points().len() == 0,
    ensures
        ticked(m, env, ts_ms, action) is Some,
        ticked(m, env, ts_ms, action).unwrap().trades == m.trades,
        ticked(m, env, ts_ms, action).unwrap().holdings == m.holdings,
        ticked(m, env, ts_ms, action).unwrap().active.len() == 0,
{
    let begun = m.begun(env, ts_ms, env.book.mid_price_of());
    assert(begun.tick != Tick::Entry);
    assert(begun.active =~= Seq::<Order>::empty());
    if begun.tick != Tick::Skipped {
        assert(begun.orders_done(env, true, 0) == Some((begun, Seq::<usize>::empty())));
        assert(swap_remove_all(begun.active, Seq::<usize>::empty()) == begun.active);
        assert(begun.after_markets(env) == Some(begun));
        assert(begun.orders_done(env, false, 0) == Some((begun, Seq::<usize>::empty())));
        assert(begun.after_limits(env) == Some(begun));
        lemma_unfunded(begun, env);
    }
}

/// A run over three events whose strategy proposes a market purchase
/// whenever it is flat, without a funding point: where the asks of the first
/// book can fill the purchase whole, the run ends with exactly one trade, a
/// purchase of that size at the first event's time, at the price of the sweep
/// and with the taker's fee. The cash has fallen by exactly the notional at
/// that price and the fee, and the equity at a closing price is that cash
/// and the size bought at the closing price; for a run that began with its
/// initial capital in cash, the return is what the purchase is worth at the
/// closing price less what it cost.
pub proof fn lemma_one_purchase_in_three_events(
    start: RunModel,
    env: Env,
    books: (OrderBook, OrderBook, OrderBook),
    times: (u64, u64, u64),
    size: u64,
    closing_price: u64,
)
    requires
        untraded(start, env),
        env.funding.points().len() == 0,
        books.0.mid_price_of() is Some,
        0 < size <= i64::MAX,
        size <= total_size(books.0.asks()),
        -CASH_LIMIT <= start.holdings.cash - purchase_cost(at_book(env, books.0), size)
            <= CASH_LIMIT,
    ensures
        ({
            let first = ticked(start, at_book(env, books.0), times.0, purchase(size));
            let second = ticked(first.unwrap(), at_book(env, books.1), times.1, purchase(size));
            let third = ticked(second.unwrap(), at_book(env, books.2), times.2, purchase(size));
            let cost = purchase_cost(at_book(env, books.0), size);
            &&& first is Some && second is Some && third is Some
            &&& third.unwrap().trades == seq![
                purchase_trade(at_book(env, books.0), times.0, size, start.next_order_id),
            ]
            &&& third.unwrap().trades[0].side == side_name(Side::Buy)
            &&& third.unwrap().active.len() == 0
            &&& third.unwrap().holdings.cash == start.holdings.cash - cost
            &&& third.unwrap().holdings.size_of(env.coin) == size
            &&& third.unwrap().holdings.equity_of(env.coin, closing_price) == start.holdings.cash
                - cost + notional_of(size as int, closing_price as int)
            &&& start.holdings.cash == env.initial_capital ==> third.unwrap().holdings.equity_of(
                env.coin,
                closing_price,
            ) - env.initial_capital == notional_of(size as int, closing_price as int) - cost
        }),
{
    reveal_strlit("BUY");
    let action = purchase(size);
    let env1 = at_book(env, books.0);
    let env2 = at_book(env, books.1);
    let env3 = at_book(env, books.2);
    lemma_first_purchase(start, env1, times.0, size);
    let first = ticked(start, env1, times.0, action).unwrap();
    lemma_holding_tick(first, env2, times.1, action);
    let second = ticked(first, env2, times.1, action).unwrap();
    lemma_holding_tick(second, env3, times.2, action);
    let third = ticked(second, env3, times.2, action).unwrap();
    assert(third.holdings.value_of(env.coin, closing_price) == notional_of(
        size as int,
        closing_price as int,
    )) by {
        crate::fixed::lemma_mul_le(0, 0, size as int, closing_price as int);
        assert(mul_div(size as int, closing_price as int, SCALE as int) == notional_of(
            size as int,
            closing_price as int,
        ));
    }
}

} // verus!
