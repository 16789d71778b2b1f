//! The simulation driver: replays order-book events in time order, gates the
//! strategy's decisions, executes orders, applies funding and samples equity.
//!
//! The driver takes one event at a time. `begin_tick` rebuilds the book and
//! says whether the strategy is to decide at this tick and on which path;
//! `propose` hands in what it decided; `finish_tick` executes and books.

use crate::data::types::{bar_of, Bar, Candle};
use crate::fees::FeeCalculator;
use crate::fixed::{
    abs_of, fits_money, magnitude, magnitude64, mul_div, mul_div_signed, notional, notional_of,
    SCALE,
};
use crate::ingest::OrderLevel;
use crate::orderbook::{snapshot_side, OrderBook};
use crate::orders::types::{
    live, Action, EquityPoint, Order, OrderStatus, Side, SimConfig, SimResult, Trade, TradeView,
};
use crate::perps::execution::{
    limit_execution, market_execution, order_after, FillResult, PerpsExecution,
};
use crate::perps::funding::FundingSchedule;
use crate::perps::trade_utils::{side_name, side_to_string};
use crate::portfolio::{signed_div, Holdings, Portfolio, CASH_LIMIT};
use vstd::prelude::*;

verus! {

/// Time between two funding payments: eight hours.
pub const FUNDING_INTERVAL_MS: u64 = 28_800_000;

/// Equity is sampled at timestamps that are whole minutes.
pub const EQUITY_RECORDING_INTERVAL_MS: u64 = 60_000;

/// The cooldown between entries where the configuration names none: 15
/// minutes.
pub const DEFAULT_TRADE_COOLDOWN_MS: u64 = 900_000;

/// Two limit prices closer than this (0.01) count as one price.
pub const PRICE_TOLERANCE: u64 = 1_000_000;

/// Two sizes closer than this (0.000001) count as one size.
pub const SIZE_TOLERANCE: u64 = 100;

/// The strategy decides again once the price has moved by more than one part
/// in this many (0.01%).
pub const PRICE_CHANGE_PARTS: u64 = 10_000;

/// Why a run cannot go on.
#[derive(Debug, Clone, Copy, PartialEq, Eq, Structural)]
pub enum EngineError {
    /// A position, the cash or a result left the range that the ledger holds.
    LimitExceeded,
}

/// What the driver asks of the strategy at a tick.
#[derive(Debug, Clone, Copy, PartialEq, Eq, Structural)]
pub enum Tick {
    /// The book gives no price: the tick is passed over.
    Skipped,
    /// The strategy does not decide at this tick.
    Quiet,
    /// The portfolio is flat: the strategy decides on an entry.
    Entry,
    /// The portfolio holds a position: the strategy decides on an exit.
    Exit,
}

/// Book, funding schedule, fee rates and portfolio of one simulation.
#[derive(Debug, Clone)]
pub struct PerpsEngine {
    book: OrderBook,
    funding: FundingSchedule,
    fee_calc: FeeCalculator,
    portfolio: Portfolio,
}

/// What is fixed over a run, and what each tick brings.
pub struct Env {
    pub book: OrderBook,
    pub funding: FundingSchedule,
    pub fee_calc: FeeCalculator,
    pub coin: Seq<char>,
    pub timeframe_ms: u64,
    pub max_lookback: usize,
    pub trade_cooldown_ms: u64,
    pub initial_capital: i128,
}

/// The state of a run.
pub struct RunModel {
    pub holdings: Holdings,
    /// The orders that wait to be filled.
    pub active: Seq<Order>,
    pub trades: Seq<TradeView>,
    pub equity: Seq<EquityPoint>,
    pub next_order_id: u64,
    pub last_trade_ts: Option<u64>,
    pub last_funding_ts: u64,
    /// The price at which the strategy last decided; zero before it ever did.
    pub last_evaluated_price: u64,
    pub prev_candle_close: Option<u64>,
    pub current_candle_start_ts: Option<u64>,
    pub bar: Bar,
    /// The number of events seen.
    pub ticks: usize,
    /// What the current tick asks of the strategy.
    pub tick: Tick,
    pub tick_ts: u64,
    pub tick_price: u64,
}

/// A run of the simulation over a stream of events.
#[derive(Debug, Clone)]
pub struct PerpsRun {
    engine: PerpsEngine,
    coin: String,
    timeframe_ms: u64,
    max_lookback: usize,
    trade_cooldown_ms: u64,
    initial_capital: i128,
    active_orders: Vec<Order>,
    next_order_id: u64,
    trades: Vec<Trade>,
    equity_curve: Vec<EquityPoint>,
    last_funding_ts: u64,
    last_evaluated_price: u64,
    prev_candle_close: Option<u64>,
    current_candle_start_ts: Option<u64>,
    last_trade_ts: Option<u64>,
    candle: Candle,
    ticks: usize,
    tick: Tick,
    tick_ts: u64,
    tick_price: u64,
}

/// The views of a sequence of trades.
pub open spec fn trade_views(trades: Seq<Trade>) -> Seq<TradeView> {
    trades.map_values(|t: Trade| t@)
}

/// The distance between two unsigned numbers.
pub open spec fn distance(a: u64, b: u64) -> int {
    if a >= b {
        a - b
    } else {
        b - a
    }
}

/// Whether the price has moved from `last` by more than 0.01% of `last`, or
/// of one whole unit where `last` is less.
pub open spec fn price_moved(price: u64, last: u64) -> bool {
    distance(price, last) * PRICE_CHANGE_PARTS > if last >= SCALE {
        last as int
    } else {
        SCALE as int
    }
}

/// Whether the cooldown since the last fill is over at `ts_ms`.
pub open spec fn cooled_down(last_trade_ts: Option<u64>, cooldown_ms: u64, ts_ms: u64) -> bool {
    match last_trade_ts {
        Some(last) => ts_ms >= last + cooldown_ms,
        None => true,
    }
}

/// The start of the timeframe bucket that holds `ts_ms`.
pub open spec fn bucket_start(ts_ms: u64, timeframe_ms: u64) -> u64 {
    ((ts_ms / timeframe_ms) * timeframe_ms) as u64
}

/// Whether two actions ask for the same thing: two limit orders on one side
/// whose prices and sizes are within the tolerances, or two market orders on
/// one side whose sizes are.
pub open spec fn duplicates(a: Action, b: Action) -> bool {
    match (a, b) {
        (Action::Limit { side: s1, px: px1, sz: sz1, .. }, Action::Limit { side: s2, px: px2, sz: sz2, .. }) => {
            s1 == s2 && distance(px1, px2) < PRICE_TOLERANCE && distance(sz1, sz2) < SIZE_TOLERANCE
        },
        (Action::Market { side: s1, sz: sz1 }, Action::Market { side: s2, sz: sz2 }) => {
            s1 == s2 && distance(sz1, sz2) < SIZE_TOLERANCE
        },
        _ => false,
    }
}

/// Whether an active order duplicates `action`.
pub open spec fn has_duplicate(active: Seq<Order>, action: Action) -> bool {
    exists|i: int| 0 <= i < active.len() && duplicates((#[trigger] active[i]).action, action)
}

/// Two limit orders on one side that differ by less than 0.01 in price and
/// less than 0.000001 in size are duplicates: while one is active the other
/// is not accepted.
pub proof fn lemma_near_limits_are_duplicates(active: Seq<Order>, i: int, action: Action)
    requires
        0 <= i < active.len(),
        active[i].action is Limit,
        action is Limit,
        active[i].action->Limit_side == action->Limit_side,
        distance(active[i].action->Limit_px, action->Limit_px) < PRICE_TOLERANCE,
        distance(active[i].action->Limit_sz, action->Limit_sz) < SIZE_TOLERANCE,
    ensures
        duplicates(active[i].action, action),
        has_duplicate(active, action),
{
}

/// Two limit orders on one side that differ by less than 0.01 in price and
/// less than 0.000001 in size collapse to one active order: where the first
/// is accepted, the second changes nothing.
pub proof fn lemma_near_limits_collapse(m: RunModel, first: Action, second: Action)
    requires
        m.accepts(first),
        first is Limit,
        second is Limit,
        first->Limit_side == second->Limit_side,
        distance(first->Limit_px, second->Limit_px) < PRICE_TOLERANCE,
        distance(first->Limit_sz, second->Limit_sz) < SIZE_TOLERANCE,
    ensures
        m.proposed(first).active.len() == m.active.len() + 1,
        !m.proposed(first).accepts(second),
        m.proposed(first).proposed(second) == m.proposed(first),
{
    let after = m.proposed(first);
    let last = after.active.len() - 1;
    assert(after.active[last].action == first);
    lemma_near_limits_are_duplicates(after.active, last, second);
}

/// The sequence without the orders at the indices `removed`, taken out from
/// the last index to the first, each by moving the last order into its place.
pub open spec fn swap_remove_all(s: Seq<Order>, removed: Seq<usize>) -> Seq<Order>
    decreases removed.len(),
{
    if removed.len() == 0 {
        s
    } else {
        swap_remove_all(
            s.update(removed.last() as int, s.last()).drop_last(),
            removed.drop_last(),
        )
    }
}

/// The side of a market or limit order.
pub open spec fn traded_side(action: Action) -> Side {
    match action {
        Action::Market { side, .. } => side,
        Action::Limit { side, .. } => side,
        _ => Side::Buy,
    }
}

impl RunModel {
    /// The trade that records a fill of `order_id`.
    pub open spec fn trade_for(
        self,
        env: Env,
        order_id: u64,
        side: Side,
        fill: FillResult,
    ) -> TradeView {
        TradeView {
            timestamp: self.tick_ts,
            symbol: env.coin,
            side: side_name(side),
            size: fill.filled_sz,
            price: fill.fill_price,
            fee: env.fee_calc.fee_of(
                notional_of(fill.filled_sz as int, fill.fill_price as int),
                fill.is_maker,
            ) as i128,
            order_id,
        }
    }

    /// The state after a fill is booked: the trade is recorded with its fee,
    /// the portfolio changed, and the cooldown starts anew. `None` where the
    /// ledger cannot hold the trade.
    pub open spec fn settled(self, env: Env, order_id: u64, side: Side, fill: FillResult) -> Option<
        RunModel,
    > {
        let trade = self.trade_for(env, order_id, side, fill);
        if self.holdings.can_book(trade, fill.fill_price) {
            Some(
                RunModel {
                    holdings: self.holdings.booked(trade, fill.fill_price),
                    trades: self.trades.push(trade),
                    last_trade_ts: Some(self.tick_ts),
                    ..self
                },
            )
        } else {
            None
        }
    }

    /// What an order gets from the book at its turn: a market order is
    /// executed in the turn of the market orders, a limit order in the turn
    /// of the limit orders.
    pub open spec fn attempt(market: bool, order: Order, book: OrderBook) -> Option<FillResult> {
        if market {
            market_execution(order, book)
        } else {
            limit_execution(order, book)
        }
    }

    /// The state after the first `n` active orders had their turn, with the
    /// indices of those that came to their end: they leave the active orders.
    /// What an order gets is recorded in it; a fill is booked as a trade. An
    /// order that is partly filled, or gets nothing, stays.
    pub open spec fn orders_done(self, env: Env, market: bool, n: int) -> Option<
        (RunModel, Seq<usize>),
    >
        decreases n,
    {
        if n <= 0 {
            Some((self, Seq::empty()))
        } else {
            match self.orders_done(env, market, n - 1) {
                None => None,
                Some(done) => {
                    let order = self.active[n - 1];
                    match Self::attempt(market, order, env.book) {
                        None => Some(done),
                        Some(fill) => {
                            let booked = if fill.order_status == OrderStatus::Canceled {
                                Some(done.0)
                            } else {
                                done.0.settled(env, order.id, traded_side(order.action), fill)
                            };
                            let removed = if live(order_after(order, fill)) {
                                done.1
                            } else {
                                done.1.push((n - 1) as usize)
                            };
                            match booked {
                                None => None,
                                Some(next) => Some(
                                    (
                                        RunModel {
                                            active: next.active.update(
                                                n - 1,
                                                order_after(order, fill),
                                            ),
                                            ..next
                                        },
                                        removed,
                                    ),
                                ),
                            }
                        },
                    }
                },
            }
        }
    }

    /// The state after those of the first `n` turns that come before the
    /// first whose fill the ledger cannot hold: where a tick fails, the run
    /// stops there, and the orders that came to their end are still among
    /// the active orders.
    pub open spec fn orders_held(self, env: Env, market: bool, n: int) -> RunModel
        decreases n,
    {
        if n <= 0 {
            self
        } else {
            match self.orders_done(env, market, n) {
                Some(done) => done.0,
                None => self.orders_held(env, market, n - 1),
            }
        }
    }

    /// The state after the first `n` active orders had their turn as market
    /// orders.
    pub open spec fn markets_done(self, env: Env, n: int) -> Option<(RunModel, Seq<usize>)> {
        self.orders_done(env, true, n)
    }

    /// The state after the first `n` active orders had their turn as limit
    /// orders.
    pub open spec fn limits_done(self, env: Env, n: int) -> Option<(RunModel, Seq<usize>)> {
        self.orders_done(env, false, n)
    }

    /// The state without the active orders at `removed`.
    pub open spec fn without(self, removed: Seq<usize>) -> RunModel {
        RunModel { active: swap_remove_all(self.active, removed), ..self }
    }

    /// Whether a funding payment is due at this tick: eight hours have
    /// passed since the last.
    pub open spec fn funding_due(self) -> bool {
        self.tick_ts >= self.last_funding_ts && self.tick_ts - self.last_funding_ts
            >= FUNDING_INTERVAL_MS
    }

    /// The funding payment on the position at this tick: the rate in force
    /// times the position's notional at the tick's price.
    pub open spec fn funding_payment(self, env: Env) -> int {
        let size = self.holdings.size_of(env.coin);
        env.funding.payment_of(
            mul_div(abs_of(size), self.tick_price as int, SCALE as int),
            self.tick_ts,
        )
    }

    /// The cash after funding: a long position pays, a short one receives.
    pub open spec fn cash_after_funding(self, env: Env) -> int {
        let size = self.holdings.size_of(env.coin);
        if size == 0 {
            self.holdings.cash
        } else if size > 0 {
            self.holdings.cash - self.funding_payment(env)
        } else {
            self.holdings.cash + self.funding_payment(env)
        }
    }

    /// The state after funding where it is due. `None` where the payment or
    /// the cash after it leaves the range of the ledger.
    pub open spec fn funded(self, env: Env) -> Option<RunModel> {
        if self.funding_due() {
            if fits_money(self.funding_payment(env)) && -CASH_LIMIT <= self.cash_after_funding(env)
                <= CASH_LIMIT {
                Some(
                    RunModel {
                        holdings: Holdings { cash: self.cash_after_funding(env), ..self.holdings },
                        last_funding_ts: self.tick_ts,
                        ..self
                    },
                )
            } else {
                None
            }
        } else {
            Some(self)
        }
    }

    /// The sample of the portfolio's value at this tick.
    pub open spec fn equity_point(self, env: Env) -> EquityPoint {
        EquityPoint {
            timestamp: self.tick_ts,
            equity: self.holdings.equity_of(env.coin, self.tick_price) as i128,
            cash: self.holdings.cash as i128,
            position_value: self.holdings.value_of(env.coin, self.tick_price) as i128,
        }
    }

    /// The state after the equity is sampled, where the tick falls on a
    /// whole minute.
    pub open spec fn sampled(self, env: Env) -> RunModel {
        if self.tick_ts % EQUITY_RECORDING_INTERVAL_MS == 0 {
            RunModel { equity: self.equity.push(self.equity_point(env)), ..self }
        } else {
            self
        }
    }

    /// The state after the market orders were executed.
    pub open spec fn after_markets(self, env: Env) -> Option<RunModel> {
        match self.markets_done(env, self.active.len() as int) {
            Some(done) => Some(done.0.without(done.1)),
            None => None,
        }
    }

    /// The state after the limit orders were checked.
    pub open spec fn after_limits(self, env: Env) -> Option<RunModel> {
        match self.limits_done(env, self.active.len() as int) {
            Some(done) => Some(done.0.without(done.1)),
            None => None,
        }
    }

    /// The state at the end of a tick: market orders first, then limit
    /// orders, then funding, then the equity sample. A tick that was passed
    /// over changes nothing. `None` where the ledger's range is left.
    pub open spec fn finished(self, env: Env) -> Option<RunModel> {
        if self.tick == Tick::Skipped {
            Some(self)
        } else {
            match self.after_markets(env) {
                None => None,
                Some(a) => match a.after_limits(env) {
                    None => None,
                    Some(b) => match b.funded(env) {
                        None => None,
                        Some(c) => Some(RunModel { tick: Tick::Skipped, ..c.sampled(env) }),
                    },
                },
            }
        }
    }

    /// The state in which a tick that fails leaves the run: the orders had
    /// their turns up to the fill that the ledger cannot hold, or, where the
    /// funding payment is what it cannot hold, all of them.
    pub open spec fn stopped(self, env: Env) -> RunModel {
        match self.after_markets(env) {
            None => self.orders_held(env, true, self.active.len() as int),
            Some(a) => match a.after_limits(env) {
                None => a.orders_held(env, false, a.active.len() as int),
                Some(b) => b,
            },
        }
    }

    /// The candle after a tick at `ts_ms` with `price`: a tick in a new
    /// bucket opens a new candle, every tick widens its range and sets its
    /// close.
    pub open spec fn bar_after(self, env: Env, ts_ms: u64, price: u64) -> Bar {
        let start = bucket_start(ts_ms, env.timeframe_ms);
        let opened = if self.current_candle_start_ts != Some(start) {
            Bar { time_open: start, open: price, high: price, low: price, ..self.bar }
        } else {
            self.bar
        };
        Bar {
            time_close: ts_ms,
            high: if opened.high >= price {
                opened.high
            } else {
                price
            },
            low: if opened.low <= price {
                opened.low
            } else {
                price
            },
            close: price,
            ..opened
        }
    }

    /// The close of the candle before the current one, after a tick at
    /// `ts_ms`.
    pub open spec fn prev_close_after(self, env: Env, ts_ms: u64) -> Option<u64> {
        if self.current_candle_start_ts != Some(bucket_start(ts_ms, env.timeframe_ms))
            && self.current_candle_start_ts is Some && self.bar.close > 0 {
            Some(self.bar.close)
        } else {
            self.prev_candle_close
        }
    }

    /// Whether the strategy decides at a tick with `price`: enough events
    /// were seen, and the price moved since it last decided or it never did.
    pub open spec fn should_evaluate(self, env: Env, price: u64) -> bool {
        self.ticks >= env.max_lookback && (price_moved(price, self.last_evaluated_price)
            || self.last_evaluated_price == 0)
    }

    /// What a tick at `ts_ms` with `price` asks of the strategy: an entry
    /// where the portfolio is flat and the cooldown is over, an exit where it
    /// holds a position.
    pub open spec fn plan(self, env: Env, ts_ms: u64, price: u64) -> Tick {
        if !self.should_evaluate(env, price) {
            Tick::Quiet
        } else if self.holdings.size_of(env.coin) == 0 {
            if cooled_down(self.last_trade_ts, env.trade_cooldown_ms, ts_ms) {
                Tick::Entry
            } else {
                Tick::Quiet
            }
        } else {
            Tick::Exit
        }
    }

    /// The number of events seen after one more.
    pub open spec fn ticks_after(self) -> usize {
        if self.ticks < usize::MAX {
            (self.ticks + 1) as usize
        } else {
            self.ticks
        }
    }

    /// The state after a tick has begun at `ts_ms`, where `mid` is the mid
    /// price of the new book.
    pub open spec fn begun(self, env: Env, ts_ms: u64, mid: Option<u64>) -> RunModel {
        match mid {
            None => RunModel { ticks: self.ticks_after(), tick: Tick::Skipped, ..self },
            Some(price) => RunModel {
                bar: self.bar_after(env, ts_ms, price),
                prev_candle_close: self.prev_close_after(env, ts_ms),
                current_candle_start_ts: Some(bucket_start(ts_ms, env.timeframe_ms)),
                last_evaluated_price: if self.should_evaluate(env, price) {
                    price
                } else {
                    self.last_evaluated_price
                },
                ticks: self.ticks_after(),
                tick: self.plan(env, ts_ms, price),
                tick_ts: ts_ms,
                tick_price: price,
                ..self
            },
        }
    }

    /// Whether `action` is accepted: the strategy was asked at this tick, no
    /// active order duplicates the action, and an order number is left.
    pub open spec fn accepts(self, action: Action) -> bool {
        &&& self.tick == Tick::Entry || self.tick == Tick::Exit
        &&& !has_duplicate(self.active, action)
        &&& self.next_order_id < u64::MAX
    }

    /// The state after `action` was proposed: where it is accepted it joins
    /// the active orders as a pending order with the next number.
    pub open spec fn proposed(self, action: Action) -> RunModel {
        if self.accepts(action) {
            RunModel {
                active: self.active.push(
                    Order {
                        id: self.next_order_id,
                        action,
                        created_at: self.bar.time_open,
                        filled_sz: 0,
                        status: OrderStatus::Pending,
                    },
                ),
                next_order_id: (self.next_order_id + 1) as u64,
                ..self
            }
        } else {
            self
        }
    }
}

/// A fill that is booked records one trade on the order's side and moves the
/// cash by the notional at the fill price and by the fee: a purchase pays
/// both, a sale receives the notional less the fee.
pub proof fn lemma_fill_moves_cash(m: RunModel, env: Env, order_id: u64, side: Side, fill: FillResult)
    requires
        m.settled(env, order_id, side, fill) is Some,
    ensures
        ({
            let after = m.settled(env, order_id, side, fill).unwrap();
            let value = notional_of(fill.filled_sz as int, fill.fill_price as int);
            let fee = env.fee_calc.fee_of(value, fill.is_maker);
            &&& after.trades == m.trades.push(m.trade_for(env, order_id, side, fill))
            &&& after.trades.last().side == side_name(side)
            &&& after.trades.last().size == fill.filled_sz
            &&& after.trades.last().price == fill.fill_price
            &&& after.trades.last().fee == fee
            &&& side == Side::Buy ==> after.holdings.cash == m.holdings.cash - (value + fee)
            &&& side == Side::Sell ==> after.holdings.cash == m.holdings.cash + (value - fee)
        }),
{
    reveal_strlit("BUY");
    reveal_strlit("SELL");
    let value = notional_of(fill.filled_sz as int, fill.fill_price as int);
    crate::fixed::lemma_mul_le(
        fill.filled_sz as int,
        fill.fill_price as int,
        u64::MAX as int,
        u64::MAX as int,
    );
    assert(0xFFFF_FFFF_FFFF_FFFFint * 0xFFFF_FFFF_FFFF_FFFFint / 100_000_000
        == crate::fixed::MAX_NOTIONAL as int);
    env.fee_calc.lemma_fee_fits(value, fill.is_maker);
    // The two names differ: they are of different lengths.
    assert("SELL"@.len() == 4 && "BUY"@.len() == 3);
    assert(!crate::portfolio::is_buy(side_name(Side::Sell)));
}

/// Every order of the sequence is live.
pub open spec fn all_live(orders: Seq<Order>) -> bool {
    forall|i: int| 0 <= i < orders.len() ==> live(#[trigger] orders[i])
}

/// Whether the index `i` is among `removed`.
pub open spec fn listed(removed: Seq<usize>, i: int) -> bool {
    exists|j: int| 0 <= j < removed.len() && #[trigger] removed[j] == i
}

/// The indices ascend, and leave room below `bound` for those behind them.
pub open spec fn ascending_below(removed: Seq<usize>, bound: int) -> bool {
    &&& forall|i: int, j: int| 0 <= i < j < removed.len() ==> removed[i] < removed[j]
    &&& forall|i: int| 0 <= i < removed.len() ==> (#[trigger] removed[i]) + (removed.len() - i) <= bound
}

/// Where every order is live or listed for removal, the orders that are
/// left after the removal are live.
pub proof fn lemma_removal_leaves_live(s: Seq<Order>, removed: Seq<usize>)
    requires
        ascending_below(removed, s.len() as int),
        forall|i: int| 0 <= i < s.len() ==> listed(removed, i) || live(#[trigger] s[i]),
    ensures
        all_live(swap_remove_all(s, removed)),
    decreases removed.len(),
{
    if removed.len() > 0 {
        let r = removed.len() as int;
        let idx = removed.last() as int;
        let rest = removed.drop_last();
        let t = s.update(idx, s.last()).drop_last();
        assert(removed[r - 1] + 1 <= s.len());
        assert forall|i: int, j: int| 0 <= i < j < rest.len() implies rest[i] < rest[j] by {
            assert(removed[i] < removed[j]);
        }
        assert forall|i: int| 0 <= i < rest.len() implies (#[trigger] rest[i]) + (rest.len() - i)
            <= t.len() by {
            assert(removed[i] + (r - i) <= s.len());
        }
        assert forall|i: int| 0 <= i < t.len() implies listed(rest, i) || live(#[trigger] t[i]) by {
            if i == idx {
                // The last order takes the place; it is not listed.
                let last = s.len() - 1;
                assert(t[i] == s[last]);
                if listed(removed, last) {
                    let j = choose|j: int| 0 <= j < removed.len() && #[trigger] removed[j] == last;
                    if j < r - 1 {
                        assert(removed[j] < removed[r - 1]);
                    }
                }
            } else {
                assert(t[i] == s[i]);
                if listed(removed, i) {
                    let j = choose|j: int| 0 <= j < removed.len() && #[trigger] removed[j] == i;
                    assert(j < r - 1);
                    assert(rest[j] == i);
                }
            }
        }
        lemma_removal_leaves_live(t, rest);
    }
}

/// A removal leaves no more orders than there were.
pub proof fn lemma_removal_length(s: Seq<Order>, removed: Seq<usize>)
    requires
        ascending_below(removed, s.len() as int),
    ensures
        swap_remove_all(s, removed).len() <= s.len(),
    decreases removed.len(),
{
    if removed.len() > 0 {
        let r = removed.len() as int;
        let idx = removed.last() as int;
        let rest = removed.drop_last();
        let t = s.update(idx, s.last()).drop_last();
        assert(removed[r - 1] + 1 <= s.len());
        assert forall|i: int, j: int| 0 <= i < j < rest.len() implies rest[i] < rest[j] by {
            assert(removed[i] < removed[j]);
        }
        assert forall|i: int| 0 <= i < rest.len() implies (#[trigger] rest[i]) + (rest.len() - i)
            <= t.len() by {
            assert(removed[i] + (r - i) <= s.len());
        }
        lemma_removal_length(t, rest);
    }
}

/// After the first `n` orders had their turn, each of them is live or listed
/// for removal, the others are as they were, and the list ascends.
pub proof fn lemma_orders_done(m: RunModel, env: Env, market: bool, n: int)
    requires
        0 <= n <= m.active.len() <= usize::MAX,
        all_live(m.active),
        m.orders_done(env, market, n) is Some,
    ensures
        m.orders_done(env, market, n).unwrap().0.active.len() == m.active.len(),
        ascending_below(m.orders_done(env, market, n).unwrap().1, n),
        forall|i: int|
            0 <= i < m.active.len() ==> listed(m.orders_done(env, market, n).unwrap().1, i)
                || live(#[trigger] m.orders_done(env, market, n).unwrap().0.active[i]),
        forall|i: int|
            n <= i < m.active.len() ==> (#[trigger] m.orders_done(
                env,
                market,
                n,
            ).unwrap().0.active[i]) == m.active[i],
    decreases n,
{
    if n > 0 {
        lemma_orders_done(m, env, market, n - 1);
        let done = m.orders_done(env, market, n - 1).unwrap();
        let now = m.orders_done(env, market, n).unwrap();
        let before = done.1;
        let after = now.1;
        if after != before {
            assert(after == before.push((n - 1) as usize));
            assert forall|i: int, j: int| 0 <= i < j < after.len() implies after[i] < after[j] by {
                if j == after.len() - 1 {
                    assert(before[i] + (before.len() - i) <= n - 1);
                }
            }
            assert forall|i: int| 0 <= i < after.len() implies (#[trigger] after[i]) + (after.len()
                - i) <= n by {
                if i < before.len() {
                    assert(before[i] + (before.len() - i) <= n - 1);
                }
            }
            assert(after[after.len() - 1] == n - 1);
        } else {
            assert forall|i: int| 0 <= i < after.len() implies (#[trigger] after[i]) + (after.len()
                - i) <= n by {
                assert(before[i] + (before.len() - i) <= n - 1);
            }
        }
        assert forall|i: int| 0 <= i < m.active.len() implies listed(after, i) || live(
            #[trigger] now.0.active[i],
        ) by {
            if i != n - 1 {
                assert(now.0.active[i] == done.0.active[i]);
                if listed(before, i) {
                    let j = choose|j: int| 0 <= j < before.len() && #[trigger] before[j] == i;
                    assert(after[j] == i);
                }
            } else if after != before {
                assert(after[after.len() - 1] == i);
            }
        }
    }
}

/// Orders leave the active orders when they come to their end: where every
/// active order is live before a tick ends, every active order is live
/// after it.
pub proof fn lemma_finished_orders_leave(m: RunModel, env: Env)
    requires
        all_live(m.active),
        m.active.len() <= usize::MAX,
        m.finished(env) is Some,
    ensures
        all_live(m.finished(env).unwrap().active),
{
    if m.tick != Tick::Skipped {
        let n = m.active.len() as int;
        lemma_orders_done(m, env, true, n);
        let done = m.markets_done(env, n).unwrap();
        lemma_removal_leaves_live(done.0.active, done.1);
        lemma_removal_length(done.0.active, done.1);
        let a = m.after_markets(env).unwrap();
        let k = a.active.len() as int;
        lemma_orders_done(a, env, false, k);
        let limits = a.limits_done(env, k).unwrap();
        lemma_removal_leaves_live(limits.0.active, limits.1);
    }
}

/// An order that is accepted waits as a pending order: it is live.
pub proof fn lemma_proposed_orders_live(m: RunModel, action: Action)
    requires
        all_live(m.active),
    ensures
        all_live(m.proposed(action).active),
{
    let after = m.proposed(action).active;
    assert forall|i: int| 0 <= i < after.len() implies live(#[trigger] after[i]) by {
        if i < m.active.len() {
            assert(after[i] == m.active[i]);
        }
    }
}

impl PerpsEngine {
    /// The engine's book.
    pub closed spec fn book(&self) -> OrderBook {
        self.book
    }

    /// The engine's funding schedule.
    pub closed spec fn funding(&self) -> FundingSchedule {
        self.funding
    }

    /// The engine's fee rates.
    pub closed spec fn fee_calc(&self) -> FeeCalculator {
        self.fee_calc
    }

    /// What the engine's portfolio holds.
    pub closed spec fn holdings(&self) -> Holdings {
        self.portfolio@
    }

    /// Book, schedule and portfolio are valid.
    pub open spec fn wf(&self) -> bool {
        self.book().wf() && self.funding().wf() && self.holdings().wf()
    }

    /// An engine with an empty book, the configured fee rates and the
    /// initial capital in cash.
    pub fn new(funding: FundingSchedule, config: &SimConfig) -> (engine: Self)
        ensures
            engine.funding() == funding,
            engine.book().bids().len() == 0,
            engine.book().asks().len() == 0,
            engine.fee_calc().maker_bps() == config.maker_fee_bps,
            engine.fee_calc().taker_bps() == config.taker_fee_bps,
            engine.fee_calc().slippage() == config.slippage_bps,
            engine.holdings().cash == config.initial_capital,
            engine.holdings().positions.len() == 0,
            funding.wf() && -CASH_LIMIT <= config.initial_capital <= CASH_LIMIT ==> engine.wf(),
    {
        let fee_calc = FeeCalculator::new(
            config.maker_fee_bps,
            config.taker_fee_bps,
            config.slippage_bps,
        );
        let portfolio = Portfolio::new(config.initial_capital, fee_calc);
        PerpsEngine { book: OrderBook::new(), funding, fee_calc, portfolio }
    }
}

/// A hundred percent, in fixed-point: the factor that turns a ratio into a
/// percentage.
pub const PERCENT_SCALE: u128 = 10_000_000_000;

/// The return as a percentage of the initial capital, rounded towards zero;
/// zero where there was no capital.
pub open spec fn return_pct(total_return: int, initial_capital: int) -> int {
    if initial_capital == 0 {
        0
    } else {
        signed_div(total_return * PERCENT_SCALE, initial_capital)
    }
}

/// Whether the percentage can be computed in 128 bits.
pub open spec fn pct_fits(total_return: int, initial_capital: int) -> bool {
    &&& initial_capital != 0 ==> abs_of(total_return) * PERCENT_SCALE <= u128::MAX
    &&& initial_capital != 0 ==> abs_of(total_return) * PERCENT_SCALE / abs_of(initial_capital)
        <= i128::MAX
}

/// Whether return and percentage can be computed in 128 bits.
pub open spec fn summary_fits(final_equity: int, initial_capital: int) -> bool {
    let total_return = final_equity - initial_capital;
    &&& i128::MIN <= total_return <= i128::MAX
    &&& pct_fits(total_return, initial_capital)
}

/// The return as a percentage of the initial capital; `None` where it cannot
/// be computed in 128 bits.
pub fn return_percent(total_return: i128, initial_capital: i128) -> (r: Option<i128>)
    ensures
        match r {
            Some(pct) => pct_fits(total_return as int, initial_capital as int) && pct
                == return_pct(total_return as int, initial_capital as int),
            None => !pct_fits(total_return as int, initial_capital as int),
        },
{
    if initial_capital == 0 {
        return Some(0);
    }
    let gained: u128 = magnitude(total_return);
    let base: u128 = magnitude(initial_capital);
    let scaled: u128 = match gained.checked_mul(PERCENT_SCALE) {
        Some(v) => v,
        None => {
            return None;
        },
    };
    let quotient: u128 = scaled / base;
    if quotient > i128::MAX as u128 {
        return None;
    }
    let negative: bool = (total_return < 0) != (initial_capital < 0);
    proof {
        let p = (total_return as int) * (PERCENT_SCALE as int);
        assert(p == scaled || p == -scaled);
        assert(0int / (base as int) == 0);
    }
    Some(
        if negative {
            -(quotient as i128)
        } else {
            quotient as i128
        },
    )
}

/// Once the ledger's range is left among the first `k` orders it stays left.
pub proof fn lemma_orders_fail_on(m: RunModel, env: Env, market: bool, k: int, n: int)
    requires
        k <= n,
        m.orders_done(env, market, k) is None,
    ensures
        m.orders_done(env, market, n) is None,
    decreases n - k,
{
    if k < n {
        lemma_orders_fail_on(m, env, market, k, n - 1);
    }
}

/// Where the ledger cannot hold the fill of the order at `k`, the run stops
/// in the state after the turns before it.
pub proof fn lemma_held_at_failure(m: RunModel, env: Env, market: bool, k: int, n: int)
    requires
        0 <= k < n,
        m.orders_done(env, market, k) is Some,
        m.orders_done(env, market, k + 1) is None,
    ensures
        m.orders_held(env, market, n) == m.orders_done(env, market, k).unwrap().0,
    decreases n - k,
{
    lemma_orders_fail_on(m, env, market, k + 1, n);
    if n > k + 1 {
        lemma_held_at_failure(m, env, market, k, n - 1);
    } else {
        if k > 0 {
            assert(m.orders_held(env, market, k) == m.orders_done(env, market, k).unwrap().0);
        }
    }
}

impl View for PerpsRun {
    type V = RunModel;

    closed spec fn view(&self) -> RunModel {
        RunModel {
            holdings: self.engine.portfolio@,
            active: self.active_orders@,
            trades: trade_views(self.trades@),
            equity: self.equity_curve@,
            next_order_id: self.next_order_id,
            last_trade_ts: self.last_trade_ts,
            last_funding_ts: self.last_funding_ts,
            last_evaluated_price: self.last_evaluated_price,
            prev_candle_close: self.prev_candle_close,
            current_candle_start_ts: self.current_candle_start_ts,
            bar: bar_of(self.candle),
            ticks: self.ticks,
            tick: self.tick,
            tick_ts: self.tick_ts,
            tick_price: self.tick_price,
        }
    }
}

impl PerpsRun {
    /// What is fixed over the run, with the book as it stands.
    pub closed spec fn env(&self) -> Env {
        Env {
            book: self.engine.book,
            funding: self.engine.funding,
            fee_calc: self.engine.fee_calc,
            coin: self.coin@,
            timeframe_ms: self.timeframe_ms,
            max_lookback: self.max_lookback,
            trade_cooldown_ms: self.trade_cooldown_ms,
            initial_capital: self.initial_capital,
        }
    }

    /// Book, schedule and holdings are valid, and the timeframe is not zero.
    pub open spec fn wf(&self) -> bool {
        &&& self.env().book.wf()
        &&& self.env().funding.wf()
        &&& self@.holdings.wf()
        &&& self.env().timeframe_ms > 0
    }

    /// Whether `other` runs in the same setting with another book.
    pub open spec fn same_setting(&self, other: &PerpsRun) -> bool {
        other.env() == (Env { book: other.env().book, ..self.env() })
    }

    /// A run that has seen no event: no order, no trade, and the first order
    /// will have number 1. The strategy decides on candles of `timeframe_ms`
    /// once `max_lookback` events were seen.
    pub fn new(
        engine: PerpsEngine,
        config: &SimConfig,
        coin: &str,
        timeframe_ms: u64,
        max_lookback: usize,
    ) -> (run: Self)
        ensures
            run.env() == (Env {
                book: engine.book(),
                funding: engine.funding(),
                fee_calc: engine.fee_calc(),
                coin: coin@,
                timeframe_ms,
                max_lookback,
                trade_cooldown_ms: match config.trade_cooldown_ms {
                    Some(ms) => ms,
                    None => DEFAULT_TRADE_COOLDOWN_MS,
                },
                initial_capital: config.initial_capital,
            }),
            run@ == (RunModel {
                holdings: engine.holdings(),
                active: Seq::empty(),
                trades: Seq::empty(),
                equity: Seq::empty(),
                next_order_id: 1,
                last_trade_ts: None,
                last_funding_ts: 0,
                last_evaluated_price: 0,
                prev_candle_close: None,
                current_candle_start_ts: None,
                bar: Bar {
                    time_open: 0,
                    time_close: 0,
                    open: 0,
                    high: 0,
                    low: 0,
                    close: 0,
                    volume: 0,
                },
                ticks: 0,
                tick: Tick::Skipped,
                tick_ts: 0,
                tick_price: 0,
            }),
            engine.wf() && timeframe_ms > 0 ==> run.wf(),
    {
        let trade_cooldown_ms = match config.trade_cooldown_ms {
            Some(ms) => ms,
            None => DEFAULT_TRADE_COOLDOWN_MS,
        };
        let candle = Candle {
            time_open: 0,
            time_close: 0,
            coin: coin.to_owned(),
            interval: "tick".to_owned(),
            open: 0,
            close: 0,
            high: 0,
            low: 0,
            volume: 0,
            num_trades: 0,
        };
        let run = PerpsRun {
            engine,
            coin: coin.to_owned(),
            timeframe_ms,
            max_lookback,
            trade_cooldown_ms,
            initial_capital: config.initial_capital,
            active_orders: Vec::new(),
            next_order_id: 1,
            trades: Vec::new(),
            equity_curve: Vec::new(),
            last_funding_ts: 0,
            last_evaluated_price: 0,
            prev_candle_close: None,
            current_candle_start_ts: None,
            last_trade_ts: None,
            candle,
            ticks: 0,
            tick: Tick::Skipped,
            tick_ts: 0,
            tick_price: 0,
        };
        proof {
            assert(run@.trades =~= Seq::<TradeView>::empty());
        }
        run
    }

    /// The orders that wait to be filled.
    pub fn active_orders(&self) -> (orders: &Vec<Order>)
        ensures
            orders@ == self@.active,
    {
        &self.active_orders
    }

    /// The trades so far.
    pub fn trades(&self) -> (trades: &Vec<Trade>)
        ensures
            trade_views(trades@) == self@.trades,
    {
        &self.trades
    }

    /// The equity samples so far.
    pub fn equity_curve(&self) -> (curve: &Vec<EquityPoint>)
        ensures
            curve@ == self@.equity,
    {
        &self.equity_curve
    }

    /// The portfolio.
    pub fn portfolio(&self) -> (portfolio: &Portfolio)
        ensures
            portfolio@ == self@.holdings,
    {
        &self.engine.portfolio
    }

    /// The book as the last event left it.
    pub fn book(&self) -> (book: &OrderBook)
        ensures
            *book == self.env().book,
    {
        &self.engine.book
    }

    /// The candle that the ticks have built.
    pub fn candle(&self) -> (candle: &Candle)
        ensures
            bar_of(*candle) == self@.bar,
    {
        &self.candle
    }

    /// What the current tick asks of the strategy.
    pub fn tick(&self) -> (tick: Tick)
        ensures
            tick == self@.tick,
    {
        self.tick
    }

    /// The number that the next order gets.
    pub fn next_order_id(&self) -> (id: u64)
        ensures
            id == self@.next_order_id,
    {
        self.next_order_id
    }

    /// The close of the candle before the current one.
    pub fn prev_candle_close(&self) -> (close: Option<u64>)
        ensures
            close == self@.prev_candle_close,
    {
        self.prev_candle_close
    }

    /// Whether the price has moved far enough from `last` for the strategy
    /// to decide again.
    fn moved(price: u64, last: u64) -> (r: bool)
        ensures
            r == price_moved(price, last),
    {
        let change: u128 = if price >= last {
            (price - last) as u128
        } else {
            (last - price) as u128
        };
        let base: u128 = if last >= SCALE {
            last as u128
        } else {
            SCALE as u128
        };
        proof {
            crate::fixed::lemma_mul_le(change as int, 10_000, u64::MAX as int, 10_000);
        }
        change * (PRICE_CHANGE_PARTS as u128) > base
    }

    /// Begins the tick of one event: the book becomes the event's snapshot,
    /// and where it gives a mid price the candle takes the price and the
    /// driver says what it asks of the strategy.
    pub fn begin_tick(&mut self, ts_ms: u64, levels: &[Vec<OrderLevel>]) -> (tick: Tick)
        requires
            old(self).wf(),
        ensures
            final(self).wf(),
            old(self).same_setting(final(self)),
            final(self).env().book.reflects(levels@),
            final(self).env().book.bids().len() == 0 <==> snapshot_side(levels@, 0).len() == 0,
            final(self).env().book.asks().len() == 0 <==> snapshot_side(levels@, 1).len() == 0,
            final(self)@ == old(self)@.begun(
                old(self).env(),
                ts_ms,
                final(self).env().book.mid_price_of(),
            ),
            tick == final(self)@.tick,
    {
        self.engine.book.apply_snapshot(levels);
        let seen: usize = self.ticks;
        if seen < usize::MAX {
            self.ticks = seen + 1;
        }
        let price: u64 = match self.engine.book.mid_price() {
            Some(p) => p,
            None => {
                self.tick = Tick::Skipped;
                return Tick::Skipped;
            },
        };
        proof {
            let tf = self.timeframe_ms as int;
            assert((ts_ms as int / tf) * tf <= ts_ms) by (nonlinear_arith)
                requires
                    tf > 0,
                    ts_ms >= 0,
            ;
            assert((ts_ms as int / tf) * tf >= 0) by (nonlinear_arith)
                requires
                    tf > 0,
                    ts_ms >= 0,
            ;
        }
        let candle_start_ts: u64 = (ts_ms / self.timeframe_ms) * self.timeframe_ms;
        let is_new_candle: bool = match self.current_candle_start_ts {
            Some(ts) => ts != candle_start_ts,
            None => true,
        };
        if is_new_candle {
            if self.current_candle_start_ts.is_some() && self.candle.close > 0 {
                self.prev_candle_close = Some(self.candle.close);
            }
            self.current_candle_start_ts = Some(candle_start_ts);
            self.candle.time_open = candle_start_ts;
            self.candle.open = price;
            self.candle.high = price;
            self.candle.low = price;
        }
        self.candle.time_close = ts_ms;
        if self.candle.high < price {
            self.candle.high = price;
        }
        if self.candle.low > price {
            self.candle.low = price;
        }
        self.candle.close = price;

        let price_changed = Self::moved(price, self.last_evaluated_price);
        let should_evaluate = seen >= self.max_lookback && (price_changed
            || self.last_evaluated_price == 0);
        let mut plan = Tick::Quiet;
        if should_evaluate {
            let position_size = self.engine.portfolio.get_position(self.coin.as_str());
            if position_size == 0 {
                let can_trade = match self.last_trade_ts {
                    Some(last_ts) => ts_ms as u128 >= last_ts as u128
                        + self.trade_cooldown_ms as u128,
                    None => true,
                };
                if can_trade {
                    plan = Tick::Entry;
                }
            } else {
                plan = Tick::Exit;
            }
            self.last_evaluated_price = price;
        }
        self.tick = plan;
        self.tick_ts = ts_ms;
        self.tick_price = price;
        plan
    }

    /// Whether an active order duplicates `action`.
    fn is_duplicate(&self, action: &Action) -> (r: bool)
        ensures
            r == has_duplicate(self@.active, *action),
    {
        let n = self.active_orders.len();
        let mut i: usize = 0;
        while i < n
            invariant
                i <= n,
                n == self.active_orders@.len(),
                forall|j: int| 0 <= j < i ==> !duplicates((#[trigger] self.active_orders@[j]).action, *action),
            decreases n - i,
        {
            let same = match (self.active_orders[i].action, *action) {
                (
                    Action::Limit { side: s1, px: px1, sz: sz1, .. },
                    Action::Limit { side: s2, px: px2, sz: sz2, .. },
                ) => {
                    let px_gap = if px1 >= px2 {
                        px1 - px2
                    } else {
                        px2 - px1
                    };
                    let sz_gap = if sz1 >= sz2 {
                        sz1 - sz2
                    } else {
                        sz2 - sz1
                    };
                    s1 == s2 && px_gap < PRICE_TOLERANCE && sz_gap < SIZE_TOLERANCE
                },
                (Action::Market { side: s1, sz: sz1 }, Action::Market { side: s2, sz: sz2 }) => {
                    let sz_gap = if sz1 >= sz2 {
                        sz1 - sz2
                    } else {
                        sz2 - sz1
                    };
                    s1 == s2 && sz_gap < SIZE_TOLERANCE
                },
                _ => false,
            };
            if same {
                return true;
            }
            i = i + 1;
        }
        false
    }

    /// Takes an order that the strategy proposes at this tick. It is accepted
    /// where the driver asked the strategy at this tick and no active order
    /// duplicates it; it then waits as a pending order, and its number is
    /// returned.
    pub fn propose(&mut self, action: Action) -> (id: Option<u64>)
        ensures
            old(self).wf() ==> final(self).wf(),
            final(self).env() == old(self).env(),
            final(self)@ == old(self)@.proposed(action),
            id == if old(self)@.accepts(action) {
                Some(old(self)@.next_order_id)
            } else {
                None
            },
    {
        let asked = match self.tick {
            Tick::Entry => true,
            Tick::Exit => true,
            _ => false,
        };
        if !asked || self.next_order_id == u64::MAX || self.is_duplicate(&action) {
            return None;
        }
        let id = self.next_order_id;
        self.active_orders.push(
            Order {
                id,
                action,
                created_at: self.candle.time_open,
                filled_sz: 0,
                status: OrderStatus::Pending,
            },
        );
        self.next_order_id = id + 1;
        Some(id)
    }

    /// Books a fill: computes the fee, records the trade and changes the
    /// portfolio.
    fn settle(&mut self, order_id: u64, side: Side, fill: &FillResult) -> (r: Result<
        (),
        EngineError,
    >)
        requires
            old(self).wf(),
        ensures
            final(self).wf(),
            final(self).env() == old(self).env(),
            match r {
                Ok(()) => Some(final(self)@) == old(self)@.settled(
                    old(self).env(),
                    order_id,
                    side,
                    *fill,
                ),
                Err(_) => old(self)@.settled(old(self).env(), order_id, side, *fill) is None
                    && final(self)@ == old(self)@,
            },
    {
        let value: u128 = notional(fill.filled_sz, fill.fill_price);
        proof {
            self.engine.fee_calc.lemma_fee_fits(value as int, fill.is_maker);
        }
        let fee = self.engine.fee_calc.calculate_fee(value as i128, fill.is_maker);
        let trade = Trade {
            timestamp: self.tick_ts,
            symbol: self.coin.clone(),
            side: side_to_string(side).to_owned(),
            size: fill.filled_sz,
            price: fill.fill_price,
            fee,
            order_id,
        };
        match self.engine.portfolio.execute_trade(&trade, fill.fill_price) {
            Ok(()) => {
                let ghost before = self.trades@;
                self.trades.push(trade);
                self.last_trade_ts = Some(self.tick_ts);
                proof {
                    assert(trade_views(self.trades@) =~= trade_views(before).push(trade@));
                }
                Ok(())
            },
            Err(_) => Err(EngineError::LimitExceeded),
        }
    }

    /// Takes the orders at `removed` out of the active orders, from the last
    /// index to the first.
    fn remove_orders(&mut self, removed: &Vec<usize>)
        requires
            forall|i: int|
                0 <= i < removed@.len() ==> (#[trigger] removed@[i]) + (removed@.len() - i) <= old(
                    self,
                )@.active.len(),
        ensures
            final(self).env() == old(self).env(),
            final(self)@ == old(self)@.without(removed@),
    {
        let mut j: usize = removed.len();
        proof {
            assert(removed@.take(j as int) =~= removed@);
        }
        while j > 0
            invariant
                j <= removed@.len(),
                self.env() == old(self).env(),
                self@ == (RunModel { active: self@.active, ..old(self)@ }),
                swap_remove_all(old(self)@.active, removed@) == swap_remove_all(
                    self@.active,
                    removed@.take(j as int),
                ),
                forall|i: int| 0 <= i < j ==> (#[trigger] removed@[i]) + (j - i) <= self@.active.len(),
            decreases j,
        {
            let idx = removed[j - 1];
            proof {
                let head = removed@.take(j as int);
                assert(head.last() == idx);
                assert(head.drop_last() =~= removed@.take(j - 1));
                assert(removed@[j - 1] + 1 <= self@.active.len());
            }
            self.active_orders.swap_remove(idx);
            j = j - 1;
        }
    }

    /// Gives every active order its turn against the book: as market orders
    /// where `market` says so, else as limit orders.
    fn run_orders(&mut self, market: bool) -> (r: Result<(), EngineError>)
        requires
            old(self).wf(),
        ensures
            final(self).wf(),
            final(self).env() == old(self).env(),
            match old(self)@.orders_done(old(self).env(), market, old(self)@.active.len() as int) {
                Some(done) => r is Ok && final(self)@ == done.0.without(done.1),
                None => r is Err && final(self)@ == old(self)@.orders_held(
                    old(self).env(),
                    market,
                    old(self)@.active.len() as int,
                ),
            },
    {
        let n = self.active_orders.len();
        let mut removed: Vec<usize> = Vec::new();
        let mut k: usize = 0;
        while k < n
            invariant
                k <= n,
                n == old(self)@.active.len(),
                n == self@.active.len(),
                self.wf(),
                self.env() == old(self).env(),
                forall|i: int| k <= i < n ==> self@.active[i] == old(self)@.active[i],
                old(self)@.orders_done(old(self).env(), market, k as int) == Some(
                    (self@, removed@),
                ),
                forall|i: int|
                    0 <= i < removed@.len() ==> (#[trigger] removed@[i]) + (removed@.len() - i) <= k,
            decreases n - k,
        {
            let before = self.active_orders[k];
            let mut order = before;
            let got = if market {
                PerpsExecution::execute_market(&mut order, &self.engine.book)
            } else {
                PerpsExecution::check_limit_fill(&mut order, &self.engine.book)
            };
            match got {
                Some(fill) => {
                    let side = match before.action {
                        Action::Market { side, .. } => side,
                        Action::Limit { side, .. } => side,
                        _ => Side::Buy,
                    };
                    let ended = match fill.order_status {
                        OrderStatus::Filled => true,
                        OrderStatus::Canceled => true,
                        _ => false,
                    };
                    let canceled = match fill.order_status {
                        OrderStatus::Canceled => true,
                        _ => false,
                    };
                    if !canceled {
                        match self.settle(order.id, side, &fill) {
                            Ok(()) => {},
                            Err(e) => {
                                proof {
                                    lemma_orders_fail_on(
                                        old(self)@,
                                        old(self).env(),
                                        market,
                                        k + 1,
                                        n as int,
                                    );
                                    lemma_held_at_failure(
                                        old(self)@,
                                        old(self).env(),
                                        market,
                                        k as int,
                                        n as int,
                                    );
                                }
                                return Err(e);
                            },
                        }
                    }
                    self.active_orders.set(k, order);
                    if ended {
                        removed.push(k);
                    }
                },
                None => {},
            }
            k = k + 1;
        }
        self.remove_orders(&removed);
        Ok(())
    }

    /// Applies the funding payment where one is due.
    fn apply_funding(&mut self) -> (r: Result<(), EngineError>)
        requires
            old(self).wf(),
        ensures
            final(self).wf(),
            final(self).env() == old(self).env(),
            match r {
                Ok(()) => Some(final(self)@) == old(self)@.funded(old(self).env()),
                Err(_) => old(self)@.funded(old(self).env()) is None && final(self)@ == old(self)@,
            },
    {
        let ts_ms = self.tick_ts;
        if ts_ms >= self.last_funding_ts && ts_ms - self.last_funding_ts >= FUNDING_INTERVAL_MS {
            let size: i64 = self.engine.portfolio.get_position(self.coin.as_str());
            if size != 0 {
                let held: u64 = magnitude64(size);
                proof {
                    crate::fixed::lemma_mul_le(
                        held as int,
                        self.tick_price as int,
                        0x8000_0000_0000_0000,
                        0xFFFF_FFFF_FFFF_FFFF,
                    );
                }
                let value: i128 = match mul_div_signed(
                    held as i128,
                    self.tick_price as i128,
                    SCALE,
                ) {
                    Some(v) => v,
                    None => 0,
                };
                let payment: i128 = match self.engine.funding.checked_payment(value, ts_ms) {
                    Some(p) => p,
                    None => {
                        return Err(EngineError::LimitExceeded);
                    },
                };
                let moved = if size > 0 {
                    self.engine.portfolio.cash.checked_sub(payment)
                } else {
                    self.engine.portfolio.cash.checked_add(payment)
                };
                match moved {
                    Some(cash) => {
                        if cash > CASH_LIMIT || cash < -CASH_LIMIT {
                            return Err(EngineError::LimitExceeded);
                        }
                        self.engine.portfolio.cash = cash;
                    },
                    None => {
                        return Err(EngineError::LimitExceeded);
                    },
                }
            }
            self.last_funding_ts = ts_ms;
        }
        Ok(())
    }

    /// Samples the equity where the tick falls on a whole minute.
    fn record_equity(&mut self)
        requires
            old(self).wf(),
        ensures
            final(self).wf(),
            final(self).env() == old(self).env(),
            final(self)@ == old(self)@.sampled(old(self).env()),
    {
        if self.tick_ts % EQUITY_RECORDING_INTERVAL_MS == 0 {
            let equity = self.engine.portfolio.total_equity(self.coin.as_str(), self.tick_price);
            let position_value = self.engine.portfolio.get_position_value(
                self.coin.as_str(),
                self.tick_price,
            );
            self.equity_curve.push(
                EquityPoint {
                    timestamp: self.tick_ts,
                    equity,
                    cash: self.engine.portfolio.cash,
                    position_value,
                },
            );
        }
    }

    /// Ends the tick: executes the market orders, then has the limit orders
    /// meet the book; an order leaves the active orders when it is filled or
    /// canceled, and stays while it is partly filled or gets nothing; books
    /// every fill as a trade with its fee, at the rate of its kind; pays or
    /// receives funding where eight hours have passed; samples the equity on
    /// whole minutes. After a tick that was passed over nothing happens. An
    /// error says that the ledger's range was left: the run stops where it
    /// was when that showed, before the fill or the payment that it cannot
    /// hold, and cannot go on.
    pub fn finish_tick(&mut self) -> (r: Result<(), EngineError>)
        requires
            old(self).wf(),
        ensures
            final(self).wf(),
            final(self).env() == old(self).env(),
            match r {
                Ok(()) => Some(final(self)@) == old(self)@.finished(old(self).env()),
                Err(_) => old(self)@.finished(old(self).env()) is None
                    && final(self)@ == old(self)@.stopped(old(self).env()),
            },
    {
        match self.tick {
            Tick::Skipped => {
                return Ok(());
            },
            _ => {},
        }
        match self.run_orders(true) {
            Ok(()) => {},
            Err(e) => {
                return Err(e);
            },
        }
        match self.run_orders(false) {
            Ok(()) => {},
            Err(e) => {
                return Err(e);
            },
        }
        match self.apply_funding() {
            Ok(()) => {},
            Err(e) => {
                return Err(e);
            },
        }
        self.record_equity();
        self.tick = Tick::Skipped;
        Ok(())
    }

    /// The price at which the run is valued at its end: the mid price of the
    /// book, or zero where it has none.
    pub open spec fn final_price(&self) -> u64 {
        match self.env().book.mid_price_of() {
            Some(price) => price,
            None => 0,
        }
    }

    /// The equity at the end of the run.
    pub open spec fn final_equity(&self) -> int {
        self@.holdings.equity_of(self.env().coin, self.final_price())
    }

    /// Ends the run and reports it: the trades, the equity samples, the final
    /// equity at the book's mid price, and the return in money and in percent
    /// of the initial capital. The statistics over trades are left at zero:
    /// they are computed apart.
    pub fn finish(self) -> (r: Result<SimResult, EngineError>)
        requires
            self.wf(),
        ensures
            match r {
                Ok(result) => {
                    &&& summary_fits(self.final_equity(), self.env().initial_capital as int)
                    &&& trade_views(result.trades@) == self@.trades
                    &&& result.equity_curve@ == self@.equity
                    &&& result.final_equity == self.final_equity()
                    &&& result.total_return == self.final_equity() - self.env().initial_capital
                    &&& result.total_return_pct == return_pct(
                        self.final_equity() - self.env().initial_capital,
                        self.env().initial_capital as int,
                    )
                    &&& result.num_trades == self@.trades.len()
                    &&& result.win_rate == 0
                    &&& result.avg_win == 0
                    &&& result.avg_loss == 0
                    &&& result.max_drawdown == 0
                    &&& result.max_drawdown_pct == 0
                    &&& result.sharpe_ratio == 0
                    &&& result.sortino_ratio == 0
                },
                Err(_) => !summary_fits(self.final_equity(), self.env().initial_capital as int),
            },
    {
        let final_price: u64 = match self.engine.book.mid_price() {
            Some(price) => price,
            None => 0,
        };
        let final_equity: i128 = self.engine.portfolio.total_equity(
            self.coin.as_str(),
            final_price,
        );
        let total_return: i128 = match final_equity.checked_sub(self.initial_capital) {
            Some(v) => v,
            None => {
                return Err(EngineError::LimitExceeded);
            },
        };
        let total_return_pct: i128 = match return_percent(total_return, self.initial_capital) {
            Some(pct) => pct,
            None => {
                return Err(EngineError::LimitExceeded);
            },
        };
        let num_trades = self.trades.len();
        Ok(
            SimResult {
                trades: self.trades,
                equity_curve: self.equity_curve,
                final_equity,
                total_return,
                total_return_pct,
                num_trades,
                win_rate: 0,
                avg_win: 0,
                avg_loss: 0,
                max_drawdown: 0,
                max_drawdown_pct: 0,
                sharpe_ratio: 0,
                sortino_ratio: 0,
            },
        )
    }
}

} // verus!
