//! The ledger: cash and positions, changed by trades.

use crate::fees::FeeCalculator;
use crate::fixed::{
    abs_of, lemma_mul_le, magnitude, mul_div, mul_div_signed, notional, notional_of, trunc_div,
    SCALE,
};
use crate::orders::types::{Position, PositionView, Trade, TradeView};
use vstd::prelude::*;

verus! {

/// Largest magnitude of cash that a portfolio holds: half the range of money,
/// so that cash and the value of a position always add up to money.
pub const CASH_LIMIT: i128 = 85_070_591_730_234_615_865_843_651_857_942_052_863;

/// Largest magnitude of an entry price.
pub const ENTRY_LIMIT: i128 = 0xFFFF_FFFF_FFFF_FFFF;

/// Why a trade was not booked.
#[derive(Debug, Clone, Copy, PartialEq, Eq, Structural)]
pub enum LedgerError {
    /// The position, its entry price or the cash would leave the range that
    /// the ledger holds.
    LimitExceeded,
}

/// Cash, positions by symbol, and the fee rates that go with them.
#[derive(Debug, Clone)]
pub struct Portfolio {
    pub cash: i128,
    /// One position for each symbol that has traded.
    pub positions: Vec<Position>,
    pub fee_calc: FeeCalculator,
}

/// What a portfolio holds: its cash and its positions.
pub struct Holdings {
    pub cash: int,
    pub positions: Seq<PositionView>,
}

/// The views of a sequence of positions.
pub open spec fn position_views(positions: Seq<Position>) -> Seq<PositionView> {
    positions.map_values(|p: Position| p@)
}

/// Whether there is a position in `symbol`.
pub open spec fn has_position(positions: Seq<PositionView>, symbol: Seq<char>) -> bool {
    exists|i: int| 0 <= i < positions.len() && (#[trigger] positions[i]).symbol == symbol
}

/// The index of the position in `symbol`.
pub open spec fn position_index(positions: Seq<PositionView>, symbol: Seq<char>) -> int {
    choose|i: int| 0 <= i < positions.len() && (#[trigger] positions[i]).symbol == symbol
}

/// No symbol has two positions.
pub open spec fn distinct_symbols(positions: Seq<PositionView>) -> bool {
    forall|i: int, j: int|
        0 <= i < j < positions.len() ==> (#[trigger] positions[i]).symbol != (
        #[trigger] positions[j]).symbol
}

/// Every entry price is within its limit.
pub open spec fn entries_within_limit(positions: Seq<PositionView>) -> bool {
    forall|i: int|
        0 <= i < positions.len() ==> -ENTRY_LIMIT <= (#[trigger] positions[i]).entry_price
            <= ENTRY_LIMIT
}

/// `a / b` rounded towards zero, for a divisor that is not zero.
pub open spec fn signed_div(a: int, b: int) -> int {
    if b > 0 {
        trunc_div(a, b)
    } else {
        trunc_div(-a, -b)
    }
}

/// The entry price after buying `sz` at `px` into a position of `size` at
/// `entry`: the price bought at where the position was flat, else the
/// volume-weighted price `(size * entry + sz * px) / (size + sz)`. A position
/// that the purchase closes has entry price zero.
pub open spec fn entry_after_buy(size: int, entry: int, sz: int, px: int) -> int {
    if size == 0 {
        px
    } else if size + sz == 0 {
        0
    } else {
        signed_div(size * entry + sz * px, size + sz)
    }
}

/// Whether a trade's side is a purchase: every side but `"BUY"` sells.
pub open spec fn is_buy(side: Seq<char>) -> bool {
    side == "BUY"@
}

/// The position in `symbol`, or the flat position that a first trade in the
/// symbol starts from: its entry price is the current price.
pub open spec fn holding(positions: Seq<PositionView>, symbol: Seq<char>, current_price: u64) -> PositionView {
    if has_position(positions, symbol) {
        positions[position_index(positions, symbol)]
    } else {
        PositionView {
            symbol,
            size: 0,
            entry_price: current_price as i128,
            tp_price: None,
            sl_price: None,
        }
    }
}

/// Size and entry price of a position after a trade in its symbol.
pub open spec fn size_and_entry_after(before: PositionView, trade: TradeView) -> (int, int) {
    if is_buy(trade.side) {
        (
            before.size + trade.size,
            entry_after_buy(
                before.size as int,
                before.entry_price as int,
                trade.size as int,
                trade.price as int,
            ),
        )
    } else {
        (before.size - trade.size, before.entry_price as int)
    }
}

/// The cash after a trade: a purchase pays the notional and the fee, a sale
/// receives the notional less the fee.
pub open spec fn cash_after(cash: int, trade: TradeView) -> int {
    let value = notional_of(trade.size as int, trade.price as int);
    if is_buy(trade.side) {
        cash - (value + trade.fee)
    } else {
        cash + (value - trade.fee)
    }
}

impl Holdings {
    /// The signed size held in `symbol`; zero where it never traded.
    pub open spec fn size_of(self, symbol: Seq<char>) -> int {
        if has_position(self.positions, symbol) {
            self.positions[position_index(self.positions, symbol)].size as int
        } else {
            0
        }
    }

    /// The value of the holding in `symbol` at `price`: `size * price`,
    /// rounded towards zero.
    pub open spec fn value_of(self, symbol: Seq<char>, price: u64) -> int {
        mul_div(self.size_of(symbol), price as int, SCALE as int)
    }

    /// Cash plus the value of the holding in `symbol` at `price`.
    pub open spec fn equity_of(self, symbol: Seq<char>, price: u64) -> int {
        self.cash + self.value_of(symbol, price)
    }

    /// Symbols are distinct, entry prices and cash are within their limits.
    pub open spec fn wf(self) -> bool {
        &&& distinct_symbols(self.positions)
        &&& entries_within_limit(self.positions)
        &&& -CASH_LIMIT <= self.cash <= CASH_LIMIT
    }

    /// Whether the ledger can book `trade`: the new size fits in 64 bits, the
    /// new entry price and the new cash are within their limits.
    pub open spec fn can_book(self, trade: TradeView, current_price: u64) -> bool {
        let after = size_and_entry_after(
            holding(self.positions, trade.symbol, current_price),
            trade,
        );
        &&& i64::MIN <= after.0 <= i64::MAX
        &&& -ENTRY_LIMIT <= after.1 <= ENTRY_LIMIT
        &&& -CASH_LIMIT <= cash_after(self.cash, trade) <= CASH_LIMIT
    }

    /// The holdings after `trade`: its position takes the new size and entry
    /// price, or is opened, and the cash moves by notional and fee.
    pub open spec fn booked(self, trade: TradeView, current_price: u64) -> Holdings {
        let before = holding(self.positions, trade.symbol, current_price);
        let after = size_and_entry_after(before, trade);
        let position = PositionView {
            size: after.0 as i64,
            entry_price: after.1 as i128,
            ..before
        };
        Holdings {
            cash: cash_after(self.cash, trade),
            positions: if has_position(self.positions, trade.symbol) {
                self.positions.update(position_index(self.positions, trade.symbol), position)
            } else {
                self.positions.push(position)
            },
        }
    }
}

/// With distinct symbols the position at an index is the one that its symbol
/// names.
pub proof fn lemma_index_of(positions: Seq<PositionView>, i: int)
    requires
        distinct_symbols(positions),
        0 <= i < positions.len(),
    ensures
        has_position(positions, positions[i].symbol),
        position_index(positions, positions[i].symbol) == i,
{
    let k = position_index(positions, positions[i].symbol);
    if k < i {
        assert(positions[k].symbol != positions[i].symbol);
    }
    if i < k {
        assert(positions[i].symbol != positions[k].symbol);
    }
}

/// Booking a trade keeps the holdings valid and touches the position of the
/// trade's symbol only.
pub proof fn lemma_booked(h: Holdings, trade: TradeView, current_price: u64)
    requires
        h.wf(),
        h.can_book(trade, current_price),
    ensures
        h.booked(trade, current_price).wf(),
        has_position(h.booked(trade, current_price).positions, trade.symbol),
        h.booked(trade, current_price).size_of(trade.symbol) == size_and_entry_after(
            holding(h.positions, trade.symbol, current_price),
            trade,
        ).0,
        forall|symbol: Seq<char>|
            symbol != trade.symbol ==> (#[trigger] has_position(
                h.booked(trade, current_price).positions,
                symbol,
            ) <==> has_position(h.positions, symbol)),
        forall|symbol: Seq<char>|
            symbol != trade.symbol ==> #[trigger] h.booked(trade, current_price).size_of(symbol)
                == h.size_of(symbol),
{
    let before = h.positions;
    let after = h.booked(trade, current_price).positions;
    if has_position(before, trade.symbol) {
        let i = position_index(before, trade.symbol);
        assert forall|a: int, b: int| 0 <= a < b < after.len() implies (#[trigger] after[a]).symbol != (
        #[trigger] after[b]).symbol by {
            assert(before[a].symbol != before[b].symbol);
        }
        assert forall|k: int| 0 <= k < after.len() implies -ENTRY_LIMIT <= (
        #[trigger] after[k]).entry_price <= ENTRY_LIMIT by {
            if k != i {
                assert(before[k].entry_price == after[k].entry_price);
            }
        }
        lemma_index_of(after, i);
        assert forall|symbol: Seq<char>| symbol != trade.symbol implies (#[trigger] has_position(
            after,
            symbol,
        ) <==> has_position(before, symbol)) by {
            if has_position(after, symbol) {
                let k = position_index(after, symbol);
                assert(before[k].symbol == symbol);
            }
            if has_position(before, symbol) {
                let k = position_index(before, symbol);
                assert(after[k].symbol == symbol);
            }
        }
        assert forall|symbol: Seq<char>| symbol != trade.symbol implies #[trigger] h.booked(
            trade,
            current_price,
        ).size_of(symbol) == h.size_of(symbol) by {
            if has_position(before, symbol) {
                let k = position_index(before, symbol);
                assert(after[k].symbol == symbol);
                lemma_index_of(after, k);
            }
        }
    } else {
        let last = after.len() - 1;
        assert(after[last].symbol == trade.symbol);
        assert forall|a: int, b: int| 0 <= a < b < after.len() implies (#[trigger] after[a]).symbol != (
        #[trigger] after[b]).symbol by {
            if b < last {
                assert(before[a].symbol != before[b].symbol);
            } else {
                assert(before[a].symbol != trade.symbol);
            }
        }
        assert forall|k: int| 0 <= k < after.len() implies -ENTRY_LIMIT <= (
        #[trigger] after[k]).entry_price <= ENTRY_LIMIT by {
            if k != last {
                assert(before[k].entry_price == after[k].entry_price);
            }
        }
        lemma_index_of(after, last);
        assert forall|symbol: Seq<char>| symbol != trade.symbol implies (#[trigger] has_position(
            after,
            symbol,
        ) <==> has_position(before, symbol)) by {
            if has_position(after, symbol) {
                let k = position_index(after, symbol);
                assert(before[k].symbol == symbol);
            }
            if has_position(before, symbol) {
                let k = position_index(before, symbol);
                assert(after[k].symbol == symbol);
            }
        }
        assert forall|symbol: Seq<char>| symbol != trade.symbol implies #[trigger] h.booked(
            trade,
            current_price,
        ).size_of(symbol) == h.size_of(symbol) by {
            if has_position(before, symbol) {
                let k = position_index(before, symbol);
                assert(after[k].symbol == symbol);
                lemma_index_of(after, k);
            }
        }
    }
}

/// Computes `size * entry + sz * px` over `size + sz`, rounded towards zero,
/// where the result is an entry price.
fn weighted_entry(size: i64, entry: i128, sz: u64, px: u64) -> (r: Option<i128>)
    requires
        size != 0,
        size + sz != 0,
        size + sz <= i64::MAX,
        -ENTRY_LIMIT <= entry <= ENTRY_LIMIT,
    ensures
        match r {
            Some(e) => e == signed_div(size * entry + sz * px, size + sz) && -ENTRY_LIMIT <= e
                <= ENTRY_LIMIT,
            None => abs_of(signed_div(size * entry + sz * px, size + sz)) > ENTRY_LIMIT,
        },
{
    let new_size: i128 = size as i128 + sz as i128;
    let n: u128 = magnitude(new_size);
    let ms: u128 = magnitude(size as i128);
    let me: u128 = magnitude(entry);
    proof {
        lemma_mul_le(ms as int, me as int, 0x8000_0000_0000_0000, 0xFFFF_FFFF_FFFF_FFFF);
        lemma_mul_le(sz as int, px as int, 0xFFFF_FFFF_FFFF_FFFF, 0xFFFF_FFFF_FFFF_FFFF);
    }
    let a: u128 = ms * me;
    let b: u128 = (sz as u128) * (px as u128);
    let a_negative: bool = (size < 0) != (entry < 0);
    let ghost total: int = size * entry + sz * px;
    proof {
        let se = size * entry;
        assert(se == a || se == -a) by (nonlinear_arith)
            requires
                se == size * entry,
                a == ms * me,
                ms == size || ms == -size,
                me == entry || me == -entry,
        ;
        assert(a_negative ==> se == -a) by (nonlinear_arith)
            requires
                se == size * entry,
                a == ms * me,
                ms == abs_of(size as int),
                me == abs_of(entry as int),
                a_negative == ((size < 0) != (entry < 0)),
        ;
        assert(!a_negative ==> se == a) by (nonlinear_arith)
            requires
                se == size * entry,
                a == ms * me,
                ms == abs_of(size as int),
                me == abs_of(entry as int),
                a_negative == ((size < 0) != (entry < 0)),
        ;
    }
    // The magnitude of the total and its sign.
    let t: u128;
    let t_negative: bool;
    if !a_negative {
        match a.checked_add(b) {
            Some(sum) => {
                t = sum;
                t_negative = false;
            },
            None => {
                proof {
                    assert(total / (n as int) > ENTRY_LIMIT) by (nonlinear_arith)
                        requires
                            total > 0xFFFF_FFFF_FFFF_FFFF_FFFF_FFFF_FFFF_FFFF,
                            0 < n <= 0x8000_0000_0000_0000,
                    ;
                }
                return None;
            },
        }
    } else if b >= a {
        t = b - a;
        t_negative = false;
    } else {
        t = a - b;
        t_negative = true;
    }
    let q: u128 = t / n;
    let negative: bool = t_negative != (new_size < 0);
    proof {
        assert(total == t || total == -t);
        assert(t_negative ==> total == -t);
        assert(!t_negative ==> total == t);
        assert(0int / (n as int) == 0);
    }
    if q > ENTRY_LIMIT as u128 {
        None
    } else if negative {
        Some(-(q as i128))
    } else {
        Some(q as i128)
    }
}

impl View for Portfolio {
    type V = Holdings;

    open spec fn view(&self) -> Holdings {
        Holdings { cash: self.cash as int, positions: position_views(self.positions@) }
    }
}

impl Portfolio {
    /// Symbols are distinct, entry prices and cash are within their limits.
    pub open spec fn wf(&self) -> bool {
        self@.wf()
    }

    /// A portfolio of `initial_capital` in cash and no position.
    pub fn new(initial_capital: i128, fee_calc: FeeCalculator) -> (portfolio: Self)
        ensures
            portfolio.cash == initial_capital,
            portfolio.positions@.len() == 0,
            portfolio.fee_calc == fee_calc,
            -CASH_LIMIT <= initial_capital <= CASH_LIMIT ==> portfolio.wf(),
    {
        Portfolio { cash: initial_capital, positions: Vec::new(), fee_calc }
    }

    /// The index of the position in `symbol`, if there is one.
    fn find(&self, symbol: &String) -> (r: Option<usize>)
        requires
            distinct_symbols(self@.positions),
        ensures
            match r {
                Some(i) => has_position(self@.positions, symbol@) && i == position_index(
                    self@.positions,
                    symbol@,
                ) && i < self.positions@.len(),
                None => !has_position(self@.positions, symbol@),
            },
    {
        let n = self.positions.len();
        let mut i: usize = 0;
        while i < n
            invariant
                i <= n,
                n == self.positions@.len(),
                distinct_symbols(self@.positions),
                forall|j: int| 0 <= j < i ==> (#[trigger] self@.positions[j]).symbol != symbol@,
            decreases n - i,
        {
            if self.positions[i].symbol == *symbol {
                proof {
                    assert(self@.positions[i as int].symbol == symbol@);
                    lemma_index_of(self@.positions, i as int);
                }
                return Some(i);
            }
            i = i + 1;
        }
        None
    }

    /// The signed size held in `symbol`.
    pub fn get_position(&self, symbol: &str) -> (size: i64)
        requires
            self.wf(),
        ensures
            size == self@.size_of(symbol@),
    {
        let key = symbol.to_owned();
        match self.find(&key) {
            Some(i) => self.positions[i].size,
            None => 0,
        }
    }

    /// The value of the holding in `symbol` at `current_price`.
    pub fn get_position_value(&self, symbol: &str, current_price: u64) -> (value: i128)
        requires
            self.wf(),
        ensures
            value == self@.value_of(symbol@, current_price),
            -CASH_LIMIT <= value <= CASH_LIMIT,
    {
        let size = self.get_position(symbol);
        proof {
            let p = (size as int) * (current_price as int);
            let m = abs_of(size as int);
            lemma_mul_le(m, current_price as int, 0x8000_0000_0000_0000, 0xFFFF_FFFF_FFFF_FFFF);
            assert(p == m * current_price || p == -(m * current_price)) by (nonlinear_arith)
                requires
                    p == (size as int) * (current_price as int),
                    m == size || m == -size,
            ;
        }
        match mul_div_signed(size as i128, current_price as i128, SCALE) {
            Some(value) => value,
            None => 0,
        }
    }

    /// Cash plus the value of the holding in `symbol` at `current_price`.
    pub fn total_equity(&self, symbol: &str, current_price: u64) -> (equity: i128)
        requires
            self.wf(),
        ensures
            equity == self@.equity_of(symbol@, current_price),
    {
        self.cash + self.get_position_value(symbol, current_price)
    }

    /// Books a trade. A purchase adds to the position, sets its entry price
    /// to the volume-weighted price and pays notional and fee; a sale takes
    /// from the position, which may go short, leaves the entry price and
    /// receives notional less fee. The first trade in a symbol opens its
    /// position. A trade that the ledger cannot hold is refused and changes
    /// nothing.
    pub fn execute_trade(&mut self, trade: &Trade, current_price: u64) -> (r: Result<
        (),
        LedgerError,
    >)
        requires
            old(self).wf(),
        ensures
            final(self).wf(),
            final(self).fee_calc == old(self).fee_calc,
            match r {
                Ok(()) => old(self)@.can_book(trade@, current_price) && final(self)@ == old(
                    self,
                )@.booked(trade@, current_price),
                Err(_) => !old(self)@.can_book(trade@, current_price) && *final(self) == *old(
                    self,
                ),
            },
    {
        let found = self.find(&trade.symbol);
        let (size, entry): (i64, i128) = match found {
            Some(i) => (self.positions[i].size, self.positions[i].entry_price),
            None => (0, current_price as i128),
        };
        let buy_name = "BUY".to_owned();
        let buying: bool = trade.side == buy_name;
        let value: u128 = notional(trade.size, trade.price);
        // The new size and entry price.
        let wide_size: i128 = if buying {
            size as i128 + trade.size as i128
        } else {
            size as i128 - trade.size as i128
        };
        if wide_size > i64::MAX as i128 || wide_size < i64::MIN as i128 {
            return Err(LedgerError::LimitExceeded);
        }
        let new_size: i64 = wide_size as i64;
        let new_entry: i128 = if !buying {
            entry
        } else if size == 0 {
            trade.price as i128
        } else if new_size == 0 {
            0
        } else {
            match weighted_entry(size, entry, trade.size, trade.price) {
                Some(e) => e,
                None => {
                    return Err(LedgerError::LimitExceeded);
                },
            }
        };
        // The new cash.
        let flow: Option<i128> = if buying {
            (value as i128).checked_add(trade.fee)
        } else {
            (value as i128).checked_sub(trade.fee)
        };
        let new_cash: i128 = match flow {
            None => {
                return Err(LedgerError::LimitExceeded);
            },
            Some(amount) => {
                let moved = if buying {
                    self.cash.checked_sub(amount)
                } else {
                    self.cash.checked_add(amount)
                };
                match moved {
                    Some(cash) => {
                        if cash > CASH_LIMIT || cash < -CASH_LIMIT {
                            return Err(LedgerError::LimitExceeded);
                        }
                        cash
                    },
                    None => {
                        return Err(LedgerError::LimitExceeded);
                    },
                }
            },
        };
        proof {
            lemma_booked(self@, trade@, current_price);
        }
        let ghost expected = self@.booked(trade@, current_price);
        match found {
            Some(i) => {
                let updated = Position {
                    symbol: self.positions[i].symbol.clone(),
                    size: new_size,
                    entry_price: new_entry,
                    tp_price: self.positions[i].tp_price,
                    sl_price: self.positions[i].sl_price,
                };
                self.positions.set(i, updated);
            },
            None => {
                let opened = Position {
                    symbol: trade.symbol.clone(),
                    size: new_size,
                    entry_price: new_entry,
                    tp_price: None,
                    sl_price: None,
                };
                self.positions.push(opened);
            },
        }
        self.cash = new_cash;
        proof {
            assert(self@.positions =~= expected.positions);
        }
        Ok(())
    }

    /// Marks a position to a price. Entry price and size stay as they are.
    pub fn update_position_price(&mut self, _symbol: &str, _current_price: u64)
        ensures
            *final(self) == *old(self),
    {
    }
}

} // verus!
