//! Fees and slippage, in basis points.

use crate::fixed::{fits_money, lemma_mul_le, mul_div, mul_div_signed, BPS_DENOMINATOR, MAX_NOTIONAL};
use vstd::prelude::*;

verus! {

/// Fee rates for makers and takers, and the slippage charged to orders that
/// fill against a candle. A negative fee rate is a rebate.
#[derive(Debug, Clone, Copy)]
pub struct FeeCalculator {
    maker_fee_bps: i16,
    taker_fee_bps: i16,
    slippage_bps: u16,
}

impl FeeCalculator {
    /// The maker fee in basis points.
    pub closed spec fn maker_bps(&self) -> int {
        self.maker_fee_bps as int
    }

    /// The taker fee in basis points.
    pub closed spec fn taker_bps(&self) -> int {
        self.taker_fee_bps as int
    }

    /// The slippage in basis points.
    pub closed spec fn slippage(&self) -> int {
        self.slippage_bps as int
    }

    /// The fee on `notional`: `notional * bps / 10000`, rounded towards zero.
    pub open spec fn fee_of(&self, notional: int, is_maker: bool) -> int {
        mul_div(
            notional,
            if is_maker {
                self.maker_bps()
            } else {
                self.taker_bps()
            },
            BPS_DENOMINATOR as int,
        )
    }

    /// The price after slippage: a buy pays `slippage` basis points more, a
    /// sell gets as much less; rounded down.
    pub open spec fn slipped(&self, price: int, is_buy: bool) -> int {
        if is_buy {
            price * (BPS_DENOMINATOR + self.slippage()) / (BPS_DENOMINATOR as int)
        } else {
            price * (BPS_DENOMINATOR - self.slippage()) / (BPS_DENOMINATOR as int)
        }
    }

    /// Whether the price after slippage is a price: not negative and within
    /// 64 bits.
    pub open spec fn slippage_fits(&self, price: int, is_buy: bool) -> bool {
        if is_buy {
            self.slipped(price, true) <= u64::MAX
        } else {
            self.slippage() <= BPS_DENOMINATOR
        }
    }

    /// Fee rates and slippage, each in basis points.
    pub fn new(maker_fee_bps: i16, taker_fee_bps: i16, slippage_bps: u16) -> (calc: Self)
        ensures
            calc.maker_bps() == maker_fee_bps,
            calc.taker_bps() == taker_fee_bps,
            calc.slippage() == slippage_bps,
    {
        FeeCalculator { maker_fee_bps, taker_fee_bps, slippage_bps }
    }

    /// The fee rates are at most 32768 basis points in magnitude, so the fee
    /// on any notional of a fill is money.
    pub proof fn lemma_fee_fits(&self, notional: int, is_maker: bool)
        requires
            -(MAX_NOTIONAL as int) <= notional <= MAX_NOTIONAL as int,
        ensures
            fits_money(self.fee_of(notional, is_maker)),
    {
        let bps = if is_maker {
            self.maker_bps()
        } else {
            self.taker_bps()
        };
        let n = if notional < 0 {
            -notional
        } else {
            notional
        };
        let b = if bps < 0 {
            -bps
        } else {
            bps
        };
        lemma_mul_le(n, b, MAX_NOTIONAL as int, 32768);
        let p = notional * bps;
        assert(p == n * b || p == -(n * b)) by (nonlinear_arith)
            requires
                p == notional * bps,
                n == notional || n == -notional,
                b == bps || b == -bps,
        ;
    }

    /// The fee on `notional`; a maker pays the maker rate, a taker the taker
    /// rate. A negative result is a rebate.
    pub fn calculate_fee(&self, notional: i128, is_maker: bool) -> (fee: i128)
        requires
            fits_money(self.fee_of(notional as int, is_maker)),
        ensures
            fee == self.fee_of(notional as int, is_maker),
    {
        let fee_bps: i16 = if is_maker {
            self.maker_fee_bps
        } else {
            self.taker_fee_bps
        };
        match mul_div_signed(notional, fee_bps as i128, BPS_DENOMINATOR) {
            Some(fee) => fee,
            None => 0,
        }
    }

    /// Tells whether `apply_slippage` can be called on `price`.
    pub fn can_apply_slippage(&self, price: u64, is_buy: bool) -> (r: bool)
        ensures
            r == self.slippage_fits(price as int, is_buy),
    {
        if is_buy {
            let factor: u128 = BPS_DENOMINATOR as u128 + self.slippage_bps as u128;
            proof {
                lemma_mul_le(price as int, factor as int, u64::MAX as int, 80_000);
            }
            (price as u128) * factor / (BPS_DENOMINATOR as u128) <= u64::MAX as u128
        } else {
            self.slippage_bps as u64 <= BPS_DENOMINATOR
        }
    }

    /// The price that an order pays after slippage.
    pub fn apply_slippage(&self, price: u64, is_buy: bool) -> (r: u64)
        requires
            self.slippage_fits(price as int, is_buy),
        ensures
            r == self.slipped(price as int, is_buy),
    {
        let factor: u128 = if is_buy {
            BPS_DENOMINATOR as u128 + self.slippage_bps as u128
        } else {
            BPS_DENOMINATOR as u128 - self.slippage_bps as u128
        };
        proof {
            lemma_mul_le(price as int, factor as int, u64::MAX as int, 80_000);
            if !is_buy {
                lemma_mul_le(price as int, factor as int, price as int, 10_000);
            }
        }
        ((price as u128) * factor / (BPS_DENOMINATOR as u128)) as u64
    }
}

} // verus!
