//! The order book: two sides of price levels, rebuilt from each snapshot.
//!
//! A side is a sequence of levels in ascending price with one level per price.
//! The best bid is the last bid, the best ask is the first ask.

use crate::ingest::OrderLevel;
use vstd::prelude::*;

verus! {

/// The aggregate size resting at one price.
#[derive(Debug, Clone, Copy, PartialEq, Eq, Structural)]
pub struct BookLevel {
    pub px: u64,
    pub sz: u128,
}

/// The book of one instrument.
#[derive(Debug, Clone)]
pub struct OrderBook {
    bids: Vec<BookLevel>,
    asks: Vec<BookLevel>,
}

/// Prices strictly ascend along the side.
pub open spec fn ascending(s: Seq<BookLevel>) -> bool {
    forall|i: int, j: int| 0 <= i < j < s.len() ==> (#[trigger] s[i]).px < (#[trigger] s[j]).px
}

/// The sum of the sizes of all levels of a side.
pub open spec fn total_size(s: Seq<BookLevel>) -> nat
    decreases s.len(),
{
    if s.len() == 0 {
        0
    } else {
        total_size(s.drop_last()) + s.last().sz as nat
    }
}

/// A side is valid when it ascends and its total size fits in 128 bits.
pub open spec fn side_wf(s: Seq<BookLevel>) -> bool {
    ascending(s) && total_size(s) <= u128::MAX
}

/// Whether the side holds a level at `px`.
pub open spec fn has_level(s: Seq<BookLevel>, px: u64) -> bool {
    exists|i: int| 0 <= i < s.len() && (#[trigger] s[i]).px == px
}

/// The size that the side holds at `px`; zero where it holds no level.
pub open spec fn size_at(s: Seq<BookLevel>, px: u64) -> nat {
    if has_level(s, px) {
        let i = choose|i: int| 0 <= i < s.len() && (#[trigger] s[i]).px == px;
        s[i].sz as nat
    } else {
        0
    }
}

/// Whether a snapshot side quotes the price `px`.
pub open spec fn quoted(levels: Seq<OrderLevel>, px: u64) -> bool {
    exists|i: int| 0 <= i < levels.len() && (#[trigger] levels[i]).px == px
}

/// The sum of the sizes that a snapshot side quotes at `px`.
pub open spec fn quoted_size(levels: Seq<OrderLevel>, px: u64) -> nat
    decreases levels.len(),
{
    if levels.len() == 0 {
        0
    } else {
        quoted_size(levels.drop_last(), px) + if levels.last().px == px {
            levels.last().sz as nat
        } else {
            0
        }
    }
}

/// The sum of all sizes that a snapshot side quotes.
pub open spec fn quoted_total(levels: Seq<OrderLevel>) -> nat
    decreases levels.len(),
{
    if levels.len() == 0 {
        0
    } else {
        quoted_total(levels.drop_last()) + levels.last().sz as nat
    }
}

/// A book side mirrors a snapshot side: it holds a level at exactly the
/// quoted prices, each with the sum of the sizes quoted there.
pub open spec fn mirrors(side: Seq<BookLevel>, levels: Seq<OrderLevel>) -> bool {
    &&& side_wf(side)
    &&& forall|px: u64| #[trigger] has_level(side, px) <==> quoted(levels, px)
    &&& forall|px: u64| #[trigger] size_at(side, px) == quoted_size(levels, px)
}

/// The side of a snapshot at `index`, empty where the snapshot has none.
pub open spec fn snapshot_side(levels: Seq<Vec<OrderLevel>>, index: int) -> Seq<OrderLevel> {
    if 0 <= index < levels.len() {
        levels[index]@
    } else {
        Seq::empty()
    }
}

/// The levels of a side from the best price to the worst: asks as they
/// stand, bids reversed.
pub open spec fn best_first(s: Seq<BookLevel>, descending: bool) -> Seq<BookLevel> {
    if descending {
        s.reverse()
    } else {
        s
    }
}

/// What a market order of `size` takes from levels walked best first: the
/// size filled and the sum of size times price over the levels touched.
pub open spec fn sweep(s: Seq<BookLevel>, size: nat) -> (nat, nat)
    decreases s.len(),
{
    if s.len() == 0 || size == 0 {
        (0, 0)
    } else {
        let take = if size <= s[0].sz {
            size
        } else {
            s[0].sz as nat
        };
        let rest = sweep(s.drop_first(), (size - take) as nat);
        (take + rest.0, take * (s[0].px as nat) + rest.1)
    }
}

/// Whether a level at `level_px` counts towards the depth to `px`: on the bid
/// side (`above`) at `px` or more, on the ask side at `px` or less.
pub open spec fn within(level_px: u64, px: u64, above: bool) -> bool {
    if above {
        level_px >= px
    } else {
        level_px <= px
    }
}

/// The sum of the sizes of the levels that count towards the depth to `px`.
pub open spec fn depth_to(s: Seq<BookLevel>, px: u64, above: bool) -> nat
    decreases s.len(),
{
    if s.len() == 0 {
        0
    } else {
        depth_to(s.drop_last(), px, above) + if within(s.last().px, px, above) {
            s.last().sz as nat
        } else {
            0
        }
    }
}

/// What a market order of `size` gets from levels walked best first: the
/// size filled, the volume-weighted price rounded down, and that it takes
/// liquidity; `None` where nothing is filled.
pub open spec fn market_fill(s: Seq<BookLevel>, size: nat) -> Option<(u64, u64, bool)> {
    let swept = sweep(s, size);
    if swept.0 > 0 {
        Some((swept.0 as u64, (swept.1 / swept.0) as u64, false))
    } else {
        None
    }
}

/// In an ascending side the level at a price is the only one there.
pub proof fn lemma_size_at_index(s: Seq<BookLevel>, i: int)
    requires
        ascending(s),
        0 <= i < s.len(),
    ensures
        has_level(s, s[i].px),
        size_at(s, s[i].px) == s[i].sz,
{
    let px = s[i].px;
    let j = choose|j: int| 0 <= j < s.len() && (#[trigger] s[j]).px == px;
    if j < i {
        assert(s[j].px < s[i].px);
    }
    if i < j {
        assert(s[i].px < s[j].px);
    }
}

/// The total of a prefix grows with the prefix.
pub proof fn lemma_total_prefix(s: Seq<BookLevel>, i: int)
    requires
        0 <= i <= s.len(),
    ensures
        total_size(s.take(i)) <= total_size(s),
        i < s.len() ==> total_size(s.take(i + 1)) == total_size(s.take(i)) + s[i].sz,
    decreases s.len() - i,
{
    if i == s.len() {
        assert(s.take(i) =~= s);
    } else {
        assert(s.take(i + 1).drop_last() =~= s.take(i));
        lemma_total_prefix(s, i + 1);
    }
}

/// No level is larger than the side's total.
pub proof fn lemma_level_le_total(s: Seq<BookLevel>, i: int)
    requires
        0 <= i < s.len(),
    ensures
        s[i].sz <= total_size(s),
{
    lemma_total_prefix(s, i);
    lemma_total_prefix(s, i + 1);
}

/// Inserting a level adds its size to the total.
pub proof fn lemma_total_insert(s: Seq<BookLevel>, k: int, l: BookLevel)
    requires
        0 <= k <= s.len(),
    ensures
        total_size(s.insert(k, l)) == total_size(s) + l.sz,
    decreases s.len(),
{
    let t = s.insert(k, l);
    if k == s.len() {
        assert(t.drop_last() =~= s);
    } else {
        assert(t.drop_last() =~= s.drop_last().insert(k, l));
        lemma_total_insert(s.drop_last(), k, l);
    }
}

/// Replacing a level changes the total by the difference of the sizes.
pub proof fn lemma_total_update(s: Seq<BookLevel>, k: int, l: BookLevel)
    requires
        0 <= k < s.len(),
    ensures
        total_size(s.update(k, l)) + s[k].sz == total_size(s) + l.sz,
    decreases s.len(),
{
    let t = s.update(k, l);
    if k == s.len() - 1 {
        assert(t.drop_last() =~= s.drop_last());
    } else {
        assert(t.drop_last() =~= s.drop_last().update(k, l));
        lemma_total_update(s.drop_last(), k, l);
    }
}


/// Inserting a level at its place in an ascending side keeps the side
/// ascending and changes what it holds at the new price only.
pub proof fn lemma_insert_level(s: Seq<BookLevel>, k: int, l: BookLevel)
    requires
        ascending(s),
        0 <= k <= s.len(),
        forall|i: int| 0 <= i < k ==> (#[trigger] s[i]).px < l.px,
        forall|i: int| k <= i < s.len() ==> (#[trigger] s[i]).px > l.px,
    ensures
        ascending(s.insert(k, l)),
        forall|p: u64| #[trigger]
            has_level(s.insert(k, l), p) <==> has_level(s, p) || p == l.px,
        forall|p: u64| #[trigger]
            size_at(s.insert(k, l), p) == size_at(s, p) + if p == l.px {
                l.sz as nat
            } else {
                0
            },
{
    let t = s.insert(k, l);
    assert forall|i: int, j: int| 0 <= i < j < t.len() implies (#[trigger] t[i]).px < (
    #[trigger] t[j]).px by {
        let a = if i < k {
            i
        } else {
            i - 1
        };
        let b = if j < k {
            j
        } else {
            j - 1
        };
        if i != k && j != k {
            assert(s[a].px < s[b].px);
        } else if i == k {
            assert(s[b].px > l.px);
        } else {
            assert(s[a].px < l.px);
        }
    }
    assert forall|p: u64| #[trigger] has_level(t, p) <==> has_level(s, p) || p == l.px by {
        if has_level(s, p) {
            let i = choose|i: int| 0 <= i < s.len() && (#[trigger] s[i]).px == p;
            let i2 = if i < k {
                i
            } else {
                i + 1
            };
            assert(t[i2].px == p);
        }
        if p == l.px {
            assert(t[k].px == p);
        }
        if has_level(t, p) {
            let j = choose|j: int| 0 <= j < t.len() && (#[trigger] t[j]).px == p;
            if j < k {
                assert(s[j].px == p);
            } else if j > k {
                assert(s[j - 1].px == p);
            }
        }
    }
    assert forall|p: u64| #[trigger]
        size_at(t, p) == size_at(s, p) + if p == l.px {
            l.sz as nat
        } else {
            0
        } by {
        if p == l.px {
            lemma_size_at_index(t, k);
            if has_level(s, p) {
                let i = choose|i: int| 0 <= i < s.len() && (#[trigger] s[i]).px == p;
                assert(s[i].px != l.px);
            }
        } else if has_level(s, p) {
            let i = choose|i: int| 0 <= i < s.len() && (#[trigger] s[i]).px == p;
            let i2 = if i < k {
                i
            } else {
                i + 1
            };
            lemma_size_at_index(s, i);
            assert(t[i2] == s[i]);
            lemma_size_at_index(t, i2);
        } else {
            assert(!has_level(t, p));
        }
    }
}

/// Replacing the size of a level keeps the side ascending and changes what
/// it holds at that price only.
pub proof fn lemma_update_level(s: Seq<BookLevel>, k: int, l: BookLevel)
    requires
        ascending(s),
        0 <= k < s.len(),
        l.px == s[k].px,
    ensures
        ascending(s.update(k, l)),
        forall|p: u64| #[trigger] has_level(s.update(k, l), p) <==> has_level(s, p),
        forall|p: u64| #[trigger]
            size_at(s.update(k, l), p) == if p == l.px {
                l.sz as nat
            } else {
                size_at(s, p)
            },
{
    let t = s.update(k, l);
    assert forall|i: int, j: int| 0 <= i < j < t.len() implies (#[trigger] t[i]).px < (
    #[trigger] t[j]).px by {
        assert(s[i].px < s[j].px);
    }
    assert forall|p: u64| #[trigger] has_level(t, p) <==> has_level(s, p) by {
        if has_level(s, p) {
            let i = choose|i: int| 0 <= i < s.len() && (#[trigger] s[i]).px == p;
            assert(t[i].px == p);
        }
        if has_level(t, p) {
            let j = choose|j: int| 0 <= j < t.len() && (#[trigger] t[j]).px == p;
            assert(s[j].px == p);
        }
    }
    assert forall|p: u64| #[trigger]
        size_at(t, p) == if p == l.px {
            l.sz as nat
        } else {
            size_at(s, p)
        } by {
        if p == l.px {
            lemma_size_at_index(t, k);
        } else if has_level(s, p) {
            let i = choose|i: int| 0 <= i < s.len() && (#[trigger] s[i]).px == p;
            lemma_size_at_index(s, i);
            assert(t[i] == s[i]);
            lemma_size_at_index(t, i);
        } else {
            assert(!has_level(t, p));
        }
    }
}

/// What a snapshot side quotes after one more level.
pub proof fn lemma_quoted_step(levels: Seq<OrderLevel>, i: int)
    requires
        0 <= i < levels.len(),
    ensures
        forall|p: u64| #[trigger]
            quoted(levels.take(i + 1), p) <==> quoted(levels.take(i), p) || p == levels[i].px,
        forall|p: u64| #[trigger]
            quoted_size(levels.take(i + 1), p) == quoted_size(levels.take(i), p) + if p
                == levels[i].px {
                levels[i].sz as nat
            } else {
                0
            },
        quoted_total(levels.take(i + 1)) == quoted_total(levels.take(i)) + levels[i].sz,
{
    let a = levels.take(i);
    let b = levels.take(i + 1);
    assert(b.drop_last() =~= a);
    assert(b.last() == levels[i]);
    assert forall|p: u64| #[trigger] quoted(b, p) <==> quoted(a, p) || p == levels[i].px by {
        if quoted(a, p) {
            let j = choose|j: int| 0 <= j < a.len() && (#[trigger] a[j]).px == p;
            assert(b[j].px == p);
        }
        if p == levels[i].px {
            assert(b[i].px == p);
        }
        if quoted(b, p) {
            let j = choose|j: int| 0 <= j < b.len() && (#[trigger] b[j]).px == p;
            if j < i {
                assert(a[j].px == p);
            }
        }
    }
}

/// A side that mirrors a snapshot side is empty where the snapshot side is.
pub proof fn lemma_mirror_empty(side: Seq<BookLevel>, levels: Seq<OrderLevel>)
    requires
        forall|px: u64| #[trigger] has_level(side, px) <==> quoted(levels, px),
    ensures
        side.len() == 0 <==> levels.len() == 0,
{
    if side.len() > 0 {
        assert(has_level(side, side[0].px));
        assert(quoted(levels, side[0].px));
    }
    if levels.len() > 0 {
        assert(quoted(levels, levels[0].px));
        assert(has_level(side, levels[0].px));
    }
}

/// The first index of an ascending side whose price is `px` or more.
fn lower_bound(side: &Vec<BookLevel>, px: u64) -> (k: usize)
    requires
        ascending(side@),
    ensures
        k <= side.len(),
        forall|i: int| 0 <= i < k ==> (#[trigger] side@[i]).px < px,
        forall|i: int| k <= i < side.len() ==> (#[trigger] side@[i]).px >= px,
{
    let mut lo: usize = 0;
    let mut hi: usize = side.len();
    while lo < hi
        invariant
            lo <= hi <= side.len(),
            ascending(side@),
            forall|i: int| 0 <= i < lo ==> (#[trigger] side@[i]).px < px,
            forall|i: int| hi <= i < side.len() ==> (#[trigger] side@[i]).px >= px,
        decreases hi - lo,
    {
        let mid: usize = lo + (hi - lo) / 2;
        if side[mid].px < px {
            assert forall|i: int| 0 <= i < mid + 1 implies (#[trigger] side@[i]).px < px by {
                if i < mid {
                    assert(side@[i].px < side@[mid as int].px);
                }
            }
            lo = mid + 1;
        } else {
            assert forall|i: int| mid <= i < side.len() implies (#[trigger] side@[i]).px >= px by {
                if mid < i {
                    assert(side@[mid as int].px < side@[i].px);
                }
            }
            hi = mid;
        }
    }
    lo
}

/// Adds `sz` to the level at `px`, creating the level where there is none.
fn add_level(side: &mut Vec<BookLevel>, px: u64, sz: u64)
    requires
        ascending(old(side)@),
        total_size(old(side)@) + sz <= u128::MAX,
    ensures
        ascending(final(side)@),
        total_size(final(side)@) == total_size(old(side)@) + sz,
        forall|p: u64| #[trigger]
            has_level(final(side)@, p) <==> has_level(old(side)@, p) || p == px,
        forall|p: u64| #[trigger]
            size_at(final(side)@, p) == size_at(old(side)@, p) + if p == px {
                sz as nat
            } else {
                0
            },
{
    let k = lower_bound(side, px);
    if k < side.len() && side[k].px == px {
        let level = side[k];
        proof {
            lemma_level_le_total(side@, k as int);
        }
        let merged = BookLevel { px, sz: level.sz + sz as u128 };
        proof {
            lemma_update_level(side@, k as int, merged);
            lemma_total_update(side@, k as int, merged);
            lemma_size_at_index(side@, k as int);
        }
        side.set(k, merged);
    } else {
        let fresh = BookLevel { px, sz: sz as u128 };
        proof {
            lemma_insert_level(side@, k as int, fresh);
            lemma_total_insert(side@, k as int, fresh);
        }
        side.insert(k, fresh);
    }
}

/// Builds the side of a book from the levels of a snapshot.
fn build_side(levels: &Vec<OrderLevel>) -> (side: Vec<BookLevel>)
    ensures
        mirrors(side@, levels@),
        total_size(side@) == quoted_total(levels@),
        side@.len() == 0 <==> levels@.len() == 0,
{
    let mut side: Vec<BookLevel> = Vec::new();
    let n = levels.len();
    let mut i: usize = 0;
    while i < n
        invariant
            i <= n,
            n == levels.len(),
            ascending(side@),
            total_size(side@) == quoted_total(levels@.take(i as int)),
            total_size(side@) <= i * 0xFFFF_FFFF_FFFF_FFFF,
            forall|p: u64| #[trigger]
                has_level(side@, p) <==> quoted(levels@.take(i as int), p),
            forall|p: u64| #[trigger]
                size_at(side@, p) == quoted_size(levels@.take(i as int), p),
        decreases n - i,
    {
        let level = levels[i];
        proof {
            lemma_quoted_step(levels@, i as int);
        }
        add_level(&mut side, level.px, level.sz);
        i = i + 1;
    }
    proof {
        assert(levels@.take(n as int) =~= levels@);
        lemma_mirror_empty(side@, levels@);
    }
    side
}

/// The depth to a price of a prefix grows with the prefix and stays within
/// the side's total.
pub proof fn lemma_depth_prefix(s: Seq<BookLevel>, px: u64, above: bool, i: int)
    requires
        0 <= i <= s.len(),
    ensures
        depth_to(s.take(i), px, above) <= total_size(s.take(i)),
        i < s.len() ==> depth_to(s.take(i + 1), px, above) == depth_to(s.take(i), px, above)
            + if within(s[i].px, px, above) {
            s[i].sz as nat
        } else {
            0
        },
    decreases i,
{
    if i < s.len() {
        assert(s.take(i + 1).drop_last() =~= s.take(i));
    }
    if i > 0 {
        lemma_depth_prefix(s, px, above, i - 1);
        lemma_total_prefix(s, i - 1);
        assert(s.take(i).drop_last() =~= s.take(i - 1));
    }
}

/// The total of a side is its first level plus the total of the rest.
pub proof fn lemma_total_first(s: Seq<BookLevel>)
    requires
        s.len() > 0,
    ensures
        total_size(s) == s[0].sz + total_size(s.drop_first()),
    decreases s.len(),
{
    if s.len() == 1 {
        assert(s.drop_last() =~= Seq::<BookLevel>::empty());
        assert(s.drop_first() =~= Seq::<BookLevel>::empty());
    } else {
        lemma_total_first(s.drop_last());
        assert(s.drop_first().drop_last() =~= s.drop_last().drop_first());
    }
}

/// Reversing a side keeps its total.
pub proof fn lemma_total_reverse(s: Seq<BookLevel>)
    ensures
        total_size(s.reverse()) == total_size(s),
    decreases s.len(),
{
    if s.len() > 0 {
        let r = s.reverse();
        assert(r.drop_last() =~= s.drop_first().reverse());
        assert(r.last() == s[0]);
        lemma_total_reverse(s.drop_first());
        lemma_total_first(s);
    }
}

/// A sweep fills the size asked for, or all there is.
pub proof fn lemma_sweep_filled(s: Seq<BookLevel>, size: nat)
    ensures
        sweep(s, size).0 == if size <= total_size(s) {
            size
        } else {
            total_size(s)
        },
        sweep(s, size).1 <= sweep(s, size).0 * 0xFFFF_FFFF_FFFF_FFFF,
    decreases s.len(),
{
    if s.len() == 0 || size == 0 {
    } else {
        lemma_total_first(s);
        let take = if size <= s[0].sz {
            size
        } else {
            s[0].sz as nat
        };
        lemma_sweep_filled(s.drop_first(), (size - take) as nat);
        assert(take * (s[0].px as nat) <= take * 0xFFFF_FFFF_FFFF_FFFF) by (nonlinear_arith)
            requires
                s[0].px <= 0xFFFF_FFFF_FFFF_FFFF,
        ;
    }
}

/// Two ascending sides that hold the same sizes at the same prices are the
/// same side.
pub proof fn lemma_side_unique(a: Seq<BookLevel>, b: Seq<BookLevel>)
    requires
        ascending(a),
        ascending(b),
        forall|px: u64| #[trigger] has_level(a, px) <==> has_level(b, px),
        forall|px: u64| #[trigger] size_at(a, px) == size_at(b, px),
    ensures
        a == b,
    decreases a.len(),
{
    if a.len() == 0 {
        if b.len() > 0 {
            assert(has_level(b, b[0].px));
            assert(has_level(a, b[0].px));
        }
        assert(a =~= b);
    } else {
        let la = a.last();
        assert(has_level(a, la.px));
        assert(has_level(b, la.px));
        let lb = b.last();
        assert(has_level(b, lb.px));
        assert(has_level(a, lb.px));
        let j = choose|j: int| 0 <= j < b.len() && (#[trigger] b[j]).px == la.px;
        let i = choose|i: int| 0 <= i < a.len() && (#[trigger] a[i]).px == lb.px;
        if j < b.len() - 1 {
            assert(b[j].px < b[b.len() - 1].px);
        }
        if i < a.len() - 1 {
            assert(a[i].px < a[a.len() - 1].px);
        }
        assert(la.px == lb.px);
        lemma_size_at_index(a, a.len() - 1);
        lemma_size_at_index(b, b.len() - 1);
        assert(size_at(a, la.px) == size_at(b, la.px));
        assert(la == lb);
        let a2 = a.drop_last();
        let b2 = b.drop_last();
        lemma_drop_last_levels(a);
        lemma_drop_last_levels(b);
        assert forall|px: u64| #[trigger] has_level(a2, px) <==> has_level(b2, px) by {
            assert(has_level(a, px) <==> has_level(b, px));
        }
        assert forall|px: u64| #[trigger] size_at(a2, px) == size_at(b2, px) by {
            assert(size_at(a, px) == size_at(b, px));
            assert(has_level(a, px) <==> has_level(b, px));
        }
        lemma_side_unique(a2, b2);
        assert(a =~= a2.push(la));
        assert(b =~= b2.push(lb));
    }
}

/// Without its last level an ascending side holds what it held at every
/// lower price, and nothing at the last price.
pub proof fn lemma_drop_last_levels(s: Seq<BookLevel>)
    requires
        ascending(s),
        s.len() > 0,
    ensures
        ascending(s.drop_last()),
        forall|px: u64| #[trigger]
            has_level(s.drop_last(), px) <==> has_level(s, px) && px != s.last().px,
        forall|px: u64| #[trigger]
            size_at(s.drop_last(), px) == if px == s.last().px {
                0
            } else {
                size_at(s, px)
            },
{
    let t = s.drop_last();
    let n = s.len() - 1;
    assert forall|i: int, j: int| 0 <= i < j < t.len() implies (#[trigger] t[i]).px < (
    #[trigger] t[j]).px by {
        assert(s[i].px < s[j].px);
    }
    assert forall|px: u64| #[trigger]
        has_level(t, px) <==> has_level(s, px) && px != s.last().px by {
        if has_level(t, px) {
            let i = choose|i: int| 0 <= i < t.len() && (#[trigger] t[i]).px == px;
            assert(s[i].px == px);
            assert(s[i].px < s[n].px);
        }
        if has_level(s, px) && px != s.last().px {
            let i = choose|i: int| 0 <= i < s.len() && (#[trigger] s[i]).px == px;
            assert(t[i].px == px);
        }
    }
    assert forall|px: u64| #[trigger]
        size_at(t, px) == if px == s.last().px {
            0
        } else {
            size_at(s, px)
        } by {
        if has_level(t, px) {
            let i = choose|i: int| 0 <= i < t.len() && (#[trigger] t[i]).px == px;
            lemma_size_at_index(t, i);
            assert(t[i] == s[i]);
            lemma_size_at_index(s, i);
        }
    }
}

/// The depth of a side to a price.
fn depth(side: &Vec<BookLevel>, px: u64, above: bool) -> (r: u128)
    requires
        side_wf(side@),
    ensures
        r == depth_to(side@, px, above),
{
    let n = side.len();
    let mut acc: u128 = 0;
    let mut i: usize = 0;
    while i < n
        invariant
            i <= n,
            n == side.len(),
            side_wf(side@),
            acc == depth_to(side@.take(i as int), px, above),
        decreases n - i,
    {
        let level = side[i];
        proof {
            lemma_depth_prefix(side@, px, above, i as int);
            lemma_depth_prefix(side@, px, above, i + 1);
            lemma_total_prefix(side@, i + 1);
        }
        let counts = if above {
            level.px >= px
        } else {
            level.px <= px
        };
        if counts {
            acc = acc + level.sz;
        }
        i = i + 1;
    }
    proof {
        assert(side@.take(n as int) =~= side@);
    }
    acc
}

/// Walks a side best first and takes up to `size`: the size filled and the
/// sum of size times price.
fn sweep_side(side: &Vec<BookLevel>, descending: bool, size: u64) -> (r: (u64, u128))
    ensures
        r.0 == sweep(best_first(side@, descending), size as nat).0,
        r.1 == sweep(best_first(side@, descending), size as nat).1,
        r.0 <= size,
        r.1 <= r.0 * 0xFFFF_FFFF_FFFF_FFFF,
{
    let n = side.len();
    let ghost walk = best_first(side@, descending);
    let mut k: usize = 0;
    let mut remaining: u64 = size;
    let mut filled: u64 = 0;
    let mut cost: u128 = 0;
    proof {
        assert(walk.skip(0) =~= walk);
    }
    while k < n && remaining > 0
        invariant
            k <= n,
            n == side.len(),
            walk == best_first(side@, descending),
            walk.len() == n,
            filled + remaining == size,
            cost <= filled * 0xFFFF_FFFF_FFFF_FFFF,
            sweep(walk, size as nat).0 == filled + sweep(walk.skip(k as int), remaining as nat).0,
            sweep(walk, size as nat).1 == cost + sweep(walk.skip(k as int), remaining as nat).1,
        decreases n - k,
    {
        let idx: usize = if descending {
            n - 1 - k
        } else {
            k
        };
        let level = side[idx];
        let take: u64 = if (remaining as u128) <= level.sz {
            remaining
        } else {
            level.sz as u64
        };
        proof {
            let rest = walk.skip(k as int);
            assert(rest[0] == level);
            assert(rest.drop_first() =~= walk.skip(k + 1));
            assert(take * level.px <= take * 0xFFFF_FFFF_FFFF_FFFF) by (nonlinear_arith)
                requires
                    level.px <= 0xFFFF_FFFF_FFFF_FFFF,
                    take >= 0,
            ;
            assert(take * level.px >= 0) by (nonlinear_arith)
                requires
                    level.px >= 0,
                    take >= 0,
            ;
        }
        cost = cost + (take as u128) * (level.px as u128);
        filled = filled + take;
        remaining = remaining - take;
        k = k + 1;
    }
    (filled, cost)
}

/// The average price of a sweep, rounded down.
fn average_price(filled: u64, cost: u128) -> (r: u64)
    requires
        filled > 0,
        cost <= filled * 0xFFFF_FFFF_FFFF_FFFF,
    ensures
        r == cost / (filled as u128),
{
    proof {
        assert(cost as int / filled as int <= 0xFFFF_FFFF_FFFF_FFFF) by (nonlinear_arith)
            requires
                filled > 0,
                cost <= filled * 0xFFFF_FFFF_FFFF_FFFF,
        ;
    }
    (cost / (filled as u128)) as u64
}

impl OrderBook {
    /// The bid levels in ascending price.
    pub closed spec fn bids(&self) -> Seq<BookLevel> {
        self.bids@
    }

    /// The ask levels in ascending price.
    pub closed spec fn asks(&self) -> Seq<BookLevel> {
        self.asks@
    }

    /// Both sides ascend and their totals fit.
    pub open spec fn wf(&self) -> bool {
        side_wf(self.bids()) && side_wf(self.asks())
    }

    /// The book shows exactly what the snapshot quotes.
    pub open spec fn reflects(&self, levels: Seq<Vec<OrderLevel>>) -> bool {
        &&& mirrors(self.bids(), snapshot_side(levels, 0))
        &&& mirrors(self.asks(), snapshot_side(levels, 1))
    }

    /// The highest bid with its size.
    pub open spec fn best_bid_of(&self) -> Option<(u64, u128)> {
        if self.bids().len() == 0 {
            None
        } else {
            Some((self.bids().last().px, self.bids().last().sz))
        }
    }

    /// The lowest ask with its size.
    pub open spec fn best_ask_of(&self) -> Option<(u64, u128)> {
        if self.asks().len() == 0 {
            None
        } else {
            Some((self.asks()[0].px, self.asks()[0].sz))
        }
    }

    /// The mean of the best bid and the best ask, rounded down.
    pub open spec fn mid_price_of(&self) -> Option<u64> {
        match (self.best_bid_of(), self.best_ask_of()) {
            (Some(bid), Some(ask)) => Some(((bid.0 + ask.0) / 2) as u64),
            _ => None,
        }
    }

    /// An empty book.
    pub fn new() -> (book: Self)
        ensures
            book.wf(),
            book.bids().len() == 0,
            book.asks().len() == 0,
    {
        OrderBook { bids: Vec::new(), asks: Vec::new() }
    }

    /// The highest bid and the size resting there, `None` when there is no bid.
    pub fn best_bid(&self) -> (r: Option<(u64, u128)>)
        ensures
            r == self.best_bid_of(),
    {
        let n = self.bids.len();
        if n == 0 {
            None
        } else {
            Some((self.bids[n - 1].px, self.bids[n - 1].sz))
        }
    }

    /// The lowest ask and the size resting there, `None` when there is no ask.
    pub fn best_ask(&self) -> (r: Option<(u64, u128)>)
        ensures
            r == self.best_ask_of(),
    {
        if self.asks.len() == 0 {
            None
        } else {
            Some((self.asks[0].px, self.asks[0].sz))
        }
    }

    /// The mid price, `None` when either side is empty.
    pub fn mid_price(&self) -> (r: Option<u64>)
        ensures
            r == self.mid_price_of(),
    {
        match (self.best_bid(), self.best_ask()) {
            (Some(bid), Some(ask)) => {
                let sum: u128 = bid.0 as u128 + ask.0 as u128;
                Some((sum / 2) as u64)
            },
            _ => None,
        }
    }

    /// Whether a buy order resting at `limit_price` would trade at once: there
    /// is an ask at that price or below.
    pub fn would_cross_buy(&self, limit_price: u64) -> (r: bool)
        ensures
            r == match self.best_ask_of() {
                Some(ask) => limit_price >= ask.0,
                None => false,
            },
    {
        match self.best_ask() {
            Some(ask) => limit_price >= ask.0,
            None => false,
        }
    }

    /// Whether a sell order resting at `limit_price` would trade at once:
    /// there is a bid at that price or above.
    pub fn would_cross_sell(&self, limit_price: u64) -> (r: bool)
        ensures
            r == match self.best_bid_of() {
                Some(bid) => limit_price <= bid.0,
                None => false,
            },
    {
        match self.best_bid() {
            Some(bid) => limit_price <= bid.0,
            None => false,
        }
    }

    /// Replaces the book by a snapshot: `levels[0]` are the bids and
    /// `levels[1]` the asks; sizes quoted at one price add up.
    pub fn apply_snapshot(&mut self, levels: &[Vec<OrderLevel>])
        ensures
            final(self).wf(),
            final(self).reflects(levels@),
            final(self).bids().len() == 0 <==> snapshot_side(levels@, 0).len() == 0,
            final(self).asks().len() == 0 <==> snapshot_side(levels@, 1).len() == 0,
    {
        let mut bids: Vec<BookLevel> = Vec::new();
        let mut asks: Vec<BookLevel> = Vec::new();
        if levels.len() > 0 {
            bids = build_side(&levels[0]);
        }
        if levels.len() > 1 {
            asks = build_side(&levels[1]);
        }
        self.bids = bids;
        self.asks = asks;
    }
    /// The size bid at `price` or better (higher).
    pub fn bid_depth_to(&self, price: u64) -> (r: u128)
        requires
            self.wf(),
        ensures
            r == depth_to(self.bids(), price, true),
    {
        depth(&self.bids, price, true)
    }

    /// The size offered at `price` or better (lower).
    pub fn ask_depth_to(&self, price: u64) -> (r: u128)
        requires
            self.wf(),
        ensures
            r == depth_to(self.asks(), price, false),
    {
        depth(&self.asks, price, false)
    }

    /// Fills a market buy of `size` against the asks, lowest first. Returns
    /// the size filled, the volume-weighted price and `false` (a market order
    /// is never a maker); `None` when nothing can be filled. The size filled
    /// is `size`, or all that is offered where that is less.
    pub fn sweep_market_buy(&self, size: u64) -> (r: Option<(u64, u64, bool)>)
        ensures
            r == market_fill(best_first(self.asks(), false), size as nat),
            r is None <==> size == 0 || total_size(self.asks()) == 0,
            match r {
                Some(fill) => fill.0 == if size <= total_size(self.asks()) {
                    size as nat
                } else {
                    total_size(self.asks())
                },
                None => true,
            },
    {
        proof {
            lemma_sweep_filled(self.asks@, size as nat);
        }
        let swept = sweep_side(&self.asks, false, size);
        if swept.0 > 0 {
            Some((swept.0, average_price(swept.0, swept.1), false))
        } else {
            None
        }
    }

    /// Fills a market sell of `size` against the bids, highest first. Returns
    /// as `sweep_market_buy` does.
    pub fn sweep_market_sell(&self, size: u64) -> (r: Option<(u64, u64, bool)>)
        ensures
            r == market_fill(best_first(self.bids(), true), size as nat),
            r is None <==> size == 0 || total_size(self.bids()) == 0,
            match r {
                Some(fill) => fill.0 == if size <= total_size(self.bids()) {
                    size as nat
                } else {
                    total_size(self.bids())
                },
                None => true,
            },
    {
        proof {
            lemma_sweep_filled(self.bids@.reverse(), size as nat);
            lemma_total_reverse(self.bids@);
        }
        let swept = sweep_side(&self.bids, true, size);
        if swept.0 > 0 {
            Some((swept.0, average_price(swept.0, swept.1), false))
        } else {
            None
        }
    }

    /// Two books that show the same snapshot have the same levels, and so
    /// the same best prices, depths and fills.
    pub proof fn lemma_snapshot_determines_book(
        self,
        other: OrderBook,
        levels: Seq<Vec<OrderLevel>>,
    )
        requires
            self.reflects(levels),
            other.reflects(levels),
        ensures
            self.bids() == other.bids(),
            self.asks() == other.asks(),
            self.best_bid_of() == other.best_bid_of(),
            self.best_ask_of() == other.best_ask_of(),
            self.mid_price_of() == other.mid_price_of(),
            forall|px: u64, above: bool|
                depth_to(self.bids(), px, above) == depth_to(other.bids(), px, above),
            forall|px: u64, above: bool|
                depth_to(self.asks(), px, above) == depth_to(other.asks(), px, above),
    {
        lemma_side_unique(self.bids(), other.bids());
        lemma_side_unique(self.asks(), other.asks());
    }
}

} // verus!
