//! Price levels in order: the defined ordering and what sorting by it gives,
//! and the best price of each side of the book.

use crate::binance::{level_order, precedes, Order, OrderBook, Side};
use crate::decimal::{Decimal, DecimalView};
use std::cmp::Ordering;
use vstd::prelude::*;

verus! {

/// The level at `i` has the lowest price, and is the first that has it.
pub open spec fn is_lowest_at(levels: Seq<Order>, i: int) -> bool {
    &&& 0 <= i < levels.len()
    &&& forall|j: int|
        0 <= j < levels.len() ==> levels[i].price@.units() <= (#[trigger] levels[j]).price@.units()
    &&& forall|j: int|
        0 <= j < i ==> levels[i].price@.units() < (#[trigger] levels[j]).price@.units()
}

/// The level at `i` has the highest price, and is the last that has it.
pub open spec fn is_highest_at(levels: Seq<Order>, i: int) -> bool {
    &&& 0 <= i < levels.len()
    &&& forall|j: int|
        0 <= j < levels.len() ==> levels[i].price@.units() >= (#[trigger] levels[j]).price@.units()
    &&& forall|j: int|
        i < j < levels.len() ==> levels[i].price@.units() > (#[trigger] levels[j]).price@.units()
}

/// The lowest price among the levels; of several equal ones, the first.
pub open spec fn lowest_price(levels: Seq<Order>) -> DecimalView {
    levels[choose|i: int| is_lowest_at(levels, i)].price@
}

/// The highest price among the levels; of several equal ones, the last.
pub open spec fn highest_price(levels: Seq<Order>) -> DecimalView {
    levels[choose|i: int| is_highest_at(levels, i)].price@
}

/// Only one level is the first of lowest price, and only one the last of
/// highest price.
pub proof fn lemma_best_levels_are_unique(levels: Seq<Order>, i: int, j: int)
    ensures
        is_lowest_at(levels, i) && is_lowest_at(levels, j) ==> i == j,
        is_highest_at(levels, i) && is_highest_at(levels, j) ==> i == j,
{
    if is_lowest_at(levels, i) && is_lowest_at(levels, j) {
        if i < j {
            assert(levels[j].price@.units() < levels[i].price@.units());
            assert(levels[i].price@.units() <= levels[j].price@.units());
        } else if j < i {
            assert(levels[i].price@.units() < levels[j].price@.units());
            assert(levels[j].price@.units() <= levels[i].price@.units());
        }
    }
    if is_highest_at(levels, i) && is_highest_at(levels, j) {
        if i < j {
            assert(levels[i].price@.units() > levels[j].price@.units());
            assert(levels[j].price@.units() >= levels[i].price@.units());
        } else if j < i {
            assert(levels[j].price@.units() > levels[i].price@.units());
            assert(levels[i].price@.units() >= levels[j].price@.units());
        }
    }
}

impl OrderBook {
    /// The lowest price asked, found by looking at every ask; `None` where
    /// there is no ask.
    pub fn lowest_ask(&self) -> (r: Option<Decimal>)
        ensures
            r is Some <==> self.asks@.len() > 0,
            r matches Some(price) ==> price@ == lowest_price(self.asks@),
            r is Some ==> exists|i: int| is_lowest_at(self.asks@, i),
    {
        if self.asks.len() == 0 {
            return None;
        }
        let mut best = self.asks[0].price;
        let ghost mut found: int = 0;
        let mut i: usize = 1;
        while i < self.asks.len()
            invariant
                1 <= i <= self.asks.len(),
                best@ == self.asks[found].price@,
                is_lowest_at(self.asks@.take(i as int), found),
            decreases self.asks.len() - i,
        {
            let price = self.asks[i].price;
            proof {
                let seen = self.asks@.take(i as int);
                let next = self.asks@.take(i + 1);
                let chosen = if price@.units() < best@.units() {
                    i as int
                } else {
                    found
                };
                assert forall|j: int| 0 <= j < next.len() implies next[chosen].price@.units() <= (
                #[trigger] next[j]).price@.units() by {
                    if j < i {
                        assert(next[j] == seen[j]);
                    }
                }
                assert forall|j: int| 0 <= j < chosen implies next[chosen].price@.units() < (
                #[trigger] next[j]).price@.units() by {
                    assert(next[j] == seen[j]);
                }
                assert(is_lowest_at(next, chosen));
            }
            if price.is_below(&best) {
                best = price;
                proof {
                    found = i as int;
                }
            }
            i += 1;
        }
        proof {
            assert(self.asks@.take(i as int) =~= self.asks@);
            lemma_best_levels_are_unique(
                self.asks@,
                found,
                choose|i: int| is_lowest_at(self.asks@, i),
            );
        }
        Some(best)
    }

    /// The highest price bid, found by looking at every bid; `None` where
    /// there is no bid.
    pub fn highest_bid(&self) -> (r: Option<Decimal>)
        ensures
            r is Some <==> self.bids@.len() > 0,
            r matches Some(price) ==> price@ == highest_price(self.bids@),
            r is Some ==> exists|i: int| is_highest_at(self.bids@, i),
    {
        if self.bids.len() == 0 {
            return None;
        }
        let mut best = self.bids[0].price;
        let ghost mut found: int = 0;
        let mut i: usize = 1;
        while i < self.bids.len()
            invariant
                1 <= i <= self.bids.len(),
                best@ == self.bids[found].price@,
                is_highest_at(self.bids@.take(i as int), found),
            decreases self.bids.len() - i,
        {
            let price = self.bids[i].price;
            proof {
                let seen = self.bids@.take(i as int);
                let next = self.bids@.take(i + 1);
                let chosen = if price@.units() < best@.units() {
                    found
                } else {
                    i as int
                };
                assert forall|j: int| 0 <= j < next.len() implies next[chosen].price@.units() >= (
                #[trigger] next[j]).price@.units() by {
                    if j < i {
                        assert(next[j] == seen[j]);
                    }
                }
                assert forall|j: int| chosen < j < next.len() implies next[chosen].price@.units()
                    > (#[trigger] next[j]).price@.units() by {
                    if j < i {
                        assert(next[j] == seen[j]);
                    }
                }
                assert(is_highest_at(next, chosen));
            }
            if !price.is_below(&best) {
                best = price;
                proof {
                    found = i as int;
                }
            }
            i += 1;
        }
        proof {
            assert(self.bids@.take(i as int) =~= self.bids@);
            lemma_best_levels_are_unique(
                self.bids@,
                found,
                choose|i: int| is_highest_at(self.bids@, i),
            );
        }
        Some(best)
    }
}

/// All levels are on the given side.
pub open spec fn all_on_side(levels: Seq<Order>, side: Side) -> bool {
    forall|i: int| 0 <= i < levels.len() ==> (#[trigger] levels[i]).side == side
}

/// All levels are on one side.
pub open spec fn same_side(levels: Seq<Order>) -> bool {
    all_on_side(levels, Side::Buy) || all_on_side(levels, Side::Sell)
}

/// No two levels have the same price.
pub open spec fn prices_distinct(levels: Seq<Order>) -> bool {
    forall|i: int, j: int|
        #![trigger levels[i], levels[j]]
        0 <= i < j < levels.len() ==> levels[i].price@.units() != levels[j].price@.units()
}

/// The levels are sorted by the defined ordering: none comes strictly before
/// a level that stands earlier in the sequence.
pub open spec fn in_level_order(levels: Seq<Order>) -> bool {
    forall|i: int, j: int|
        #![trigger levels[i], levels[j]]
        0 <= i < j < levels.len() ==> !precedes(levels[j], levels[i])
}

/// Each level has a higher price than every later one.
pub open spec fn strictly_descending(levels: Seq<Order>) -> bool {
    forall|i: int, j: int|
        #![trigger levels[i], levels[j]]
        0 <= i < j < levels.len() ==> levels[i].price@.units() > levels[j].price@.units()
}

/// Each level has a lower price than every later one.
pub open spec fn strictly_ascending(levels: Seq<Order>) -> bool {
    forall|i: int, j: int|
        #![trigger levels[i], levels[j]]
        0 <= i < j < levels.len() ==> levels[i].price@.units() < levels[j].price@.units()
}

/// The comparison of two levels says "less" exactly where the first comes
/// strictly before the second, and "equal" exactly where their prices agree.
pub proof fn lemma_level_order_agrees(a: Order, b: Order)
    ensures
        level_order(a, b) == Ordering::Less <==> precedes(a, b),
        level_order(a, b) == Ordering::Equal <==> a.price@.units() == b.price@.units(),
{
}

/// Buy levels of distinct prices, sorted by the defined ordering, stand in
/// strictly descending order of price.
pub proof fn lemma_sorted_bids_descend(levels: Seq<Order>)
    requires
        all_on_side(levels, Side::Buy),
        prices_distinct(levels),
        in_level_order(levels),
    ensures
        strictly_descending(levels),
{
}

/// Sell levels of distinct prices, sorted by the defined ordering, stand in
/// strictly ascending order of price.
pub proof fn lemma_sorted_asks_ascend(levels: Seq<Order>)
    requires
        all_on_side(levels, Side::Sell),
        prices_distinct(levels),
        in_level_order(levels),
    ensures
        strictly_ascending(levels),
{
}

/// Two sequences that hold the same levels: what occurs in one occurs in
/// the other.
proof fn lemma_same_levels_contain(a: Seq<Order>, b: Seq<Order>, level: Order)
    requires
        a.to_multiset() == b.to_multiset(),
        a.contains(level),
    ensures
        b.contains(level),
{
    a.to_multiset_ensures();
    b.to_multiset_ensures();
    assert(a.to_multiset().count(level) > 0);
    assert(b.to_multiset().count(level) > 0);
}

/// A rearrangement of levels on one side holds levels on that side, and a
/// rearrangement of levels of distinct prices holds levels of distinct prices.
pub proof fn lemma_rearranged_levels(a: Seq<Order>, b: Seq<Order>, side: Side)
    requires
        a.to_multiset() == b.to_multiset(),
    ensures
        all_on_side(a, side) ==> all_on_side(b, side),
        prices_distinct(a) ==> prices_distinct(b),
{
    if all_on_side(a, side) {
        assert forall|i: int| 0 <= i < b.len() implies (#[trigger] b[i]).side == side by {
            assert(b.contains(b[i]));
            lemma_same_levels_contain(b, a, b[i]);
            let p = choose|p: int| 0 <= p < a.len() && a[p] == b[i];
            assert(a[p].side == side);
        }
    }
    if prices_distinct(a) {
        assert(a.no_duplicates()) by {
            assert forall|i: int, j: int| 0 <= i < a.len() && 0 <= j < a.len() && i != j implies a[i]
                != a[j] by {
                if i < j {
                    assert(a[i].price@.units() != a[j].price@.units());
                } else {
                    assert(a[j].price@.units() != a[i].price@.units());
                }
            }
        }
        a.lemma_multiset_has_no_duplicates();
        b.lemma_multiset_has_no_duplicates_conv();
        assert forall|i: int, j: int|
            #![trigger b[i], b[j]]
            0 <= i < j < b.len() implies b[i].price@.units() != b[j].price@.units() by {
            assert(b.contains(b[i]) && b.contains(b[j]));
            lemma_same_levels_contain(b, a, b[i]);
            lemma_same_levels_contain(b, a, b[j]);
            let p = choose|p: int| 0 <= p < a.len() && a[p] == b[i];
            let q = choose|q: int| 0 <= q < a.len() && a[q] == b[j];
            assert(b[i] != b[j]);
            if p < q {
                assert(a[p].price@.units() != a[q].price@.units());
            } else {
                assert(a[q].price@.units() != a[p].price@.units());
            }
        }
    }
}

/// Putting a level into sorted levels of its side, behind every level it does
/// not come before and in front of those it comes before, leaves them sorted.
proof fn lemma_insert_keeps_order(before: Seq<Order>, at: int, level: Order)
    requires
        0 <= at <= before.len(),
        in_level_order(before),
        forall|k: int| 0 <= k < before.len() ==> (#[trigger] before[k]).side == level.side,
        forall|k: int| at <= k < before.len() ==> precedes(level, #[trigger] before[k]),
        at > 0 ==> !precedes(level, before[at - 1]),
    ensures
        in_level_order(before.insert(at, level)),
{
    let after = before.insert(at, level);
    before.insert_ensures(at, level);
    assert forall|x: int, y: int|
        #![trigger after[x], after[y]]
        0 <= x < y < after.len() implies !precedes(after[y], after[x]) by {
        if y < at {
            assert(after[x] == before[x] && after[y] == before[y]);
        } else if y == at {
            assert(after[x] == before[x]);
            assert(before[at - 1].side == level.side);
            assert(before[x].side == level.side);
            if x < at - 1 {
                assert(!precedes(before[at - 1], before[x]));
            }
        } else if x == at {
            assert(after[y] == before[y - 1]);
            assert(precedes(level, before[y - 1]));
            assert(before[y - 1].side == level.side);
        } else if x < at {
            assert(after[x] == before[x] && after[y] == before[y - 1]);
        } else {
            assert(after[x] == before[x - 1] && after[y] == before[y - 1]);
        }
    }
}

/// `origin` names, for each place of `after`, the place of `before` from which
/// its level came: every place of `before` once, and of two levels of which
/// neither comes before the other, the one that stood first stands first.
pub open spec fn rearranges_keeping_ties(before: Seq<Order>, after: Seq<Order>, origin: Seq<int>) -> bool {
    &&& after.len() == before.len()
    &&& origin.len() == before.len()
    &&& forall|k: int|
        0 <= k < after.len() ==> 0 <= #[trigger] origin[k] < before.len() && after[k]
            == before[origin[k]]
    &&& forall|k: int, l: int|
        #![trigger origin[k], origin[l]]
        0 <= k < l < after.len() ==> origin[k] != origin[l]
    &&& forall|k: int, l: int|
        #![trigger origin[k], origin[l]]
        0 <= k < l < after.len() && !precedes(after[k], after[l]) && !precedes(after[l], after[k])
            ==> origin[k] < origin[l]
}

/// The second sequence holds the levels of the first, and levels of which
/// neither comes before the other stand in it as they stood in the first.
pub open spec fn is_stable_rearrangement(before: Seq<Order>, after: Seq<Order>) -> bool {
    exists|origin: Seq<int>| rearranges_keeping_ties(before, after, origin)
}

/// Putting the next level behind every level it does not come before keeps
/// the record of where each level came from.
proof fn lemma_insert_keeps_ties(
    levels: Seq<Order>,
    i: int,
    before: Seq<Order>,
    origin: Seq<int>,
    at: int,
)
    requires
        0 <= i < levels.len(),
        0 <= at <= before.len(),
        rearranges_keeping_ties(levels.take(i), before, origin),
        forall|k: int| at <= k < before.len() ==> precedes(levels[i], #[trigger] before[k]),
    ensures
        rearranges_keeping_ties(
            levels.take(i + 1),
            before.insert(at, levels[i]),
            origin.insert(at, i),
        ),
{
    let after = before.insert(at, levels[i]);
    let from = origin.insert(at, i);
    before.insert_ensures(at, levels[i]);
    origin.insert_ensures(at, i);
    assert forall|k: int| 0 <= k < after.len() implies 0 <= #[trigger] from[k] < i + 1 && after[k]
        == levels.take(i + 1)[from[k]] by {
        if k < at {
            assert(from[k] == origin[k] && after[k] == before[k]);
        } else if k > at {
            assert(from[k] == origin[k - 1] && after[k] == before[k - 1]);
        }
    }
    assert forall|k: int, l: int|
        #![trigger from[k], from[l]]
        0 <= k < l < after.len() implies from[k] != from[l] && (!precedes(after[k], after[l])
        && !precedes(after[l], after[k]) ==> from[k] < from[l]) by {
        if l < at {
            assert(from[k] == origin[k] && from[l] == origin[l]);
            assert(after[k] == before[k] && after[l] == before[l]);
        } else if l == at {
            assert(from[k] == origin[k]);
        } else if k == at {
            assert(after[l] == before[l - 1] && from[l] == origin[l - 1]);
        } else if k < at {
            assert(from[k] == origin[k] && from[l] == origin[l - 1]);
            assert(after[k] == before[k] && after[l] == before[l - 1]);
        } else {
            assert(from[k] == origin[k - 1] && from[l] == origin[l - 1]);
            assert(after[k] == before[k - 1] && after[l] == before[l - 1]);
        }
    }
}

/// Sorts levels by the defined ordering, keeping levels of which neither
/// comes before the other in the order they had. Levels of both sides mixed
/// are only rearranged: the defined ordering does not order them.
pub fn sort_levels(levels: &mut Vec<Order>)
    ensures
        final(levels)@.to_multiset() == old(levels)@.to_multiset(),
        is_stable_rearrangement(old(levels)@, final(levels)@),
        same_side(old(levels)@) ==> in_level_order(final(levels)@),
        all_on_side(old(levels)@, Side::Buy) && prices_distinct(old(levels)@)
            ==> strictly_descending(final(levels)@),
        all_on_side(old(levels)@, Side::Sell) && prices_distinct(old(levels)@)
            ==> strictly_ascending(final(levels)@),
{
    let mut sorted: Vec<Order> = Vec::new();
    let ghost mut origin: Seq<int> = Seq::empty();
    let mut i: usize = 0;
    assert(levels@.take(0) =~= sorted@);
    while i < levels.len()
        invariant
            i <= levels.len(),
            levels@ == old(levels)@,
            sorted@.to_multiset() == levels@.take(i as int).to_multiset(),
            rearranges_keeping_ties(levels@.take(i as int), sorted@, origin),
            forall|k: int| 0 <= k < sorted.len() ==> levels@.contains(#[trigger] sorted[k]),
            same_side(levels@) ==> in_level_order(sorted@),
        decreases levels.len() - i,
    {
        let level = levels[i];
        let mut at: usize = sorted.len();
        while at > 0 && level.comes_before(&sorted[at - 1])
            invariant
                at <= sorted.len(),
                forall|k: int| at <= k < sorted.len() ==> precedes(level, #[trigger] sorted[k]),
            decreases at,
        {
            at -= 1;
        }
        let ghost before = sorted@;
        sorted.insert(at, level);
        proof {
            assert(levels@.contains(level));
            assert(levels@.take(i + 1) =~= levels@.take(i as int).push(level));
            vstd::seq_lib::to_multiset_insert(before, at as int, level);
            vstd::seq_lib::to_multiset_build(levels@.take(i as int), level);
            before.insert_ensures(at as int, level);
            lemma_insert_keeps_ties(levels@, i as int, before, origin, at as int);
            origin = origin.insert(at as int, i as int);
            assert forall|k: int| 0 <= k < sorted.len() implies levels@.contains(
                #[trigger] sorted[k],
            ) by {
                if k < at {
                    assert(sorted[k] == before[k]);
                } else if k > at {
                    assert(sorted[k] == before[k - 1]);
                }
            }
            if same_side(levels@) {
                assert forall|k: int| 0 <= k < before.len() implies (#[trigger] before[k]).side
                    == level.side by {
                    assert(levels@.contains(before[k]));
                }
                lemma_insert_keeps_order(before, at as int, level);
            }
        }
        i += 1;
    }
    proof {
        assert(levels@.take(i as int) =~= levels@);
        lemma_rearranged_levels(levels@, sorted@, Side::Buy);
        lemma_rearranged_levels(levels@, sorted@, Side::Sell);
        if all_on_side(levels@, Side::Buy) && prices_distinct(levels@) {
            lemma_sorted_bids_descend(sorted@);
        }
        if all_on_side(levels@, Side::Sell) && prices_distinct(levels@) {
            lemma_sorted_asks_ascend(sorted@);
        }
    }
    *levels = sorted;
}

/// Among levels, if there are any, one is the first of lowest price and one
/// the last of highest price: the lowest and the highest price are prices of
/// levels, and no level has a lower or a higher one.
pub proof fn lemma_best_levels_exist(levels: Seq<Order>)
    requires
        levels.len() > 0,
    ensures
        exists|i: int| is_lowest_at(levels, i),
        exists|i: int| is_highest_at(levels, i),
        is_lowest_at(levels, choose|i: int| is_lowest_at(levels, i)),
        is_highest_at(levels, choose|i: int| is_highest_at(levels, i)),
    decreases levels.len(),
{
    if levels.len() == 1 {
        assert(is_lowest_at(levels, 0));
        assert(is_highest_at(levels, 0));
    } else {
        let before = levels.drop_last();
        let n = levels.len() - 1;
        lemma_best_levels_exist(before);
        let low = choose|i: int| is_lowest_at(before, i);
        let high = choose|i: int| is_highest_at(before, i);
        let lowest = if levels[n].price@.units() < before[low].price@.units() {
            n
        } else {
            low
        };
        let highest = if levels[n].price@.units() < before[high].price@.units() {
            high
        } else {
            n
        };
        assert forall|j: int| 0 <= j < levels.len() implies levels[lowest].price@.units() <= (
        #[trigger] levels[j]).price@.units() && levels[highest].price@.units()
            >= levels[j].price@.units() by {
            if j < n {
                assert(levels[j] == before[j]);
            }
        }
        assert forall|j: int| 0 <= j < lowest implies levels[lowest].price@.units() < (
        #[trigger] levels[j]).price@.units() by {
            assert(levels[j] == before[j]);
        }
        assert forall|j: int| highest < j < levels.len() implies levels[highest].price@.units() > (
        #[trigger] levels[j]).price@.units() by {
            if j < n {
                assert(levels[j] == before[j]);
            }
        }
        assert(is_lowest_at(levels, lowest));
        assert(is_highest_at(levels, highest));
    }
}

/// The lowest and the highest price do not depend on the order of the
/// levels: two sequences that hold the same levels give the same numbers,
/// and, where no two levels share a price, the same decimals.
pub proof fn lemma_best_prices_ignore_order(a: Seq<Order>, b: Seq<Order>)
    requires
        a.len() > 0,
        a.to_multiset() == b.to_multiset(),
    ensures
        lowest_price(a).units() == lowest_price(b).units(),
        highest_price(a).units() == highest_price(b).units(),
        prices_distinct(a) ==> lowest_price(a) == lowest_price(b),
        prices_distinct(a) ==> highest_price(a) == highest_price(b),
{
    assert(b.len() == a.len()) by {
        a.to_multiset_ensures();
        b.to_multiset_ensures();
    }
    lemma_best_levels_exist(a);
    lemma_best_levels_exist(b);
    let la = choose|i: int| is_lowest_at(a, i);
    let lb = choose|i: int| is_lowest_at(b, i);
    let ha = choose|i: int| is_highest_at(a, i);
    let hb = choose|i: int| is_highest_at(b, i);
    assert(a.contains(a[la]) && a.contains(a[ha]));
    assert(b.contains(b[lb]) && b.contains(b[hb]));
    lemma_same_levels_contain(a, b, a[la]);
    lemma_same_levels_contain(a, b, a[ha]);
    lemma_same_levels_contain(b, a, b[lb]);
    lemma_same_levels_contain(b, a, b[hb]);
    let la_in_b = choose|i: int| 0 <= i < b.len() && b[i] == a[la];
    let ha_in_b = choose|i: int| 0 <= i < b.len() && b[i] == a[ha];
    let lb_in_a = choose|i: int| 0 <= i < a.len() && a[i] == b[lb];
    let hb_in_a = choose|i: int| 0 <= i < a.len() && a[i] == b[hb];
    assert(b[lb].price@.units() <= b[la_in_b].price@.units());
    assert(a[la].price@.units() <= a[lb_in_a].price@.units());
    assert(b[hb].price@.units() >= b[ha_in_b].price@.units());
    assert(a[ha].price@.units() >= a[hb_in_a].price@.units());
    if prices_distinct(a) {
        if la < lb_in_a {
            assert(a[la].price@.units() != a[lb_in_a].price@.units());
        } else if lb_in_a < la {
            assert(a[lb_in_a].price@.units() != a[la].price@.units());
        }
        if ha < hb_in_a {
            assert(a[ha].price@.units() != a[hb_in_a].price@.units());
        } else if hb_in_a < ha {
            assert(a[hb_in_a].price@.units() != a[ha].price@.units());
        }
    }
}

} // verus!
