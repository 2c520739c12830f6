//! The order book of one outcome of one market: resting buy and sell orders
//! grouped in price levels, best price first, earliest order first within a
//! level, and an index from order id to side and price for cancellation.
use crate::decimal::{Dec, dec_compare, dec_checked_sub, sign};
use crate::model::{Instant, Order};
use std::collections::HashMap;
use std::collections::VecDeque;
use vstd::prelude::*;

verus! {

broadcast use vstd::std_specs::hash::group_hash_axioms, vstd::std_specs::vecdeque::group_vec_dequeue_axioms;

/// One price level: its price and its orders, oldest first.
pub type LevelState = (Dec, Seq<Order>);

/// The contents of a book: the buy levels (highest price first), the sell
/// levels (lowest price first) and the cancellation index.
pub struct BookState {
    pub buys: Seq<LevelState>,
    pub sells: Seq<LevelState>,
    pub index: Map<u128, (bool, Dec)>,
}

/// Price `p` is strictly better than price `q` on the given side: higher for
/// buys, lower for sells.
pub open spec fn better(p: Dec, q: Dec, is_buy: bool) -> bool {
    if is_buy {
        p.value() > q.value()
    } else {
        p.value() < q.value()
    }
}

/// Levels are non-empty, hold representable orders at the level's price, and
/// are strictly ordered best price first.
pub open spec fn levels_wf(ls: Seq<LevelState>, is_buy: bool) -> bool {
    &&& forall|i: int| 0 <= i < ls.len() ==> (#[trigger] ls[i]).0.wf() && ls[i].1.len() > 0
    &&& forall|i: int, j: int|
        0 <= i < ls.len() && 0 <= j < ls[i].1.len() ==> (#[trigger] ls[i].1[j]).wf()
            && ls[i].1[j].price.value() == ls[i].0.value()
    &&& forall|i: int, j: int|
        0 <= i < j < ls.len() ==> better(#[trigger] ls[i].0, #[trigger] ls[j].0, is_buy)
}

pub open spec fn index_wf(index: Map<u128, (bool, Dec)>) -> bool {
    forall|id: u128| #[trigger] index.contains_key(id) ==> index[id].1.wf()
}

/// Some order of `s` has the id `id`.
pub open spec fn holds_id(s: Seq<Order>, id: u128) -> bool {
    exists|k: int| 0 <= k < s.len() && (#[trigger] s[k]).id == id
}

/// Every order resting in the book: the buys in priority order, then the
/// sells in priority order.
pub open spec fn resting_orders(b: BookState) -> Seq<Order> {
    flatten(b.buys) + flatten(b.sells)
}

/// An order with id `id` rests in the book.
pub open spec fn rests(b: BookState, id: u128) -> bool {
    holds_id(resting_orders(b), id)
}

/// Every id in the cancellation index belongs to an order resting in the
/// book.
pub open spec fn index_covered(b: BookState) -> bool {
    forall|id: u128| #[trigger] b.index.contains_key(id) ==> rests(b, id)
}

impl BookState {
    /// Levels are well formed on both sides, indexed prices are
    /// representable, and only resting orders are indexed.
    pub open spec fn wf(self) -> bool {
        &&& levels_wf(self.buys, true)
        &&& levels_wf(self.sells, false)
        &&& index_wf(self.index)
        &&& index_covered(self)
    }

    pub open spec fn side(self, is_buy: bool) -> Seq<LevelState> {
        if is_buy {
            self.buys
        } else {
            self.sells
        }
    }

    pub open spec fn with_side(self, is_buy: bool, ls: Seq<LevelState>) -> BookState {
        if is_buy {
            BookState { buys: ls, ..self }
        } else {
            BookState { sells: ls, ..self }
        }
    }

    /// The empty book.
    pub open spec fn empty() -> BookState {
        BookState { buys: Seq::empty(), sells: Seq::empty(), index: Map::empty() }
    }

    /// The best resting order of a side.
    pub open spec fn best(self, is_buy: bool) -> Order {
        self.side(is_buy)[0].1[0]
    }

    pub open spec fn has_best(self, is_buy: bool) -> bool {
        self.side(is_buy).len() > 0
    }

    /// Removes the best order of a side and its index entry.
    pub open spec fn remove_best(self, is_buy: bool) -> BookState {
        let o = self.best(is_buy);
        BookState {
            index: self.index.remove(o.id),
            ..self.with_side(is_buy, pop_best(self.side(is_buy)))
        }
    }

    /// Replaces the best order of a side, keeping its place in the queue.
    pub open spec fn set_best(self, is_buy: bool, o: Order) -> BookState {
        self.with_side(is_buy, set_best(self.side(is_buy), o))
    }

    /// Adds an order behind all orders of equal or better price.
    pub open spec fn add(self, o: Order, is_buy: bool) -> BookState {
        BookState {
            index: self.index.insert(o.id, (is_buy, o.price)),
            ..self.with_side(is_buy, insert_level(self.side(is_buy), o, is_buy))
        }
    }
}

/// Number of levels plus number of orders: every removal lowers it.
pub open spec fn depth(ls: Seq<LevelState>) -> nat
    decreases ls.len(),
{
    if ls.len() == 0 {
        0
    } else {
        1 + ls[0].1.len() + depth(ls.drop_first())
    }
}

/// All the orders of the levels, in priority order.
pub open spec fn flatten(ls: Seq<LevelState>) -> Seq<Order>
    decreases ls.len(),
{
    if ls.len() == 0 {
        Seq::empty()
    } else {
        ls[0].1 + flatten(ls.drop_first())
    }
}

/// The levels without their best order; a level left empty disappears.
pub open spec fn pop_best(ls: Seq<LevelState>) -> Seq<LevelState> {
    if ls.len() == 0 {
        ls
    } else if ls[0].1.len() <= 1 {
        ls.drop_first()
    } else {
        ls.update(0, (ls[0].0, ls[0].1.drop_first()))
    }
}

pub open spec fn set_best(ls: Seq<LevelState>, o: Order) -> Seq<LevelState> {
    ls.update(0, (ls[0].0, ls[0].1.update(0, o)))
}

/// Number of leading levels whose price is strictly better than `p`.
pub open spec fn find_pos(ls: Seq<LevelState>, p: Dec, is_buy: bool) -> nat
    decreases ls.len(),
{
    if ls.len() == 0 {
        0
    } else if better(ls[0].0, p, is_buy) {
        1 + find_pos(ls.drop_first(), p, is_buy)
    } else {
        0
    }
}

/// Adds `o` at the back of the level of its price, creating the level at its
/// place in the price order when there is none.
pub open spec fn insert_level(ls: Seq<LevelState>, o: Order, is_buy: bool) -> Seq<LevelState> {
    let k = find_pos(ls, o.price, is_buy) as int;
    if k < ls.len() && ls[k].0.value() == o.price.value() {
        ls.update(k, (ls[k].0, ls[k].1.push(o)))
    } else {
        ls.insert(k, (o.price, seq![o]))
    }
}

pub proof fn lemma_pop_best_depth(ls: Seq<LevelState>)
    requires
        ls.len() > 0,
    ensures
        depth(pop_best(ls)) < depth(ls),
{
    let p = pop_best(ls);
    if ls[0].1.len() > 1 {
        assert(p.drop_first() =~= ls.drop_first());
    }
}

/// Removes expired orders from the front of a side, one best order at a time,
/// until the best order is live or the side is empty.
pub open spec fn drop_expired(b: BookState, is_buy: bool, now: Instant) -> BookState
    decreases depth(b.side(is_buy)),
{
    if b.has_best(is_buy) && b.best(is_buy).expires_at <= now {
        proof {
            lemma_pop_best_depth(b.side(is_buy));
        }
        drop_expired(b.remove_best(is_buy), is_buy, now)
    } else {
        b
    }
}

pub proof fn lemma_find_pos(ls: Seq<LevelState>, p: Dec, is_buy: bool)
    ensures
        find_pos(ls, p, is_buy) <= ls.len(),
        forall|i: int| 0 <= i < find_pos(ls, p, is_buy) ==> better(#[trigger] ls[i].0, p, is_buy),
        find_pos(ls, p, is_buy) < ls.len() ==> !better(ls[find_pos(ls, p, is_buy) as int].0, p, is_buy),
    decreases ls.len(),
{
    if ls.len() > 0 && better(ls[0].0, p, is_buy) {
        lemma_find_pos(ls.drop_first(), p, is_buy);
        let k = find_pos(ls, p, is_buy);
        assert forall|i: int| 0 <= i < k implies better(#[trigger] ls[i].0, p, is_buy) by {
            if i > 0 {
                assert(ls[i] == ls.drop_first()[i - 1]);
            }
        }
        if k < ls.len() {
            assert(ls[k as int] == ls.drop_first()[k - 1]);
        }
    }
}

pub proof fn lemma_pop_best_wf(ls: Seq<LevelState>, is_buy: bool)
    requires
        levels_wf(ls, is_buy),
    ensures
        levels_wf(pop_best(ls), is_buy),
{
    if ls.len() > 0 {
        let p = pop_best(ls);
        if ls[0].1.len() <= 1 {
            assert forall|i: int, j: int| 0 <= i < j < p.len() implies better(
                #[trigger] p[i].0,
                #[trigger] p[j].0,
                is_buy,
            ) by {
                assert(p[i] == ls[i + 1] && p[j] == ls[j + 1]);
            }
            assert forall|i: int, j: int| 0 <= i < p.len() && 0 <= j < p[i].1.len() implies (
            #[trigger] p[i].1[j]).wf() && p[i].1[j].price.value() == p[i].0.value() by {
                assert(p[i] == ls[i + 1]);
            }
            assert forall|i: int| 0 <= i < p.len() implies (#[trigger] p[i]).0.wf() && p[i].1.len() > 0 by {
                assert(p[i] == ls[i + 1]);
            }
        } else {
            assert forall|i: int, j: int| 0 <= i < p.len() && 0 <= j < p[i].1.len() implies (
            #[trigger] p[i].1[j]).wf() && p[i].1[j].price.value() == p[i].0.value() by {
                if i == 0 {
                    assert(p[0].1[j] == ls[0].1[j + 1]);
                }
            }
            assert forall|i: int, j: int| 0 <= i < j < p.len() implies better(
                #[trigger] p[i].0,
                #[trigger] p[j].0,
                is_buy,
            ) by {
                assert(p[i].0 == ls[i].0 && p[j].0 == ls[j].0);
            }
        }
    }
}

pub proof fn lemma_set_best_wf(ls: Seq<LevelState>, o: Order, is_buy: bool)
    requires
        levels_wf(ls, is_buy),
        ls.len() > 0,
        o.wf(),
        o.price.value() == ls[0].0.value(),
    ensures
        levels_wf(set_best(ls, o), is_buy),
{
    let p = set_best(ls, o);
    assert forall|i: int, j: int| 0 <= i < j < p.len() implies better(
        #[trigger] p[i].0,
        #[trigger] p[j].0,
        is_buy,
    ) by {
        assert(p[i].0 == ls[i].0 && p[j].0 == ls[j].0);
    }
}

pub proof fn lemma_insert_level_wf(ls: Seq<LevelState>, o: Order, is_buy: bool)
    requires
        levels_wf(ls, is_buy),
        o.wf(),
    ensures
        levels_wf(insert_level(ls, o, is_buy), is_buy),
{
    lemma_find_pos(ls, o.price, is_buy);
    let k = find_pos(ls, o.price, is_buy) as int;
    let p = insert_level(ls, o, is_buy);
    if k < ls.len() && ls[k].0.value() == o.price.value() {
        assert forall|i: int, j: int| 0 <= i < j < p.len() implies better(
            #[trigger] p[i].0,
            #[trigger] p[j].0,
            is_buy,
        ) by {
            assert(p[i].0 == ls[i].0 && p[j].0 == ls[j].0);
        }
        assert forall|i: int, j: int| 0 <= i < p.len() && 0 <= j < p[i].1.len() implies (
        #[trigger] p[i].1[j]).wf() && p[i].1[j].price.value() == p[i].0.value() by {
            if i == k && j == ls[k].1.len() {
                assert(p[i].1[j] == o);
            }
        }
    } else {
        assert forall|i: int, j: int| 0 <= i < j < p.len() implies better(
            #[trigger] p[i].0,
            #[trigger] p[j].0,
            is_buy,
        ) by {
            if j < k {
                assert(p[i] == ls[i] && p[j] == ls[j]);
            } else if j == k {
                assert(p[i] == ls[i]);
            } else if i < k {
                assert(p[i] == ls[i] && p[j] == ls[j - 1]);
                assert(better(ls[i].0, ls[k].0, is_buy) || i == k);
            } else if i == k {
                assert(p[j] == ls[j - 1]);
                assert(k < ls.len());
                assert(!better(ls[k].0, o.price, is_buy));
                if j - 1 > k {
                    assert(better(ls[k].0, ls[j - 1].0, is_buy));
                }
            } else {
                assert(p[i] == ls[i - 1] && p[j] == ls[j - 1]);
            }
        }
        assert forall|i: int, j: int| 0 <= i < p.len() && 0 <= j < p[i].1.len() implies (
        #[trigger] p[i].1[j]).wf() && p[i].1[j].price.value() == p[i].0.value() by {
            if i < k {
                assert(p[i] == ls[i]);
            } else if i > k {
                assert(p[i] == ls[i - 1]);
            }
        }
        assert forall|i: int| 0 <= i < p.len() implies (#[trigger] p[i]).0.wf() && p[i].1.len() > 0 by {
            if i < k {
                assert(p[i] == ls[i]);
            } else if i > k {
                assert(p[i] == ls[i - 1]);
            }
        }
    }
}

/// The orders of a level other than those with the given id, in order.
pub open spec fn without_id(s: Seq<Order>, id: u128) -> Seq<Order>
    decreases s.len(),
{
    if s.len() == 0 {
        s
    } else if s.last().id == id {
        without_id(s.drop_last(), id)
    } else {
        without_id(s.drop_last(), id).push(s.last())
    }
}

/// Position of the level whose price has the value of `p`; the number of
/// levels when there is none.
pub open spec fn level_of(ls: Seq<LevelState>, p: Dec) -> nat
    decreases ls.len(),
{
    if ls.len() == 0 {
        0
    } else if ls[0].0.value() == p.value() {
        0
    } else {
        1 + level_of(ls.drop_first(), p)
    }
}

/// Removes the orders with the given id from the level of price `p`; the
/// level disappears when it empties. The flag tells whether an order was
/// removed.
pub open spec fn remove_from_level(ls: Seq<LevelState>, p: Dec, id: u128) -> (Seq<LevelState>, bool) {
    let k = level_of(ls, p) as int;
    if k < ls.len() {
        let kept = without_id(ls[k].1, id);
        if kept.len() < ls[k].1.len() {
            if kept.len() == 0 {
                (ls.remove(k), true)
            } else {
                (ls.update(k, (ls[k].0, kept)), true)
            }
        } else {
            (ls, false)
        }
    } else {
        (ls, false)
    }
}

impl BookState {
    /// Cancels the order with the given id: its index entry goes, and the
    /// orders with that id leave the level of the indexed price on the indexed
    /// side. The flag tells whether an order left the book.
    pub open spec fn cancel(self, id: u128) -> (BookState, bool) {
        if self.index.contains_key(id) {
            let (is_buy, p) = self.index[id];
            let b0 = BookState { index: self.index.remove(id), ..self };
            let (ls, removed) = remove_from_level(self.side(is_buy), p, id);
            (b0.with_side(is_buy, ls), removed)
        } else {
            (self, false)
        }
    }
}

pub proof fn lemma_without_id(s: Seq<Order>, id: u128, v: int)
    requires
        forall|j: int| 0 <= j < s.len() ==> (#[trigger] s[j]).wf() && s[j].price.value() == v,
    ensures
        without_id(s, id).len() <= s.len(),
        forall|j: int|
            0 <= j < without_id(s, id).len() ==> (#[trigger] without_id(s, id)[j]).wf()
                && without_id(s, id)[j].price.value() == v,
        forall|j: int| 0 <= j < without_id(s, id).len() ==> (#[trigger] without_id(s, id)[j]).id != id,
    decreases s.len(),
{
    if s.len() > 0 {
        lemma_without_id(s.drop_last(), id, v);
    }
}

pub proof fn lemma_level_of(ls: Seq<LevelState>, p: Dec)
    ensures
        level_of(ls, p) <= ls.len(),
        level_of(ls, p) < ls.len() ==> ls[level_of(ls, p) as int].0.value() == p.value(),
        forall|i: int| 0 <= i < level_of(ls, p) ==> (#[trigger] ls[i]).0.value() != p.value(),
    decreases ls.len(),
{
    if ls.len() > 0 && ls[0].0.value() != p.value() {
        lemma_level_of(ls.drop_first(), p);
        assert forall|i: int| 0 <= i < level_of(ls, p) implies (#[trigger] ls[i]).0.value() != p.value() by {
            if i > 0 {
                assert(ls[i] == ls.drop_first()[i - 1]);
            }
        }
        if level_of(ls, p) < ls.len() {
            assert(ls[level_of(ls, p) as int] == ls.drop_first()[level_of(ls, p) - 1]);
        }
    }
}

pub proof fn lemma_remove_from_level_wf(ls: Seq<LevelState>, p: Dec, id: u128, is_buy: bool)
    requires
        levels_wf(ls, is_buy),
    ensures
        levels_wf(remove_from_level(ls, p, id).0, is_buy),
{
    lemma_level_of(ls, p);
    let k = level_of(ls, p) as int;
    if k < ls.len() {
        lemma_without_id(ls[k].1, id, ls[k].0.value());
        let kept = without_id(ls[k].1, id);
        let r = remove_from_level(ls, p, id).0;
        if kept.len() < ls[k].1.len() {
            if kept.len() == 0 {
                assert forall|i: int, j: int| 0 <= i < j < r.len() implies better(
                    #[trigger] r[i].0,
                    #[trigger] r[j].0,
                    is_buy,
                ) by {
                    let a = if i < k { i } else { i + 1 };
                    let b = if j < k { j } else { j + 1 };
                    assert(r[i] == ls[a] && r[j] == ls[b]);
                }
                assert forall|i: int, j: int| 0 <= i < r.len() && 0 <= j < r[i].1.len() implies (
                #[trigger] r[i].1[j]).wf() && r[i].1[j].price.value() == r[i].0.value() by {
                    let a = if i < k { i } else { i + 1 };
                    assert(r[i] == ls[a]);
                }
                assert forall|i: int| 0 <= i < r.len() implies (#[trigger] r[i]).0.wf() && r[i].1.len() > 0 by {
                    let a = if i < k { i } else { i + 1 };
                    assert(r[i] == ls[a]);
                }
            } else {
                assert forall|i: int, j: int| 0 <= i < j < r.len() implies better(
                    #[trigger] r[i].0,
                    #[trigger] r[j].0,
                    is_buy,
                ) by {
                    assert(r[i].0 == ls[i].0 && r[j].0 == ls[j].0);
                }
                assert forall|i: int, j: int| 0 <= i < r.len() && 0 <= j < r[i].1.len() implies (
                #[trigger] r[i].1[j]).wf() && r[i].1[j].price.value() == r[i].0.value() by {
                    if i == k {
                        assert(r[i].1 == kept);
                    }
                }
            }
        }
    }
}

/// One price level of the book.
pub struct PriceLevel {
    pub price: Dec,
    pub orders: VecDeque<Order>,
}

/// The order book of one outcome.
pub struct OrderBook {
    buy: Vec<PriceLevel>,
    sell: Vec<PriceLevel>,
    index: HashMap<u128, (bool, Dec)>,
}

pub open spec fn levels_state(v: Seq<PriceLevel>) -> Seq<LevelState> {
    v.map_values(|l: PriceLevel| (l.price, l.orders@))
}

/// Takes the best order off a side, dropping its level when it empties.
fn pop_best_level(levels: &mut Vec<PriceLevel>) -> (r: Option<Order>)
    requires
        forall|i: int| 0 <= i < old(levels)@.len() ==> (#[trigger] old(levels)@[i]).orders@.len() > 0,
    ensures
        levels_state(final(levels)@) == pop_best(levels_state(old(levels)@)),
        old(levels)@.len() == 0 ==> r is None,
        old(levels)@.len() > 0 ==> r == Some(levels_state(old(levels)@)[0].1[0]),
{
    if levels.len() == 0 {
        return None;
    }
    let ghost ls = levels_state(levels@);
    let mut level = levels.remove(0);
    let o = level.orders.pop_front();
    if level.orders.len() > 0 {
        levels.insert(0, level);
        assert(levels_state(levels@) =~= pop_best(ls));
    } else {
        assert(levels_state(levels@) =~= pop_best(ls));
    }
    o
}

/// Replaces the best order of a non-empty side in place.
fn set_best_level(levels: &mut Vec<PriceLevel>, o: Order)
    requires
        old(levels)@.len() > 0,
        old(levels)@[0].orders@.len() > 0,
    ensures
        levels_state(final(levels)@) == set_best(levels_state(old(levels)@), o),
{
    let ghost ls = levels_state(levels@);
    let mut level = levels.remove(0);
    let _ = level.orders.pop_front();
    level.orders.push_front(o);
    assert(level.orders@ =~= ls[0].1.update(0, o));
    levels.insert(0, level);
    assert(levels_state(levels@) =~= set_best(ls, o));
}

/// Adds an order to a side, behind all orders of equal or better price.
fn insert_level_exec(levels: &mut Vec<PriceLevel>, o: Order, is_buy: bool)
    requires
        levels_wf(levels_state(old(levels)@), is_buy),
        o.wf(),
    ensures
        levels_state(final(levels)@) == insert_level(levels_state(old(levels)@), o, is_buy),
{
    let ghost ls = levels_state(levels@);
    proof {
        lemma_find_pos(ls, o.price, is_buy);
    }
    let mut i: usize = 0;
    while i < levels.len()
        invariant
            ls == levels_state(levels@),
            levels_wf(ls, is_buy),
            o.wf(),
            0 <= i <= levels@.len(),
            forall|j: int| 0 <= j < i ==> better(#[trigger] ls[j].0, o.price, is_buy),
            find_pos(ls, o.price, is_buy) <= ls.len(),
            forall|j: int| 0 <= j < find_pos(ls, o.price, is_buy) ==> better(#[trigger] ls[j].0, o.price, is_buy),
            find_pos(ls, o.price, is_buy) < ls.len() ==> !better(ls[find_pos(ls, o.price, is_buy) as int].0, o.price, is_buy),
        ensures
            i < levels@.len() ==> !better(ls[i as int].0, o.price, is_buy),
            0 <= i <= levels@.len(),
            forall|j: int| 0 <= j < i ==> better(#[trigger] ls[j].0, o.price, is_buy),
        decreases levels@.len() - i,
    {
        assert(ls[i as int].0 == levels@[i as int].price);
        let c = dec_compare(&levels[i].price, &o.price);
        let is_better = if is_buy { c > 0 } else { c < 0 };
        if !is_better {
            break;
        }
        i = i + 1;
    }
    let ghost k = find_pos(ls, o.price, is_buy) as int;
    assert(i as int == k) by {
        if (i as int) < k {
            assert(better(ls[i as int].0, o.price, is_buy));
        }
        if (i as int) > k {
            assert(better(ls[k].0, o.price, is_buy));
        }
    }
    if i < levels.len() && dec_compare(&levels[i].price, &o.price) == 0 {
        let mut level = levels.remove(i);
        level.orders.push_back(o);
        levels.insert(i, level);
        assert(levels_state(levels@) =~= insert_level(ls, o, is_buy));
    } else {
        let mut q: VecDeque<Order> = VecDeque::new();
        q.push_back(o);
        levels.insert(i, PriceLevel { price: o.price, orders: q });
        assert(levels_state(levels@) =~= insert_level(ls, o, is_buy));
    }
}

impl OrderBook {
    /// What the book holds.
    pub closed spec fn state(&self) -> BookState {
        BookState {
            buys: levels_state(self.buy@),
            sells: levels_state(self.sell@),
            index: self.index@,
        }
    }

    pub fn new() -> (b: OrderBook)
        ensures
            b.state() == BookState::empty(),
            b.state().wf(),
    {
        let b = OrderBook { buy: Vec::new(), sell: Vec::new(), index: HashMap::new() };
        assert(b.state().buys =~= Seq::empty());
        assert(b.state().sells =~= Seq::empty());
        assert(b.state().index =~= Map::empty());
        b
    }
}

impl OrderBook {
    /// The best resting order of a side, without removing it.
    pub fn best(&self, is_buy: bool) -> (r: Option<Order>)
        requires
            self.state().wf(),
        ensures
            r == (if self.state().has_best(is_buy) {
                Some(self.state().best(is_buy))
            } else {
                None
            }),
    {
        let levels = if is_buy {
            &self.buy
        } else {
            &self.sell
        };
        if levels.len() == 0 {
            None
        } else {
            assert(levels_state(levels@)[0].1.len() > 0);
            Some(levels[0].orders[0])
        }
    }

    /// The best buy order: highest price, earliest first.
    pub fn best_buy(&self) -> (r: Option<Order>)
        requires
            self.state().wf(),
        ensures
            r == (if self.state().has_best(true) {
                Some(self.state().best(true))
            } else {
                None
            }),
    {
        self.best(true)
    }

    /// The best sell order: lowest price, earliest first.
    pub fn best_sell(&self) -> (r: Option<Order>)
        requires
            self.state().wf(),
        ensures
            r == (if self.state().has_best(false) {
                Some(self.state().best(false))
            } else {
                None
            }),
    {
        self.best(false)
    }

    /// Removes and returns the best order of a side.
    pub fn remove_best(&mut self, is_buy: bool) -> (r: Option<Order>)
        requires
            old(self).state().wf(),
        ensures
            final(self).state().wf(),
            old(self).state().has_best(is_buy) ==> r == Some(old(self).state().best(is_buy))
                && final(self).state() == old(self).state().remove_best(is_buy),
            !old(self).state().has_best(is_buy) ==> r is None && final(self).state() == old(
                self,
            ).state(),
    {
        let ghost st = self.state();
        proof {
            lemma_pop_best_wf(st.side(is_buy), is_buy);
            if st.has_best(is_buy) {
                crate::book_invariant::lemma_remove_best_wf(st, is_buy);
            }
        }
        let r = if is_buy {
            assert forall|i: int| 0 <= i < self.buy@.len() implies (
            #[trigger] self.buy@[i]).orders@.len() > 0 by {
                assert(levels_state(self.buy@)[i].1.len() > 0);
            }
            pop_best_level(&mut self.buy)
        } else {
            assert forall|i: int| 0 <= i < self.sell@.len() implies (
            #[trigger] self.sell@[i]).orders@.len() > 0 by {
                assert(levels_state(self.sell@)[i].1.len() > 0);
            }
            pop_best_level(&mut self.sell)
        };
        match r {
            Some(o) => {
                self.index.remove(&o.id);
                assert(self.state() =~= st.remove_best(is_buy));
            },
            None => {
                assert(self.state() =~= st);
            },
        }
        r
    }

    /// Removes and returns the best buy order.
    pub fn remove_buy(&mut self) -> (r: Option<Order>)
        requires
            old(self).state().wf(),
        ensures
            final(self).state().wf(),
            old(self).state().has_best(true) ==> r == Some(old(self).state().best(true))
                && final(self).state() == old(self).state().remove_best(true),
            !old(self).state().has_best(true) ==> r is None && final(self).state() == old(
                self,
            ).state(),
    {
        self.remove_best(true)
    }

    /// Removes and returns the best sell order.
    pub fn remove_sell(&mut self) -> (r: Option<Order>)
        requires
            old(self).state().wf(),
        ensures
            final(self).state().wf(),
            old(self).state().has_best(false) ==> r == Some(old(self).state().best(false))
                && final(self).state() == old(self).state().remove_best(false),
            !old(self).state().has_best(false) ==> r is None && final(self).state() == old(
                self,
            ).state(),
    {
        self.remove_best(false)
    }

    /// Replaces the best order of a non-empty side by `o`, an updated copy
    /// of it (same id, same price), keeping its place in the queue.
    pub fn set_best(&mut self, is_buy: bool, o: Order)
        requires
            old(self).state().wf(),
            old(self).state().has_best(is_buy),
            o.wf(),
            o.id == old(self).state().best(is_buy).id,
            o.price.value() == old(self).state().best(is_buy).price.value(),
        ensures
            final(self).state().wf(),
            final(self).state() == old(self).state().set_best(is_buy, o),
    {
        let ghost st = self.state();
        proof {
            lemma_set_best_wf(st.side(is_buy), o, is_buy);
            crate::book_invariant::lemma_set_best_book_wf(st, is_buy, o);
        }
        if is_buy {
            assert(levels_state(self.buy@)[0].1.len() > 0);
            set_best_level(&mut self.buy, o);
        } else {
            assert(levels_state(self.sell@)[0].1.len() > 0);
            set_best_level(&mut self.sell, o);
        }
        assert(self.state() =~= st.set_best(is_buy, o));
    }

    /// Adds an order at the back of its price level on the given side.
    pub fn add(&mut self, o: Order, is_buy: bool)
        requires
            old(self).state().wf(),
            o.wf(),
        ensures
            final(self).state().wf(),
            final(self).state() == old(self).state().add(o, is_buy),
    {
        let ghost st = self.state();
        proof {
            lemma_insert_level_wf(st.side(is_buy), o, is_buy);
            crate::book_invariant::lemma_add_book_wf(st, o, is_buy);
        }
        self.index.insert(o.id, (is_buy, o.price));
        if is_buy {
            insert_level_exec(&mut self.buy, o, true);
        } else {
            insert_level_exec(&mut self.sell, o, false);
        }
        assert(self.state() =~= st.add(o, is_buy));
    }

    /// Adds a buy order at the end of the queue of its price level.
    pub fn add_buy(&mut self, o: Order)
        requires
            old(self).state().wf(),
            o.wf(),
        ensures
            final(self).state().wf(),
            final(self).state() == old(self).state().add(o, true),
    {
        self.add(o, true)
    }

    /// Adds a sell order at the end of the queue of its price level.
    pub fn add_sell(&mut self, o: Order)
        requires
            old(self).state().wf(),
            o.wf(),
        ensures
            final(self).state().wf(),
            final(self).state() == old(self).state().add(o, false),
    {
        self.add(o, false)
    }

    /// Removes the best order of a side if it has expired at `now`.
    pub fn remove_expired_best(&mut self, is_buy: bool, now: Instant) -> (r: Option<Order>)
        requires
            old(self).state().wf(),
        ensures
            final(self).state().wf(),
            old(self).state().has_best(is_buy) && old(self).state().best(is_buy).expires_at <= now
                ==> r == Some(old(self).state().best(is_buy)) && final(self).state() == old(
                self,
            ).state().remove_best(is_buy),
            !(old(self).state().has_best(is_buy) && old(self).state().best(is_buy).expires_at
                <= now) ==> r is None && final(self).state() == old(self).state(),
    {
        match self.best(is_buy) {
            Some(b) => {
                if b.expires_at <= now {
                    self.remove_best(is_buy)
                } else {
                    None
                }
            },
            None => None,
        }
    }

    /// Removes the best buy order if it has expired.
    pub fn remove_expired_best_buy(&mut self, now: Instant) -> (r: Option<Order>)
        requires
            old(self).state().wf(),
        ensures
            final(self).state().wf(),
            old(self).state().has_best(true) && old(self).state().best(true).expires_at <= now
                ==> r == Some(old(self).state().best(true)) && final(self).state() == old(
                self,
            ).state().remove_best(true),
            !(old(self).state().has_best(true) && old(self).state().best(true).expires_at <= now)
                ==> r is None && final(self).state() == old(self).state(),
    {
        self.remove_expired_best(true, now)
    }

    /// Removes the best sell order if it has expired.
    pub fn remove_expired_best_sell(&mut self, now: Instant) -> (r: Option<Order>)
        requires
            old(self).state().wf(),
        ensures
            final(self).state().wf(),
            old(self).state().has_best(false) && old(self).state().best(false).expires_at <= now
                ==> r == Some(old(self).state().best(false)) && final(self).state() == old(
                self,
            ).state().remove_best(false),
            !(old(self).state().has_best(false) && old(self).state().best(false).expires_at
                <= now) ==> r is None && final(self).state() == old(self).state(),
    {
        self.remove_expired_best(false, now)
    }

    /// Removes expired orders from the front of a side until its best order
    /// is live.
    pub fn drop_expired(&mut self, is_buy: bool, now: Instant)
        requires
            old(self).state().wf(),
        ensures
            final(self).state().wf(),
            final(self).state() == drop_expired(old(self).state(), is_buy, now),
    {
        loop
            invariant
                self.state().wf(),
                drop_expired(self.state(), is_buy, now) == drop_expired(old(self).state(), is_buy, now),
            ensures
                self.state().wf(),
                self.state() == drop_expired(old(self).state(), is_buy, now),
            decreases depth(self.state().side(is_buy)),
        {
            let ghost before = self.state();
            match self.remove_expired_best(is_buy, now) {
                Some(_) => {
                    proof {
                        lemma_pop_best_depth(before.side(is_buy));
                        assert(self.state().side(is_buy) == pop_best(before.side(is_buy)));
                    }
                },
                None => {
                    break;
                },
            }
        }
    }
}

/// The orders of `q` without those with the given id, in order.
fn deque_without_id(q: &VecDeque<Order>, id: u128) -> (r: VecDeque<Order>)
    ensures
        r@ == without_id(q@, id),
{
    let mut kept: VecDeque<Order> = VecDeque::new();
    let mut i: usize = 0;
    assert(q@.take(0) =~= Seq::<Order>::empty());
    while i < q.len()
        invariant
            0 <= i <= q@.len(),
            kept@ == without_id(q@.take(i as int), id),
        decreases q@.len() - i,
    {
        let o = q[i];
        assert(q@.take(i + 1).drop_last() =~= q@.take(i as int));
        assert(q@.take(i + 1).last() == o);
        if o.id != id {
            kept.push_back(o);
        }
        i = i + 1;
    }
    assert(q@.take(q@.len() as int) =~= q@);
    kept
}

/// Removes the orders with the given id from the level of price `p`.
fn remove_from_level_exec(levels: &mut Vec<PriceLevel>, p: Dec, id: u128) -> (removed: bool)
    requires
        p.wf(),
        forall|i: int| 0 <= i < old(levels)@.len() ==> (#[trigger] old(levels)@[i]).price.wf(),
    ensures
        (levels_state(final(levels)@), removed) == remove_from_level(levels_state(old(levels)@), p, id),
{
    let ghost ls = levels_state(levels@);
    proof {
        lemma_level_of(ls, p);
    }
    let mut k: usize = 0;
    while k < levels.len()
        invariant
            ls == levels_state(levels@),
            p.wf(),
            forall|i: int| 0 <= i < levels@.len() ==> (#[trigger] levels@[i]).price.wf(),
            0 <= k <= levels@.len(),
            forall|i: int| 0 <= i < k ==> (#[trigger] ls[i]).0.value() != p.value(),
        ensures
            0 <= k <= levels@.len(),
            forall|i: int| 0 <= i < k ==> (#[trigger] ls[i]).0.value() != p.value(),
            k < levels@.len() ==> ls[k as int].0.value() == p.value(),
        decreases levels@.len() - k,
    {
        assert(ls[k as int].0 == levels@[k as int].price);
        if dec_compare(&levels[k].price, &p) == 0 {
            break;
        }
        k = k + 1;
    }
    assert(k as int == level_of(ls, p)) by {
        let l = level_of(ls, p) as int;
        if (k as int) < l {
            assert(ls[k as int].0.value() != p.value());
        }
        if (k as int) > l {
            assert(ls[l].0.value() != p.value());
        }
    }
    if k == levels.len() {
        return false;
    }
    let kept = deque_without_id(&levels[k].orders, id);
    assert(levels_state(levels@)[k as int].1 == levels@[k as int].orders@);
    if kept.len() < levels[k].orders.len() {
        let mut level = levels.remove(k);
        if kept.len() > 0 {
            level.orders = kept;
            levels.insert(k, level);
        }
        assert(levels_state(levels@) =~= remove_from_level(ls, p, id).0);
        true
    } else {
        false
    }
}

impl OrderBook {
    /// Cancels the order with the given id (see [`BookState::cancel`]).
    pub fn cancel(&mut self, id: u128) -> (removed: bool)
        requires
            old(self).state().wf(),
        ensures
            final(self).state().wf(),
            (final(self).state(), removed) == old(self).state().cancel(id),
    {
        let ghost st = self.state();
        match self.index.remove(&id) {
            None => {
                assert(self.index@ =~= st.index);
                assert(self.state() =~= st);
                false
            },
            Some(entry) => {
                let (is_buy, price) = entry;
                assert(st.index.contains_key(id) && st.index[id] == (is_buy, price));
                proof {
                    lemma_remove_from_level_wf(st.side(is_buy), price, id, is_buy);
                    crate::book_invariant::lemma_cancel_book_wf(st, id);
                }
                let removed = if is_buy {
                    assert forall|i: int| 0 <= i < self.buy@.len() implies (
                    #[trigger] self.buy@[i]).price.wf() by {
                        assert(levels_state(self.buy@)[i].0 == self.buy@[i].price);
                    }
                    remove_from_level_exec(&mut self.buy, price, id)
                } else {
                    assert forall|i: int| 0 <= i < self.sell@.len() implies (
                    #[trigger] self.sell@[i]).price.wf() by {
                        assert(levels_state(self.sell@)[i].0 == self.sell@[i].price);
                    }
                    remove_from_level_exec(&mut self.sell, price, id)
                };
                assert(self.state() =~= st.cancel(id).0);
                removed
            },
        }
    }
}

} // verus!
