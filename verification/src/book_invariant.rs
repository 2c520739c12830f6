//! What every book keeps. Its cancellation index names exactly the orders
//! resting in it: every resting order is indexed under its own id with its
//! side and price, no two resting orders share an id, and nothing else is
//! indexed. Every resting order has shares left (a market buy that takes
//! part of a resting sell can leave it none where `rust_decimal` rounds its
//! quote against it). And matching a limit order or a market sell accounts
//! for every share whenever its subtractions are exact.
use crate::decimal::{
    Dec, decimal_checked_div, decimal_checked_mul, decimal_checked_sub, decimal_floor, from_parts,
    lemma_div_pow10_bound, lemma_pow10_positive, lemma_whole_part, max_scale, pow10, representable, sign,
};
use crate::matching::{
    crosses, fill_last, lemma_drop_expired_depth, limit_match, limit_signs_kept, market_buy_match,
    market_buy_signs_kept, market_sell_match, market_sell_signs_kept, remainder_after, sub_keeps_sign,
};
use crate::book_laws::{
    engine_uncrossed, lemma_add_then_cancel, lemma_without_id_absent, law_cancel_keeps_books_uncrossed,
    law_match_keeps_books_uncrossed,
};
use crate::engine::{
    EngineState, book_match, book_signs_kept, engine_add_market, engine_cancel, engine_match, engine_wf, has_book, with_book,
};
use crate::model::{Instant, Order, OrderSide, OrderType, TradeEvent};
use crate::orderbook::{
    BookState, LevelState, better, depth, holds_id, resting_orders, rests, drop_expired, find_pos, flatten, insert_level, lemma_find_pos,
    lemma_level_of, lemma_pop_best_depth, lemma_pop_best_wf, level_of, levels_wf, pop_best,
    remove_from_level, set_best, without_id,
};
use vstd::prelude::*;

verus! {

/// No two orders of `s` share an id.
pub open spec fn unique_ids(s: Seq<Order>) -> bool {
    forall|p: int, q: int|
        0 <= p < s.len() && 0 <= q < s.len() && p != q ==> #[trigger] s[p].id != #[trigger] s[q].id
}

/// `index` names exactly the orders of `all`, whose first `nb` orders are
/// buys and the rest sells: each under its own id, with its side and price,
/// ids unique, and no other id indexed.
pub open spec fn indexed(all: Seq<Order>, nb: int, index: Map<u128, (bool, Dec)>) -> bool {
    &&& 0 <= nb <= all.len()
    &&& unique_ids(all)
    &&& forall|k: int|
        0 <= k < all.len() ==> index.contains_key(#[trigger] all[k].id) && index[all[k].id] == (
            k < nb,
            all[k].price,
        )
    &&& forall|id: u128| #[trigger] index.contains_key(id) ==> holds_id(all, id)
}

/// The book's index names exactly its resting orders.
pub open spec fn consistent(b: BookState) -> bool {
    indexed(resting_orders(b), flatten(b.buys).len() as int, b.index)
}

/// Every resting order has shares left.
pub open spec fn shares_left(b: BookState) -> bool {
    forall|k: int|
        0 <= k < resting_orders(b).len() ==> (#[trigger] resting_orders(b)[k]).remaining_shares.value() > 0
}

/// `rust_decimal`'s subtraction of `b` from `a` gives the exact difference.
pub open spec fn sub_exact(a: Dec, b: Dec) -> bool {
    representable(decimal_checked_sub(a.mantissa, a.scale, b.mantissa, b.scale)) matches Some(d) ==> d.value()
        == a.value() - b.value()
}

/// Taking the order at position `q` out of `all`, and its id out of the
/// index, keeps the index exact.
proof fn lemma_indexed_remove(all: Seq<Order>, nb: int, index: Map<u128, (bool, Dec)>, q: int)
    requires
        indexed(all, nb, index),
        0 <= q < all.len(),
    ensures
        indexed(all.remove(q), if q < nb { nb - 1 } else { nb }, index.remove(all[q].id)),
        forall|id: u128| holds_id(all.remove(q), id) ==> holds_id(all, id),
{
    let r = all.remove(q);
    let nb2 = if q < nb { nb - 1 } else { nb };
    let x = all[q].id;
    let i2 = index.remove(x);
    all.remove_ensures(q);
    assert forall|p: int, t: int| 0 <= p < r.len() && 0 <= t < r.len() && p != t implies #[trigger] r[p].id
        != #[trigger] r[t].id by {
        let pp = if p < q { p } else { p + 1 };
        let tt = if t < q { t } else { t + 1 };
        assert(r[p] == all[pp] && r[t] == all[tt]);
    }
    assert forall|k: int| 0 <= k < r.len() implies i2.contains_key(#[trigger] r[k].id) && i2[r[k].id] == (
        k < nb2,
        r[k].price,
    ) by {
        let kk = if k < q { k } else { k + 1 };
        assert(r[k] == all[kk]);
        assert(all[kk].id != x);
    }
    assert forall|id: u128| #[trigger] i2.contains_key(id) implies holds_id(r, id) by {
        assert(holds_id(all, id));
        let k = choose|k: int| 0 <= k < all.len() && (#[trigger] all[k]).id == id;
        assert(k != q);
        let kk = if k < q { k } else { k - 1 };
        assert(r[kk] == all[k]);
    }
    assert forall|id: u128| holds_id(r, id) implies holds_id(all, id) by {
        let k = choose|k: int| 0 <= k < r.len() && (#[trigger] r[k]).id == id;
        let kk = if k < q { k } else { k + 1 };
        assert(r[k] == all[kk]);
    }
}

/// Replacing the order at position `q` by one with the same id and price
/// keeps the index exact.
proof fn lemma_indexed_update(all: Seq<Order>, nb: int, index: Map<u128, (bool, Dec)>, q: int, o: Order)
    requires
        indexed(all, nb, index),
        0 <= q < all.len(),
        o.id == all[q].id,
        o.price == all[q].price,
    ensures
        indexed(all.update(q, o), nb, index),
        forall|id: u128| holds_id(all.update(q, o), id) ==> holds_id(all, id),
{
    let r = all.update(q, o);
    assert forall|p: int, t: int| 0 <= p < r.len() && 0 <= t < r.len() && p != t implies #[trigger] r[p].id
        != #[trigger] r[t].id by {
        assert(r[p].id == all[p].id && r[t].id == all[t].id);
    }
    assert forall|k: int| 0 <= k < r.len() implies index.contains_key(#[trigger] r[k].id) && index[r[k].id] == (
        k < nb,
        r[k].price,
    ) by {
        assert(r[k].id == all[k].id && r[k].price == all[k].price);
    }
    assert forall|id: u128| #[trigger] index.contains_key(id) implies holds_id(r, id) by {
        let k = choose|k: int| 0 <= k < all.len() && (#[trigger] all[k]).id == id;
        assert(r[k].id == all[k].id);
    }
    assert forall|id: u128| holds_id(r, id) implies holds_id(all, id) by {
        let k = choose|k: int| 0 <= k < r.len() && (#[trigger] r[k]).id == id;
        assert(r[k].id == all[k].id);
    }
}

/// Inserting an order whose id is not yet in `all` at position `q`, within
/// the part of its side, and indexing it, keeps the index exact.
proof fn lemma_indexed_insert(
    all: Seq<Order>,
    nb: int,
    index: Map<u128, (bool, Dec)>,
    q: int,
    o: Order,
    is_buy: bool,
)
    requires
        indexed(all, nb, index),
        !holds_id(all, o.id),
        if is_buy {
            0 <= q <= nb
        } else {
            nb <= q <= all.len()
        },
    ensures
        indexed(
            all.insert(q, o),
            if is_buy { nb + 1 } else { nb },
            index.insert(o.id, (is_buy, o.price)),
        ),
{
    let r = all.insert(q, o);
    let nb2 = if is_buy { nb + 1 } else { nb };
    let i2 = index.insert(o.id, (is_buy, o.price));
    all.insert_ensures(q, o);
    assert forall|k: int| 0 <= k < all.len() implies (#[trigger] all[k]).id != o.id by {}
    assert forall|p: int, t: int| 0 <= p < r.len() && 0 <= t < r.len() && p != t implies #[trigger] r[p].id
        != #[trigger] r[t].id by {
        if p != q && t != q {
            let pp = if p < q { p } else { p - 1 };
            let tt = if t < q { t } else { t - 1 };
            assert(r[p] == all[pp] && r[t] == all[tt]);
        } else if p == q {
            let tt = if t < q { t } else { t - 1 };
            assert(r[t] == all[tt]);
        } else {
            let pp = if p < q { p } else { p - 1 };
            assert(r[p] == all[pp]);
        }
    }
    assert forall|k: int| 0 <= k < r.len() implies i2.contains_key(#[trigger] r[k].id) && i2[r[k].id] == (
        k < nb2,
        r[k].price,
    ) by {
        if k != q {
            let kk = if k < q { k } else { k - 1 };
            assert(r[k] == all[kk]);
        }
    }
    assert forall|id: u128| #[trigger] i2.contains_key(id) implies holds_id(r, id) by {
        if id == o.id {
            assert(r[q] == o);
        } else {
            let k = choose|k: int| 0 <= k < all.len() && (#[trigger] all[k]).id == id;
            let kk = if k < q { k } else { k + 1 };
            assert(r[kk] == all[k]);
        }
    }
}

/// The orders of two runs of levels, one after the other.
pub proof fn lemma_flatten_concat(a: Seq<LevelState>, b: Seq<LevelState>)
    ensures
        flatten(a + b) == flatten(a) + flatten(b),
    decreases a.len(),
{
    if a.len() == 0 {
        assert(a + b =~= b);
        assert(flatten(a) + flatten(b) =~= flatten(b));
    } else {
        assert((a + b).drop_first() =~= a.drop_first() + b);
        assert((a + b)[0] == a[0]);
        lemma_flatten_concat(a.drop_first(), b);
        assert(a[0].1 + (flatten(a.drop_first()) + flatten(b)) =~= (a[0].1 + flatten(a.drop_first())) + flatten(b));
    }
}

proof fn lemma_flatten_single(x: LevelState)
    ensures
        flatten(seq![x]) == x.1,
{
    let s = seq![x];
    assert(s.drop_first() =~= Seq::<LevelState>::empty());
    assert(flatten(s.drop_first()) == Seq::<Order>::empty());
    assert(flatten(s) == s[0].1 + flatten(s.drop_first()));
    assert(x.1 + Seq::<Order>::empty() =~= x.1);
}

/// The orders of the levels before level `k`, then those of level `k`, then
/// those after it.
proof fn lemma_flatten_split(ls: Seq<LevelState>, k: int)
    requires
        0 <= k < ls.len(),
    ensures
        flatten(ls) == flatten(ls.take(k)) + ls[k].1 + flatten(ls.skip(k + 1)),
{
    assert(ls =~= ls.take(k) + (seq![ls[k]] + ls.skip(k + 1)));
    lemma_flatten_concat(ls.take(k), seq![ls[k]] + ls.skip(k + 1));
    lemma_flatten_concat(seq![ls[k]], ls.skip(k + 1));
    lemma_flatten_single(ls[k]);
    assert(flatten(ls.take(k)) + (ls[k].1 + flatten(ls.skip(k + 1))) =~= flatten(ls.take(k)) + ls[k].1
        + flatten(ls.skip(k + 1)));
}

/// Order `j` of level `i` stands in the flattened levels after all orders of
/// the levels before `i`.
proof fn lemma_flatten_at(ls: Seq<LevelState>, i: int, j: int)
    requires
        0 <= i < ls.len(),
        0 <= j < ls[i].1.len(),
    ensures
        flatten(ls.take(i)).len() + j < flatten(ls).len(),
        flatten(ls)[flatten(ls.take(i)).len() + j] == ls[i].1[j],
{
    lemma_flatten_split(ls, i);
}

/// Every order of the flattened levels is order `j` of some level `i`.
proof fn lemma_flatten_locate(ls: Seq<LevelState>, q: int) -> (ij: (int, int))
    requires
        0 <= q < flatten(ls).len(),
    ensures
        0 <= ij.0 < ls.len(),
        0 <= ij.1 < ls[ij.0].1.len(),
        q == flatten(ls.take(ij.0)).len() + ij.1,
    decreases ls.len(),
{
    if q < ls[0].1.len() {
        assert(ls.take(0) =~= Seq::<LevelState>::empty());
        (0, q)
    } else {
        let (i, j) = lemma_flatten_locate(ls.drop_first(), q - ls[0].1.len());
        assert(ls.take(i + 1) =~= seq![ls[0]] + ls.drop_first().take(i));
        lemma_flatten_concat(seq![ls[0]], ls.drop_first().take(i));
        lemma_flatten_single(ls[0]);
        assert(ls.drop_first()[i] == ls[i + 1]);
        (i + 1, j)
    }
}

/// Removing the best order removes the first of the flattened orders.
pub proof fn lemma_flatten_pop_best(ls: Seq<LevelState>)
    requires
        ls.len() > 0,
        ls[0].1.len() > 0,
    ensures
        flatten(pop_best(ls)) == flatten(ls).drop_first(),
{
    let p = pop_best(ls);
    if ls[0].1.len() <= 1 {
        assert(ls[0].1 + flatten(ls.drop_first()) =~= seq![ls[0].1[0]] + flatten(ls.drop_first()));
        assert((seq![ls[0].1[0]] + flatten(ls.drop_first())).drop_first() =~= flatten(ls.drop_first()));
    } else {
        assert(p.drop_first() =~= ls.drop_first());
        assert(flatten(p) == p[0].1 + flatten(p.drop_first()));
        assert((ls[0].1 + flatten(ls.drop_first())).drop_first() =~= ls[0].1.drop_first() + flatten(
            ls.drop_first(),
        ));
    }
}

/// Replacing the best order replaces the first of the flattened orders.
pub proof fn lemma_flatten_set_best(ls: Seq<LevelState>, o: Order)
    requires
        ls.len() > 0,
        ls[0].1.len() > 0,
    ensures
        flatten(set_best(ls, o)) == flatten(ls).update(0, o),
{
    let p = set_best(ls, o);
    assert(p.drop_first() =~= ls.drop_first());
    assert(flatten(p) == p[0].1 + flatten(p.drop_first()));
    assert((ls[0].1 + flatten(ls.drop_first())).update(0, o) =~= ls[0].1.update(0, o) + flatten(
        ls.drop_first(),
    ));
}

/// Adding an order to its level inserts it somewhere in the flattened orders.
pub proof fn lemma_flatten_insert_level(ls: Seq<LevelState>, o: Order, is_buy: bool) -> (q: int)
    ensures
        0 <= q <= flatten(ls).len(),
        flatten(insert_level(ls, o, is_buy)) == flatten(ls).insert(q, o),
{
    lemma_find_pos(ls, o.price, is_buy);
    let k = find_pos(ls, o.price, is_buy) as int;
    let n = insert_level(ls, o, is_buy);
    if k < ls.len() && ls[k].0.value() == o.price.value() {
        lemma_flatten_split(ls, k);
        lemma_flatten_split(n, k);
        assert(n.take(k) =~= ls.take(k));
        assert(n.skip(k + 1) =~= ls.skip(k + 1));
        let a = flatten(ls.take(k));
        let l = ls[k].1;
        let c = flatten(ls.skip(k + 1));
        let q: int = (a.len() + l.len()) as int;
        assert(a + l.push(o) + c =~= (a + l + c).insert(q, o));
        q
    } else {
        assert(n =~= ls.take(k) + (seq![(o.price, seq![o])] + ls.skip(k)));
        assert(ls =~= ls.take(k) + ls.skip(k));
        lemma_flatten_concat(ls.take(k), ls.skip(k));
        lemma_flatten_concat(ls.take(k), seq![(o.price, seq![o])] + ls.skip(k));
        lemma_flatten_concat(seq![(o.price, seq![o])], ls.skip(k));
        lemma_flatten_single((o.price, seq![o]));
        let a = flatten(ls.take(k));
        let c = flatten(ls.skip(k));
        assert(a + (seq![o] + c) =~= (a + c).insert(a.len() as int, o));
        a.len() as int
    }
}

/// Dropping the orders of an id from two runs of orders, one after the
/// other, drops them from each.
proof fn lemma_without_id_concat(a: Seq<Order>, b: Seq<Order>, id: u128)
    ensures
        without_id(a + b, id) == without_id(a, id) + without_id(b, id),
    decreases b.len(),
{
    if b.len() == 0 {
        assert(a + b =~= a);
        assert(without_id(b, id) == b);
        assert(without_id(a, id) + b =~= without_id(a, id));
    } else {
        assert((a + b).drop_last() =~= a + b.drop_last());
        assert((a + b).last() == b.last());
        lemma_without_id_concat(a, b.drop_last(), id);
        if b.last().id != id {
            assert(without_id(a, id) + without_id(b.drop_last(), id).push(b.last()) =~= (without_id(a, id)
                + without_id(b.drop_last(), id)).push(b.last()));
        }
    }
}

/// In a run of orders with unique ids, dropping the id of order `q` takes
/// out that order alone.
proof fn lemma_without_id_unique(s: Seq<Order>, q: int)
    requires
        unique_ids(s),
        0 <= q < s.len(),
    ensures
        without_id(s, s[q].id) == s.remove(q),
{
    let id = s[q].id;
    let a = s.take(q);
    let b = s.skip(q + 1);
    let one = seq![s[q]];
    assert(s =~= a + (one + b));
    lemma_without_id_concat(a, one + b, id);
    lemma_without_id_concat(one, b, id);
    assert forall|j: int| 0 <= j < a.len() implies (#[trigger] a[j]).id != id by {
        assert(a[j] == s[j]);
    }
    assert forall|j: int| 0 <= j < b.len() implies (#[trigger] b[j]).id != id by {
        assert(b[j] == s[q + 1 + j]);
    }
    lemma_without_id_absent(a, id);
    lemma_without_id_absent(b, id);
    assert(one.drop_last() =~= Seq::<Order>::empty());
    assert(without_id(one.drop_last(), id) == Seq::<Order>::empty());
    assert(without_id(one, id) == without_id(one.drop_last(), id));
    assert(a + (Seq::<Order>::empty() + b) =~= s.remove(q));
}

/// Cancelling the order at position `q` of the flattened levels, by its id
/// and its own price, removes exactly that order.
pub proof fn lemma_flatten_remove_from_level(ls: Seq<LevelState>, is_buy: bool, q: int)
    requires
        levels_wf(ls, is_buy),
        unique_ids(flatten(ls)),
        0 <= q < flatten(ls).len(),
    ensures
        remove_from_level(ls, flatten(ls)[q].price, flatten(ls)[q].id).1,
        flatten(remove_from_level(ls, flatten(ls)[q].price, flatten(ls)[q].id).0) == flatten(ls).remove(q),
{
    let f = flatten(ls);
    let id = f[q].id;
    let p = f[q].price;
    let (i, j) = lemma_flatten_locate(ls, q);
    lemma_flatten_at(ls, i, j);
    assert(ls[i].1[j] == f[q]);
    lemma_level_of(ls, p);
    let k = level_of(ls, p) as int;
    assert(ls[i].0.value() == p.value());
    if i < k {
        assert(ls[i].0.value() != p.value());
    }
    if k < i {
        assert(better(ls[k].0, ls[i].0, is_buy));
    }
    assert(k == i);
    lemma_flatten_split(ls, k);
    let a = flatten(ls.take(k));
    let l = ls[k].1;
    let c = flatten(ls.skip(k + 1));
    assert(f == a + l + c);
    assert forall|t1: int, t2: int| 0 <= t1 < l.len() && 0 <= t2 < l.len() && t1 != t2 implies #[trigger] l[t1].id
        != #[trigger] l[t2].id by {
        assert(l[t1] == f[a.len() + t1] && l[t2] == f[a.len() + t2]);
    }
    assert(l[j] == f[q]);
    lemma_without_id_unique(l, j);
    let kept = without_id(l, id);
    assert(kept.len() < l.len());
    let r = remove_from_level(ls, p, id).0;
    if kept.len() == 0 {
        assert(r =~= ls.take(k) + ls.skip(k + 1));
        lemma_flatten_concat(ls.take(k), ls.skip(k + 1));
        assert(a + c =~= f.remove(q));
    } else {
        lemma_flatten_split(r, k);
        assert(r.take(k) =~= ls.take(k));
        assert(r.skip(k + 1) =~= ls.skip(k + 1));
        assert(a + l.remove(j) + c =~= f.remove(q));
    }
}

/// An id other than the one taken out still has an order after the order at
/// position `q` is taken out.
proof fn lemma_holds_after_remove(all: Seq<Order>, q: int, x: u128)
    requires
        holds_id(all, x),
        0 <= q < all.len(),
        all[q].id != x,
    ensures
        holds_id(all.remove(q), x),
{
    let k = choose|k: int| 0 <= k < all.len() && (#[trigger] all[k]).id == x;
    all.remove_ensures(q);
    let kk = if k < q { k } else { k - 1 };
    assert(all.remove(q)[kk] == all[k]);
}

/// Dropping the orders of one id keeps an order of every other id.
proof fn lemma_holds_without_id(s: Seq<Order>, id: u128, x: u128)
    requires
        holds_id(s, x),
        x != id,
    ensures
        holds_id(without_id(s, id), x),
    decreases s.len(),
{
    let k = choose|k: int| 0 <= k < s.len() && (#[trigger] s[k]).id == x;
    if k == s.len() - 1 {
        assert(s.last().id == x);
        let w = without_id(s.drop_last(), id).push(s.last());
        assert(w[w.len() - 1] == s.last());
    } else {
        assert(s.drop_last()[k] == s[k]);
        lemma_holds_without_id(s.drop_last(), id, x);
        if s.last().id != id {
            let w0 = without_id(s.drop_last(), id);
            let j = choose|j: int| 0 <= j < w0.len() && (#[trigger] w0[j]).id == x;
            assert(w0.push(s.last())[j] == w0[j]);
        }
    }
}

/// Removing the orders of an id from a level keeps an order of every other
/// id among the flattened orders.
proof fn lemma_flatten_remove_keeps(ls: Seq<LevelState>, p: Dec, id: u128, x: u128)
    requires
        holds_id(flatten(ls), x),
        x != id,
    ensures
        holds_id(flatten(remove_from_level(ls, p, id).0), x),
{
    lemma_level_of(ls, p);
    let k = level_of(ls, p) as int;
    let f = flatten(ls);
    let t = choose|t: int| 0 <= t < f.len() && (#[trigger] f[t]).id == x;
    if k < ls.len() {
        let l = ls[k].1;
        let kept = without_id(l, id);
        if kept.len() < l.len() {
            lemma_flatten_split(ls, k);
            let a = flatten(ls.take(k));
            let c = flatten(ls.skip(k + 1));
            let r = remove_from_level(ls, p, id).0;
            if a.len() <= t < a.len() + l.len() {
                assert(l[t - a.len()] == f[t]);
                lemma_holds_without_id(l, id, x);
            }
            if kept.len() == 0 {
                assert(r =~= ls.take(k) + ls.skip(k + 1));
                lemma_flatten_concat(ls.take(k), ls.skip(k + 1));
                if t < a.len() {
                    assert(flatten(r)[t] == f[t]);
                } else {
                    assert(flatten(r)[t - l.len()] == f[t]);
                }
            } else {
                lemma_flatten_split(r, k);
                assert(r.take(k) =~= ls.take(k));
                assert(r.skip(k + 1) =~= ls.skip(k + 1));
                assert(flatten(r) == a + kept + c);
                if t < a.len() {
                    assert(flatten(r)[t] == f[t]);
                } else if t >= a.len() + l.len() {
                    assert(flatten(r)[t - l.len() + kept.len()] == f[t]);
                } else {
                    let j = choose|j: int| 0 <= j < kept.len() && (#[trigger] kept[j]).id == x;
                    assert(flatten(r)[a.len() + j] == kept[j]);
                }
            }
        }
    }
}

/// The first order of a side's flattened orders is its best order.
proof fn lemma_flatten_first(ls: Seq<LevelState>)
    requires
        ls.len() > 0,
        ls[0].1.len() > 0,
    ensures
        flatten(ls).len() > 0,
        flatten(ls)[0] == ls[0].1[0],
{
}

/// Removing the best order of a side keeps a book well formed.
pub proof fn lemma_remove_best_wf(b: BookState, is_buy: bool)
    requires
        b.wf(),
        b.has_best(is_buy),
    ensures
        b.remove_best(is_buy).wf(),
        forall|id: u128| rests(b.remove_best(is_buy), id) ==> rests(b, id),
        resting_orders(b.remove_best(is_buy)) == resting_orders(b).remove(
            if is_buy { 0 } else { flatten(b.buys).len() as int },
        ),
{
    lemma_pop_best_wf(b.side(is_buy), is_buy);
    let ls = b.side(is_buy);
    lemma_flatten_pop_best(ls);
    lemma_flatten_first(ls);
    let fb = flatten(b.buys);
    let all = resting_orders(b);
    let r = b.remove_best(is_buy);
    let q: int = if is_buy { 0 } else { fb.len() as int };
    assert(all[q] == b.best(is_buy));
    assert(resting_orders(r) =~= all.remove(q));
    all.remove_ensures(q);
    assert forall|id: u128| #[trigger] r.index.contains_key(id) implies rests(r, id) by {
        lemma_holds_after_remove(all, q, id);
    }
    assert forall|id: u128| rests(r, id) implies rests(b, id) by {
        let k = choose|k: int| 0 <= k < resting_orders(r).len() && (#[trigger] resting_orders(r)[k]).id == id;
        let kk = if k < q { k } else { k + 1 };
        assert(resting_orders(r)[k] == all[kk]);
    }
}

/// Clearing expired orders keeps a book well formed.
pub proof fn lemma_drop_expired_wf(b: BookState, is_buy: bool, now: Instant)
    requires
        b.wf(),
    ensures
        drop_expired(b, is_buy, now).wf(),
    decreases depth(b.side(is_buy)),
{
    if b.has_best(is_buy) && b.best(is_buy).expires_at <= now {
        lemma_pop_best_depth(b.side(is_buy));
        lemma_remove_best_wf(b, is_buy);
        lemma_drop_expired_wf(b.remove_best(is_buy), is_buy, now);
    }
}

/// Replacing the best order of a side by one with the same id and the same
/// price keeps a book well formed.
pub proof fn lemma_set_best_book_wf(b: BookState, is_buy: bool, o: Order)
    requires
        b.wf(),
        b.has_best(is_buy),
        o.wf(),
        o.id == b.best(is_buy).id,
        o.price.value() == b.best(is_buy).price.value(),
    ensures
        b.set_best(is_buy, o).wf(),
        forall|id: u128| rests(b.set_best(is_buy, o), id) ==> rests(b, id),
{
    let ls = b.side(is_buy);
    crate::orderbook::lemma_set_best_wf(ls, o, is_buy);
    lemma_flatten_set_best(ls, o);
    lemma_flatten_first(ls);
    let fb = flatten(b.buys);
    let all = resting_orders(b);
    let r = b.set_best(is_buy, o);
    let q: int = if is_buy { 0 } else { fb.len() as int };
    assert(all[q] == b.best(is_buy));
    assert(resting_orders(r) =~= all.update(q, o));
    assert forall|id: u128| #[trigger] r.index.contains_key(id) implies rests(r, id) by {
        let k = choose|k: int| 0 <= k < all.len() && (#[trigger] all[k]).id == id;
        assert(resting_orders(r)[k].id == all[k].id);
    }
    assert forall|id: u128| rests(r, id) implies rests(b, id) by {
        let k = choose|k: int| 0 <= k < resting_orders(r).len() && (#[trigger] resting_orders(r)[k]).id == id;
        assert(resting_orders(r)[k].id == all[k].id);
    }
}

/// Adding an order keeps a book well formed; the order then rests in it.
pub proof fn lemma_add_book_wf(b: BookState, o: Order, is_buy: bool)
    requires
        b.wf(),
        o.wf(),
    ensures
        b.add(o, is_buy).wf(),
        rests(b.add(o, is_buy), o.id),
{
    crate::orderbook::lemma_insert_level_wf(b.side(is_buy), o, is_buy);
    let ls = b.side(is_buy);
    let q = lemma_flatten_insert_level(ls, o, is_buy);
    let fb = flatten(b.buys);
    let all = resting_orders(b);
    let qa: int = if is_buy { q } else { fb.len() + q };
    let a = b.add(o, is_buy);
    assert(resting_orders(a) =~= all.insert(qa, o));
    all.insert_ensures(qa, o);
    assert(resting_orders(a)[qa] == o);
    assert forall|id: u128| #[trigger] a.index.contains_key(id) implies rests(a, id) by {
        if id != o.id {
            let k = choose|k: int| 0 <= k < all.len() && (#[trigger] all[k]).id == id;
            let kk = if k < qa { k } else { k + 1 };
            assert(resting_orders(a)[kk] == all[k]);
        }
    }
}

/// Cancelling keeps a book well formed.
pub proof fn lemma_cancel_book_wf(b: BookState, id: u128)
    requires
        b.wf(),
    ensures
        b.cancel(id).0.wf(),
{
    if b.index.contains_key(id) {
        let (is_buy, p) = b.index[id];
        crate::orderbook::lemma_remove_from_level_wf(b.side(is_buy), p, id, is_buy);
        let c = b.cancel(id).0;
        let fb = flatten(b.buys);
        let fs = flatten(b.sells);
        assert forall|x: u128| #[trigger] c.index.contains_key(x) implies rests(c, x) by {
            let all = resting_orders(b);
            let k = choose|k: int| 0 <= k < all.len() && (#[trigger] all[k]).id == x;
            if k < fb.len() {
                assert(fb[k] == all[k]);
                if is_buy {
                    lemma_flatten_remove_keeps(b.buys, p, id, x);
                    let j = choose|j: int| 0 <= j < flatten(c.buys).len() && (#[trigger] flatten(c.buys)[j]).id == x;
                    assert(resting_orders(c)[j] == flatten(c.buys)[j]);
                } else {
                    assert(resting_orders(c)[k] == fb[k]);
                }
            } else {
                assert(fs[k - fb.len()] == all[k]);
                if !is_buy {
                    lemma_flatten_remove_keeps(b.sells, p, id, x);
                    let j = choose|j: int| 0 <= j < flatten(c.sells).len() && (#[trigger] flatten(c.sells)[j]).id == x;
                    assert(resting_orders(c)[fb.len() + j] == flatten(c.sells)[j]);
                } else {
                    let fb2 = flatten(c.buys);
                    assert(resting_orders(c)[fb2.len() + k - fb.len()] == fs[k - fb.len()]);
                }
            }
        }
    }
}

/// Removing the best order of a side keeps the index exact, and rests
/// nothing new.
pub proof fn lemma_remove_best_consistent(b: BookState, is_buy: bool)
    requires
        b.wf(),
        consistent(b),
        b.has_best(is_buy),
    ensures
        b.remove_best(is_buy).wf(),
        consistent(b.remove_best(is_buy)),
        forall|id: u128| rests(b.remove_best(is_buy), id) ==> rests(b, id),
        shares_left(b) ==> shares_left(b.remove_best(is_buy)),
{
    lemma_pop_best_wf(b.side(is_buy), is_buy);
    let ls = b.side(is_buy);
    lemma_flatten_pop_best(ls);
    lemma_flatten_first(ls);
    let fb = flatten(b.buys);
    let fs = flatten(b.sells);
    let all = resting_orders(b);
    let r = b.remove_best(is_buy);
    let q: int = if is_buy { 0 } else { fb.len() as int };
    assert(all[q] == b.best(is_buy));
    if is_buy {
        assert(resting_orders(r) =~= all.remove(q));
    } else {
        assert(resting_orders(r) =~= all.remove(q));
    }
    lemma_indexed_remove(all, fb.len() as int, b.index, q);
    all.remove_ensures(q);
}

/// Replacing the best order of a side by one with the same id and price
/// keeps the index exact.
pub proof fn lemma_set_best_consistent(b: BookState, is_buy: bool, o: Order)
    requires
        b.wf(),
        consistent(b),
        b.has_best(is_buy),
        o.id == b.best(is_buy).id,
        o.price == b.best(is_buy).price,
    ensures
        consistent(b.set_best(is_buy, o)),
        forall|id: u128| rests(b.set_best(is_buy, o), id) ==> rests(b, id),
        shares_left(b) && o.remaining_shares.value() > 0 ==> shares_left(b.set_best(is_buy, o)),
{
    let ls = b.side(is_buy);
    lemma_flatten_set_best(ls, o);
    lemma_flatten_first(ls);
    let fb = flatten(b.buys);
    let all = resting_orders(b);
    let q: int = if is_buy { 0 } else { fb.len() as int };
    assert(all[q] == b.best(is_buy));
    assert(resting_orders(b.set_best(is_buy, o)) =~= all.update(q, o));
    lemma_indexed_update(all, fb.len() as int, b.index, q, o);
}

/// Adding an order whose id rests nowhere in the book keeps the index exact;
/// the order joins the resting orders at some position.
pub proof fn lemma_add_consistent(b: BookState, o: Order, is_buy: bool) -> (qa: int)
    requires
        consistent(b),
        !rests(b, o.id),
    ensures
        0 <= qa <= resting_orders(b).len(),
        resting_orders(b.add(o, is_buy)) == resting_orders(b).insert(qa, o),
        consistent(b.add(o, is_buy)),
        shares_left(b) && o.remaining_shares.value() > 0 ==> shares_left(b.add(o, is_buy)),
{
    let ls = b.side(is_buy);
    let q = lemma_flatten_insert_level(ls, o, is_buy);
    let fb = flatten(b.buys);
    let fs = flatten(b.sells);
    let all = resting_orders(b);
    let qa: int = if is_buy { q } else { fb.len() + q };
    assert(resting_orders(b.add(o, is_buy)) =~= all.insert(qa, o));
    lemma_indexed_insert(all, fb.len() as int, b.index, qa, o, is_buy);
    all.insert_ensures(qa, o);
    qa
}

/// Cancelling keeps the index exact; an order leaves the book exactly when
/// its id was indexed.
pub proof fn lemma_cancel_consistent(b: BookState, id: u128)
    requires
        b.wf(),
        consistent(b),
    ensures
        consistent(b.cancel(id).0),
        b.cancel(id).1 == b.index.contains_key(id),
        !b.cancel(id).0.index.contains_key(id),
        shares_left(b) ==> shares_left(b.cancel(id).0),
{
    if b.index.contains_key(id) {
        let fb = flatten(b.buys);
        let fs = flatten(b.sells);
        let all = resting_orders(b);
        let k = choose|k: int| 0 <= k < all.len() && (#[trigger] all[k]).id == id;
        let is_buy = k < fb.len();
        let f = flatten(b.side(is_buy));
        let q: int = if is_buy { k } else { k - fb.len() };
        assert(f[q] == all[k]);
        assert forall|t1: int, t2: int| 0 <= t1 < f.len() && 0 <= t2 < f.len() && t1 != t2 implies #[trigger] f[t1].id
            != #[trigger] f[t2].id by {
            let o1: int = if is_buy { 0 } else { fb.len() as int };
            assert(f[t1] == all[o1 + t1] && f[t2] == all[o1 + t2]);
        }
        lemma_flatten_remove_from_level(b.side(is_buy), is_buy, q);
        assert(resting_orders(b.cancel(id).0) =~= all.remove(k));
        lemma_indexed_remove(all, fb.len() as int, b.index, k);
        all.remove_ensures(k);
    }
}

/// Clearing expired orders keeps a book well formed with an exact index,
/// and rests nothing new.
pub proof fn lemma_drop_expired_consistent(b: BookState, is_buy: bool, now: Instant)
    requires
        b.wf(),
        consistent(b),
    ensures
        drop_expired(b, is_buy, now).wf(),
        consistent(drop_expired(b, is_buy, now)),
        forall|id: u128| rests(drop_expired(b, is_buy, now), id) ==> rests(b, id),
        shares_left(b) ==> shares_left(drop_expired(b, is_buy, now)),
    decreases depth(b.side(is_buy)),
{
    if b.has_best(is_buy) && b.best(is_buy).expires_at <= now {
        lemma_pop_best_depth(b.side(is_buy));
        lemma_remove_best_consistent(b, is_buy);
        lemma_drop_expired_consistent(b.remove_best(is_buy), is_buy, now);
    }
}

/// Every subtraction of share counts that matching the limit order `o`
/// against `b` performs gives the exact difference.
pub open spec fn limit_exact(b: BookState, o: Order, is_buy: bool, now: Instant) -> bool
    decreases depth(b.side(!is_buy)),
{
    let b1 = drop_expired(b, !is_buy, now);
    if b1.has_best(!is_buy) && crosses(o.price, b1.best(!is_buy).price, is_buy) {
        let r = b1.best(!is_buy);
        if o.remaining_shares.value() > r.remaining_shares.value() {
            sub_exact(o.remaining_shares, r.remaining_shares) && match remainder_after(o, r) {
                Some(d) => {
                    proof {
                        lemma_drop_expired_depth(b, !is_buy, now);
                        lemma_pop_best_depth(b1.side(!is_buy));
                    }
                    limit_exact(b1.remove_best(!is_buy), o.with_remaining(d), is_buy, now)
                },
                None => true,
            }
        } else {
            sub_exact(r.remaining_shares, o.remaining_shares)
        }
    } else {
        true
    }
}

/// Every subtraction of share counts that matching the market sell `o`
/// against `b` performs gives the exact difference.
pub open spec fn market_sell_exact(b: BookState, o: Order, now: Instant) -> bool
    decreases depth(b.side(true)),
{
    let b1 = drop_expired(b, true, now);
    if b1.has_best(true) {
        let r = b1.best(true);
        if o.remaining_shares.value() > r.remaining_shares.value() {
            sub_exact(o.remaining_shares, r.remaining_shares) && match remainder_after(o, r) {
                Some(d) => {
                    proof {
                        lemma_drop_expired_depth(b, true, now);
                        lemma_pop_best_depth(b1.side(true));
                    }
                    market_sell_exact(b1.remove_best(true), o.with_remaining(d), now)
                },
                None => true,
            }
        } else {
            sub_exact(r.remaining_shares, o.remaining_shares)
        }
    } else {
        true
    }
}

/// Where matching the market buy `o` against `b` leaves a resting sell a
/// part, no rounding works against it: the sell's price is positive, its
/// cost (price times shares) is exact, and the quotient of the quote by the
/// price is not rounded up.
pub open spec fn market_buy_rounding_ok(b: BookState, o: Order, now: Instant) -> bool
    decreases depth(b.side(false)),
{
    let b1 = drop_expired(b, false, now);
    if b1.has_best(false) && o.quote_amount.value() >= b1.best(false).price.value() {
        let r = b1.best(false);
        match representable(decimal_checked_mul(
            r.price.mantissa,
            r.price.scale,
            r.remaining_shares.mantissa,
            r.remaining_shares.scale,
        )) {
            None => true,
            Some(cost) => if o.quote_amount.value() > cost.value() {
                match representable(decimal_checked_sub(
                    o.quote_amount.mantissa,
                    o.quote_amount.scale,
                    cost.mantissa,
                    cost.scale,
                )) {
                    Some(q) => {
                        proof {
                            lemma_drop_expired_depth(b, false, now);
                            lemma_pop_best_depth(b1.side(false));
                        }
                        market_buy_rounding_ok(b1.remove_best(false), o.with_quote(q), now)
                    },
                    None => true,
                }
            } else if o.quote_amount.value() == cost.value() {
                true
            } else {
                &&& r.price.value() > 0
                &&& cost.value() * pow10(max_scale()) == r.price.value() * r.remaining_shares.value()
                &&& match representable(decimal_checked_div(
                    o.quote_amount.mantissa,
                    o.quote_amount.scale,
                    r.price.mantissa,
                    r.price.scale,
                )) {
                    None => true,
                    Some(q) => q.value() * r.price.value() <= o.quote_amount.value() * pow10(max_scale()),
                }
            },
        }
    } else {
        true
    }
}

/// A market buy that cannot pay for the whole of a resting sell leaves it
/// with shares, when no rounding works against it.
proof fn lemma_partial_buy_leaves_shares(r: Order, quote: Dec, cost: Dec, q: Dec, n: Dec)
    requires
        r.wf(),
        q.wf(),
        r.price.value() > 0,
        cost.value() * pow10(max_scale()) == r.price.value() * r.remaining_shares.value(),
        quote.value() < cost.value(),
        q.value() * r.price.value() <= quote.value() * pow10(max_scale()),
        sign(n.value()) == sign(
            r.remaining_shares.value() - from_parts(decimal_floor(q.mantissa, q.scale)).value(),
        ),
    ensures
        n.value() > 0,
{
    let f = from_parts(decimal_floor(q.mantissa, q.scale));
    let p28 = pow10(max_scale());
    lemma_pow10_positive(max_scale());
    lemma_div_pow10_bound(q.mantissa as int, q.scale as nat);
    lemma_whole_part(q);
    assert(f.mantissa == q.value() / p28);
    assert(f.value() == f.mantissa * pow10((max_scale() - 0) as nat));
    let qv = q.value();
    assert((qv / p28) * p28 <= qv) by (nonlinear_arith)
        requires
            p28 > 0,
    ;
    let pv = r.price.value();
    let sv = r.remaining_shares.value();
    assert(qv < sv) by (nonlinear_arith)
        requires
            pv > 0,
            qv * pv <= quote.value() * p28,
            quote.value() < cost.value(),
            cost.value() * p28 == pv * sv,
            p28 > 0,
    ;
}

proof fn lemma_fill_last_consistent(b1: BookState, o: Order, is_buy: bool, ev: TradeEvent)
    requires
        b1.wf(),
        consistent(b1),
        b1.has_best(!is_buy),
    ensures
        consistent(fill_last(b1, o, is_buy, ev).0),
        shares_left(b1) && o.remaining_shares.value() <= b1.best(!is_buy).remaining_shares.value()
            && (o.remaining_shares.value() < b1.best(!is_buy).remaining_shares.value() ==> sub_keeps_sign(
            b1.best(!is_buy).remaining_shares,
            o.remaining_shares,
        )) ==> shares_left(fill_last(b1, o, is_buy, ev).0),
{
    let r = b1.best(!is_buy);
    if o.remaining_shares.value() == r.remaining_shares.value() {
        lemma_remove_best_consistent(b1, !is_buy);
    } else {
        match representable(decimal_checked_sub(
            r.remaining_shares.mantissa,
            r.remaining_shares.scale,
            o.remaining_shares.mantissa,
            o.remaining_shares.scale,
        )) {
            Some(d) => lemma_set_best_consistent(b1, !is_buy, r.with_remaining(d)),
            None => {},
        }
    }
}

/// Matching a limit order whose id rests nowhere in the book keeps the index
/// exact.
pub proof fn lemma_limit_match_consistent(b: BookState, o: Order, is_buy: bool, now: Instant)
    requires
        b.wf(),
        consistent(b),
        !rests(b, o.id),
    ensures
        consistent(limit_match(b, o, is_buy, now).0),
        shares_left(b) && o.remaining_shares.value() > 0 && limit_signs_kept(b, o, is_buy, now) ==> shares_left(
            limit_match(b, o, is_buy, now).0,
        ),
    decreases depth(b.side(!is_buy)),
{
    lemma_drop_expired_consistent(b, !is_buy, now);
    let b1 = drop_expired(b, !is_buy, now);
    if b1.has_best(!is_buy) && crosses(o.price, b1.best(!is_buy).price, is_buy) {
        let r = b1.best(!is_buy);
        if o.remaining_shares.value() > r.remaining_shares.value() {
            match remainder_after(o, r) {
                Some(d) => {
                    lemma_drop_expired_depth(b, !is_buy, now);
                    lemma_pop_best_depth(b1.side(!is_buy));
                    lemma_remove_best_consistent(b1, !is_buy);
                    let o2 = o.with_remaining(d);
                    assert(!rests(b1.remove_best(!is_buy), o2.id));
                    lemma_limit_match_consistent(b1.remove_best(!is_buy), o2, is_buy, now);
                },
                None => {},
            }
        } else {
            lemma_fill_last_consistent(b1, o, is_buy, crate::matching::limit_event(o, r, is_buy));
        }
    } else {
        lemma_add_consistent(b1, o, is_buy);
    }
}

/// Matching a market buy keeps the index exact.
pub proof fn lemma_market_buy_match_consistent(b: BookState, o: Order, now: Instant)
    requires
        b.wf(),
        consistent(b),
    ensures
        consistent(market_buy_match(b, o, now).0),
        shares_left(b) && market_buy_rounding_ok(b, o, now) && market_buy_signs_kept(b, o, now)
            ==> shares_left(market_buy_match(b, o, now).0),
    decreases depth(b.side(false)),
{
    lemma_drop_expired_consistent(b, false, now);
    let b1 = drop_expired(b, false, now);
    if b1.has_best(false) && o.quote_amount.value() >= b1.best(false).price.value() {
        let r = b1.best(false);
        match representable(decimal_checked_mul(
            r.price.mantissa,
            r.price.scale,
            r.remaining_shares.mantissa,
            r.remaining_shares.scale,
        )) {
            None => {},
            Some(cost) => {
                if o.quote_amount.value() > cost.value() {
                    match representable(decimal_checked_sub(
                        o.quote_amount.mantissa,
                        o.quote_amount.scale,
                        cost.mantissa,
                        cost.scale,
                    )) {
                        Some(q) => {
                            lemma_drop_expired_depth(b, false, now);
                            lemma_pop_best_depth(b1.side(false));
                            lemma_remove_best_consistent(b1, false);
                            lemma_market_buy_match_consistent(b1.remove_best(false), o.with_quote(q), now);
                        },
                        None => {},
                    }
                } else if o.quote_amount.value() == cost.value() {
                    lemma_remove_best_consistent(b1, false);
                } else {
                    match representable(decimal_checked_div(
                        o.quote_amount.mantissa,
                        o.quote_amount.scale,
                        r.price.mantissa,
                        r.price.scale,
                    )) {
                        None => {},
                        Some(q) => {
                            let f = from_parts(decimal_floor(q.mantissa, q.scale));
                            match representable(decimal_checked_sub(
                                r.remaining_shares.mantissa,
                                r.remaining_shares.scale,
                                f.mantissa,
                                f.scale,
                            )) {
                                Some(n) => {
                                    if shares_left(b) && market_buy_rounding_ok(b, o, now)
                                        && market_buy_signs_kept(b, o, now) {
                                        lemma_partial_buy_leaves_shares(r, o.quote_amount, cost, q, n);
                                    }
                                    lemma_set_best_consistent(b1, false, r.with_remaining(n));
                                },
                                None => {},
                            }
                        },
                    }
                }
            },
        }
    }
}

/// Matching a market sell keeps the index exact.
pub proof fn lemma_market_sell_match_consistent(b: BookState, o: Order, now: Instant)
    requires
        b.wf(),
        consistent(b),
    ensures
        consistent(market_sell_match(b, o, now).0),
        shares_left(b) && market_sell_signs_kept(b, o, now) ==> shares_left(
            market_sell_match(b, o, now).0,
        ),
    decreases depth(b.side(true)),
{
    lemma_drop_expired_consistent(b, true, now);
    let b1 = drop_expired(b, true, now);
    if b1.has_best(true) {
        let r = b1.best(true);
        if o.remaining_shares.value() > r.remaining_shares.value() {
            match remainder_after(o, r) {
                Some(d) => {
                    lemma_drop_expired_depth(b, true, now);
                    lemma_pop_best_depth(b1.side(true));
                    lemma_remove_best_consistent(b1, true);
                    lemma_market_sell_match_consistent(b1.remove_best(true), o.with_remaining(d), now);
                },
                None => {},
            }
        } else {
            lemma_fill_last_consistent(
                b1,
                o,
                false,
                TradeEvent::MarketOrders { market_order: o, book_order: r },
            );
        }
    }
}

/// Matching `o` in `b` leaves every resting order it partly fills with
/// shares: a limit order brings shares, and for a market buy no rounding
/// works against the resting sell (see [`market_buy_rounding_ok`]).
pub open spec fn fills_leave_shares(b: BookState, o: Order, now: Instant) -> bool {
    match o.order_type {
        OrderType::LIMIT => o.remaining_shares.value() > 0,
        OrderType::MARKET => o.side == OrderSide::BUY ==> market_buy_rounding_ok(b, o, now),
    }
}

proof fn lemma_book_match_consistent(b: BookState, o: Order, now: Instant)
    requires
        b.wf(),
        consistent(b),
        o.order_type == OrderType::LIMIT ==> !rests(b, o.id),
    ensures
        consistent(book_match(b, o, now).0),
        shares_left(b) && (fills_leave_shares(b, o, now) && book_signs_kept(b, o, now)) ==> shares_left(book_match(b, o, now).0),
{
    match o.order_type {
        OrderType::LIMIT => lemma_limit_match_consistent(b, o, o.side == OrderSide::BUY, now),
        OrderType::MARKET => if o.side == OrderSide::BUY {
            lemma_market_buy_match_consistent(b, o, now)
        } else {
            lemma_market_sell_match_consistent(b, o, now)
        },
    }
}

/// Every book of the engine has an exact index.
pub open spec fn engine_consistent(s: EngineState) -> bool {
    forall|m: u128, k: u128| #[trigger] has_book(s, m, k) ==> consistent(s[m][k])
}

/// Every order resting in a book of the engine has shares left.
pub open spec fn engine_shares_left(s: EngineState) -> bool {
    forall|m: u128, k: u128| #[trigger] has_book(s, m, k) ==> shares_left(s[m][k])
}

/// The index of every book names exactly the orders resting in it, each
/// under its own id with its side and price, and no two resting orders share
/// an id; matching an order keeps this so, provided a limit order's id does
/// not already rest in its book. Every resting order keeps shares left when
/// matching leaves partly filled orders with shares ([`fills_leave_shares`])
/// and `rust_decimal`'s subtractions keep the sign of the exact difference
/// ([`book_signs_kept`], which `Engine::match_order` ensures of every match).
pub proof fn law_match_keeps_index_exact(s: EngineState, o: Order, now: Instant)
    requires
        engine_wf(s),
        engine_consistent(s),
        o.order_type == OrderType::LIMIT && has_book(s, o.market_id, o.outcome_id) ==> !rests(
            s[o.market_id][o.outcome_id],
            o.id,
        ),
    ensures
        engine_consistent(engine_match(s, o, now).0),
        engine_shares_left(s) && (has_book(s, o.market_id, o.outcome_id) ==> fills_leave_shares(
            s[o.market_id][o.outcome_id],
            o,
            now,
        ) && book_signs_kept(s[o.market_id][o.outcome_id], o, now)) ==> engine_shares_left(
            engine_match(s, o, now).0,
        ),
{
    if has_book(s, o.market_id, o.outcome_id) {
        let b = s[o.market_id][o.outcome_id];
        assert(has_book(s, o.market_id, o.outcome_id));
        assert(s.contains_key(o.market_id) && s[o.market_id].contains_key(o.outcome_id));
        lemma_book_match_consistent(b, o, now);
        let t = engine_match(s, o, now).0;
        assert forall|m: u128, k: u128| #[trigger] has_book(t, m, k) implies consistent(t[m][k]) by {
            if m != o.market_id || k != o.outcome_id {
                assert(has_book(s, m, k));
            }
        }
        if engine_shares_left(s) && (fills_leave_shares(b, o, now) && book_signs_kept(b, o, now)) {
            assert forall|m: u128, k: u128| #[trigger] has_book(t, m, k) implies shares_left(t[m][k]) by {
                if m != o.market_id || k != o.outcome_id {
                    assert(has_book(s, m, k));
                }
            }
        }
    }
}

/// Cancelling keeps every index exact and every resting order with shares
/// left, and a cancellation is reported exactly when an order of that id
/// rests in the order's book.
pub proof fn law_cancel_keeps_index_exact(s: EngineState, o: Order)
    requires
        engine_wf(s),
        engine_consistent(s),
    ensures
        engine_consistent(engine_cancel(s, o).0),
        engine_shares_left(s) ==> engine_shares_left(engine_cancel(s, o).0),
        has_book(s, o.market_id, o.outcome_id) ==> (engine_cancel(s, o).1 is Some <==> rests(
            s[o.market_id][o.outcome_id],
            o.id,
        )),
{
    if has_book(s, o.market_id, o.outcome_id) {
        let b = s[o.market_id][o.outcome_id];
        assert(has_book(s, o.market_id, o.outcome_id));
        assert(s.contains_key(o.market_id) && s[o.market_id].contains_key(o.outcome_id));
        lemma_cancel_consistent(b, o.id);
        if rests(b, o.id) {
            let all = resting_orders(b);
            let k = choose|k: int| 0 <= k < all.len() && (#[trigger] all[k]).id == o.id;
            assert(b.index.contains_key(all[k].id));
        }
        let t = engine_cancel(s, o).0;
        assert forall|m: u128, k: u128| #[trigger] has_book(t, m, k) implies consistent(t[m][k]) by {
            if m != o.market_id || k != o.outcome_id {
                assert(has_book(s, m, k));
            }
        }
        if engine_shares_left(s) {
            assert forall|m: u128, k: u128| #[trigger] has_book(t, m, k) implies shares_left(t[m][k]) by {
                if m != o.market_id || k != o.outcome_id {
                    assert(has_book(s, m, k));
                }
            }
        }
    }
}

/// Every book of the engine is sound: its levels are non-empty and ordered
/// best price first, it is uncrossed, its index names exactly its resting
/// orders, and every resting order has shares left.
pub open spec fn engine_sound(s: EngineState) -> bool {
    &&& engine_wf(s)
    &&& engine_uncrossed(s)
    &&& engine_consistent(s)
    &&& engine_shares_left(s)
}

/// Matching an order keeps every book sound when a limit order's id does not
/// already rest in its book, matching leaves partly filled orders with
/// shares ([`fills_leave_shares`]: a limit order brings shares, and no
/// rounding works against a resting sell that a market buy takes a part of),
/// and `rust_decimal`'s subtractions keep the sign of the exact difference
/// ([`book_signs_kept`], which `Engine::match_order` ensures of every match
/// it performs).
pub proof fn law_books_stay_sound(s: EngineState, o: Order, now: Instant)
    requires
        engine_sound(s),
        o.wf(),
        has_book(s, o.market_id, o.outcome_id) ==> (o.order_type == OrderType::LIMIT ==> !rests(
            s[o.market_id][o.outcome_id],
            o.id,
        )) && fills_leave_shares(s[o.market_id][o.outcome_id], o, now) && book_signs_kept(
            s[o.market_id][o.outcome_id],
            o,
            now,
        ),
    ensures
        engine_sound(engine_match(s, o, now).0),
{
    law_match_keeps_books_uncrossed(s, o, now);
    law_match_keeps_index_exact(s, o, now);
}

/// Cancelling an order keeps every book sound.
pub proof fn law_cancel_keeps_books_sound(s: EngineState, o: Order)
    requires
        engine_sound(s),
    ensures
        engine_sound(engine_cancel(s, o).0),
{
    law_cancel_keeps_books_uncrossed(s, o);
    law_cancel_keeps_index_exact(s, o);
}

/// A new market's books, and the removal of a market, keep every index exact
/// and every resting order with shares left.
pub proof fn law_markets_keep_books_sound(s: EngineState, m: u128, first: u128, second: u128)
    requires
        engine_consistent(s),
        engine_shares_left(s),
    ensures
        engine_consistent(engine_add_market(s, m, first, second)),
        engine_shares_left(engine_add_market(s, m, first, second)),
        engine_consistent(s.remove(m)),
        engine_shares_left(s.remove(m)),
{
    let e = BookState::empty();
    assert(flatten(e.buys) == Seq::<Order>::empty());
    assert(resting_orders(e) =~= Seq::<Order>::empty());
    assert(consistent(e));
    let t = engine_add_market(s, m, first, second);
    assert forall|a: u128, k: u128| #[trigger] has_book(t, a, k) implies consistent(t[a][k]) && shares_left(
        t[a][k],
    ) by {
        if a != m || s.contains_key(m) {
            assert(has_book(s, a, k));
        }
    }
    let r = s.remove(m);
    assert forall|a: u128, k: u128| #[trigger] has_book(r, a, k) implies consistent(r[a][k]) && shares_left(
        r[a][k],
    ) by {
        assert(has_book(s, a, k));
    }
}

/// An id that rests nowhere in a book with an exact index is neither indexed
/// nor held by any order of either side.
proof fn lemma_not_resting(b: BookState, id: u128, is_buy: bool)
    requires
        b.wf(),
        !rests(b, id),
    ensures
        !b.index.contains_key(id),
        forall|i: int, j: int|
            0 <= i < b.side(is_buy).len() && 0 <= j < b.side(is_buy)[i].1.len()
                ==> (#[trigger] b.side(is_buy)[i].1[j]).id != id,
{
    let fb = flatten(b.buys);
    let all = resting_orders(b);
    assert forall|i: int, j: int|
        0 <= i < b.side(is_buy).len() && 0 <= j < b.side(is_buy)[i].1.len() implies (
        #[trigger] b.side(is_buy)[i].1[j]).id != id by {
        let ls = b.side(is_buy);
        lemma_flatten_at(ls, i, j);
        let q = flatten(ls.take(i)).len() + j;
        let qa: int = if is_buy { q } else { fb.len() + q };
        assert(all[qa] == ls[i].1[j]);
    }
}

/// Cancelling an order right after adding it gives back the book as it
/// was, and reports that an order left the book, whenever no order of that
/// id rested there before.
pub proof fn law_cancel_undoes_add(b: BookState, o: Order, is_buy: bool)
    requires
        b.wf(),
        o.wf(),
        !rests(b, o.id),
    ensures
        b.add(o, is_buy).cancel(o.id) == (b, true),
{
    lemma_not_resting(b, o.id, is_buy);
    lemma_add_then_cancel(b, o, is_buy);
}

/// A limit order that finds nothing to trade against (the best opposite
/// order, if any, is live and does not cross its price) rests whole; placing
/// it and then cancelling it gives the engine back as it was, and the
/// cancellation is reported with the order.
pub proof fn law_cancel_undoes_resting_limit(s: EngineState, o: Order, now: Instant)
    requires
        engine_wf(s),
        has_book(s, o.market_id, o.outcome_id),
        o.wf(),
        o.order_type == OrderType::LIMIT,
        !rests(s[o.market_id][o.outcome_id], o.id),
        s[o.market_id][o.outcome_id].has_best(o.side != OrderSide::BUY) ==> s[o.market_id][o.outcome_id].best(
            o.side != OrderSide::BUY,
        ).expires_at > now && !crosses(
            o.price,
            s[o.market_id][o.outcome_id].best(o.side != OrderSide::BUY).price,
            o.side == OrderSide::BUY,
        ),
    ensures
        engine_match(s, o, now).1 == Seq::<TradeEvent>::empty(),
        engine_match(s, o, now).2,
        rests(engine_match(s, o, now).0[o.market_id][o.outcome_id], o.id),
        engine_cancel(engine_match(s, o, now).0, o) == (s, Some(TradeEvent::CancelOrder { order: o })),
{
    let m = o.market_id;
    let k = o.outcome_id;
    let b = s[m][k];
    let is_buy = o.side == OrderSide::BUY;
    assert(s.contains_key(m) && s[m].contains_key(k));
    assert(b.wf());
    assert(drop_expired(b, !is_buy, now) == b);
    assert(limit_match(b, o, is_buy, now) == (b.add(o, is_buy), Seq::<TradeEvent>::empty(), true));
    let a = b.add(o, is_buy);
    lemma_add_book_wf(b, o, is_buy);
    law_cancel_undoes_add(b, o, is_buy);
    let t = engine_match(s, o, now).0;
    assert(t == with_book(s, m, k, a));
    assert(has_book(t, m, k));
    assert(t[m][k] == a);
    assert(s[m].insert(k, a).insert(k, b) =~= s[m]);
    assert(with_book(t, m, k, b) =~= s);
}

/// The shares a trade event accounts for: the smaller remaining count of the
/// two orders of a trade (what a trade between limit orders, or of a market
/// sell, moves), and the shares left unsold of a market order reported
/// complete.
pub open spec fn shares_accounted(ev: TradeEvent) -> int {
    match ev {
        TradeEvent::LimitOrders { buy, sell } => if buy.remaining_shares.value()
            <= sell.remaining_shares.value() {
            buy.remaining_shares.value()
        } else {
            sell.remaining_shares.value()
        },
        TradeEvent::MarketOrders { market_order, book_order } => if market_order.remaining_shares.value()
            <= book_order.remaining_shares.value() {
            market_order.remaining_shares.value()
        } else {
            book_order.remaining_shares.value()
        },
        TradeEvent::CompleteOrder { market_order } => market_order.remaining_shares.value(),
        TradeEvent::CancelOrder { .. } => 0,
    }
}

/// The shares a run of trade events accounts for.
pub open spec fn total_accounted(evs: Seq<TradeEvent>) -> int
    decreases evs.len(),
{
    if evs.len() == 0 {
        0
    } else {
        shares_accounted(evs[0]) + total_accounted(evs.drop_first())
    }
}

/// The remaining shares of the orders of `s` with the id `id`.
pub open spec fn id_shares(s: Seq<Order>, id: u128) -> int
    decreases s.len(),
{
    if s.len() == 0 {
        0
    } else {
        id_shares(s.drop_last(), id) + if s.last().id == id {
            s.last().remaining_shares.value()
        } else {
            0
        }
    }
}

proof fn lemma_total_accounted_first(ev: TradeEvent, rest: Seq<TradeEvent>)
    ensures
        total_accounted(seq![ev] + rest) == shares_accounted(ev) + total_accounted(rest),
{
    assert((seq![ev] + rest).drop_first() =~= rest);
    assert((seq![ev] + rest)[0] == ev);
}

proof fn lemma_id_shares_concat(a: Seq<Order>, b: Seq<Order>, id: u128)
    ensures
        id_shares(a + b, id) == id_shares(a, id) + id_shares(b, id),
    decreases b.len(),
{
    if b.len() == 0 {
        assert(a + b =~= a);
    } else {
        assert((a + b).drop_last() =~= a + b.drop_last());
        assert((a + b).last() == b.last());
        lemma_id_shares_concat(a, b.drop_last(), id);
    }
}

proof fn lemma_id_shares_absent(s: Seq<Order>, id: u128)
    requires
        !holds_id(s, id),
    ensures
        id_shares(s, id) == 0,
    decreases s.len(),
{
    if s.len() > 0 {
        assert(s.drop_last()[0] == s[0] || s.drop_last().len() == 0);
        assert(!holds_id(s.drop_last(), id)) by {
            if holds_id(s.drop_last(), id) {
                let k = choose|k: int| 0 <= k < s.drop_last().len() && (#[trigger] s.drop_last()[k]).id == id;
                assert(s[k] == s.drop_last()[k]);
            }
        }
        assert(s[s.len() - 1] == s.last());
        lemma_id_shares_absent(s.drop_last(), id);
    }
}

/// Inserting an order into a run that held no order of its id adds its
/// remaining shares to those of its id.
proof fn lemma_id_shares_insert(s: Seq<Order>, q: int, o: Order)
    requires
        !holds_id(s, o.id),
        0 <= q <= s.len(),
    ensures
        id_shares(s.insert(q, o), o.id) == o.remaining_shares.value(),
{
    let a = s.take(q);
    let c = s.skip(q);
    assert(s.insert(q, o) =~= a + (seq![o] + c));
    lemma_id_shares_concat(a, seq![o] + c, o.id);
    lemma_id_shares_concat(seq![o], c, o.id);
    assert(!holds_id(a, o.id)) by {
        if holds_id(a, o.id) {
            let k = choose|k: int| 0 <= k < a.len() && (#[trigger] a[k]).id == o.id;
            assert(s[k] == a[k]);
        }
    }
    assert(!holds_id(c, o.id)) by {
        if holds_id(c, o.id) {
            let k = choose|k: int| 0 <= k < c.len() && (#[trigger] c[k]).id == o.id;
            assert(s[q + k] == c[k]);
        }
    }
    lemma_id_shares_absent(a, o.id);
    lemma_id_shares_absent(c, o.id);
    assert(seq![o].drop_last() =~= Seq::<Order>::empty());
    assert(id_shares(seq![o], o.id) == id_shares(seq![o].drop_last(), o.id) + o.remaining_shares.value());
}

proof fn lemma_limit_match_conserves(b: BookState, o: Order, is_buy: bool, now: Instant)
    requires
        b.wf(),
        consistent(b),
        !rests(b, o.id),
        limit_exact(b, o, is_buy, now),
        limit_match(b, o, is_buy, now).2,
    ensures
        total_accounted(limit_match(b, o, is_buy, now).1) + id_shares(
            resting_orders(limit_match(b, o, is_buy, now).0),
            o.id,
        ) == o.remaining_shares.value(),
    decreases depth(b.side(!is_buy)),
{
    lemma_drop_expired_consistent(b, !is_buy, now);
    let b1 = drop_expired(b, !is_buy, now);
    let res = limit_match(b, o, is_buy, now);
    if b1.has_best(!is_buy) && crosses(o.price, b1.best(!is_buy).price, is_buy) {
        let r = b1.best(!is_buy);
        let ev = crate::matching::limit_event(o, r, is_buy);
        if o.remaining_shares.value() > r.remaining_shares.value() {
            let d = remainder_after(o, r)->0;
            lemma_drop_expired_depth(b, !is_buy, now);
            lemma_pop_best_depth(b1.side(!is_buy));
            lemma_remove_best_consistent(b1, !is_buy);
            let o2 = o.with_remaining(d);
            assert(!rests(b1.remove_best(!is_buy), o2.id));
            lemma_limit_match_conserves(b1.remove_best(!is_buy), o2, is_buy, now);
            let sub = limit_match(b1.remove_best(!is_buy), o2, is_buy, now);
            lemma_total_accounted_first(ev, sub.1);
            assert(shares_accounted(ev) == r.remaining_shares.value());
        } else {
            lemma_total_accounted_first(ev, Seq::<TradeEvent>::empty());
            assert(shares_accounted(ev) == o.remaining_shares.value());
            if o.remaining_shares.value() == r.remaining_shares.value() {
                lemma_remove_best_consistent(b1, !is_buy);
            } else {
                let d = representable(decimal_checked_sub(
                    r.remaining_shares.mantissa,
                    r.remaining_shares.scale,
                    o.remaining_shares.mantissa,
                    o.remaining_shares.scale,
                ))->0;
                lemma_set_best_consistent(b1, !is_buy, r.with_remaining(d));
            }
            assert(!rests(res.0, o.id));
            lemma_id_shares_absent(resting_orders(res.0), o.id);
        }
    } else {
        let qa = lemma_add_consistent(b1, o, is_buy);
        lemma_id_shares_insert(resting_orders(b1), qa, o);
    }
}

proof fn lemma_market_sell_match_conserves(b: BookState, o: Order, now: Instant)
    requires
        market_sell_exact(b, o, now),
        market_sell_match(b, o, now).2,
    ensures
        total_accounted(market_sell_match(b, o, now).1) == o.remaining_shares.value(),
    decreases depth(b.side(true)),
{
    let b1 = drop_expired(b, true, now);
    if b1.has_best(true) {
        let r = b1.best(true);
        let ev = TradeEvent::MarketOrders { market_order: o, book_order: r };
        if o.remaining_shares.value() > r.remaining_shares.value() {
            let d = remainder_after(o, r)->0;
            lemma_drop_expired_depth(b, true, now);
            lemma_pop_best_depth(b1.side(true));
            let o2 = o.with_remaining(d);
            lemma_market_sell_match_conserves(b1.remove_best(true), o2, now);
            lemma_total_accounted_first(ev, market_sell_match(b1.remove_best(true), o2, now).1);
        } else {
            lemma_total_accounted_first(ev, Seq::<TradeEvent>::empty());
        }
    } else {
        lemma_total_accounted_first(
            TradeEvent::CompleteOrder { market_order: o },
            Seq::<TradeEvent>::empty(),
        );
    }
}

/// Matching a limit order conserves its shares: the shares its trades move
/// plus the shares of it left resting in the book equal the shares it
/// brought, whenever matching runs to its end and the share counts it
/// subtracts come out exact.
pub proof fn law_limit_match_conserves_shares(b: BookState, o: Order, now: Instant)
    requires
        b.wf(),
        consistent(b),
        o.order_type == OrderType::LIMIT,
        !rests(b, o.id),
        limit_exact(b, o, o.side == OrderSide::BUY, now),
        book_match(b, o, now).2,
    ensures
        total_accounted(book_match(b, o, now).1) + id_shares(resting_orders(book_match(b, o, now).0), o.id)
            == o.remaining_shares.value(),
{
    lemma_limit_match_conserves(b, o, o.side == OrderSide::BUY, now);
}

/// Matching a market sell conserves its shares: the shares its trades move
/// plus the shares reported unsold when no buyer is left equal the shares it
/// offered, whenever matching runs to its end and the share counts it
/// subtracts come out exact.
pub proof fn law_market_sell_conserves_shares(b: BookState, o: Order, now: Instant)
    requires
        o.order_type == OrderType::MARKET,
        o.side != OrderSide::BUY,
        market_sell_exact(b, o, now),
        book_match(b, o, now).2,
    ensures
        total_accounted(book_match(b, o, now).1) == o.remaining_shares.value(),
{
    lemma_market_sell_match_conserves(b, o, now);
}

} // verus!
