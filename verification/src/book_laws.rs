//! Properties that every operation of the order book and the engine keeps.
use crate::engine::{engine_cancel, engine_match, engine_wf, has_book, with_book, EngineState, book_match};
use crate::matching::{crosses, fill_last, remainder_after, limit_event, limit_match, market_buy_match, market_sell_match};
use crate::model::{Instant, Order, OrderSide, OrderType, TradeEvent};
use crate::orderbook::{
    BookState, LevelState, better, depth, drop_expired, insert_level, lemma_find_pos,
    lemma_insert_level_wf, lemma_pop_best_depth, lemma_pop_best_wf, lemma_remove_from_level_wf,
    lemma_set_best_wf, levels_wf, pop_best, remove_from_level, set_best, level_of, without_id,
    lemma_level_of, find_pos,
};
use crate::matching::lemma_drop_expired_depth;
use crate::decimal::{representable, decimal_checked_sub, decimal_checked_mul, decimal_checked_div, decimal_floor, from_parts};
use crate::book_invariant::{lemma_add_book_wf, lemma_cancel_book_wf, lemma_remove_best_wf, lemma_set_best_book_wf};
use vstd::prelude::*;

verus! {

/// The highest buy price is below the lowest sell price: no resting buy
/// order could trade with a resting sell order.
pub open spec fn uncrossed(b: BookState) -> bool {
    b.buys.len() > 0 && b.sells.len() > 0 ==> b.buys[0].0.value() < b.sells[0].0.value()
}

/// Removing the best order of a side never improves that side's best price.
proof fn lemma_pop_best_worse(ls: Seq<LevelState>, is_buy: bool)
    requires
        levels_wf(ls, is_buy),
        ls.len() > 0,
    ensures
        pop_best(ls).len() > 0 ==> pop_best(ls)[0].0 == ls[0].0 || better(ls[0].0, pop_best(ls)[0].0, is_buy),
{
    if ls[0].1.len() <= 1 && ls.len() > 1 {
        assert(pop_best(ls)[0] == ls[1]);
    }
}

proof fn lemma_remove_best_uncrossed(b: BookState, is_buy: bool)
    requires
        b.wf(),
        uncrossed(b),
        b.has_best(is_buy),
    ensures
        uncrossed(b.remove_best(is_buy)),
        b.remove_best(is_buy).wf(),
{
    lemma_pop_best_worse(b.side(is_buy), is_buy);
    lemma_remove_best_wf(b, is_buy);
}

proof fn lemma_set_best_uncrossed(b: BookState, is_buy: bool, o: Order)
    requires
        b.wf(),
        uncrossed(b),
        b.has_best(is_buy),
        o.wf(),
        o.id == b.best(is_buy).id,
        o.price.value() == b.best(is_buy).price.value(),
    ensures
        uncrossed(b.set_best(is_buy, o)),
        b.set_best(is_buy, o).wf(),
{
    lemma_set_best_book_wf(b, is_buy, o);
}

proof fn lemma_drop_expired_uncrossed(b: BookState, is_buy: bool, now: Instant)
    requires
        b.wf(),
        uncrossed(b),
    ensures
        uncrossed(drop_expired(b, is_buy, now)),
        drop_expired(b, is_buy, now).wf(),
    decreases depth(b.side(is_buy)),
{
    if b.has_best(is_buy) && b.best(is_buy).expires_at <= now {
        lemma_pop_best_depth(b.side(is_buy));
        lemma_remove_best_uncrossed(b, is_buy);
        lemma_drop_expired_uncrossed(b.remove_best(is_buy), is_buy, now);
    }
}

/// Adding an order that does not cross the best opposite price keeps the
/// book uncrossed.
proof fn lemma_add_uncrossed(b: BookState, o: Order, is_buy: bool)
    requires
        b.wf(),
        uncrossed(b),
        o.wf(),
        b.side(!is_buy).len() > 0 ==> !crosses(o.price, b.side(!is_buy)[0].0, is_buy),
    ensures
        uncrossed(b.add(o, is_buy)),
        b.add(o, is_buy).wf(),
{
    lemma_add_book_wf(b, o, is_buy);
    lemma_find_pos(b.side(is_buy), o.price, is_buy);
    let ls = b.side(is_buy);
    let n = insert_level(ls, o, is_buy);
    let k = find_pos(ls, o.price, is_buy) as int;
    if k == 0 {
        if ls.len() > 0 && ls[0].0.value() == o.price.value() {
            assert(n[0].0 == ls[0].0);
        } else {
            assert(n[0].0 == o.price);
        }
    } else {
        assert(n[0] == ls[0]);
    }
    let opp = b.side(!is_buy);
    if opp.len() > 0 {
        assert(b.side(!is_buy)[0].1[0].price.value() == opp[0].0.value());
    }
}

proof fn lemma_fill_last_uncrossed(b1: BookState, o: Order, is_buy: bool, ev: crate::model::TradeEvent)
    requires
        b1.wf(),
        uncrossed(b1),
        b1.has_best(!is_buy),
    ensures
        uncrossed(fill_last(b1, o, is_buy, ev).0),
        fill_last(b1, o, is_buy, ev).0.wf(),
{
    lemma_remove_best_uncrossed(b1, !is_buy);
    let r = b1.best(!is_buy);
    assert(b1.side(!is_buy)[0].1[0] == r);
    if o.remaining_shares.value() != r.remaining_shares.value() {
        match representable(decimal_checked_sub(
            r.remaining_shares.mantissa,
            r.remaining_shares.scale,
            o.remaining_shares.mantissa,
            o.remaining_shares.scale,
        )) {
            Some(d) => {
                lemma_set_best_uncrossed(b1, !is_buy, r.with_remaining(d));
            },
            None => {},
        }
    }
}

/// Matching a limit order keeps a well-formed, uncrossed book so.
pub proof fn lemma_limit_match_uncrossed(b: BookState, o: Order, is_buy: bool, now: Instant)
    requires
        b.wf(),
        uncrossed(b),
        o.wf(),
    ensures
        uncrossed(limit_match(b, o, is_buy, now).0),
        limit_match(b, o, is_buy, now).0.wf(),
    decreases depth(b.side(!is_buy)),
{
    lemma_drop_expired_uncrossed(b, !is_buy, now);
    let b1 = drop_expired(b, !is_buy, now);
    if b1.has_best(!is_buy) && crosses(o.price, b1.best(!is_buy).price, is_buy) {
        let r = b1.best(!is_buy);
        if o.remaining_shares.value() > r.remaining_shares.value() {
            match remainder_after(o, r) {
                Some(d) => {
                    lemma_drop_expired_depth(b, !is_buy, now);
                    lemma_pop_best_depth(b1.side(!is_buy));
                    lemma_remove_best_uncrossed(b1, !is_buy);
                    lemma_limit_match_uncrossed(
                        b1.remove_best(!is_buy),
                        o.with_remaining(d),
                        is_buy,
                        now,
                    );
                },
                None => {},
            }
        } else {
            lemma_fill_last_uncrossed(b1, o, is_buy, limit_event(o, r, is_buy));
        }
    } else {
        if b1.side(!is_buy).len() > 0 {
            assert(b1.side(!is_buy)[0].1[0] == b1.best(!is_buy));
        }
        lemma_add_uncrossed(b1, o, is_buy);
    }
}

/// Matching a market buy keeps a well-formed, uncrossed book so.
pub proof fn lemma_market_buy_match_uncrossed(b: BookState, o: Order, now: Instant)
    requires
        b.wf(),
        uncrossed(b),
        o.wf(),
    ensures
        uncrossed(market_buy_match(b, o, now).0),
        market_buy_match(b, o, now).0.wf(),
    decreases depth(b.side(false)),
{
    lemma_drop_expired_uncrossed(b, false, now);
    let b1 = drop_expired(b, false, now);
    if b1.has_best(false) && o.quote_amount.value() >= b1.best(false).price.value() {
        let r = b1.best(false);
        assert(b1.side(false)[0].1[0] == r);
        lemma_remove_best_uncrossed(b1, false);
        match representable(
            decimal_checked_mul(
                r.price.mantissa,
                r.price.scale,
                r.remaining_shares.mantissa,
                r.remaining_shares.scale,
            ),
        ) {
            None => {},
            Some(cost) => {
                if o.quote_amount.value() > cost.value() {
                    match representable(
                        decimal_checked_sub(
                            o.quote_amount.mantissa,
                            o.quote_amount.scale,
                            cost.mantissa,
                            cost.scale,
                        ),
                    ) {
                        Some(q) => {
                            lemma_drop_expired_depth(b, false, now);
                            lemma_pop_best_depth(b1.side(false));
                            lemma_market_buy_match_uncrossed(
                                b1.remove_best(false),
                                o.with_quote(q),
                                now,
                            );
                        },
                        None => {},
                    }
                } else if o.quote_amount.value() < cost.value() {
                    match representable(
                        decimal_checked_div(
                            o.quote_amount.mantissa,
                            o.quote_amount.scale,
                            r.price.mantissa,
                            r.price.scale,
                        ),
                    ) {
                        None => {},
                        Some(q) => {
                            let f = from_parts(decimal_floor(q.mantissa, q.scale));
                            match representable(
                                decimal_checked_sub(
                                    r.remaining_shares.mantissa,
                                    r.remaining_shares.scale,
                                    f.mantissa,
                                    f.scale,
                                ),
                            ) {
                                Some(n) => {
                                    lemma_set_best_uncrossed(b1, false, r.with_remaining(n));
                                },
                                None => {},
                            }
                        },
                    }
                }
            },
        }
    }
}

/// Matching a market sell keeps a well-formed, uncrossed book so.
pub proof fn lemma_market_sell_match_uncrossed(b: BookState, o: Order, now: Instant)
    requires
        b.wf(),
        uncrossed(b),
        o.wf(),
    ensures
        uncrossed(market_sell_match(b, o, now).0),
        market_sell_match(b, o, now).0.wf(),
    decreases depth(b.side(true)),
{
    lemma_drop_expired_uncrossed(b, true, now);
    let b1 = drop_expired(b, true, now);
    if b1.has_best(true) {
        let r = b1.best(true);
        if o.remaining_shares.value() > r.remaining_shares.value() {
            match remainder_after(o, r) {
                Some(d) => {
                    lemma_drop_expired_depth(b, true, now);
                    lemma_pop_best_depth(b1.side(true));
                    lemma_remove_best_uncrossed(b1, true);
                    lemma_market_sell_match_uncrossed(b1.remove_best(true), o.with_remaining(d), now);
                },
                None => {},
            }
        } else {
            lemma_fill_last_uncrossed(
                b1,
                o,
                false,
                crate::model::TradeEvent::MarketOrders { market_order: o, book_order: r },
            );
        }
    }
}

/// Cancelling keeps a well-formed, uncrossed book so.
pub proof fn lemma_cancel_uncrossed(b: BookState, id: u128)
    requires
        b.wf(),
        uncrossed(b),
    ensures
        uncrossed(b.cancel(id).0),
        b.cancel(id).0.wf(),
{
    lemma_cancel_book_wf(b, id);
    if b.index.contains_key(id) {
        let (is_buy, p) = b.index[id];
        let ls = b.side(is_buy);
        lemma_remove_from_level_wf(ls, p, id, is_buy);
        lemma_level_of(ls, p);
        let k = level_of(ls, p) as int;
        let n = remove_from_level(ls, p, id).0;
        if n.len() > 0 && k == 0 && k < ls.len() && n.len() < ls.len() {
            assert(n[0] == ls[1]);
        }
        if n.len() > 0 && ls.len() > 0 && !(k == 0 && n.len() < ls.len()) {
            assert(n[0].0 == ls[0].0);
        }
    }
}

/// Market buys only take from the sell side: the buy side is untouched.
pub proof fn lemma_market_buy_keeps_buys(b: BookState, o: Order, now: Instant)
    ensures
        market_buy_match(b, o, now).0.buys == b.buys,
    decreases depth(b.side(false)),
{
    lemma_drop_expired_side(b, false, now);
    let b1 = drop_expired(b, false, now);
    if b1.has_best(false) && o.quote_amount.value() >= b1.best(false).price.value() {
        let r = b1.best(false);
        match representable(
            decimal_checked_mul(
                r.price.mantissa,
                r.price.scale,
                r.remaining_shares.mantissa,
                r.remaining_shares.scale,
            ),
        ) {
            None => {},
            Some(cost) => {
                if o.quote_amount.value() > cost.value() {
                    match representable(
                        decimal_checked_sub(
                            o.quote_amount.mantissa,
                            o.quote_amount.scale,
                            cost.mantissa,
                            cost.scale,
                        ),
                    ) {
                        Some(q) => {
                            lemma_drop_expired_depth(b, false, now);
                            lemma_pop_best_depth(b1.side(false));
                            lemma_market_buy_keeps_buys(b1.remove_best(false), o.with_quote(q), now);
                        },
                        None => {},
                    }
                }
            },
        }
    }
}

/// Market sells only take from the buy side: the sell side is untouched.
pub proof fn lemma_market_sell_keeps_sells(b: BookState, o: Order, now: Instant)
    ensures
        market_sell_match(b, o, now).0.sells == b.sells,
    decreases depth(b.side(true)),
{
    lemma_drop_expired_side(b, true, now);
    let b1 = drop_expired(b, true, now);
    if b1.has_best(true) {
        let r = b1.best(true);
        if o.remaining_shares.value() > r.remaining_shares.value() {
            match remainder_after(o, r) {
                Some(d) => {
                    lemma_drop_expired_depth(b, true, now);
                    lemma_pop_best_depth(b1.side(true));
                    lemma_market_sell_keeps_sells(b1.remove_best(true), o.with_remaining(d), now);
                },
                None => {},
            }
        }
    }
}

/// Clearing expired orders from one side leaves the other side as it was.
proof fn lemma_drop_expired_side(b: BookState, is_buy: bool, now: Instant)
    ensures
        drop_expired(b, is_buy, now).side(!is_buy) == b.side(!is_buy),
    decreases depth(b.side(is_buy)),
{
    if b.has_best(is_buy) && b.best(is_buy).expires_at <= now {
        lemma_pop_best_depth(b.side(is_buy));
        lemma_drop_expired_side(b.remove_best(is_buy), is_buy, now);
    }
}

/// Every book of the engine is uncrossed.
pub open spec fn engine_uncrossed(s: EngineState) -> bool {
    forall|m: u128, k: u128| #[trigger] has_book(s, m, k) ==> uncrossed(s[m][k])
}

proof fn lemma_book_match_uncrossed(b: BookState, o: Order, now: Instant)
    requires
        b.wf(),
        uncrossed(b),
        o.wf(),
    ensures
        uncrossed(book_match(b, o, now).0),
        book_match(b, o, now).0.wf(),
{
    let is_buy = o.side == OrderSide::BUY;
    match o.order_type {
        OrderType::LIMIT => lemma_limit_match_uncrossed(b, o, is_buy, now),
        OrderType::MARKET => if is_buy {
            lemma_market_buy_match_uncrossed(b, o, now)
        } else {
            lemma_market_sell_match_uncrossed(b, o, now)
        },
    }
}

/// No order the engine matches can leave a book with a resting buy priced
/// at or above a resting sell: every book stays uncrossed, and well formed.
pub proof fn law_match_keeps_books_uncrossed(s: EngineState, o: Order, now: Instant)
    requires
        engine_wf(s),
        engine_uncrossed(s),
        o.wf(),
    ensures
        engine_wf(engine_match(s, o, now).0),
        engine_uncrossed(engine_match(s, o, now).0),
{
    if has_book(s, o.market_id, o.outcome_id) {
        let b = s[o.market_id][o.outcome_id];
        assert(has_book(s, o.market_id, o.outcome_id));
        lemma_book_match_uncrossed(b, o, now);
        let t = engine_match(s, o, now).0;
        assert forall|m: u128, k: u128| #[trigger] has_book(t, m, k) implies uncrossed(t[m][k]) by {
            if m != o.market_id || k != o.outcome_id {
                assert(has_book(s, m, k));
            }
        }
        assert forall|m: u128, k: u128| #[trigger] t.contains_key(m) && #[trigger] t[m].contains_key(k) implies t[m][k].wf() by {
            if m != o.market_id || k != o.outcome_id {
                assert(has_book(s, m, k));
            }
        }
    }
}

/// Cancelling keeps every book of the engine uncrossed and well formed.
pub proof fn law_cancel_keeps_books_uncrossed(s: EngineState, o: Order)
    requires
        engine_wf(s),
        engine_uncrossed(s),
    ensures
        engine_wf(engine_cancel(s, o).0),
        engine_uncrossed(engine_cancel(s, o).0),
{
    if has_book(s, o.market_id, o.outcome_id) {
        let b = s[o.market_id][o.outcome_id];
        assert(has_book(s, o.market_id, o.outcome_id));
        lemma_cancel_uncrossed(b, o.id);
        let t = engine_cancel(s, o).0;
        assert forall|m: u128, k: u128| #[trigger] has_book(t, m, k) implies uncrossed(t[m][k]) by {
            if m != o.market_id || k != o.outcome_id {
                assert(has_book(s, m, k));
            }
        }
        assert forall|m: u128, k: u128| #[trigger] t.contains_key(m) && #[trigger] t[m].contains_key(k) implies t[m][k].wf() by {
            if m != o.market_id || k != o.outcome_id {
                assert(has_book(s, m, k));
            }
        }
    }
}

/// A market order never rests in the book: after matching it, the side it
/// came from is exactly what it was.
pub proof fn law_market_orders_never_rest(b: BookState, o: Order, now: Instant)
    requires
        o.order_type == OrderType::MARKET,
    ensures
        book_match(b, o, now).0.side(o.side == OrderSide::BUY) == b.side(o.side == OrderSide::BUY),
{
    if o.side == OrderSide::BUY {
        lemma_market_buy_keeps_buys(b, o, now);
    } else {
        lemma_market_sell_keeps_sells(b, o, now);
    }
}

pub proof fn lemma_without_id_absent(s: Seq<Order>, id: u128)
    requires
        forall|j: int| 0 <= j < s.len() ==> (#[trigger] s[j]).id != id,
    ensures
        without_id(s, id) == s,
    decreases s.len(),
{
    if s.len() > 0 {
        lemma_without_id_absent(s.drop_last(), id);
        assert(s.drop_last().push(s.last()) =~= s);
    }
}

proof fn lemma_level_of_insert(ls: Seq<LevelState>, o: Order, is_buy: bool)
    requires
        levels_wf(ls, is_buy),
        o.wf(),
    ensures
        level_of(insert_level(ls, o, is_buy), o.price) == find_pos(ls, o.price, is_buy),
{
    lemma_find_pos(ls, o.price, is_buy);
    let k = find_pos(ls, o.price, is_buy) as int;
    let p = insert_level(ls, o, is_buy);
    lemma_level_of(p, o.price);
    let l = level_of(p, o.price) as int;
    assert(p[k].0.value() == o.price.value());
    assert forall|i: int| 0 <= i < k implies p[i].0.value() != o.price.value() by {
        assert(p[i] == ls[i]);
        assert(better(ls[i].0, o.price, is_buy));
    }
    if l < k {
        assert(p[l].0.value() != o.price.value());
    }
}

/// Cancelling an order right after adding it gives back the book as it
/// was, when its id was neither indexed nor on the side it joins.
pub proof fn lemma_add_then_cancel(b: BookState, o: Order, is_buy: bool)
    requires
        b.wf(),
        o.wf(),
        !b.index.contains_key(o.id),
        forall|i: int, j: int|
            0 <= i < b.side(is_buy).len() && 0 <= j < b.side(is_buy)[i].1.len()
                ==> (#[trigger] b.side(is_buy)[i].1[j]).id != o.id,
    ensures
        b.add(o, is_buy).cancel(o.id) == (b, true),
{
    let ls = b.side(is_buy);
    let p = insert_level(ls, o, is_buy);
    lemma_find_pos(ls, o.price, is_buy);
    lemma_level_of_insert(ls, o, is_buy);
    let k = find_pos(ls, o.price, is_buy) as int;
    let (r, removed) = remove_from_level(p, o.price, o.id);
    if k < ls.len() && ls[k].0.value() == o.price.value() {
        let old_level = ls[k].1;
        assert forall|j: int| 0 <= j < old_level.len() implies (#[trigger] old_level[j]).id != o.id by {
            assert(b.side(is_buy)[k].1[j] == old_level[j]);
        }
        lemma_without_id_absent(old_level, o.id);
        assert(old_level.push(o).drop_last() =~= old_level);
        assert(without_id(old_level.push(o), o.id) == old_level);
        assert(r =~= ls);
    } else {
        let one = seq![o];
        assert(one.drop_last() =~= Seq::<Order>::empty());
        assert(one.last() == o);
        assert(without_id(Seq::<Order>::empty(), o.id) == Seq::<Order>::empty());
        assert(without_id(one, o.id) == without_id(one.drop_last(), o.id));
        assert(without_id(one, o.id).len() == 0);
        assert(r =~= ls);
    }
    let a = b.add(o, is_buy);
    let c = a.cancel(o.id);
    assert(a.index.remove(o.id) =~= b.index);
    assert(c.0.index =~= b.index);
    if is_buy {
        assert(c.0.buys =~= b.buys);
    } else {
        assert(c.0.sells =~= b.sells);
    }
}

/// Price priority: the best order of a side is priced at least as well as
/// every order resting on that side, and it is the earliest of the orders
/// at its price.
pub proof fn law_best_has_best_price(b: BookState, is_buy: bool)
    requires
        b.wf(),
        b.has_best(is_buy),
    ensures
        forall|i: int, j: int|
            0 <= i < b.side(is_buy).len() && 0 <= j < b.side(is_buy)[i].1.len() ==> !better(
                #[trigger] b.side(is_buy)[i].1[j].price,
                b.best(is_buy).price,
                is_buy,
            ),
        b.best(is_buy) == b.side(is_buy)[0].1[0],
{
    let ls = b.side(is_buy);
    assert forall|i: int, j: int| 0 <= i < ls.len() && 0 <= j < ls[i].1.len() implies !better(
        #[trigger] ls[i].1[j].price,
        b.best(is_buy).price,
        is_buy,
    ) by {
        assert(ls[0].1[0].price.value() == ls[0].0.value());
        assert(ls[i].1[j].price.value() == ls[i].0.value());
        if i > 0 {
            assert(better(ls[0].0, ls[i].0, is_buy));
        }
    }
}

/// Every trade event of a limit order `o` in [`limit_match`].
pub open spec fn limit_trades_respect(evs: Seq<TradeEvent>, o: Order, is_buy: bool) -> bool {
    forall|k: int|
        0 <= k < evs.len() ==> match #[trigger] evs[k] {
            TradeEvent::LimitOrders { buy, sell } => if is_buy {
                buy.id == o.id && buy.price == o.price && crosses(o.price, sell.price, true)
            } else {
                sell.id == o.id && sell.price == o.price && crosses(o.price, buy.price, false)
            },
            _ => false,
        }
}

proof fn lemma_limit_trades_respect(b: BookState, o: Order, is_buy: bool, now: Instant)
    ensures
        limit_trades_respect(limit_match(b, o, is_buy, now).1, o, is_buy),
    decreases depth(b.side(!is_buy)),
{
    let b1 = drop_expired(b, !is_buy, now);
    if b1.has_best(!is_buy) && crosses(o.price, b1.best(!is_buy).price, is_buy) {
        let r = b1.best(!is_buy);
        let ev = limit_event(o, r, is_buy);
        if o.remaining_shares.value() > r.remaining_shares.value() {
            match remainder_after(o, r) {
                Some(d) => {
                    lemma_drop_expired_depth(b, !is_buy, now);
                    lemma_pop_best_depth(b1.side(!is_buy));
                    let o2 = o.with_remaining(d);
                    lemma_limit_trades_respect(b1.remove_best(!is_buy), o2, is_buy, now);
                    let rest = limit_match(b1.remove_best(!is_buy), o2, is_buy, now).1;
                    let all = seq![ev] + rest;
                    assert(limit_match(b, o, is_buy, now).1 == all);
                    assert forall|k: int| 0 <= k < all.len() implies match #[trigger] all[k] {
                        TradeEvent::LimitOrders { buy, sell } => if is_buy {
                            buy.id == o.id && buy.price == o.price && crosses(o.price, sell.price, true)
                        } else {
                            sell.id == o.id && sell.price == o.price && crosses(o.price, buy.price, false)
                        },
                        _ => false,
                    } by {
                        if k > 0 {
                            assert(all[k] == rest[k - 1]);
                        }
                    }
                },
                None => {},
            }
        } else {
            let f = fill_last(b1, o, is_buy, ev);
            assert(f.1 =~= seq![ev]);
        }
    }
}

/// A limit order only ever trades at prices within its limit: every trade
/// it makes is with a resting order whose price a buy would pay (at or
/// below its limit) or a sell would accept (at or above its limit).
pub proof fn law_limit_orders_respect_their_price(b: BookState, o: Order, now: Instant)
    requires
        o.order_type == OrderType::LIMIT,
    ensures
        limit_trades_respect(book_match(b, o, now).1, o, o.side == OrderSide::BUY),
{
    lemma_limit_trades_respect(b, o, o.side == OrderSide::BUY, now);
}

/// Matching an order changes only the book of its own market outcome.
pub proof fn law_match_touches_only_its_book(s: EngineState, o: Order, now: Instant, m: u128, k: u128)
    requires
        has_book(s, m, k),
        m != o.market_id || k != o.outcome_id,
    ensures
        has_book(engine_match(s, o, now).0, m, k),
        engine_match(s, o, now).0[m][k] == s[m][k],
{
}

/// After a cancellation the order's id is no longer indexed in its book.
pub proof fn law_cancel_forgets_order(s: EngineState, o: Order)
    requires
        has_book(s, o.market_id, o.outcome_id),
    ensures
        has_book(engine_cancel(s, o).0, o.market_id, o.outcome_id),
        !engine_cancel(s, o).0[o.market_id][o.outcome_id].index.contains_key(o.id),
{
}

} // verus!
