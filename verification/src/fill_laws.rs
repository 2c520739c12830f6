//! What a partial fill does to the resting order it trades with: the order
//! keeps its place at the head of its queue, its id and its price, and its
//! remaining shares go down by the shares the trade moves.
use crate::decimal::{decimal_checked_div, decimal_checked_mul, decimal_checked_sub, decimal_floor, from_parts, representable};
use crate::matching::{
    after_events, crosses, limit_match, market_buy_match, market_sell_match, sub_keeps_sign,
};
use crate::model::{Instant, Order, TradeEvent};
use crate::orderbook::{BookState, drop_expired, rests};
use crate::book_invariant::sub_exact;
use vstd::prelude::*;

verus! {

/// `b2` is `b1` with the best order of side `is_buy` replaced by `r2`: the
/// same levels, the same queues behind it, the other side and the index
/// untouched.
pub open spec fn only_best_replaced(b1: BookState, b2: BookState, is_buy: bool, r2: Order) -> bool {
    &&& b2.has_best(is_buy)
    &&& b2.best(is_buy) == r2
    &&& b2.side(is_buy).len() == b1.side(is_buy).len()
    &&& b2.side(is_buy)[0].0 == b1.side(is_buy)[0].0
    &&& b2.side(is_buy)[0].1.len() == b1.side(is_buy)[0].1.len()
    &&& b2.side(is_buy)[0].1.drop_first() == b1.side(is_buy)[0].1.drop_first()
    &&& b2.side(is_buy).drop_first() == b1.side(is_buy).drop_first()
    &&& b2.side(!is_buy) == b1.side(!is_buy)
    &&& b2.index == b1.index
}

proof fn lemma_set_best_replaces(b1: BookState, is_buy: bool, r2: Order)
    requires
        b1.wf(),
        b1.has_best(is_buy),
    ensures
        only_best_replaced(b1, b1.set_best(is_buy, r2), is_buy, r2),
{
    let ls = b1.side(is_buy);
    let b2 = b1.set_best(is_buy, r2);
    assert(b2.side(is_buy)[0].1.drop_first() =~= ls[0].1.drop_first());
    assert(b2.side(is_buy).drop_first() =~= ls.drop_first());
}

/// A limit order that wants fewer shares than the best live opposite order
/// it crosses trades once with it, and rests nowhere: that order keeps its
/// place, id and price, with its remaining shares reduced by the incoming
/// order's shares (`rust_decimal`'s difference: exactly the difference when
/// that subtraction is exact, and positive when it keeps the sign of the
/// difference); nothing else in the book changes. On both sides of the book.
pub proof fn law_limit_partial_fill(b: BookState, o: Order, is_buy: bool, now: Instant)
    requires
        b.wf(),
        drop_expired(b, !is_buy, now).has_best(!is_buy),
        crosses(o.price, drop_expired(b, !is_buy, now).best(!is_buy).price, is_buy),
        o.remaining_shares.value() < drop_expired(b, !is_buy, now).best(!is_buy).remaining_shares.value(),
    ensures
        ({
            let b1 = drop_expired(b, !is_buy, now);
            let r = b1.best(!is_buy);
            let res = limit_match(b, o, is_buy, now);
            let left = representable(
                decimal_checked_sub(
                    r.remaining_shares.mantissa,
                    r.remaining_shares.scale,
                    o.remaining_shares.mantissa,
                    o.remaining_shares.scale,
                ),
            );
            &&& res.1 == seq![
                if is_buy {
                    TradeEvent::LimitOrders { buy: o, sell: r }
                } else {
                    TradeEvent::LimitOrders { buy: r, sell: o }
                },
            ]
            &&& (res.2 <==> left is Some)
            &&& left is None ==> res.0 == b1
            &&& left matches Some(d) ==> {
                &&& only_best_replaced(b1, res.0, !is_buy, Order { remaining_shares: d, ..r })
                &&& (sub_exact(r.remaining_shares, o.remaining_shares) ==> d.value()
                    == r.remaining_shares.value() - o.remaining_shares.value())
                &&& (sub_keeps_sign(r.remaining_shares, o.remaining_shares) ==> d.value() > 0)
            }
        }),
{
    let b1 = drop_expired(b, !is_buy, now);
    crate::book_invariant::lemma_drop_expired_wf(b, !is_buy, now);
    let r = b1.best(!is_buy);
    let left = representable(
        decimal_checked_sub(
            r.remaining_shares.mantissa,
            r.remaining_shares.scale,
            o.remaining_shares.mantissa,
            o.remaining_shares.scale,
        ),
    );
    if let Some(d) = left {
        lemma_set_best_replaces(b1, !is_buy, Order { remaining_shares: d, ..r });
    }
}

/// A market sell that offers fewer shares than the best live buy trades
/// once with it: that buy keeps its place, id and price, with its remaining
/// shares reduced by the market sell's shares (`rust_decimal`'s difference:
/// exactly the difference when that subtraction is exact, and positive when
/// it keeps the sign of the difference); nothing else in the book changes.
pub proof fn law_market_sell_partial_fill(b: BookState, o: Order, now: Instant)
    requires
        b.wf(),
        drop_expired(b, true, now).has_best(true),
        o.remaining_shares.value() < drop_expired(b, true, now).best(true).remaining_shares.value(),
    ensures
        ({
            let b1 = drop_expired(b, true, now);
            let r = b1.best(true);
            let res = market_sell_match(b, o, now);
            let left = representable(
                decimal_checked_sub(
                    r.remaining_shares.mantissa,
                    r.remaining_shares.scale,
                    o.remaining_shares.mantissa,
                    o.remaining_shares.scale,
                ),
            );
            &&& res.1 == seq![TradeEvent::MarketOrders { market_order: o, book_order: r }]
            &&& (res.2 <==> left is Some)
            &&& left is None ==> res.0 == b1
            &&& left matches Some(d) ==> {
                &&& only_best_replaced(b1, res.0, true, Order { remaining_shares: d, ..r })
                &&& (sub_exact(r.remaining_shares, o.remaining_shares) ==> d.value()
                    == r.remaining_shares.value() - o.remaining_shares.value())
                &&& (sub_keeps_sign(r.remaining_shares, o.remaining_shares) ==> d.value() > 0)
            }
        }),
{
    let b1 = drop_expired(b, true, now);
    crate::book_invariant::lemma_drop_expired_wf(b, true, now);
    let r = b1.best(true);
    let left = representable(
        decimal_checked_sub(
            r.remaining_shares.mantissa,
            r.remaining_shares.scale,
            o.remaining_shares.mantissa,
            o.remaining_shares.scale,
        ),
    );
    if let Some(d) = left {
        lemma_set_best_replaces(b1, true, Order { remaining_shares: d, ..r });
    }
}

/// A market buy whose quote covers the price of the best live sell but not
/// its whole cost trades once with it: that sell keeps its place, id and
/// price, with its remaining shares reduced by the whole shares the quote
/// pays for (the floor of quote over price, both by `rust_decimal`);
/// nothing else in the book changes.
pub proof fn law_market_buy_partial_fill(b: BookState, o: Order, now: Instant)
    requires
        b.wf(),
        drop_expired(b, false, now).has_best(false),
        o.quote_amount.value() >= drop_expired(b, false, now).best(false).price.value(),
        ({
            let r = drop_expired(b, false, now).best(false);
            representable(
                decimal_checked_mul(
                    r.price.mantissa,
                    r.price.scale,
                    r.remaining_shares.mantissa,
                    r.remaining_shares.scale,
                ),
            ) matches Some(cost) && o.quote_amount.value() < cost.value()
        }),
    ensures
        ({
            let b1 = drop_expired(b, false, now);
            let r = b1.best(false);
            let res = market_buy_match(b, o, now);
            let q = representable(
                decimal_checked_div(
                    o.quote_amount.mantissa,
                    o.quote_amount.scale,
                    r.price.mantissa,
                    r.price.scale,
                ),
            );
            &&& q is None ==> res.0 == b1 && res.1.len() == 0 && !res.2
            &&& q matches Some(qv) ==> {
                let f = from_parts(decimal_floor(qv.mantissa, qv.scale));
                let left = representable(
                    decimal_checked_sub(
                        r.remaining_shares.mantissa,
                        r.remaining_shares.scale,
                        f.mantissa,
                        f.scale,
                    ),
                );
                &&& res.1 == seq![TradeEvent::MarketOrders { market_order: o, book_order: r }]
                &&& (res.2 <==> left is Some)
                &&& left is None ==> res.0 == b1
                &&& left matches Some(d) ==> {
                    &&& only_best_replaced(b1, res.0, false, Order { remaining_shares: d, ..r })
                    &&& (sub_exact(r.remaining_shares, f) ==> d.value() == r.remaining_shares.value()
                        - f.value())
                }
            }
        }),
{
    let b1 = drop_expired(b, false, now);
    crate::book_invariant::lemma_drop_expired_wf(b, false, now);
    let r = b1.best(false);
    let q = representable(
        decimal_checked_div(
            o.quote_amount.mantissa,
            o.quote_amount.scale,
            r.price.mantissa,
            r.price.scale,
        ),
    );
    if let Some(qv) = q {
        let f = from_parts(decimal_floor(qv.mantissa, qv.scale));
        let left = representable(
            decimal_checked_sub(r.remaining_shares.mantissa, r.remaining_shares.scale, f.mantissa, f.scale),
        );
        if let Some(d) = left {
            lemma_set_best_replaces(b1, false, Order { remaining_shares: d, ..r });
        }
    }
}

/// A limit order with exactly the shares of the best live opposite order it
/// crosses trades once with it; both are filled: that order leaves the
/// book, and nothing else changes.
pub proof fn law_limit_exact_fill(b: BookState, o: Order, is_buy: bool, now: Instant)
    requires
        drop_expired(b, !is_buy, now).has_best(!is_buy),
        crosses(o.price, drop_expired(b, !is_buy, now).best(!is_buy).price, is_buy),
        o.remaining_shares.value() == drop_expired(b, !is_buy, now).best(!is_buy).remaining_shares.value(),
    ensures
        ({
            let b1 = drop_expired(b, !is_buy, now);
            let r = b1.best(!is_buy);
            let res = limit_match(b, o, is_buy, now);
            &&& res.1 == seq![
                if is_buy {
                    TradeEvent::LimitOrders { buy: o, sell: r }
                } else {
                    TradeEvent::LimitOrders { buy: r, sell: o }
                },
            ]
            &&& res.2
            &&& res.0 == b1.remove_best(!is_buy)
        }),
{
}

/// A limit order with more shares than the best live opposite order it
/// crosses fills that order, which leaves the book, and goes on matching
/// with its remaining shares reduced by that order's shares (exactly the
/// difference when the subtraction is exact).
pub proof fn law_limit_fills_resting_and_goes_on(b: BookState, o: Order, is_buy: bool, now: Instant)
    requires
        drop_expired(b, !is_buy, now).has_best(!is_buy),
        crosses(o.price, drop_expired(b, !is_buy, now).best(!is_buy).price, is_buy),
        o.remaining_shares.value() > drop_expired(b, !is_buy, now).best(!is_buy).remaining_shares.value(),
    ensures
        ({
            let b1 = drop_expired(b, !is_buy, now);
            let r = b1.best(!is_buy);
            let res = limit_match(b, o, is_buy, now);
            let ev = if is_buy {
                TradeEvent::LimitOrders { buy: o, sell: r }
            } else {
                TradeEvent::LimitOrders { buy: r, sell: o }
            };
            let left = representable(
                decimal_checked_sub(
                    o.remaining_shares.mantissa,
                    o.remaining_shares.scale,
                    r.remaining_shares.mantissa,
                    r.remaining_shares.scale,
                ),
            );
            &&& res.1.len() >= 1 && res.1[0] == ev
            &&& left is None ==> res == (b1, seq![ev], false)
            &&& left matches Some(d) ==> {
                &&& res == after_events(
                    seq![ev],
                    limit_match(b1.remove_best(!is_buy), Order { remaining_shares: d, ..o }, is_buy, now),
                )
                &&& (sub_exact(o.remaining_shares, r.remaining_shares) ==> d.value()
                    == o.remaining_shares.value() - r.remaining_shares.value())
            }
        }),
{
}

/// A limit order that crosses no live opposite order trades nothing and
/// rests whole at the back of its price level: the book is the one cleared
/// of expired opposite orders with `o` added, and `o` rests in it.
pub proof fn law_limit_rests_when_nothing_crosses(b: BookState, o: Order, is_buy: bool, now: Instant)
    requires
        b.wf(),
        o.wf(),
        drop_expired(b, !is_buy, now).has_best(!is_buy) ==> !crosses(
            o.price,
            drop_expired(b, !is_buy, now).best(!is_buy).price,
            is_buy,
        ),
    ensures
        limit_match(b, o, is_buy, now) == (
            drop_expired(b, !is_buy, now).add(o, is_buy),
            Seq::<TradeEvent>::empty(),
            true,
        ),
        rests(limit_match(b, o, is_buy, now).0, o.id),
{
    crate::book_invariant::lemma_drop_expired_wf(b, !is_buy, now);
    crate::book_invariant::lemma_add_book_wf(drop_expired(b, !is_buy, now), o, is_buy);
}

/// A market sell with exactly the shares of the best live buy fills it:
/// that buy leaves the book, nothing else changes, and nothing is reported
/// unsold.
pub proof fn law_market_sell_exact_fill(b: BookState, o: Order, now: Instant)
    requires
        drop_expired(b, true, now).has_best(true),
        o.remaining_shares.value() == drop_expired(b, true, now).best(true).remaining_shares.value(),
    ensures
        market_sell_match(b, o, now) == (
            drop_expired(b, true, now).remove_best(true),
            seq![TradeEvent::MarketOrders { market_order: o, book_order: drop_expired(b, true, now).best(true) }],
            true,
        ),
{
}

/// A market sell that finds no live buy trades nothing and is reported
/// complete with all its shares unsold.
pub proof fn law_market_sell_without_buyers(b: BookState, o: Order, now: Instant)
    requires
        !drop_expired(b, true, now).has_best(true),
    ensures
        market_sell_match(b, o, now) == (
            drop_expired(b, true, now),
            seq![TradeEvent::CompleteOrder { market_order: o }],
            true,
        ),
{
}

/// A market buy whose quote is below the price of the best live sell (or
/// that finds no live sell) trades nothing and is reported complete with
/// its whole quote.
pub proof fn law_market_buy_nothing_affordable(b: BookState, o: Order, now: Instant)
    requires
        drop_expired(b, false, now).has_best(false) ==> o.quote_amount.value() < drop_expired(
            b,
            false,
            now,
        ).best(false).price.value(),
    ensures
        market_buy_match(b, o, now) == (
            drop_expired(b, false, now),
            seq![TradeEvent::CompleteOrder { market_order: o }],
            true,
        ),
{
}

/// A market buy whose quote covers exactly the cost of the best live sell
/// buys all of it: that sell leaves the book and nothing else changes.
pub proof fn law_market_buy_exact_cost(b: BookState, o: Order, now: Instant)
    requires
        drop_expired(b, false, now).has_best(false),
        o.quote_amount.value() >= drop_expired(b, false, now).best(false).price.value(),
        ({
            let r = drop_expired(b, false, now).best(false);
            representable(
                decimal_checked_mul(
                    r.price.mantissa,
                    r.price.scale,
                    r.remaining_shares.mantissa,
                    r.remaining_shares.scale,
                ),
            ) matches Some(cost) && o.quote_amount.value() == cost.value()
        }),
    ensures
        market_buy_match(b, o, now) == (
            drop_expired(b, false, now).remove_best(false),
            seq![TradeEvent::MarketOrders { market_order: o, book_order: drop_expired(b, false, now).best(false) }],
            true,
        ),
{
}

} // verus!
