//! Matching an incoming order against one order book: limit orders trade
//! while the best opposite price crosses theirs and rest otherwise; market
//! orders trade while there is something to trade against. Expired resting
//! orders are cleared from the front before every attempt.
use crate::decimal::{
    representable, sign,
    Dec, dec_checked_div, dec_checked_mul, dec_checked_sub, dec_compare, dec_floor,
    decimal_checked_div, decimal_checked_mul, decimal_checked_sub, decimal_floor, from_parts,
};
use crate::model::{Instant, Order, TradeEvent};
use crate::orderbook::{BookState, OrderBook, depth, drop_expired, lemma_pop_best_depth};
use vstd::prelude::*;

verus! {

/// Book after matching, the events to publish in order, and whether the
/// arithmetic stayed within what a decimal can represent (`false`: a decimal
/// operation overflowed and matching stopped there).
pub type MatchOutcome = (BookState, Seq<TradeEvent>, bool);

/// The events `evs` happen before those of `r`.
pub open spec fn after_events(evs: Seq<TradeEvent>, r: MatchOutcome) -> MatchOutcome {
    (r.0, evs + r.1, r.2)
}

/// An incoming limit price meets the best opposite price.
pub open spec fn crosses(p: Dec, q: Dec, is_buy: bool) -> bool {
    if is_buy {
        p.value() >= q.value()
    } else {
        p.value() <= q.value()
    }
}

/// The trade message of an incoming limit order `o` against resting order `r`.
pub open spec fn limit_event(o: Order, r: Order, is_buy: bool) -> TradeEvent {
    if is_buy {
        TradeEvent::LimitOrders { buy: o, sell: r }
    } else {
        TradeEvent::LimitOrders { buy: r, sell: o }
    }
}

pub proof fn lemma_drop_expired_depth(b: BookState, is_buy: bool, now: Instant)
    ensures
        depth(drop_expired(b, is_buy, now).side(is_buy)) <= depth(b.side(is_buy)),
    decreases depth(b.side(is_buy)),
{
    if b.has_best(is_buy) && b.best(is_buy).expires_at <= now {
        lemma_pop_best_depth(b.side(is_buy));
        lemma_drop_expired_depth(b.remove_best(is_buy), is_buy, now);
    }
}

/// Share-for-share matching of `o` against the best opposite order of `b1`
/// when `o` wants no more than that order holds: both are consumed when they
/// are equal, and otherwise the resting order keeps its place with fewer
/// shares.
pub open spec fn fill_last(b1: BookState, o: Order, is_buy: bool, ev: TradeEvent) -> MatchOutcome {
    let r = b1.best(!is_buy);
    if o.remaining_shares.value() == r.remaining_shares.value() {
        (b1.remove_best(!is_buy), seq![ev], true)
    } else {
        match representable(decimal_checked_sub(
            r.remaining_shares.mantissa,
            r.remaining_shares.scale,
            o.remaining_shares.mantissa,
            o.remaining_shares.scale,
        )) {
            Some(d) => (b1.set_best(!is_buy, r.with_remaining(d)), seq![ev], true),
            None => (b1, seq![ev], false),
        }
    }
}

/// What remains of `o` once the whole of resting order `r` is filled.
pub open spec fn remainder_after(o: Order, r: Order) -> Option<Dec> {
    representable(decimal_checked_sub(
        o.remaining_shares.mantissa,
        o.remaining_shares.scale,
        r.remaining_shares.mantissa,
        r.remaining_shares.scale,
    ))
}

/// Matching of a limit order `o` on side `is_buy` (`true`: a buy): while the
/// best live opposite order crosses `o`'s price, trade against it; what is
/// left of `o` rests in the book.
pub open spec fn limit_match(b: BookState, o: Order, is_buy: bool, now: Instant) -> MatchOutcome
    decreases depth(b.side(!is_buy)),
{
    let b1 = drop_expired(b, !is_buy, now);
    if b1.has_best(!is_buy) && crosses(o.price, b1.best(!is_buy).price, is_buy) {
        let r = b1.best(!is_buy);
        let ev = limit_event(o, r, is_buy);
        if o.remaining_shares.value() > r.remaining_shares.value() {
            match remainder_after(o, r) {
                Some(d) => {
                    proof {
                        lemma_drop_expired_depth(b, !is_buy, now);
                        lemma_pop_best_depth(b1.side(!is_buy));
                    }
                    after_events(
                        seq![ev],
                        limit_match(
                            b1.remove_best(!is_buy),
                            o.with_remaining(d),
                            is_buy,
                            now,
                        ),
                    )
                },
                None => (b1, seq![ev], false),
            }
        } else {
            fill_last(b1, o, is_buy, ev)
        }
    } else {
        (b1.add(o, is_buy), Seq::empty(), true)
    }
}

/// Matching of a market buy `o`, which spends `o.quote_amount`: while the
/// best live sell costs no more per share than the quote left, buy from it.
/// A sell order whose whole cost fits in the quote is consumed; otherwise as
/// many whole shares as the quote pays for at its price are taken from it.
/// When nothing more can be bought the order is reported complete.
pub open spec fn market_buy_match(b: BookState, o: Order, now: Instant) -> MatchOutcome
    decreases depth(b.side(false)),
{
    let b1 = drop_expired(b, false, now);
    if b1.has_best(false) && o.quote_amount.value() >= b1.best(false).price.value() {
        let r = b1.best(false);
        let ev = TradeEvent::MarketOrders { market_order: o, book_order: r };
        match representable(decimal_checked_mul(
            r.price.mantissa,
            r.price.scale,
            r.remaining_shares.mantissa,
            r.remaining_shares.scale,
        )) {
            None => (b1, Seq::empty(), false),
            Some(c) => {
                let cost = c;
                if o.quote_amount.value() > cost.value() {
                    match representable(decimal_checked_sub(
                        o.quote_amount.mantissa,
                        o.quote_amount.scale,
                        cost.mantissa,
                        cost.scale,
                    )) {
                        Some(q) => {
                            proof {
                                lemma_drop_expired_depth(b, false, now);
                                lemma_pop_best_depth(b1.side(false));
                            }
                            after_events(
                                seq![ev],
                                market_buy_match(
                                    b1.remove_best(false),
                                    o.with_quote(q),
                                    now,
                                ),
                            )
                        },
                        None => (b1, seq![ev], false),
                    }
                } else if o.quote_amount.value() == cost.value() {
                    (b1.remove_best(false), seq![ev], true)
                } else {
                    match representable(decimal_checked_div(
                        o.quote_amount.mantissa,
                        o.quote_amount.scale,
                        r.price.mantissa,
                        r.price.scale,
                    )) {
                        None => (b1, Seq::empty(), false),
                        Some(q) => {
                            let f = from_parts(decimal_floor(q.mantissa, q.scale));
                            match representable(decimal_checked_sub(
                                r.remaining_shares.mantissa,
                                r.remaining_shares.scale,
                                f.mantissa,
                                f.scale,
                            )) {
                                Some(n) => (
                                    b1.set_best(false, r.with_remaining(n)),
                                    seq![ev],
                                    true,
                                ),
                                None => (b1, seq![ev], false),
                            }
                        },
                    }
                }
            },
        }
    } else {
        (b1, seq![TradeEvent::CompleteOrder { market_order: o }], true)
    }
}

/// Matching of a market sell `o`: sell its shares to the best live buy
/// orders, whatever their price, until they are all sold or no buyer is
/// left; in the latter case the order is reported complete.
pub open spec fn market_sell_match(b: BookState, o: Order, now: Instant) -> MatchOutcome
    decreases depth(b.side(true)),
{
    let b1 = drop_expired(b, true, now);
    if b1.has_best(true) {
        let r = b1.best(true);
        let ev = TradeEvent::MarketOrders { market_order: o, book_order: r };
        if o.remaining_shares.value() > r.remaining_shares.value() {
            match remainder_after(o, r) {
                Some(d) => {
                    proof {
                        lemma_drop_expired_depth(b, true, now);
                        lemma_pop_best_depth(b1.side(true));
                    }
                    after_events(
                        seq![ev],
                        market_sell_match(
                            b1.remove_best(true),
                            o.with_remaining(d),
                            now,
                        ),
                    )
                },
                None => (b1, seq![ev], false),
            }
        } else {
            fill_last(b1, o, false, ev)
        }
    } else {
        (b1, seq![TradeEvent::CompleteOrder { market_order: o }], true)
    }
}

/// `rust_decimal`'s subtraction of `b` from `a`, when it is representable,
/// has the sign of the exact difference.
pub open spec fn sub_keeps_sign(a: Dec, b: Dec) -> bool {
    representable(decimal_checked_sub(a.mantissa, a.scale, b.mantissa, b.scale)) matches Some(d)
        ==> sign(d.value()) == sign(a.value() - b.value())
}

/// Every subtraction of share counts that matching the limit order `o`
/// against `b` performs has the sign of the exact difference.
pub open spec fn limit_signs_kept(b: BookState, o: Order, is_buy: bool, now: Instant) -> bool
    decreases depth(b.side(!is_buy)),
{
    let b1 = drop_expired(b, !is_buy, now);
    if b1.has_best(!is_buy) && crosses(o.price, b1.best(!is_buy).price, is_buy) {
        let r = b1.best(!is_buy);
        if o.remaining_shares.value() > r.remaining_shares.value() {
            sub_keeps_sign(o.remaining_shares, r.remaining_shares) && match remainder_after(o, r) {
                Some(d) => {
                    proof {
                        lemma_drop_expired_depth(b, !is_buy, now);
                        lemma_pop_best_depth(b1.side(!is_buy));
                    }
                    limit_signs_kept(b1.remove_best(!is_buy), o.with_remaining(d), is_buy, now)
                },
                None => true,
            }
        } else if o.remaining_shares.value() == r.remaining_shares.value() {
            true
        } else {
            sub_keeps_sign(r.remaining_shares, o.remaining_shares)
        }
    } else {
        true
    }
}

/// Every subtraction of share counts that matching the market sell `o`
/// against `b` performs has the sign of the exact difference.
pub open spec fn market_sell_signs_kept(b: BookState, o: Order, now: Instant) -> bool
    decreases depth(b.side(true)),
{
    let b1 = drop_expired(b, true, now);
    if b1.has_best(true) {
        let r = b1.best(true);
        if o.remaining_shares.value() > r.remaining_shares.value() {
            sub_keeps_sign(o.remaining_shares, r.remaining_shares) && match remainder_after(o, r) {
                Some(d) => {
                    proof {
                        lemma_drop_expired_depth(b, true, now);
                        lemma_pop_best_depth(b1.side(true));
                    }
                    market_sell_signs_kept(b1.remove_best(true), o.with_remaining(d), now)
                },
                None => true,
            }
        } else if o.remaining_shares.value() == r.remaining_shares.value() {
            true
        } else {
            sub_keeps_sign(r.remaining_shares, o.remaining_shares)
        }
    } else {
        true
    }
}

/// Where matching the market buy `o` against `b` leaves a resting sell a
/// part, the subtraction of the whole shares bought from the sell's shares
/// has the sign of the exact difference.
pub open spec fn market_buy_signs_kept(b: BookState, o: Order, now: Instant) -> bool
    decreases depth(b.side(false)),
{
    let b1 = drop_expired(b, false, now);
    if b1.has_best(false) && o.quote_amount.value() >= b1.best(false).price.value() {
        let r = b1.best(false);
        match representable(decimal_checked_mul(
            r.price.mantissa,
            r.price.scale,
            r.remaining_shares.mantissa,
            r.remaining_shares.scale,
        )) {
            None => true,
            Some(cost) => if o.quote_amount.value() > cost.value() {
                match representable(decimal_checked_sub(
                    o.quote_amount.mantissa,
                    o.quote_amount.scale,
                    cost.mantissa,
                    cost.scale,
                )) {
                    Some(q) => {
                        proof {
                            lemma_drop_expired_depth(b, false, now);
                            lemma_pop_best_depth(b1.side(false));
                        }
                        market_buy_signs_kept(b1.remove_best(false), o.with_quote(q), now)
                    },
                    None => true,
                }
            } else if o.quote_amount.value() == cost.value() {
                true
            } else {
                match representable(decimal_checked_div(
                    o.quote_amount.mantissa,
                    o.quote_amount.scale,
                    r.price.mantissa,
                    r.price.scale,
                )) {
                    None => true,
                    Some(q) => sub_keeps_sign(r.remaining_shares, from_parts(decimal_floor(q.mantissa, q.scale))),
                }
            },
        }
    } else {
        true
    }
}

pub proof fn lemma_after_events_assoc(e1: Seq<TradeEvent>, e2: Seq<TradeEvent>, r: MatchOutcome)
    ensures
        after_events(e1, after_events(e2, r)) == after_events(e1 + e2, r),
{
    assert(e1 + (e2 + r.1) =~= (e1 + e2) + r.1);
}

/// Matches a limit order against the book (see [`limit_match`]).
pub fn limit_order(book: &mut OrderBook, order: Order, is_buy: bool, now: Instant) -> (r: (
    Vec<TradeEvent>,
    bool,
))
    requires
        old(book).state().wf(),
        order.wf(),
    ensures
        final(book).state().wf(),
        (final(book).state(), r.0@, r.1) == limit_match(old(book).state(), order, is_buy, now),
        limit_signs_kept(old(book).state(), order, is_buy, now),
{
    let mut events: Vec<TradeEvent> = Vec::new();
    let mut cur = order;
    assert(events@ + limit_match(book.state(), cur, is_buy, now).1 =~= limit_match(
        book.state(),
        cur,
        is_buy,
        now,
    ).1);
    loop
        invariant
            book.state().wf(),
            cur.wf(),
            limit_match(old(book).state(), order, is_buy, now) == after_events(
                events@,
                limit_match(book.state(), cur, is_buy, now),
            ),
            limit_signs_kept(book.state(), cur, is_buy, now) ==> limit_signs_kept(
                old(book).state(),
                order,
                is_buy,
                now,
            ),
        decreases depth(book.state().side(!is_buy)),
    {
        let ghost b0 = book.state();
        let ghost evs0 = events@;
        proof {
            lemma_drop_expired_depth(b0, !is_buy, now);
        }
        book.drop_expired(!is_buy, now);
        let ghost b1 = book.state();
        match book.best(!is_buy) {
            Some(r) => {
                let c = dec_compare(&cur.price, &r.price);
                let cross = if is_buy {
                    c >= 0
                } else {
                    c <= 0
                };
                if cross {
                    let ev = if is_buy {
                        TradeEvent::LimitOrders { buy: cur, sell: r }
                    } else {
                        TradeEvent::LimitOrders { buy: r, sell: cur }
                    };
                    events.push(ev);
                    let d = dec_compare(&cur.remaining_shares, &r.remaining_shares);
                    if d > 0 {
                        match dec_checked_sub(&cur.remaining_shares, &r.remaining_shares) {
                            Some(x) => {
                                let ghost prev = cur;
                                book.remove_best(!is_buy);
                                cur.remaining_shares = x;
                                proof {
                                    lemma_pop_best_depth(b1.side(!is_buy));
                                    lemma_after_events_assoc(
                                        evs0,
                                        seq![ev],
                                        limit_match(book.state(), cur, is_buy, now),
                                    );
                                    assert(cur == prev.with_remaining(remainder_after(prev, r)->0));
                                }
                            },
                            None => {
                                return (events, false);
                            },
                        }
                    } else if d == 0 {
                        book.remove_best(!is_buy);
                        return (events, true);
                    } else {
                        match dec_checked_sub(&r.remaining_shares, &cur.remaining_shares) {
                            Some(x) => {
                                let mut r2 = r;
                                r2.remaining_shares = x;
                                assert(r2 == r.with_remaining(x));
                                book.set_best(!is_buy, r2);
                                return (events, true);
                            },
                            None => {
                                return (events, false);
                            },
                        }
                    }
                } else {
                    book.add(cur, is_buy);
                    assert(events@ =~= evs0 + Seq::<TradeEvent>::empty());
                    return (events, true);
                }
            },
            None => {
                book.add(cur, is_buy);
                assert(events@ =~= evs0 + Seq::<TradeEvent>::empty());
                return (events, true);
            },
        }
    }
}

/// Matches a market buy against the sell side (see [`market_buy_match`]).
pub fn market_buy(book: &mut OrderBook, order: Order, now: Instant) -> (r: (Vec<TradeEvent>, bool))
    requires
        old(book).state().wf(),
        order.wf(),
    ensures
        final(book).state().wf(),
        (final(book).state(), r.0@, r.1) == market_buy_match(old(book).state(), order, now),
        market_buy_signs_kept(old(book).state(), order, now),
{
    let mut events: Vec<TradeEvent> = Vec::new();
    let mut cur = order;
    assert(events@ + market_buy_match(book.state(), cur, now).1 =~= market_buy_match(
        book.state(),
        cur,
        now,
    ).1);
    loop
        invariant
            book.state().wf(),
            cur.wf(),
            market_buy_match(old(book).state(), order, now) == after_events(
                events@,
                market_buy_match(book.state(), cur, now),
            ),
            market_buy_signs_kept(book.state(), cur, now) ==> market_buy_signs_kept(
                old(book).state(),
                order,
                now,
            ),
        decreases depth(book.state().side(false)),
    {
        let ghost b0 = book.state();
        let ghost evs0 = events@;
        proof {
            lemma_drop_expired_depth(b0, false, now);
        }
        book.drop_expired(false, now);
        let ghost b1 = book.state();
        match book.best(false) {
            Some(r) => {
                if dec_compare(&cur.quote_amount, &r.price) >= 0 {
                    let ev = TradeEvent::MarketOrders { market_order: cur, book_order: r };
                    let cost = match dec_checked_mul(&r.price, &r.remaining_shares) {
                        Some(c) => c,
                        None => {
                            assert(events@ =~= evs0 + Seq::<TradeEvent>::empty());
                            return (events, false);
                        },
                    };
                    let q = dec_compare(&cur.quote_amount, &cost);
                    if q > 0 {
                        events.push(ev);
                        match dec_checked_sub(&cur.quote_amount, &cost) {
                            Some(x) => {
                                let ghost prev = cur;
                                book.remove_best(false);
                                cur.quote_amount = x;
                                proof {
                                    lemma_pop_best_depth(b1.side(false));
                                    lemma_after_events_assoc(
                                        evs0,
                                        seq![ev],
                                        market_buy_match(book.state(), cur, now),
                                    );
                                    assert(cur == prev.with_quote(x));
                                }
                            },
                            None => {
                                return (events, false);
                            },
                        }
                    } else if q == 0 {
                        events.push(ev);
                        book.remove_best(false);
                        return (events, true);
                    } else {
                        let quotient = match dec_checked_div(&cur.quote_amount, &r.price) {
                            Some(x) => x,
                            None => {
                                assert(events@ =~= evs0 + Seq::<TradeEvent>::empty());
                                return (events, false);
                            },
                        };
                        events.push(ev);
                        let f = dec_floor(&quotient);
                        match dec_checked_sub(&r.remaining_shares, &f) {
                            Some(x) => {
                                let mut r2 = r;
                                r2.remaining_shares = x;
                                assert(r2 == r.with_remaining(x));
                                book.set_best(false, r2);
                                return (events, true);
                            },
                            None => {
                                return (events, false);
                            },
                        }
                    }
                } else {
                    events.push(TradeEvent::CompleteOrder { market_order: cur });
                    return (events, true);
                }
            },
            None => {
                events.push(TradeEvent::CompleteOrder { market_order: cur });
                return (events, true);
            },
        }
    }
}

/// Matches a market sell against the buy side (see [`market_sell_match`]).
pub fn market_sell(book: &mut OrderBook, order: Order, now: Instant) -> (r: (Vec<TradeEvent>, bool))
    requires
        old(book).state().wf(),
        order.wf(),
    ensures
        final(book).state().wf(),
        (final(book).state(), r.0@, r.1) == market_sell_match(old(book).state(), order, now),
        market_sell_signs_kept(old(book).state(), order, now),
{
    let mut events: Vec<TradeEvent> = Vec::new();
    let mut cur = order;
    assert(events@ + market_sell_match(book.state(), cur, now).1 =~= market_sell_match(
        book.state(),
        cur,
        now,
    ).1);
    loop
        invariant
            book.state().wf(),
            cur.wf(),
            market_sell_match(old(book).state(), order, now) == after_events(
                events@,
                market_sell_match(book.state(), cur, now),
            ),
            market_sell_signs_kept(book.state(), cur, now) ==> market_sell_signs_kept(
                old(book).state(),
                order,
                now,
            ),
        decreases depth(book.state().side(true)),
    {
        let ghost b0 = book.state();
        let ghost evs0 = events@;
        proof {
            lemma_drop_expired_depth(b0, true, now);
        }
        book.drop_expired(true, now);
        let ghost b1 = book.state();
        match book.best(true) {
            Some(r) => {
                let ev = TradeEvent::MarketOrders { market_order: cur, book_order: r };
                events.push(ev);
                let d = dec_compare(&cur.remaining_shares, &r.remaining_shares);
                if d > 0 {
                    match dec_checked_sub(&cur.remaining_shares, &r.remaining_shares) {
                        Some(x) => {
                            let ghost prev = cur;
                            book.remove_best(true);
                            cur.remaining_shares = x;
                            proof {
                                lemma_pop_best_depth(b1.side(true));
                                lemma_after_events_assoc(
                                    evs0,
                                    seq![ev],
                                    market_sell_match(book.state(), cur, now),
                                );
                                assert(cur == prev.with_remaining(x));
                            }
                        },
                        None => {
                            return (events, false);
                        },
                    }
                } else if d == 0 {
                    book.remove_best(true);
                    return (events, true);
                } else {
                    match dec_checked_sub(&r.remaining_shares, &cur.remaining_shares) {
                        Some(x) => {
                            let mut r2 = r;
                            r2.remaining_shares = x;
                            assert(r2 == r.with_remaining(x));
                            book.set_best(true, r2);
                            return (events, true);
                        },
                        None => {
                            return (events, false);
                        },
                    }
                }
            },
            None => {
                events.push(TradeEvent::CompleteOrder { market_order: cur });
                return (events, true);
            },
        }
    }
}

} // verus!
