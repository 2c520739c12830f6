//! The matching engine: one order book per outcome of every market it knows.
//! It matches incoming orders, cancels resting ones, and reports what to
//! publish; publishing is left to the caller.
use crate::matching::{
    limit_match, limit_order, limit_signs_kept, market_buy, market_buy_match, market_buy_signs_kept,
    market_sell, market_sell_match, market_sell_signs_kept,
};
use crate::model::{Instant, MatcherMessage, Order, OrderSide, OrderType, TradeEvent};
use crate::orderbook::{BookState, OrderBook, rests};
use crate::book_invariant::{
    engine_sound, fills_leave_shares, law_books_stay_sound, law_cancel_keeps_books_sound,
};
use std::collections::HashMap;
use vstd::prelude::*;

verus! {

broadcast use vstd::std_specs::hash::group_hash_axioms;

/// The books of every market, by market id then outcome id.
pub type EngineState = Map<u128, Map<u128, BookState>>;

/// What matching one order produced: the events to publish, in order, and
/// `false` in `completed` when a decimal operation overflowed and matching
/// stopped part-way (the events before that point still stand).
pub struct MatchReport {
    pub events: Vec<TradeEvent>,
    pub completed: bool,
}

/// All books of all markets are well formed.
pub open spec fn engine_wf(s: EngineState) -> bool {
    forall|m: u128, k: u128| #[trigger] s.contains_key(m) && #[trigger] s[m].contains_key(k) ==> s[m][k].wf()
}

/// The engine has a book for the outcome `k` of market `m`.
pub open spec fn has_book(s: EngineState, m: u128, k: u128) -> bool {
    s.contains_key(m) && s[m].contains_key(k)
}

/// The engine with the book of `(m, k)` replaced.
pub open spec fn with_book(s: EngineState, m: u128, k: u128, b: BookState) -> EngineState {
    s.insert(m, s[m].insert(k, b))
}

/// The matching of `o` in its own book: limit orders by [`limit_match`],
/// market orders by [`market_buy_match`] or [`market_sell_match`].
pub open spec fn book_match(b: BookState, o: Order, now: Instant) -> (BookState, Seq<TradeEvent>, bool) {
    let is_buy = o.side == OrderSide::BUY;
    match o.order_type {
        OrderType::LIMIT => limit_match(b, o, is_buy, now),
        OrderType::MARKET => if is_buy {
            market_buy_match(b, o, now)
        } else {
            market_sell_match(b, o, now)
        },
    }
}

/// Every subtraction of matching `o` in `b` that decides what a resting
/// order or the order itself keeps has the sign of the exact difference
/// (see [`limit_signs_kept`], [`market_buy_signs_kept`],
/// [`market_sell_signs_kept`]).
pub open spec fn book_signs_kept(b: BookState, o: Order, now: Instant) -> bool {
    let is_buy = o.side == OrderSide::BUY;
    match o.order_type {
        OrderType::LIMIT => limit_signs_kept(b, o, is_buy, now),
        OrderType::MARKET => if is_buy {
            market_buy_signs_kept(b, o, now)
        } else {
            market_sell_signs_kept(b, o, now)
        },
    }
}

/// Matching `o` in the engine: nothing happens for an unknown market or
/// outcome; otherwise the book of the order's outcome is matched.
pub open spec fn engine_match(s: EngineState, o: Order, now: Instant) -> (EngineState, Seq<TradeEvent>, bool) {
    if has_book(s, o.market_id, o.outcome_id) {
        let r = book_match(s[o.market_id][o.outcome_id], o, now);
        (with_book(s, o.market_id, o.outcome_id, r.0), r.1, r.2)
    } else {
        (s, Seq::empty(), true)
    }
}

/// Cancelling `o` in the engine: in the book of its outcome, by its id; a
/// cancellation event is reported only when an order left the book.
pub open spec fn engine_cancel(s: EngineState, o: Order) -> (EngineState, Option<TradeEvent>) {
    if has_book(s, o.market_id, o.outcome_id) {
        let (b, removed) = s[o.market_id][o.outcome_id].cancel(o.id);
        (
            with_book(s, o.market_id, o.outcome_id, b),
            if removed {
                Some(TradeEvent::CancelOrder { order: o })
            } else {
                None
            },
        )
    } else {
        (s, None)
    }
}

/// Adding a market with its two outcomes: a market already known is left as
/// it is; otherwise it gets an empty book for each outcome.
pub open spec fn engine_add_market(s: EngineState, m: u128, first: u128, second: u128) -> EngineState {
    if s.contains_key(m) {
        s
    } else {
        s.insert(m, Map::empty().insert(first, BookState::empty()).insert(second, BookState::empty()))
    }
}

/// One message handled by the engine: an order is matched, a new market
/// gets its books, a removed market loses them; a cancellation message
/// changes nothing (cancelling is [`engine_cancel`], which the message loop
/// does not perform).
pub open spec fn engine_step(s: EngineState, msg: MatcherMessage, now: Instant) -> (EngineState, Seq<TradeEvent>, bool) {
    match msg {
        MatcherMessage::PlaceOrder { order } => engine_match(s, order, now),
        MatcherMessage::CancelOrder { .. } => (s, Seq::empty(), true),
        MatcherMessage::CreateMarket { market, outcomes } => (
            engine_add_market(s, market.id, outcomes.first_outcome.id, outcomes.second_outcome.id),
            Seq::empty(),
            true,
        ),
        MatcherMessage::RemoveMarket { market_id } => (s.remove(market_id), Seq::empty(), true),
    }
}

pub struct Engine {
    order_books: HashMap<u128, HashMap<u128, OrderBook>>,
}

impl Engine {
    /// The books held, by market then outcome.
    pub closed spec fn state(&self) -> EngineState {
        Map::new(
            |m: u128| self.order_books@.contains_key(m),
            |m: u128|
                Map::new(
                    |k: u128| self.order_books@[m]@.contains_key(k),
                    |k: u128| self.order_books@[m]@[k].state(),
                ),
        )
    }

    pub fn new() -> (e: Engine)
        ensures
            e.state() == Map::<u128, Map<u128, BookState>>::empty(),
    {
        let e = Engine { order_books: HashMap::new() };
        assert(e.state() =~= Map::<u128, Map<u128, BookState>>::empty());
        e
    }

    /// The other books of market `m` than that of outcome `k`.
    pub open spec fn rest_of_market(inner: Map<u128, OrderBook>, s: EngineState, m: u128, k: u128) -> bool {
        &&& !inner.contains_key(k)
        &&& forall|k2: u128| k2 != k ==> (#[trigger] inner.contains_key(k2) <==> s[m].contains_key(k2))
        &&& forall|k2: u128| k2 != k && #[trigger] s[m].contains_key(k2) ==> s[m][k2] == inner[k2].state()
    }

    /// Takes the book of `(m, k)` out of the engine, with the rest of its
    /// market.
    fn take_book(&mut self, m: u128, k: u128) -> (r: Option<(HashMap<u128, OrderBook>, OrderBook)>)
        ensures
            has_book(old(self).state(), m, k) <==> r is Some,
            r is None ==> final(self).state() == old(self).state(),
            r matches Some(p) ==> {
                &&& p.1.state() == old(self).state()[m][k]
                &&& !final(self).order_books@.contains_key(m)
                &&& final(self).state() == old(self).state().remove(m)
                &&& Self::rest_of_market(p.0@, old(self).state(), m, k)
            },
    {
        let ghost s = self.state();
        match self.order_books.remove(&m) {
            None => {
                assert(self.order_books@ =~= old(self).order_books@);
                None
            },
            Some(mut inner) => {
                let ghost inner0 = inner@;
                match inner.remove(&k) {
                    None => {
                        assert(inner@ =~= inner0);
                        self.order_books.insert(m, inner);
                        assert forall|m2: u128| #[trigger] s.contains_key(m2) implies self.state()[m2] == s[m2] by {
                            assert(self.state()[m2] =~= s[m2]);
                        }
                        assert(self.state() =~= s);
                        None
                    },
                    Some(book) => {
                        assert(self.state() =~= s.remove(m));
                        Some((inner, book))
                    },
                }
            },
        }
    }

    /// Puts back into the engine a book taken by [`Engine::take_book`].
    fn put_book(
        &mut self,
        m: u128,
        k: u128,
        inner: HashMap<u128, OrderBook>,
        book: OrderBook,
        Ghost(s): Ghost<EngineState>,
    )
        requires
            has_book(s, m, k),
            !old(self).order_books@.contains_key(m),
            old(self).state() == s.remove(m),
            Self::rest_of_market(inner@, s, m, k),
        ensures
            final(self).state() == with_book(s, m, k, book.state()),
    {
        let ghost b = book.state();
        let ghost s0 = self.state();
        let mut inner = inner;
        inner.insert(k, book);
        self.order_books.insert(m, inner);
        let ghost t = with_book(s, m, k, b);
        assert forall|m2: u128| #[trigger] t.contains_key(m2) implies self.state()[m2] == t[m2] by {
            if m2 != m {
                assert(s0.contains_key(m2));
                assert(s0[m2] == s[m2]);
            }
            assert(self.state()[m2] =~= t[m2]);
        }
        assert forall|m2: u128| self.state().contains_key(m2) <==> t.contains_key(m2) by {
            if m2 != m {
                assert(s0.contains_key(m2) == s.remove(m).contains_key(m2));
            }
        }
        let ghost st = self.state();
        assert(st.dom() =~= t.dom());
        assert(st =~= t);
    }
}

impl Engine {
    /// Adds a market with empty books for its two outcomes, unless the
    /// market is already known.
    pub fn add_market(&mut self, market_id: u128, first_outcome_id: u128, second_outcome_id: u128)
        requires
            engine_wf(old(self).state()),
        ensures
            engine_wf(final(self).state()),
            final(self).state() == engine_add_market(
                old(self).state(),
                market_id,
                first_outcome_id,
                second_outcome_id,
            ),
    {
        let ghost s = self.state();
        if self.order_books.contains_key(&market_id) {
            return;
        }
        let mut books: HashMap<u128, OrderBook> = HashMap::new();
        books.insert(first_outcome_id, OrderBook::new());
        books.insert(second_outcome_id, OrderBook::new());
        self.order_books.insert(market_id, books);
        let ghost t = engine_add_market(s, market_id, first_outcome_id, second_outcome_id);
        assert forall|m2: u128| #[trigger] t.contains_key(m2) implies self.state()[m2] == t[m2] by {
            assert(self.state()[m2] =~= t[m2]);
        }
        let ghost st = self.state();
        assert(st.dom() =~= t.dom());
        assert(st =~= t);
    }

    /// Forgets a market and all its books.
    pub fn remove_market(&mut self, market_id: u128)
        requires
            engine_wf(old(self).state()),
        ensures
            engine_wf(final(self).state()),
            final(self).state() == old(self).state().remove(market_id),
    {
        let ghost s = self.state();
        self.order_books.remove(&market_id);
        let ghost t = s.remove(market_id);
        assert forall|m2: u128| #[trigger] t.contains_key(m2) implies self.state()[m2] == t[m2] by {
            assert(self.state()[m2] =~= t[m2]);
        }
        let ghost st = self.state();
        assert(st.dom() =~= t.dom());
        assert(st =~= t);
    }

    /// Matches an order in the book of its outcome (see [`engine_match`]).
    pub fn match_order(&mut self, order: Order, now: Instant) -> (r: MatchReport)
        requires
            engine_wf(old(self).state()),
            order.wf(),
        ensures
            engine_wf(final(self).state()),
            (final(self).state(), r.events@, r.completed) == engine_match(old(self).state(), order, now),
            has_book(old(self).state(), order.market_id, order.outcome_id) ==> book_signs_kept(
                old(self).state()[order.market_id][order.outcome_id],
                order,
                now,
            ),
            engine_sound(old(self).state()) && (has_book(
                old(self).state(),
                order.market_id,
                order.outcome_id,
            ) ==> (order.order_type == OrderType::LIMIT ==> !rests(
                old(self).state()[order.market_id][order.outcome_id],
                order.id,
            )) && fills_leave_shares(old(self).state()[order.market_id][order.outcome_id], order, now))
                ==> engine_sound(final(self).state()),
    {
        let ghost s = self.state();
        match self.take_book(order.market_id, order.outcome_id) {
            None => MatchReport { events: Vec::new(), completed: true },
            Some(taken) => {
                let (inner, mut book) = taken;
                let is_buy = order.side == OrderSide::BUY;
                let (events, completed) = match order.order_type {
                    OrderType::LIMIT => limit_order(&mut book, order, is_buy, now),
                    OrderType::MARKET => {
                        if is_buy {
                            market_buy(&mut book, order, now)
                        } else {
                            market_sell(&mut book, order, now)
                        }
                    },
                };
                self.put_book(order.market_id, order.outcome_id, inner, book, Ghost(s));
                proof {
                    if engine_sound(s) && (order.order_type == OrderType::LIMIT ==> !rests(
                        s[order.market_id][order.outcome_id],
                        order.id,
                    )) && fills_leave_shares(s[order.market_id][order.outcome_id], order, now) {
                        law_books_stay_sound(s, order, now);
                    }
                }
                MatchReport { events, completed }
            },
        }
    }

    /// Cancels an order in the book of its outcome (see [`engine_cancel`]).
    pub fn cancel_order(&mut self, order: Order) -> (r: Option<TradeEvent>)
        requires
            engine_wf(old(self).state()),
        ensures
            engine_wf(final(self).state()),
            (final(self).state(), r) == engine_cancel(old(self).state(), order),
            engine_sound(old(self).state()) ==> engine_sound(final(self).state()),
    {
        let ghost s = self.state();
        proof {
            if engine_sound(s) {
                law_cancel_keeps_books_sound(s, order);
            }
        }
        match self.take_book(order.market_id, order.outcome_id) {
            None => None,
            Some(taken) => {
                let (inner, mut book) = taken;
                let removed = book.cancel(order.id);
                self.put_book(order.market_id, order.outcome_id, inner, book, Ghost(s));
                if removed {
                    Some(TradeEvent::CancelOrder { order })
                } else {
                    None
                }
            },
        }
    }
}

impl Engine {
    /// Handles one message of the engine's queue (see [`engine_step`]).
    pub fn handle_message(&mut self, msg: MatcherMessage, now: Instant) -> (r: MatchReport)
        requires
            engine_wf(old(self).state()),
            msg matches MatcherMessage::PlaceOrder { order } ==> order.wf(),
        ensures
            engine_wf(final(self).state()),
            (final(self).state(), r.events@, r.completed) == engine_step(old(self).state(), msg, now),
    {
        match msg {
            MatcherMessage::PlaceOrder { order } => self.match_order(order, now),
            MatcherMessage::CancelOrder { .. } => MatchReport { events: Vec::new(), completed: true },
            MatcherMessage::CreateMarket { market, outcomes } => {
                self.add_market(market.id, outcomes.first_outcome.id, outcomes.second_outcome.id);
                MatchReport { events: Vec::new(), completed: true }
            },
            MatcherMessage::RemoveMarket { market_id } => {
                self.remove_market(market_id);
                MatchReport { events: Vec::new(), completed: true }
            },
        }
    }
}

} // verus!
