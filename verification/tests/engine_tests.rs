use polymarket::decimal::Dec;
use polymarket::engine::Engine;
use polymarket::model::{
    Market, MarketOutcomes, MarketStatus, MatcherMessage, Order, OrderSide, OrderStatus, OrderType,
    Outcome, TradeEvent,
};
use polymarket::orderbook::OrderBook;

const MARKET: u128 = 7;
const YES: u128 = 71;
const NO: u128 = 72;
const FAR_FUTURE: i128 = 1_000_000_000_000_000_000;

fn d(m: i128, s: u32) -> Dec {
    Dec::new(m, s)
}

fn limit(id: u128, side: OrderSide, shares: i128, price_cents: i128) -> Order {
    Order {
        id,
        user_id: 1000 + id,
        market_id: MARKET,
        outcome_id: YES,
        side,
        order_type: OrderType::LIMIT,
        shares: d(shares, 0),
        remaining_shares: d(shares, 0),
        price: d(price_cents, 2),
        quote_amount: d(0, 0),
        status: OrderStatus::PENDING,
        expires_at: FAR_FUTURE,
        created_at: None,
        updated_at: None,
    }
}

fn market_buy(id: u128, quote: i128) -> Order {
    Order {
        order_type: OrderType::MARKET,
        quote_amount: d(quote, 0),
        shares: d(0, 0),
        remaining_shares: d(0, 0),
        price: d(0, 0),
        ..limit(id, OrderSide::BUY, 0, 0)
    }
}

fn market_sell(id: u128, shares: i128) -> Order {
    Order { order_type: OrderType::MARKET, price: d(0, 0), ..limit(id, OrderSide::SELL, shares, 0) }
}

fn same_value(a: Dec, b: Dec) -> bool {
    // compare a.mantissa / 10^a.scale with b.mantissa / 10^b.scale
    let (mut x, mut y) = (a.mantissa, b.mantissa);
    let (mut sa, mut sb) = (a.scale, b.scale);
    while sa < sb {
        x *= 10;
        sa += 1;
    }
    while sb < sa {
        y *= 10;
        sb += 1;
    }
    x == y
}

fn engine() -> Engine {
    let mut e = Engine::new();
    e.add_market(MARKET, YES, NO);
    e
}

#[test]
fn limit_orders_rest_when_they_do_not_cross() {
    let mut e = engine();
    let r1 = e.match_order(limit(1, OrderSide::BUY, 10, 40), 0);
    let r2 = e.match_order(limit(2, OrderSide::SELL, 10, 60), 0);
    assert!(r1.completed && r1.events.is_empty());
    assert!(r2.completed && r2.events.is_empty());
}

#[test]
fn crossing_limit_order_trades_with_resting_order() {
    let mut e = engine();
    e.match_order(limit(1, OrderSide::SELL, 10, 50), 0);
    let r = e.match_order(limit(2, OrderSide::BUY, 4, 55), 0);
    assert!(r.completed);
    assert_eq!(r.events.len(), 1);
    match r.events[0] {
        TradeEvent::LimitOrders { buy, sell } => {
            assert_eq!(buy.id, 2);
            assert_eq!(sell.id, 1);
        }
        _ => panic!("expected a limit trade"),
    }
    // The rest of the sell order keeps resting: 6 shares at 0.50.
    let r = e.match_order(limit(3, OrderSide::BUY, 6, 50), 0);
    assert_eq!(r.events.len(), 1);
    match r.events[0] {
        TradeEvent::LimitOrders { sell, .. } => {
            assert_eq!(sell.id, 1);
            assert!(same_value(sell.remaining_shares, d(6, 0)));
        }
        _ => panic!("expected a limit trade"),
    }
    // Now the sell side is empty: a new buy rests.
    let r = e.match_order(limit(4, OrderSide::BUY, 1, 99), 0);
    assert!(r.events.is_empty());
}

#[test]
fn larger_limit_order_sweeps_levels_best_price_first() {
    let mut e = engine();
    e.match_order(limit(1, OrderSide::SELL, 5, 52), 0);
    e.match_order(limit(2, OrderSide::SELL, 5, 50), 0);
    e.match_order(limit(3, OrderSide::SELL, 5, 50), 0);
    let r = e.match_order(limit(4, OrderSide::BUY, 12, 52), 0);
    let sells: Vec<u128> = r
        .events
        .iter()
        .map(|ev| match ev {
            TradeEvent::LimitOrders { sell, .. } => sell.id,
            _ => panic!("expected limit trades"),
        })
        .collect();
    // price first (0.50 before 0.52), then time (2 before 3)
    assert_eq!(sells, vec![2, 3, 1]);
    assert!(r.completed);
}

#[test]
fn expired_resting_orders_are_skipped() {
    let mut e = engine();
    let mut stale = limit(1, OrderSide::SELL, 5, 50);
    stale.expires_at = 100;
    e.match_order(stale, 0);
    e.match_order(limit(2, OrderSide::SELL, 5, 51), 0);
    let r = e.match_order(limit(3, OrderSide::BUY, 5, 60), 200);
    assert_eq!(r.events.len(), 1);
    match r.events[0] {
        TradeEvent::LimitOrders { sell, .. } => assert_eq!(sell.id, 2),
        _ => panic!("expected a limit trade"),
    }
}

#[test]
fn market_buy_spends_its_quote() {
    let mut e = engine();
    e.match_order(limit(1, OrderSide::SELL, 10, 50), 0); // costs 5.00
    e.match_order(limit(2, OrderSide::SELL, 10, 60), 0); // costs 6.00
    let r = e.match_order(market_buy(3, 8), 0);
    assert!(r.completed);
    // all of order 1 (5.00), then floor(3 / 0.60) = 5 shares of order 2
    assert_eq!(r.events.len(), 2);
    match r.events[1] {
        TradeEvent::MarketOrders { market_order, book_order } => {
            assert_eq!(book_order.id, 2);
            assert!(same_value(market_order.quote_amount, d(3, 0)));
        }
        _ => panic!("expected a market trade"),
    }
    // 5 shares of order 2 are left
    let r = e.match_order(limit(4, OrderSide::BUY, 5, 60), 0);
    match r.events[0] {
        TradeEvent::LimitOrders { sell, .. } => {
            assert_eq!(sell.id, 2);
            assert!(same_value(sell.remaining_shares, d(5, 0)));
        }
        _ => panic!("expected a limit trade"),
    }
}

#[test]
fn market_buy_with_nothing_to_buy_is_complete() {
    let mut e = engine();
    let r = e.match_order(market_buy(1, 10), 0);
    assert!(r.completed);
    assert_eq!(r.events.len(), 1);
    assert!(matches!(r.events[0], TradeEvent::CompleteOrder { .. }));
}

#[test]
fn market_sell_takes_buyers_until_sold() {
    let mut e = engine();
    e.match_order(limit(1, OrderSide::BUY, 3, 40), 0);
    e.match_order(limit(2, OrderSide::BUY, 3, 45), 0);
    let r = e.match_order(market_sell(3, 10), 0);
    assert!(r.completed);
    // best buyer first (0.45), then 0.40, then nothing: complete
    assert_eq!(r.events.len(), 3);
    match (&r.events[0], &r.events[1]) {
        (
            TradeEvent::MarketOrders { book_order: a, .. },
            TradeEvent::MarketOrders { book_order: b, .. },
        ) => {
            assert_eq!(a.id, 2);
            assert_eq!(b.id, 1);
        }
        _ => panic!("expected market trades"),
    }
    match r.events[2] {
        TradeEvent::CompleteOrder { market_order } => {
            assert!(same_value(market_order.remaining_shares, d(4, 0)));
        }
        _ => panic!("expected completion"),
    }
}

#[test]
fn market_orders_never_rest_in_the_book() {
    let mut e = engine();
    e.match_order(market_sell(1, 10), 0);
    e.match_order(market_buy(2, 10), 0);
    // neither market order can be traded against afterwards
    let r = e.match_order(limit(3, OrderSide::BUY, 1, 99), 0);
    assert!(r.events.is_empty());
    let r = e.match_order(limit(4, OrderSide::SELL, 1, 1), 0);
    assert_eq!(r.events.len(), 1);
    match r.events[0] {
        TradeEvent::LimitOrders { buy, .. } => assert_eq!(buy.id, 3),
        _ => panic!("expected a limit trade"),
    }
}

#[test]
fn books_stay_uncrossed_after_matching() {
    let mut e = engine();
    e.match_order(limit(1, OrderSide::BUY, 5, 48), 0);
    e.match_order(limit(2, OrderSide::SELL, 5, 52), 0);
    e.match_order(limit(3, OrderSide::BUY, 8, 53), 0); // takes 5 at 0.52, rests 3 at 0.53
    // the best buy is now 0.53 and no sell remains below it
    let r = e.match_order(limit(4, OrderSide::SELL, 3, 53), 0);
    match r.events[0] {
        TradeEvent::LimitOrders { buy, .. } => {
            assert_eq!(buy.id, 3);
            assert!(same_value(buy.remaining_shares, d(3, 0)));
        }
        _ => panic!("expected a limit trade"),
    }
}

#[test]
fn orders_for_unknown_books_are_ignored() {
    let mut e = engine();
    let mut o = limit(1, OrderSide::BUY, 5, 50);
    o.market_id = 999;
    let r = e.match_order(o, 0);
    assert!(r.completed && r.events.is_empty());
}

#[test]
fn cancel_removes_a_resting_order_once() {
    let mut e = engine();
    let o = limit(1, OrderSide::BUY, 5, 50);
    e.match_order(o, 0);
    assert!(matches!(e.cancel_order(o), Some(TradeEvent::CancelOrder { .. })));
    assert!(e.cancel_order(o).is_none());
    let r = e.match_order(limit(2, OrderSide::SELL, 5, 40), 0);
    assert!(r.events.is_empty());
}

#[test]
fn removed_market_ignores_orders() {
    let mut e = engine();
    e.match_order(limit(1, OrderSide::SELL, 5, 50), 0);
    e.remove_market(MARKET);
    let r = e.match_order(limit(2, OrderSide::BUY, 5, 50), 0);
    assert!(r.events.is_empty());
}

#[test]
fn messages_drive_the_engine() {
    let mut e = Engine::new();
    let outcome = |id: u128| Outcome {
        id,
        market_id: MARKET,
        label: "x".to_string(),
        start_price: d(50, 2),
        current_price: d(50, 2),
        total_shares: d(100, 0),
        created_at: None,
        updated_at: None,
    };
    let market = Market {
        id: MARKET,
        title: "t".to_string(),
        description: "d".to_string(),
        category: "c".to_string(),
        start_at: 0,
        close_at: 1,
        status: MarketStatus::ACTIVE,
        created_at: None,
        updated_at: None,
        deleted_at: None,
    };
    let r = e.handle_message(
        MatcherMessage::CreateMarket {
            market,
            outcomes: MarketOutcomes { first_outcome: outcome(YES), second_outcome: outcome(NO) },
        },
        0,
    );
    assert!(r.events.is_empty());
    e.handle_message(MatcherMessage::PlaceOrder { order: limit(1, OrderSide::SELL, 5, 50) }, 0);
    // a cancellation message changes nothing
    let r = e.handle_message(MatcherMessage::CancelOrder { order: limit(1, OrderSide::SELL, 5, 50) }, 0);
    assert!(r.events.is_empty());
    let r = e.handle_message(MatcherMessage::PlaceOrder { order: limit(2, OrderSide::BUY, 5, 50) }, 0);
    assert_eq!(r.events.len(), 1);
    e.handle_message(MatcherMessage::RemoveMarket { market_id: MARKET }, 0);
    let r = e.handle_message(MatcherMessage::PlaceOrder { order: limit(3, OrderSide::BUY, 5, 50) }, 0);
    assert!(r.events.is_empty());
}

#[test]
fn order_book_keeps_price_time_priority() {
    let mut b = OrderBook::new();
    b.add_buy(limit(1, OrderSide::BUY, 1, 40));
    b.add_buy(limit(2, OrderSide::BUY, 1, 45));
    b.add_buy(limit(3, OrderSide::BUY, 1, 45));
    b.add_sell(limit(4, OrderSide::SELL, 1, 60));
    b.add_sell(limit(5, OrderSide::SELL, 1, 55));
    assert_eq!(b.best_buy().unwrap().id, 2);
    assert_eq!(b.best_sell().unwrap().id, 5);
    assert_eq!(b.remove_buy().unwrap().id, 2);
    assert_eq!(b.remove_buy().unwrap().id, 3);
    assert_eq!(b.remove_buy().unwrap().id, 1);
    assert!(b.remove_buy().is_none());
    assert_eq!(b.remove_sell().unwrap().id, 5);
}

#[test]
fn cancel_right_after_add_restores_the_book() {
    let mut b = OrderBook::new();
    b.add_sell(limit(1, OrderSide::SELL, 1, 55));
    b.add_sell(limit(2, OrderSide::SELL, 1, 50));
    assert!(b.cancel(2));
    assert!(!b.cancel(2));
    assert_eq!(b.best_sell().unwrap().id, 1);
    assert_eq!(b.remove_sell().unwrap().id, 1);
    assert!(b.best_sell().is_none());
}

#[test]
fn expired_best_orders_are_removed_one_at_a_time() {
    let mut b = OrderBook::new();
    let mut o = limit(1, OrderSide::SELL, 1, 50);
    o.expires_at = 10;
    b.add_sell(o);
    b.add_sell(limit(2, OrderSide::SELL, 1, 51));
    assert!(b.remove_expired_best_sell(5).is_none());
    assert_eq!(b.remove_expired_best_sell(10).unwrap().id, 1);
    assert!(b.remove_expired_best_sell(10).is_none());
    assert_eq!(b.best_sell().unwrap().id, 2);
}

#[test]
fn expired_best_buy_is_removed() {
    let mut b = OrderBook::new();
    let mut o = limit(1, OrderSide::BUY, 1, 50);
    o.expires_at = 10;
    b.add_buy(o);
    assert!(b.remove_expired_best_buy(9).is_none());
    assert_eq!(b.remove_expired_best_buy(11).unwrap().id, 1);
    assert!(b.best_buy().is_none());
}

#[test]
fn limit_orders_never_trade_beyond_their_price() {
    let mut e = engine();
    e.match_order(limit(1, OrderSide::SELL, 5, 51), 0);
    let r = e.match_order(limit(2, OrderSide::BUY, 5, 50), 0);
    assert!(r.events.is_empty());
    e.match_order(limit(3, OrderSide::BUY, 5, 49), 0);
    let r = e.match_order(limit(4, OrderSide::SELL, 5, 50), 0);
    match r.events[0] {
        TradeEvent::LimitOrders { buy, sell } => {
            // the sell at 0.50 meets the resting buy at 0.50, not the one at 0.49
            assert_eq!(buy.id, 2);
            assert_eq!(sell.id, 4);
        }
        _ => panic!("expected a limit trade"),
    }
    assert_eq!(r.events.len(), 1);
}

#[test]
fn placing_then_cancelling_a_resting_limit_leaves_the_book_as_it_was() {
    let mut e = engine();
    e.match_order(limit(1, OrderSide::SELL, 10, 60), 0);
    e.match_order(limit(2, OrderSide::BUY, 10, 40), 0);
    let o = limit(3, OrderSide::BUY, 10, 50);
    let r = e.match_order(o, 0);
    assert!(r.completed && r.events.is_empty());
    match e.cancel_order(o) {
        Some(TradeEvent::CancelOrder { order }) => assert_eq!(order.id, 3),
        _ => panic!("the resting order was not cancelled"),
    }
    let r = e.match_order(limit(4, OrderSide::SELL, 10, 40), 0);
    assert_eq!(r.events.len(), 1);
    match &r.events[0] {
        TradeEvent::LimitOrders { buy, sell } => {
            assert_eq!(buy.id, 2);
            assert_eq!(sell.id, 4);
        }
        _ => panic!("expected a limit trade"),
    }
}

#[test]
fn cancelling_is_reported_only_for_resting_orders() {
    let mut e = engine();
    let never_placed = limit(9, OrderSide::BUY, 1, 10);
    assert!(e.cancel_order(never_placed).is_none());
    let sell = limit(1, OrderSide::SELL, 5, 50);
    e.match_order(sell, 0);
    e.match_order(limit(2, OrderSide::BUY, 5, 50), 0);
    assert!(e.cancel_order(sell).is_none());
}

fn smaller_remaining(a: &Order, b: &Order) -> i128 {
    // both counts are whole numbers of shares in these tests
    let x = a.remaining_shares.mantissa;
    let y = b.remaining_shares.mantissa;
    if x <= y {
        x
    } else {
        y
    }
}

#[test]
fn a_limit_order_accounts_for_all_its_shares() {
    let mut e = engine();
    e.match_order(limit(1, OrderSide::SELL, 3, 40), 0);
    e.match_order(limit(2, OrderSide::SELL, 4, 45), 0);
    let r = e.match_order(limit(3, OrderSide::BUY, 10, 50), 0);
    assert!(r.completed);
    let mut traded = 0;
    for ev in &r.events {
        match ev {
            TradeEvent::LimitOrders { buy, sell } => traded += smaller_remaining(buy, sell),
            _ => panic!("expected limit trades"),
        }
    }
    assert_eq!(traded, 7);
    // the 3 shares left rest in the book
    let r = e.match_order(limit(4, OrderSide::SELL, 5, 50), 0);
    match &r.events[0] {
        TradeEvent::LimitOrders { buy, .. } => {
            assert_eq!(buy.id, 3);
            assert!(same_value(buy.remaining_shares, d(3, 0)));
        }
        _ => panic!("expected a limit trade"),
    }
}

#[test]
fn a_partly_filled_resting_order_keeps_its_shares_left() {
    let mut e = engine();
    e.match_order(limit(1, OrderSide::SELL, 10, 50), 0);
    e.match_order(limit(2, OrderSide::BUY, 4, 50), 0);
    let r = e.match_order(limit(3, OrderSide::BUY, 10, 50), 0);
    match &r.events[0] {
        TradeEvent::LimitOrders { sell, .. } => {
            assert_eq!(sell.id, 1);
            assert!(same_value(sell.remaining_shares, d(6, 0)));
        }
        _ => panic!("expected a limit trade"),
    }
}

#[test]
fn a_market_sell_accounts_for_all_its_shares() {
    let mut e = engine();
    e.match_order(limit(1, OrderSide::BUY, 4, 40), 0);
    let r = e.match_order(market_sell(2, 10), 0);
    assert!(r.completed);
    let mut accounted = 0;
    for ev in &r.events {
        match ev {
            TradeEvent::MarketOrders { market_order, book_order } => {
                accounted += smaller_remaining(market_order, book_order)
            }
            TradeEvent::CompleteOrder { market_order } => accounted += market_order.remaining_shares.mantissa,
            _ => panic!("unexpected event"),
        }
    }
    assert_eq!(accounted, 10);
}

#[test]
fn a_rounded_quote_can_leave_a_resting_sell_without_shares() {
    let mut e = engine();
    e.match_order(limit(1, OrderSide::SELL, 2, 300), 0);
    // 5.9999999999999999999999999999 / 3 rounds to 2 at 28 decimals
    let buy = Order { quote_amount: d(59_999_999_999_999_999_999_999_999_999, 28), ..market_buy(2, 0) };
    let r = e.match_order(buy, 0);
    assert!(r.completed);
    assert_eq!(r.events.len(), 1);
    let r = e.match_order(limit(3, OrderSide::BUY, 1, 300), 0);
    match &r.events[0] {
        TradeEvent::LimitOrders { sell, .. } => {
            assert_eq!(sell.id, 1);
            assert!(same_value(sell.remaining_shares, d(0, 0)));
        }
        _ => panic!("expected a limit trade"),
    }
}
