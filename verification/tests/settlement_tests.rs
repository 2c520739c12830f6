use polymarket::decimal::Dec;
use polymarket::model::{Order, OrderSide, OrderStatus, OrderType};
use polymarket::settlement::settle_trade;

fn order(id: u128, side: OrderSide, remaining: Dec, price: Dec) -> Order {
    Order {
        id,
        user_id: 500 + id,
        market_id: 1,
        outcome_id: 2,
        side,
        order_type: OrderType::LIMIT,
        shares: remaining,
        remaining_shares: remaining,
        price,
        quote_amount: Dec::new(0, 0),
        status: OrderStatus::PENDING,
        expires_at: 0,
        created_at: None,
        updated_at: None,
    }
}

fn value_eq(a: Dec, m: i128, s: u32) -> bool {
    let (mut x, mut y) = (a.mantissa, m);
    let (mut sa, mut sb) = (a.scale, s);
    while sa < sb {
        x *= 10;
        sa += 1;
    }
    while sb < sa {
        y *= 10;
        sb += 1;
    }
    x == y
}

#[test]
fn trade_moves_the_smaller_remaining_at_the_sell_price() {
    let buy = order(1, OrderSide::BUY, Dec::new(10, 0), Dec::new(60, 2));
    let sell = order(2, OrderSide::SELL, Dec::new(4, 0), Dec::new(55, 2));
    let s = settle_trade(&buy, &sell).unwrap();
    assert!(value_eq(s.shares, 4, 0));
    assert!(value_eq(s.price, 55, 2));
    assert!(value_eq(s.total_cost, 220, 2)); // 0.55 * 4
    assert!(value_eq(s.buyer_refund, 20, 2)); // (0.60 - 0.55) * 4
    assert!(value_eq(s.buyer_unlock, 240, 2)); // 0.60 * 4
    assert_eq!(s.buy_status, OrderStatus::PARTIAL);
    assert_eq!(s.sell_status, OrderStatus::FILLED);
    assert_eq!(s.buyer_id, 501);
    assert_eq!(s.seller_id, 502);
    assert_eq!(s.buy_order_id, 1);
    assert_eq!(s.sell_order_id, 2);
}

#[test]
fn equal_remaining_fills_both_orders() {
    let buy = order(1, OrderSide::BUY, Dec::new(50, 1), Dec::new(5, 1));
    let sell = order(2, OrderSide::SELL, Dec::new(5, 0), Dec::new(5, 1));
    let s = settle_trade(&buy, &sell).unwrap();
    // on a tie the sell order's count is taken
    assert_eq!(s.shares, Dec::new(5, 0));
    assert_eq!(s.buy_status, OrderStatus::FILLED);
    assert_eq!(s.sell_status, OrderStatus::FILLED);
    assert!(value_eq(s.buyer_refund, 0, 0));
}

#[test]
fn overflowing_cost_gives_no_settlement() {
    let big = Dec::new(79228162514264337593543950335, 0);
    let buy = order(1, OrderSide::BUY, big, big);
    let sell = order(2, OrderSide::SELL, big, big);
    assert!(settle_trade(&buy, &sell).is_none());
}
