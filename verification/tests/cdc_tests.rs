use polymarket::cdc::decimal64::{deserialize as read_decimal, serialize, Decimal64Error};
use polymarket::cdc::datetime_rfc3339::deserialize as read_instant;
use polymarket::cdc::{
    book_key_text, handle_holding_event, handle_order_event, handle_transaction_event,
    ConsumerEvent, HoldingRow, Operation, OrderRow, OrderSide, OrderStatus, Source,
    TransactionRow, TransactionType,
};
use polymarket::decimal::Dec;
use polymarket::model::FeedMessage;

const M: u128 = 0x67e5504410b1426f9247bb680e5fe0c8;
const O: u128 = 0x936da01f9abd4d9d80c702af85c822a8;
const M_TEXT: &str = "67e55044-10b1-426f-9247-bb680e5fe0c8";
const O_TEXT: &str = "936da01f-9abd-4d9d-80c7-02af85c822a8";

fn source() -> Source {
    Source {
        version: "2.5".to_string(),
        connector: "postgresql".to_string(),
        name: "pg".to_string(),
        ts_ms: 0,
        db: "db".to_string(),
        schema: "public".to_string(),
        table: "orders".to_string(),
        tx_id: None,
        lsn: None,
    }
}

fn order_row(status: OrderStatus) -> OrderRow {
    OrderRow {
        id: 1,
        user_id: 2,
        market_id: M,
        outcome_id: O,
        side: OrderSide::SELL,
        shares: Dec::new(10, 0),
        remaining_shares: Dec::new(4, 0),
        price: Dec::new(2500, 4),
        status,
        created_at: 0,
        updated_at: 0,
    }
}

#[test]
fn decimals_with_eight_digits_are_stored_exactly() {
    assert_eq!(serialize(&Dec::new(12345, 2)), Ok(12_345_000_000));
    assert_eq!(serialize(&Dec::new(-1, 8)), Ok(-1));
    assert_eq!(serialize(&Dec::new(0, 0)), Ok(0));
}

#[test]
fn finer_decimals_round_half_to_even() {
    assert_eq!(serialize(&Dec::new(25, 9)), Ok(2)); // 2.5 units -> 2
    assert_eq!(serialize(&Dec::new(35, 9)), Ok(4)); // 3.5 units -> 4
    assert_eq!(serialize(&Dec::new(26, 9)), Ok(3));
}

#[test]
fn oversized_decimals_are_refused() {
    assert_eq!(
        serialize(&Dec::new(79228162514264337593543950335, 0)),
        Err(Decimal64Error::Overflow)
    );
    assert_eq!(serialize(&Dec::new(100_000_000_000_000, 0)), Err(Decimal64Error::OutOfRange));
}

#[test]
fn decimals_and_instants_are_read_from_text() {
    assert_eq!(read_decimal(&"12.50".to_string()), Some(Dec::new(1250, 2)));
    assert_eq!(read_decimal(&"x".to_string()), None);
    assert_eq!(read_instant(&"1970-01-01T00:00:01.5Z".to_string()), Some(1_500_000_000));
    assert_eq!(read_instant(&"1970-01-01T01:00:00+01:00".to_string()), Some(0));
    assert_eq!(read_instant(&"yesterday".to_string()), None);
}

#[test]
fn stored_codes() {
    assert_eq!(OrderSide::BUY.code(), 1);
    assert_eq!(OrderSide::SELL.code(), 2);
    assert_eq!(OrderStatus::PENDING.code(), 1);
    assert_eq!(OrderStatus::EXPIRED.code(), 5);
    assert_eq!(TransactionType::DEPOSIT.code(), 1);
    assert_eq!(TransactionType::PAYOUT.code(), 6);
}

#[test]
fn holdings_store_their_new_state() {
    let row = HoldingRow {
        id: 1,
        user_id: 2,
        market_id: M,
        outcome_id: O,
        shares: Dec::new(3, 0),
        locked_shares: Dec::new(0, 0),
        created_at: 0,
        updated_at: 0,
    };
    let stored = handle_holding_event(ConsumerEvent {
        before: None,
        after: Some(row),
        source: source(),
        op: Operation::Update,
        ts_ms: 0,
    });
    assert_eq!(stored.unwrap().shares, Dec::new(3, 0));
}

#[test]
fn only_created_transactions_are_stored() {
    let row = || TransactionRow {
        id: 1,
        wallet_id: 2,
        transaction_type: TransactionType::BUY,
        amount: Dec::new(5, 0),
        created_at: 0,
    };
    let created = ConsumerEvent { before: None, after: Some(row()), source: source(), op: Operation::Create, ts_ms: 0 };
    assert!(handle_transaction_event(created).is_some());
    let updated = ConsumerEvent { before: None, after: Some(row()), source: source(), op: Operation::Update, ts_ms: 0 };
    assert!(handle_transaction_event(updated).is_none());
}

#[test]
fn expired_order_leaves_the_aggregated_book() {
    let event = ConsumerEvent {
        before: None,
        after: Some(order_row(OrderStatus::EXPIRED)),
        source: source(),
        op: Operation::Update,
        ts_ms: 0,
    };
    let plan = handle_order_event(event, 42);
    assert!(plan.store.is_some());
    let p = plan.expired.unwrap();
    assert_eq!(p.base_key, format!("orderbook:{M_TEXT}:{O_TEXT}:sell"));
    assert_eq!(p.qty_key, format!("orderbook:{M_TEXT}:{O_TEXT}:sell:qty"));
    assert_eq!(p.price_field, "0.25");
    assert_eq!(p.quantity_change, Dec::new(-4, 0));
    assert_eq!(p.timestamp_key, format!("orderbook:{M_TEXT}:timestamp"));
    match p.feed {
        FeedMessage::OrderFeed { feed } => {
            assert_eq!(feed.market_id, M);
            assert_eq!(feed.price, Dec::new(25, 2));
            assert_eq!(feed.quantity, Dec::new(-4, 0));
            assert_eq!(feed.timestamp, 42);
        }
        _ => panic!("expected an order update"),
    }
}

#[test]
fn other_order_changes_are_only_stored() {
    let created = ConsumerEvent {
        before: None,
        after: Some(order_row(OrderStatus::EXPIRED)),
        source: source(),
        op: Operation::Create,
        ts_ms: 0,
    };
    assert!(handle_order_event(created, 0).expired.is_none());
    let partial = ConsumerEvent {
        before: None,
        after: Some(order_row(OrderStatus::PARTIAL)),
        source: source(),
        op: Operation::Update,
        ts_ms: 0,
    };
    let plan = handle_order_event(partial, 0);
    assert!(plan.store.is_some() && plan.expired.is_none());
}

#[test]
fn book_key_names_market_outcome_and_side() {
    assert_eq!(book_key_text(M, O, "buy"), format!("orderbook:{M_TEXT}:{O_TEXT}:buy"));
}
