use polymarket::decimal::Dec;
use polymarket::error::{BAD_REQUEST, NOT_FOUND};
use polymarket::market::{
    book_keys, check_outcome_found, check_resolvable, listing_cost, listing_entry, listing_query,
    market_cache_key, markets_query_text, ListingQuery,
};
use polymarket::model::{Market, MarketStatus, Order, OrderSide, OrderStatus, OrderType, Outcome};
use polymarket::validation::market_dto::MarketQueryDTO;

const M: u128 = 0x67e5504410b1426f9247bb680e5fe0c8;
const O: u128 = 0x936da01f9abd4d9d80c702af85c822a8;
const M_TEXT: &str = "67e55044-10b1-426f-9247-bb680e5fe0c8";
const O_TEXT: &str = "936da01f-9abd-4d9d-80c7-02af85c822a8";

const BASE: &str = "SELECT id, title, description, category, start_at, close_at, status, created_at, updated_at, deleted_at\n        FROM market\n        WHERE deleted_at IS NULL AND status = $1";

fn market(status: MarketStatus, close_at: i128) -> Market {
    Market {
        id: M,
        title: "Will it rain?".to_string(),
        description: "".to_string(),
        category: "weather".to_string(),
        start_at: 0,
        close_at,
        status,
        created_at: None,
        updated_at: None,
        deleted_at: None,
    }
}

fn empty_query() -> MarketQueryDTO {
    MarketQueryDTO {
        order_field: None,
        order_by: None,
        status: None,
        category: None,
        start_after: None,
        start_before: None,
        close_after: None,
        close_before: None,
        limit: None,
        skip: None,
    }
}

#[test]
fn unknown_market_cannot_be_resolved() {
    let e = check_resolvable(None, 10).unwrap_err();
    assert_eq!(e.status, NOT_FOUND);
    assert_eq!(e.message, "Market does not exist");
}

#[test]
fn market_resolves_only_after_closing() {
    assert!(check_resolvable(Some(&market(MarketStatus::ACTIVE, 10)), 10).is_ok());
    assert!(check_resolvable(Some(&market(MarketStatus::CLOSED, 5)), 10).is_ok());
    let e = check_resolvable(Some(&market(MarketStatus::ACTIVE, 11)), 10).unwrap_err();
    assert_eq!(e.status, BAD_REQUEST);
    assert_eq!(e.message, "Market is not closed");
    let e = check_resolvable(Some(&market(MarketStatus::RESOLVED, 5)), 10).unwrap_err();
    assert_eq!(e.message, "Market is not closed");
    assert!(check_resolvable(Some(&market(MarketStatus::PENDING, 5)), 10).is_err());
}

#[test]
fn winning_outcome_must_exist() {
    assert!(check_outcome_found(true).is_ok());
    let e = check_outcome_found(false).unwrap_err();
    assert_eq!(e.status, NOT_FOUND);
    assert_eq!(e.message, "Outcome does not exist");
}

#[test]
fn listing_defaults() {
    let q = listing_query(empty_query());
    assert_eq!(q.status, MarketStatus::ACTIVE);
    assert_eq!(q.limit, 10);
    assert_eq!(q.skip, 0);
    assert_eq!(q.order_by, "created_at DESC");
    assert_eq!(markets_query_text(&q), format!("{BASE} ORDER BY created_at DESC LIMIT $2 OFFSET $3"));
}

#[test]
fn listing_with_filters_numbers_its_parameters() {
    let mut dto = empty_query();
    dto.order_field = Some("close_at".to_string());
    dto.order_by = Some("ASC".to_string());
    dto.status = Some(MarketStatus::CLOSED);
    dto.category = Some("sports".to_string());
    dto.start_before = Some(5);
    dto.close_after = Some(6);
    dto.limit = Some(3);
    dto.skip = Some(9);
    let q = listing_query(dto);
    assert_eq!(q.status, MarketStatus::CLOSED);
    assert_eq!(q.limit, 3);
    assert_eq!(q.skip, 9);
    assert_eq!(q.order_by, "close_at ASC");
    assert_eq!(
        markets_query_text(&q),
        format!("{BASE} AND category = $2 AND start_at <= $3 AND close_at >= $4 ORDER BY close_at ASC LIMIT $5 OFFSET $6")
    );
}

#[test]
fn listing_with_every_filter() {
    let q = ListingQuery {
        status: MarketStatus::ACTIVE,
        category: Some("x".to_string()),
        start_after: Some(1),
        start_before: Some(2),
        close_after: Some(3),
        close_before: Some(4),
        order_by: "start_at DESC".to_string(),
        limit: 1,
        skip: 0,
    };
    assert_eq!(
        markets_query_text(&q),
        format!("{BASE} AND category = $2 AND start_at >= $3 AND start_at <= $4 AND close_at >= $5 AND close_at <= $6 ORDER BY start_at DESC LIMIT $7 OFFSET $8")
    );
}

#[test]
fn cache_and_book_keys() {
    assert_eq!(market_cache_key(M), format!("market:{M_TEXT}"));
    let k = book_keys(M, O);
    assert_eq!(k.buy_key, format!("orderbook:{M_TEXT}:{O_TEXT}:buy"));
    assert_eq!(k.sell_key, format!("orderbook:{M_TEXT}:{O_TEXT}:sell"));
    assert_eq!(k.buy_qty_key, format!("orderbook:{M_TEXT}:{O_TEXT}:buy:qty"));
    assert_eq!(k.sell_qty_key, format!("orderbook:{M_TEXT}:{O_TEXT}:sell:qty"));
}

#[test]
fn initial_sell_order_is_listed_at_its_normalized_price() {
    let order = Order {
        id: 1,
        user_id: 2,
        market_id: M,
        outcome_id: O,
        side: OrderSide::SELL,
        order_type: OrderType::LIMIT,
        shares: Dec::new(1000, 0),
        remaining_shares: Dec::new(1000, 0),
        price: Dec::new(5000, 4),
        quote_amount: Dec::new(0, 0),
        status: OrderStatus::PENDING,
        expires_at: 0,
        created_at: None,
        updated_at: None,
    };
    let e = listing_entry(&order);
    assert_eq!(e.book_key, format!("orderbook:{M_TEXT}:{O_TEXT}:sell"));
    assert_eq!(e.qty_key, format!("orderbook:{M_TEXT}:{O_TEXT}:sell:qty"));
    assert_eq!(e.price_field, "0.5");
    assert_eq!(e.price, Dec::new(5, 1));
    assert_eq!(e.shares, Dec::new(1000, 0));
}

#[test]
fn listing_costs_all_shares_at_the_start_price() {
    let outcome = Outcome {
        id: O,
        market_id: M,
        label: "Yes".to_string(),
        start_price: Dec::new(45, 2),
        current_price: Dec::new(45, 2),
        total_shares: Dec::new(200, 0),
        created_at: None,
        updated_at: None,
    };
    assert_eq!(listing_cost(&outcome), Some(Dec::new(9000, 2)));
    let huge = Outcome {
        start_price: Dec::new(79228162514264337593543950335, 0),
        total_shares: Dec::new(79228162514264337593543950335, 0),
        ..outcome
    };
    assert_eq!(listing_cost(&huge), None);
}

fn entry_price_text(m: i128, s: u32) -> (String, Dec) {
    let order = Order {
        id: 1,
        user_id: 2,
        market_id: M,
        outcome_id: O,
        side: OrderSide::SELL,
        order_type: OrderType::LIMIT,
        shares: Dec::new(1, 0),
        remaining_shares: Dec::new(1, 0),
        price: Dec::new(m, s),
        quote_amount: Dec::new(0, 0),
        status: OrderStatus::PENDING,
        expires_at: 0,
        created_at: None,
        updated_at: None,
    };
    let e = listing_entry(&order);
    (e.price_field, e.price)
}

#[test]
fn price_levels_are_named_by_normalized_text() {
    assert_eq!(entry_price_text(1250, 2), ("12.5".to_string(), Dec::new(125, 1)));
    assert_eq!(entry_price_text(1000, 1), ("100".to_string(), Dec::new(100, 0)));
    assert_eq!(entry_price_text(100, 0), ("100".to_string(), Dec::new(100, 0)));
    assert_eq!(entry_price_text(0, 3), ("0".to_string(), Dec::new(0, 0)));
    assert_eq!(entry_price_text(-5, 3), ("-0.005".to_string(), Dec::new(-5, 3)));
    assert_eq!(entry_price_text(123456789, 4), ("12345.6789".to_string(), Dec::new(123456789, 4)));
    assert_eq!(entry_price_text(7, 28).0, "0.0000000000000000000000000007");
}
