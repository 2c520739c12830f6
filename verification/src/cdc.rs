//! Change events of the database (one per inserted or updated row), the rows
//! kept for analytics, and what each event leads to.
use crate::decimal::{Dec, dec_neg};
use crate::model::{FeedMessage, Instant, OrderFeed};
use crate::text::{decimal_normalize, decimal_text, decimal_text_of, dec_normalize, uuid_text, uuid_text_of};
use vstd::prelude::*;
use vstd::string::StringExecFns;

pub mod datetime_rfc3339;
pub mod decimal64;

verus! {

/// Where a change event comes from.
pub struct Source {
    pub version: String,
    pub connector: String,
    pub name: String,
    pub ts_ms: i64,
    pub db: String,
    pub schema: String,
    pub table: String,
    pub tx_id: Option<i64>,
    pub lsn: Option<i64>,
}

/// The kind of change: a row was created or updated.
#[derive(Clone, Copy, Debug, PartialEq, Eq, Structural)]
pub enum Operation {
    Create,
    Update,
}

/// Order side as stored for analytics, with its stored code.
#[derive(Clone, Copy, Debug, PartialEq, Eq, Structural)]
pub enum OrderSide {
    BUY,
    SELL,
}

impl OrderSide {
    pub open spec fn spec_code(self) -> u8 {
        match self {
            OrderSide::BUY => 1,
            OrderSide::SELL => 2,
        }
    }

    pub fn code(&self) -> (c: u8)
        ensures
            c == self.spec_code(),
    {
        match self {
            OrderSide::BUY => 1,
            OrderSide::SELL => 2,
        }
    }
}

#[derive(Clone, Copy, Debug, PartialEq, Eq, Structural)]
pub enum OrderStatus {
    PENDING,
    PARTIAL,
    FILLED,
    CANCELLED,
    EXPIRED,
}

impl OrderStatus {
    pub open spec fn spec_code(self) -> u8 {
        match self {
            OrderStatus::PENDING => 1,
            OrderStatus::PARTIAL => 2,
            OrderStatus::FILLED => 3,
            OrderStatus::CANCELLED => 4,
            OrderStatus::EXPIRED => 5,
        }
    }

    pub fn code(&self) -> (c: u8)
        ensures
            c == self.spec_code(),
    {
        match self {
            OrderStatus::PENDING => 1,
            OrderStatus::PARTIAL => 2,
            OrderStatus::FILLED => 3,
            OrderStatus::CANCELLED => 4,
            OrderStatus::EXPIRED => 5,
        }
    }
}

#[derive(Clone, Copy, Debug, PartialEq, Eq, Structural)]
pub enum TransactionType {
    DEPOSIT,
    WITHDRAW,
    BUY,
    SELL,
    REFUND,
    PAYOUT,
}

impl TransactionType {
    pub open spec fn spec_code(self) -> u8 {
        match self {
            TransactionType::DEPOSIT => 1,
            TransactionType::WITHDRAW => 2,
            TransactionType::BUY => 3,
            TransactionType::SELL => 4,
            TransactionType::REFUND => 5,
            TransactionType::PAYOUT => 6,
        }
    }

    pub fn code(&self) -> (c: u8)
        ensures
            c == self.spec_code(),
    {
        match self {
            TransactionType::DEPOSIT => 1,
            TransactionType::WITHDRAW => 2,
            TransactionType::BUY => 3,
            TransactionType::SELL => 4,
            TransactionType::REFUND => 5,
            TransactionType::PAYOUT => 6,
        }
    }
}

/// A change of one row: its state before and after, where it comes from,
/// the kind of change, and when it was captured.
pub struct ConsumerEvent<T> {
    pub before: Option<T>,
    pub after: Option<T>,
    pub source: Source,
    pub op: Operation,
    pub ts_ms: i64,
}

pub struct OrderRow {
    pub id: u128,
    pub user_id: u128,
    pub market_id: u128,
    pub outcome_id: u128,
    pub side: OrderSide,
    pub shares: Dec,
    pub remaining_shares: Dec,
    pub price: Dec,
    pub status: OrderStatus,
    pub created_at: Instant,
    pub updated_at: Instant,
}

pub struct TradeRow {
    pub id: u128,
    pub market_id: u128,
    pub buy_order_id: u128,
    pub sell_order_id: u128,
    pub shares: Dec,
    pub price: Dec,
    pub created_at: Instant,
}

pub struct TransactionRow {
    pub id: u128,
    pub wallet_id: u128,
    pub transaction_type: TransactionType,
    pub amount: Dec,
    pub created_at: Instant,
}

pub struct HoldingRow {
    pub id: u128,
    pub user_id: u128,
    pub market_id: u128,
    pub outcome_id: u128,
    pub shares: Dec,
    pub locked_shares: Dec,
    pub created_at: Instant,
    pub updated_at: Instant,
}

/// Holdings change as fills happen: the new state of a created or updated
/// holding is stored.
pub fn handle_holding_event(event: ConsumerEvent<HoldingRow>) -> (store: Option<HoldingRow>)
    ensures
        store == event.after,
{
    event.after
}

/// Transactions are only ever inserted: a created transaction is stored,
/// an update (not expected) is not.
pub fn handle_transaction_event(event: ConsumerEvent<TransactionRow>) -> (store: Option<TransactionRow>)
    ensures
        store == (match event.op {
            Operation::Create => event.after,
            Operation::Update => None,
        }),
{
    match event.op {
        Operation::Create => event.after,
        Operation::Update => None,
    }
}

/// What an expired order takes out of the aggregated book of its market:
/// its remaining shares at its price level, and the update sent to the feed.
pub struct ExpiredOrderPlan {
    /// The sorted set of price levels of the order's outcome and side.
    pub base_key: String,
    /// The hash of quantities per price level.
    pub qty_key: String,
    /// The price level, as normalized decimal text.
    pub price_field: String,
    /// The change of quantity at that level: minus the remaining shares.
    pub quantity_change: Dec,
    /// Where the time of the last change of the market's book is kept.
    pub timestamp_key: String,
    pub feed: FeedMessage,
}

/// What to do with a change of an order: the row to store, and for an
/// update that expired the order, the change of the aggregated book.
pub struct OrderEventPlan {
    pub store: Option<OrderRow>,
    pub expired: Option<ExpiredOrderPlan>,
}

pub open spec fn side_text(side: OrderSide) -> Seq<char> {
    match side {
        OrderSide::BUY => "buy"@,
        OrderSide::SELL => "sell"@,
    }
}

/// `orderbook:{market}:{outcome}:{side}`.
pub open spec fn book_key(market_id: u128, outcome_id: u128, side: Seq<char>) -> Seq<char> {
    "orderbook:"@ + uuid_text_of(market_id) + ":"@ + uuid_text_of(outcome_id) + ":"@ + side
}

pub fn book_key_text(market_id: u128, outcome_id: u128, side: &str) -> (r: String)
    ensures
        r@ == book_key(market_id, outcome_id, side@),
{
    String::from_str("orderbook:").concat(uuid_text(market_id).as_str()).concat(":").concat(
        uuid_text(outcome_id).as_str(),
    ).concat(":").concat(side)
}

/// `orderbook:{market}:timestamp`.
pub open spec fn timestamp_key(market_id: u128) -> Seq<char> {
    "orderbook:"@ + uuid_text_of(market_id) + ":timestamp"@
}

/// The plan for an order that an update expired, at `now_ms` milliseconds.
pub open spec fn expired_plan_matches(p: ExpiredOrderPlan, after: OrderRow, now_ms: i64) -> bool {
    let n = decimal_normalize(after.price.mantissa, after.price.scale);
    &&& p.base_key@ == book_key(after.market_id, after.outcome_id, side_text(after.side))
    &&& p.qty_key@ == book_key(after.market_id, after.outcome_id, side_text(after.side)) + ":qty"@
    &&& p.price_field@ == decimal_text_of(n.0, n.1)
    &&& p.quantity_change.mantissa == -after.remaining_shares.mantissa
    &&& p.quantity_change.scale == after.remaining_shares.scale
    &&& p.timestamp_key@ == timestamp_key(after.market_id)
    &&& p.feed == FeedMessage::OrderFeed {
        feed: OrderFeed {
            market_id: after.market_id,
            outcome_id: after.outcome_id,
            side: match after.side {
                OrderSide::BUY => crate::model::OrderSide::BUY,
                OrderSide::SELL => crate::model::OrderSide::SELL,
            },
            quantity: p.quantity_change,
            price: Dec { mantissa: n.0, scale: n.1 },
            timestamp: now_ms,
        },
    }
}

/// The update of an expired order takes its remaining shares away from its
/// own side of the book: the feed message names the order's market, outcome
/// and side (buy exactly when the order is a buy, the same side as the book
/// keys), minus its remaining shares, and its price.
pub proof fn law_expired_order_leaves_its_own_side(p: ExpiredOrderPlan, after: OrderRow, now_ms: i64)
    requires
        expired_plan_matches(p, after, now_ms),
    ensures
        p.feed matches FeedMessage::OrderFeed { feed } && {
            &&& feed.market_id == after.market_id
            &&& feed.outcome_id == after.outcome_id
            &&& (feed.side == crate::model::OrderSide::BUY <==> after.side == OrderSide::BUY)
            &&& (feed.side == crate::model::OrderSide::BUY <==> p.base_key@ == book_key(
                after.market_id,
                after.outcome_id,
                "buy"@,
            ))
            &&& (feed.side == crate::model::OrderSide::SELL <==> p.base_key@ == book_key(
                after.market_id,
                after.outcome_id,
                "sell"@,
            ))
            &&& feed.quantity.value() == -after.remaining_shares.value()
            &&& feed.timestamp == now_ms
        },
{
    reveal_strlit("buy");
    reveal_strlit("sell");
    let kb = book_key(after.market_id, after.outcome_id, "buy"@);
    let ks = book_key(after.market_id, after.outcome_id, "sell"@);
    assert(kb.len() != ks.len());
    assert(kb != ks);
    let q = p.quantity_change;
    assert(q.value() == -after.remaining_shares.value()) by (nonlinear_arith)
        requires
            q.mantissa == -after.remaining_shares.mantissa,
            q.scale == after.remaining_shares.scale,
            q.value() == q.mantissa * crate::decimal::pow10((crate::decimal::max_scale() - q.scale) as nat),
            after.remaining_shares.value() == after.remaining_shares.mantissa * crate::decimal::pow10(
                (crate::decimal::max_scale() - after.remaining_shares.scale) as nat,
            ),
    ;
}

/// Orders: a created order is stored; an updated order is stored, and when
/// the update expired it, its remaining shares leave the aggregated book.
pub fn handle_order_event(event: ConsumerEvent<OrderRow>, now_ms: i64) -> (plan: OrderEventPlan)
    requires
        event.after matches Some(a) ==> a.price.wf() && a.remaining_shares.wf(),
    ensures
        plan.store == event.after,
        match (event.op, event.after) {
            (Operation::Update, Some(a)) => if a.status == OrderStatus::EXPIRED {
                plan.expired matches Some(p) && expired_plan_matches(p, a, now_ms)
            } else {
                plan.expired is None
            },
            _ => plan.expired is None,
        },
{
    let expired = match (&event.op, &event.after) {
        (Operation::Update, Some(a)) => {
            if a.status == OrderStatus::EXPIRED {
                let side = match a.side {
                    OrderSide::BUY => "buy",
                    OrderSide::SELL => "sell",
                };
                let base_key = book_key_text(a.market_id, a.outcome_id, side);
                let qty_key = base_key.clone().concat(":qty");
                let price = dec_normalize(&a.price);
                let price_field = decimal_text(&price);
                let quantity_change = dec_neg(&a.remaining_shares);
                let timestamp_key = String::from_str("orderbook:").concat(
                    uuid_text(a.market_id).as_str(),
                ).concat(":timestamp");
                let feed = FeedMessage::OrderFeed {
                    feed: OrderFeed {
                        market_id: a.market_id,
                        outcome_id: a.outcome_id,
                        side: match a.side {
                            OrderSide::BUY => crate::model::OrderSide::BUY,
                            OrderSide::SELL => crate::model::OrderSide::SELL,
                        },
                        quantity: quantity_change,
                        price,
                        timestamp: now_ms,
                    },
                };
                Some(ExpiredOrderPlan { base_key, qty_key, price_field, quantity_change, timestamp_key, feed })
            } else {
                None
            }
        },
        _ => None,
    };
    OrderEventPlan { store: event.after, expired }
}

} // verus!
