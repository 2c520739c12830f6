//! The platform's domain records. Identifiers are UUIDs held as their 128-bit
//! value, instants are nanoseconds since the Unix epoch, and quantities are
//! [`Dec`] values.
use crate::decimal::Dec;
use vstd::prelude::*;

pub mod user;

verus! {

/// Nanoseconds since 1970-01-01T00:00:00Z.
pub type Instant = i128;

/// The instant `secs` seconds and `nanos` nanoseconds after the epoch.
pub open spec fn instant_of(secs: i64, nanos: u32) -> int {
    secs * 1_000_000_000 + nanos
}

pub fn instant_from_parts(secs: i64, nanos: u32) -> (t: Instant)
    requires
        nanos < 2_000_000_000,
    ensures
        t == instant_of(secs, nanos),
{
    secs as i128 * 1_000_000_000 + nanos as i128
}

#[derive(Clone, Copy, Debug, PartialEq, Eq, Structural)]
pub enum MarketStatus {
    PENDING,
    ACTIVE,
    CLOSED,
    RESOLVED,
    CANCELLED,
}

#[derive(Clone, Copy, Debug, PartialEq, Eq, Structural)]
pub enum OrderSide {
    BUY,
    SELL,
}

#[derive(Clone, Copy, Debug, PartialEq, Eq, Structural)]
pub enum OrderType {
    LIMIT,
    MARKET,
}

#[derive(Clone, Copy, Debug, PartialEq, Eq, Structural)]
pub enum OrderStatus {
    PENDING,
    PARTIAL,
    FILLED,
    CANCELLED,
    EXPIRED,
}

#[derive(Clone, Copy, Debug, PartialEq, Eq, Structural)]
pub enum TransactionType {
    DEPOSIT,
    WITHDRAW,
    BUY,
    SELL,
    REFUND,
    PAYOUT,
}

/// An order as the matching engine sees it. A limit order carries a price
/// and a share count; a market buy carries the amount it may spend in
/// `quote_amount`, a market sell the shares it offers.
#[derive(Clone, Copy, Debug)]
pub struct Order {
    pub id: u128,
    pub user_id: u128,
    pub market_id: u128,
    pub outcome_id: u128,
    pub side: OrderSide,
    pub order_type: OrderType,
    pub shares: Dec,
    pub remaining_shares: Dec,
    pub price: Dec,
    pub quote_amount: Dec,
    pub status: OrderStatus,
    pub expires_at: Instant,
    pub created_at: Option<Instant>,
    pub updated_at: Option<Instant>,
}

impl Order {
    /// All quantities are representable decimals.
    pub open spec fn wf(self) -> bool {
        &&& self.shares.wf()
        &&& self.remaining_shares.wf()
        &&& self.price.wf()
        &&& self.quote_amount.wf()
    }

    /// The same order with another remaining share count.
    pub open spec fn with_remaining(self, r: Dec) -> Order {
        Order { remaining_shares: r, ..self }
    }

    /// The same order with another quote amount.
    pub open spec fn with_quote(self, q: Dec) -> Order {
        Order { quote_amount: q, ..self }
    }
}

/// What the matching engine reports for publication, in the order it
/// happened: a trade between two limit orders, a trade of a market order
/// against a resting order, a cancelled order, and a market order that found
/// nothing more to trade against.
#[derive(Clone, Copy, Debug)]
pub enum TradeEvent {
    LimitOrders { buy: Order, sell: Order },
    MarketOrders { market_order: Order, book_order: Order },
    CancelOrder { order: Order },
    CompleteOrder { market_order: Order },
}

pub struct Admin {
    pub id: u128,
    pub name: String,
    pub email: String,
    pub password: String,
    pub created_at: Option<Instant>,
    pub updated_at: Option<Instant>,
}

pub struct Market {
    pub id: u128,
    pub title: String,
    pub description: String,
    pub category: String,
    pub start_at: Instant,
    pub close_at: Instant,
    pub status: MarketStatus,
    pub created_at: Option<Instant>,
    pub updated_at: Option<Instant>,
    pub deleted_at: Option<Instant>,
}

pub struct Outcome {
    pub id: u128,
    pub market_id: u128,
    pub label: String,
    pub start_price: Dec,
    pub current_price: Dec,
    pub total_shares: Dec,
    pub created_at: Option<Instant>,
    pub updated_at: Option<Instant>,
}

pub struct MarketWithOutcomes {
    pub market: Market,
    pub first_outcome: Outcome,
    pub second_outcome: Outcome,
}

pub struct MarketOutcomes {
    pub first_outcome: Outcome,
    pub second_outcome: Outcome,
}

/// Messages to the matching engine: an order to match, an order to cancel,
/// a market to open books for, a market to forget.
pub enum MatcherMessage {
    PlaceOrder { order: Order },
    CancelOrder { order: Order },
    CreateMarket { market: Market, outcomes: MarketOutcomes },
    RemoveMarket { market_id: u128 },
}

pub struct Trade {
    pub id: u128,
    pub market_id: u128,
    pub buy_order_id: u128,
    pub sell_order_id: u128,
    pub shares: Dec,
    pub price: Dec,
    pub created_at: Option<Instant>,
}

pub struct ResolvedMarket {
    pub id: u128,
    pub market_id: u128,
    pub winning_outcome_id: u128,
    pub created_at: Option<Instant>,
}

pub struct User {
    pub id: u128,
    pub name: String,
    pub email: String,
    pub password: String,
    pub picture: Option<String>,
    pub mobile_no: Option<String>,
    pub created_at: Option<Instant>,
    pub updated_at: Option<Instant>,
}

pub struct Wallet {
    pub id: u128,
    pub user_id: u128,
    pub balance: Dec,
    pub locked_balance: Dec,
    pub created_at: Option<Instant>,
    pub updated_at: Option<Instant>,
}

pub struct Transaction {
    pub id: u128,
    pub wallet_id: u128,
    pub transaction_type: TransactionType,
    pub amount: Dec,
    pub created_at: Option<Instant>,
}

pub struct Holding {
    pub id: u128,
    pub user_id: u128,
    pub market_id: u128,
    pub outcome_id: u128,
    pub shares: Dec,
    pub locked_shares: Dec,
    pub created_at: Option<Instant>,
    pub updated_at: Option<Instant>,
}

/// A price level change sent to the subscribers of a market's feed.
#[derive(Clone, Copy, Debug)]
pub struct OrderFeed {
    pub market_id: u128,
    pub outcome_id: u128,
    pub side: OrderSide,
    pub quantity: Dec,
    pub price: Dec,
    pub timestamp: i64,
}

/// Messages of the market feed.
#[derive(Clone, Copy, Debug)]
pub enum FeedMessage {
    OrderFeed { feed: OrderFeed },
    CreateMarket { market_id: u128 },
    RemoveMarket { market_id: u128 },
}

} // verus!
