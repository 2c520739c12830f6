//! Decisions of the market service: which markets may be resolved, how a
//! listing request becomes a query, where a market and its order book are
//! cached, and what listing the initial sell orders of a new market makes.
use crate::cdc::book_key;
use crate::decimal::{Dec, dec_checked_mul, decimal_checked_mul, representable};
use crate::error::{BAD_REQUEST, ErrorMessage, HttpError, NOT_FOUND};
use crate::model::{Instant, Market, MarketStatus, Order, Outcome};
use crate::text::{
    dec_normalize, decimal_normalize, decimal_text, decimal_text_of, number_text, u64_text,
    uuid_text, uuid_text_of,
};
use crate::validation::market_dto::MarketQueryDTO;
use vstd::prelude::*;
use vstd::string::StringExecFns;

verus! {

/// A market can be resolved once it is active or closed and its closing
/// time has passed.
pub open spec fn resolvable(m: Market, now: Instant) -> bool {
    (m.status == MarketStatus::ACTIVE || m.status == MarketStatus::CLOSED) && m.close_at <= now
}

/// Resolution of a market at `now`: an unknown market is not found; one that
/// is neither active nor closed, or closes after `now`, is refused as not
/// closed.
pub fn check_resolvable(market: Option<&Market>, now: Instant) -> (r: Result<(), HttpError>)
    ensures
        match market {
            None => r matches Err(e) && e.status == NOT_FOUND && e.message@
                == ErrorMessage::MarketNotFound.text(),
            Some(m) => if resolvable(*m, now) {
                r is Ok
            } else {
                r matches Err(e) && e.status == BAD_REQUEST && e.message@
                    == ErrorMessage::MarketIsNotClosed.text()
            },
        },
{
    let m = match market {
        Some(m) => m,
        None => return Err(HttpError::not_found(ErrorMessage::MarketNotFound.to_str())),
    };
    if (m.status != MarketStatus::ACTIVE && m.status != MarketStatus::CLOSED) || m.close_at > now {
        return Err(HttpError::bad_request(ErrorMessage::MarketIsNotClosed.to_str()));
    }
    Ok(())
}

/// The winning outcome must belong to the market.
pub fn check_outcome_found(found: bool) -> (r: Result<(), HttpError>)
    ensures
        found <==> r is Ok,
        r matches Err(e) ==> e.status == NOT_FOUND && e.message@
            == ErrorMessage::OutcomeNotFound.text(),
{
    if found {
        Ok(())
    } else {
        Err(HttpError::not_found(ErrorMessage::OutcomeNotFound.to_str()))
    }
}

/// The parameters of a market listing, defaults filled in.
pub struct ListingQuery {
    pub status: MarketStatus,
    pub category: Option<String>,
    pub start_after: Option<Instant>,
    pub start_before: Option<Instant>,
    pub close_after: Option<Instant>,
    pub close_before: Option<Instant>,
    /// `<field> <direction>`.
    pub order_by: String,
    pub limit: i64,
    pub skip: i64,
}

pub open spec fn or_default(s: Option<String>, d: Seq<char>) -> Seq<char> {
    match s {
        Some(x) => x@,
        None => d,
    }
}

/// A listing request with its defaults: active markets, ten of them from the
/// first, newest first (`created_at DESC`).
pub fn listing_query(q: MarketQueryDTO) -> (r: ListingQuery)
    ensures
        r.status == (match q.status {
            Some(s) => s,
            None => MarketStatus::ACTIVE,
        }),
        r.limit == (match q.limit {
            Some(l) => l,
            None => 10,
        }),
        r.skip == (match q.skip {
            Some(s) => s,
            None => 0,
        }),
        r.order_by@ == or_default(q.order_field, "created_at"@) + " "@ + or_default(
            q.order_by,
            "DESC"@,
        ),
        r.category == q.category,
        r.start_after == q.start_after,
        r.start_before == q.start_before,
        r.close_after == q.close_after,
        r.close_before == q.close_before,
{
    let status = match q.status {
        Some(s) => s,
        None => MarketStatus::ACTIVE,
    };
    let limit = match q.limit {
        Some(l) => l,
        None => 10,
    };
    let skip = match q.skip {
        Some(s) => s,
        None => 0,
    };
    let field = match q.order_field {
        Some(f) => f,
        None => String::from_str("created_at"),
    };
    let direction = match q.order_by {
        Some(d) => d,
        None => String::from_str("DESC"),
    };
    let order_by = field.concat(" ").concat(direction.as_str());
    ListingQuery {
        status,
        category: q.category,
        start_after: q.start_after,
        start_before: q.start_before,
        close_after: q.close_after,
        close_before: q.close_before,
        order_by,
        limit,
        skip,
    }
}

pub open spec fn count(b: bool) -> nat {
    if b {
        1
    } else {
        0
    }
}

/// ` AND <condition> $<index>` when the filter is given, nothing otherwise.
pub open spec fn filter_clause(given: bool, condition: Seq<char>, index: nat) -> Seq<char> {
    if given {
        " AND "@ + condition + " $"@ + number_text(index as u64)
    } else {
        ""@
    }
}

pub open spec fn markets_base_query() -> Seq<char> {
    "SELECT id, title, description, category, start_at, close_at, status, created_at, updated_at, deleted_at\n        FROM market\n        WHERE deleted_at IS NULL AND status = $1"@
}

/// The listing query: the status is parameter 1, each given filter takes the
/// next parameter in the order category, start after, start before, close
/// after, close before; limit and offset take the two after them.
pub open spec fn markets_query(q: ListingQuery) -> Seq<char> {
    let c = q.category is Some;
    let sa = q.start_after is Some;
    let sb = q.start_before is Some;
    let ca = q.close_after is Some;
    let cb = q.close_before is Some;
    let i1: nat = 2;
    let i2: nat = i1 + count(c);
    let i3: nat = i2 + count(sa);
    let i4: nat = i3 + count(sb);
    let i5: nat = i4 + count(ca);
    let i6: nat = i5 + count(cb);
    markets_base_query() + filter_clause(c, "category ="@, i1) + filter_clause(
        sa,
        "start_at >="@,
        i2,
    ) + filter_clause(sb, "start_at <="@, i3) + filter_clause(ca, "close_at >="@, i4)
        + filter_clause(cb, "close_at <="@, i5) + " ORDER BY "@ + q.order_by@ + " LIMIT $"@
        + number_text(i6 as u64) + " OFFSET $"@ + number_text((i6 + 1) as u64)
}

fn push_filter(query: String, given: bool, condition: &str, index: u64) -> (r: (String, u64))
    requires
        index < 100,
    ensures
        r.0@ == query@ + filter_clause(given, condition@, index as nat),
        r.1 == index + count(given),
{
    if given {
        (query.concat(" AND ").concat(condition).concat(" $").concat(u64_text(index).as_str()), index + 1)
    } else {
        proof {
            reveal_strlit("");
            assert(query@ + ""@ =~= query@);
        }
        (query, index)
    }
}

/// Builds the text of the listing query.
pub fn markets_query_text(q: &ListingQuery) -> (r: String)
    ensures
        r@ == markets_query(*q),
{
    let query = String::from_str(
        "SELECT id, title, description, category, start_at, close_at, status, created_at, updated_at, deleted_at\n        FROM market\n        WHERE deleted_at IS NULL AND status = $1",
    );
    let (query, i) = push_filter(query, q.category.is_some(), "category =", 2);
    let (query, i) = push_filter(query, q.start_after.is_some(), "start_at >=", i);
    let (query, i) = push_filter(query, q.start_before.is_some(), "start_at <=", i);
    let (query, i) = push_filter(query, q.close_after.is_some(), "close_at >=", i);
    let (query, i) = push_filter(query, q.close_before.is_some(), "close_at <=", i);
    query.concat(" ORDER BY ").concat(q.order_by.as_str()).concat(" LIMIT $").concat(
        u64_text(i).as_str(),
    ).concat(" OFFSET $").concat(u64_text(i + 1).as_str())
}

/// `market:{id}`, where a market's details are cached.
pub fn market_cache_key(id: u128) -> (r: String)
    ensures
        r@ == "market:"@ + uuid_text_of(id),
{
    String::from_str("market:").concat(uuid_text(id).as_str())
}

/// The four keys of an outcome's aggregated order book.
pub struct BookKeys {
    pub buy_key: String,
    pub sell_key: String,
    pub buy_qty_key: String,
    pub sell_qty_key: String,
}

pub fn book_keys(market_id: u128, outcome_id: u128) -> (r: BookKeys)
    ensures
        r.buy_key@ == book_key(market_id, outcome_id, "buy"@),
        r.sell_key@ == book_key(market_id, outcome_id, "sell"@),
        r.buy_qty_key@ == book_key(market_id, outcome_id, "buy"@) + ":qty"@,
        r.sell_qty_key@ == book_key(market_id, outcome_id, "sell"@) + ":qty"@,
{
    let m = uuid_text(market_id);
    let o = uuid_text(outcome_id);
    let base = String::from_str("orderbook:").concat(m.as_str()).concat(":").concat(o.as_str()).concat(":");
    let buy_key = base.clone().concat("buy");
    let sell_key = base.concat("sell");
    let buy_qty_key = buy_key.clone().concat(":qty");
    let sell_qty_key = sell_key.clone().concat(":qty");
    BookKeys { buy_key, sell_key, buy_qty_key, sell_qty_key }
}

/// What an initial sell order adds to the aggregated book: its shares at its
/// normalized price, on the sell side.
pub struct ListingEntry {
    pub book_key: String,
    pub qty_key: String,
    /// The price's text, trailing zeros dropped: the field and the member.
    pub price_field: String,
    pub price: Dec,
    pub shares: Dec,
}

pub fn listing_entry(order: &Order) -> (r: ListingEntry)
    requires
        order.price.wf(),
    ensures
        ({
            let n = decimal_normalize(order.price.mantissa, order.price.scale);
            &&& r.book_key@ == book_key(order.market_id, order.outcome_id, "sell"@)
            &&& r.qty_key@ == book_key(order.market_id, order.outcome_id, "sell"@) + ":qty"@
            &&& r.price_field@ == decimal_text_of(n.0, n.1)
            &&& r.price == Dec { mantissa: n.0, scale: n.1 }
            &&& r.shares == order.shares
        }),
{
    let keys = book_keys(order.market_id, order.outcome_id);
    let price = dec_normalize(&order.price);
    let price_field = decimal_text(&price);
    ListingEntry {
        book_key: keys.sell_key,
        qty_key: keys.sell_qty_key,
        price_field,
        price,
        shares: order.shares,
    }
}

/// What listing an outcome costs its creator: all its shares at the
/// starting price (`total_shares * start_price` with `rust_decimal`'s
/// multiplication; `None` where that overflows).
pub fn listing_cost(outcome: &Outcome) -> (r: Option<Dec>)
    requires
        outcome.total_shares.wf(),
        outcome.start_price.wf(),
    ensures
        r == representable(
            decimal_checked_mul(
                outcome.total_shares.mantissa,
                outcome.total_shares.scale,
                outcome.start_price.mantissa,
                outcome.start_price.scale,
            ),
        ),
{
    dec_checked_mul(&outcome.total_shares, &outcome.start_price)
}

} // verus!
