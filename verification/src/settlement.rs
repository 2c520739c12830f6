//! What a trade between a buy order and a sell order moves: how many shares
//! change hands, what the buyer pays the seller, what part of the buyer's
//! locked funds goes back to the buyer, and which orders are filled by it.
use crate::decimal::{
    Dec, dec_checked_add, dec_checked_mul, dec_checked_sub, dec_compare, decimal_checked_add,
    decimal_checked_mul, decimal_checked_sub, representable, aligned_fit, lemma_pow10_add,
    max_mantissa, max_scale, pow10,
};
use crate::model::{Order, OrderStatus};
use vstd::prelude::*;

verus! {

/// The shares a trade moves: the smaller of the two remaining counts, the
/// sell order's when they are equal.
pub open spec fn traded_shares(buy: Order, sell: Order) -> Dec {
    if sell.remaining_shares.value() <= buy.remaining_shares.value() {
        sell.remaining_shares
    } else {
        buy.remaining_shares
    }
}

/// The status an order takes after `traded` of its `remaining` shares are
/// traded: filled when nothing remains, partially filled otherwise.
pub open spec fn status_after(remaining: Dec, traded: Dec) -> OrderStatus {
    if remaining.value() == traded.value() {
        OrderStatus::FILLED
    } else {
        OrderStatus::PARTIAL
    }
}

/// The money and shares a trade moves.
#[derive(Clone, Copy, Debug, PartialEq, Eq)]
pub struct TradeSettlement {
    pub market_id: u128,
    pub outcome_id: u128,
    pub buy_order_id: u128,
    pub sell_order_id: u128,
    pub buyer_id: u128,
    pub seller_id: u128,
    /// Shares credited to the buyer and released from the seller's lock.
    pub shares: Dec,
    /// The trade price: the resting sell order's price.
    pub price: Dec,
    /// What the buyer pays and the seller receives: price times shares.
    pub total_cost: Dec,
    /// What goes back to the buyer: the difference of the two prices, times
    /// the shares.
    pub buyer_refund: Dec,
    /// What leaves the buyer's locked balance: cost plus refund.
    pub buyer_unlock: Dec,
    pub buy_status: OrderStatus,
    pub sell_status: OrderStatus,
}

/// The settlement of a trade between `buy` and `sell`, computed with
/// `rust_decimal`'s arithmetic; `None` when one of its operations overflows.
pub open spec fn settlement_of(buy: Order, sell: Order) -> Option<TradeSettlement> {
    let shares = traded_shares(buy, sell);
    match representable(
        decimal_checked_mul(sell.price.mantissa, sell.price.scale, shares.mantissa, shares.scale),
    ) {
        None => None,
        Some(cost) => match representable(
            decimal_checked_sub(buy.price.mantissa, buy.price.scale, sell.price.mantissa, sell.price.scale),
        ) {
            None => None,
            Some(diff) => match representable(
                decimal_checked_mul(diff.mantissa, diff.scale, shares.mantissa, shares.scale),
            ) {
                None => None,
                Some(refund) => match representable(
                    decimal_checked_add(cost.mantissa, cost.scale, refund.mantissa, refund.scale),
                ) {
                    None => None,
                    Some(unlock) => Some(
                        TradeSettlement {
                            market_id: buy.market_id,
                            outcome_id: buy.outcome_id,
                            buy_order_id: buy.id,
                            sell_order_id: sell.id,
                            buyer_id: buy.user_id,
                            seller_id: sell.user_id,
                            shares,
                            price: sell.price,
                            total_cost: cost,
                            buyer_refund: refund,
                            buyer_unlock: unlock,
                            buy_status: status_after(buy.remaining_shares, shares),
                            sell_status: status_after(sell.remaining_shares, shares),
                        },
                    ),
                },
            },
        },
    }
}

/// The product of the mantissas fits in 96 bits and the scales add up to at
/// most 28, so that `rust_decimal` multiplies without rounding.
pub open spec fn mul_fits(a: Dec, b: Dec) -> bool {
    &&& -max_mantissa() <= a.mantissa * b.mantissa <= max_mantissa()
    &&& a.scale + b.scale <= max_scale()
}

proof fn lemma_exact_product(a: Dec, b: Dec, c: Dec)
    requires
        a.scale + b.scale <= max_scale(),
        c.value() == a.mantissa * b.mantissa * pow10((max_scale() - a.scale - b.scale) as nat),
    ensures
        c.value() * pow10(max_scale()) == a.value() * b.value(),
{
    let x = (max_scale() - a.scale - b.scale) as nat;
    let pa = pow10((max_scale() - a.scale) as nat);
    let pb = pow10((max_scale() - b.scale) as nat);
    lemma_pow10_add(x, max_scale());
    lemma_pow10_add((max_scale() - a.scale) as nat, (max_scale() - b.scale) as nat);
    assert(x + max_scale() == (max_scale() - a.scale) as nat + (max_scale() - b.scale) as nat);
    let am = a.mantissa as int;
    let bm = b.mantissa as int;
    let px = pow10(x);
    let p28 = pow10(max_scale());
    assert(am * bm * px * p28 == (am * pa) * (bm * pb)) by (nonlinear_arith)
        requires
            px * p28 == pa * pb,
    ;
}

fn checked_mul(a: &Dec, b: &Dec) -> (r: Option<Dec>)
    requires
        a.wf(),
        b.wf(),
    ensures
        r == representable(decimal_checked_mul(a.mantissa, a.scale, b.mantissa, b.scale)),
        r matches Some(x) ==> x.wf(),
        mul_fits(*a, *b) ==> r is Some && r->0.value() * pow10(max_scale()) == a.value() * b.value(),
{
    let r = dec_checked_mul(a, b);
    proof {
        if mul_fits(*a, *b) {
            lemma_exact_product(*a, *b, r->0);
        }
    }
    r
}

fn checked_sub(a: &Dec, b: &Dec) -> (r: Option<Dec>)
    requires
        a.wf(),
        b.wf(),
    ensures
        r == representable(decimal_checked_sub(a.mantissa, a.scale, b.mantissa, b.scale)),
        r matches Some(x) ==> x.wf(),
{
    dec_checked_sub(a, b)
}

fn checked_add(a: &Dec, b: &Dec) -> (r: Option<Dec>)
    requires
        a.wf(),
        b.wf(),
    ensures
        r == representable(decimal_checked_add(a.mantissa, a.scale, b.mantissa, b.scale)),
        r matches Some(x) ==> x.wf(),
        aligned_fit(*a, *b, a.value() + b.value()) ==> r is Some && r->0.value() == a.value()
            + b.value(),
{
    dec_checked_add(a, b)
}

fn status_for(remaining: &Dec, traded: &Dec) -> (s: OrderStatus)
    requires
        remaining.wf(),
        traded.wf(),
    ensures
        s == status_after(*remaining, *traded),
{
    if dec_compare(remaining, traded) == 0 {
        OrderStatus::FILLED
    } else {
        OrderStatus::PARTIAL
    }
}

/// Settles a trade of a buy order against a sell order: the shares are the
/// smaller remaining count (the seller's on a tie), the price is the
/// seller's, the buyer pays price times shares to the seller and gets back
/// the price difference times shares from its locked funds. `None` when the
/// arithmetic overflows. What the buyer pays is exactly price times shares
/// whenever that product is computed without rounding, and what leaves the
/// buyer's lock is what the seller receives plus what returns to the buyer
/// whenever that sum is.
pub fn settle_trade(buy: &Order, sell: &Order) -> (r: Option<TradeSettlement>)
    requires
        buy.wf(),
        sell.wf(),
    ensures
        r == settlement_of(*buy, *sell),
        r matches Some(s) ==> (aligned_fit(s.total_cost, s.buyer_refund, s.total_cost.value()
            + s.buyer_refund.value()) ==> s.buyer_unlock.value() == s.total_cost.value()
            + s.buyer_refund.value()),
        r matches Some(s) ==> (mul_fits(sell.price, s.shares) ==> s.total_cost.value() * pow10(
            max_scale(),
        ) == sell.price.value() * s.shares.value()),
{
    let shares = if dec_compare(&sell.remaining_shares, &buy.remaining_shares) <= 0 {
        sell.remaining_shares
    } else {
        buy.remaining_shares
    };
    let cost = match checked_mul(&sell.price, &shares) {
        Some(c) => c,
        None => return None,
    };
    let diff = match checked_sub(&buy.price, &sell.price) {
        Some(d) => d,
        None => return None,
    };
    let refund = match checked_mul(&diff, &shares) {
        Some(x) => x,
        None => return None,
    };
    let unlock = match checked_add(&cost, &refund) {
        Some(u) => u,
        None => return None,
    };
    Some(
        TradeSettlement {
            market_id: buy.market_id,
            outcome_id: buy.outcome_id,
            buy_order_id: buy.id,
            sell_order_id: sell.id,
            buyer_id: buy.user_id,
            seller_id: sell.user_id,
            shares,
            price: sell.price,
            total_cost: cost,
            buyer_refund: refund,
            buyer_unlock: unlock,
            buy_status: status_for(&buy.remaining_shares, &shares),
            sell_status: status_for(&sell.remaining_shares, &shares),
        },
    )
}

/// A trade never moves more shares than either order has left, moves all
/// that one of them has left, and so fills at least one of the two orders.
pub proof fn law_trade_fills_one_side(buy: Order, sell: Order)
    requires
        settlement_of(buy, sell) is Some,
    ensures
        ({
            let s = settlement_of(buy, sell)->0;
            &&& s.shares.value() <= buy.remaining_shares.value()
            &&& s.shares.value() <= sell.remaining_shares.value()
            &&& (s.buy_status == OrderStatus::FILLED || s.sell_status == OrderStatus::FILLED)
            &&& (s.buy_status == OrderStatus::FILLED <==> s.shares.value()
                == buy.remaining_shares.value())
            &&& (s.sell_status == OrderStatus::FILLED <==> s.shares.value()
                == sell.remaining_shares.value())
        }),
{
}

/// `rust_decimal`'s product of `a` and `b`, when representable, is exact.
pub open spec fn mul_exact(a: Dec, b: Dec) -> bool {
    representable(decimal_checked_mul(a.mantissa, a.scale, b.mantissa, b.scale)) matches Some(c)
        ==> c.value() * pow10(max_scale()) == a.value() * b.value()
}

/// `rust_decimal`'s difference of `a` and `b`, when representable, is exact.
pub open spec fn diff_exact(a: Dec, b: Dec) -> bool {
    representable(decimal_checked_sub(a.mantissa, a.scale, b.mantissa, b.scale)) matches Some(c)
        ==> c.value() == a.value() - b.value()
}

/// `rust_decimal`'s sum of `a` and `b`, when representable, is exact.
pub open spec fn sum_exact(a: Dec, b: Dec) -> bool {
    representable(decimal_checked_add(a.mantissa, a.scale, b.mantissa, b.scale)) matches Some(c)
        ==> c.value() == a.value() + b.value()
}

/// What a trade costs and gives back is computed from the traded shares:
/// the cost is the sell price times the traded shares, the refund the
/// difference of the buy and sell prices times the traded shares (each with
/// `rust_decimal`), and what leaves the buyer's lock is cost plus refund.
/// Whenever these operations are exact, the cost is `sell.price * shares`,
/// the refund `(buy.price - sell.price) * shares`, and what leaves the
/// buyer's lock is `buy.price * shares`: the buyer is charged its own price
/// for exactly the shares it bought, no more.
pub proof fn law_trade_money(buy: Order, sell: Order)
    requires
        settlement_of(buy, sell) is Some,
    ensures
        ({
            let s = settlement_of(buy, sell)->0;
            let gap = representable(
                decimal_checked_sub(buy.price.mantissa, buy.price.scale, sell.price.mantissa, sell.price.scale),
            );
            let p28 = pow10(max_scale());
            &&& s.shares == traded_shares(buy, sell)
            &&& representable(
                decimal_checked_mul(sell.price.mantissa, sell.price.scale, s.shares.mantissa, s.shares.scale),
            ) == Some(s.total_cost)
            &&& gap matches Some(g) && representable(
                decimal_checked_mul(g.mantissa, g.scale, s.shares.mantissa, s.shares.scale),
            ) == Some(s.buyer_refund)
            &&& representable(
                decimal_checked_add(
                    s.total_cost.mantissa,
                    s.total_cost.scale,
                    s.buyer_refund.mantissa,
                    s.buyer_refund.scale,
                ),
            ) == Some(s.buyer_unlock)
            &&& mul_exact(sell.price, s.shares) ==> s.total_cost.value() * p28 == sell.price.value()
                * s.shares.value()
            &&& (diff_exact(buy.price, sell.price) && mul_exact(gap->0, s.shares))
                ==> s.buyer_refund.value() * p28 == (buy.price.value() - sell.price.value())
                * s.shares.value()
            &&& (mul_exact(sell.price, s.shares) && diff_exact(buy.price, sell.price) && mul_exact(
                gap->0,
                s.shares,
            ) && sum_exact(s.total_cost, s.buyer_refund)) ==> s.buyer_unlock.value() * p28
                == buy.price.value() * s.shares.value()
        }),
{
    let s = settlement_of(buy, sell)->0;
    let g = representable(
        decimal_checked_sub(buy.price.mantissa, buy.price.scale, sell.price.mantissa, sell.price.scale),
    )->0;
    let p28 = pow10(max_scale());
    if mul_exact(sell.price, s.shares) && diff_exact(buy.price, sell.price) && mul_exact(g, s.shares)
        && sum_exact(s.total_cost, s.buyer_refund) {
        let c = s.total_cost.value();
        let f = s.buyer_refund.value();
        let u = s.buyer_unlock.value();
        let bp = buy.price.value();
        let sp = sell.price.value();
        let sh = s.shares.value();
        assert(u * p28 == bp * sh) by (nonlinear_arith)
            requires
                u == c + f,
                c * p28 == sp * sh,
                f * p28 == (bp - sp) * sh,
        ;
    }
}

} // verus!
