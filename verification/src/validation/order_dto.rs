//! Requests about orders: placing one and querying a user's orders.
use crate::decimal::{Dec, dec_compare};
use crate::model::{Instant, OrderStatus, OrderType};
use crate::validation::{
    FieldError, Failure, ValidationError, ValidationErrors, custom_check, custom_error,
    custom_outcome, failures_view, finish, order_by_failure, outcome, record_custom, text_is,
    validate_order_by, when_present,
};
use crate::validation::admin_dto::with_schema;
use vstd::prelude::*;

verus! {

/// A quantity must be strictly positive.
pub open spec fn positive_failure(value: Dec) -> Option<Seq<char>> {
    if value.value() <= 0 {
        Some("Balance must be greater than zero"@)
    } else {
        None
    }
}

pub fn validate_positive_decimal(value: &Dec) -> (r: Result<(), ValidationError>)
    requires
        value.wf(),
    ensures
        custom_outcome(r, positive_failure(*value)),
{
    if dec_compare(value, &Dec { mantissa: 0, scale: 0 }) <= 0 {
        return custom_error("Balance must be greater than zero");
    }
    Ok(())
}

pub struct PlaceOrderDTO {
    pub market_id: u128,
    pub outcome_id: u128,
    pub shares: Dec,
    pub price: Dec,
    pub order_type: OrderType,
}

impl PlaceOrderDTO {
    pub open spec fn wf(&self) -> bool {
        self.shares.wf() && self.price.wf()
    }

    pub open spec fn failures(&self) -> Seq<Failure> {
        custom_check(positive_failure(self.shares), "shares"@, Some("Shares must be greater than zero"@))
            + custom_check(positive_failure(self.price), "price"@, Some("Price must be greater than zero"@))
    }

    pub fn validate(&self) -> (r: Result<(), ValidationErrors>)
        requires
            self.wf(),
        ensures
            outcome(r, self.failures()),
    {
        let mut errs: Vec<FieldError> = Vec::new();
        record_custom(
            &mut errs,
            validate_positive_decimal(&self.shares),
            Ghost(positive_failure(self.shares)),
            "shares",
            Some("Shares must be greater than zero"),
        );
        record_custom(
            &mut errs,
            validate_positive_decimal(&self.price),
            Ghost(positive_failure(self.price)),
            "price",
            Some("Price must be greater than zero"),
        );
        assert(failures_view(errs@) =~= self.failures());
        finish(errs)
    }
}

/// The lower bound of a query lies in the past.
pub open spec fn after_failure(after: Instant, now: Instant) -> Option<Seq<char>> {
    if after >= now {
        Some("after must be less than current time"@)
    } else {
        None
    }
}

pub fn validate_after(after: Instant, now: Instant) -> (r: Result<(), ValidationError>)
    ensures
        custom_outcome(r, after_failure(after, now)),
{
    if after >= now {
        return custom_error("after must be less than current time");
    }
    Ok(())
}

/// Orders are sorted by shares, price or creation time.
pub open spec fn order_field_failure(value: Seq<char>) -> Option<Seq<char>> {
    if value == "shares"@ || value == "price"@ || value == "created_at"@ {
        None
    } else {
        Some("Invalid order field. Must be 'shares', 'price' or 'created_at'"@)
    }
}

pub fn validate_order_field(value: &String) -> (r: Result<(), ValidationError>)
    ensures
        custom_outcome(r, order_field_failure(value@)),
{
    if text_is(value, "shares") || text_is(value, "price") || text_is(value, "created_at") {
        Ok(())
    } else {
        custom_error("Invalid order field. Must be 'shares', 'price' or 'created_at'")
    }
}

/// When both bounds are given, `before` comes strictly after `after`.
pub open spec fn before_after_failure(before: Option<Instant>, after: Option<Instant>) -> Option<Seq<char>> {
    match (before, after) {
        (Some(b), Some(a)) => if b <= a {
            Some("before must be greater than after"@)
        } else {
            None
        },
        _ => None,
    }
}

pub fn validate_before_after(dto: &OrderQueryDTO) -> (r: Result<(), ValidationError>)
    ensures
        custom_outcome(r, before_after_failure(dto.before, dto.after)),
{
    match (dto.before, dto.after) {
        (Some(b), Some(a)) => {
            if b <= a {
                return custom_error("before must be greater than after");
            }
        },
        _ => {},
    }
    Ok(())
}

pub struct OrderQueryDTO {
    pub market_id: Option<u128>,
    pub order_type: Option<OrderType>,
    pub status: Option<OrderStatus>,
    pub before: Option<Instant>,
    pub after: Option<Instant>,
    pub order_field: Option<String>,
    pub order_by: Option<String>,
    pub limit: Option<i64>,
    pub skip: Option<i64>,
}

pub open spec fn opt_text(s: Option<String>) -> Option<Seq<char>> {
    match s {
        Some(x) => Some(x@),
        None => None,
    }
}

impl OrderQueryDTO {
    pub open spec fn failures(&self, now: Instant) -> Seq<Failure> {
        with_schema(
            custom_check(when_present(self.after, |a: Instant| after_failure(a, now)), "after"@, None)
                + custom_check(
                when_present(opt_text(self.order_field), |v: Seq<char>| order_field_failure(v)),
                "order_field"@,
                None,
            ) + custom_check(
                when_present(opt_text(self.order_by), |v: Seq<char>| order_by_failure(v)),
                "order_by"@,
                None,
            ),
            before_after_failure(self.before, self.after),
        )
    }

    /// Validates the query at instant `now`.
    pub fn validate(&self, now: Instant) -> (r: Result<(), ValidationErrors>)
        ensures
            outcome(r, self.failures(now)),
    {
        let mut errs: Vec<FieldError> = Vec::new();
        let ghost e = errs@;
        match self.after {
            Some(a) => record_custom(&mut errs, validate_after(a, now), Ghost(after_failure(a, now)), "after", None),
            None => {
                assert(failures_view(errs@) =~= failures_view(e) + custom_check(None, "after"@, None));
            },
        }
        let ghost e1 = errs@;
        match &self.order_field {
            Some(v) => record_custom(
                &mut errs,
                validate_order_field(v),
                Ghost(order_field_failure(v@)),
                "order_field",
                None,
            ),
            None => {
                assert(failures_view(errs@) =~= failures_view(e1) + custom_check(None, "order_field"@, None));
            },
        }
        let ghost e2 = errs@;
        match &self.order_by {
            Some(v) => record_custom(
                &mut errs,
                validate_order_by(v),
                Ghost(order_by_failure(v@)),
                "order_by",
                None,
            ),
            None => {
                assert(failures_view(errs@) =~= failures_view(e2) + custom_check(None, "order_by"@, None));
            },
        }
        if errs.len() == 0 {
            record_custom(
                &mut errs,
                validate_before_after(self),
                Ghost(before_after_failure(self.before, self.after)),
                "__all__",
                None,
            );
        }
        assert(failures_view(errs@) =~= self.failures(now));
        finish(errs)
    }
}

} // verus!
