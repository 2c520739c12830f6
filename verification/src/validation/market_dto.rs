//! Requests of the market service: listing markets, creating and updating
//! one.
use crate::model::{Instant, MarketStatus};
use crate::validation::{
    FieldError, Failure, ValidationError, ValidationErrors, check, custom_check, custom_error,
    custom_outcome, failures_view, finish, has_min_length, in_range, nested, outcome, record,
    record_custom, record_nested, text_is, validate_order_by, order_by_failure,
};
use crate::validation::admin_dto::{market_text_failures, with_schema};
pub use crate::validation::admin_dto::{CreateOutcomeDTO, validate_start_price, validate_total_shares};
use crate::validation::user_dto::listing_failures;
use vstd::prelude::*;

verus! {

/// Markets are sorted by opening, closing or creation time.
pub open spec fn market_order_field_failure(value: Seq<char>) -> Option<Seq<char>> {
    if value == "start_at"@ || value == "close_at"@ || value == "created_at"@ {
        None
    } else {
        Some("Invalid order field. Must be 'start_at', 'close_at' or 'created_at'"@)
    }
}

pub fn validate_market_order_field(value: &String) -> (r: Result<(), ValidationError>)
    ensures
        custom_outcome(r, market_order_field_failure(value@)),
{
    if text_is(value, "start_at") || text_is(value, "close_at") || text_is(value, "created_at") {
        Ok(())
    } else {
        custom_error("Invalid order field. Must be 'start_at', 'close_at' or 'created_at'")
    }
}

pub struct MarketQueryDTO {
    pub order_field: Option<String>,
    pub order_by: Option<String>,
    pub status: Option<MarketStatus>,
    pub category: Option<String>,
    pub start_after: Option<Instant>,
    pub start_before: Option<Instant>,
    pub close_after: Option<Instant>,
    pub close_before: Option<Instant>,
    pub limit: Option<i64>,
    pub skip: Option<i64>,
}

impl MarketQueryDTO {
    pub open spec fn failures(&self) -> Seq<Failure> {
        listing_failures(
            self.order_field,
            |v: Seq<char>| market_order_field_failure(v),
            self.order_by,
            self.limit,
            self.skip,
        )
    }

    pub fn validate(&self) -> (r: Result<(), ValidationErrors>)
        ensures
            outcome(r, self.failures()),
    {
        let mut errs: Vec<FieldError> = Vec::new();
        let ghost e0 = errs@;
        match &self.order_field {
            Some(v) => record_custom(
                &mut errs,
                validate_market_order_field(v),
                Ghost(market_order_field_failure(v@)),
                "order_field",
                None,
            ),
            None => {
                assert(failures_view(errs@) =~= failures_view(e0) + custom_check(None, "order_field"@, None));
            },
        }
        let ghost e1 = errs@;
        match &self.order_by {
            Some(v) => record_custom(&mut errs, validate_order_by(v), Ghost(order_by_failure(v@)), "order_by", None),
            None => {
                assert(failures_view(errs@) =~= failures_view(e1) + custom_check(None, "order_by"@, None));
            },
        }
        record(&mut errs, in_range(self.limit, 1), "limit", "range", None);
        record(&mut errs, in_range(self.skip, 0), "skip", "range", None);
        assert(failures_view(errs@) =~= self.failures());
        finish(errs)
    }
}

/// A new market opens strictly in the future and strictly before it closes.
pub open spec fn create_dates_failure(start_at: Instant, close_at: Instant, now: Instant) -> Option<Seq<char>> {
    if start_at <= now {
        Some("start_at must be greater than the current time"@)
    } else if start_at >= close_at {
        Some("start_at must be less than close_at"@)
    } else {
        None
    }
}

/// A new market's dates are accepted exactly when it opens strictly after
/// `now` and strictly before it closes. Opening at or before `now` is refused
/// as such; otherwise opening at or after the closing is refused as such.
pub proof fn law_create_dates(start_at: Instant, close_at: Instant, now: Instant)
    ensures
        create_dates_failure(start_at, close_at, now) is None <==> now < start_at && start_at < close_at,
        start_at <= now ==> create_dates_failure(start_at, close_at, now) == Some(
            "start_at must be greater than the current time"@,
        ),
        now < start_at && close_at <= start_at ==> create_dates_failure(start_at, close_at, now)
            == Some("start_at must be less than close_at"@),
{
}

/// An update's dates are accepted exactly when a new opening, if given, is
/// strictly after `now` and, when a closing is given too, strictly before
/// it.
pub proof fn law_update_dates(start_at: Option<Instant>, close_at: Option<Instant>, now: Instant)
    ensures
        update_dates_failure(start_at, close_at, now) is None <==> (start_at is Some ==> now
            < start_at->0 && (close_at is Some ==> start_at->0 < close_at->0)),
        start_at is Some && start_at->0 <= now ==> update_dates_failure(start_at, close_at, now)
            == Some("start_at must be greater than the current time"@),
        start_at is Some && now < start_at->0 && close_at is Some && close_at->0 <= start_at->0
            ==> update_dates_failure(start_at, close_at, now) == Some(
            "start_at must be less than close_at"@,
        ),
{
}

pub fn validate_market_dates_create(dto: &CreateMarketDTO, now: Instant) -> (r: Result<(), ValidationError>)
    ensures
        custom_outcome(r, create_dates_failure(dto.start_at, dto.close_at, now)),
{
    if dto.start_at <= now {
        return custom_error("start_at must be greater than the current time");
    }
    if dto.start_at >= dto.close_at {
        return custom_error("start_at must be less than close_at");
    }
    Ok(())
}

/// An update moves the opening, when given, strictly into the future, and
/// keeps it strictly before the closing when both are given.
pub open spec fn update_dates_failure(start_at: Option<Instant>, close_at: Option<Instant>, now: Instant) -> Option<Seq<char>> {
    match start_at {
        Some(s) => if s <= now {
            Some("start_at must be greater than the current time"@)
        } else {
            match close_at {
                Some(c) => if s >= c {
                    Some("start_at must be less than close_at"@)
                } else {
                    None
                },
                None => None,
            }
        },
        None => None,
    }
}

pub fn validate_market_dates_update(dto: &UpdateMarketDTO, now: Instant) -> (r: Result<(), ValidationError>)
    ensures
        custom_outcome(r, update_dates_failure(dto.start_at, dto.close_at, now)),
{
    if let Some(start_at) = dto.start_at {
        if start_at <= now {
            return custom_error("start_at must be greater than the current time");
        }
    }
    match (dto.start_at, dto.close_at) {
        (Some(start_at), Some(close_at)) => {
            if start_at >= close_at {
                return custom_error("start_at must be less than close_at");
            }
        },
        _ => {},
    }
    Ok(())
}

pub struct CreateMarketDTO {
    pub title: String,
    pub desciption: String,
    pub category: String,
    pub start_at: Instant,
    pub close_at: Instant,
    pub first_outcome: CreateOutcomeDTO,
    pub second_outcome: CreateOutcomeDTO,
}

impl CreateMarketDTO {
    pub open spec fn wf(&self) -> bool {
        self.first_outcome.wf() && self.second_outcome.wf()
    }

    pub open spec fn failures(&self, now: Instant) -> Seq<Failure> {
        with_schema(
            market_text_failures(self.title@, self.desciption@, self.category@) + nested(
                "first_outcome"@,
                self.first_outcome.failures(),
            ) + nested("second_outcome"@, self.second_outcome.failures()),
            create_dates_failure(self.start_at, self.close_at, now),
        )
    }

    /// Validates the request at instant `now`.
    pub fn validate(&self, now: Instant) -> (r: Result<(), ValidationErrors>)
        requires
            self.wf(),
        ensures
            outcome(r, self.failures(now)),
    {
        let mut errs: Vec<FieldError> = Vec::new();
        record(&mut errs, has_min_length(&self.title, 1), "title", "length", Some("Title is required"));
        record(&mut errs, has_min_length(&self.desciption, 1), "desciption", "length", Some("Description is required"));
        record(&mut errs, has_min_length(&self.category, 1), "category", "length", Some("Category is required"));
        let ghost e0 = errs@;
        assert(failures_view(e0) =~= market_text_failures(self.title@, self.desciption@, self.category@));
        let first = self.first_outcome.validate();
        match first {
            Ok(_) => {
                assert(failures_view(errs@) =~= failures_view(e0) + nested("first_outcome"@, Seq::empty()));
            },
            Err(e) => record_nested(&mut errs, e.errors, "first_outcome"),
        }
        let ghost e1 = errs@;
        let second = self.second_outcome.validate();
        match second {
            Ok(_) => {
                assert(failures_view(errs@) =~= failures_view(e1) + nested("second_outcome"@, Seq::empty()));
            },
            Err(e) => record_nested(&mut errs, e.errors, "second_outcome"),
        }
        if errs.len() == 0 {
            record_custom(
                &mut errs,
                validate_market_dates_create(self, now),
                Ghost(create_dates_failure(self.start_at, self.close_at, now)),
                "__all__",
                None,
            );
        }
        assert(failures_view(errs@) =~= self.failures(now));
        finish(errs)
    }
}

/// An optional text, when given, is not empty.
pub open spec fn optional_text_failures(v: Option<String>, field: Seq<char>, message: Seq<char>) -> Seq<Failure> {
    match v {
        Some(t) => check(t@.len() >= 1, field, "length"@, Some(message)),
        None => Seq::empty(),
    }
}

fn record_optional_text(errs: &mut Vec<FieldError>, v: &Option<String>, field: &str, message: &str)
    ensures
        failures_view(final(errs)@) == failures_view(old(errs)@) + optional_text_failures(*v, field@, message@),
{
    match v {
        Some(t) => record(errs, has_min_length(t, 1), field, "length", Some(message)),
        None => {
            assert(failures_view(errs@) =~= failures_view(old(errs)@) + Seq::<Failure>::empty());
        },
    }
}

pub struct UpdateMarketDTO {
    pub title: Option<String>,
    pub desciption: Option<String>,
    pub category: Option<String>,
    pub start_at: Option<Instant>,
    pub close_at: Option<Instant>,
}

impl UpdateMarketDTO {
    pub open spec fn failures(&self, now: Instant) -> Seq<Failure> {
        with_schema(
            optional_text_failures(self.title, "title"@, "Title is required"@) + optional_text_failures(
                self.desciption,
                "desciption"@,
                "Description is required"@,
            ) + optional_text_failures(self.category, "category"@, "Category is required"@),
            update_dates_failure(self.start_at, self.close_at, now),
        )
    }

    /// Validates the request at instant `now`.
    pub fn validate(&self, now: Instant) -> (r: Result<(), ValidationErrors>)
        ensures
            outcome(r, self.failures(now)),
    {
        let mut errs: Vec<FieldError> = Vec::new();
        let ghost e0 = errs@;
        record_optional_text(&mut errs, &self.title, "title", "Title is required");
        record_optional_text(&mut errs, &self.desciption, "desciption", "Description is required");
        record_optional_text(&mut errs, &self.category, "category", "Category is required");
        if errs.len() == 0 {
            record_custom(
                &mut errs,
                validate_market_dates_update(self, now),
                Ghost(update_dates_failure(self.start_at, self.close_at, now)),
                "__all__",
                None,
            );
        }
        assert(failures_view(errs@) =~= self.failures(now));
        finish(errs)
    }
}

} // verus!
