//! Requests of administrators: sign-in, profile update, market creation and
//! update.
use crate::decimal::{Dec, dec_compare, pow10, max_scale};
use crate::model::{Admin, Instant};
use crate::validation::{
    FieldError, Failure, ValidationError, ValidationErrors, check, custom_check, custom_error,
    custom_outcome, failures_view, finish, has_min_length, is_email, nested, outcome, record,
    record_custom, record_nested, valid_email,
};
use vstd::prelude::*;

verus! {

pub struct LoginAdminDTO {
    pub email: String,
    pub password: String,
}

impl LoginAdminDTO {
    pub open spec fn failures(&self) -> Seq<Failure> {
        check(self.email@.len() >= 1, "email"@, "length"@, Some("Email is required"@))
            + check(valid_email(self.email@), "email"@, "email"@, Some("Provide valid email address"@))
            + check(
            self.password@.len() >= 8,
            "password"@,
            "length"@,
            Some("Password must be at least 8 charaters"@),
        )
    }

    pub fn validate(&self) -> (r: Result<(), ValidationErrors>)
        ensures
            outcome(r, self.failures()),
    {
        let mut errs: Vec<FieldError> = Vec::new();
        record(&mut errs, has_min_length(&self.email, 1), "email", "length", Some("Email is required"));
        record(&mut errs, is_email(&self.email), "email", "email", Some("Provide valid email address"));
        record(
            &mut errs,
            has_min_length(&self.password, 8),
            "password",
            "length",
            Some("Password must be at least 8 charaters"),
        );
        assert(failures_view(errs@) =~= self.failures());
        finish(errs)
    }
}

pub struct UpdateAdminDTO {
    pub name: String,
    pub email: String,
}

impl UpdateAdminDTO {
    pub open spec fn failures(&self) -> Seq<Failure> {
        check(self.name@.len() >= 1, "name"@, "length"@, Some("Name is required"@))
            + check(self.email@.len() >= 1, "email"@, "length"@, Some("Email is required"@))
            + check(valid_email(self.email@), "email"@, "email"@, Some("Provide valid email address"@))
    }

    pub fn validate(&self) -> (r: Result<(), ValidationErrors>)
        ensures
            outcome(r, self.failures()),
    {
        let mut errs: Vec<FieldError> = Vec::new();
        record(&mut errs, has_min_length(&self.name, 1), "name", "length", Some("Name is required"));
        record(&mut errs, has_min_length(&self.email, 1), "email", "length", Some("Email is required"));
        record(&mut errs, is_email(&self.email), "email", "email", Some("Provide valid email address"));
        assert(failures_view(errs@) =~= self.failures());
        finish(errs)
    }
}

/// The opening and closing instants of a market: both required, the opening
/// strictly in the future and strictly before the closing.
pub open spec fn market_dates_failure(start_at: Option<Instant>, close_at: Option<Instant>, now: Instant) -> Option<Seq<char>> {
    match (start_at, close_at) {
        (None, _) => Some("start_at is required"@),
        (Some(_), None) => Some("close_at is required"@),
        (Some(s), Some(c)) => if s <= now {
            Some("start_at must be greater than the current time"@)
        } else if s >= c {
            Some("start_at must be less than close_at"@)
        } else {
            None
        },
    }
}

pub fn validate_market_dates(start_at: Option<Instant>, close_at: Option<Instant>, now: Instant) -> (r: Result<(), ValidationError>)
    ensures
        custom_outcome(r, market_dates_failure(start_at, close_at, now)),
{
    let start_at = match start_at {
        Some(s) => s,
        None => return custom_error("start_at is required"),
    };
    let close_at = match close_at {
        Some(c) => c,
        None => return custom_error("close_at is required"),
    };
    if start_at <= now {
        return custom_error("start_at must be greater than the current time");
    }
    if start_at >= close_at {
        return custom_error("start_at must be less than close_at");
    }
    Ok(())
}

/// A start price lies strictly between 0 and 1.
pub open spec fn start_price_failure(value: Dec) -> Option<Seq<char>> {
    if value.value() <= 0 || value.value() >= pow10(max_scale()) {
        Some("Start price must be between 0 and 1"@)
    } else {
        None
    }
}

pub fn validate_start_price(value: &Dec) -> (r: Result<(), ValidationError>)
    requires
        value.wf(),
    ensures
        custom_outcome(r, start_price_failure(*value)),
{
    let zero = Dec { mantissa: 0, scale: 0 };
    let one = Dec { mantissa: 1, scale: 0 };
    if dec_compare(value, &zero) <= 0 || dec_compare(value, &one) >= 0 {
        return custom_error("Start price must be between 0 and 1");
    }
    Ok(())
}

/// A market outcome offers more than 100 shares.
pub open spec fn total_shares_failure(value: Dec) -> Option<Seq<char>> {
    if value.value() <= 100 * pow10(max_scale()) {
        Some("Total Shares must be greater than 100"@)
    } else {
        None
    }
}

pub fn validate_total_shares(value: &Dec) -> (r: Result<(), ValidationError>)
    requires
        value.wf(),
    ensures
        custom_outcome(r, total_shares_failure(*value)),
{
    let hundred = Dec { mantissa: 100, scale: 0 };
    if dec_compare(value, &hundred) <= 0 {
        return custom_error("Total Shares must be greater than 100");
    }
    Ok(())
}

/// Failures of an outcome's label, start price and share count.
pub open spec fn outcome_failures(label: Seq<char>, start_price: Dec, total_shares: Dec) -> Seq<Failure> {
    check(label.len() >= 1, "label"@, "length"@, Some("Label is required"@))
        + custom_check(
        start_price_failure(start_price),
        "start_price"@,
        Some("Start price must be between 0 and 1"@),
    ) + custom_check(
        total_shares_failure(total_shares),
        "total_shares"@,
        Some("Total Shares must be greater than 100"@),
    )
}

fn validate_outcome_fields(label: &String, start_price: &Dec, total_shares: &Dec) -> (errs: Vec<FieldError>)
    requires
        start_price.wf(),
        total_shares.wf(),
    ensures
        failures_view(errs@) == outcome_failures(label@, *start_price, *total_shares),
{
    let mut errs: Vec<FieldError> = Vec::new();
    record(&mut errs, has_min_length(label, 1), "label", "length", Some("Label is required"));
    record_custom(
        &mut errs,
        validate_start_price(start_price),
        Ghost(start_price_failure(*start_price)),
        "start_price",
        Some("Start price must be between 0 and 1"),
    );
    record_custom(
        &mut errs,
        validate_total_shares(total_shares),
        Ghost(total_shares_failure(*total_shares)),
        "total_shares",
        Some("Total Shares must be greater than 100"),
    );
    assert(failures_view(errs@) =~= outcome_failures(label@, *start_price, *total_shares));
    errs
}

pub struct CreateOutcomeDTO {
    pub label: String,
    pub start_price: Dec,
    pub total_shares: Dec,
}

impl CreateOutcomeDTO {
    pub open spec fn wf(&self) -> bool {
        self.start_price.wf() && self.total_shares.wf()
    }

    pub open spec fn failures(&self) -> Seq<Failure> {
        outcome_failures(self.label@, self.start_price, self.total_shares)
    }

    pub fn validate(&self) -> (r: Result<(), ValidationErrors>)
        requires
            self.wf(),
        ensures
            outcome(r, self.failures()),
    {
        finish(validate_outcome_fields(&self.label, &self.start_price, &self.total_shares))
    }
}

/// Failures of a market's title, description and category.
pub open spec fn market_text_failures(title: Seq<char>, desciption: Seq<char>, category: Seq<char>) -> Seq<Failure> {
    check(title.len() >= 1, "title"@, "length"@, Some("Title is required"@))
        + check(desciption.len() >= 1, "desciption"@, "length"@, Some("Description is required"@))
        + check(category.len() >= 1, "category"@, "length"@, Some("Category is required"@))
}

fn validate_market_text(title: &String, desciption: &String, category: &String) -> (errs: Vec<FieldError>)
    ensures
        failures_view(errs@) == market_text_failures(title@, desciption@, category@),
{
    let mut errs: Vec<FieldError> = Vec::new();
    record(&mut errs, has_min_length(title, 1), "title", "length", Some("Title is required"));
    record(&mut errs, has_min_length(desciption, 1), "desciption", "length", Some("Description is required"));
    record(&mut errs, has_min_length(category, 1), "category", "length", Some("Category is required"));
    assert(failures_view(errs@) =~= market_text_failures(title@, desciption@, category@));
    errs
}

/// Field failures first; the check on the whole request runs only when no
/// field failed, and reports under `__all__`.
pub open spec fn with_schema(fields: Seq<Failure>, schema: Option<Seq<char>>) -> Seq<Failure> {
    if fields.len() > 0 {
        fields
    } else {
        custom_check(schema, "__all__"@, None)
    }
}

pub struct CreateMarketDTO {
    pub title: String,
    pub desciption: String,
    pub category: String,
    pub start_at: Option<Instant>,
    pub close_at: Option<Instant>,
    pub first_outcome: CreateOutcomeDTO,
    pub second_outcome: CreateOutcomeDTO,
}

impl CreateMarketDTO {
    pub open spec fn wf(&self) -> bool {
        self.first_outcome.wf() && self.second_outcome.wf()
    }

    pub open spec fn failures(&self, now: Instant) -> Seq<Failure> {
        with_schema(
            market_text_failures(self.title@, self.desciption@, self.category@) + nested(
                "first_outcome"@,
                self.first_outcome.failures(),
            ) + nested("second_outcome"@, self.second_outcome.failures()),
            market_dates_failure(self.start_at, self.close_at, now),
        )
    }

    /// Validates the request at instant `now`.
    pub fn validate(&self, now: Instant) -> (r: Result<(), ValidationErrors>)
        requires
            self.wf(),
        ensures
            outcome(r, self.failures(now)),
    {
        let mut errs = validate_market_text(&self.title, &self.desciption, &self.category);
        let first = validate_outcome_fields(
            &self.first_outcome.label,
            &self.first_outcome.start_price,
            &self.first_outcome.total_shares,
        );
        record_nested(&mut errs, first, "first_outcome");
        let second = validate_outcome_fields(
            &self.second_outcome.label,
            &self.second_outcome.start_price,
            &self.second_outcome.total_shares,
        );
        record_nested(&mut errs, second, "second_outcome");
        if errs.len() == 0 {
            record_custom(
                &mut errs,
                validate_market_dates(self.start_at, self.close_at, now),
                Ghost(market_dates_failure(self.start_at, self.close_at, now)),
                "__all__",
                None,
            );
        }
        assert(failures_view(errs@) =~= self.failures(now));
        finish(errs)
    }
}

pub struct UpdateOutcomeDTO {
    pub outcome_id: u128,
    pub label: String,
    pub start_price: Dec,
    pub total_shares: Dec,
}

impl UpdateOutcomeDTO {
    pub open spec fn wf(&self) -> bool {
        self.start_price.wf() && self.total_shares.wf()
    }

    pub open spec fn failures(&self) -> Seq<Failure> {
        outcome_failures(self.label@, self.start_price, self.total_shares)
    }

    pub fn validate(&self) -> (r: Result<(), ValidationErrors>)
        requires
            self.wf(),
        ensures
            outcome(r, self.failures()),
    {
        finish(validate_outcome_fields(&self.label, &self.start_price, &self.total_shares))
    }
}

pub struct UpdateMarketDTO {
    pub market_id: u128,
    pub title: String,
    pub desciption: String,
    pub category: String,
    pub start_at: Option<Instant>,
    pub close_at: Option<Instant>,
    pub first_outcome: UpdateOutcomeDTO,
    pub second_outcome: UpdateOutcomeDTO,
}

impl UpdateMarketDTO {
    pub open spec fn wf(&self) -> bool {
        self.first_outcome.wf() && self.second_outcome.wf()
    }

    pub open spec fn failures(&self, now: Instant) -> Seq<Failure> {
        with_schema(
            market_text_failures(self.title@, self.desciption@, self.category@) + nested(
                "first_outcome"@,
                self.first_outcome.failures(),
            ) + nested("second_outcome"@, self.second_outcome.failures()),
            market_dates_failure(self.start_at, self.close_at, now),
        )
    }

    /// Validates the request at instant `now`.
    pub fn validate(&self, now: Instant) -> (r: Result<(), ValidationErrors>)
        requires
            self.wf(),
        ensures
            outcome(r, self.failures(now)),
    {
        let mut errs = validate_market_text(&self.title, &self.desciption, &self.category);
        let first = validate_outcome_fields(
            &self.first_outcome.label,
            &self.first_outcome.start_price,
            &self.first_outcome.total_shares,
        );
        record_nested(&mut errs, first, "first_outcome");
        let second = validate_outcome_fields(
            &self.second_outcome.label,
            &self.second_outcome.start_price,
            &self.second_outcome.total_shares,
        );
        record_nested(&mut errs, second, "second_outcome");
        if errs.len() == 0 {
            record_custom(
                &mut errs,
                validate_market_dates(self.start_at, self.close_at, now),
                Ghost(market_dates_failure(self.start_at, self.close_at, now)),
                "__all__",
                None,
            );
        }
        assert(failures_view(errs@) =~= self.failures(now));
        finish(errs)
    }
}

/// An administrator's profile as returned to clients, without the password.
#[derive(Debug)]
pub struct AdminResponse {
    pub id: u128,
    pub name: String,
    pub email: String,
    pub created_at: Option<Instant>,
    pub updated_at: Option<Instant>,
}

impl From<Admin> for AdminResponse {
    fn from(admin: Admin) -> (r: AdminResponse) {
        AdminResponse {
            id: admin.id,
            name: admin.name,
            email: admin.email,
            created_at: admin.created_at,
            updated_at: admin.updated_at,
        }
    }
}

impl vstd::std_specs::convert::FromSpecImpl<Admin> for AdminResponse {
    open spec fn obeys_from_spec() -> bool {
        true
    }

    open spec fn from_spec(admin: Admin) -> AdminResponse {
        AdminResponse {
            id: admin.id,
            name: admin.name,
            email: admin.email,
            created_at: admin.created_at,
            updated_at: admin.updated_at,
        }
    }
}

} // verus!
