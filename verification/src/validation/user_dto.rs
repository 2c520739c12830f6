//! Requests of users: registration, sign-in, password reset, profile and
//! wallet operations, transaction queries.
use crate::decimal::Dec;
use crate::model::user::TransactionType;
use crate::validation::{
    FieldError, Failure, ValidationError, ValidationErrors, check, custom_check, custom_error,
    custom_outcome, failures_view, finish, has_min_length, in_range, is_email, order_by_failure,
    outcome, range_ok, record, record_custom, text_is, valid_email, validate_order_by,
    when_present,
};
use crate::validation::order_dto::{opt_text, positive_failure, validate_positive_decimal};
use vstd::prelude::*;

verus! {

/// Failures of a required e-mail address.
pub open spec fn email_failures(email: Seq<char>) -> Seq<Failure> {
    check(email.len() >= 1, "email"@, "length"@, Some("Email is required"@))
        + check(valid_email(email), "email"@, "email"@, Some("Provide valid email address"@))
}

pub(crate) fn validate_email_field(errs: &mut Vec<FieldError>, email: &String)
    ensures
        failures_view(final(errs)@) == failures_view(old(errs)@) + email_failures(email@),
{
    let ghost e = failures_view(errs@);
    record(errs, has_min_length(email, 1), "email", "length", Some("Email is required"));
    record(errs, is_email(email), "email", "email", Some("Provide valid email address"));
    assert(failures_view(errs@) =~= e + email_failures(email@));
}

pub struct RegisterUserDTO {
    pub name: String,
    pub email: String,
    pub password: String,
    pub confirm_password: String,
}

impl RegisterUserDTO {
    pub open spec fn failures(&self) -> Seq<Failure> {
        check(self.name@.len() >= 1, "name"@, "length"@, Some("Name is required"@)) + email_failures(
            self.email@,
        ) + check(self.password@.len() >= 1, "password"@, "length"@, Some("Password is required"@))
            + check(
            self.password@.len() >= 8,
            "password"@,
            "length"@,
            Some("Password must be at least 8 characters"@),
        ) + check(
            self.confirm_password@.len() >= 1,
            "confirm_password"@,
            "length"@,
            Some("Confirm password is required"@),
        ) + check(
            self.confirm_password@ == self.password@,
            "confirm_password"@,
            "must_match"@,
            Some("Passwords do not match"@),
        )
    }

    pub fn validate(&self) -> (r: Result<(), ValidationErrors>)
        ensures
            outcome(r, self.failures()),
    {
        let mut errs: Vec<FieldError> = Vec::new();
        record(&mut errs, has_min_length(&self.name, 1), "name", "length", Some("Name is required"));
        validate_email_field(&mut errs, &self.email);
        record(&mut errs, has_min_length(&self.password, 1), "password", "length", Some("Password is required"));
        record(
            &mut errs,
            has_min_length(&self.password, 8),
            "password",
            "length",
            Some("Password must be at least 8 characters"),
        );
        record(
            &mut errs,
            has_min_length(&self.confirm_password, 1),
            "confirm_password",
            "length",
            Some("Confirm password is required"),
        );
        record(
            &mut errs,
            self.confirm_password == self.password,
            "confirm_password",
            "must_match",
            Some("Passwords do not match"),
        );
        assert(failures_view(errs@) =~= self.failures());
        finish(errs)
    }
}

pub struct LoginUserDTO {
    pub email: String,
    pub password: String,
}

impl LoginUserDTO {
    pub open spec fn failures(&self) -> Seq<Failure> {
        email_failures(self.email@) + check(
            self.password@.len() >= 1,
            "password"@,
            "length"@,
            Some("Password is required"@),
        ) + check(
            self.password@.len() >= 8,
            "password"@,
            "length"@,
            Some("Password must be at least 8 charaters"@),
        )
    }

    pub fn validate(&self) -> (r: Result<(), ValidationErrors>)
        ensures
            outcome(r, self.failures()),
    {
        let mut errs: Vec<FieldError> = Vec::new();
        validate_email_field(&mut errs, &self.email);
        record(&mut errs, has_min_length(&self.password, 1), "password", "length", Some("Password is required"));
        record(
            &mut errs,
            has_min_length(&self.password, 8),
            "password",
            "length",
            Some("Password must be at least 8 charaters"),
        );
        assert(failures_view(errs@) =~= self.failures());
        finish(errs)
    }
}

pub struct ResetPassword {
    pub old_password: String,
    pub new_password: String,
    pub confirm_password: String,
}

impl ResetPassword {
    pub open spec fn failures(&self) -> Seq<Failure> {
        check(
            self.old_password@.len() >= 1,
            "old_password"@,
            "length"@,
            Some("Old Password is required"@),
        ) + check(
            self.old_password@.len() >= 8,
            "old_password"@,
            "length"@,
            Some("Password must be at least 8 characters"@),
        ) + check(
            self.new_password@.len() >= 1,
            "new_password"@,
            "length"@,
            Some("New Password is required"@),
        ) + check(
            self.new_password@.len() >= 8,
            "new_password"@,
            "length"@,
            Some("Password must be at least 8 characters"@),
        ) + check(
            self.confirm_password@.len() >= 1,
            "confirm_password"@,
            "length"@,
            Some("Confirm password is required"@),
        ) + check(
            self.confirm_password@ == self.new_password@,
            "confirm_password"@,
            "must_match"@,
            Some("Passwords do not match"@),
        )
    }

    pub fn validate(&self) -> (r: Result<(), ValidationErrors>)
        ensures
            outcome(r, self.failures()),
    {
        let mut errs: Vec<FieldError> = Vec::new();
        record(
            &mut errs,
            has_min_length(&self.old_password, 1),
            "old_password",
            "length",
            Some("Old Password is required"),
        );
        record(
            &mut errs,
            has_min_length(&self.old_password, 8),
            "old_password",
            "length",
            Some("Password must be at least 8 characters"),
        );
        record(
            &mut errs,
            has_min_length(&self.new_password, 1),
            "new_password",
            "length",
            Some("New Password is required"),
        );
        record(
            &mut errs,
            has_min_length(&self.new_password, 8),
            "new_password",
            "length",
            Some("Password must be at least 8 characters"),
        );
        record(
            &mut errs,
            has_min_length(&self.confirm_password, 1),
            "confirm_password",
            "length",
            Some("Confirm password is required"),
        );
        record(
            &mut errs,
            self.confirm_password == self.new_password,
            "confirm_password",
            "must_match",
            Some("Passwords do not match"),
        );
        assert(failures_view(errs@) =~= self.failures());
        finish(errs)
    }
}

pub struct UpdateUserDTO {
    pub name: String,
    pub email: String,
    pub mobile_no: Option<String>,
}

impl UpdateUserDTO {
    pub open spec fn failures(&self) -> Seq<Failure> {
        check(self.name@.len() >= 1, "name"@, "length"@, Some("Name is required"@)) + email_failures(
            self.email@,
        )
    }

    pub fn validate(&self) -> (r: Result<(), ValidationErrors>)
        ensures
            outcome(r, self.failures()),
    {
        let mut errs: Vec<FieldError> = Vec::new();
        record(&mut errs, has_min_length(&self.name, 1), "name", "length", Some("Name is required"));
        validate_email_field(&mut errs, &self.email);
        assert(failures_view(errs@) =~= self.failures());
        finish(errs)
    }
}

pub struct UpdateUserPictureDTO {
    pub picture: String,
}

impl UpdateUserPictureDTO {
    pub open spec fn failures(&self) -> Seq<Failure> {
        check(self.picture@.len() >= 1, "picture"@, "length"@, Some("Picture is required"@))
    }

    pub fn validate(&self) -> (r: Result<(), ValidationErrors>)
        ensures
            outcome(r, self.failures()),
    {
        let mut errs: Vec<FieldError> = Vec::new();
        record(&mut errs, has_min_length(&self.picture, 1), "picture", "length", Some("Picture is required"));
        assert(failures_view(errs@) =~= self.failures());
        finish(errs)
    }
}

/// Failures of a positive balance amount.
pub open spec fn balance_failures(balance: Dec) -> Seq<Failure> {
    custom_check(positive_failure(balance), "balance"@, Some("Balance must be greater than zero"@))
}

fn validate_balance(balance: &Dec) -> (r: Result<(), ValidationErrors>)
    requires
        balance.wf(),
    ensures
        outcome(r, balance_failures(*balance)),
{
    let mut errs: Vec<FieldError> = Vec::new();
    record_custom(
        &mut errs,
        validate_positive_decimal(balance),
        Ghost(positive_failure(*balance)),
        "balance",
        Some("Balance must be greater than zero"),
    );
    assert(failures_view(errs@) =~= balance_failures(*balance));
    finish(errs)
}

pub struct DepositBalanceDTO {
    pub balance: Dec,
}

impl DepositBalanceDTO {
    pub fn validate(&self) -> (r: Result<(), ValidationErrors>)
        requires
            self.balance.wf(),
        ensures
            outcome(r, balance_failures(self.balance)),
    {
        validate_balance(&self.balance)
    }
}

pub struct WithdrawBalanceDTO {
    pub balance: Dec,
}

impl WithdrawBalanceDTO {
    pub fn validate(&self) -> (r: Result<(), ValidationErrors>)
        requires
            self.balance.wf(),
        ensures
            outcome(r, balance_failures(self.balance)),
    {
        validate_balance(&self.balance)
    }
}

/// Transactions are sorted by amount or creation time.
pub open spec fn transaction_order_field_failure(value: Seq<char>) -> Option<Seq<char>> {
    if value == "amount"@ || value == "created_at"@ {
        None
    } else {
        Some("Invalid order field. Must be 'amount' or 'created_at'"@)
    }
}

pub fn validate_order_field(value: &String) -> (r: Result<(), ValidationError>)
    ensures
        custom_outcome(r, transaction_order_field_failure(value@)),
{
    if text_is(value, "amount") || text_is(value, "created_at") {
        Ok(())
    } else {
        custom_error("Invalid order field. Must be 'amount' or 'created_at'")
    }
}

pub struct TransactionsQueryDTO {
    pub order_field: Option<String>,
    pub order_by: Option<String>,
    pub transaction_type: Option<TransactionType>,
    pub limit: Option<i64>,
    pub skip: Option<i64>,
}

/// Failures of the paging and ordering parameters shared by the list
/// queries: custom checks on the ordering field and direction, and a
/// minimum of 1 for `limit` and 0 for `skip`.
pub open spec fn listing_failures(
    order_field: Option<String>,
    field_failure: spec_fn(Seq<char>) -> Option<Seq<char>>,
    order_by: Option<String>,
    limit: Option<i64>,
    skip: Option<i64>,
) -> Seq<Failure> {
    custom_check(when_present(opt_text(order_field), field_failure), "order_field"@, None)
        + custom_check(
        when_present(opt_text(order_by), |v: Seq<char>| order_by_failure(v)),
        "order_by"@,
        None,
    ) + check(range_ok(limit, 1), "limit"@, "range"@, None) + check(range_ok(skip, 0), "skip"@, "range"@, None)
}

impl TransactionsQueryDTO {
    pub open spec fn failures(&self) -> Seq<Failure> {
        listing_failures(
            self.order_field,
            |v: Seq<char>| transaction_order_field_failure(v),
            self.order_by,
            self.limit,
            self.skip,
        )
    }

    pub fn validate(&self) -> (r: Result<(), ValidationErrors>)
        ensures
            outcome(r, self.failures()),
    {
        let mut errs: Vec<FieldError> = Vec::new();
        let ghost e0 = errs@;
        match &self.order_field {
            Some(v) => record_custom(
                &mut errs,
                validate_order_field(v),
                Ghost(transaction_order_field_failure(v@)),
                "order_field",
                None,
            ),
            None => {
                assert(failures_view(errs@) =~= failures_view(e0) + custom_check(None, "order_field"@, None));
            },
        }
        let ghost e1 = errs@;
        match &self.order_by {
            Some(v) => record_custom(&mut errs, validate_order_by(v), Ghost(order_by_failure(v@)), "order_by", None),
            None => {
                assert(failures_view(errs@) =~= failures_view(e1) + custom_check(None, "order_by"@, None));
            },
        }
        record(&mut errs, in_range(self.limit, 1), "limit", "range", None);
        record(&mut errs, in_range(self.skip, 0), "skip", "range", None);
        assert(failures_view(errs@) =~= self.failures());
        finish(errs)
    }
}

} // verus!
