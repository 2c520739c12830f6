//! Requests of the authentication service and the user profile it returns.
use crate::model::{Instant, User};
use crate::validation::{FieldError, Failure, ValidationErrors, check, failures_view, finish, has_min_length, outcome, record};
use crate::validation::user_dto::{email_failures, validate_email_field};
pub use crate::validation::admin_dto::LoginAdminDTO;
use vstd::prelude::*;

verus! {

/// A request for a one-time password: the address it goes to.
pub struct SendOtpDTO {
    pub email: String,
}

impl SendOtpDTO {
    pub fn validate(&self) -> (r: Result<(), ValidationErrors>)
        ensures
            outcome(r, email_failures(self.email@)),
    {
        let mut errs: Vec<FieldError> = Vec::new();
        validate_email_field(&mut errs, &self.email);
        assert(failures_view(errs@) =~= email_failures(self.email@));
        finish(errs)
    }
}

pub struct RegisterUserDTO {
    pub name: String,
    pub email: String,
    pub password: String,
    pub confirm_password: String,
}

impl RegisterUserDTO {
    pub open spec fn failures(&self) -> Seq<Failure> {
        check(self.name@.len() >= 1, "name"@, "length"@, Some("Name is required"@)) + email_failures(
            self.email@,
        ) + check(
            self.password@.len() >= 8,
            "password"@,
            "length"@,
            Some("Password must be at least 8 characters"@),
        ) + check(
            self.confirm_password@.len() >= 1,
            "confirm_password"@,
            "length"@,
            Some("Confirm password is required"@),
        ) + check(
            self.confirm_password@ == self.password@,
            "confirm_password"@,
            "must_match"@,
            Some("Passwords do not match"@),
        )
    }

    pub fn validate(&self) -> (r: Result<(), ValidationErrors>)
        ensures
            outcome(r, self.failures()),
    {
        let mut errs: Vec<FieldError> = Vec::new();
        record(&mut errs, has_min_length(&self.name, 1), "name", "length", Some("Name is required"));
        validate_email_field(&mut errs, &self.email);
        record(
            &mut errs,
            has_min_length(&self.password, 8),
            "password",
            "length",
            Some("Password must be at least 8 characters"),
        );
        record(
            &mut errs,
            has_min_length(&self.confirm_password, 1),
            "confirm_password",
            "length",
            Some("Confirm password is required"),
        );
        record(
            &mut errs,
            self.confirm_password == self.password,
            "confirm_password",
            "must_match",
            Some("Passwords do not match"),
        );
        assert(failures_view(errs@) =~= self.failures());
        finish(errs)
    }
}

pub struct LoginUserDTO {
    pub email: String,
    pub password: String,
}

impl LoginUserDTO {
    pub open spec fn failures(&self) -> Seq<Failure> {
        email_failures(self.email@) + check(
            self.password@.len() >= 8,
            "password"@,
            "length"@,
            Some("Password must be at least 8 charaters"@),
        )
    }

    pub fn validate(&self) -> (r: Result<(), ValidationErrors>)
        ensures
            outcome(r, self.failures()),
    {
        let mut errs: Vec<FieldError> = Vec::new();
        validate_email_field(&mut errs, &self.email);
        record(
            &mut errs,
            has_min_length(&self.password, 8),
            "password",
            "length",
            Some("Password must be at least 8 charaters"),
        );
        assert(failures_view(errs@) =~= self.failures());
        finish(errs)
    }
}

pub struct ResetPassword {
    pub old_password: String,
    pub new_password: String,
    pub confirm_password: String,
}

impl ResetPassword {
    pub open spec fn failures(&self) -> Seq<Failure> {
        check(
            self.old_password@.len() >= 8,
            "old_password"@,
            "length"@,
            Some("Old Password must be at least 8 characters"@),
        ) + check(
            self.new_password@.len() >= 8,
            "new_password"@,
            "length"@,
            Some("New Password must be at least 8 characters"@),
        ) + check(
            self.confirm_password@.len() >= 1,
            "confirm_password"@,
            "length"@,
            Some("Confirm password is required"@),
        ) + check(
            self.confirm_password@ == self.new_password@,
            "confirm_password"@,
            "must_match"@,
            Some("Passwords do not match"@),
        )
    }

    pub fn validate(&self) -> (r: Result<(), ValidationErrors>)
        ensures
            outcome(r, self.failures()),
    {
        let mut errs: Vec<FieldError> = Vec::new();
        record(
            &mut errs,
            has_min_length(&self.old_password, 8),
            "old_password",
            "length",
            Some("Old Password must be at least 8 characters"),
        );
        record(
            &mut errs,
            has_min_length(&self.new_password, 8),
            "new_password",
            "length",
            Some("New Password must be at least 8 characters"),
        );
        record(
            &mut errs,
            has_min_length(&self.confirm_password, 1),
            "confirm_password",
            "length",
            Some("Confirm password is required"),
        );
        record(
            &mut errs,
            self.confirm_password == self.new_password,
            "confirm_password",
            "must_match",
            Some("Passwords do not match"),
        );
        assert(failures_view(errs@) =~= self.failures());
        finish(errs)
    }
}

/// A user's profile as returned to clients, without the password.
#[derive(Debug)]
pub struct UserResponse {
    pub id: u128,
    pub name: String,
    pub email: String,
    pub picture: Option<String>,
    pub mobile_no: Option<String>,
    pub created_at: Option<Instant>,
    pub updated_at: Option<Instant>,
}

impl From<User> for UserResponse {
    fn from(user: User) -> (r: UserResponse) {
        UserResponse {
            id: user.id,
            name: user.name,
            email: user.email,
            picture: user.picture,
            mobile_no: user.mobile_no,
            created_at: user.created_at,
            updated_at: user.updated_at,
        }
    }
}

impl vstd::std_specs::convert::FromSpecImpl<User> for UserResponse {
    open spec fn obeys_from_spec() -> bool {
        true
    }

    open spec fn from_spec(user: User) -> UserResponse {
        UserResponse {
            id: user.id,
            name: user.name,
            email: user.email,
            picture: user.picture,
            mobile_no: user.mobile_no,
            created_at: user.created_at,
            updated_at: user.updated_at,
        }
    }
}

} // verus!
