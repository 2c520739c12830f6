//! Request validation: the checks each request body must pass, and the
//! errors reported for those that fail, field by field in declaration order.
use vstd::prelude::*;
use vstd::string::StringExecFns;
use validator::{ValidateEmail, ValidateLength};

pub mod admin_dto;
pub mod auth_dto;
pub mod market_dto;
pub mod order_dto;
pub mod user_dto;

verus! {

/// A failed check: its code and the message configured for it.
#[derive(Debug)]
pub struct ValidationError {
    pub code: String,
    pub message: Option<String>,
}

/// A failed check on a named field (`__all__` for checks on the whole
/// request, `outer.inner` for a field of a nested request).
#[derive(Debug)]
pub struct FieldError {
    pub field: String,
    pub error: ValidationError,
}

/// All the failed checks of a request, in the order they were made.
#[derive(Debug)]
pub struct ValidationErrors {
    pub errors: Vec<FieldError>,
}

/// A failed check as plain text: field, code, message.
pub type Failure = (Seq<char>, Seq<char>, Option<Seq<char>>);

pub open spec fn opt_view(s: Option<String>) -> Option<Seq<char>> {
    match s {
        Some(x) => Some(x@),
        None => None,
    }
}

pub open spec fn failure_view(f: FieldError) -> Failure {
    (f.field@, f.error.code@, opt_view(f.error.message))
}

pub open spec fn failures_view(v: Seq<FieldError>) -> Seq<Failure> {
    v.map_values(|f: FieldError| failure_view(f))
}

/// The failure of one check: none when `ok`.
pub open spec fn check(ok: bool, field: Seq<char>, code: Seq<char>, message: Option<Seq<char>>) -> Seq<Failure> {
    if ok {
        Seq::empty()
    } else {
        seq![(field, code, message)]
    }
}

/// The result of validating a request whose failed checks are `fs`.
pub open spec fn outcome(r: Result<(), ValidationErrors>, fs: Seq<Failure>) -> bool {
    &&& r is Ok <==> fs.len() == 0
    &&& r matches Err(e) ==> failures_view(e.errors@) == fs
}

/// Failures of a nested request, reported under `outer.field`.
pub open spec fn nested(outer: Seq<char>, fs: Seq<Failure>) -> Seq<Failure> {
    fs.map_values(|f: Failure| (outer + "."@ + f.0, f.1, f.2))
}

pub open spec fn opt_str(s: Option<&str>) -> Option<Seq<char>> {
    match s {
        Some(x) => Some(x@),
        None => None,
    }
}

/// A custom check's result: `Ok` exactly when `expected` names no failure,
/// otherwise an error with that code and no message.
pub open spec fn custom_outcome(r: Result<(), ValidationError>, expected: Option<Seq<char>>) -> bool {
    match r {
        Ok(_) => expected is None,
        Err(e) => expected == Some(e.code@) && e.message is None,
    }
}

/// The failure a custom check reports under a field, with the configured
/// message replacing its own when there is one.
pub open spec fn custom_check(expected: Option<Seq<char>>, field: Seq<char>, message: Option<Seq<char>>) -> Seq<Failure> {
    match expected {
        Some(code) => seq![(field, code, message)],
        None => Seq::empty(),
    }
}

/// A custom check that failed with `code`.
pub(crate) fn custom_error(code: &str) -> (r: Result<(), ValidationError>)
    ensures
        custom_outcome(r, Some(code@)),
{
    Err(ValidationError { code: String::from_str(code), message: None })
}

/// Records the failure of a check.
pub(crate) fn record(errs: &mut Vec<FieldError>, ok: bool, field: &str, code: &str, message: Option<&str>)
    ensures
        failures_view(final(errs)@) == failures_view(old(errs)@) + check(ok, field@, code@, opt_str(message)),
{
    let ghost before = failures_view(errs@);
    if !ok {
        let m = match message {
            Some(t) => Some(String::from_str(t)),
            None => None,
        };
        errs.push(
            FieldError {
                field: String::from_str(field),
                error: ValidationError { code: String::from_str(code), message: m },
            },
        );
        assert(failures_view(errs@) =~= before + check(ok, field@, code@, opt_str(message)));
    } else {
        assert(failures_view(errs@) =~= before + check(ok, field@, code@, opt_str(message)));
    }
}

/// Records the failure returned by a custom check (with no message of its
/// own); the configured message, when there is one, goes with it.
pub(crate) fn record_custom(
    errs: &mut Vec<FieldError>,
    r: Result<(), ValidationError>,
    Ghost(expected): Ghost<Option<Seq<char>>>,
    field: &str,
    message: Option<&str>,
)
    requires
        custom_outcome(r, expected),
    ensures
        failures_view(final(errs)@) == failures_view(old(errs)@) + custom_check(expected, field@, opt_str(message)),
{
    let ghost before = failures_view(errs@);
    match r {
        Ok(_) => {
            assert(failures_view(errs@) =~= before + custom_check(expected, field@, opt_str(message)));
        },
        Err(e) => {
            let m = match message {
                Some(t) => Some(String::from_str(t)),
                None => None,
            };
            errs.push(FieldError { field: String::from_str(field), error: ValidationError { code: e.code, message: m } });
            assert(failures_view(errs@) =~= before + custom_check(expected, field@, opt_str(message)));
        },
    }
}

/// Records the failures of a nested request under `outer.field`.
pub(crate) fn record_nested(errs: &mut Vec<FieldError>, inner: Vec<FieldError>, outer: &str)
    ensures
        failures_view(final(errs)@) == failures_view(old(errs)@) + nested(outer@, failures_view(inner@)),
{
    let ghost before = failures_view(errs@);
    let mut i: usize = 0;
    while i < inner.len()
        invariant
            0 <= i <= inner@.len(),
            failures_view(errs@) == before + nested(outer@, failures_view(inner@.take(i as int))),
        decreases inner@.len() - i,
    {
        let f = &inner[i];
        let name = String::from_str(outer).concat(".").concat(f.field.as_str());
        let message = match &f.error.message {
            Some(m) => Some(m.clone()),
            None => None,
        };
        let ghost prev = failures_view(errs@);
        let nf = FieldError { field: name, error: ValidationError { code: f.error.code.clone(), message } };
        assert(failure_view(nf) == (outer@ + "."@ + f.field@, f.error.code@, opt_view(f.error.message)));
        errs.push(nf);
        assert(failures_view(errs@) =~= prev.push(failure_view(nf)));
        assert(inner@.take(i + 1) =~= inner@.take(i as int).push(inner@[i as int]));
        let ghost fv = failure_view(inner@[i as int]);
        assert(failures_view(inner@.take(i + 1)) =~= failures_view(inner@.take(i as int)).push(fv));
        assert(nested(outer@, failures_view(inner@.take(i + 1))) =~= nested(
            outer@,
            failures_view(inner@.take(i as int)),
        ).push((outer@ + "."@ + fv.0, fv.1, fv.2)));
        assert(failures_view(errs@) =~= before + nested(outer@, failures_view(inner@.take(i + 1))));
        i = i + 1;
    }
    assert(inner@.take(inner@.len() as int) =~= inner@);
}

/// Turns the recorded failures into the result of a validation.
pub(crate) fn finish(errs: Vec<FieldError>) -> (r: Result<(), ValidationErrors>)
    ensures
        outcome(r, failures_view(errs@)),
{
    if errs.len() == 0 {
        Ok(())
    } else {
        Err(ValidationErrors { errors: errs })
    }
}

/// The text equals the literal.
pub(crate) fn text_is(s: &String, lit: &str) -> (r: bool)
    ensures
        r == (s@ == lit@),
{
    *s == String::from_str(lit)
}

/// A check that only applies to a present value.
pub open spec fn when_present<T>(v: Option<T>, f: spec_fn(T) -> Option<Seq<char>>) -> Option<Seq<char>> {
    match v {
        Some(x) => f(x),
        None => None,
    }
}

/// The direction of an ordering: ascending or descending.
pub open spec fn order_by_failure(value: Seq<char>) -> Option<Seq<char>> {
    if value == "ASC"@ || value == "DESC"@ {
        None
    } else {
        Some("Invalid order direction. Must be 'ASC' or 'DESC'"@)
    }
}

pub fn validate_order_by(value: &String) -> (r: Result<(), ValidationError>)
    ensures
        custom_outcome(r, order_by_failure(value@)),
{
    if text_is(value, "ASC") || text_is(value, "DESC") {
        Ok(())
    } else {
        custom_error("Invalid order direction. Must be 'ASC' or 'DESC'")
    }
}

/// An optional count is at least `min` when present.
pub open spec fn range_ok(v: Option<i64>, min: i64) -> bool {
    match v {
        Some(x) => x >= min,
        None => true,
    }
}

pub(crate) fn in_range(v: Option<i64>, min: i64) -> (r: bool)
    ensures
        r == range_ok(v, min),
{
    match v {
        Some(x) => x >= min,
        None => true,
    }
}

/// Whether a text is an e-mail address, as `validator` decides it.
pub uninterp spec fn valid_email(s: Seq<char>) -> bool;

/// `validator`'s `ValidateEmail::validate_email` on a string. Claimed of it:
/// it decides by the text alone (named [`valid_email`]); an empty text or one
/// without `@` is refused, as its first test shows.
#[verifier::external_body]
pub(crate) fn is_email(s: &String) -> (r: bool)
    ensures
        r == valid_email(s@),
        s@.len() == 0 || !s@.contains('@') ==> !r,
{
    s.validate_email()
}

/// `validator`'s `ValidateLength::validate_length` with only a minimum: the
/// number of characters of the text is at least `min`.
#[verifier::external_body]
pub(crate) fn has_min_length(s: &String, min: u64) -> (r: bool)
    ensures
        r == (s@.len() >= min),
{
    s.validate_length(Some(min), None, None)
}

} // verus!
