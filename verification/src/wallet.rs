//! The account service's rule for withdrawals.
use crate::decimal::{Dec, aligned_fit, dec_checked_sub, dec_compare, decimal_checked_sub, from_parts};
use crate::error::{ErrorMessage, FORBIDDEN, HttpError};
use vstd::prelude::*;

verus! {

/// `balance - amount` with `rust_decimal`'s subtraction, as mantissa and scale.
pub open spec fn remaining_balance(balance: Dec, amount: Dec) -> Option<(i128, u32)> {
    decimal_checked_sub(balance.mantissa, balance.scale, amount.mantissa, amount.scale)
}

/// A withdrawal is refused as forbidden when the balance minus the amount
/// is negative, that is exactly when the amount is above the balance. The
/// subtraction must not overflow (where the service's `-` would panic).
pub fn check_withdraw(balance: &Dec, amount: &Dec) -> (r: Result<(), HttpError>)
    requires
        balance.wf(),
        amount.wf(),
        remaining_balance(*balance, *amount) is Some,
    ensures
        r is Err <==> from_parts(remaining_balance(*balance, *amount)->0).value() < 0,
        r matches Err(e) ==> e.status == FORBIDDEN && e.message@
            == ErrorMessage::InsufficientBalance.text(),
        r is Err <==> balance.value() < amount.value(),
{
    let left = match dec_checked_sub(balance, amount) {
        Some(d) => d,
        None => return Ok(()),
    };
    if dec_compare(&left, &Dec::zero()) < 0 {
        Err(HttpError::forbidden(ErrorMessage::InsufficientBalance.to_str()))
    } else {
        Ok(())
    }
}

/// [`check_withdraw`] where the subtraction does not overflow; `None` where
/// it does (never for a non-negative balance and amount).
pub fn try_check_withdraw(balance: &Dec, amount: &Dec) -> (r: Option<Result<(), HttpError>>)
    requires
        balance.wf(),
        amount.wf(),
    ensures
        r is None <==> remaining_balance(*balance, *amount) is None,
        balance.value() >= 0 && amount.value() >= 0 ==> r is Some,
        r matches Some(x) ==> (x is Err <==> from_parts(remaining_balance(*balance, *amount)->0).value() < 0),
        r matches Some(x) ==> (x matches Err(e) ==> e.status == FORBIDDEN && e.message@
            == ErrorMessage::InsufficientBalance.text()),
        r matches Some(x) ==> (x is Err <==> balance.value() < amount.value()),
        aligned_fit(*balance, *amount, balance.value() - amount.value()) ==> r is Some,
{
    match dec_checked_sub(balance, amount) {
        None => None,
        Some(_) => Some(check_withdraw(balance, amount)),
    }
}

} // verus!
