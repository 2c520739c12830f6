//! Kinds of wallet transaction as the user records name them.
use vstd::prelude::*;

verus! {

#[derive(Clone, Copy, Debug, PartialEq, Eq, Structural)]
pub enum TransactionType {
    DEPOSIT,
    WITHDRAWL,
    TRADE,
    REFUND,
    PAYOUT,
}

} // verus!
