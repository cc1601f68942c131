//! The identity of a participant.
//!
//! Accounts are values of `ink::primitives::AccountId`. The ledger never looks
//! inside one: it stores them, hands them back and compares them.

use ink::primitives::AccountId;
use vstd::prelude::*;

verus! {

/// `ink::primitives::AccountId`, carried through the ledger as an opaque value.
#[verifier::external_type_specification]
#[verifier::external_body]
pub struct ExAccountId(ink::primitives::AccountId);

/// Calls `AccountId`'s own `PartialEq::eq`, which `ink` derives for the
/// 32-byte wrapper: two accounts compare equal exactly when they are the same
/// value. Nothing of this is proved here.
#[verifier::external_body]
pub(crate) fn same_account(a: &AccountId, b: &AccountId) -> (same: bool)
    ensures
        same == (*a == *b),
{
    a.eq(b)
}

} // verus!
