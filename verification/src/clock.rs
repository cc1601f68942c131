//! The clock of the hosting environment.

use vstd::prelude::*;

verus! {

/// Calls `ink::env::block_timestamp` for the default environment and hands
/// back the host's current block time. Nothing is promised of the value: it
/// is whatever the host reports at the moment of the call.
#[verifier::external_body]
pub(crate) fn block_timestamp() -> (now: u64) {
    ink::env::block_timestamp::<ink::env::DefaultEnvironment>()
}

} // verus!
