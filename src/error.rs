//! The failures a caller can observe, one variant per kind.

use vstd::prelude::*;

use crate::types::{Address, U256};

verus! {

#[allow(inconsistent_fields)]
#[derive(Clone, Copy, Debug, PartialEq, Eq)]
pub enum PaymasterError {
    /// `initialize` ran before.
    AlreadyInitialized,
    /// The engine has not been initialized yet.
    NotInitialized,
    /// Execution is paused.
    ContractPaused,
    /// The caller is not the owner.
    NotOwner,
    /// The request's deadline lies before the current time.
    DeadlineExpired { deadline: U256, current_time: U256 },
    /// The request names a target other than the allowed one.
    TargetNotAllowed { target: Address },
    /// The request's nonce is not the author's next nonce.
    InvalidNonce { expected: U256, provided: U256 },
    /// The signature was made for another address.
    InvalidSignature { expected: Address, recovered: Address },
    /// The forwarded call failed.
    CallFailed,
    /// The recovery primitive failed or reported no signer.
    EcrecoverFailed,
}

} // verus!
