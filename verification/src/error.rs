//! Errors surfaced by the ledger's handlers and its codec.

use vstd::prelude::*;

verus! {

/// Every failure an instruction can abort with. A failing instruction never
/// persists any mutation.
#[derive(Clone, Copy, Debug, PartialEq, Eq, Structural)]
pub enum GsnError {
    /// The ledger account was already initialized (defensive; the enforcement
    /// point lies with the deployer, outside this core).
    AlreadyInUse,
    /// The ledger record is in a state no handler can act on.
    InvalidState,
    /// A governance-gated operation was attempted by a non-authority or by a
    /// caller that did not sign.
    Unauthorized,
    /// A governance mutation was attempted with no governance configured.
    GovernanceNotInitialized,
    /// A percent fee above 10000 basis points, or an unrecognized fee-mode tag.
    InvalidFeeMode,
    /// The consumer's pre-funded balance does not cover the computed fee;
    /// checked strictly before the external transfer.
    InsufficientBalance,
    /// The submitted nonce lies below the expected next nonce: a replay.
    ReplayAttack,
    /// The submitted nonce is not exactly the expected next nonce.
    InvalidNonce,
    /// A fee claim by a non-signer, or to a destination other than the
    /// claimant itself.
    UnauthorizedFeeClaim,
    /// An instruction buffer that decodes to no instruction, or a transaction
    /// submitted by a consumer that never topped up.
    InvalidInstructionData,
    /// A byte buffer that holds no well-formed ledger record.
    InvalidRecord,
    /// The target buffer cannot hold the serialized record.
    StorageTooSmall,
    /// A fee claim with nothing earned.
    InsufficientFunds,
    /// The external transfer service reported failure; the instruction has no
    /// effect on the ledger.
    TransferFailed,
    /// The positional account list is shorter than the instruction requires.
    MissingAccount,
}

} // verus!
