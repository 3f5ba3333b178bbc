//! The error kinds that an operation of the module can fail with.

use vstd::prelude::*;

verus! {

/// Every way an operation of this module can fail.
///
/// Any error aborts the whole operation with no partial persistence: a
/// mutating function that returns an error leaves the state exactly as it
/// found it.
#[derive(Clone, Copy, Debug, PartialEq, Eq, Structural)]
pub enum ContractError {
    /// The caller of an owner-gated operation is not the configured owner.
    Unauthorized,
    /// The stored module name does not match this module's name (migration
    /// guard).
    InvalidContractName,
    /// The stored module version is not strictly below this module's version
    /// (migration guard).
    InvalidContractVersion,
    /// A proposal expiration lies further ahead of the current block time
    /// than the configured maximum duration allows.
    MaxDuration,
    /// A proposal expiration lies before the current block time.
    LowerTime,
    /// A vote was cast on a proposal whose status forbids it. Kept for
    /// compatibility with the operation surface; no operation returns it.
    StatusDisabled,
    /// A requested proposal or audit-log entry does not exist.
    NotFound,
    /// The block height observed by a mutating operation is not strictly
    /// above the last height recorded in the audit log.
    AuditInvariantViolation,
}

} // verus!
