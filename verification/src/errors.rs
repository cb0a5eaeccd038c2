use vstd::prelude::*;

verus! {

/// Every failure an oracle entry point can report. All are fatal to the
/// current invocation: when an entry point returns one of these, it leaves
/// oracle state and ledger balances exactly as they were.
#[derive(Clone, Copy, Debug, PartialEq, Eq, Structural)]
pub enum OracleError {
    /// `initialize` was called on an already-initialized oracle.
    AlreadyInitialized,
    /// An entry point other than `initialize` ran before initialization.
    NotInitialized,
    /// The caller was not authenticated, or did not hold the required role.
    Unauthorized,
    /// The reported epoch has not fully elapsed yet.
    FutureOrPresentEpoch,
    /// The reported epoch is not exactly the successor of the latest one.
    NonSequentialEpoch,
    /// No value has been recorded for the requested epoch.
    RecordNotFound,
    /// The payout transfer could not be performed; the invocation aborted.
    TransferFailed,
}

} // verus!
