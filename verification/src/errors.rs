use vstd::prelude::*;

verus! {

/// The closed set of failures an engine operation can report. Each variant is
/// tied to exactly one precondition: an operation either commits in full or
/// returns one of these with no state change.
#[derive(Clone, Copy, Debug, PartialEq, Eq)]
pub enum Error {
    /// `initialize` was called on an engine that already holds durable state.
    AlreadyInitialized,
    /// The requested threshold is zero or exceeds the number of signers.
    InvalidThreshold,
    /// The caller is not a member of the signer set.
    NotSigner,
    /// No proposal exists under the given identifier.
    ProposalNotFound,
    /// The caller already appears among the proposal's approvers.
    AlreadyApproved,
    /// The proposal has already fired; it can never fire again.
    ProposalExecuted,
    /// The proposal has fewer approvals than the configured threshold.
    ThresholdNotMet,
    /// `initialize` was given an empty signer list.
    NoSigners,
    /// The engine holds no durable state yet.
    NotInitialized,
}

} // verus!
