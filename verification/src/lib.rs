//! A multi-party authorization engine: a fixed set of signers gates a single
//! kind of action (transferring an amount of a fungible asset to a recipient)
//! behind a threshold number of independent approvals.
//!
//! The engine owns the signer set, the approval threshold and the proposal
//! ledger, and exposes `initialize`, `propose`, `approve`, `execute` and
//! read-only accessors. Identity authentication and the asset transfer itself
//! are external collaborators: callers hand the engine already-authenticated
//! identities, and `execute` is given the transfer service as a callback whose
//! verdict gates whether the proposal is marked executed.

pub mod errors;
pub mod wallet;
