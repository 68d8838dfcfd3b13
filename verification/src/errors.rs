//! The failure taxonomy of the voting engine.

use vstd::prelude::*;

verus! {

/// Every failure a voting operation can report.
///
/// Each error is detected before any mutation, so a call that returns one of
/// these leaves the state exactly as it was. `ArithmeticOverflow` is part of
/// the public taxonomy but is never produced: all arithmetic in the engine
/// saturates instead of overflowing.
#[derive(Clone, Copy, Debug, PartialEq, Eq, Structural)]
pub enum QuadraticVotingError {
    /// No session exists under the given id.
    SessionNotFound,
    /// The session exists but is not votable: its active flag is cleared or
    /// the current time has reached its end time.
    SessionNotActive,
    /// A proposal id is outside the session's proposal range.
    ProposalNotFound,
    /// The voter has never registered.
    VoterNotRegistered,
    /// The voter's remaining session credits do not cover the quadratic cost
    /// of the requested batch.
    InsufficientCredits,
    /// The proposal-id list and the weight list differ in length.
    InvalidVoteCount,
    /// A non-administrator attempted an administrative action, or an identity
    /// attempted to register twice.
    Unauthorized,
    /// Reserved: saturating arithmetic never raises it.
    ArithmeticOverflow,
    /// A session was given no initial proposals, or a proposal batch would
    /// push a session past its capacity.
    InvalidProposalCount,
}

} // verus!
