//! A quadratic-voting library.
//!
//! Casting a vote of weight `w` on a proposal costs `w * w` credits out of a
//! bounded, per-session budget, so concentrating preference on one choice is
//! increasingly expensive. The library owns the whole voting state — sessions,
//! proposals, the voter registry and the credit ledger — as one aggregate,
//! [`engine::QuadraticVoting`]. The hosting environment supplies the caller's
//! identity and the current logical time as plain arguments and consumes the
//! reported outcomes; nothing here performs I/O.
//!
//! Every operation either fully validates and fully applies, or fails with a
//! tagged [`errors::QuadraticVotingError`] and no state change. All arithmetic
//! saturates instead of overflowing.

pub mod cost;
pub mod engine;
pub mod errors;
pub mod laws;
pub mod registry;
pub mod session;

pub use engine::QuadraticVoting;
pub use errors::QuadraticVotingError;
