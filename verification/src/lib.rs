//! A pooled scholarship fund: donors pay into a shared pool, students apply
//! before a deadline, the pool's creator allocates tiered awards from the
//! balance, and a final distribution pays every approved applicant and closes
//! the pool.
//!
//! The library is the pool's state machine: validation, donor accounting,
//! application registry, merit ranking, award tiering, and payout arithmetic,
//! all on plain values. Host concerns (durable storage, the clock, identity
//! authentication, and the token transfers themselves) stay outside; callers
//! hand in the current time and identities as plain integers, and receive
//! transfer instructions back to execute.

pub mod awards;
pub mod errors;
pub mod laws;
pub mod lookup;
pub mod pool;
pub mod ranking;
pub mod types;
