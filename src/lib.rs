//! Resumable, rate-limited harvesting of a paginated API, split by category.
//!
//! The library holds the decisions: where a progress counter points, how an
//! upstream `next` link is repaired, which responses are throttling in
//! disguise, and the sweep state machine that drives one category visit at a
//! time. The caller performs the waits, the HTTP calls and the storage writes
//! that the machine asks for, and hands back what came of them.
pub mod laws;
pub mod limiter;
pub mod page;
pub mod paging;
pub mod sweep;
pub mod text;
