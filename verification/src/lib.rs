//! Delay strategies: one request, "wait for this long", carried out by
//! whichever mechanism suits the caller's execution context.
//!
//! * [`span`] holds the canonical time span that the decisions are made on.
//! * [`host_timer`] decides what a one-shot host timer is armed with and
//!   follows the timer from registration to its single resolution.
//! * [`delay`] holds the strategy contract and what each strategy asks of
//!   its platform.

pub mod delay;
pub mod host_timer;
pub mod span;
