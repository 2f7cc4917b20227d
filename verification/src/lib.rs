//! Building blocks of a UDP load generator: a cyclic batch sampler that
//! spreads a finite pool of payloads evenly over equal-size batches, a rate
//! controller that turns a requested delay or frequency into a timer schedule,
//! a state machine for overlaying a periodic report onto a primary task, and
//! parsers for human-readable amounts and durations.


pub mod batches;
pub mod math;
pub mod overlay;
pub mod payload;
pub mod rate;
pub mod units;
