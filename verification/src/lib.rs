//! Decision logic of a debouncer, a throttler, a throttle checkpoint and a
//! timeout timer, written as state machines whose steps are verified.

pub mod debounce;
pub mod throttle;
pub mod throttle_gate;
pub mod timeout;
