//! Fibonacci terms computed with a pair of accumulators, a three-way
//! classification of the result, and a few small list and number routines.
pub mod classify;
pub mod fibonacci;
pub mod routines;
