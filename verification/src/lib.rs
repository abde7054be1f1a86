//! A minimal kernel runtime: a swappable heap-allocation subsystem over a
//! fixed memory region, and a cooperative, interrupt-safe task executor.
//!
//! Addresses are modelled as plain `usize` values and free lists as owned
//! region descriptors, so every allocation decision is verified; the raw
//! memory writes that a running kernel would perform live outside this crate.

pub mod allocators;
pub mod executor;
pub mod keyboard;
pub mod queues;
pub mod simple_executor;
pub mod task;

