//! A regulator that keeps a host's measured CPU and memory utilisation near
//! configured targets: a duty-cycle decision per core, and a pool of memory
//! blocks that grows and shrinks with the measured memory usage.
//!
//! The library holds the decisions and the pool. Sampling the host, sleeping
//! and spinning for a duration are left to the caller, which hands each sample
//! in as plain integers.
//!
//! - [`band`]: the target band and its midpoint.
//! - [`cpu`]: the duty-cycle decision of one core.
//! - [`pool`]: the pool of memory blocks, with growing and shrinking.
//! - [`ram`]: the memory controller and the model of one cycle.
//! - [`convergence`]: what holds of cycles: holding still inside the band,
//!   progress towards the midpoint below it.
//! - [`config`]: the settings of both controllers.

pub mod band;
pub mod config;
pub mod convergence;
pub mod cpu;
pub mod pool;
pub mod ram;
