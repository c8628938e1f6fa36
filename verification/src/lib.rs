//! Tiling and work distribution for an implicit-surface renderer.
//!
//! The crate normalizes user-facing render parameters into a padded,
//! tile-aligned configuration, addresses fixed-size tiles inside that
//! configuration, and hands tiles out to worker threads through a
//! lock-free queue.

pub mod config;
pub mod queue;
