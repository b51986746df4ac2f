//! A fixed-point collision core for a 2D simulation of moving axis-aligned
//! rectangles: a partition tree for broad-phase pair search, a two-step
//! collision memory, and axis and impulse resolution between bodies.
//!
//! Units: positions and extents are in nanopixels, velocities and impulses in
//! millipixels per second, durations in microseconds, so that a velocity times
//! a duration is exactly a displacement.

pub mod geometry;
pub mod pair_set;
pub mod cd_system;
pub mod btree;
pub mod movable;
pub mod actor;
pub mod action;
