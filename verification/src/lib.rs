//! Verified core of an interactive viewer for affine iterated function
//! systems.
//!
//! The viewer itself opens a window, draws random numbers and does its
//! arithmetic in single precision.  This crate holds the part of it that is
//! decided by order and by counting alone: the bounding rectangle of the
//! points seen so far, the choice of the next transform from a table of
//! running sums, the built-in systems, the capped buffer of plotted points and
//! the reaction to keyboard input.  Single-precision values cross the boundary
//! as their bit patterns, see [`single::Single`].

pub mod bounds;
pub mod controls;
pub mod ifs;
pub mod presets;
pub mod single;
pub mod trace;
