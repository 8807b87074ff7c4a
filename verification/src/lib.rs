//! Procedural generation of plant-leaf outlines.
//!
//! A parametric rewriting system grows a sequence of symbols generation by
//! generation, a turtle replays the sequence as pen movements that close
//! polygons in space, and the polygons are fitted into a target volume and
//! projected onto a plane. Every quantity is a decimal fixed-point number, so
//! that each step is an exact function of its inputs.

pub mod error;
pub mod fixed;
pub mod outline;
pub mod systems;
pub mod turtle;
pub mod utils;
