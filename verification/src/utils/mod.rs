pub mod geometry;
pub mod random;
