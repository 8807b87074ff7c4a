pub mod nesting;
pub mod polygon;
