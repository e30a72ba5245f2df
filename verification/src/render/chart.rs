//! Geometry of chart marks.
pub mod bar;

pub use bar::ChartBar;
