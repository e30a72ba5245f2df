//! Verified core of a declarative UI layout and rendering library: geometry
//! primitives, layout dimensions, interpolation, a static bounding-volume
//! hierarchy for damage tracking, render-tree joining and event results.

pub mod font;
pub mod primitives;
pub mod render;
pub mod view;
pub mod transition;
pub mod event;
pub mod focus;
pub mod harness;
