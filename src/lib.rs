//! Geometry, layout, projection and tick logic for a chart renderer.
//!
//! All pixel coordinates and data values are whole numbers (`i64`), so that
//! every computation here is exact and checked.
pub mod bounds;
pub mod edge;
pub mod layout;
pub mod arith;
pub mod projection;
pub mod ticks;
pub mod grid;
pub mod anchor;
pub mod padding;
pub mod label;
pub mod colour;
pub mod series;
pub mod legend;
pub mod path;
pub mod pointer;
pub mod inner;
pub mod state;
