//! Film metadata display engine: a fixed field catalog, flag-driven field
//! projection, single-title rendering, side-by-side comparison with word
//! wrapping, and unit-aware numeric difference reporting.

pub mod api;
pub mod catalog;
pub mod cli;
pub mod compare;
pub mod diff;
pub mod num;
pub mod render;
pub mod text;
