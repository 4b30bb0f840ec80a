//! Scales that map data values onto a pixel range, and the axis geometry
//! (baseline, ticks, tick labels, axis label) that draws such a mapping.
//!
//! All numeric work is exact: data values and pixel offsets are rational
//! numbers, so every tick and every offset is the mathematical value and not
//! an approximation of it.

pub mod arith;
pub mod axis;
pub mod components;
pub mod fraction_laws;
pub mod laws;
pub mod markup;
pub mod rational;
pub mod scales;
pub mod text;

pub use crate::axis::{Axis, AxisPosition, Viewport};
pub use crate::components::axis::{AxisError, AxisLine, AxisTick};
pub use crate::rational::Rational;
pub use crate::scales::band::ScaleBand;
pub use crate::scales::linear::ScaleLinear;
pub use crate::scales::logarithmic::ScaleLogarithmic;
pub use crate::scales::{Scale, ScaleDomainValue, ScaleError, ScaleKind, ScaleType};
