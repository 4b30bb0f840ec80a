//! The parts that an axis is made of.

pub mod axis;
