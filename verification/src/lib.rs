//! Shape-level model of a small convolutional digit classifier and of the
//! fixed-epoch mini-batch schedule that trains it.
//!
//! Everything here works on integers: layer descriptors, tensor shapes, label
//! ranges and batch index ranges. The numeric tensor work is done by a tensor
//! runtime outside this crate, which is told by these functions what to run
//! and on which shapes.

pub mod dataset;
pub mod error;
pub mod geometry;
pub mod labels;
pub mod layer;
pub mod model;
pub mod probability;
pub mod shape;
pub mod training;
