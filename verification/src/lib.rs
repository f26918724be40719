//! Tensors of integers on interchangeable compute engines, with exact
//! gradients by reverse-mode differentiation.
//!
//! * [`shape`], [`data`] and [`model`] describe tensors: dimension sizes,
//!   row-major buffers, and what every operation computes.
//! * [`ops`] is the interface of a compute engine; [`dense`] and the modules
//!   beside it are the reference engine.
//! * [`autodiff`] wraps an engine so that operations are recorded in a
//!   [`graph`], and [`backward`] turns a recorded graph into gradients.
//! * [`theorems`] states what holds of all of these together.
//! * [`module`], [`embedding`] and [`learner`] are the layer and training
//!   configuration built on top.
pub mod autodiff;
pub mod backward;
pub mod data;
pub mod dense;
pub mod dense_gather;
pub mod dense_index;
pub mod dense_ops;
pub mod dense_reduce;
pub mod embedding;
pub mod graph;
pub mod learner;
pub mod model;
pub mod module;
pub mod ops;
pub mod shape;
pub mod theorems;
