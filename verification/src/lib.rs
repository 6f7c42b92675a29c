//! Matrices over any type with `+`, `*` and a zero, with shape-checked sum and product,
//! and a small feed-forward network that is evaluated with them.
pub mod cursor;
pub mod matrix;
pub mod neural_network;
pub mod scalar;
