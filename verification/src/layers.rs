//! Layers: trainable transformation stages. Each layer exposes shape
//! introspection, a pure forward evaluation, a backward pass built
//! around an explicit one-shot context captured during the forward
//! evaluation, and a parameter update path.

pub mod activation;
pub mod conv2d;
pub mod deconv1d;
pub mod dense;
pub mod embedding;
pub mod merge;
pub mod pooling2d;
pub mod split;
