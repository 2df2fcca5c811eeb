//! A small neural-network training framework built around a verified
//! tensor engine: strided N-dimensional arrays with views, a layer
//! contract with explicit backward contexts, and sequential model
//! composition whose shape compatibility is checked when the model is
//! built.

pub mod shape;
pub mod tensor;
pub mod view;
pub mod iter;
pub mod activations;
pub mod regularizers;
pub mod constraints;
pub mod initializers;
pub mod losses;
pub mod metrics;
pub mod layers;
pub mod model;
pub mod schedules;
pub mod optimizers;
pub mod trainer;

pub use shape::Shape;
pub use tensor::Tensor;
pub use view::{SliceIndex, TensorView, TensorViewMut};
pub use iter::{Iter, Indexed};
