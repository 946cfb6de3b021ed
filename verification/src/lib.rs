//! Composable building blocks for small feed-forward neural networks.
//!
//! Every block is a [`Network`]: it evaluates its input into an
//! [`Intermediate`] record and later consumes that record, together with the
//! gradients of the error over its output, to update its own parameters and
//! hand the gradients over its input to whatever came before it. Blocks are
//! put one after the other with [`compose::Chain`] and side by side with
//! [`compose::Zip`]. [`net::NNetwork`] is a self-contained multilayer
//! perceptron that follows the same protocol over layers of any size.
//!
//! The arithmetic is abstract: all blocks are generic over a [`Scalar`], a
//! number type whose operations are named but not interpreted. What is proved
//! of a block is therefore which operations it applies to which values and in
//! which order, and that it never reads outside a vector or a matrix.
//! [`fixed::Fixed`] is a number type whose operations are verified as well.

pub mod scalar;
pub mod fixed;
pub mod array;
pub mod linalg;
pub mod deriv;
pub mod network;
pub mod compose;
pub mod net;
pub mod full;
pub mod error;
pub mod activ;
pub mod common;

pub use network::{Compose, Intermediate, Network};
pub use fixed::Fixed;
pub use scalar::Scalar;
