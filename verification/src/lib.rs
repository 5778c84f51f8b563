//! A fully connected feed-forward neural network trained by full-batch
//! gradient descent, generic over the scalar its parameters are made of.
//!
//! The library owns the structure of the computation: which values are
//! combined, in which order, and what is checked along the way. The
//! arithmetic itself is supplied by the caller as an evaluator of
//! [`scalar::Operation`] values. The contracts are stated over the
//! arithmetic that the evaluator carries out, [`scalar::meaning`], and the
//! laws hold of every arithmetic.

pub mod backprop;
pub mod cost;
pub mod error;
pub mod flatten;
pub mod forward;
pub mod gradient;
pub mod gradient_check;
pub mod matrix;
pub mod network;
pub mod options;
pub mod scalar;
pub mod train;
pub mod vectors;

pub use error::NetworkError;
pub use forward::FeedForwardIntermediates;
pub use matrix::{Matrix, MatrixShape};
pub use network::{SimpleNeuralNetwork, TrainingDataPoint};
pub use options::CheckOptions;
pub use scalar::Operation;
pub use train::TrainingReport;
