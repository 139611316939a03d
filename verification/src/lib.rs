//! Structural core of a Gaussian-process regression toolkit: parameter
//! constraints, covariance-kernel trees (parameter layout, constraint
//! recommendation, parsing of kernel specifications, tree rendering and
//! sub-kernel selection), model parameter layouts and the stall counter
//! of the coin-betting optimiser. Numerical evaluation lives outside the
//! verified core; every kernel is generic over its parameter value type.

pub mod constraint;
pub mod text;
pub mod kernel;
pub mod util;
pub mod likelihood;
pub mod model;
pub mod coin_optimizer;
