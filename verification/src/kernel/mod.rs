//! Covariance kernels: the kernel tree, its parameter layout and the
//! operations that build, render and navigate it.

pub mod composite;
pub mod if_kernel;
pub mod indicator;
pub mod kernel;
pub mod laws;
pub mod linear;
pub mod multiplicative;
pub mod rbf;
pub mod spectral_mixture;
pub mod specification;
pub mod utils;
