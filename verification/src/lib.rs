//! Incremental polynomial sampling by the method of finite forward
//! differences.
//!
//! A polynomial of degree N, sampled at a fixed step, has a constant N-th
//! forward difference; the sampler precomputes the difference registers in
//! wide (binary64) precision, narrows them once to the compact (binary32)
//! register width, and thereafter produces each successive sample with N
//! additions and no multiplication.
//!
//! All numbers are carried as IEEE 754 bit patterns (`u64` for binary64,
//! `u32` for binary32); the arithmetic itself is done by `rustc_apfloat`,
//! a software implementation of IEEE 754, behind trusted wrappers.

pub mod ieee;
pub mod polynomial;
pub mod sampler;

pub use polynomial::Polynomial;
pub use sampler::IterativePolynomialSampler;
