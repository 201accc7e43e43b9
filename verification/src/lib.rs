//! Evaluation of univariate polynomials over modular scalar algebras.
//!
//! A `Polynomial` owns an ordered coefficient sequence over any scalar type
//! implementing `ScalarTrait`, and offers two evaluation algorithms
//! (power-accumulation and Horner's scheme) together with "reversed" variants
//! that evaluate the reciprocal polynomial without materializing a reversed
//! coefficient buffer.

pub mod algebra;
pub mod entropy;
pub mod scalar;
pub mod poly;
pub mod wrap_scalars;
pub mod secp_scalar;
pub mod ed25519_scalar;
