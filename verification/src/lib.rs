//! A small dense linear-algebra kernel with matrices and vectors of fixed
//! dimensions, and a classical fourth-order Runge-Kutta integrator built on it.
//!
//! The kernel and the integrator compute with any number type that implements
//! [`scalar::Scalar`]. Their contracts state every result entry by entry over
//! the scalar's own operations, in the order in which the code applies them.
pub mod diffeq;
pub mod linalg;
pub mod plot;
pub mod scalar;
