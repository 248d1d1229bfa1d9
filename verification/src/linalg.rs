//! Dense matrices and vectors of fixed dimensions.
pub mod laws;
pub mod model;
pub mod ndarray;
