//! Initial-value problems of ordinary differential equations.
pub mod ivp;
pub mod laws;
pub mod tableau;
