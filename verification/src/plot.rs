//! The parts of the plotting layer that are plain data.
pub mod layout;
pub mod window;
