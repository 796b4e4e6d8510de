//! The terminal interface: its editing state and its key handling.

pub mod app;
pub mod model;
