//! The capture artifacts: the capture configuration, the resource descriptor
//! stamped on a capture, and the pieces of the trace rendering that are pure
//! computation.

pub mod capture;
pub mod config;
pub mod otlp;
pub mod resource;
