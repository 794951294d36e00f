//! Driftwatch: the contract document model, its validation and assembly, the
//! type-string lowering that derives it, and the capture configuration.

pub mod text;
pub mod ordering;
pub mod contract;
pub mod extract;
pub mod artifact;
pub mod macros;
pub mod fixture;
pub mod analysis;
pub mod emission;
