//! Source analysis: what a semantic analysis of annotated code reports,
//! lowered into the registry document, and the textual probes over the
//! annotated source that go with it.

pub mod semantic;
pub mod source;
pub mod summary;
pub mod registry;
pub mod analyze;
