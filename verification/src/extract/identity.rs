//! The identity a derived registry document is stamped with.

use vstd::prelude::*;

verus! {

/// The `registryId`/`version` pair a derived registry document is stamped
/// with. Resolving it from configuration or the environment is a separate
/// concern; here it is simply a parameter to `derive`.
#[derive(Debug, Clone)]
pub struct RegistryIdentity {
    /// The registry family id, e.g. `"urn:ctsc:registry:example:1"`.
    pub registry_id: String,
    /// The source package/release/commit/build the document is derived from.
    pub version: String,
}

} // verus!
