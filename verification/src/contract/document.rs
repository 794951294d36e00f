//! The registry document root.

use vstd::prelude::*;
use crate::contract::component::{Component, ComponentShape, Import, ImportShape};
use crate::contract::type_ref::{dup_vec, opt_clone, opt_view, views_of, Duplicate};

verus! {

/// The `format` discriminant every registry document carries.
pub const FORMAT: &'static str = "ctsc.registry";

/// The registry schema version this crate models.
pub const FORMAT_VERSION: &'static str = "0.2.0";

/// A registry document: one object declaring one or more components,
/// optionally importing other documents.
#[derive(Debug, PartialEq, Eq)]
pub struct RegistryDocument {
    /// The registry schema discriminant; must be [`FORMAT`].
    pub format: String,
    /// The registry schema version; must be [`FORMAT_VERSION`].
    pub format_version: String,
    /// The registry family id.
    pub registry_id: String,
    /// The source package/release/commit/build the document was generated from.
    pub version: String,
    /// An optional human-readable description.
    pub description: Option<String>,
    /// Other registry documents this one imports.
    pub imports: Vec<Import>,
    /// The components this document declares (one or more).
    pub components: Vec<Component>,
}

pub struct DocumentShape {
    pub format: Seq<char>,
    pub format_version: Seq<char>,
    pub registry_id: Seq<char>,
    pub version: Seq<char>,
    pub description: Option<Seq<char>>,
    pub imports: Seq<ImportShape>,
    pub components: Seq<ComponentShape>,
}

impl View for RegistryDocument {
    type V = DocumentShape;

    open spec fn view(&self) -> DocumentShape {
        DocumentShape {
            format: self.format@,
            format_version: self.format_version@,
            registry_id: self.registry_id@,
            version: self.version@,
            description: opt_view(self.description),
            imports: views_of(self.imports@),
            components: views_of(self.components@),
        }
    }
}

impl Duplicate for RegistryDocument {
    fn duplicate(&self) -> (r: RegistryDocument) {
        RegistryDocument {
            format: self.format.clone(),
            format_version: self.format_version.clone(),
            registry_id: self.registry_id.clone(),
            version: self.version.clone(),
            description: opt_clone(&self.description),
            imports: dup_vec(&self.imports),
            components: dup_vec(&self.components),
        }
    }
}

} // verus!
