//! Components, their dependencies, and registry imports.

use vstd::prelude::*;
use crate::contract::named_type::{NamedType, NamedTypeShape};
use crate::contract::operation::{Operation, OperationShape};
use crate::contract::type_ref::{dup_vec, opt_clone, opt_view, views_of, Duplicate};

verus! {

/// A reference to another registry document.
///
/// The digest pins the exact imported bytes and the URI is an optional
/// retrieval hint.
#[derive(Debug, PartialEq, Eq)]
pub struct Import {
    /// The imported registry family id.
    pub registry_id: String,
    /// The imported registry version.
    pub version: String,
    /// `sha256:` digest pinning the exact imported document bytes.
    pub digest: String,
    /// An optional retrieval hint for the imported document.
    pub uri: Option<String>,
}

/// A component the owning component depends on. A cross-component named-type
/// reference requires a matching dependency.
#[derive(Debug, PartialEq, Eq)]
pub struct Dependency {
    /// The depended-on component id.
    pub component_id: String,
    /// The registry the component lives in, for cross-document dependencies.
    pub registry_id: Option<String>,
}

/// A component: operations, named types and declared dependencies, keyed by an
/// id unique across the resolved registry set.
#[derive(Debug, PartialEq, Eq)]
pub struct Component {
    /// The component id.
    pub id: String,
    /// An optional human-readable description.
    pub description: Option<String>,
    /// The components this one depends on.
    pub dependencies: Vec<Dependency>,
    /// The operation declarations.
    pub operations: Vec<Operation>,
    /// The named type declarations.
    pub types: Vec<NamedType>,
}

pub struct ImportShape {
    pub registry_id: Seq<char>,
    pub version: Seq<char>,
    pub digest: Seq<char>,
    pub uri: Option<Seq<char>>,
}

pub struct DependencyShape {
    pub component_id: Seq<char>,
    pub registry_id: Option<Seq<char>>,
}

pub struct ComponentShape {
    pub id: Seq<char>,
    pub description: Option<Seq<char>>,
    pub dependencies: Seq<DependencyShape>,
    pub operations: Seq<OperationShape>,
    pub types: Seq<NamedTypeShape>,
}

impl View for Import {
    type V = ImportShape;

    open spec fn view(&self) -> ImportShape {
        ImportShape {
            registry_id: self.registry_id@,
            version: self.version@,
            digest: self.digest@,
            uri: opt_view(self.uri),
        }
    }
}

impl View for Dependency {
    type V = DependencyShape;

    open spec fn view(&self) -> DependencyShape {
        DependencyShape { component_id: self.component_id@, registry_id: opt_view(self.registry_id) }
    }
}

impl View for Component {
    type V = ComponentShape;

    open spec fn view(&self) -> ComponentShape {
        ComponentShape {
            id: self.id@,
            description: opt_view(self.description),
            dependencies: views_of(self.dependencies@),
            operations: views_of(self.operations@),
            types: views_of(self.types@),
        }
    }
}

impl Duplicate for Import {
    fn duplicate(&self) -> (r: Import) {
        Import {
            registry_id: self.registry_id.clone(),
            version: self.version.clone(),
            digest: self.digest.clone(),
            uri: opt_clone(&self.uri),
        }
    }
}

impl Duplicate for Dependency {
    fn duplicate(&self) -> (r: Dependency) {
        Dependency {
            component_id: self.component_id.clone(),
            registry_id: opt_clone(&self.registry_id),
        }
    }
}

impl Duplicate for Component {
    fn duplicate(&self) -> (r: Component) {
        Component {
            id: self.id.clone(),
            description: opt_clone(&self.description),
            dependencies: dup_vec(&self.dependencies),
            operations: dup_vec(&self.operations),
            types: dup_vec(&self.types),
        }
    }
}

} // verus!
