//! The registry document: components, operations, named types and type
//! references, with the cross-item validation and the assembly of a document.

pub mod type_ref;
pub mod named_type;
pub mod operation;
pub mod component;
pub mod document;
pub mod validate;
pub mod assemble;
