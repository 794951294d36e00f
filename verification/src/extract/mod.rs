pub mod scan;
pub mod type_ref;
pub mod return_kind;
pub mod identity;
pub mod derive;
pub mod binding;
