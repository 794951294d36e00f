//! The decisions behind the annotation macros, over plain-value models of the
//! syntax they read: which completion event an operation emits, which
//! parameters become inputs, what a registration records, how the macro
//! arguments parse, and which field mutations are echoed.

pub mod ident;
pub mod syntax;
pub mod args;
pub mod expand;
