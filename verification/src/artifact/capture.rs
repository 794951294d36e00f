//! The trace serialization shapes.

use vstd::prelude::*;

verus! {

/// The OTLP serialization shape to render.
#[derive(Debug, Clone, Copy, PartialEq, Eq, Structural)]
#[non_exhaustive]
pub enum OtlpFormat {
    /// One pretty-printed `TracesData` JSON object (`.otlp.json`).
    Json,
    /// The streaming form: one complete `TracesData` per `\n`-terminated line
    /// (`.otlp.jsonl`).
    Jsonl,
}

} // verus!
