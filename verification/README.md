# driftwatch

Captures a codebase's contract (the static API shape declared by annotated
operations and watched types) as a registry document, validates it, and
describes what a capture run writes.

- `src/` is the verified library (Verus): type-string lowering, return-type
  classification, registry assembly and derivation, validation, capture
  configuration, the decisions of the annotation macros and the analysis of
  annotated source. Each public function states its result exactly over
  spec models; the laws (ordering, order independence, locality of
  references, transparency of wrappers) are public proof functions.
- `app/` is ordinary Rust around it: reading files and the environment,
  TOML/JSON decoding and encoding, and conversions from `syn` syntax.
- `tests/` runs the library on concrete values.
