//! Nested payload filtering: per-element matching over nested arrays, the
//! boolean combinators that merge per-element bit vectors, and the top-level
//! verdict for a point.

pub mod bits;
pub mod types;
pub mod model;
pub mod nested_filter;
pub mod laws;
pub mod vector_ops;
