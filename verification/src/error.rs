//! The error taxonomy surfaced to callers.  Every retrieval error carries
//! the fully-qualified name it was composed for, and a shape mismatch
//! carries both the declared and the expected shape, so a caller can
//! diagnose a failure without re-deriving the lookup.

use vstd::prelude::*;

verus! {

/// Why a container could not be loaded or a tensor could not be resolved.
#[derive(Debug)]
pub enum Error {
    /// The container header could not be parsed, or a descriptor in it is
    /// malformed (a zero dimension, an oversized element count, or an
    /// unknown dtype code).
    ContainerFormat,
    /// The composed fully-qualified name is absent from the index.
    NotFound { name: String },
    /// The descriptor's declared shape differs element-wise from the shape
    /// the caller expected.
    ShapeMismatch { name: String, found: Vec<usize>, expected: Vec<usize> },
    /// The descriptor's byte range does not lie within the container, so
    /// the payload read cannot complete.
    Io { name: String },
    /// The payload bytes are inconsistent with the declared scheme: the
    /// element count does not divide into whole blocks, or the codec
    /// rejected the data.
    Codec { name: String },
}

} // verus!
