//! Error kinds of the retrieval core.

use vstd::prelude::*;

verus! {

/// Failures of the retrieval core.
#[derive(Debug, Clone, PartialEq, Eq)]
pub enum MemoryError {
    /// The embedding model backend failed.
    EmbeddingFailed(String),
    /// A vector's length differs from the table's fixed dimension.
    DimensionMismatch { expected: usize, actual: usize },
    /// The vector/text store failed to open, write, delete, search or index.
    StoreBackendError(String),
}

} // verus!
