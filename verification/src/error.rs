use vstd::prelude::*;

verus! {

/// Errors raised by the aggregator and the windowed pipeline.
///
/// Structural validation errors (`ShapeMismatch`, `LabelMismatch`,
/// `MissingPhenotypeSource`, `DuplicatePhenotypeSource`) are raised eagerly,
/// before any window is processed. `MismatchedVariantIds`,
/// `ChunkShapeMismatch` and `Source` abort a run while a window is being
/// processed; `IncompleteAggregation` reports a finalize call made before
/// every phenotype contributed to the current window.
#[derive(Debug, PartialEq, Eq)]
pub enum Error {
    /// The covariance matrix is not square with dimension equal to the
    /// projection matrix's row count.
    ShapeMismatch,
    /// The projection matrix's row labels differ from the covariance
    /// matrix's labels (an ordered equality check, not a set comparison).
    LabelMismatch,
    /// No summary-statistic source was supplied for this phenotype.
    MissingPhenotypeSource(String),
    /// More than one summary-statistic source was supplied for this
    /// phenotype.
    DuplicatePhenotypeSource(String),
    /// A phenotype chunk's variant-identifier sequence differs from the
    /// window's canonical sequence.
    MismatchedVariantIds,
    /// Finalize was requested before all phenotypes contributed to the
    /// current window.
    IncompleteAggregation,
    /// A source handed back a chunk whose row count or projection count does
    /// not match the current window; the payload names the source.
    ChunkShapeMismatch(String),
    /// A source or the output sink failed; the payload carries its message.
    Source(String),
}

} // verus!
