//! Failures the pipeline can detect. Every one of them aborts the whole run:
//! no error is retried or swallowed, and no output is produced after one.

use vstd::prelude::*;

verus! {

/// Why a pipeline run was aborted.
#[derive(Clone, Copy, PartialEq, Eq, Structural, Debug)]
pub enum PipelineError {
    /// The requested output width was zero.
    WidthZero,
    /// The requested output width exceeds the advisory total frame count, so
    /// the sampling stride would be zero.
    WidthExceedsFrames,
    /// The number of collected results differs from the number of jobs that
    /// were submitted, so the image would be short or garbled.
    ResultCountMismatch,
    /// Assembly was handed no columns at all.
    EmptyColumnSet,
    /// A column's height differs from the first column's height.
    ColumnHeightMismatch,
}

} // verus!
