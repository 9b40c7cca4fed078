//! The pipeline's failure taxonomy.
//!
//! Every stage reports a typed failure; the orchestrator propagates the
//! first failure and never retries.

use vstd::prelude::*;

verus! {

/// A typed failure of one pipeline stage.
#[derive(Debug)]
pub enum PipelineError {
    /// The project's build manifest could not be resolved.
    ManifestResolution,
    /// The build tool could not be spawned at all.
    BuildProcessUnavailable,
    /// The build tool ran and exited with a non-zero status.
    BuildProcessFailed { command: Vec<u8>, exit_code: Option<i32> },
    /// The build produced no shared-library artifact.
    NoArtifactProduced,
    /// The build produced two or more shared-library artifacts.
    AmbiguousArtifact { candidates: Vec<Vec<u8>> },
    /// The compiled artifact could not be parsed as a known object format.
    UnrecognizedBinaryFormat,
    /// A filesystem step of the pipeline failed: the artifact could not be
    /// read, or the snapshot could not be staged.
    SnapshotIo,
    /// The captured document could not be parsed.
    DocumentParse,
    /// The final document could not be serialized or written.
    DocumentWrite,
}

} // verus!
