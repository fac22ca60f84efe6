//! The ways in which staging and patching fail. Every one of them ends the
//! run: nothing is retried and nothing is applied in part.

use crate::apply::{ApplyError, Fault};
use crate::text::opt_view;
use vstd::prelude::*;

verus! {

/// A failure of the pipeline.
#[derive(Debug, Clone, PartialEq, Eq)]
pub enum PipelineError {
    /// An entry of the source tree could not be read, an entry of the staged
    /// tree could not be made or written, or the entry `entry` is neither
    /// a file nor a directory.
    StagingIo { entry: String },
    /// A patch file does not hold a unified diff.
    PatchParse { detail: String },
    /// The hunk at index `hunk` of a patch begins before the end of the hunk
    /// in front of it.
    PatchOrder { hunk: usize },
    /// A patch names no file at all (`path` is `None`), or the old file at
    /// `path` could not be read.
    PatchPath { path: Option<String> },
    /// A context or removed line differs from the old file. `offset` is the
    /// position of the line in the old file, counted from 0; `actual` is the
    /// line found there, `None` behind the end of the file.
    PatchMismatch { offset: u64, expected: String, actual: Option<String> },
    /// The new file at `target` could not be made or written.
    PatchWrite { target: String },
}

/// What a [`PipelineError`] stands for.
pub enum PipelineFault {
    StagingIo { entry: Seq<char> },
    PatchParse { detail: Seq<char> },
    PatchOrder { hunk: int },
    PatchPath { path: Option<Seq<char>> },
    PatchMismatch { offset: int, expected: Seq<char>, actual: Option<Seq<char>> },
    PatchWrite { target: Seq<char> },
}

impl View for PipelineError {
    type V = PipelineFault;

    open spec fn view(&self) -> PipelineFault {
        match *self {
            PipelineError::StagingIo { entry } => PipelineFault::StagingIo { entry: entry@ },
            PipelineError::PatchParse { detail } => PipelineFault::PatchParse { detail: detail@ },
            PipelineError::PatchOrder { hunk } => PipelineFault::PatchOrder { hunk: hunk as int },
            PipelineError::PatchPath { path } => PipelineFault::PatchPath { path: opt_view(path) },
            PipelineError::PatchMismatch { offset, expected, actual } => {
                PipelineFault::PatchMismatch {
                    offset: offset as int,
                    expected: expected@,
                    actual: opt_view(actual),
                }
            },
            PipelineError::PatchWrite { target } => PipelineFault::PatchWrite { target: target@ },
        }
    }
}

/// The pipeline failure that a fault of hunk application is.
pub open spec fn fault_raised(fault: Fault) -> PipelineFault {
    match fault {
        Fault::OutOfOrder { hunk } => PipelineFault::PatchOrder { hunk },
        Fault::Mismatch { offset, expected, actual } => PipelineFault::PatchMismatch {
            offset,
            expected,
            actual,
        },
    }
}

impl PipelineError {
    /// The pipeline failure that a failed hunk application is.
    pub fn from_apply(e: ApplyError) -> (r: PipelineError)
        ensures
            r@ == fault_raised(e@),
    {
        match e {
            ApplyError::OutOfOrder { hunk } => PipelineError::PatchOrder { hunk },
            ApplyError::Mismatch { offset, expected, actual } => PipelineError::PatchMismatch {
                offset,
                expected,
                actual,
            },
        }
    }
}

} // verus!
