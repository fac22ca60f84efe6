//! What staging and the walk over the patch directory decide for each
//! entry of a directory. Reading the entries and acting on the decisions is
//! left to the caller.

use crate::error::{PipelineError, PipelineFault};
use vstd::prelude::*;

verus! {

/// What kind of thing a directory entry is.
#[derive(Debug, Clone, Copy, PartialEq, Eq, Structural)]
pub enum EntryKind {
    Directory,
    File,
    /// Anything else: a symbolic link, a device.
    Other,
}

/// One entry of a directory, as a walk over a tree comes upon it.
#[derive(Debug, Clone, PartialEq, Eq)]
pub struct DirectoryEntry {
    /// What kind of thing the entry is.
    pub kind: EntryKind,
    /// The path of the entry, from the root of the walk on.
    pub path: String,
    /// The name of the entry: the last part of its path.
    pub name: String,
}

/// What a [`DirectoryEntry`] stands for.
pub struct DirectoryEntryView {
    pub kind: EntryKind,
    pub path: Seq<char>,
    pub name: Seq<char>,
}

impl View for DirectoryEntry {
    type V = DirectoryEntryView;

    open spec fn view(&self) -> DirectoryEntryView {
        DirectoryEntryView { kind: self.kind, path: self.path@, name: self.name@ }
    }
}

/// What staging does with one entry of the source tree.
#[derive(Debug, Clone, Copy, PartialEq, Eq, Structural)]
pub enum StageStep {
    /// Leave the entry out, with everything below it.
    Skip,
    /// Make the directory in the staged tree and stage its entries.
    Descend,
    /// Copy the file byte for byte and make the copy writable.
    Copy,
}

/// What the walk over the patch directory does with one entry.
#[derive(Debug, Clone, Copy, PartialEq, Eq, Structural)]
pub enum WalkStep {
    /// Walk the directory, against the directory of the same name in the
    /// staged tree.
    Descend,
    /// Read the file as a patch file and apply its patches in order.
    Apply,
}

/// What has to be done so that a directory exists at a path.
#[derive(Debug, Clone, Copy, PartialEq, Eq, Structural)]
pub struct DirPrep {
    /// Whether what stands at the path is removed first.
    pub remove_first: bool,
    /// Whether the directory is made.
    pub create: bool,
}

/// Whether an entry of this name is hidden: its name begins with a dot.
pub open spec fn is_hidden(name: Seq<char>) -> bool {
    name.len() > 0 && name[0] == '.'
}

/// What staging does with `entry`. A hidden entry is left out whatever it
/// is; an entry that is neither a file nor a directory ends the run.
pub open spec fn stage_step_of(entry: DirectoryEntryView) -> Result<StageStep, PipelineFault> {
    if is_hidden(entry.name) {
        Ok(StageStep::Skip)
    } else {
        match entry.kind {
            EntryKind::Directory => Ok(StageStep::Descend),
            EntryKind::File => Ok(StageStep::Copy),
            EntryKind::Other => Err(PipelineFault::StagingIo { entry: entry.path }),
        }
    }
}

/// What the walk over the patch directory does with `entry`. No entry is
/// left out here; one that is neither a file nor a directory ends the run.
pub open spec fn walk_step_of(entry: DirectoryEntryView) -> Result<WalkStep, PipelineFault> {
    match entry.kind {
        EntryKind::Directory => Ok(WalkStep::Descend),
        EntryKind::File => Ok(WalkStep::Apply),
        EntryKind::Other => Err(PipelineFault::PatchPath { path: Some(entry.path) }),
    }
}

/// What has to be done so that a directory exists at a path where
/// `existing` stands, `None` where nothing does.
pub open spec fn dir_prep_of(existing: Option<EntryKind>) -> DirPrep {
    match existing {
        None => DirPrep { remove_first: false, create: true },
        Some(EntryKind::Directory) => DirPrep { remove_first: false, create: false },
        Some(_) => DirPrep { remove_first: true, create: true },
    }
}

/// The permission bits of a staged file whose source has the bits `mode`:
/// the same, with reading and writing by the owner allowed.
pub open spec fn relaxed_mode_of(mode: u32) -> u32 {
    mode | 0o600
}

/// What a result of [`stage_step`] stands for.
pub open spec fn stage_outcome(r: Result<StageStep, PipelineError>) -> Result<
    StageStep,
    PipelineFault,
> {
    match r {
        Ok(s) => Ok(s),
        Err(e) => Err(e@),
    }
}

/// What a result of [`walk_step`] stands for.
pub open spec fn walk_outcome(r: Result<WalkStep, PipelineError>) -> Result<
    WalkStep,
    PipelineFault,
> {
    match r {
        Ok(s) => Ok(s),
        Err(e) => Err(e@),
    }
}

/// Whether an entry of this name is hidden.
pub fn hidden(name: &str) -> (b: bool)
    ensures
        b == is_hidden(name@),
{
    let mut first: Option<char> = None;
    let mut chars = name.chars();
    for c in it: chars
        invariant
            it.seq() == name@,
            first == (if it.index() == 0 {
                None
            } else {
                Some(name@[0])
            }),
    {
        if first.is_none() {
            first = Some(c);
        }
    }
    match first {
        Some(c) => c == '.',
        None => false,
    }
}

/// What staging does with `entry`.
pub fn stage_step(entry: &DirectoryEntry) -> (r: Result<StageStep, PipelineError>)
    ensures
        stage_outcome(r) == stage_step_of(entry@),
{
    if hidden(entry.name.as_str()) {
        return Ok(StageStep::Skip);
    }
    match entry.kind {
        EntryKind::Directory => Ok(StageStep::Descend),
        EntryKind::File => Ok(StageStep::Copy),
        EntryKind::Other => Err(PipelineError::StagingIo { entry: entry.path.clone() }),
    }
}

/// What the walk over the patch directory does with `entry`.
pub fn walk_step(entry: &DirectoryEntry) -> (r: Result<WalkStep, PipelineError>)
    ensures
        walk_outcome(r) == walk_step_of(entry@),
{
    match entry.kind {
        EntryKind::Directory => Ok(WalkStep::Descend),
        EntryKind::File => Ok(WalkStep::Apply),
        EntryKind::Other => Err(PipelineError::PatchPath { path: Some(entry.path.clone()) }),
    }
}

/// What has to be done so that a directory exists at a path where
/// `existing` stands, `None` where nothing does.
pub fn dir_prep(existing: Option<EntryKind>) -> (p: DirPrep)
    ensures
        p == dir_prep_of(existing),
{
    match existing {
        None => DirPrep { remove_first: false, create: true },
        Some(EntryKind::Directory) => DirPrep { remove_first: false, create: false },
        Some(_) => DirPrep { remove_first: true, create: true },
    }
}

/// The permission bits of a staged file whose source has the bits `mode`.
pub fn relaxed_mode(mode: u32) -> (m: u32)
    ensures
        m == relaxed_mode_of(mode),
{
    mode | 0o600
}

/// A staged file can be written by its owner whatever bits its source had,
/// and keeps every bit that its source had.
pub proof fn lemma_relaxed_mode_writable(mode: u32)
    ensures
        relaxed_mode_of(mode) & 0o200 == 0o200,
        relaxed_mode_of(mode) & mode == mode,
        relaxed_mode_of(relaxed_mode_of(mode)) == relaxed_mode_of(mode),
{
    assert((mode | 0o600) & 0o200 == 0o200) by (bit_vector);
    assert((mode | 0o600) & mode == mode) by (bit_vector);
    assert(((mode | 0o600) | 0o600) == (mode | 0o600)) by (bit_vector);
}

} // verus!
