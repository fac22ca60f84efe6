//! What one patch asks of the staged tree: which file it names, and which
//! file is to be written or removed for it.

use crate::apply::{patch_text, patched_text};
use crate::diff::{Patch, PatchView};
use crate::error::{fault_raised, PipelineError, PipelineFault};
use crate::text::{
    after_prefix, begins_with, chars_of, has_prefix, is_text, opt_str_view, opt_view,
};
use vstd::prelude::*;

verus! {

/// The path that stands for a file that does not exist.
pub open spec fn dev_null() -> Seq<char> {
    "/dev/null"@
}

/// The prefix that a diff puts before the path of the old file.
pub open spec fn old_prefix() -> Seq<char> {
    "a/"@
}

/// The prefix that a diff puts before the path of the new file.
pub open spec fn new_prefix() -> Seq<char> {
    "b/"@
}

/// The path, relative to the directory that the patch file stands for, that
/// `raw` names: none where `raw` is absent, empty or `/dev/null`, else `raw`
/// without `prefix` at its head.
pub open spec fn real_path(raw: Option<Seq<char>>, prefix: Seq<char>) -> Option<Seq<char>> {
    match raw {
        None => None,
        Some(p) => if p.len() == 0 || p == dev_null() {
            None
        } else if has_prefix(p, prefix) {
            Some(p.skip(prefix.len() as int))
        } else {
            Some(p)
        },
    }
}

/// What a patch does: it creates a file, modifies one or deletes one.
#[derive(Debug, Clone, PartialEq, Eq)]
pub enum Target {
    /// There is no old file: the new file is made from nothing.
    Create { new_path: String },
    /// The old file is read, and the new file is written from it.
    Modify { old_path: String, new_path: String },
    /// There is no new file: the old file is removed.
    Delete { old_path: String },
}

/// What a [`Target`] stands for.
pub enum TargetView {
    Create { new_path: Seq<char> },
    Modify { old_path: Seq<char>, new_path: Seq<char> },
    Delete { old_path: Seq<char> },
}

impl View for Target {
    type V = TargetView;

    open spec fn view(&self) -> TargetView {
        match *self {
            Target::Create { new_path } => TargetView::Create { new_path: new_path@ },
            Target::Modify { old_path, new_path } => TargetView::Modify {
                old_path: old_path@,
                new_path: new_path@,
            },
            Target::Delete { old_path } => TargetView::Delete { old_path: old_path@ },
        }
    }
}

/// What `patch` does, if it names a file at all.
pub open spec fn target_of(patch: PatchView) -> Option<TargetView> {
    match (real_path(patch.old_path, old_prefix()), real_path(patch.new_path, new_prefix())) {
        (None, None) => None,
        (None, Some(new_path)) => Some(TargetView::Create { new_path }),
        (Some(old_path), None) => Some(TargetView::Delete { old_path }),
        (Some(old_path), Some(new_path)) => Some(TargetView::Modify { old_path, new_path }),
    }
}

/// One change to the staged tree.
#[derive(Debug, Clone, PartialEq, Eq)]
pub enum FileAction {
    /// Write `text` to the file at `path`, in place of what it holds. Where
    /// `create_parents` is set, the directories above it are made first.
    Write { path: String, text: String, create_parents: bool },
    /// Remove the file at `path`.
    Remove { path: String },
}

/// What a [`FileAction`] stands for.
pub enum FileActionView {
    Write { path: Seq<char>, text: Seq<char>, create_parents: bool },
    Remove { path: Seq<char> },
}

impl View for FileAction {
    type V = FileActionView;

    open spec fn view(&self) -> FileActionView {
        match *self {
            FileAction::Write { path, text, create_parents } => FileActionView::Write {
                path: path@,
                text: text@,
                create_parents,
            },
            FileAction::Remove { path } => FileActionView::Remove { path: path@ },
        }
    }
}

impl FileActionView {
    /// The staged tree after the change, where `tree` maps the path of each
    /// file of the staged tree to what the file holds: a written file holds
    /// the new text and nothing of what it held before, a removed file is
    /// gone, and every other file is as it was.
    pub open spec fn effect(self, tree: Map<Seq<char>, Seq<char>>) -> Map<Seq<char>, Seq<char>> {
        match self {
            FileActionView::Write { path, text, .. } => tree.insert(path, text),
            FileActionView::Remove { path } => tree.remove(path),
        }
    }
}

/// The one change that `patch` makes to the staged tree, or the failure
/// that keeps it from being made. `old_text` is what the old file holds,
/// `None` where it could not be read; it counts only where the patch
/// modifies a file.
pub open spec fn action_of(patch: PatchView, old_text: Option<Seq<char>>) -> Result<
    FileActionView,
    PipelineFault,
> {
    match target_of(patch) {
        None => Err(PipelineFault::PatchPath { path: None }),
        Some(TargetView::Delete { old_path }) => Ok(FileActionView::Remove { path: old_path }),
        Some(TargetView::Create { new_path }) => match patched_text(
            patch.hunks,
            patch.end_newline,
            Seq::empty(),
        ) {
            Ok(text) => Ok(FileActionView::Write { path: new_path, text, create_parents: true }),
            Err(fault) => Err(fault_raised(fault)),
        },
        Some(TargetView::Modify { old_path, new_path }) => match old_text {
            None => Err(PipelineFault::PatchPath { path: Some(old_path) }),
            Some(old) => match patched_text(patch.hunks, patch.end_newline, old) {
                Ok(text) => Ok(
                    FileActionView::Write { path: new_path, text, create_parents: false },
                ),
                Err(fault) => Err(fault_raised(fault)),
            },
        },
    }
}

/// What a result of [`resolve`] stands for.
pub open spec fn target_outcome(r: Result<Target, PipelineError>) -> Result<
    TargetView,
    PipelineFault,
> {
    match r {
        Ok(t) => Ok(t@),
        Err(e) => Err(e@),
    }
}

/// What a result of [`patch_action`] stands for.
pub open spec fn action_outcome(r: Result<FileAction, PipelineError>) -> Result<
    FileActionView,
    PipelineFault,
> {
    match r {
        Ok(a) => Ok(a@),
        Err(e) => Err(e@),
    }
}

/// The path that `raw` names, without `prefix` at its head; `None` where
/// `raw` is absent, empty or `/dev/null`.
pub fn resolve_path(raw: &Option<String>, prefix: &str) -> (r: Option<String>)
    ensures
        opt_view(r) == real_path(opt_view(*raw), prefix@),
{
    match raw {
        None => None,
        Some(p) => {
            let chars = chars_of(p.as_str());
            if chars.len() == 0 || is_text(&chars, "/dev/null") {
                None
            } else if begins_with(&chars, prefix) {
                Some(after_prefix(&chars, prefix))
            } else {
                Some(p.clone())
            }
        },
    }
}

/// What `patch` does to the staged tree: which file it reads, and which it
/// writes or removes. A patch that names neither an old nor a new file is
/// refused.
pub fn resolve(patch: &Patch) -> (r: Result<Target, PipelineError>)
    ensures
        target_outcome(r) == (match target_of(patch@) {
            Some(t) => Ok::<TargetView, PipelineFault>(t),
            None => Err(PipelineFault::PatchPath { path: None }),
        }),
{
    let old_path = resolve_path(&patch.old_path, "a/");
    let new_path = resolve_path(&patch.new_path, "b/");
    match (old_path, new_path) {
        (None, None) => Err(PipelineError::PatchPath { path: None }),
        (None, Some(new_path)) => Ok(Target::Create { new_path }),
        (Some(old_path), None) => Ok(Target::Delete { old_path }),
        (Some(old_path), Some(new_path)) => Ok(Target::Modify { old_path, new_path }),
    }
}

/// The change that `patch` makes to the staged tree. `old_text` is what the
/// old file holds, `None` where it could not be read; it is looked at only
/// where the patch modifies a file. A deletion applies no hunk. A failure
/// comes with no change at all.
pub fn patch_action(patch: &Patch, old_text: Option<&str>) -> (r: Result<
    FileAction,
    PipelineError,
>)
    ensures
        action_outcome(r) == action_of(patch@, opt_str_view(old_text)),
{
    match resolve(patch) {
        Err(e) => Err(e),
        Ok(Target::Delete { old_path }) => Ok(FileAction::Remove { path: old_path }),
        Ok(Target::Create { new_path }) => {
            proof {
                reveal_strlit("");
                assert(""@ =~= Seq::<char>::empty());
            }
            match patch_text(&patch.hunks, patch.end_newline, "") {
                Ok(text) => Ok(FileAction::Write { path: new_path, text, create_parents: true }),
                Err(e) => Err(PipelineError::from_apply(e)),
            }
        },
        Ok(Target::Modify { old_path, new_path }) => {
            match old_text {
                None => Err(PipelineError::PatchPath { path: Some(old_path) }),
                Some(old) => match patch_text(&patch.hunks, patch.end_newline, old) {
                    Ok(text) => Ok(
                        FileAction::Write { path: new_path, text, create_parents: false },
                    ),
                    Err(e) => Err(PipelineError::from_apply(e)),
                },
            }
        },
    }
}

} // verus!
