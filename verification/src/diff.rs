//! The decoded form of a patch file: patches, hunks and their lines.

use crate::text::opt_view;
use vstd::prelude::*;

verus! {

/// One line of a hunk.
#[derive(Debug, Clone, PartialEq, Eq)]
pub enum Line {
    /// A line that both the old and the new file hold.
    Context(String),
    /// A line that only the old file holds.
    Remove(String),
    /// A line that only the new file holds.
    Add(String),
}

/// What a [`Line`] stands for.
pub enum LineView {
    Context(Seq<char>),
    Remove(Seq<char>),
    Add(Seq<char>),
}

impl View for Line {
    type V = LineView;

    open spec fn view(&self) -> LineView {
        match *self {
            Line::Context(s) => LineView::Context(s@),
            Line::Remove(s) => LineView::Remove(s@),
            Line::Add(s) => LineView::Add(s@),
        }
    }
}

/// One contiguous region of change.
#[derive(Debug, Clone, PartialEq, Eq)]
pub struct Hunk {
    /// The line of the old file at which the hunk begins, counted from 1.
    pub old_start: u64,
    /// The lines of the hunk, in order.
    pub lines: Vec<Line>,
}

/// What a [`Hunk`] stands for.
pub struct HunkView {
    pub old_start: nat,
    pub lines: Seq<LineView>,
}

/// The views of the lines of `v`, in order.
pub open spec fn hunk_line_views(v: Seq<Line>) -> Seq<LineView> {
    Seq::new(v.len(), |i: int| v[i]@)
}

impl View for Hunk {
    type V = HunkView;

    open spec fn view(&self) -> HunkView {
        HunkView { old_start: self.old_start as nat, lines: hunk_line_views(self.lines@) }
    }
}

/// The views of the hunks of `v`, in order.
pub open spec fn hunk_views(v: Seq<Hunk>) -> Seq<HunkView> {
    Seq::new(v.len(), |i: int| v[i]@)
}

/// The old side of a run of hunk lines: the text of its context and removed
/// lines, in order.
pub open spec fn old_side(lines: Seq<LineView>) -> Seq<Seq<char>>
    decreases lines.len(),
{
    if lines.len() == 0 {
        Seq::empty()
    } else {
        let rest = old_side(lines.drop_last());
        match lines.last() {
            LineView::Context(t) => rest.push(t),
            LineView::Remove(t) => rest.push(t),
            LineView::Add(_) => rest,
        }
    }
}

/// The new side of a run of hunk lines: the text of its context and added
/// lines, in order.
pub open spec fn new_side(lines: Seq<LineView>) -> Seq<Seq<char>>
    decreases lines.len(),
{
    if lines.len() == 0 {
        Seq::empty()
    } else {
        let rest = new_side(lines.drop_last());
        match lines.last() {
            LineView::Context(t) => rest.push(t),
            LineView::Remove(_) => rest,
            LineView::Add(t) => rest.push(t),
        }
    }
}

impl HunkView {
    /// The position in the old file, counted from 0, at which the hunk
    /// begins. A start of 0 and a start of 1 both mean the head of the file.
    pub open spec fn start(self) -> int {
        if self.old_start <= 1 {
            0
        } else {
            self.old_start - 1
        }
    }

    /// The lines that the hunk expects in the old file from `start()` on.
    pub open spec fn expected(self) -> Seq<Seq<char>> {
        old_side(self.lines)
    }

    /// The lines that take their place in the new file.
    pub open spec fn replacement(self) -> Seq<Seq<char>> {
        new_side(self.lines)
    }

    /// The position in the old file just behind the lines that the hunk
    /// expects.
    pub open spec fn end(self) -> int {
        self.start() + self.expected().len()
    }
}

/// One diff against one file.
#[derive(Debug, Clone, PartialEq, Eq)]
pub struct Patch {
    /// The path of the file before the change; `None` where the patch
    /// creates the file.
    pub old_path: Option<String>,
    /// The path of the file after the change; `None` where the patch deletes
    /// the file.
    pub new_path: Option<String>,
    /// The hunks, in ascending order of their start.
    pub hunks: Vec<Hunk>,
    /// Whether the last line of the new file ends with a line feed.
    pub end_newline: bool,
}

/// What a [`Patch`] stands for.
pub struct PatchView {
    pub old_path: Option<Seq<char>>,
    pub new_path: Option<Seq<char>>,
    pub hunks: Seq<HunkView>,
    pub end_newline: bool,
}

impl View for Patch {
    type V = PatchView;

    open spec fn view(&self) -> PatchView {
        PatchView {
            old_path: opt_view(self.old_path),
            new_path: opt_view(self.new_path),
            hunks: hunk_views(self.hunks@),
            end_newline: self.end_newline,
        }
    }
}

/// The first `k` lines of a hunk contribute a head of its old side.
pub proof fn lemma_old_side_take(lines: Seq<LineView>, k: int)
    requires
        0 <= k <= lines.len(),
    ensures
        old_side(lines.take(k)).len() <= old_side(lines).len(),
        old_side(lines.take(k)) =~= old_side(lines).take(old_side(lines.take(k)).len() as int),
    decreases lines.len(),
{
    if k == lines.len() {
        assert(lines.take(k) =~= lines);
    } else {
        let front = lines.drop_last();
        lemma_old_side_take(front, k);
        assert(front.take(k) =~= lines.take(k));
    }
}

/// What the line at `k` adds to the old side of the lines before it.
pub proof fn lemma_old_side_step(lines: Seq<LineView>, k: int)
    requires
        0 <= k < lines.len(),
    ensures
        old_side(lines.take(k + 1)) == match lines[k] {
            LineView::Context(t) => old_side(lines.take(k)).push(t),
            LineView::Remove(t) => old_side(lines.take(k)).push(t),
            LineView::Add(_) => old_side(lines.take(k)),
        },
{
    assert(lines.take(k + 1).drop_last() =~= lines.take(k));
}

/// What the line at `k` adds to the new side of the lines before it.
pub proof fn lemma_new_side_step(lines: Seq<LineView>, k: int)
    requires
        0 <= k < lines.len(),
    ensures
        new_side(lines.take(k + 1)) == match lines[k] {
            LineView::Context(t) => new_side(lines.take(k)).push(t),
            LineView::Remove(_) => new_side(lines.take(k)),
            LineView::Add(t) => new_side(lines.take(k)).push(t),
        },
{
    assert(lines.take(k + 1).drop_last() =~= lines.take(k));
}

} // verus!
