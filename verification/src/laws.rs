//! What holds of hunk application on every input.

use crate::apply::{
    agrees, applied, assembled, cursor_before, faultless, first_faulty, first_mismatch,
    hunk_fault, is_first_faulty, is_first_mismatch, line_at, rewritten, stretch, Fault,
};
use crate::apply::{patched_lines, patched_text};
use crate::diff::{new_side, old_side, HunkView, LineView, PatchView};
use crate::engine::{action_of, new_prefix, old_prefix, real_path, FileActionView};
use crate::error::PipelineFault;
use crate::text::{
    closed_lines, ends_with_newline, joined, lemma_joined_last, lemma_last_line,
    lemma_split_join, lines_of, no_cr_before_lf,
};
use vstd::prelude::*;

verus! {

/// Whether no hunk begins before the end of the hunk in front of it.
pub open spec fn ascending(hunks: Seq<HunkView>) -> bool {
    forall|i: int|
        0 <= i < hunks.len() ==> cursor_before(hunks, i) <= (#[trigger] hunks[i]).start()
}

/// Whether `old` holds the lines that each hunk expects, where the hunk
/// says.
pub open spec fn all_agree(old: Seq<Seq<char>>, hunks: Seq<HunkView>) -> bool {
    forall|i: int|
        0 <= i < hunks.len() ==> agrees(
            old,
            (#[trigger] hunks[i]).start(),
            hunks[i].expected(),
        )
}

/// The text of the added lines among `lines`, in order.
pub open spec fn added(lines: Seq<LineView>) -> Seq<Seq<char>>
    decreases lines.len(),
{
    if lines.len() == 0 {
        Seq::empty()
    } else {
        match lines.last() {
            LineView::Add(t) => added(lines.drop_last()).push(t),
            _ => added(lines.drop_last()),
        }
    }
}

/// The added lines of the first `n` hunks, in order.
pub open spec fn all_added(hunks: Seq<HunkView>, n: int) -> Seq<Seq<char>>
    decreases n,
{
    if n <= 0 {
        Seq::empty()
    } else {
        all_added(hunks, n - 1) + added(hunks[n - 1].lines)
    }
}

/// Whether every line of every hunk is an added line.
pub open spec fn only_adds(hunks: Seq<HunkView>) -> bool {
    forall|i: int, k: int|
        0 <= i < hunks.len() && 0 <= k < hunks[i].lines.len() ==> (#[trigger] hunks[i].lines[k])
            is Add
}

/// The old-file counterpart of [`assembled`]: for each of the first `n`
/// hunks the unchanged lines in front of it, then the lines it expects.
pub open spec fn assembled_old(old: Seq<Seq<char>>, hunks: Seq<HunkView>, n: int) -> Seq<
    Seq<char>,
>
    decreases n,
{
    if n <= 0 {
        Seq::empty()
    } else {
        assembled_old(old, hunks, n - 1) + stretch(
            old,
            cursor_before(hunks, n - 1),
            hunks[n - 1].start(),
        ) + hunks[n - 1].expected()
    }
}

/// Lines with an empty old side and their added lines.
proof fn lemma_sides_of_adds(lines: Seq<LineView>)
    ensures
        old_side(lines).len() == 0 ==> new_side(lines) == added(lines),
        (forall|k: int| 0 <= k < lines.len() ==> (#[trigger] lines[k]) is Add) ==> old_side(
            lines,
        ).len() == 0,
    decreases lines.len(),
{
    if lines.len() > 0 {
        let front = lines.drop_last();
        lemma_sides_of_adds(front);
        if forall|k: int| 0 <= k < lines.len() ==> (#[trigger] lines[k]) is Add {
            assert forall|k: int| 0 <= k < front.len() implies (#[trigger] front[k]) is Add by {
                assert(front[k] == lines[k]);
            }
            assert(lines[lines.len() - 1] is Add);
        }
    }
}

/// Where the hunks up to `n` are faultless: some hunk is the first faulty
/// one as soon as any hunk is faulty.
proof fn lemma_first_faulty_exists(old: Seq<Seq<char>>, hunks: Seq<HunkView>, i: int)
    requires
        0 <= i < hunks.len(),
        hunk_fault(old, hunks, i) is Some,
    ensures
        exists|k: int| 0 <= k <= i && is_first_faulty(old, hunks, k),
    decreases i,
{
    if faultless(old, hunks, i) {
        assert(is_first_faulty(old, hunks, i));
    } else {
        let k = choose|k: int| 0 <= k < i && (#[trigger] hunk_fault(old, hunks, k)) is Some;
        lemma_first_faulty_exists(old, hunks, k);
    }
}

/// Where the lines of a hunk do not agree with the old file, one of them is
/// the first that differs.
proof fn lemma_first_mismatch_exists(old: Seq<Seq<char>>, at: int, expected: Seq<Seq<char>>)
    requires
        !agrees(old, at, expected),
    ensures
        is_first_mismatch(old, at, expected, first_mismatch(old, at, expected)),
    decreases expected.len(),
{
    let j = choose|j: int|
        0 <= j < expected.len() && line_at(old, at + j) != Some(#[trigger] expected[j]);
    let head = expected.take(j);
    if agrees(old, at, head) {
        assert(is_first_mismatch(old, at, expected, j));
    } else {
        lemma_first_mismatch_exists(old, at, head);
        let k = first_mismatch(old, at, head);
        assert(head[k] == expected[k]);
        assert(head.take(k) =~= expected.take(k));
        assert(is_first_mismatch(old, at, expected, k));
    }
}

/// The result of hunk application is either the rewritten lines, where no
/// hunk is faulty, or the fault of the first faulty hunk.
pub proof fn lemma_applied_cases(old: Seq<Seq<char>>, hunks: Seq<HunkView>)
    ensures
        faultless(old, hunks, hunks.len() as int) ==> applied(old, hunks) == Ok::<
            Seq<Seq<char>>,
            Fault,
        >(rewritten(old, hunks)),
        !faultless(old, hunks, hunks.len() as int) ==> {
            let i = first_faulty(old, hunks);
            &&& is_first_faulty(old, hunks, i)
            &&& applied(old, hunks) == Err::<Seq<Seq<char>>, Fault>(
                hunk_fault(old, hunks, i)->Some_0,
            )
        },
{
    if !faultless(old, hunks, hunks.len() as int) {
        let i = choose|i: int|
            0 <= i < hunks.len() && (#[trigger] hunk_fault(old, hunks, i)) is Some;
        lemma_first_faulty_exists(old, hunks, i);
    }
}

/// Context preservation: where the hunks are in ascending order and the old
/// file holds what each of them expects, the new file is, hunk after hunk,
/// the unchanged lines in front of the hunk and then its context and added
/// lines, followed by the unchanged lines behind the last hunk.
pub proof fn lemma_context_preserved(old: Seq<Seq<char>>, hunks: Seq<HunkView>)
    requires
        ascending(hunks),
        all_agree(old, hunks),
    ensures
        applied(old, hunks) == Ok::<Seq<Seq<char>>, Fault>(rewritten(old, hunks)),
        rewritten(old, hunks) == assembled(old, hunks, hunks.len() as int) + stretch(
            old,
            cursor_before(hunks, hunks.len() as int),
            old.len() as int,
        ),
{
    assert forall|i: int| 0 <= i < hunks.len() implies (#[trigger] hunk_fault(old, hunks, i))
        is None by {
        assert(cursor_before(hunks, i) <= hunks[i].start());
        assert(agrees(old, hunks[i].start(), hunks[i].expected()));
    }
}

/// Mismatch detection: where the hunks are in ascending order and the old
/// file does not hold what one of them expects, application fails with a
/// mismatch, at a line that differs from the old file.
pub proof fn lemma_mismatch_detected(old: Seq<Seq<char>>, hunks: Seq<HunkView>, i: int)
    requires
        ascending(hunks),
        0 <= i < hunks.len(),
        !agrees(old, hunks[i].start(), hunks[i].expected()),
    ensures
        applied(old, hunks) matches Err(Fault::Mismatch { offset, expected, actual })
            && actual != Some(expected) && actual == line_at(old, offset),
{
    assert(hunk_fault(old, hunks, i) is Some);
    lemma_applied_cases(old, hunks);
    let f = first_faulty(old, hunks);
    assert(cursor_before(hunks, f) <= hunks[f].start());
    lemma_first_mismatch_exists(old, hunks[f].start(), hunks[f].expected());
}

/// A result of hunk application is never partial: where it succeeds, the
/// old file holds what every hunk expects and the hunks are in ascending
/// order.
pub proof fn lemma_success_means_exact(old: Seq<Seq<char>>, hunks: Seq<HunkView>)
    requires
        applied(old, hunks) is Ok,
    ensures
        ascending(hunks),
        all_agree(old, hunks),
{
    lemma_applied_cases(old, hunks);
    assert forall|i: int| 0 <= i < hunks.len() implies cursor_before(hunks, i) <= (
    #[trigger] hunks[i]).start() && agrees(old, hunks[i].start(), hunks[i].expected()) by {
        assert(hunk_fault(old, hunks, i) is None);
    }
}

/// The added lines of hunks that hold nothing else.
proof fn lemma_assembled_on_empty(hunks: Seq<HunkView>, n: int)
    requires
        0 <= n <= hunks.len(),
        faultless(Seq::<Seq<char>>::empty(), hunks, n),
    ensures
        assembled(Seq::<Seq<char>>::empty(), hunks, n) == all_added(hunks, n),
    decreases n,
{
    let old = Seq::<Seq<char>>::empty();
    if n > 0 {
        assert forall|i: int| 0 <= i < n - 1 implies (#[trigger] hunk_fault(old, hunks, i))
            is None by {}
        lemma_assembled_on_empty(hunks, n - 1);
        let h = hunks[n - 1];
        assert(hunk_fault(old, hunks, n - 1) is None);
        assert(agrees(old, h.start(), h.expected()));
        if h.expected().len() > 0 {
            assert(line_at(old, h.start() + 0) == Some(h.expected()[0]));
        }
        lemma_sides_of_adds(h.lines);
        assert(stretch(old, cursor_before(hunks, n - 1), h.start()) =~= Seq::<
            Seq<char>,
        >::empty());
        assert(assembled(old, hunks, n) =~= all_added(hunks, n));
    }
}

/// Creation: applied to an empty old file, hunks yield their added lines,
/// in order, and nothing else, however many hunks there are. They can be
/// applied whenever they hold added lines only and are in ascending order.
pub proof fn lemma_creation_yields_added(hunks: Seq<HunkView>)
    ensures
        applied(Seq::<Seq<char>>::empty(), hunks) matches Ok(lines) ==> lines == all_added(
            hunks,
            hunks.len() as int,
        ),
        only_adds(hunks) && ascending(hunks) ==> applied(Seq::<Seq<char>>::empty(), hunks)
            is Ok,
{
    let old = Seq::<Seq<char>>::empty();
    lemma_applied_cases(old, hunks);
    if faultless(old, hunks, hunks.len() as int) {
        lemma_assembled_on_empty(hunks, hunks.len() as int);
        assert(stretch(old, cursor_before(hunks, hunks.len() as int), 0) =~= Seq::<
            Seq<char>,
        >::empty());
        assert(rewritten(old, hunks) =~= all_added(hunks, hunks.len() as int));
    }
    if only_adds(hunks) && ascending(hunks) {
        assert forall|i: int| 0 <= i < hunks.len() implies agrees(
            old,
            (#[trigger] hunks[i]).start(),
            hunks[i].expected(),
        ) by {
            assert forall|k: int| 0 <= k < hunks[i].lines.len() implies (
            #[trigger] hunks[i].lines[k]) is Add by {}
            lemma_sides_of_adds(hunks[i].lines);
        }
        lemma_context_preserved(old, hunks);
    }
}

/// The lines of `old` before position `n`, as far as `old` has them.
pub open spec fn head_of(old: Seq<Seq<char>>, n: int) -> Seq<Seq<char>> {
    stretch(old, 0, n)
}

/// The old file up to the end of hunk `n - 1` is, hunk after hunk, the
/// unchanged lines in front of the hunk and then the lines it expects.
proof fn lemma_assembled_old(old: Seq<Seq<char>>, hunks: Seq<HunkView>, n: int)
    requires
        0 <= n <= hunks.len(),
        faultless(old, hunks, n),
    ensures
        cursor_before(hunks, n) >= 0,
        assembled_old(old, hunks, n) == head_of(old, cursor_before(hunks, n)),
    decreases n,
{
    if n > 0 {
        assert forall|i: int| 0 <= i < n - 1 implies (#[trigger] hunk_fault(old, hunks, i))
            is None by {}
        lemma_assembled_old(old, hunks, n - 1);
        let h = hunks[n - 1];
        let c = cursor_before(hunks, n - 1);
        assert(hunk_fault(old, hunks, n - 1) is None);
        assert(c <= h.start());
        assert(agrees(old, h.start(), h.expected()));
        let e = h.expected();
        if e.len() > 0 {
            assert(line_at(old, h.start() + (e.len() - 1)) == Some(e[e.len() - 1]));
            assert forall|j: int| 0 <= j < e.len() implies old[h.start() + j] == e[j] by {
                assert(line_at(old, h.start() + j) == Some(e[j]));
            }
            assert(e =~= old.subrange(h.start(), h.end()));
        }
        assert(assembled_old(old, hunks, n) =~= head_of(old, h.end()));
    } else {
        assert(assembled_old(old, hunks, n) =~= head_of(old, 0));
    }
}

/// The counterpart of context preservation on the old side: where the hunks
/// can be applied, the old file is, hunk after hunk, the unchanged lines in
/// front of the hunk and then its context and removed lines, followed by the
/// unchanged lines behind the last hunk. The new file differs from it only
/// in holding each hunk's context and added lines in their place.
pub proof fn lemma_old_file_decomposes(old: Seq<Seq<char>>, hunks: Seq<HunkView>)
    requires
        applied(old, hunks) is Ok,
    ensures
        old == assembled_old(old, hunks, hunks.len() as int) + stretch(
            old,
            cursor_before(hunks, hunks.len() as int),
            old.len() as int,
        ),
{
    lemma_applied_cases(old, hunks);
    lemma_assembled_old(old, hunks, hunks.len() as int);
    assert(old =~= head_of(old, cursor_before(hunks, hunks.len() as int)) + stretch(
        old,
        cursor_before(hunks, hunks.len() as int),
        old.len() as int,
    ));
}

/// Without a hunk the text stays as it is: a text in which no line feed
/// follows a carriage return comes back unchanged, unless a final line feed
/// is asked for that it does not have.
pub proof fn lemma_no_hunk_no_change(end_newline: bool, old_data: Seq<char>)
    requires
        no_cr_before_lf(old_data),
        end_newline ==> ends_with_newline(old_data),
    ensures
        patched_text(Seq::empty(), end_newline, old_data) == Ok::<Seq<char>, Fault>(old_data),
{
    let old = lines_of(old_data);
    let hunks = Seq::<HunkView>::empty();
    lemma_applied_cases(old, hunks);
    assert(rewritten(old, hunks) =~= old);
    assert(patched_lines(hunks, end_newline, old_data) == Ok::<Seq<Seq<char>>, Fault>(
        closed_lines(old_data),
    ));
    lemma_split_join(old_data);
}

/// Trailing-newline fidelity: where the old text does not end with a line
/// feed, the patch asks for none, and its hunks leave the last line of the
/// old text alone, the new text does not end with a line feed either.
pub proof fn lemma_open_end_kept(hunks: Seq<HunkView>, old_data: Seq<char>)
    requires
        !ends_with_newline(old_data),
        applied(lines_of(old_data), hunks) is Ok,
        cursor_before(hunks, hunks.len() as int) < lines_of(old_data).len(),
    ensures
        patched_text(hunks, false, old_data) matches Ok(text) && text.len() > 0
            && !ends_with_newline(text),
{
    let old = lines_of(old_data);
    lemma_applied_cases(old, hunks);
    lemma_assembled_old(old, hunks, hunks.len() as int);
    lemma_last_line(old_data);
    let c = cursor_before(hunks, hunks.len() as int);
    let tail = stretch(old, c, old.len() as int);
    assert(tail =~= old.subrange(c, old.len() as int));
    assert(tail.last() == old.last());
    let lines = rewritten(old, hunks);
    assert(lines.last() == tail.last());
    lemma_joined_last(lines);
}

/// Creation, for a whole patch: a patch without an old file writes its
/// added lines, in order, joined by line feeds, with a final line feed where
/// the patch asks for one, and nothing else, whatever stands in the staged
/// tree; the directories above the new file are made first. It can be
/// applied whenever its hunks hold added lines only and are in ascending
/// order.
pub proof fn lemma_creation_writes_added(patch: PatchView, old_text: Option<Seq<char>>)
    requires
        real_path(patch.old_path, old_prefix()) is None,
        real_path(patch.new_path, new_prefix()) is Some,
    ensures
        action_of(patch, old_text) matches Ok(action) ==> action == (FileActionView::Write {
            path: real_path(patch.new_path, new_prefix())->Some_0,
            text: joined(
                if patch.end_newline {
                    all_added(patch.hunks, patch.hunks.len() as int).push(Seq::empty())
                } else {
                    all_added(patch.hunks, patch.hunks.len() as int)
                },
            ),
            create_parents: true,
        }),
        only_adds(patch.hunks) && ascending(patch.hunks) ==> action_of(patch, old_text) is Ok,
{
    lemma_creation_yields_added(patch.hunks);
    assert(lines_of(Seq::<char>::empty()) =~= Seq::<Seq<char>>::empty());
}

/// Deletion: a patch with an old file and no new file removes that file,
/// whatever its hunks hold and whatever the file holds, and writes nothing:
/// the staged tree loses that one file and is otherwise as it was.
pub proof fn lemma_deletion_removes(
    patch: PatchView,
    old_text: Option<Seq<char>>,
    tree: Map<Seq<char>, Seq<char>>,
)
    requires
        real_path(patch.old_path, old_prefix()) is Some,
        real_path(patch.new_path, new_prefix()) is None,
    ensures
        action_of(patch, old_text) == Ok::<FileActionView, PipelineFault>(
            FileActionView::Remove { path: real_path(patch.old_path, old_prefix())->Some_0 },
        ),
        action_of(patch, old_text)->Ok_0.effect(tree) == tree.remove(
            real_path(patch.old_path, old_prefix())->Some_0,
        ),
{
}

/// Mismatch detection, for a whole patch: where the hunks are in ascending
/// order and the old file does not hold what one of them expects, the patch
/// fails with a mismatch and asks for no file to be written.
pub proof fn lemma_mismatch_writes_nothing(patch: PatchView, old_text: Seq<char>, i: int)
    requires
        real_path(patch.old_path, old_prefix()) is Some,
        real_path(patch.new_path, new_prefix()) is Some,
        ascending(patch.hunks),
        0 <= i < patch.hunks.len(),
        !agrees(lines_of(old_text), patch.hunks[i].start(), patch.hunks[i].expected()),
    ensures
        action_of(patch, Some(old_text)) matches Err(PipelineFault::PatchMismatch { .. }),
{
    lemma_mismatch_detected(lines_of(old_text), patch.hunks, i);
}

/// A final line feed where one is due: where the patch asks for a final
/// line feed or the old text ends with one, and the new file has a line at
/// all, the new text ends with a line feed. A new file without a line is
/// empty.
pub proof fn lemma_closed_end(hunks: Seq<HunkView>, end_newline: bool, old_data: Seq<char>)
    requires
        end_newline || ends_with_newline(old_data),
        applied(lines_of(old_data), hunks) is Ok,
    ensures
        patched_text(hunks, end_newline, old_data) matches Ok(text) && (if applied(
            lines_of(old_data),
            hunks,
        )->Ok_0.len() > 0 {
            ends_with_newline(text)
        } else {
            text.len() == 0
        }),
{
    let lines = applied(lines_of(old_data), hunks)->Ok_0;
    let closed = lines.push(Seq::<char>::empty());
    assert(closed.drop_last() =~= lines);
}

} // verus!
