//! Exact application of the hunks of a patch to the lines of a file.

use crate::diff::{hunk_views, new_side, old_side, Hunk, HunkView, Line, LineView};
use crate::diff::{lemma_new_side_step, lemma_old_side_step, lemma_old_side_take};
use crate::text::{
    ends_with_newline, has_final_newline, join_lines, joined, line_views, lines_of, opt_view,
    split_lines,
};
use vstd::prelude::*;

verus! {

/// Why the hunks of a patch could not be applied.
#[derive(Debug, Clone, PartialEq, Eq)]
pub enum ApplyError {
    /// The hunk at index `hunk` begins before the end of the hunk in front
    /// of it.
    OutOfOrder { hunk: usize },
    /// A context or removed line differs from the old file. `offset` is the
    /// position of the line in the old file, counted from 0; `actual` is the
    /// line found there, `None` behind the end of the file.
    Mismatch { offset: u64, expected: String, actual: Option<String> },
}

/// What an [`ApplyError`] stands for.
pub enum Fault {
    OutOfOrder { hunk: int },
    Mismatch { offset: int, expected: Seq<char>, actual: Option<Seq<char>> },
}

impl View for ApplyError {
    type V = Fault;

    open spec fn view(&self) -> Fault {
        match *self {
            ApplyError::OutOfOrder { hunk } => Fault::OutOfOrder { hunk: hunk as int },
            ApplyError::Mismatch { offset, expected, actual } => Fault::Mismatch {
                offset: offset as int,
                expected: expected@,
                actual: opt_view(actual),
            },
        }
    }
}

/// The line of `old` at position `at`, if there is one.
pub open spec fn line_at(old: Seq<Seq<char>>, at: int) -> Option<Seq<char>> {
    if 0 <= at < old.len() {
        Some(old[at])
    } else {
        None
    }
}

/// Whether `old` holds every line of `expected`, in order, from position
/// `at` on.
pub open spec fn agrees(old: Seq<Seq<char>>, at: int, expected: Seq<Seq<char>>) -> bool {
    forall|j: int| 0 <= j < expected.len() ==> line_at(old, at + j) == Some(#[trigger] expected[j])
}

/// Whether `j` is the first index at which `old`, read from position `at`
/// on, differs from `expected`.
pub open spec fn is_first_mismatch(
    old: Seq<Seq<char>>,
    at: int,
    expected: Seq<Seq<char>>,
    j: int,
) -> bool {
    &&& 0 <= j < expected.len()
    &&& line_at(old, at + j) != Some(expected[j])
    &&& agrees(old, at, expected.take(j))
}

/// The first index at which `old`, read from position `at` on, differs from
/// `expected`, where there is one.
pub open spec fn first_mismatch(old: Seq<Seq<char>>, at: int, expected: Seq<Seq<char>>) -> int {
    choose|j: int| is_first_mismatch(old, at, expected, j)
}

/// The position of the read cursor when hunk `i` is reached: 0 for the first
/// hunk, else the end of the hunk in front.
pub open spec fn cursor_before(hunks: Seq<HunkView>, i: int) -> int {
    if i <= 0 {
        0
    } else {
        hunks[i - 1].end()
    }
}

/// What keeps hunk `i` from being applied once the hunks before it have
/// been, if anything does.
pub open spec fn hunk_fault(old: Seq<Seq<char>>, hunks: Seq<HunkView>, i: int) -> Option<Fault> {
    let h = hunks[i];
    if h.start() < cursor_before(hunks, i) {
        Some(Fault::OutOfOrder { hunk: i })
    } else if !agrees(old, h.start(), h.expected()) {
        let j = first_mismatch(old, h.start(), h.expected());
        Some(
            Fault::Mismatch {
                offset: h.start() + j,
                expected: h.expected()[j],
                actual: line_at(old, h.start() + j),
            },
        )
    } else {
        None
    }
}

/// Whether every hunk before index `n` can be applied.
pub open spec fn faultless(old: Seq<Seq<char>>, hunks: Seq<HunkView>, n: int) -> bool {
    forall|i: int| 0 <= i < n ==> (#[trigger] hunk_fault(old, hunks, i)) is None
}

/// Whether hunk `i` is the first that cannot be applied.
pub open spec fn is_first_faulty(old: Seq<Seq<char>>, hunks: Seq<HunkView>, i: int) -> bool {
    &&& 0 <= i < hunks.len()
    &&& hunk_fault(old, hunks, i) is Some
    &&& faultless(old, hunks, i)
}

/// The index of the first hunk that cannot be applied, where there is one.
pub open spec fn first_faulty(old: Seq<Seq<char>>, hunks: Seq<HunkView>) -> int {
    choose|i: int| is_first_faulty(old, hunks, i)
}

/// The lines of `old` from position `from` up to position `to`, as far as
/// `old` has them.
pub open spec fn stretch(old: Seq<Seq<char>>, from: int, to: int) -> Seq<Seq<char>> {
    let a = if from < 0 {
        0
    } else if from > old.len() {
        old.len() as int
    } else {
        from
    };
    let b = if to < a {
        a
    } else if to > old.len() {
        old.len() as int
    } else {
        to
    };
    old.subrange(a, b)
}

/// The output for the first `n` hunks: for each of them the unchanged lines
/// between the hunk in front and its start, then its replacement.
pub open spec fn assembled(old: Seq<Seq<char>>, hunks: Seq<HunkView>, n: int) -> Seq<Seq<char>>
    decreases n,
{
    if n <= 0 {
        Seq::empty()
    } else {
        assembled(old, hunks, n - 1) + stretch(
            old,
            cursor_before(hunks, n - 1),
            hunks[n - 1].start(),
        ) + hunks[n - 1].replacement()
    }
}

/// The new lines where every hunk can be applied: the output for all hunks,
/// then what `old` holds behind the last of them.
pub open spec fn rewritten(old: Seq<Seq<char>>, hunks: Seq<HunkView>) -> Seq<Seq<char>> {
    assembled(old, hunks, hunks.len() as int) + stretch(
        old,
        cursor_before(hunks, hunks.len() as int),
        old.len() as int,
    )
}

/// The result of applying `hunks` to the lines `old`: the new lines, or the
/// fault of the first hunk that cannot be applied.
pub open spec fn applied(old: Seq<Seq<char>>, hunks: Seq<HunkView>) -> Result<
    Seq<Seq<char>>,
    Fault,
> {
    if faultless(old, hunks, hunks.len() as int) {
        Ok(rewritten(old, hunks))
    } else {
        Err(hunk_fault(old, hunks, first_faulty(old, hunks))->Some_0)
    }
}

/// The lines to write for the new file: the result of applying `hunks` to
/// the lines of `old_data`, with one empty line behind them where the new
/// file is to end with a line feed, which it is where `end_newline` is set or
/// `old_data` ends with one. Joined by line feeds, the empty line gives the
/// final line feed.
pub open spec fn patched_lines(
    hunks: Seq<HunkView>,
    end_newline: bool,
    old_data: Seq<char>,
) -> Result<Seq<Seq<char>>, Fault> {
    match applied(lines_of(old_data), hunks) {
        Ok(lines) => Ok(
            if end_newline || ends_with_newline(old_data) {
                lines.push(Seq::empty())
            } else {
                lines
            },
        ),
        Err(fault) => Err(fault),
    }
}

/// The text of the new file: the lines to write, joined by line feeds.
pub open spec fn patched_text(
    hunks: Seq<HunkView>,
    end_newline: bool,
    old_data: Seq<char>,
) -> Result<Seq<char>, Fault> {
    match patched_lines(hunks, end_newline, old_data) {
        Ok(lines) => Ok(joined(lines)),
        Err(fault) => Err(fault),
    }
}

/// What a result that holds a text stands for.
pub open spec fn text_outcome(r: Result<String, ApplyError>) -> Result<Seq<char>, Fault> {
    match r {
        Ok(text) => Ok(text@),
        Err(e) => Err(e@),
    }
}

/// What a result of hunk application stands for.
pub open spec fn outcome(r: Result<Vec<String>, ApplyError>) -> Result<Seq<Seq<char>>, Fault> {
    match r {
        Ok(lines) => Ok(line_views(lines@)),
        Err(e) => Err(e@),
    }
}

/// There is at most one first mismatch.
pub proof fn lemma_first_mismatch_unique(
    old: Seq<Seq<char>>,
    at: int,
    expected: Seq<Seq<char>>,
    j: int,
)
    requires
        is_first_mismatch(old, at, expected, j),
    ensures
        first_mismatch(old, at, expected) == j,
        !agrees(old, at, expected),
{
    let k = first_mismatch(old, at, expected);
    assert(is_first_mismatch(old, at, expected, k));
    if k < j {
        assert(expected.take(j)[k] == expected[k]);
    }
    if j < k {
        assert(expected.take(k)[j] == expected[j]);
    }
}

/// There is at most one first hunk that cannot be applied.
pub proof fn lemma_first_faulty_unique(old: Seq<Seq<char>>, hunks: Seq<HunkView>, i: int)
    requires
        is_first_faulty(old, hunks, i),
    ensures
        first_faulty(old, hunks) == i,
        !faultless(old, hunks, hunks.len() as int),
{
    let k = first_faulty(old, hunks);
    assert(is_first_faulty(old, hunks, k));
}

/// Appends to `out` the lines of `old_lines` from position `from` up to
/// position `to`, as far as there are any.
fn copy_stretch(old_lines: &Vec<String>, from: u64, to: u64, out: &mut Vec<String>)
    ensures
        line_views(final(out)@) == line_views(old(out)@) + stretch(
            line_views(old_lines@),
            from as int,
            to as int,
        ),
{
    let len: usize = old_lines.len();
    let a: usize = if from > len as u64 {
        len
    } else {
        from as usize
    };
    let b: usize = if to < a as u64 {
        a
    } else if to > len as u64 {
        len
    } else {
        to as usize
    };
    let ghost old_view = line_views(old_lines@);
    let ghost before = line_views(out@);
    let mut k: usize = a;
    proof {
        assert(before + old_view.subrange(a as int, a as int) =~= before);
    }
    while k < b
        invariant
            a <= k <= b <= old_lines.len(),
            old_view == line_views(old_lines@),
            line_views(out@) == before + old_view.subrange(a as int, k as int),
        decreases b - k,
    {
        let ghost prior = line_views(out@);
        out.push(old_lines[k].clone());
        proof {
            assert(line_views(out@) =~= prior.push(old_view[k as int]));
            assert(prior.push(old_view[k as int]) =~= before + old_view.subrange(
                a as int,
                k + 1,
            ));
        }
        k += 1;
    }
}

/// Holds the line of `old_lines` at position `cursor` against `text`.
fn expect_line(old_lines: &Vec<String>, cursor: u64, text: &String) -> (r: Result<(), ApplyError>)
    ensures
        r is Ok <==> line_at(line_views(old_lines@), cursor as int) == Some(text@),
        r is Ok ==> cursor < old_lines.len(),
        r matches Err(e) ==> e@ == (Fault::Mismatch {
            offset: cursor as int,
            expected: text@,
            actual: line_at(line_views(old_lines@), cursor as int),
        }),
{
    if cursor < old_lines.len() as u64 {
        let found = &old_lines[cursor as usize];
        if *found == *text {
            Ok(())
        } else {
            Err(
                ApplyError::Mismatch {
                    offset: cursor,
                    expected: text.clone(),
                    actual: Some(found.clone()),
                },
            )
        }
    } else {
        Err(ApplyError::Mismatch { offset: cursor, expected: text.clone(), actual: None })
    }
}

/// A line of a hunk that differs from the old file makes the hunk faulty
/// at that line.
proof fn lemma_mismatch_at(
    old: Seq<Seq<char>>,
    hunks: Seq<HunkView>,
    i: int,
    k: int,
    text: Seq<char>,
)
    requires
        0 <= i < hunks.len(),
        0 <= k < hunks[i].lines.len(),
        hunks[i].lines[k] == LineView::Context(text) || hunks[i].lines[k] == LineView::Remove(
            text,
        ),
        faultless(old, hunks, i),
        cursor_before(hunks, i) <= hunks[i].start(),
        agrees(old, hunks[i].start(), old_side(hunks[i].lines.take(k))),
        line_at(old, hunks[i].start() + old_side(hunks[i].lines.take(k)).len()) != Some(text),
    ensures
        applied(old, hunks) == Err::<Seq<Seq<char>>, Fault>(
            Fault::Mismatch {
                offset: hunks[i].start() + old_side(hunks[i].lines.take(k)).len(),
                expected: text,
                actual: line_at(old, hunks[i].start() + old_side(hunks[i].lines.take(k)).len()),
            },
        ),
{
    let h = hunks[i];
    let seen = old_side(h.lines.take(k));
    let j = seen.len() as int;
    lemma_old_side_take(h.lines, k);
    lemma_old_side_take(h.lines, k + 1);
    lemma_old_side_step(h.lines, k);
    assert(old_side(h.lines.take(k + 1)) == seen.push(text));
    assert(h.expected().take(j + 1)[j] == text);
    assert(h.expected().take(j) =~= seen);
    assert(is_first_mismatch(old, h.start(), h.expected(), j));
    lemma_first_mismatch_unique(old, h.start(), h.expected(), j);
    assert(is_first_faulty(old, hunks, i));
    lemma_first_faulty_unique(old, hunks, i);
}

/// Applies `hunks`, in order, to the lines of the old file: the lines
/// between two hunks are kept, each hunk's context and removed lines must
/// stand in the old file where the hunk says, and its context and added lines
/// go to the output.
pub fn apply_hunks(old_lines: &Vec<String>, hunks: &Vec<Hunk>) -> (r: Result<
    Vec<String>,
    ApplyError,
>)
    ensures
        outcome(r) == applied(line_views(old_lines@), hunk_views(hunks@)),
{
    let ghost old = line_views(old_lines@);
    let ghost hs = hunk_views(hunks@);
    let mut out: Vec<String> = Vec::new();
    let mut cursor: u64 = 0;
    let mut i: usize = 0;
    proof {
        assert(line_views(out@) =~= assembled(old, hs, 0));
    }
    while i < hunks.len()
        invariant
            i <= hunks.len(),
            old == line_views(old_lines@),
            hs == hunk_views(hunks@),
            cursor == cursor_before(hs, i as int),
            faultless(old, hs, i as int),
            line_views(out@) == assembled(old, hs, i as int),
        decreases hunks.len() - i,
    {
        let hunk = &hunks[i];
        let ghost h = hs[i as int];
        let start: u64 = if hunk.old_start <= 1 {
            0
        } else {
            hunk.old_start - 1
        };
        if start < cursor {
            proof {
                assert(is_first_faulty(old, hs, i as int));
                lemma_first_faulty_unique(old, hs, i as int);
            }
            return Err(ApplyError::OutOfOrder { hunk: i });
        }
        copy_stretch(old_lines, cursor, start, &mut out);
        let ghost base = line_views(out@);
        cursor = start;
        let mut k: usize = 0;
        proof {
            assert(h.lines.take(0) =~= Seq::<LineView>::empty());
            assert(base + new_side(h.lines.take(0)) =~= base);
        }
        while k < hunk.lines.len()
            invariant
                k <= hunk.lines.len(),
                i < hunks.len(),
                old == line_views(old_lines@),
                hs == hunk_views(hunks@),
                h == hs[i as int],
                hunk == hunks@[i as int],
                start == h.start(),
                faultless(old, hs, i as int),
                cursor_before(hs, i as int) <= start,
                cursor == start + old_side(h.lines.take(k as int)).len(),
                agrees(old, start as int, old_side(h.lines.take(k as int))),
                line_views(out@) == base + new_side(h.lines.take(k as int)),
            decreases hunk.lines.len() - k,
        {
            let ghost prior = line_views(out@);
            proof {
                lemma_old_side_step(h.lines, k as int);
                lemma_new_side_step(h.lines, k as int);
            }
            match &hunk.lines[k] {
                Line::Add(text) => {
                    out.push(text.clone());
                    proof {
                        assert(line_views(out@) =~= prior.push(text@));
                    }
                },
                Line::Context(text) => {
                    match expect_line(old_lines, cursor, text) {
                        Ok(()) => {},
                        Err(e) => {
                            proof {
                                lemma_mismatch_at(old, hs, i as int, k as int, text@);
                            }
                            return Err(e);
                        },
                    }
                    out.push(text.clone());
                    cursor += 1;
                    proof {
                        assert(line_views(out@) =~= prior.push(text@));
                    }
                },
                Line::Remove(text) => {
                    match expect_line(old_lines, cursor, text) {
                        Ok(()) => {},
                        Err(e) => {
                            proof {
                                lemma_mismatch_at(old, hs, i as int, k as int, text@);
                            }
                            return Err(e);
                        },
                    }
                    cursor += 1;
                },
            }
            proof {
                assert(line_views(out@) =~= base + new_side(h.lines.take(k + 1)));
            }
            k += 1;
        }
        proof {
            assert(h.lines.take(k as int) =~= h.lines);
            assert(hunk_fault(old, hs, i as int) is None);
            assert(line_views(out@) =~= assembled(old, hs, i + 1));
        }
        i += 1;
    }
    copy_stretch(old_lines, cursor, old_lines.len() as u64, &mut out);
    Ok(out)
}

/// Applies `hunks` to the text `old_data` and returns the lines to write
/// for the new file.
pub fn apply_patch(hunks: &Vec<Hunk>, end_newline: bool, old_data: &str) -> (r: Result<
    Vec<String>,
    ApplyError,
>)
    ensures
        outcome(r) == patched_lines(hunk_views(hunks@), end_newline, old_data@),
{
    let old_lines = split_lines(old_data);
    match apply_hunks(&old_lines, hunks) {
        Ok(mut lines) => {
            if end_newline || has_final_newline(old_data) {
                let ghost before = line_views(lines@);
                lines.push(String::new());
                proof {
                    assert(line_views(lines@) =~= before.push(Seq::empty()));
                }
            }
            Ok(lines)
        },
        Err(e) => Err(e),
    }
}

/// Applies `hunks` to the text `old_data` and returns the text of the new
/// file.
pub fn patch_text(hunks: &Vec<Hunk>, end_newline: bool, old_data: &str) -> (r: Result<
    String,
    ApplyError,
>)
    ensures
        text_outcome(r) == patched_text(hunk_views(hunks@), end_newline, old_data@),
{
    match apply_patch(hunks, end_newline, old_data) {
        Ok(lines) => Ok(join_lines(&lines)),
        Err(e) => Err(e),
    }
}

} // verus!
