//! Text as a sequence of lines: splitting at line endings and joining back.

use vstd::prelude::*;

verus! {

/// Taken on trust from the documentation of the standard library:
/// `String::push` appends the character `c` to the end of the string and
/// leaves what stood before it as it was.
pub assume_specification[ String::push ](s: &mut String, c: char)
    ensures
        final(s)@ == old(s)@.push(c),
;

/// The contents of each string of `v`, in order.
pub open spec fn line_views(v: Seq<String>) -> Seq<Seq<char>> {
    Seq::new(v.len(), |i: int| v[i]@)
}

/// The contents of an optional string.
pub open spec fn opt_view(s: Option<String>) -> Option<Seq<char>> {
    match s {
        Some(s) => Some(s@),
        None => None,
    }
}

/// The contents of an optional string slice.
pub open spec fn opt_str_view(s: Option<&str>) -> Option<Seq<char>> {
    match s {
        Some(s) => Some(s@),
        None => None,
    }
}

/// Number of characters of `s` before its first line feed; the length of `s`
/// when it holds none.
pub open spec fn line_len(s: Seq<char>) -> nat
    decreases s.len(),
{
    if s.len() == 0 || s[0] == '\n' {
        0
    } else {
        1 + line_len(s.drop_first())
    }
}

/// `s` without one carriage return at its end, if it has one there.
pub open spec fn strip_cr(s: Seq<char>) -> Seq<char> {
    if s.len() > 0 && s.last() == '\r' {
        s.drop_last()
    } else {
        s
    }
}

/// The lines of `s`. A line ends at a line feed, or at a carriage return
/// directly followed by a line feed; neither belongs to the line. What follows
/// the last line feed is a line of its own unless it is empty, and keeps a
/// carriage return at its end.
pub open spec fn lines_of(s: Seq<char>) -> Seq<Seq<char>>
    decreases s.len(),
{
    if s.len() == 0 {
        Seq::empty()
    } else {
        let k = line_len(s) as int;
        if k >= s.len() {
            seq![s]
        } else {
            seq![strip_cr(s.take(k))] + lines_of(s.skip(k + 1))
        }
    }
}

/// Whether `s` ends with a line feed.
pub open spec fn ends_with_newline(s: Seq<char>) -> bool {
    s.len() > 0 && s.last() == '\n'
}

/// The lines joined by single line feeds, with none after the last line.
pub open spec fn joined(lines: Seq<Seq<char>>) -> Seq<char>
    decreases lines.len(),
{
    if lines.len() == 0 {
        Seq::empty()
    } else if lines.len() == 1 {
        lines[0]
    } else {
        joined(lines.drop_last()).push('\n') + lines.last()
    }
}

/// `line_len` is bounded by the length.
pub proof fn lemma_line_len_bound(s: Seq<char>)
    ensures
        line_len(s) <= s.len(),
        line_len(s) < s.len() ==> s[line_len(s) as int] == '\n',
        forall|j: int| 0 <= j < line_len(s) ==> s[j] != '\n',
    decreases s.len(),
{
    if s.len() == 0 || s[0] == '\n' {
    } else {
        let t = s.drop_first();
        lemma_line_len_bound(t);
        assert forall|j: int| 0 <= j < line_len(s) implies s[j] != '\n' by {
            if j > 0 {
                assert(s[j] == t[j - 1]);
            }
        }
    }
}

/// A stretch without line feed at the front of `s` lies before its first
/// line feed.
pub proof fn lemma_line_len_skip(s: Seq<char>, n: int)
    requires
        0 <= n <= s.len(),
        forall|j: int| 0 <= j < n ==> s[j] != '\n',
    ensures
        line_len(s) == n + line_len(s.skip(n)),
    decreases n,
{
    if n == 0 {
        assert(s.skip(0) =~= s);
    } else {
        let t = s.drop_first();
        assert forall|j: int| 0 <= j < n - 1 implies t[j] != '\n' by {
            assert(t[j] == s[j + 1]);
        }
        lemma_line_len_skip(t, n - 1);
        assert(t.skip(n - 1) =~= s.skip(n));
    }
}

/// The lines of `s`, with one empty line behind them where `s` ends with a
/// line feed: joined by line feeds they give the final line feed back.
pub open spec fn closed_lines(s: Seq<char>) -> Seq<Seq<char>> {
    if ends_with_newline(s) {
        lines_of(s).push(Seq::empty())
    } else {
        lines_of(s)
    }
}

/// Whether no line feed of `s` stands directly behind a carriage return.
pub open spec fn no_cr_before_lf(s: Seq<char>) -> bool {
    forall|i: int| 0 < i < s.len() && #[trigger] s[i] == '\n' ==> s[i - 1] != '\r'
}

/// No line holds a line feed.
pub proof fn lemma_lines_hold_no_newline(s: Seq<char>)
    ensures
        forall|i: int, j: int|
            0 <= i < lines_of(s).len() && 0 <= j < lines_of(s)[i].len() ==> (
            #[trigger] lines_of(s)[i][j]) != '\n',
    decreases s.len(),
{
    if s.len() > 0 {
        let k = line_len(s) as int;
        lemma_line_len_bound(s);
        if k < s.len() {
            let rest = s.skip(k + 1);
            lemma_lines_hold_no_newline(rest);
            let first = strip_cr(s.take(k));
            assert forall|i: int, j: int|
                0 <= i < lines_of(s).len() && 0 <= j < lines_of(s)[i].len() implies (
            #[trigger] lines_of(s)[i][j]) != '\n' by {
                if i == 0 {
                    assert(lines_of(s)[0] == first);
                    assert(first[j] == s[j]);
                } else {
                    assert(lines_of(s)[i] == lines_of(rest)[i - 1]);
                }
            }
        }
    }
}

/// A text that holds anything has a line, and where it does not end with a
/// line feed, its last line is not empty and ends as the text does.
pub proof fn lemma_last_line(s: Seq<char>)
    requires
        s.len() > 0,
    ensures
        lines_of(s).len() > 0,
        !ends_with_newline(s) ==> lines_of(s).last().len() > 0 && lines_of(s).last().last()
            == s.last(),
    decreases s.len(),
{
    let k = line_len(s) as int;
    lemma_line_len_bound(s);
    if k < s.len() {
        let rest = s.skip(k + 1);
        if rest.len() > 0 {
            lemma_last_line(rest);
            assert(rest.last() == s.last());
            assert(lines_of(s).last() == lines_of(rest).last());
        }
    }
}

/// A joined text ends as its last line does, where that line is not empty.
pub proof fn lemma_joined_last(lines: Seq<Seq<char>>)
    requires
        lines.len() > 0,
        lines.last().len() > 0,
    ensures
        joined(lines).len() > 0,
        joined(lines).last() == lines.last().last(),
{
}

/// Joining a line in front of others puts it, and a line feed, in front of
/// what the others join to.
pub proof fn lemma_joined_front(first: Seq<char>, rest: Seq<Seq<char>>)
    requires
        rest.len() > 0,
    ensures
        joined(seq![first] + rest) == first.push('\n') + joined(rest),
    decreases rest.len(),
{
    let all = seq![first] + rest;
    assert(all.last() == rest.last());
    if rest.len() == 1 {
        assert(all.drop_last() =~= seq![first]);
        assert(joined(seq![first]) == first);
        assert(joined(rest) == rest[0]);
        assert(joined(all) =~= first.push('\n') + joined(rest));
    } else {
        assert(all.drop_last() =~= seq![first] + rest.drop_last());
        lemma_joined_front(first, rest.drop_last());
        assert(joined(all) =~= first.push('\n') + joined(rest));
    }
}

/// Splitting and joining give the text back: a text in which no line feed
/// follows a carriage return is its lines joined by line feeds, with its
/// final line feed where it has one.
pub proof fn lemma_split_join(s: Seq<char>)
    requires
        no_cr_before_lf(s),
    ensures
        joined(closed_lines(s)) == s,
    decreases s.len(),
{
    if s.len() == 0 {
        assert(joined(closed_lines(s)) =~= s);
    } else {
        let k = line_len(s) as int;
        lemma_line_len_bound(s);
        if k >= s.len() {
            assert(s[s.len() - 1] != '\n');
        } else {
            let first = s.take(k);
            let rest = s.skip(k + 1);
            if k > 0 {
                assert(first.last() == s[k - 1]);
            }
            assert(strip_cr(first) == first);
            assert(s =~= first.push('\n') + rest);
            if rest.len() == 0 {
                assert(lines_of(rest) =~= Seq::<Seq<char>>::empty());
                assert(closed_lines(s) =~= seq![first, Seq::<char>::empty()]);
                assert(closed_lines(s).drop_last() =~= seq![first]);
                assert(joined(seq![first]) == first);
                assert(joined(closed_lines(s)) =~= s);
            } else {
                assert forall|i: int|
                    0 < i < rest.len() && #[trigger] rest[i] == '\n' implies rest[i - 1]
                    != '\r' by {
                    assert(rest[i] == s[k + 1 + i]);
                    assert(rest[i - 1] == s[k + 1 + i - 1]);
                }
                lemma_split_join(rest);
                lemma_last_line(rest);
                assert(rest.last() == s.last());
                assert(closed_lines(s) =~= seq![first] + closed_lines(rest));
                lemma_joined_front(first, closed_lines(rest));
            }
        }
    }
}

/// The characters of `s`, in order.
pub fn chars_of(s: &str) -> (v: Vec<char>)
    ensures
        v@ == s@,
{
    let mut v: Vec<char> = Vec::new();
    for c in it: s.chars()
        invariant
            it.seq() == s@,
            v@ == s@.take(it.index() as int),
    {
        v.push(c);
    }
    v
}

/// Copies the characters of `v` from position `from` up to position `to`
/// into a string.
pub fn string_between(v: &Vec<char>, from: usize, to: usize) -> (s: String)
    requires
        from <= to <= v.len(),
    ensures
        s@ == v@.subrange(from as int, to as int),
{
    let mut s = String::new();
    let mut i: usize = from;
    while i < to
        invariant
            from <= i <= to <= v.len(),
            s@ == v@.subrange(from as int, i as int),
        decreases to - i,
    {
        s.push(v[i]);
        i += 1;
    }
    s
}

/// The characters of `v` from position `from` on.
pub fn chars_from(v: &Vec<char>, from: usize) -> (tail: Vec<char>)
    requires
        from <= v.len(),
    ensures
        tail@ == v@.skip(from as int),
{
    let mut tail: Vec<char> = Vec::new();
    let mut k: usize = from;
    while k < v.len()
        invariant
            from <= k <= v.len(),
            tail@ == v@.subrange(from as int, k as int),
        decreases v.len() - k,
    {
        tail.push(v[k]);
        k += 1;
    }
    proof {
        assert(v@.subrange(from as int, v.len() as int) =~= v@.skip(from as int));
    }
    tail
}

/// Copies the characters of `v` into a string.
pub fn string_of(v: &Vec<char>) -> (s: String)
    ensures
        s@ == v@,
{
    let s = string_between(v, 0, v.len());
    proof {
        assert(v@.subrange(0, v.len() as int) =~= v@);
    }
    s
}

/// Whether `s` begins with `prefix`.
pub open spec fn has_prefix(s: Seq<char>, prefix: Seq<char>) -> bool {
    prefix.len() <= s.len() && s.take(prefix.len() as int) == prefix
}

/// Whether `v` holds exactly the text `lit`.
pub fn is_text(v: &Vec<char>, lit: &str) -> (b: bool)
    ensures
        b == (v@ == lit@),
{
    let other = chars_of(lit);
    if v.len() != other.len() {
        return false;
    }
    let b = starts_at(v, 0, &other);
    proof {
        assert(v@.skip(0) =~= v@);
        assert(v@.take(other.len() as int) =~= v@);
    }
    b
}

/// Whether `v` begins with the text `lit`.
pub fn begins_with(v: &Vec<char>, lit: &str) -> (b: bool)
    ensures
        b == has_prefix(v@, lit@),
{
    let other = chars_of(lit);
    let b = starts_at(v, 0, &other);
    proof {
        assert(v@.skip(0) =~= v@);
    }
    b
}

/// What stands in `v` behind its first `lit@.len()` characters.
pub fn after_prefix(v: &Vec<char>, lit: &str) -> (s: String)
    requires
        has_prefix(v@, lit@),
    ensures
        s@ == v@.skip(lit@.len() as int),
{
    let other = chars_of(lit);
    string_between(v, other.len(), v.len())
}

/// Whether `v`, read from position `at` on, begins with `prefix`.
pub fn starts_at(v: &Vec<char>, at: usize, prefix: &Vec<char>) -> (b: bool)
    requires
        at <= v.len(),
    ensures
        b == has_prefix(v@.skip(at as int), prefix@),
{
    if prefix.len() > v.len() - at {
        return false;
    }
    let ghost rest = v@.skip(at as int);
    let mut i: usize = 0;
    while i < prefix.len()
        invariant
            i <= prefix.len() <= v.len() - at,
            rest == v@.skip(at as int),
            rest.take(i as int) == prefix@.take(i as int),
        decreases prefix.len() - i,
    {
        if v[at + i] != prefix[i] {
            proof {
                assert(rest.take(prefix.len() as int)[i as int] != prefix@[i as int]);
            }
            return false;
        }
        proof {
            assert(rest.take(i + 1) =~= rest.take(i as int).push(rest[i as int]));
            assert(prefix@.take(i + 1) =~= prefix@.take(i as int).push(prefix@[i as int]));
        }
        i += 1;
    }
    proof {
        assert(prefix@.take(prefix.len() as int) =~= prefix@);
    }
    true
}

/// Splits `text` into its lines.
pub fn split_lines(text: &str) -> (lines: Vec<String>)
    ensures
        line_views(lines@) == lines_of(text@),
{
    let mut lines: Vec<String> = Vec::new();
    let mut cur: Vec<char> = Vec::new();
    let ghost s = text@;
    let ghost mut start: int = 0;
    proof {
        assert(s.skip(0) =~= s);
        assert(line_views(lines@) + lines_of(s) =~= lines_of(s));
    }
    for c in it: text.chars()
        invariant
            it.seq() == s,
            0 <= start <= it.index(),
            cur@ == s.subrange(start, it.index() as int),
            forall|j: int| start <= j < it.index() ==> s[j] != '\n',
            line_views(lines@) + lines_of(s.skip(start)) == lines_of(s),
    {
        let ghost i = it.index() as int;
        if c == '\n' {
            proof {
                let rest = s.skip(start);
                assert forall|j: int| 0 <= j < i - start implies rest[j] != '\n' by {}
                lemma_line_len_skip(rest, i - start);
                assert(rest.skip(i - start) =~= s.skip(i));
                assert(line_len(s.skip(i)) == 0);
                assert(rest.take(i - start) =~= cur@);
                assert(rest.skip(i - start + 1) =~= s.skip(i + 1));
            }
            let n = cur.len();
            if n > 0 && cur[n - 1] == '\r' {
                cur.pop();
            }
            let line = string_of(&cur);
            let ghost before = lines@;
            lines.push(line);
            cur = Vec::new();
            proof {
                assert(line_views(lines@) =~= line_views(before).push(line@));
                assert(line_views(before).push(line@) + lines_of(s.skip(i + 1)) =~= line_views(
                    before,
                ) + (seq![line@] + lines_of(s.skip(i + 1))));
                start = i + 1;
            }
        } else {
            cur.push(c);
        }
    }
    if cur.len() > 0 {
        proof {
            let rest = s.skip(start);
            assert forall|j: int| 0 <= j < rest.len() implies rest[j] != '\n' by {}
            lemma_line_len_skip(rest, rest.len() as int);
            assert(rest.skip(rest.len() as int) =~= Seq::<char>::empty());
            assert(rest =~= cur@);
        }
        let line = string_of(&cur);
        let ghost before = lines@;
        lines.push(line);
        proof {
            assert(line_views(lines@) =~= line_views(before).push(line@));
            assert(line_views(before).push(line@) =~= line_views(before) + seq![line@]);
        }
    } else {
        proof {
            assert(s.skip(start).len() == 0);
            assert(line_views(lines@) + Seq::<Seq<char>>::empty() =~= line_views(lines@));
        }
    }
    lines
}

/// Whether `text` ends with a line feed.
pub fn has_final_newline(text: &str) -> (b: bool)
    ensures
        b == ends_with_newline(text@),
{
    let mut last: Option<char> = None;
    for c in it: text.chars()
        invariant
            it.seq() == text@,
            last == (if it.index() == 0 {
                None
            } else {
                Some(text@[it.index() - 1])
            }),
    {
        last = Some(c);
    }
    match last {
        Some(c) => c == '\n',
        None => false,
    }
}

/// Joins `lines` by single line feeds, with none after the last line.
pub fn join_lines(lines: &Vec<String>) -> (text: String)
    ensures
        text@ == joined(line_views(lines@)),
{
    let mut text = String::new();
    let mut i: usize = 0;
    while i < lines.len()
        invariant
            i <= lines.len(),
            text@ == joined(line_views(lines@).take(i as int)),
        decreases lines.len() - i,
    {
        let ghost all = line_views(lines@);
        if i > 0 {
            text.push('\n');
        }
        text.append(lines[i].as_str());
        proof {
            let upto = all.take(i + 1);
            assert(upto.drop_last() =~= all.take(i as int));
            assert(upto.last() == lines@[i as int]@);
            if i == 0 {
                assert(text@ =~= upto[0]);
            }
        }
        i += 1;
    }
    proof {
        assert(line_views(lines@).take(lines.len() as int) =~= line_views(lines@));
    }
    text
}

} // verus!
