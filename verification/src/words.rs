//! Searching a text for another, and cutting a text into words at white
//! space.

use crate::text::{has_prefix, line_views, starts_at, string_of};
use vstd::prelude::*;

verus! {

/// Whether `needle` stands in `hay` at position `i`.
pub open spec fn occurs_at(hay: Seq<char>, needle: Seq<char>, i: int) -> bool {
    0 <= i <= hay.len() && has_prefix(hay.skip(i), needle)
}

/// Whether `needle` stands in `hay` at no position from `from` up to, but
/// not including, `to`.
pub open spec fn absent_between(hay: Seq<char>, needle: Seq<char>, from: int, to: int) -> bool {
    forall|j: int| from <= j < to ==> !occurs_at(hay, needle, j)
}

/// Whether `i` is the first position from `from` on at which `needle`
/// stands in `hay`.
pub open spec fn is_first_at(hay: Seq<char>, needle: Seq<char>, from: int, i: int) -> bool {
    from <= i && occurs_at(hay, needle, i) && absent_between(hay, needle, from, i)
}

/// The first position from `from` on at which `needle` stands in `hay`, if
/// there is one.
pub open spec fn first_at(hay: Seq<char>, needle: Seq<char>, from: int) -> Option<int> {
    if exists|i: int| is_first_at(hay, needle, from, i) {
        Some(choose|i: int| is_first_at(hay, needle, from, i))
    } else {
        None
    }
}

/// Whether `needle` stands anywhere in `hay`.
pub open spec fn holds(hay: Seq<char>, needle: Seq<char>) -> bool {
    first_at(hay, needle, 0) is Some
}

/// There is at most one first position.
pub proof fn lemma_first_at(hay: Seq<char>, needle: Seq<char>, from: int, i: int)
    requires
        is_first_at(hay, needle, from, i),
    ensures
        first_at(hay, needle, from) == Some(i),
{
    let k = choose|k: int| is_first_at(hay, needle, from, k);
    assert(is_first_at(hay, needle, from, k));
    if k < i {
        assert(!occurs_at(hay, needle, k));
    }
    if i < k {
        assert(!occurs_at(hay, needle, i));
    }
}

/// What a position found by a search stands for.
pub open spec fn opt_index(r: Option<usize>) -> Option<int> {
    match r {
        Some(i) => Some(i as int),
        None => None,
    }
}

/// The first position from `from` on at which `needle` stands in `hay`.
pub fn find_from(hay: &Vec<char>, from: usize, needle: &Vec<char>) -> (r: Option<usize>)
    requires
        from <= hay.len(),
    ensures
        opt_index(r) == first_at(hay@, needle@, from as int),
        r matches Some(i) ==> from <= i <= hay.len() && i + needle.len() <= hay.len(),
{
    let mut i: usize = from;
    while i < hay.len()
        invariant
            from <= i <= hay.len(),
            absent_between(hay@, needle@, from as int, i as int),
        decreases hay.len() - i,
    {
        if starts_at(hay, i, needle) {
            proof {
                lemma_first_at(hay@, needle@, from as int, i as int);
            }
            return Some(i);
        }
        i += 1;
    }
    if starts_at(hay, i, needle) {
        proof {
            lemma_first_at(hay@, needle@, from as int, i as int);
        }
        Some(i)
    } else {
        proof {
            assert forall|k: int| !is_first_at(hay@, needle@, from as int, k) by {
                if from <= k && occurs_at(hay@, needle@, k) {
                    assert(k <= hay@.len());
                    if k < i {
                        assert(!occurs_at(hay@, needle@, k));
                    }
                }
            }
        }
        None
    }
}

/// Whether `c` is one of the white-space characters of ASCII: space, tab,
/// line feed, form feed, carriage return.
pub open spec fn is_space(c: char) -> bool {
    c == ' ' || c == '\t' || c == '\n' || c == '\x0C' || c == '\r'
}

/// Number of characters of `s` before its first white space; the length of
/// `s` when it holds none.
pub open spec fn word_len(s: Seq<char>) -> nat
    decreases s.len(),
{
    if s.len() == 0 || is_space(s[0]) {
        0
    } else {
        1 + word_len(s.drop_first())
    }
}

/// The words of `s`: its longest stretches without white space, in order.
pub open spec fn words_of(s: Seq<char>) -> Seq<Seq<char>>
    decreases s.len(),
{
    if s.len() == 0 {
        Seq::empty()
    } else if is_space(s[0]) {
        words_of(s.drop_first())
    } else {
        let k = word_len(s) as int;
        if k >= s.len() {
            seq![s]
        } else {
            seq![s.take(k)] + words_of(s.skip(k))
        }
    }
}

/// A stretch without white space at the front of `s` lies before its first
/// white space.
pub proof fn lemma_word_len_skip(s: Seq<char>, n: int)
    requires
        0 <= n <= s.len(),
        forall|j: int| 0 <= j < n ==> !is_space(#[trigger] s[j]),
    ensures
        word_len(s) == n + word_len(s.skip(n)),
    decreases n,
{
    if n == 0 {
        assert(s.skip(0) =~= s);
    } else {
        let t = s.drop_first();
        assert forall|j: int| 0 <= j < n - 1 implies !is_space(#[trigger] t[j]) by {
            assert(t[j] == s[j + 1]);
        }
        lemma_word_len_skip(t, n - 1);
        assert(t.skip(n - 1) =~= s.skip(n));
    }
}

/// Whether `c` is a white-space character of ASCII.
pub fn space(c: char) -> (b: bool)
    ensures
        b == is_space(c),
{
    c == ' ' || c == '\t' || c == '\n' || c == '\x0C' || c == '\r'
}

/// Cuts `s` into its words.
pub fn split_words(s: &Vec<char>) -> (words: Vec<String>)
    ensures
        line_views(words@) == words_of(s@),
{
    let mut words: Vec<String> = Vec::new();
    let mut cur: Vec<char> = Vec::new();
    let ghost mut start: int = 0;
    let mut i: usize = 0;
    proof {
        assert(s@.skip(0) =~= s@);
        assert(line_views(words@) + words_of(s@) =~= words_of(s@));
    }
    while i < s.len()
        invariant
            0 <= start <= i <= s.len(),
            cur@ == s@.subrange(start, i as int),
            forall|j: int| start <= j < i ==> !is_space(#[trigger] s@[j]),
            line_views(words@) + words_of(s@.skip(start)) == words_of(s@),
        decreases s.len() - i,
    {
        let c = s[i];
        if space(c) {
            let ghost rest = s@.skip(start);
            proof {
                assert forall|j: int| 0 <= j < i - start implies !is_space(#[trigger] rest[j]) by {
                    assert(rest[j] == s@[start + j]);
                }
                lemma_word_len_skip(rest, i - start);
                assert(rest.skip(i - start) =~= s@.skip(i as int));
                assert(word_len(s@.skip(i as int)) == 0);
                assert(s@.skip(i as int).drop_first() =~= s@.skip(i + 1));
                assert(rest.take(i - start) =~= cur@);
            }
            if cur.len() > 0 {
                let word = string_of(&cur);
                let ghost before = words@;
                words.push(word);
                cur = Vec::new();
                proof {
                    assert(rest[0] == s@[start]);
                    assert(line_views(words@) =~= line_views(before).push(word@));
                    assert(line_views(before).push(word@) + words_of(s@.skip(i + 1))
                        =~= line_views(before) + (seq![word@] + words_of(s@.skip(i as int))));
                }
            }
            proof {
                start = i + 1;
            }
        } else {
            cur.push(c);
        }
        i += 1;
    }
    if cur.len() > 0 {
        proof {
            let rest = s@.skip(start);
            assert forall|j: int| 0 <= j < rest.len() implies !is_space(#[trigger] rest[j]) by {
                assert(rest[j] == s@[start + j]);
            }
            lemma_word_len_skip(rest, rest.len() as int);
            assert(rest.skip(rest.len() as int) =~= Seq::<char>::empty());
            assert(rest =~= cur@);
            assert(rest[0] == s@[start]);
        }
        let word = string_of(&cur);
        let ghost before = words@;
        words.push(word);
        proof {
            assert(line_views(words@) =~= line_views(before).push(word@));
            assert(line_views(before).push(word@) =~= line_views(before) + seq![word@]);
        }
    } else {
        proof {
            assert(s@.skip(start).len() == 0);
            assert(line_views(words@) + Seq::<Seq<char>>::empty() =~= line_views(words@));
        }
    }
    words
}

} // verus!
