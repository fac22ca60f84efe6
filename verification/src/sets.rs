//! Small ordered sets: of texts, of flags and of optional texts. Each keeps
//! its members once, in ascending order.

use crate::text::{chars_of, line_views, opt_view};
use vstd::prelude::*;

verus! {

/// Whether `a` comes before `b` in the order of texts: at the first
/// position at which they differ `a` holds the smaller character, or `a` ends
/// there and `b` goes on.
pub open spec fn text_less(a: Seq<char>, b: Seq<char>) -> bool
    decreases a.len(),
{
    if b.len() == 0 {
        false
    } else if a.len() == 0 {
        true
    } else if a[0] != b[0] {
        (a[0] as u32) < (b[0] as u32)
    } else {
        text_less(a.drop_first(), b.drop_first())
    }
}

/// Characters that differ have codes that differ.
pub proof fn lemma_code_differs(x: char, y: char)
    requires
        x != y,
    ensures
        x as u32 != y as u32,
{
    vstd::utf8::char_u32_cast(x, x as u32);
    vstd::utf8::char_u32_cast(y, y as u32);
}

/// No text comes before itself.
pub proof fn lemma_text_less_irreflexive(a: Seq<char>)
    ensures
        !text_less(a, a),
    decreases a.len(),
{
    if a.len() > 0 {
        lemma_text_less_irreflexive(a.drop_first());
    }
}

/// Of two texts that differ, one comes before the other.
pub proof fn lemma_text_less_total(a: Seq<char>, b: Seq<char>)
    ensures
        a == b || text_less(a, b) || text_less(b, a),
        !(text_less(a, b) && text_less(b, a)),
    decreases a.len(),
{
    if a.len() > 0 && b.len() > 0 {
        if a[0] == b[0] {
            lemma_text_less_total(a.drop_first(), b.drop_first());
            if a.drop_first() == b.drop_first() {
                assert(a =~= seq![a[0]] + a.drop_first());
                assert(b =~= seq![b[0]] + b.drop_first());
            }
        } else {
            lemma_code_differs(a[0], b[0]);
        }
    } else if a.len() == 0 && b.len() == 0 {
        assert(a =~= b);
    }
}

/// The order of texts is transitive.
pub proof fn lemma_text_less_transitive(a: Seq<char>, b: Seq<char>, c: Seq<char>)
    requires
        text_less(a, b),
        text_less(b, c),
    ensures
        text_less(a, c),
    decreases a.len(),
{
    if a.len() > 0 {
        if a[0] == b[0] && b[0] == c[0] {
            lemma_text_less_transitive(a.drop_first(), b.drop_first(), c.drop_first());
        }
    }
}

/// How one text stands to another in the order of texts.
#[derive(Debug, Clone, Copy, PartialEq, Eq, Structural)]
pub enum Rank {
    Before,
    Same,
    After,
}

/// How `a` stands to `b` in the order of texts.
pub fn rank_chars(a: &Vec<char>, b: &Vec<char>) -> (r: Rank)
    ensures
        r == Rank::Before <==> text_less(a@, b@),
        r == Rank::Same <==> a@ == b@,
        r == Rank::After <==> text_less(b@, a@),
{
    let mut i: usize = 0;
    proof {
        assert(a@.skip(0) =~= a@);
        assert(b@.skip(0) =~= b@);
        lemma_text_less_total(a@, b@);
        lemma_text_less_irreflexive(a@);
    }
    while i < a.len() && i < b.len()
        invariant
            i <= a.len(),
            i <= b.len(),
            a@.take(i as int) == b@.take(i as int),
            text_less(a@, b@) == text_less(a@.skip(i as int), b@.skip(i as int)),
            text_less(b@, a@) == text_less(b@.skip(i as int), a@.skip(i as int)),
        decreases a.len() - i,
    {
        let x = a[i];
        let y = b[i];
        proof {
            assert(a@.skip(i as int)[0] == x);
            assert(b@.skip(i as int)[0] == y);
            assert(a@.skip(i as int).drop_first() =~= a@.skip(i + 1));
            assert(b@.skip(i as int).drop_first() =~= b@.skip(i + 1));
        }
        if x != y {
            proof {
                lemma_code_differs(x, y);
            }
            if (x as u32) < (y as u32) {
                return Rank::Before;
            } else {
                return Rank::After;
            }
        }
        proof {
            assert(a@.take(i + 1) =~= a@.take(i as int).push(x));
            assert(b@.take(i + 1) =~= b@.take(i as int).push(y));
        }
        i += 1;
    }
    proof {
        if i == a.len() && i == b.len() {
            assert(a@.take(i as int) =~= a@);
            assert(b@.take(i as int) =~= b@);
        } else if i == a.len() {
            assert(b@.take(i as int) =~= a@);
            assert(a@.len() != b@.len());
        } else {
            assert(a@.take(i as int) =~= b@);
            assert(a@.len() != b@.len());
        }
    }
    if i < b.len() {
        Rank::Before
    } else if i < a.len() {
        Rank::After
    } else {
        Rank::Same
    }
}

/// How `a` stands to `b` in the order of texts.
pub fn rank_text(a: &str, b: &str) -> (r: Rank)
    ensures
        r == Rank::Before <==> text_less(a@, b@),
        r == Rank::Same <==> a@ == b@,
        r == Rank::After <==> text_less(b@, a@),
{
    let x = chars_of(a);
    let y = chars_of(b);
    rank_chars(&x, &y)
}

/// Whether the texts of `s` stand in ascending order, none of them twice.
pub open spec fn ascending_texts(s: Seq<Seq<char>>) -> bool {
    forall|i: int, j: int| 0 <= i < j < s.len() ==> text_less(#[trigger] s[i], #[trigger] s[j])
}

/// A set of texts, kept in ascending order.
#[derive(Debug, PartialEq, Eq)]
pub struct TextSet {
    items: Vec<String>,
}

impl Clone for TextSet {
    fn clone(&self) -> (s: TextSet)
        ensures
            s.texts() == self.texts(),
            s@ == self@,
    {
        proof {
            use_type_invariant(self);
        }
        let mut items: Vec<String> = Vec::new();
        let mut k: usize = 0;
        while k < self.items.len()
            invariant
                k <= self.items.len(),
                items@ == self.items@.take(k as int),
            decreases self.items.len() - k,
        {
            items.push(self.items[k].clone());
            proof {
                assert(items@ =~= self.items@.take(k + 1));
            }
            k += 1;
        }
        proof {
            assert(self.items@.take(self.items.len() as int) =~= self.items@);
        }
        TextSet { items }
    }
}

impl View for TextSet {
    type V = Set<Seq<char>>;

    closed spec fn view(&self) -> Set<Seq<char>> {
        self.texts().to_set()
    }
}

impl TextSet {
    /// The members ascend, so none is held twice.
    #[verifier::type_invariant]
    spec fn ordered(&self) -> bool {
        ascending_texts(line_views(self.items@))
    }

    /// The members, in the order in which the set keeps them.
    pub closed spec fn texts(&self) -> Seq<Seq<char>> {
        line_views(self.items@)
    }

    /// The members of the set are the texts that it keeps.
    pub proof fn lemma_view(&self)
        ensures
            self@ == self.texts().to_set(),
    {
    }

    /// The empty set.
    pub fn new() -> (s: TextSet)
        ensures
            s.texts() == Seq::<Seq<char>>::empty(),
            s@ == Set::<Seq<char>>::empty(),
    {
        let items: Vec<String> = Vec::new();
        proof {
            assert(line_views(items@) =~= Seq::<Seq<char>>::empty());
        }
        let s = TextSet { items };
        proof {
            assert(s@ =~= Set::<Seq<char>>::empty());
        }
        s
    }

    /// The number of members.
    pub fn len(&self) -> (n: usize)
        ensures
            n == self.texts().len(),
    {
        self.items.len()
    }

    /// The members in ascending order.
    pub fn items(&self) -> (v: &Vec<String>)
        ensures
            line_views(v@) == self.texts(),
            ascending_texts(line_views(v@)),
            line_views(v@).to_set() == self@,
    {
        proof {
            use_type_invariant(self);
        }
        &self.items
    }

    /// The position at which `value` stands or would have to stand, and
    /// whether it stands there.
    fn position(&self, value: &Vec<char>) -> (r: (usize, bool))
        ensures
            r.0 <= self.texts().len(),
            forall|i: int| 0 <= i < r.0 ==> text_less(#[trigger] self.texts()[i], value@),
            forall|i: int|
                r.0 <= i < self.texts().len() && !r.1 ==> text_less(
                    value@,
                    #[trigger] self.texts()[i],
                ),
            r.1 ==> r.0 < self.texts().len() && self.texts()[r.0 as int] == value@,
            r.1 == self@.contains(value@),
    {
        proof {
            use_type_invariant(self);
        }
        let ghost s = self.texts();
        let mut p: usize = 0;
        while p < self.items.len()
            invariant
                p <= self.items.len(),
                s == self.texts(),
                ascending_texts(s),
                forall|i: int| 0 <= i < p ==> text_less(#[trigger] s[i], value@),
            decreases self.items.len() - p,
        {
            let held = chars_of(self.items[p].as_str());
            match rank_chars(&held, value) {
                Rank::Before => {},
                Rank::Same => {
                    proof {
                        assert(s[p as int] == value@);
                        assert(s.contains(value@));
                    }
                    return (p, true);
                },
                Rank::After => {
                    proof {
                        assert forall|i: int| p <= i < s.len() implies text_less(
                            value@,
                            #[trigger] s[i],
                        ) by {
                            if i > p {
                                lemma_text_less_transitive(value@, s[p as int], s[i]);
                            }
                        }
                        lemma_text_less_irreflexive(value@);
                        assert(!s.contains(value@));
                    }
                    return (p, false);
                },
            }
            p += 1;
        }
        proof {
            lemma_text_less_irreflexive(value@);
            assert(!s.contains(value@));
        }
        (p, false)
    }

    /// Whether `value` is a member.
    pub fn contains(&self, value: &str) -> (b: bool)
        ensures
            b == self@.contains(value@),
    {
        let chars = chars_of(value);
        let (_, found) = self.position(&chars);
        found
    }

    /// Makes `value` a member. Returns whether it was none before.
    pub fn insert(&mut self, value: &str) -> (added: bool)
        ensures
            final(self)@ == old(self)@.insert(value@),
            added == !old(self)@.contains(value@),
    {
        let chars = chars_of(value);
        let (p, found) = self.position(&chars);
        if found {
            proof {
                assert(self@.insert(value@) =~= self@);
            }
            return false;
        }
        proof {
            use_type_invariant(&*self);
        }
        let ghost before = self.texts();
        let mut items: Vec<String> = Vec::new();
        proof {
            assert(line_views(items@) =~= Seq::<Seq<char>>::empty());
        }
        core::mem::swap(&mut self.items, &mut items);
        items.insert(p, value.to_owned());
        proof {
            lemma_inserted(before, p as int, value@, line_views(items@));
        }
        self.items = items;
        true
    }
}

/// A text put into ascending texts at its place leaves them ascending, and
/// is their one new member.
proof fn lemma_inserted(before: Seq<Seq<char>>, p: int, value: Seq<char>, after: Seq<Seq<char>>)
    requires
        ascending_texts(before),
        0 <= p <= before.len(),
        forall|i: int| 0 <= i < p ==> text_less(#[trigger] before[i], value),
        forall|i: int| p <= i < before.len() ==> text_less(value, #[trigger] before[i]),
        after.len() == before.len() + 1,
        forall|i: int| 0 <= i < p ==> after[i] == before[i],
        after[p] == value,
        forall|i: int| p < i < after.len() ==> after[i] == before[i - 1],
    ensures
        ascending_texts(after),
        after.to_set() == before.to_set().insert(value),
{
    assert forall|i: int, j: int| 0 <= i < j < after.len() implies text_less(
        #[trigger] after[i],
        #[trigger] after[j],
    ) by {
        if j < p {
            assert(after[i] == before[i] && after[j] == before[j]);
        } else if j == p {
            assert(after[i] == before[i]);
        } else if i < p {
            assert(after[i] == before[i] && after[j] == before[j - 1]);
        } else if i == p {
            assert(after[j] == before[j - 1]);
        } else {
            assert(after[i] == before[i - 1] && after[j] == before[j - 1]);
        }
    }
    assert(after.to_set() =~= before.to_set().insert(value)) by {
        assert forall|t: Seq<char>| after.to_set().contains(t) implies before.to_set().insert(
            value,
        ).contains(t) by {
            let i = choose|i: int| 0 <= i < after.len() && after[i] == t;
            if i < p {
                assert(before[i] == t);
            } else if i > p {
                assert(before[i - 1] == t);
            }
        }
        assert forall|t: Seq<char>|
            before.to_set().insert(value).contains(t) implies after.to_set().contains(t) by {
            if t == value {
                assert(after[p] == t);
            } else {
                let i = choose|i: int| 0 <= i < before.len() && before[i] == t;
                if i < p {
                    assert(after[i] == t);
                } else {
                    assert(after[i + 1] == t);
                }
            }
        }
    }
}

/// A set of flags.
#[derive(Debug, Clone, Copy, PartialEq, Eq)]
pub struct FlagSet {
    /// Whether `false` is a member.
    pub has_false: bool,
    /// Whether `true` is a member.
    pub has_true: bool,
}

impl View for FlagSet {
    type V = Set<bool>;

    open spec fn view(&self) -> Set<bool> {
        Set::new(|b: bool| if b { self.has_true } else { self.has_false })
    }
}

impl FlagSet {
    /// The empty set.
    pub fn new() -> (s: FlagSet)
        ensures
            s@ == Set::<bool>::empty(),
    {
        let s = FlagSet { has_false: false, has_true: false };
        proof {
            assert(s@ =~= Set::<bool>::empty());
        }
        s
    }

    /// Whether `flag` is a member.
    pub fn contains(&self, flag: bool) -> (b: bool)
        ensures
            b == self@.contains(flag),
    {
        if flag {
            self.has_true
        } else {
            self.has_false
        }
    }

    /// Makes `flag` a member. Returns whether it was none before.
    pub fn insert(&mut self, flag: bool) -> (added: bool)
        ensures
            final(self)@ == old(self)@.insert(flag),
            added == !old(self)@.contains(flag),
    {
        let added = !self.contains(flag);
        if flag {
            self.has_true = true;
        } else {
            self.has_false = true;
        }
        proof {
            assert(self@ =~= old(self)@.insert(flag));
        }
        added
    }
}

/// A set of optional texts. The absent text comes before every text.
#[derive(Debug, Clone, PartialEq, Eq)]
pub struct OptTextSet {
    /// Whether the absent text is a member.
    pub has_none: bool,
    /// The texts that are members.
    pub texts: TextSet,
}

impl View for OptTextSet {
    type V = Set<Option<Seq<char>>>;

    open spec fn view(&self) -> Set<Option<Seq<char>>> {
        Set::new(
            |o: Option<Seq<char>>|
                match o {
                    None => self.has_none,
                    Some(t) => self.texts@.contains(t),
                },
        )
    }
}

impl OptTextSet {
    /// The empty set.
    pub fn new() -> (s: OptTextSet)
        ensures
            s@ == Set::<Option<Seq<char>>>::empty(),
    {
        let s = OptTextSet { has_none: false, texts: TextSet::new() };
        proof {
            assert(s@ =~= Set::<Option<Seq<char>>>::empty());
        }
        s
    }

    /// Makes `value` a member. Returns whether it was none before.
    pub fn insert(&mut self, value: &Option<String>) -> (added: bool)
        ensures
            final(self)@ == old(self)@.insert(opt_view(*value)),
            added == !old(self)@.contains(opt_view(*value)),
    {
        let added = match value {
            None => {
                let added = !self.has_none;
                self.has_none = true;
                added
            },
            Some(text) => self.texts.insert(text.as_str()),
        };
        proof {
            assert(self@ =~= old(self)@.insert(opt_view(*value)));
        }
        added
    }
}

} // verus!
