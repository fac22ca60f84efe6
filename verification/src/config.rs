//! The choices of the build that consumes the patched tree: the page size,
//! of which exactly one is chosen, and the preprocessor macros that follow
//! from the switches that are on.

use crate::sets::{rank_text, Rank};
use crate::text::opt_str_view;
use vstd::prelude::*;

verus! {

/// Why no single candidate could be chosen.
#[derive(Debug, Clone, Copy, PartialEq, Eq, Structural)]
pub enum ChoiceError {
    /// No candidate is on.
    Missing,
    /// More than one candidate is on; `first` and `second` are the
    /// positions of the first two.
    Conflict { first: usize, second: usize },
}

/// Whether none of the first `n` switches is on.
pub open spec fn none_on(on: Seq<bool>, n: int) -> bool {
    forall|i: int| 0 <= i < n && i < on.len() ==> !#[trigger] on[i]
}

/// Whether the switch at `i` is the only one that is on.
pub open spec fn only_on(on: Seq<bool>, i: int) -> bool {
    &&& 0 <= i < on.len()
    &&& on[i]
    &&& forall|j: int| 0 <= j < on.len() && j != i ==> !#[trigger] on[j]
}

/// Whether the switches at `i` and `j` are the first two that are on.
pub open spec fn first_two_on(on: Seq<bool>, i: int, j: int) -> bool {
    &&& 0 <= i < j < on.len()
    &&& on[i]
    &&& on[j]
    &&& forall|k: int| 0 <= k < j && k != i ==> !#[trigger] on[k]
}

/// Picks the one switch that is on.
pub fn exactly_one(on: &Vec<bool>) -> (r: Result<usize, ChoiceError>)
    ensures
        match r {
            Ok(i) => only_on(on@, i as int),
            Err(ChoiceError::Missing) => none_on(on@, on@.len() as int),
            Err(ChoiceError::Conflict { first, second }) => first_two_on(
                on@,
                first as int,
                second as int,
            ),
        },
{
    let mut found: Option<usize> = None;
    let mut i: usize = 0;
    while i < on.len()
        invariant
            i <= on.len(),
            match found {
                None => none_on(on@, i as int),
                Some(f) => f < i && on@[f as int] && forall|k: int|
                    0 <= k < i && k != f ==> !#[trigger] on@[k],
            },
        decreases on.len() - i,
    {
        if on[i] {
            match found {
                Some(first) => {
                    return Err(ChoiceError::Conflict { first, second: i });
                },
                None => {
                    found = Some(i);
                },
            }
        }
        i += 1;
    }
    match found {
        Some(f) => Ok(f),
        None => Err(ChoiceError::Missing),
    }
}

/// The size of the pages that the allocator works with.
#[derive(Debug, Clone, Copy, PartialEq, Eq, Structural)]
pub enum PageSize {
    P8k,
    P32k,
    P256k,
    PSmall,
}

/// Why no page size could be chosen.
#[derive(Debug, Clone, Copy, PartialEq, Eq, Structural)]
pub enum PageSizeError {
    /// No page size is asked for.
    Missing,
    /// More than one page size is asked for; these are the first two.
    Conflict { first: PageSize, second: PageSize },
}

impl PageSize {
    /// The page sizes, in the order in which they are looked at.
    pub open spec fn in_order() -> Seq<PageSize> {
        seq![PageSize::P8k, PageSize::P32k, PageSize::P256k, PageSize::PSmall]
    }

    /// The page size at position `i` of [`PageSize::in_order`].
    pub fn at(i: usize) -> (p: PageSize)
        requires
            i < 4,
        ensures
            p == PageSize::in_order()[i as int],
    {
        if i == 0 {
            PageSize::P8k
        } else if i == 1 {
            PageSize::P32k
        } else if i == 2 {
            PageSize::P256k
        } else {
            PageSize::PSmall
        }
    }

    /// The preprocessor macro that selects this page size.
    pub fn to_define(self) -> (name: &'static str)
        ensures
            name@ == (match self {
                PageSize::P8k => "TCMALLOC_INTERNAL_8K_PAGES"@,
                PageSize::P32k => "TCMALLOC_INTERNAL_32K_PAGES"@,
                PageSize::P256k => "TCMALLOC_INTERNAL_256K_PAGES"@,
                PageSize::PSmall => "TCMALLOC_INTERNAL_SMALL_BUT_SLOW"@,
            }),
    {
        match self {
            PageSize::P8k => "TCMALLOC_INTERNAL_8K_PAGES",
            PageSize::P32k => "TCMALLOC_INTERNAL_32K_PAGES",
            PageSize::P256k => "TCMALLOC_INTERNAL_256K_PAGES",
            PageSize::PSmall => "TCMALLOC_INTERNAL_SMALL_BUT_SLOW",
        }
    }

    /// The name of the variable that asks for this page size.
    pub fn feature(self) -> (name: &'static str)
        ensures
            name@ == (match self {
                PageSize::P8k => "CARGO_FEATURE_8K_PAGES"@,
                PageSize::P32k => "CARGO_FEATURE_32K_PAGES"@,
                PageSize::P256k => "CARGO_FEATURE_256K_PAGES"@,
                PageSize::PSmall => "CARGO_FEATURE_SMALL_BUT_SLOW"@,
            }),
    {
        match self {
            PageSize::P8k => "CARGO_FEATURE_8K_PAGES",
            PageSize::P32k => "CARGO_FEATURE_32K_PAGES",
            PageSize::P256k => "CARGO_FEATURE_256K_PAGES",
            PageSize::PSmall => "CARGO_FEATURE_SMALL_BUT_SLOW",
        }
    }

    /// The one page size that is asked for, where the arguments say, in the
    /// order of [`PageSize::in_order`], which page sizes are asked for: the
    /// only one of them; none where none is asked for; where several are, a
    /// conflict of the first two.
    pub open spec fn selected(p8k: bool, p32k: bool, p256k: bool, small: bool) -> Result<
        PageSize,
        PageSizeError,
    > {
        if p8k {
            PageSize::unless(PageSize::P8k, p32k, p256k, small)
        } else if p32k {
            PageSize::unless(PageSize::P32k, false, p256k, small)
        } else if p256k {
            PageSize::unless(PageSize::P256k, false, false, small)
        } else if small {
            Ok(PageSize::PSmall)
        } else {
            Err(PageSizeError::Missing)
        }
    }

    /// The page size `first`, unless one of those behind it is asked for too.
    pub open spec fn unless(first: PageSize, p32k: bool, p256k: bool, small: bool) -> Result<
        PageSize,
        PageSizeError,
    > {
        if p32k {
            Err(PageSizeError::Conflict { first, second: PageSize::P32k })
        } else if p256k {
            Err(PageSizeError::Conflict { first, second: PageSize::P256k })
        } else if small {
            Err(PageSizeError::Conflict { first, second: PageSize::PSmall })
        } else {
            Ok(first)
        }
    }

    /// The one page size that is asked for. The arguments say, in the order
    /// of [`PageSize::in_order`], which page sizes are asked for.
    pub fn select(p8k: bool, p32k: bool, p256k: bool, small: bool) -> (r: Result<
        PageSize,
        PageSizeError,
    >)
        ensures
            r == PageSize::selected(p8k, p32k, p256k, small),
    {
        let mut on: Vec<bool> = Vec::new();
        on.push(p8k);
        on.push(p32k);
        on.push(p256k);
        on.push(small);
        proof {
            assert(on@ =~= seq![p8k, p32k, p256k, small]);
            assert(on@[0] == p8k && on@[1] == p32k && on@[2] == p256k && on@[3] == small);
        }
        match exactly_one(&on) {
            Ok(i) => Ok(PageSize::at(i)),
            Err(ChoiceError::Missing) => Err(PageSizeError::Missing),
            Err(ChoiceError::Conflict { first, second }) => Err(
                PageSizeError::Conflict {
                    first: PageSize::at(first),
                    second: PageSize::at(second),
                },
            ),
        }
    }
}

/// How the use of huge pages on advice is switched off.
#[derive(Debug, Clone, Copy, PartialEq, Eq, Structural)]
pub enum MadviseHugePages {
    Always,
    ByVar,
}

/// Both ways of switching off huge pages on advice are asked for.
#[derive(Debug, Clone, Copy, PartialEq, Eq, Structural)]
pub struct MadviseConflict {
    pub first: MadviseHugePages,
    pub second: MadviseHugePages,
}

impl MadviseHugePages {
    /// The preprocessor macro that selects this way.
    pub fn to_define(self) -> (name: &'static str)
        ensures
            name@ == (match self {
                MadviseHugePages::Always => "RUST_PATCHES_DISABLE_MADV_HUGEPAGE_ALWAYS"@,
                MadviseHugePages::ByVar => "RUST_PATCHES_DISABLE_MADV_HUGEPAGE_BY_VAR"@,
            }),
    {
        match self {
            MadviseHugePages::Always => "RUST_PATCHES_DISABLE_MADV_HUGEPAGE_ALWAYS",
            MadviseHugePages::ByVar => "RUST_PATCHES_DISABLE_MADV_HUGEPAGE_BY_VAR",
        }
    }

    /// The name of the variable that asks for this way.
    pub fn feature(self) -> (name: &'static str)
        ensures
            name@ == (match self {
                MadviseHugePages::Always => "CARGO_FEATURE_DISABLE_MADV_HUGEPAGE_ALWAYS"@,
                MadviseHugePages::ByVar => "CARGO_FEATURE_DISABLE_MADV_HUGEPAGE_BY_VAR"@,
            }),
    {
        match self {
            MadviseHugePages::Always => "CARGO_FEATURE_DISABLE_MADV_HUGEPAGE_ALWAYS",
            MadviseHugePages::ByVar => "CARGO_FEATURE_DISABLE_MADV_HUGEPAGE_BY_VAR",
        }
    }

    /// The way that is asked for, if one is; both at once are refused.
    pub fn select(always: bool, by_var: bool) -> (r: Result<
        Option<MadviseHugePages>,
        MadviseConflict,
    >)
        ensures
            r == (if always && by_var {
                Err::<Option<MadviseHugePages>, MadviseConflict>(
                    MadviseConflict {
                        first: MadviseHugePages::Always,
                        second: MadviseHugePages::ByVar,
                    },
                )
            } else if always {
                Ok(Some(MadviseHugePages::Always))
            } else if by_var {
                Ok(Some(MadviseHugePages::ByVar))
            } else {
                Ok(None)
            }),
    {
        if always && by_var {
            Err(
                MadviseConflict {
                    first: MadviseHugePages::Always,
                    second: MadviseHugePages::ByVar,
                },
            )
        } else if always {
            Ok(Some(MadviseHugePages::Always))
        } else if by_var {
            Ok(Some(MadviseHugePages::ByVar))
        } else {
            Ok(None)
        }
    }
}

/// Whether a value of the variable `DEBUG` switches debugging off: the
/// variable is not set, or it is empty, `0` or `false`.
pub open spec fn debug_off(value: Option<Seq<char>>) -> bool {
    match value {
        None => true,
        Some(v) => v.len() == 0 || v == "0"@ || v == "false"@,
    }
}

/// Whether a value of the variable `DEBUG` switches debugging off.
pub fn is_debug_off(value: Option<&str>) -> (b: bool)
    ensures
        b == debug_off(opt_str_view(value)),
{
    match value {
        None => true,
        Some(v) => {
            proof {
                reveal_strlit("");
                assert(""@ =~= Seq::<char>::empty());
                if v@.len() == 0 {
                    assert(v@ =~= ""@);
                }
            }
            rank_text(v, "") == Rank::Same || rank_text(v, "0") == Rank::Same || rank_text(
                v,
                "false",
            ) == Rank::Same
        },
    }
}

/// The switches of one build.
#[derive(Debug, Clone, Copy, PartialEq, Eq, Structural)]
pub struct BuildConfig {
    /// The page size.
    pub page_size: PageSize,
    /// Whether the caches are kept per thread.
    pub deprecated_perthread: bool,
    /// Whether the old locking is used.
    pub legacy_locking: bool,
    /// Whether the allocator looks at the memory nodes of the machine.
    pub numa_aware: bool,
    /// How huge pages on advice are switched off, if they are.
    pub madvise_huge_pages: Option<MadviseHugePages>,
    /// Whether debugging is off.
    pub debug_off: bool,
}

/// `s` with `item` behind it where `on` is set.
pub open spec fn push_if(s: Seq<Seq<char>>, on: bool, item: Seq<char>) -> Seq<Seq<char>> {
    if on {
        s.push(item)
    } else {
        s
    }
}

impl BuildConfig {
    /// The preprocessor macros of the build, in the order in which they are
    /// handed to the compiler.
    pub open spec fn defines_of(self) -> Seq<Seq<char>> {
        let fixed = seq!["NOMINMAX"@, "TCMALLOC_INTERNAL_METHODS_ONLY"@];
        let paged = fixed.push(
            match self.page_size {
                PageSize::P8k => "TCMALLOC_INTERNAL_8K_PAGES"@,
                PageSize::P32k => "TCMALLOC_INTERNAL_32K_PAGES"@,
                PageSize::P256k => "TCMALLOC_INTERNAL_256K_PAGES"@,
                PageSize::PSmall => "TCMALLOC_INTERNAL_SMALL_BUT_SLOW"@,
            },
        );
        let threaded = push_if(paged, self.deprecated_perthread, "TCMALLOC_DEPRECATED_PERTHREAD"@);
        let locked = push_if(threaded, self.legacy_locking, "TCMALLOC_INTERNAL_LEGACY_LOCKING"@);
        let placed = push_if(locked, self.numa_aware, "TCMALLOC_INTERNAL_NUMA_AWARE"@);
        let advised = match self.madvise_huge_pages {
            Some(MadviseHugePages::Always) => placed.push(
                "RUST_PATCHES_DISABLE_MADV_HUGEPAGE_ALWAYS"@,
            ),
            Some(MadviseHugePages::ByVar) => placed.push(
                "RUST_PATCHES_DISABLE_MADV_HUGEPAGE_BY_VAR"@,
            ),
            None => placed,
        };
        push_if(advised, self.debug_off, "NDEBUG"@)
    }

    /// The preprocessor macros of the build, in the order in which they are
    /// handed to the compiler.
    pub fn defines(&self) -> (names: Vec<&'static str>)
        ensures
            names@.len() == self.defines_of().len(),
            forall|i: int|
                0 <= i < names@.len() ==> (#[trigger] names@[i])@ == self.defines_of()[i],
    {
        let mut names: Vec<&'static str> = Vec::new();
        names.push("NOMINMAX");
        names.push("TCMALLOC_INTERNAL_METHODS_ONLY");
        names.push(self.page_size.to_define());
        if self.deprecated_perthread {
            names.push("TCMALLOC_DEPRECATED_PERTHREAD");
        }
        if self.legacy_locking {
            names.push("TCMALLOC_INTERNAL_LEGACY_LOCKING");
        }
        if self.numa_aware {
            names.push("TCMALLOC_INTERNAL_NUMA_AWARE");
        }
        match self.madvise_huge_pages {
            Some(way) => {
                names.push(way.to_define());
            },
            None => {},
        }
        if self.debug_off {
            names.push("NDEBUG");
        }
        names
    }
}

} // verus!
