//! The parameters of the compiler invocations found in a build log, and
//! their union over a whole log.

use crate::sets::{FlagSet, OptTextSet, TextSet};
use crate::text::{line_views, opt_view};
use vstd::prelude::*;

verus! {

/// The parameters of one compiler invocation.
#[derive(Debug, Clone, PartialEq, Eq)]
pub struct CompileParams {
    /// The macros defined with `-D`, without the `-D`.
    pub defines: Vec<String>,
    /// Whether `-Wall` was given.
    pub w_all: bool,
    /// Whether `-Wextra` was given.
    pub w_extra: bool,
    /// Whether `-Werror` was given.
    pub w_error: bool,
    /// The other arguments that begin with `-W`.
    pub warns: Vec<String>,
    /// The arguments that begin with `-f` or `-U`.
    pub flags: Vec<String>,
    /// The language standard given with `-std=`, if one was.
    pub std: Option<String>,
    /// The directories given with `-iquote`.
    pub i_quote: Vec<String>,
    /// What follows `-g`, if `-g` was given.
    pub g: Option<String>,
}

/// What a [`CompileParams`] stands for.
pub struct CompileParamsView {
    pub defines: Seq<Seq<char>>,
    pub w_all: bool,
    pub w_extra: bool,
    pub w_error: bool,
    pub warns: Seq<Seq<char>>,
    pub flags: Seq<Seq<char>>,
    pub std: Option<Seq<char>>,
    pub i_quote: Seq<Seq<char>>,
    pub g: Option<Seq<char>>,
}

impl View for CompileParams {
    type V = CompileParamsView;

    open spec fn view(&self) -> CompileParamsView {
        CompileParamsView {
            defines: line_views(self.defines@),
            w_all: self.w_all,
            w_extra: self.w_extra,
            w_error: self.w_error,
            warns: line_views(self.warns@),
            flags: line_views(self.flags@),
            std: opt_view(self.std),
            i_quote: line_views(self.i_quote@),
            g: opt_view(self.g),
        }
    }
}

impl CompileParams {
    /// The parameters of an invocation without arguments.
    pub fn new() -> (p: CompileParams)
        ensures
            p@ == (CompileParamsView {
                defines: Seq::empty(),
                w_all: false,
                w_extra: false,
                w_error: false,
                warns: Seq::empty(),
                flags: Seq::empty(),
                std: None,
                i_quote: Seq::empty(),
                g: None,
            }),
    {
        let p = CompileParams {
            defines: Vec::new(),
            w_all: false,
            w_extra: false,
            w_error: false,
            warns: Vec::new(),
            flags: Vec::new(),
            std: None,
            i_quote: Vec::new(),
            g: None,
        };
        proof {
            assert(line_views(p.defines@) =~= Seq::<Seq<char>>::empty());
            assert(line_views(p.warns@) =~= Seq::<Seq<char>>::empty());
            assert(line_views(p.flags@) =~= Seq::<Seq<char>>::empty());
            assert(line_views(p.i_quote@) =~= Seq::<Seq<char>>::empty());
        }
        p
    }
}

/// Every value that some invocation of a log gave to each parameter.
#[derive(Debug, Clone, PartialEq, Eq)]
pub struct MergedCompileParams {
    pub defines: TextSet,
    pub w_all: FlagSet,
    pub w_extra: FlagSet,
    pub w_error: FlagSet,
    pub warns: TextSet,
    pub flags: TextSet,
    pub std: OptTextSet,
    pub i_quote: TextSet,
    pub g: OptTextSet,
}

/// What a [`MergedCompileParams`] stands for.
pub struct MergedView {
    pub defines: Set<Seq<char>>,
    pub w_all: Set<bool>,
    pub w_extra: Set<bool>,
    pub w_error: Set<bool>,
    pub warns: Set<Seq<char>>,
    pub flags: Set<Seq<char>>,
    pub std: Set<Option<Seq<char>>>,
    pub i_quote: Set<Seq<char>>,
    pub g: Set<Option<Seq<char>>>,
}

impl MergedView {
    /// The values of `self` together with those of one more invocation.
    pub open spec fn with(self, p: CompileParamsView) -> MergedView {
        MergedView {
            defines: self.defines.union(p.defines.to_set()),
            w_all: self.w_all.insert(p.w_all),
            w_extra: self.w_extra.insert(p.w_extra),
            w_error: self.w_error.insert(p.w_error),
            warns: self.warns.union(p.warns.to_set()),
            flags: self.flags.union(p.flags.to_set()),
            std: self.std.insert(p.std),
            i_quote: self.i_quote.union(p.i_quote.to_set()),
            g: self.g.insert(p.g),
        }
    }
}

impl View for MergedCompileParams {
    type V = MergedView;

    open spec fn view(&self) -> MergedView {
        MergedView {
            defines: self.defines@,
            w_all: self.w_all@,
            w_extra: self.w_extra@,
            w_error: self.w_error@,
            warns: self.warns@,
            flags: self.flags@,
            std: self.std@,
            i_quote: self.i_quote@,
            g: self.g@,
        }
    }
}

/// Makes every text of `values` a member of `set`.
pub fn extend(set: &mut TextSet, values: &Vec<String>)
    ensures
        final(set)@ == old(set)@.union(line_views(values@).to_set()),
{
    let ghost all = line_views(values@);
    let mut i: usize = 0;
    proof {
        assert(set@ =~= old(set)@.union(all.take(0).to_set()));
    }
    while i < values.len()
        invariant
            i <= values.len(),
            all == line_views(values@),
            set@ == old(set)@.union(all.take(i as int).to_set()),
        decreases values.len() - i,
    {
        let ghost before = set@;
        if !set.contains(values[i].as_str()) {
            set.insert(values[i].as_str());
        }
        proof {
            let v = all[i as int];
            assert(set@ =~= before.insert(v));
            assert(all.take(i + 1) =~= all.take(i as int).push(v));
            all.take(i as int).lemma_push_to_set_commute(v);
            assert(set@ =~= old(set)@.union(all.take(i + 1).to_set()));
        }
        i += 1;
    }
    proof {
        assert(all.take(values.len() as int) =~= all);
    }
}

impl MergedCompileParams {
    /// What the union over no invocation at all stands for.
    pub open spec fn new_view() -> MergedView {
        MergedView {
            defines: Set::empty(),
            w_all: Set::empty(),
            w_extra: Set::empty(),
            w_error: Set::empty(),
            warns: Set::empty(),
            flags: Set::empty(),
            std: Set::empty(),
            i_quote: Set::empty(),
            g: Set::empty(),
        }
    }

    /// The union over no invocation at all.
    pub fn new() -> (m: MergedCompileParams)
        ensures
            m@ == MergedCompileParams::new_view(),
    {
        MergedCompileParams {
            defines: TextSet::new(),
            w_all: FlagSet::new(),
            w_extra: FlagSet::new(),
            w_error: FlagSet::new(),
            warns: TextSet::new(),
            flags: TextSet::new(),
            std: OptTextSet::new(),
            i_quote: TextSet::new(),
            g: OptTextSet::new(),
        }
    }

    /// Adds the parameters of one invocation: each value joins the set of
    /// its parameter.
    pub fn merge(&mut self, compile_params: &CompileParams)
        ensures
            final(self)@ == old(self)@.with(compile_params@),
    {
        self.w_all.insert(compile_params.w_all);
        self.w_extra.insert(compile_params.w_extra);
        self.w_error.insert(compile_params.w_error);
        self.std.insert(&compile_params.std);
        self.g.insert(&compile_params.g);
        extend(&mut self.defines, &compile_params.defines);
        extend(&mut self.flags, &compile_params.flags);
        extend(&mut self.i_quote, &compile_params.i_quote);
        extend(&mut self.warns, &compile_params.warns);
    }
}

} // verus!
