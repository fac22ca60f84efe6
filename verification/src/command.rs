//! Reading the arguments of one compiler invocation of a build log.

use crate::scan::{CompileParams, CompileParamsView};
use crate::text::{
    after_prefix, begins_with, chars_of, has_prefix, is_text, line_views, opt_view,
    string_between, string_of,
};
use vstd::prelude::*;

verus! {

/// An argument that takes the argument behind it as its value.
#[derive(Debug, Clone, Copy, PartialEq, Eq, Structural)]
pub enum ValueFlag {
    /// `-o`
    Output,
    /// `-MF`
    DepFile,
    /// `-iquote`
    IQuote,
}

/// Why the arguments of an invocation could not be read.
#[derive(Debug, Clone, PartialEq, Eq)]
pub enum ScanError {
    /// The line holds no word at all.
    ExpectedCompiler,
    /// The line holds the compiler and nothing else.
    EmptyArgs,
    /// The last word of the line does not end with `)`.
    MissingParen,
    /// An argument begins with the quotation mark `quote` and does not end
    /// with it.
    UnclosedQuote { quote: char },
    /// The last argument is `flag`, which takes a value.
    MissingValue { flag: ValueFlag },
    /// A second output file is named.
    DuplicateOutput { rejected: String, existing: String },
    /// A second input file is named.
    DuplicateInput { rejected: String, existing: String },
    /// No input file is named.
    InputNotFound,
    /// No output file is named.
    OutputNotFound,
}

/// What a [`ScanError`] stands for.
pub enum ScanFault {
    ExpectedCompiler,
    EmptyArgs,
    MissingParen,
    UnclosedQuote { quote: char },
    MissingValue { flag: ValueFlag },
    DuplicateOutput { rejected: Seq<char>, existing: Seq<char> },
    DuplicateInput { rejected: Seq<char>, existing: Seq<char> },
    InputNotFound,
    OutputNotFound,
}

impl View for ScanError {
    type V = ScanFault;

    open spec fn view(&self) -> ScanFault {
        match *self {
            ScanError::ExpectedCompiler => ScanFault::ExpectedCompiler,
            ScanError::EmptyArgs => ScanFault::EmptyArgs,
            ScanError::MissingParen => ScanFault::MissingParen,
            ScanError::UnclosedQuote { quote } => ScanFault::UnclosedQuote { quote },
            ScanError::MissingValue { flag } => ScanFault::MissingValue { flag },
            ScanError::DuplicateOutput { rejected, existing } => ScanFault::DuplicateOutput {
                rejected: rejected@,
                existing: existing@,
            },
            ScanError::DuplicateInput { rejected, existing } => ScanFault::DuplicateInput {
                rejected: rejected@,
                existing: existing@,
            },
            ScanError::InputNotFound => ScanFault::InputNotFound,
            ScanError::OutputNotFound => ScanFault::OutputNotFound,
        }
    }
}

/// Whether `c` is a quotation mark.
pub open spec fn is_quote(c: char) -> bool {
    c == '\'' || c == '"'
}

/// `s` without the quotation marks around it: where `s` begins with a
/// quotation mark, it has to end with the same mark, and what stands between
/// the two is meant; `None` where the mark at the end is missing. A text that
/// begins with no quotation mark stands for itself.
pub open spec fn unquoted(s: Seq<char>) -> Option<Seq<char>> {
    if s.len() > 0 && is_quote(s[0]) {
        if s.len() >= 2 && s.last() == s[0] {
            Some(s.subrange(1, s.len() - 1))
        } else {
            None
        }
    } else {
        Some(s)
    }
}

/// What a result of [`strip_quotes`] stands for.
pub open spec fn unquoted_outcome(r: Result<String, ScanError>) -> Result<Seq<char>, ScanFault> {
    match r {
        Ok(s) => Ok(s@),
        Err(e) => Err(e@),
    }
}

/// What stripping the quotation marks of `s` gives.
pub open spec fn strip_quotes_of(s: Seq<char>) -> Result<Seq<char>, ScanFault> {
    match unquoted(s) {
        Some(t) => Ok(t),
        None => Err(ScanFault::UnclosedQuote { quote: s[0] }),
    }
}

/// `s` without the quotation marks around it.
pub fn unquote(s: &Vec<char>) -> (r: Result<String, ScanError>)
    ensures
        unquoted_outcome(r) == strip_quotes_of(s@),
{
    let n = s.len();
    if n > 0 && (s[0] == '\'' || s[0] == '"') {
        if n >= 2 && s[n - 1] == s[0] {
            Ok(string_between(s, 1, n - 1))
        } else {
            Err(ScanError::UnclosedQuote { quote: s[0] })
        }
    } else {
        Ok(string_of(s))
    }
}

/// `s` without the quotation marks around it.
pub fn strip_quotes(s: &str) -> (r: Result<String, ScanError>)
    ensures
        unquoted_outcome(r) == strip_quotes_of(s@),
{
    let chars = chars_of(s);
    unquote(&chars)
}

/// What an argument, taken without its quotation marks, asks for.
#[derive(Debug, Clone, Copy, PartialEq, Eq, Structural)]
pub enum ArgKind {
    /// `-Wall`
    WAll,
    /// `-Wextra`
    WExtra,
    /// `-Werror`
    WError,
    /// `-o`: the next argument is the output file.
    Output,
    /// `-c`, `-MD` and `-frandom-seed=..`: of no interest.
    Ignored,
    /// `-MF`: the next argument is of no interest either.
    DepFile,
    /// `-iquote`: the next argument is a directory.
    IQuote,
    /// `-D..`
    Define,
    /// `-std=..`
    Std,
    /// `-f..` and `-U..`
    Flag,
    /// `-W..`
    Warn,
    /// `-g..`
    Debug,
    /// Anything else: the input file.
    Input,
}

/// What the argument `a` asks for. The first description that fits counts.
pub open spec fn arg_kind(a: Seq<char>) -> ArgKind {
    if a == "-Wall"@ {
        ArgKind::WAll
    } else if a == "-Wextra"@ {
        ArgKind::WExtra
    } else if a == "-Werror"@ {
        ArgKind::WError
    } else if a == "-o"@ {
        ArgKind::Output
    } else if a == "-c"@ || a == "-MD"@ || has_prefix(a, "-frandom-seed="@) {
        ArgKind::Ignored
    } else if a == "-MF"@ {
        ArgKind::DepFile
    } else if a == "-iquote"@ {
        ArgKind::IQuote
    } else if has_prefix(a, "-D"@) {
        ArgKind::Define
    } else if has_prefix(a, "-std="@) {
        ArgKind::Std
    } else if has_prefix(a, "-f"@) || has_prefix(a, "-U"@) {
        ArgKind::Flag
    } else if has_prefix(a, "-W"@) {
        ArgKind::Warn
    } else if has_prefix(a, "-g"@) {
        ArgKind::Debug
    } else {
        ArgKind::Input
    }
}

/// What the argument `a` asks for.
pub fn classify(a: &Vec<char>) -> (k: ArgKind)
    ensures
        k == arg_kind(a@),
{
    if is_text(a, "-Wall") {
        ArgKind::WAll
    } else if is_text(a, "-Wextra") {
        ArgKind::WExtra
    } else if is_text(a, "-Werror") {
        ArgKind::WError
    } else if is_text(a, "-o") {
        ArgKind::Output
    } else if is_text(a, "-c") || is_text(a, "-MD") || begins_with(a, "-frandom-seed=") {
        ArgKind::Ignored
    } else if is_text(a, "-MF") {
        ArgKind::DepFile
    } else if is_text(a, "-iquote") {
        ArgKind::IQuote
    } else if begins_with(a, "-D") {
        ArgKind::Define
    } else if begins_with(a, "-std=") {
        ArgKind::Std
    } else if begins_with(a, "-f") || begins_with(a, "-U") {
        ArgKind::Flag
    } else if begins_with(a, "-W") {
        ArgKind::Warn
    } else if begins_with(a, "-g") {
        ArgKind::Debug
    } else {
        ArgKind::Input
    }
}

/// What has been read of the arguments of an invocation.
#[derive(Debug, Clone, PartialEq, Eq)]
pub struct ArgState {
    pub params: CompileParams,
    pub input: Option<String>,
    pub output: Option<String>,
}

/// What an [`ArgState`] stands for.
pub struct ArgStateView {
    pub params: CompileParamsView,
    pub input: Option<Seq<char>>,
    pub output: Option<Seq<char>>,
}

impl View for ArgState {
    type V = ArgStateView;

    open spec fn view(&self) -> ArgStateView {
        ArgStateView {
            params: self.params@,
            input: opt_view(self.input),
            output: opt_view(self.output),
        }
    }
}

/// The state before any argument is read.
pub open spec fn no_args() -> ArgStateView {
    ArgStateView {
        params: CompileParamsView {
            defines: Seq::empty(),
            w_all: false,
            w_extra: false,
            w_error: false,
            warns: Seq::empty(),
            flags: Seq::empty(),
            std: None,
            i_quote: Seq::empty(),
            g: None,
        },
        input: None,
        output: None,
    }
}

/// Reads the argument at position `i`: the state after it, and the
/// position of the next argument to read. An argument that takes a value
/// takes the argument behind it as it stands, quotation marks included.
pub open spec fn arg_step(args: Seq<Seq<char>>, i: int, st: ArgStateView) -> Result<
    (ArgStateView, int),
    ScanFault,
> {
    match unquoted(args[i]) {
        None => Err(ScanFault::UnclosedQuote { quote: args[i][0] }),
        Some(a) => match arg_kind(a) {
            ArgKind::WAll => Ok(
                (
                    ArgStateView { params: CompileParamsView { w_all: true, ..st.params }, ..st },
                    i + 1,
                ),
            ),
            ArgKind::WExtra => Ok(
                (
                    ArgStateView { params: CompileParamsView { w_extra: true, ..st.params }, ..st },
                    i + 1,
                ),
            ),
            ArgKind::WError => Ok(
                (
                    ArgStateView { params: CompileParamsView { w_error: true, ..st.params }, ..st },
                    i + 1,
                ),
            ),
            ArgKind::Output => if i + 1 >= args.len() {
                Err(ScanFault::MissingValue { flag: ValueFlag::Output })
            } else {
                match st.output {
                    Some(existing) => Err(
                        ScanFault::DuplicateOutput { rejected: args[i + 1], existing },
                    ),
                    None => Ok((ArgStateView { output: Some(args[i + 1]), ..st }, i + 2)),
                }
            },
            ArgKind::Ignored => Ok((st, i + 1)),
            ArgKind::DepFile => if i + 1 >= args.len() {
                Err(ScanFault::MissingValue { flag: ValueFlag::DepFile })
            } else {
                Ok((st, i + 2))
            },
            ArgKind::IQuote => if i + 1 >= args.len() {
                Err(ScanFault::MissingValue { flag: ValueFlag::IQuote })
            } else {
                Ok(
                    (
                        ArgStateView {
                            params: CompileParamsView {
                                i_quote: st.params.i_quote.push(args[i + 1]),
                                ..st.params
                            },
                            ..st
                        },
                        i + 2,
                    ),
                )
            },
            ArgKind::Define => Ok(
                (
                    ArgStateView {
                        params: CompileParamsView {
                            defines: st.params.defines.push(a.skip("-D"@.len() as int)),
                            ..st.params
                        },
                        ..st
                    },
                    i + 1,
                ),
            ),
            ArgKind::Std => match unquoted(a.skip("-std="@.len() as int)) {
                None => Err(ScanFault::UnclosedQuote { quote: a.skip("-std="@.len() as int)[0] }),
                Some(std) => Ok(
                    (
                        ArgStateView {
                            params: CompileParamsView { std: Some(std), ..st.params },
                            ..st
                        },
                        i + 1,
                    ),
                ),
            },
            ArgKind::Flag => Ok(
                (
                    ArgStateView {
                        params: CompileParamsView { flags: st.params.flags.push(a), ..st.params },
                        ..st
                    },
                    i + 1,
                ),
            ),
            ArgKind::Warn => Ok(
                (
                    ArgStateView {
                        params: CompileParamsView { warns: st.params.warns.push(a), ..st.params },
                        ..st
                    },
                    i + 1,
                ),
            ),
            ArgKind::Debug => match unquoted(a.skip("-g"@.len() as int)) {
                None => Err(ScanFault::UnclosedQuote { quote: a.skip("-g"@.len() as int)[0] }),
                Some(g) => Ok(
                    (
                        ArgStateView {
                            params: CompileParamsView { g: Some(g), ..st.params },
                            ..st
                        },
                        i + 1,
                    ),
                ),
            },
            ArgKind::Input => match st.input {
                Some(existing) => Err(ScanFault::DuplicateInput { rejected: a, existing }),
                None => Ok((ArgStateView { input: Some(a), ..st }, i + 1)),
            },
        },
    }
}

/// Reads the arguments from position `i` on, one after the other.
pub open spec fn args_from(args: Seq<Seq<char>>, i: int, st: ArgStateView) -> Result<
    ArgStateView,
    ScanFault,
>
    decreases args.len() - i,
{
    if i < 0 || i >= args.len() {
        Ok(st)
    } else {
        match arg_step(args, i, st) {
            Err(e) => Err(e),
            Ok((next, j)) => if j > i {
                args_from(args, j, next)
            } else {
                Ok(next)
            },
        }
    }
}

/// One compiler invocation.
#[derive(Debug, Clone, PartialEq, Eq)]
pub struct Invocation {
    /// The file that is compiled.
    pub input: String,
    /// The file that the compiler writes.
    pub output: String,
    /// The other parameters.
    pub params: CompileParams,
}

/// What an [`Invocation`] stands for.
pub struct InvocationView {
    pub input: Seq<char>,
    pub output: Seq<char>,
    pub params: CompileParamsView,
}

impl View for Invocation {
    type V = InvocationView;

    open spec fn view(&self) -> InvocationView {
        InvocationView { input: self.input@, output: self.output@, params: self.params@ }
    }
}

/// The invocation that the arguments `args` describe: every argument is
/// read, and an input and an output file have to be among them.
pub open spec fn invocation_of(args: Seq<Seq<char>>) -> Result<InvocationView, ScanFault> {
    match args_from(args, 0, no_args()) {
        Err(e) => Err(e),
        Ok(st) => match st.input {
            None => Err(ScanFault::InputNotFound),
            Some(input) => match st.output {
                None => Err(ScanFault::OutputNotFound),
                Some(output) => Ok(InvocationView { input, output, params: st.params }),
            },
        },
    }
}

/// What a result of [`parse_args`] stands for.
pub open spec fn invocation_outcome(r: Result<Invocation, ScanError>) -> Result<
    InvocationView,
    ScanFault,
> {
    match r {
        Ok(v) => Ok(v@),
        Err(e) => Err(e@),
    }
}

/// Reads the argument at position `i` into `st` and returns the position
/// of the next argument to read.
fn take_arg(args: &Vec<String>, i: usize, st: &mut ArgState) -> (r: Result<usize, ScanError>)
    requires
        i < args.len(),
    ensures
        match r {
            Ok(next) => i < next <= args.len() && arg_step(
                line_views(args@),
                i as int,
                old(st)@,
            ) == Ok::<(ArgStateView, int), ScanFault>((final(st)@, next as int)),
            Err(e) => arg_step(line_views(args@), i as int, old(st)@) == Err::<
                (ArgStateView, int),
                ScanFault,
            >(e@),
        },
{
    let raw = chars_of(args[i].as_str());
    let arg = match unquote(&raw) {
        Ok(arg) => arg,
        Err(e) => {
            return Err(e);
        },
    };
    let a = chars_of(arg.as_str());
    let ghost views = line_views(args@);
    match classify(&a) {
        ArgKind::WAll => {
            st.params.w_all = true;
            Ok(i + 1)
        },
        ArgKind::WExtra => {
            st.params.w_extra = true;
            Ok(i + 1)
        },
        ArgKind::WError => {
            st.params.w_error = true;
            Ok(i + 1)
        },
        ArgKind::Output => {
            if i + 1 >= args.len() {
                return Err(ScanError::MissingValue { flag: ValueFlag::Output });
            }
            let value = args[i + 1].clone();
            match &st.output {
                Some(existing) => Err(
                    ScanError::DuplicateOutput { rejected: value, existing: existing.clone() },
                ),
                None => {
                    st.output = Some(value);
                    Ok(i + 2)
                },
            }
        },
        ArgKind::Ignored => Ok(i + 1),
        ArgKind::DepFile => {
            if i + 1 >= args.len() {
                return Err(ScanError::MissingValue { flag: ValueFlag::DepFile });
            }
            Ok(i + 2)
        },
        ArgKind::IQuote => {
            if i + 1 >= args.len() {
                return Err(ScanError::MissingValue { flag: ValueFlag::IQuote });
            }
            let ghost before = line_views(st.params.i_quote@);
            st.params.i_quote.push(args[i + 1].clone());
            proof {
                assert(line_views(st.params.i_quote@) =~= before.push(views[i + 1]));
            }
            Ok(i + 2)
        },
        ArgKind::Define => {
            let ghost before = line_views(st.params.defines@);
            let tail = after_prefix(&a, "-D");
            st.params.defines.push(tail);
            proof {
                assert(line_views(st.params.defines@) =~= before.push(tail@));
            }
            Ok(i + 1)
        },
        ArgKind::Std => {
            let tail = after_prefix(&a, "-std=");
            match strip_quotes(tail.as_str()) {
                Ok(std) => {
                    st.params.std = Some(std);
                    Ok(i + 1)
                },
                Err(e) => Err(e),
            }
        },
        ArgKind::Flag => {
            let ghost before = line_views(st.params.flags@);
            st.params.flags.push(arg);
            proof {
                assert(line_views(st.params.flags@) =~= before.push(a@));
            }
            Ok(i + 1)
        },
        ArgKind::Warn => {
            let ghost before = line_views(st.params.warns@);
            st.params.warns.push(arg);
            proof {
                assert(line_views(st.params.warns@) =~= before.push(a@));
            }
            Ok(i + 1)
        },
        ArgKind::Debug => {
            let tail = after_prefix(&a, "-g");
            match strip_quotes(tail.as_str()) {
                Ok(g) => {
                    st.params.g = Some(g);
                    Ok(i + 1)
                },
                Err(e) => Err(e),
            }
        },
        ArgKind::Input => {
            match &st.input {
                Some(existing) => Err(
                    ScanError::DuplicateInput { rejected: arg, existing: existing.clone() },
                ),
                None => {
                    st.input = Some(arg);
                    Ok(i + 1)
                },
            }
        },
    }
}

/// Reads the arguments of one compiler invocation.
pub fn parse_args(args: &Vec<String>) -> (r: Result<Invocation, ScanError>)
    ensures
        invocation_outcome(r) == invocation_of(line_views(args@)),
{
    let mut st = ArgState { params: CompileParams::new(), input: None, output: None };
    let ghost views = line_views(args@);
    let mut i: usize = 0;
    while i < args.len()
        invariant
            i <= args.len(),
            views == line_views(args@),
            args_from(views, 0, no_args()) == args_from(views, i as int, st@),
        decreases args.len() - i,
    {
        match take_arg(args, i, &mut st) {
            Ok(next) => {
                i = next;
            },
            Err(e) => {
                return Err(e);
            },
        }
    }
    match st.input {
        None => Err(ScanError::InputNotFound),
        Some(input) => match st.output {
            None => Err(ScanError::OutputNotFound),
            Some(output) => Ok(Invocation { input, output, params: st.params }),
        },
    }
}

} // verus!
