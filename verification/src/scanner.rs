//! Reading a build log line by line: which lines start the compilation of a
//! source file, which lines hold a compiler invocation, and what the
//! invocations of the whole log add up to.

use crate::command::{
    invocation_of, invocation_outcome, parse_args, Invocation, InvocationView, ScanError,
    ScanFault,
};
use crate::scan::{MergedCompileParams, MergedView};
use crate::sets::TextSet;
use crate::text::{
    begins_with, chars_from, chars_of, has_prefix, line_views, opt_view, string_between,
};
use crate::words::{find_from, first_at, holds, split_words, words_of};
use vstd::prelude::*;

verus! {

/// What a line that starts a command of the build begins with.
pub open spec fn subcommand_mark() -> Seq<char> {
    "SUBCOMMAND: # "@
}

/// What stands before the name of the source file in a line that starts
/// its compilation.
pub open spec fn compiling_mark() -> Seq<char> {
    " [action 'Compiling "@
}

/// What a line with a compiler invocation holds.
pub open spec fn output_mark() -> Seq<char> {
    " -o "@
}

/// The quotation mark behind the name of the source file.
pub open spec fn closing_mark() -> Seq<char> {
    "'"@
}

/// The source file whose compilation the line `line` starts: the line
/// begins with the mark of a command, and behind it names a compile action;
/// the file name stands between the first mark of such an action and the
/// next quotation mark. `None` for every other line.
pub open spec fn source_of(line: Seq<char>) -> Option<Seq<char>> {
    if !has_prefix(line, subcommand_mark()) {
        None
    } else {
        let rest = line.skip(subcommand_mark().len() as int);
        match first_at(rest, compiling_mark(), 0) {
            None => None,
            Some(p) => {
                let tail = rest.skip(p + compiling_mark().len());
                match first_at(tail, closing_mark(), 0) {
                    None => None,
                    Some(q) => Some(tail.take(q)),
                }
            },
        }
    }
}

/// The arguments of the compiler invocation in `line`: its words but the
/// first, which is the compiler, the last of them without the `)` that
/// closes the line.
pub open spec fn command_args_of(line: Seq<char>) -> Result<Seq<Seq<char>>, ScanFault> {
    let words = words_of(line);
    if words.len() == 0 {
        Err(ScanFault::ExpectedCompiler)
    } else if words.len() == 1 {
        Err(ScanFault::EmptyArgs)
    } else if words.last().len() == 0 || words.last().last() != ')' {
        Err(ScanFault::MissingParen)
    } else {
        Ok(words.subrange(1, words.len() - 1).push(words.last().drop_last()))
    }
}

/// The compiler invocation in `line`.
pub open spec fn command_of(line: Seq<char>) -> Result<InvocationView, ScanFault> {
    match command_args_of(line) {
        Err(e) => Err(e),
        Ok(args) => invocation_of(args),
    }
}

/// What a result that holds arguments stands for.
pub open spec fn args_outcome(r: Result<Vec<String>, ScanError>) -> Result<
    Seq<Seq<char>>,
    ScanFault,
> {
    match r {
        Ok(v) => Ok(line_views(v@)),
        Err(e) => Err(e@),
    }
}

/// The source file whose compilation `line` starts, if it starts one.
pub fn compiled_source(line: &str) -> (r: Option<String>)
    ensures
        opt_view(r) == source_of(line@),
{
    let chars = chars_of(line);
    if !begins_with(&chars, "SUBCOMMAND: # ") {
        return None;
    }
    let head = chars_of("SUBCOMMAND: # ");
    let rest = chars_from(&chars, head.len());
    let action = chars_of(" [action 'Compiling ");
    let p = match find_from(&rest, 0, &action) {
        None => {
            return None;
        },
        Some(p) => p,
    };
    let tail = chars_from(&rest, p + action.len());
    let quote = chars_of("'");
    match find_from(&tail, 0, &quote) {
        None => None,
        Some(q) => {
            let name = string_between(&tail, 0, q);
            proof {
                assert(tail@.subrange(0, q as int) =~= tail@.take(q as int));
            }
            Some(name)
        },
    }
}

/// Whether `line` holds a compiler invocation: it names an output file.
pub fn names_output(line: &str) -> (b: bool)
    ensures
        b == holds(line@, output_mark()),
{
    let chars = chars_of(line);
    let mark = chars_of(" -o ");
    find_from(&chars, 0, &mark).is_some()
}

/// The arguments of the compiler invocation in `line`.
pub fn command_args(line: &str) -> (r: Result<Vec<String>, ScanError>)
    ensures
        args_outcome(r) == command_args_of(line@),
{
    let chars = chars_of(line);
    let words = split_words(&chars);
    let n = words.len();
    let ghost all = line_views(words@);
    if n == 0 {
        return Err(ScanError::ExpectedCompiler);
    }
    if n == 1 {
        return Err(ScanError::EmptyArgs);
    }
    let last = chars_of(words[n - 1].as_str());
    if last.len() == 0 || last[last.len() - 1] != ')' {
        return Err(ScanError::MissingParen);
    }
    let mut args: Vec<String> = Vec::new();
    let mut i: usize = 1;
    while i < n - 1
        invariant
            1 <= i <= n - 1,
            n == words.len(),
            all == line_views(words@),
            line_views(args@) == all.subrange(1, i as int),
        decreases n - i,
    {
        let ghost before = line_views(args@);
        args.push(words[i].clone());
        proof {
            assert(line_views(args@) =~= before.push(all[i as int]));
            assert(before.push(all[i as int]) =~= all.subrange(1, i + 1));
        }
        i += 1;
    }
    let ghost before = line_views(args@);
    let stripped = string_between(&last, 0, last.len() - 1);
    args.push(stripped);
    proof {
        assert(last@.subrange(0, last.len() - 1) =~= all.last().drop_last());
        assert(line_views(args@) =~= before.push(all.last().drop_last()));
    }
    Ok(args)
}

/// The compiler invocation in `line`.
pub fn parse_command(line: &str) -> (r: Result<Invocation, ScanError>)
    ensures
        invocation_outcome(r) == command_of(line@),
{
    match command_args(line) {
        Err(e) => Err(e),
        Ok(args) => parse_args(&args),
    }
}

/// One compiler invocation found in a log.
#[derive(Debug, Clone, PartialEq, Eq)]
pub struct Record {
    /// The number of the invocation in the log, counted from 1.
    pub index: usize,
    /// The source file whose compilation the invocation belongs to.
    pub source_file: String,
    /// The invocation.
    pub invocation: Invocation,
    /// Whether an earlier invocation belongs to the same source file.
    pub duplicate_source: bool,
}

/// What a [`Record`] stands for.
pub struct RecordView {
    pub index: int,
    pub source_file: Seq<char>,
    pub invocation: InvocationView,
    pub duplicate_source: bool,
}

impl View for Record {
    type V = RecordView;

    open spec fn view(&self) -> RecordView {
        RecordView {
            index: self.index as int,
            source_file: self.source_file@,
            invocation: self.invocation@,
            duplicate_source: self.duplicate_source,
        }
    }
}

/// What has been read of a log.
#[derive(Debug, Clone, PartialEq, Eq)]
pub struct Scanner {
    /// The source file that is being compiled at this point of the log.
    pub source: Option<String>,
    /// The number of invocations found.
    pub count: usize,
    /// The union of their parameters.
    pub merged: MergedCompileParams,
    /// The source files that they belong to.
    pub source_files: TextSet,
}

/// What a [`Scanner`] stands for.
pub struct ScannerView {
    pub source: Option<Seq<char>>,
    pub count: int,
    pub merged: MergedView,
    pub source_files: Set<Seq<char>>,
}

impl View for Scanner {
    type V = ScannerView;

    open spec fn view(&self) -> ScannerView {
        ScannerView {
            source: opt_view(self.source),
            count: self.count as int,
            merged: self.merged@,
            source_files: self.source_files@,
        }
    }
}

/// What reading the line `line` makes of the state `st`, and the invocation
/// found in the line, if it holds one. A line that starts a command says
/// which source file is compiled from there on, or that none is. Any other
/// line counts only while a source file is compiled and only if it names an
/// output file: it then has to hold a compiler invocation.
pub open spec fn fed(st: ScannerView, line: Seq<char>) -> Result<
    (ScannerView, Option<RecordView>),
    ScanFault,
> {
    if has_prefix(line, subcommand_mark()) {
        Ok((ScannerView { source: source_of(line), ..st }, None))
    } else {
        match st.source {
            None => Ok((st, None)),
            Some(source_file) => if !holds(line, output_mark()) {
                Ok((st, None))
            } else {
                match command_of(line) {
                    Err(e) => Err(e),
                    Ok(invocation) => Ok(
                        (
                            ScannerView {
                                count: st.count + 1,
                                merged: st.merged.with(invocation.params),
                                source_files: st.source_files.insert(source_file),
                                ..st
                            },
                            Some(
                                RecordView {
                                    index: st.count + 1,
                                    source_file,
                                    invocation,
                                    duplicate_source: st.source_files.contains(source_file),
                                },
                            ),
                        ),
                    ),
                }
            },
        }
    }
}

/// What a record that may be there stands for.
pub open spec fn opt_record(r: Option<Record>) -> Option<RecordView> {
    match r {
        Some(r) => Some(r@),
        None => None,
    }
}

impl Scanner {
    /// The state before the first line of a log.
    pub fn new() -> (s: Scanner)
        ensures
            s@.source is None,
            s@.count == 0,
            s@.merged == MergedCompileParams::new_view(),
            s@.source_files == Set::<Seq<char>>::empty(),
    {
        Scanner {
            source: None,
            count: 0,
            merged: MergedCompileParams::new(),
            source_files: TextSet::new(),
        }
    }

    /// Reads the next line of the log. Returns the invocation found in it,
    /// if it holds one. Where the line cannot be read, the state stays as it
    /// is.
    pub fn feed(&mut self, line: &str) -> (r: Result<Option<Record>, ScanError>)
        requires
            old(self).count < usize::MAX,
        ensures
            match r {
                Ok(record) => fed(old(self)@, line@) == Ok::<
                    (ScannerView, Option<RecordView>),
                    ScanFault,
                >((final(self)@, opt_record(record))),
                Err(e) => fed(old(self)@, line@) == Err::<
                    (ScannerView, Option<RecordView>),
                    ScanFault,
                >(e@) && *final(self) == *old(self),
            },
    {
        let chars = chars_of(line);
        if begins_with(&chars, "SUBCOMMAND: # ") {
            self.source = compiled_source(line);
            return Ok(None);
        }
        let source_file = match &self.source {
            None => {
                return Ok(None);
            },
            Some(source_file) => source_file.clone(),
        };
        if !names_output(line) {
            return Ok(None);
        }
        let invocation = match parse_command(line) {
            Err(e) => {
                return Err(e);
            },
            Ok(invocation) => invocation,
        };
        self.count = self.count + 1;
        self.merged.merge(&invocation.params);
        let duplicate_source = !self.source_files.insert(source_file.as_str());
        Ok(Some(Record { index: self.count, source_file, invocation, duplicate_source }))
    }
}

} // verus!
