use tcmalloc_better::command::{
    classify, parse_args, strip_quotes, ArgKind, Invocation, ScanError, ValueFlag,
};
use tcmalloc_better::scan::{extend, CompileParams, MergedCompileParams};
use tcmalloc_better::scanner::{
    command_args, compiled_source, names_output, parse_command, Record, Scanner,
};
use tcmalloc_better::sets::{rank_text, FlagSet, OptTextSet, Rank, TextSet};
use tcmalloc_better::text::chars_of;
use tcmalloc_better::words::{find_from, split_words};

fn s(text: &str) -> String {
    text.to_string()
}

fn strings(items: &[&str]) -> Vec<String> {
    items.iter().map(|t| t.to_string()).collect()
}

#[test]
fn quotes_are_stripped_in_pairs() {
    assert_eq!(strip_quotes("plain"), Ok(s("plain")));
    assert_eq!(strip_quotes(""), Ok(s("")));
    assert_eq!(strip_quotes("'-DX=1'"), Ok(s("-DX=1")));
    assert_eq!(strip_quotes("\"-DX=1\""), Ok(s("-DX=1")));
    assert_eq!(strip_quotes("''"), Ok(s("")));
    assert_eq!(strip_quotes("'a'b'"), Ok(s("a'b")));
    assert_eq!(strip_quotes("a'"), Ok(s("a'")));
}

#[test]
fn open_quote_is_an_error() {
    assert_eq!(strip_quotes("'"), Err(ScanError::UnclosedQuote { quote: '\'' }));
    assert_eq!(strip_quotes("\""), Err(ScanError::UnclosedQuote { quote: '"' }));
    assert_eq!(strip_quotes("'abc"), Err(ScanError::UnclosedQuote { quote: '\'' }));
    assert_eq!(strip_quotes("'abc\""), Err(ScanError::UnclosedQuote { quote: '\'' }));
    assert_eq!(strip_quotes("\"abc'"), Err(ScanError::UnclosedQuote { quote: '"' }));
}

#[test]
fn arguments_are_told_apart() {
    let kind = |a: &str| classify(&chars_of(a));
    assert_eq!(kind("-Wall"), ArgKind::WAll);
    assert_eq!(kind("-Wextra"), ArgKind::WExtra);
    assert_eq!(kind("-Werror"), ArgKind::WError);
    assert_eq!(kind("-Werror=x"), ArgKind::Warn);
    assert_eq!(kind("-Wallx"), ArgKind::Warn);
    assert_eq!(kind("-W"), ArgKind::Warn);
    assert_eq!(kind("-o"), ArgKind::Output);
    assert_eq!(kind("-ox"), ArgKind::Input);
    assert_eq!(kind("-c"), ArgKind::Ignored);
    assert_eq!(kind("-MD"), ArgKind::Ignored);
    assert_eq!(kind("-frandom-seed=abc"), ArgKind::Ignored);
    assert_eq!(kind("-frandom-seed="), ArgKind::Ignored);
    assert_eq!(kind("-frandom-seed"), ArgKind::Flag);
    assert_eq!(kind("-MF"), ArgKind::DepFile);
    assert_eq!(kind("-iquote"), ArgKind::IQuote);
    assert_eq!(kind("-DNDEBUG"), ArgKind::Define);
    assert_eq!(kind("-D"), ArgKind::Define);
    assert_eq!(kind("-std=c++17"), ArgKind::Std);
    assert_eq!(kind("-std"), ArgKind::Input);
    assert_eq!(kind("-fPIC"), ArgKind::Flag);
    assert_eq!(kind("-U_FORTIFY_SOURCE"), ArgKind::Flag);
    assert_eq!(kind("-g"), ArgKind::Debug);
    assert_eq!(kind("-g0"), ArgKind::Debug);
    assert_eq!(kind("a.cc"), ArgKind::Input);
    assert_eq!(kind(""), ArgKind::Input);
    assert_eq!(kind("-"), ArgKind::Input);
}

#[test]
fn arguments_of_an_invocation_are_read() {
    let args = strings(&[
        "-U_FORTIFY_SOURCE",
        "-Wall",
        "'-std=c++17'",
        "-DFOO=1",
        "'-DBAR=\"x\"'",
        "-iquote",
        ".",
        "-iquote",
        "'quoted'",
        "-MD",
        "-MF",
        "x.d",
        "'-frandom-seed=x.o'",
        "-fPIC",
        "-Wextra",
        "-Wno-x",
        "-g0",
        "-c",
        "a.cc",
        "-o",
        "a.o",
    ]);
    let expected = Invocation {
        input: s("a.cc"),
        output: s("a.o"),
        params: CompileParams {
            defines: strings(&["FOO=1", "BAR=\"x\""]),
            w_all: true,
            w_extra: true,
            w_error: false,
            warns: strings(&["-Wno-x"]),
            flags: strings(&["-U_FORTIFY_SOURCE", "-fPIC"]),
            std: Some(s("c++17")),
            i_quote: strings(&[".", "'quoted'"]),
            g: Some(s("0")),
        },
    };
    assert_eq!(parse_args(&args), Ok(expected));
}

#[test]
fn later_standard_and_debug_level_win() {
    let args = strings(&["-std=c++14", "-g", "-std='c++20'", "-g3", "in", "-o", "out"]);
    let r = parse_args(&args).unwrap();
    assert_eq!(r.params.std, Some(s("c++20")));
    assert_eq!(r.params.g, Some(s("3")));
}

#[test]
fn invocation_errors_name_what_is_wrong() {
    let parse = |items: &[&str]| parse_args(&strings(items));
    assert_eq!(parse(&[]), Err(ScanError::InputNotFound));
    assert_eq!(parse(&["-o", "a.o"]), Err(ScanError::InputNotFound));
    assert_eq!(parse(&["a.cc"]), Err(ScanError::OutputNotFound));
    assert_eq!(parse(&["a.cc", "-o"]), Err(ScanError::MissingValue { flag: ValueFlag::Output }));
    assert_eq!(parse(&["a.cc", "-MF"]), Err(ScanError::MissingValue { flag: ValueFlag::DepFile }));
    assert_eq!(
        parse(&["a.cc", "-iquote"]),
        Err(ScanError::MissingValue { flag: ValueFlag::IQuote })
    );
    assert_eq!(
        parse(&["a.cc", "b.cc", "-o", "a.o"]),
        Err(ScanError::DuplicateInput { rejected: s("b.cc"), existing: s("a.cc") })
    );
    assert_eq!(
        parse(&["-o", "a.o", "-o", "b.o", "a.cc"]),
        Err(ScanError::DuplicateOutput { rejected: s("b.o"), existing: s("a.o") })
    );
    assert_eq!(parse(&["'a.cc", "-o", "a.o"]), Err(ScanError::UnclosedQuote { quote: '\'' }));
    assert_eq!(
        parse(&["-std=\"c++17", "a.cc", "-o", "a.o"]),
        Err(ScanError::UnclosedQuote { quote: '"' })
    );
    assert_eq!(parse(&["-g'", "a.cc", "-o", "a.o"]), Err(ScanError::UnclosedQuote { quote: '\'' }));
}

#[test]
fn value_of_a_flag_is_taken_as_it_stands() {
    let r = parse_args(&strings(&["-o", "'a.o", "-MF", "'", "a.cc"])).unwrap();
    assert_eq!(r.output, s("'a.o"));
    assert_eq!(r.input, s("a.cc"));
}

#[test]
fn words_are_cut_at_white_space() {
    let words = |text: &str| split_words(&chars_of(text));
    assert_eq!(words(""), Vec::<String>::new());
    assert_eq!(words("   \t\n"), Vec::<String>::new());
    assert_eq!(words("a"), strings(&["a"]));
    assert_eq!(words("  a  b\tc\r\nd\x0Ce "), strings(&["a", "b", "c", "d", "e"]));
    assert_eq!(words("a\u{a0}b"), strings(&["a\u{a0}b"]));
    for text in ["", " x", "x ", "a  bb   ccc", "\t\ta\n", "one"] {
        let expected: Vec<String> = text.split_ascii_whitespace().map(|w| w.to_string()).collect();
        assert_eq!(words(text), expected);
    }
}

#[test]
fn first_occurrence_is_found() {
    let find = |hay: &str, from: usize, needle: &str| {
        find_from(&chars_of(hay), from, &chars_of(needle))
    };
    assert_eq!(find("abcabc", 0, "bc"), Some(1));
    assert_eq!(find("abcabc", 2, "bc"), Some(4));
    assert_eq!(find("abcabc", 5, "bc"), None);
    assert_eq!(find("abc", 0, ""), Some(0));
    assert_eq!(find("abc", 3, ""), Some(3));
    assert_eq!(find("abc", 0, "abcd"), None);
    assert_eq!(find("", 0, "a"), None);
    assert_eq!(find("aab", 0, "ab"), Some(1));
}

#[test]
fn source_file_of_a_compile_action_is_found() {
    assert_eq!(
        compiled_source(
            "SUBCOMMAND: # //tcmalloc:common [action 'Compiling tcmalloc/common.cc', \
             configuration: 1f]"
        ),
        Some(s("tcmalloc/common.cc"))
    );
    assert_eq!(compiled_source("SUBCOMMAND: # x [action 'Compiling ']"), Some(s("")));
    assert_eq!(compiled_source("SUBCOMMAND: # x [action 'Linking a.so']"), None);
    assert_eq!(compiled_source("SUBCOMMAND: # x [action 'Compiling a.cc"), None);
    assert_eq!(compiled_source(" SUBCOMMAND: # x [action 'Compiling a.cc']"), None);
    assert_eq!(compiled_source("x [action 'Compiling a.cc']"), None);
    assert_eq!(compiled_source("SUBCOMMAND: #  [action 'Compiling a.cc']"), Some(s("a.cc")));
    assert_eq!(compiled_source("SUBCOMMAND: # [action 'Compiling a.cc']"), None);
    assert_eq!(compiled_source(""), None);
}

#[test]
fn lines_with_an_output_file_hold_an_invocation() {
    assert!(names_output("gcc -c a.cc -o a.o)"));
    assert!(!names_output("gcc -c a.cc -oa.o)"));
    assert!(!names_output("-o a.o"));
    assert!(!names_output("gcc -o"));
    assert!(names_output(" -o "));
}

#[test]
fn command_line_is_cut_into_arguments() {
    assert_eq!(
        command_args("  /usr/bin/gcc -c a.cc -o a.o)"),
        Ok(strings(&["-c", "a.cc", "-o", "a.o"]))
    );
    assert_eq!(command_args("gcc x)"), Ok(strings(&["x"])));
    assert_eq!(command_args("gcc ))"), Ok(strings(&[")"])));
    assert_eq!(command_args("gcc )"), Ok(strings(&[""])));
    assert_eq!(command_args(""), Err(ScanError::ExpectedCompiler));
    assert_eq!(command_args(" \t "), Err(ScanError::ExpectedCompiler));
    assert_eq!(command_args("gcc"), Err(ScanError::EmptyArgs));
    assert_eq!(command_args("gcc)"), Err(ScanError::EmptyArgs));
    assert_eq!(command_args("gcc -c a.cc -o a.o"), Err(ScanError::MissingParen));
    assert_eq!(command_args("gcc -c a.cc -o a.o) "), Ok(strings(&["-c", "a.cc", "-o", "a.o"])));
}

#[test]
fn command_line_is_read_as_an_invocation() {
    let r = parse_command("  /usr/bin/gcc -Wall -DX -c a.cc -o a.o)").unwrap();
    assert_eq!(r.input, "a.cc");
    assert_eq!(r.output, "a.o");
    assert!(r.params.w_all);
    assert_eq!(r.params.defines, strings(&["X"]));
    assert_eq!(parse_command("gcc -o a.o)"), Err(ScanError::InputNotFound));
    assert_eq!(
        parse_command("gcc a.cc -o)"),
        Err(ScanError::MissingValue { flag: ValueFlag::Output })
    );
}

#[test]
fn texts_are_ranked_like_strings() {
    let pairs = [
        ("", ""),
        ("", "a"),
        ("a", ""),
        ("a", "b"),
        ("ab", "a"),
        ("a", "ab"),
        ("abc", "abd"),
        ("Z", "a"),
        ("é", "z"),
        ("z", "é"),
        ("\u{10000}", "\u{ffff}"),
        ("same", "same"),
    ];
    for (a, b) in pairs {
        let expected = match a.cmp(b) {
            std::cmp::Ordering::Less => Rank::Before,
            std::cmp::Ordering::Equal => Rank::Same,
            std::cmp::Ordering::Greater => Rank::After,
        };
        assert_eq!(rank_text(a, b), expected);
    }
}

#[test]
fn text_set_keeps_its_members_once_and_in_order() {
    let mut set = TextSet::new();
    assert_eq!(set.len(), 0);
    assert!(set.insert("m"));
    assert!(set.insert("b"));
    assert!(set.insert("z"));
    assert!(!set.insert("m"));
    assert!(set.insert(""));
    assert!(set.insert("ma"));
    assert_eq!(set.items(), &strings(&["", "b", "m", "ma", "z"]));
    assert_eq!(set.len(), 5);
    assert!(set.contains("b"));
    assert!(set.contains(""));
    assert!(!set.contains("a"));
    assert!(!set.contains("zz"));
}

#[test]
fn text_set_copy_is_a_set_of_its_own() {
    let mut set = TextSet::new();
    set.insert("b");
    set.insert("a");
    let mut copy = set.clone();
    assert_eq!(copy, set);
    copy.insert("c");
    assert_eq!(set.items(), &strings(&["a", "b"]));
    assert_eq!(copy.items(), &strings(&["a", "b", "c"]));
}

#[test]
fn text_set_orders_like_a_btree_set() {
    let values = ["pear", "apple", "fig", "apple", "Fig", "", "zebra", "él", "fig2"];
    let mut set = TextSet::new();
    let mut reference = std::collections::BTreeSet::new();
    for v in values {
        assert_eq!(set.insert(v), reference.insert(v.to_string()));
    }
    let expected: Vec<String> = reference.into_iter().collect();
    assert_eq!(set.items(), &expected);
}

#[test]
fn flag_set_holds_what_was_put_in() {
    let mut set = FlagSet::new();
    assert!(!set.contains(true));
    assert!(!set.contains(false));
    assert!(set.insert(true));
    assert!(!set.insert(true));
    assert!(set.contains(true));
    assert!(!set.contains(false));
    assert!(set.insert(false));
    assert_eq!(set, FlagSet { has_false: true, has_true: true });
}

#[test]
fn optional_text_set_knows_the_absent_text() {
    let mut set = OptTextSet::new();
    assert!(set.insert(&None));
    assert!(!set.insert(&None));
    assert!(set.insert(&Some(s("c++17"))));
    assert!(!set.insert(&Some(s("c++17"))));
    assert!(set.has_none);
    assert_eq!(set.texts.items(), &strings(&["c++17"]));
}

#[test]
fn extend_adds_every_value_once() {
    let mut set = TextSet::new();
    extend(&mut set, &strings(&["b", "a", "b", "c"]));
    assert_eq!(set.items(), &strings(&["a", "b", "c"]));
    extend(&mut set, &strings(&[]));
    extend(&mut set, &strings(&["c", "0"]));
    assert_eq!(set.items(), &strings(&["0", "a", "b", "c"]));
}

#[test]
fn merge_collects_the_values_of_each_parameter() {
    let mut merged = MergedCompileParams::new();
    let mut first = CompileParams::new();
    first.w_all = true;
    first.defines = strings(&["B", "A"]);
    first.std = Some(s("c++17"));
    first.flags = strings(&["-fPIC"]);
    first.i_quote = strings(&["."]);
    let mut second = CompileParams::new();
    second.w_error = true;
    second.defines = strings(&["A", "C"]);
    second.warns = strings(&["-Wno-x"]);
    second.g = Some(s("0"));
    merged.merge(&first);
    merged.merge(&second);
    assert_eq!(merged.defines.items(), &strings(&["A", "B", "C"]));
    assert_eq!(merged.w_all, FlagSet { has_false: true, has_true: true });
    assert_eq!(merged.w_extra, FlagSet { has_false: true, has_true: false });
    assert_eq!(merged.w_error, FlagSet { has_false: true, has_true: true });
    assert_eq!(merged.warns.items(), &strings(&["-Wno-x"]));
    assert_eq!(merged.flags.items(), &strings(&["-fPIC"]));
    assert_eq!(merged.i_quote.items(), &strings(&["."]));
    assert!(merged.std.has_none);
    assert_eq!(merged.std.texts.items(), &strings(&["c++17"]));
    assert!(merged.g.has_none);
    assert_eq!(merged.g.texts.items(), &strings(&["0"]));
}

#[test]
fn scanner_follows_a_log() {
    let log = [
        "INFO: Analyzed target //tcmalloc:tcmalloc",
        "  gcc -c before.cc -o before.o)",
        "SUBCOMMAND: # //tcmalloc:a [action 'Compiling tcmalloc/a.cc', configuration: x]",
        "(cd /tmp/exec && \\",
        "  exec env - \\",
        "  /usr/bin/gcc -Wall -DA -c tcmalloc/a.cc -o bazel-out/a.o)",
        "# Configuration: x",
        "SUBCOMMAND: # //tcmalloc:a [action 'Linking liba.so', configuration: x]",
        "  /usr/bin/gcc -shared bazel-out/a.o -o liba.so)",
        "SUBCOMMAND: # //tcmalloc:a [action 'Compiling tcmalloc/a.cc', configuration: y]",
        "  /usr/bin/gcc -DB -c tcmalloc/a.cc -o bazel-out/a.pic.o)",
        "  /usr/bin/gcc -DC -c tcmalloc/a.cc -o bazel-out/a.pic2.o)",
    ];
    let mut scanner = Scanner::new();
    let mut records: Vec<Record> = Vec::new();
    for line in log {
        if let Some(record) = scanner.feed(line).unwrap() {
            records.push(record);
        }
    }
    assert_eq!(records.len(), 3);
    assert_eq!(records[0].index, 1);
    assert_eq!(records[0].source_file, "tcmalloc/a.cc");
    assert_eq!(records[0].invocation.input, "tcmalloc/a.cc");
    assert_eq!(records[0].invocation.output, "bazel-out/a.o");
    assert!(!records[0].duplicate_source);
    assert_eq!(records[1].index, 2);
    assert!(records[1].duplicate_source);
    assert_eq!(records[1].invocation.output, "bazel-out/a.pic.o");
    assert_eq!(records[2].index, 3);
    assert!(records[2].duplicate_source);
    assert_eq!(scanner.count, 3);
    assert_eq!(scanner.source, Some(s("tcmalloc/a.cc")));
    assert_eq!(scanner.source_files.items(), &strings(&["tcmalloc/a.cc"]));
    assert_eq!(scanner.merged.defines.items(), &strings(&["A", "B", "C"]));
    assert_eq!(scanner.merged.w_all, FlagSet { has_false: true, has_true: true });
}

#[test]
fn scanner_stays_as_it_is_on_an_error() {
    let mut scanner = Scanner::new();
    assert_eq!(scanner.feed("SUBCOMMAND: # x [action 'Compiling a.cc']"), Ok(None));
    let before = scanner.clone();
    assert_eq!(scanner.feed("  gcc -c a.cc -o a.o"), Err(ScanError::MissingParen));
    assert_eq!(scanner, before);
    assert_eq!(scanner.feed("  gcc a.cc b.cc -o a.o)"), Err(ScanError::DuplicateInput {
        rejected: s("b.cc"),
        existing: s("a.cc"),
    }));
    assert_eq!(scanner, before);
    assert_eq!(scanner.feed("  no invocation here"), Ok(None));
    assert_eq!(scanner, before);
}
