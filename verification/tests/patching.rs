use tcmalloc_better::apply::{apply_hunks, apply_patch, patch_text, ApplyError};
use tcmalloc_better::diff::{Hunk, Line};
use tcmalloc_better::text::{has_final_newline, join_lines, split_lines};

fn s(text: &str) -> String {
    text.to_string()
}

fn lines(items: &[&str]) -> Vec<String> {
    items.iter().map(|t| t.to_string()).collect()
}

fn ctx(text: &str) -> Line {
    Line::Context(s(text))
}

fn add(text: &str) -> Line {
    Line::Add(s(text))
}

fn del(text: &str) -> Line {
    Line::Remove(s(text))
}

fn hunk(old_start: u64, lines: Vec<Line>) -> Hunk {
    Hunk { old_start, lines }
}

#[test]
fn insert_after_context_line() {
    let hunks = vec![hunk(2, vec![ctx("b"), add("x")])];
    assert_eq!(patch_text(&hunks, false, "a\nb\nc\n"), Ok(s("a\nb\nx\nc\n")));
    assert_eq!(apply_patch(&hunks, false, "a\nb\nc\n"), Ok(lines(&["a", "b", "x", "c", ""])));
    assert_eq!(apply_hunks(&lines(&["a", "b", "c"]), &hunks), Ok(lines(&["a", "b", "x", "c"])));
}

#[test]
fn split_lines_follows_line_endings() {
    assert_eq!(split_lines(""), Vec::<String>::new());
    assert_eq!(split_lines("a"), lines(&["a"]));
    assert_eq!(split_lines("a\n"), lines(&["a"]));
    assert_eq!(split_lines("a\nb"), lines(&["a", "b"]));
    assert_eq!(split_lines("a\r\nb\r"), lines(&["a", "b\r"]));
    assert_eq!(split_lines("\n\n"), lines(&["", ""]));
    assert_eq!(split_lines("a\r\r\n"), lines(&["a\r"]));
}

#[test]
fn split_lines_agrees_with_std() {
    let texts =
        ["", "\n", "a\nb\n", "a\r\nb", "x\ry\n\r\n", "\r", "é\nü\r\n", "\r\n\r\n", "a\n\nb"];
    for text in texts {
        let expected: Vec<String> = text.lines().map(|l| l.to_string()).collect();
        assert_eq!(split_lines(text), expected);
        assert_eq!(has_final_newline(text), text.ends_with('\n'));
    }
}

#[test]
fn join_lines_puts_line_feeds_between() {
    assert_eq!(join_lines(&lines(&[])), "");
    assert_eq!(join_lines(&lines(&["a"])), "a");
    assert_eq!(join_lines(&lines(&["a", "b"])), "a\nb");
    assert_eq!(join_lines(&lines(&["a", ""])), "a\n");
    assert_eq!(join_lines(&lines(&[""])), "");
    assert_eq!(join_lines(&lines(&["", ""])), "\n");
}

#[test]
fn split_then_join_gives_the_text_back() {
    for text in ["", "a", "a\n", "a\nb", "a\nb\n", "\n", "\n\n", "x\ry\n", "tab\there\n\nend"] {
        let mut all = split_lines(text);
        if has_final_newline(text) {
            all.push(String::new());
        }
        assert_eq!(join_lines(&all), text);
        assert_eq!(patch_text(&Vec::new(), false, text), Ok(s(text)));
    }
}

#[test]
fn mismatch_reports_offset_and_both_lines() {
    let hunks = vec![hunk(2, vec![del("x")])];
    assert_eq!(
        apply_hunks(&lines(&["a", "b", "c"]), &hunks),
        Err(ApplyError::Mismatch { offset: 1, expected: s("x"), actual: Some(s("b")) })
    );
    let hunks = vec![hunk(2, vec![ctx("b"), ctx("C")])];
    assert_eq!(
        patch_text(&hunks, true, "a\nb\nc\n"),
        Err(ApplyError::Mismatch { offset: 2, expected: s("C"), actual: Some(s("c")) })
    );
}

#[test]
fn mismatch_behind_the_end_has_no_actual_line() {
    let hunks = vec![hunk(3, vec![ctx("c"), del("d")])];
    assert_eq!(
        apply_hunks(&lines(&["a", "b", "c"]), &hunks),
        Err(ApplyError::Mismatch { offset: 3, expected: s("d"), actual: None })
    );
    let hunks = vec![hunk(9, vec![ctx("z")])];
    assert_eq!(
        apply_hunks(&lines(&["a"]), &hunks),
        Err(ApplyError::Mismatch { offset: 8, expected: s("z"), actual: None })
    );
}

#[test]
fn first_faulty_line_is_reported() {
    let hunks = vec![hunk(1, vec![ctx("a"), del("X"), del("Y")]), hunk(3, vec![del("Z")])];
    assert_eq!(
        apply_hunks(&lines(&["a", "b", "c"]), &hunks),
        Err(ApplyError::Mismatch { offset: 1, expected: s("X"), actual: Some(s("b")) })
    );
}

#[test]
fn creation_yields_the_added_lines() {
    let none: Vec<String> = Vec::new();
    let one = vec![hunk(0, vec![add("x"), add("y")])];
    assert_eq!(apply_hunks(&none, &one), Ok(lines(&["x", "y"])));
    let three = vec![
        hunk(0, vec![add("x")]),
        hunk(1, vec![add("y"), add("z")]),
        hunk(1, vec![]),
        hunk(7, vec![add("w")]),
    ];
    assert_eq!(apply_hunks(&none, &three), Ok(lines(&["x", "y", "z", "w"])));
    assert_eq!(patch_text(&three, true, ""), Ok(s("x\ny\nz\nw\n")));
    assert_eq!(patch_text(&three, false, ""), Ok(s("x\ny\nz\nw")));
}

#[test]
fn creation_with_a_context_line_fails() {
    let none: Vec<String> = Vec::new();
    let hunks = vec![hunk(0, vec![add("x"), ctx("y")])];
    assert_eq!(
        apply_hunks(&none, &hunks),
        Err(ApplyError::Mismatch { offset: 0, expected: s("y"), actual: None })
    );
}

#[test]
fn start_zero_and_start_one_mean_the_head() {
    let old = lines(&["a", "b"]);
    for start in [0, 1] {
        let hunks = vec![hunk(start, vec![add("top"), ctx("a")])];
        assert_eq!(apply_hunks(&old, &hunks), Ok(lines(&["top", "a", "b"])));
    }
}

#[test]
fn several_hunks_keep_what_lies_between() {
    let old = lines(&["1", "2", "3", "4", "5", "6", "7", "8"]);
    let hunks = vec![
        hunk(2, vec![ctx("2"), del("3"), add("three"), ctx("4")]),
        hunk(5, vec![del("5")]),
        hunk(7, vec![ctx("7"), add("7.5")]),
    ];
    assert_eq!(
        apply_hunks(&old, &hunks),
        Ok(lines(&["1", "2", "three", "4", "6", "7", "7.5", "8"]))
    );
}

#[test]
fn removed_lines_are_dropped_and_context_is_kept() {
    let hunks = vec![hunk(1, vec![del("a"), ctx("b"), del("c")])];
    assert_eq!(patch_text(&hunks, true, "a\nb\nc\n"), Ok(s("b\n")));
    let hunks = vec![hunk(1, vec![del("a")])];
    assert_eq!(patch_text(&hunks, true, "a\n"), Ok(s("")));
    assert_eq!(apply_patch(&hunks, true, "a\n"), Ok(lines(&[""])));
}

#[test]
fn hunk_before_the_end_of_the_one_in_front_is_refused() {
    let old = lines(&["a", "b", "c", "d"]);
    let hunks = vec![hunk(1, vec![ctx("a"), ctx("b"), ctx("c")]), hunk(3, vec![ctx("c")])];
    assert_eq!(apply_hunks(&old, &hunks), Err(ApplyError::OutOfOrder { hunk: 1 }));
    let hunks = vec![hunk(3, vec![ctx("c")]), hunk(1, vec![ctx("a")])];
    assert_eq!(apply_hunks(&old, &hunks), Err(ApplyError::OutOfOrder { hunk: 1 }));
    let hunks = vec![hunk(1, vec![ctx("a"), ctx("b")]), hunk(3, vec![ctx("c")])];
    assert_eq!(apply_hunks(&old, &hunks), Ok(old.clone()));
}

#[test]
fn added_lines_behind_the_end_follow_the_whole_file() {
    let old = lines(&["a", "b"]);
    let hunks = vec![hunk(10, vec![add("x")])];
    assert_eq!(apply_hunks(&old, &hunks), Ok(lines(&["a", "b", "x"])));
    let hunks = vec![hunk(3, vec![add("x")])];
    assert_eq!(apply_hunks(&old, &hunks), Ok(lines(&["a", "b", "x"])));
    let hunks = vec![hunk(u64::MAX, vec![add("x")]), hunk(u64::MAX, vec![add("y")])];
    assert_eq!(apply_hunks(&old, &hunks), Ok(lines(&["a", "b", "x", "y"])));
}

#[test]
fn open_end_stays_open() {
    let hunks = vec![hunk(2, vec![del("b"), add("B")])];
    assert_eq!(patch_text(&hunks, false, "a\nb\nc"), Ok(s("a\nB\nc")));
    assert_eq!(apply_patch(&hunks, false, "a\nb\nc"), Ok(lines(&["a", "B", "c"])));
}

#[test]
fn final_line_feed_comes_from_the_flag_or_the_old_text() {
    let hunks = vec![hunk(2, vec![del("b"), add("B")])];
    assert_eq!(patch_text(&hunks, true, "a\nb\nc"), Ok(s("a\nB\nc\n")));
    assert_eq!(patch_text(&hunks, false, "a\nb\nc\n"), Ok(s("a\nB\nc\n")));
    assert_eq!(patch_text(&hunks, true, "a\nb\nc\n"), Ok(s("a\nB\nc\n")));
}

#[test]
fn carriage_returns_before_line_feeds_are_dropped() {
    let hunks = vec![hunk(1, vec![ctx("a"), add("x")])];
    assert_eq!(patch_text(&hunks, false, "a\r\nb\r\n"), Ok(s("a\nx\nb\n")));
}

#[test]
fn no_hunk_copies_every_line() {
    let old = lines(&["a", "", "b"]);
    assert_eq!(apply_hunks(&old, &Vec::new()), Ok(old.clone()));
    assert_eq!(apply_hunks(&Vec::new(), &Vec::new()), Ok(Vec::new()));
}

/// A small generator of numbers that looks random and is the same on every run.
struct Dice(u64);

impl Dice {
    fn roll(&mut self, sides: u64) -> u64 {
        self.0 = self.0.wrapping_mul(6364136223846793005).wrapping_add(1442695040888963407);
        (self.0 >> 33) % sides
    }
}

/// Makes hunks that fit `old`, and the lines that they must turn `old` into.
fn random_edit(dice: &mut Dice, old: &[String]) -> (Vec<Hunk>, Vec<String>) {
    let mut hunks = Vec::new();
    let mut new = Vec::new();
    let mut at = 0;
    while at < old.len() {
        let skip = dice.roll(4) as usize;
        let stop = (at + skip).min(old.len());
        new.extend_from_slice(&old[at..stop]);
        at = stop;
        let mut hunk_lines = Vec::new();
        let start = at;
        for _ in 0..dice.roll(5) {
            match dice.roll(3) {
                0 if at < old.len() => {
                    hunk_lines.push(Line::Context(old[at].clone()));
                    new.push(old[at].clone());
                    at += 1;
                }
                1 if at < old.len() => {
                    hunk_lines.push(Line::Remove(old[at].clone()));
                    at += 1;
                }
                _ => {
                    let text = format!("new {}", dice.roll(1000));
                    hunk_lines.push(Line::Add(text.clone()));
                    new.push(text);
                }
            }
        }
        hunks.push(Hunk { old_start: start as u64 + 1, lines: hunk_lines });
    }
    (hunks, new)
}

#[test]
fn hunks_made_from_an_edit_give_the_edited_lines() {
    let mut dice = Dice(7);
    for round in 0..300 {
        let old: Vec<String> =
            (0..dice.roll(12)).map(|i| format!("line {} of {}", i, round % 7)).collect();
        let (hunks, new) = random_edit(&mut dice, &old);
        assert_eq!(apply_hunks(&old, &hunks), Ok(new.clone()));
        let old_text: String = old.iter().map(|l| format!("{l}\n")).collect();
        let new_text: String = new.iter().map(|l| format!("{l}\n")).collect();
        assert_eq!(patch_text(&hunks, true, &old_text), Ok(new_text));
    }
}

#[test]
fn spoiled_line_is_found_where_it_stands() {
    let mut dice = Dice(11);
    let mut spoiled = 0;
    for _ in 0..300 {
        let old: Vec<String> = (0..1 + dice.roll(12)).map(|i| format!("line {i}")).collect();
        let (mut hunks, _) = random_edit(&mut dice, &old);
        let mut offset = None;
        'search: for hunk in hunks.iter_mut() {
            let at = hunk.old_start - 1;
            for line in hunk.lines.iter_mut() {
                match line {
                    Line::Context(text) | Line::Remove(text) => {
                        text.push('!');
                        offset = Some((at, text.clone()));
                        break 'search;
                    }
                    Line::Add(_) => {}
                }
            }
        }
        if let Some((offset, expected)) = offset {
            spoiled += 1;
            let actual = old.get(offset as usize).cloned();
            assert_eq!(
                apply_hunks(&old, &hunks),
                Err(ApplyError::Mismatch { offset, expected, actual })
            );
        }
    }
    assert!(spoiled > 100);
}

#[test]
fn long_file_is_patched() {
    let old: Vec<String> = (0..50_000).map(|i| format!("line {i}")).collect();
    let old_text: String = old.iter().map(|l| format!("{l}\n")).collect();
    let hunks = vec![
        hunk(10_000, vec![ctx("line 9999"), del("line 10000"), add("ten thousand")]),
        hunk(40_000, vec![add("before"), ctx("line 39999")]),
    ];
    let new_text = patch_text(&hunks, true, &old_text).unwrap();
    assert_eq!(new_text.lines().count(), 50_001);
    assert_eq!(new_text.lines().nth(10_000), Some("ten thousand"));
    assert_eq!(new_text.lines().nth(39_999), Some("before"));
    assert!(new_text.ends_with("line 49999\n"));
}
