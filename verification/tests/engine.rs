use tcmalloc_better::apply::ApplyError;
use tcmalloc_better::diff::{Hunk, Line, Patch};
use tcmalloc_better::engine::{patch_action, resolve, resolve_path, FileAction, Target};
use tcmalloc_better::error::PipelineError;

fn s(text: &str) -> String {
    text.to_string()
}

fn patch(old_path: Option<&str>, new_path: Option<&str>, hunks: Vec<Hunk>) -> Patch {
    Patch {
        old_path: old_path.map(|p| p.to_string()),
        new_path: new_path.map(|p| p.to_string()),
        hunks,
        end_newline: true,
    }
}

#[test]
fn resolve_path_strips_the_prefix() {
    assert_eq!(resolve_path(&Some(s("a/src/x.cc")), "a/"), Some(s("src/x.cc")));
    assert_eq!(resolve_path(&Some(s("b/src/x.cc")), "b/"), Some(s("src/x.cc")));
    assert_eq!(resolve_path(&Some(s("b/src/x.cc")), "a/"), Some(s("b/src/x.cc")));
    assert_eq!(resolve_path(&Some(s("src/x.cc")), "a/"), Some(s("src/x.cc")));
    assert_eq!(resolve_path(&Some(s("a/a/x")), "a/"), Some(s("a/x")));
    assert_eq!(resolve_path(&Some(s("a/")), "a/"), Some(s("")));
    assert_eq!(resolve_path(&Some(s("a")), "a/"), Some(s("a")));
}

#[test]
fn resolve_path_knows_the_absent_file() {
    assert_eq!(resolve_path(&None, "a/"), None);
    assert_eq!(resolve_path(&Some(s("")), "a/"), None);
    assert_eq!(resolve_path(&Some(s("/dev/null")), "a/"), None);
    assert_eq!(resolve_path(&Some(s("/dev/null")), "b/"), None);
    assert_eq!(resolve_path(&Some(s("/dev/nul")), "a/"), Some(s("/dev/nul")));
    assert_eq!(resolve_path(&Some(s("/dev/null2")), "a/"), Some(s("/dev/null2")));
    assert_eq!(resolve_path(&Some(s("a//dev/null")), "a/"), Some(s("/dev/null")));
}

#[test]
fn resolve_tells_creation_change_and_deletion_apart() {
    assert_eq!(
        resolve(&patch(Some("/dev/null"), Some("b/new.h"), vec![])),
        Ok(Target::Create { new_path: s("new.h") })
    );
    assert_eq!(
        resolve(&patch(None, Some("b/new.h"), vec![])),
        Ok(Target::Create { new_path: s("new.h") })
    );
    assert_eq!(
        resolve(&patch(Some("a/x.h"), Some("b/y.h"), vec![])),
        Ok(Target::Modify { old_path: s("x.h"), new_path: s("y.h") })
    );
    assert_eq!(
        resolve(&patch(Some("a/x.h"), Some("/dev/null"), vec![])),
        Ok(Target::Delete { old_path: s("x.h") })
    );
    assert_eq!(
        resolve(&patch(Some("a/x.h"), None, vec![])),
        Ok(Target::Delete { old_path: s("x.h") })
    );
}

#[test]
fn patch_without_any_path_is_refused() {
    let expected = Err(PipelineError::PatchPath { path: None });
    assert_eq!(resolve(&patch(None, None, vec![])), expected);
    assert_eq!(resolve(&patch(Some(""), Some("/dev/null"), vec![])), expected);
    assert_eq!(
        patch_action(&patch(Some("/dev/null"), Some(""), vec![]), Some("text")),
        Err(PipelineError::PatchPath { path: None })
    );
}

#[test]
fn deletion_removes_the_old_file_and_applies_no_hunk() {
    let hunks = vec![Hunk { old_start: 1, lines: vec![Line::Remove(s("never there"))] }];
    let p = patch(Some("a/dir/gone.cc"), Some("/dev/null"), hunks);
    assert_eq!(patch_action(&p, None), Ok(FileAction::Remove { path: s("dir/gone.cc") }));
    assert_eq!(
        patch_action(&p, Some("anything\n")),
        Ok(FileAction::Remove { path: s("dir/gone.cc") })
    );
}

#[test]
fn creation_writes_the_added_lines_and_makes_parents() {
    let hunks = vec![Hunk { old_start: 0, lines: vec![Line::Add(s("x")), Line::Add(s("y"))] }];
    let p = patch(Some("/dev/null"), Some("b/dir/new.cc"), hunks);
    let expected =
        Ok(FileAction::Write { path: s("dir/new.cc"), text: s("x\ny\n"), create_parents: true });
    assert_eq!(patch_action(&p, None), expected);
    assert_eq!(patch_action(&p, Some("ignored\n")), expected);
}

#[test]
fn change_writes_the_new_text() {
    let hunks = vec![Hunk { old_start: 2, lines: vec![Line::Context(s("b")), Line::Add(s("x"))] }];
    let p = patch(Some("a/f.cc"), Some("b/f.cc"), hunks);
    assert_eq!(
        patch_action(&p, Some("a\nb\nc\n")),
        Ok(FileAction::Write { path: s("f.cc"), text: s("a\nb\nx\nc\n"), create_parents: false })
    );
}

#[test]
fn change_of_an_unreadable_file_is_refused() {
    let p = patch(Some("a/f.cc"), Some("b/f.cc"), vec![]);
    assert_eq!(patch_action(&p, None), Err(PipelineError::PatchPath { path: Some(s("f.cc")) }));
}

#[test]
fn mismatch_gives_an_error_and_no_action() {
    let hunks = vec![Hunk { old_start: 2, lines: vec![Line::Remove(s("B"))] }];
    let p = patch(Some("a/f.cc"), Some("b/f.cc"), hunks);
    assert_eq!(
        patch_action(&p, Some("a\nb\n")),
        Err(PipelineError::PatchMismatch { offset: 1, expected: s("B"), actual: Some(s("b")) })
    );
}

#[test]
fn hunks_out_of_order_give_an_error() {
    let hunks = vec![
        Hunk { old_start: 2, lines: vec![Line::Context(s("b"))] },
        Hunk { old_start: 1, lines: vec![Line::Context(s("a"))] },
    ];
    let p = patch(Some("a/f.cc"), Some("b/f.cc"), hunks);
    assert_eq!(patch_action(&p, Some("a\nb\n")), Err(PipelineError::PatchOrder { hunk: 1 }));
}

#[test]
fn parsed_diff_is_applied() {
    let diff = "\
--- a/lao
+++ b/tzu
@@ -1,7 +1,6 @@
-The Way that can be told of is not the eternal Way;
-The name that can be named is not the eternal name.
 The Nameless is the origin of Heaven and Earth;
-The Named is the mother of all things.
+The named is the mother of all things.
+
 Therefore let there always be non-being,
   so we may see their subtlety,
 And let there always be being,
@@ -9,3 +8,6 @@
 The two are the same,
 But after they are produced,
   they have different names.
+They both may be called deep and profound.
+Deeper and more profound,
+The door of all subtleties!
";
    let lao = "\
The Way that can be told of is not the eternal Way;
The name that can be named is not the eternal name.
The Nameless is the origin of Heaven and Earth;
The Named is the mother of all things.
Therefore let there always be non-being,
  so we may see their subtlety,
And let there always be being,
  so we may see their outcome.
The two are the same,
But after they are produced,
  they have different names.
";
    let tzu = "\
The Nameless is the origin of Heaven and Earth;
The named is the mother of all things.

Therefore let there always be non-being,
  so we may see their subtlety,
And let there always be being,
  so we may see their outcome.
The two are the same,
But after they are produced,
  they have different names.
They both may be called deep and profound.
Deeper and more profound,
The door of all subtleties!
";
    let parsed = patch::Patch::from_multiple(diff).unwrap();
    assert_eq!(parsed.len(), 1);
    let patches: Vec<Patch> = parsed
        .iter()
        .map(|p| Patch {
            old_path: Some(p.old.path.to_string()),
            new_path: Some(p.new.path.to_string()),
            hunks: p
                .hunks
                .iter()
                .map(|h| Hunk {
                    old_start: h.old_range.start,
                    lines: h
                        .lines
                        .iter()
                        .map(|l| match l {
                            patch::Line::Add(t) => Line::Add(t.to_string()),
                            patch::Line::Remove(t) => Line::Remove(t.to_string()),
                            patch::Line::Context(t) => Line::Context(t.to_string()),
                        })
                        .collect(),
                })
                .collect(),
            end_newline: p.end_newline,
        })
        .collect();
    assert_eq!(
        patch_action(&patches[0], Some(lao)),
        Ok(FileAction::Write { path: s("tzu"), text: s(tzu), create_parents: false })
    );
}

#[test]
fn faults_of_hunks_become_failures_of_the_pipeline() {
    assert_eq!(
        PipelineError::from_apply(ApplyError::OutOfOrder { hunk: 3 }),
        PipelineError::PatchOrder { hunk: 3 }
    );
    assert_eq!(
        PipelineError::from_apply(ApplyError::Mismatch {
            offset: 4,
            expected: s("e"),
            actual: None
        }),
        PipelineError::PatchMismatch { offset: 4, expected: s("e"), actual: None }
    );
}
