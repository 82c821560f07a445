use fdname::rule::Command;
use fdname::run::{normalize_selection, Action, Event, Opt, Phase, Run, RunError};

fn opt(dirs: bool, files: bool, recursive: bool, cmd: Command) -> Opt {
    Opt { root_dir: None, dirs, files, recursive, cmd }
}

fn entry(depth: usize, name: &str, is_dir: bool) -> Event {
    Event::Entry { depth, name: name.to_string(), is_dir, is_file: !is_dir }
}

fn rename(to: &str) -> Action {
    Action::Rename { to: to.to_string() }
}

fn started(o: Opt) -> Run {
    let mut run = Run::new(o);
    let _ = run.step(Event::Root { exists: true });
    run
}

#[test]
fn default_selection_is_both() {
    assert_eq!(normalize_selection(false, false), (true, true));
    assert_eq!(normalize_selection(true, false), (true, false));
    assert_eq!(normalize_selection(false, true), (false, true));
    assert_eq!(normalize_selection(true, true), (true, true));
}

#[test]
fn unset_flags_behave_as_both_set() {
    let cmd = Command::Suffix { new: "_1".to_string() };
    let mut unset = started(opt(false, false, false, cmd.clone()));
    let mut set = started(opt(true, true, false, cmd));
    for ev in [entry(1, "d", true), entry(1, "f.txt", false), Event::Renamed, Event::Exhausted] {
        assert_eq!(unset.step(ev.clone()), set.step(ev));
        assert_eq!(unset.phase, set.phase);
    }
}

#[test]
fn prefix_files_only_scenario() {
    let mut run = Run::new(opt(false, true, false, Command::Prefix { new: "x_".to_string() }));
    assert_eq!(run.step(Event::Root { exists: true }), Action::Walk { max_depth: Some(1) });
    assert_eq!(run.step(entry(1, "a.txt", false)), rename("x_a.txt"));
    assert_eq!(run.step(Event::Renamed), Action::Next);
    assert_eq!(run.step(entry(1, "b.txt", false)), rename("x_b.txt"));
    assert_eq!(run.step(Event::Renamed), Action::Next);
    assert_eq!(run.step(entry(1, "sub", true)), Action::Next);
    assert_eq!(run.step(Event::Exhausted), Action::Finish);
    assert_eq!(run.phase, Phase::Done);
}

#[test]
fn replace_dirs_only_scenario() {
    let cmd = Command::Replace { old: "old".to_string(), new: "new".to_string() };
    let mut run = started(opt(true, false, false, cmd));
    assert_eq!(run.step(entry(1, "old_name", true)), rename("new_name"));
    assert_eq!(run.step(entry(1, "old.txt", false)), Action::Next);
}

#[test]
fn whitespace_scenario_keeps_extension() {
    let mut run = started(opt(false, false, false, Command::Whitespace));
    assert_eq!(run.step(entry(1, "My File.TXT", false)), rename("MyFile.TXT"));
}

#[test]
fn missing_root_fails_before_walking() {
    let mut run = Run::new(opt(false, false, true, Command::Hash));
    assert_eq!(run.step(Event::Root { exists: false }), Action::Fail(RunError::RootMissing));
    assert_eq!(run.phase, Phase::Failed(RunError::RootMissing));
    assert_eq!(run.step(entry(1, "a", false)), Action::Fail(RunError::RootMissing));
}

#[test]
fn depth_bound_without_recursion() {
    let mut run = started(opt(false, false, false, Command::Uppercase));
    assert_eq!(run.step(entry(2, "deep", false)), Action::Next);
    assert_eq!(run.step(entry(0, "root", true)), Action::Next);
    assert_eq!(run.step(entry(1, "top", false)), rename("TOP"));
}

#[test]
fn recursion_walks_every_depth() {
    let mut run = Run::new(opt(false, false, true, Command::Lowercase));
    assert_eq!(run.step(Event::Root { exists: true }), Action::Walk { max_depth: None });
    assert_eq!(run.step(entry(3, "Leaf.RS", false)), rename("leaf.RS"));
    assert_eq!(run.step(entry(2, "Mid", true)), rename("mid"));
    assert_eq!(run.step(entry(1, "Top", true)), rename("top"));
}

#[test]
fn walk_error_aborts() {
    let mut run = started(opt(false, false, false, Command::Hash));
    assert_eq!(run.step(Event::WalkFailed), Action::Fail(RunError::Walk));
    assert_eq!(run.step(entry(1, "a", false)), Action::Fail(RunError::Walk));
}

#[test]
fn rename_error_aborts() {
    let mut run = started(opt(false, false, false, Command::Hash));
    assert!(matches!(run.step(entry(1, "a.txt", false)), Action::Rename { .. }));
    assert_eq!(run.step(Event::RenameFailed), Action::Fail(RunError::Rename));
    assert_eq!(run.phase, Phase::Failed(RunError::Rename));
}

#[test]
fn hash_rule_keeps_extension() {
    let mut run = started(opt(false, false, false, Command::Hash));
    let want = format!("{}.txt", fdname::transform::hash("a"));
    assert_eq!(run.step(entry(1, "a.txt", false)), Action::Rename { to: want });
}

#[test]
fn entries_without_stem_are_skipped() {
    let mut run = started(opt(false, false, false, Command::Prefix { new: "p".to_string() }));
    assert_eq!(run.step(entry(1, "", false)), Action::Next);
    let mut run = started(opt(false, false, false, Command::Whitespace));
    assert_eq!(run.step(entry(1, "   .txt", false)), Action::Next);
}

#[test]
fn entries_of_neither_kind_are_skipped() {
    let mut run = started(opt(false, false, false, Command::Uppercase));
    let ev = Event::Entry { depth: 1, name: "link".to_string(), is_dir: false, is_file: false };
    assert_eq!(run.step(ev), Action::Next);
}

#[test]
fn remove_rule() {
    let mut run = started(opt(false, false, false, Command::Remove { sub: "-".to_string() }));
    assert_eq!(run.step(entry(1, "a-b-c.md", false)), rename("abc.md"));
}

#[test]
fn root_dir_choice() {
    let run = Run::new(opt(false, false, false, Command::Hash));
    assert!(run.uses_current_dir());
    let mut o = opt(false, false, false, Command::Hash);
    o.root_dir = Some("/there".to_string());
    let run = Run::new(o);
    assert!(!run.uses_current_dir());
}

#[test]
fn dotted_stems_keep_every_part() {
    let mut run = started(opt(false, false, false, Command::Lowercase));
    assert_eq!(run.step(entry(1, "A.B.C", false)), rename("a.b.C"));
    let mut run = started(opt(false, false, false, Command::Whitespace));
    assert_eq!(run.step(entry(1, "a.b.c", false)), rename("a.b.c"));
    assert_eq!(run.step(entry(1, "x y.z.txt", false)), rename("xy.z.txt"));
}

#[test]
fn events_before_root_are_ignored() {
    let mut run = Run::new(opt(false, false, false, Command::Hash));
    assert_eq!(run.step(entry(1, "a", false)), Action::Next);
    assert_eq!(run.phase, Phase::Start);
}
