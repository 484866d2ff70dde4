use hookman::{
    build_hooks, clean_hooks, Configuration, Effect, FileState, HookDeclaration, Snapshot,
};
use std::collections::BTreeMap;

const HOOKS: &str = "/repo/.git/hooks";
const CONFIG: &str = "/repo/hookman.toml";

type Directory = BTreeMap<String, String>;

fn perform(effects: &[Effect], directory: &mut Directory) {
    for effect in effects {
        match effect {
            Effect::CreateFile { hook, .. } => {
                directory.insert(hook.clone(), String::new());
            }
            Effect::WriteFile { hook, text, .. } => {
                directory.insert(hook.clone(), text.clone());
            }
            Effect::RemoveFile { hook, .. } => {
                directory.remove(hook);
            }
            Effect::RemoveDir { .. } => directory.clear(),
            Effect::CreateDir { .. } | Effect::MakeExecutable { .. } | Effect::Print { .. } => {}
        }
    }
}

fn observe(directory: &Directory, scripts: &[(&str, &str)]) -> Snapshot {
    let mut seen = Snapshot::new();
    for name in directory.keys() {
        seen.record(format!("{HOOKS}/{name}"), FileState::Present);
    }
    for (path, text) in scripts {
        seen.record(path.to_string(), FileState::Text(text.to_string()));
    }
    seen
}

fn declared() -> Configuration {
    let mut cfg = Configuration::new();
    cfg.insert("pre-commit".to_string(), HookDeclaration { run: Some("echo hi".to_string()), script: None });
    cfg.insert("commit-msg".to_string(), HookDeclaration { run: None, script: Some("/opt/cm.sh".to_string()) });
    cfg
}

fn directory(files: &[(&str, &str)]) -> Directory {
    files.iter().map(|(name, text)| (name.to_string(), text.to_string())).collect()
}

#[test]
fn a_build_installs_each_declared_hook_and_keeps_the_others() {
    let scripts = [("/opt/cm.sh", "#!/bin/sh\nexit 0\n")];
    let mut hooks = directory(&[("pre-commit", "old"), ("post-merge", "mine"), ("update.sample", "sample")]);
    let report = build_hooks(false, CONFIG, &declared(), None, HOOKS, &observe(&hooks, &scripts));
    assert_eq!(report.failure, None);
    perform(&report.effects, &mut hooks);
    assert_eq!(
        hooks,
        directory(&[
            ("commit-msg", "#!/bin/sh\nexit 0\n"),
            ("post-merge", "mine"),
            ("pre-commit", "#!/usr/bin/env bash\nset -e\necho hi\n"),
            ("update.sample", "sample"),
        ])
    );
}

#[test]
fn a_second_build_leaves_the_directory_as_the_first_made_it() {
    let scripts = [("/opt/cm.sh", "exit 0\n")];
    let mut hooks = Directory::new();
    let first = build_hooks(true, CONFIG, &declared(), Some("/bin/zsh"), HOOKS, &observe(&hooks, &scripts));
    perform(&first.effects, &mut hooks);
    let after_first = hooks.clone();
    let second = build_hooks(true, CONFIG, &declared(), Some("/bin/zsh"), HOOKS, &observe(&hooks, &scripts));
    perform(&second.effects, &mut hooks);
    assert_eq!(first.failure, None);
    assert_eq!(second.failure, None);
    assert_eq!(hooks, after_first);
    assert_eq!(hooks["pre-commit"], "#!/bin/zsh\nset -e\necho hi\n");
}

#[test]
fn a_failing_build_repeated_fails_alike_and_changes_nothing_more() {
    let mut hooks = directory(&[("commit-msg", "old")]);
    let first = build_hooks(false, CONFIG, &declared(), None, HOOKS, &observe(&hooks, &[]));
    perform(&first.effects, &mut hooks);
    let after_first = hooks.clone();
    let second = build_hooks(false, CONFIG, &declared(), None, HOOKS, &observe(&hooks, &[]));
    perform(&second.effects, &mut hooks);
    assert!(first.failure.is_some());
    assert_eq!(second.failure, first.failure);
    assert_eq!(hooks, after_first);
    assert_eq!(hooks, directory(&[("commit-msg", ""), ("pre-commit", "#!/usr/bin/env bash\nset -e\necho hi\n")]));
}

#[test]
fn a_clean_removes_the_declared_hooks_and_keeps_the_others() {
    let mut hooks = directory(&[
        ("pre-commit", "a"),
        ("commit-msg", "b"),
        ("post-merge", "mine"),
        ("pre-commit.sample", "sample"),
        ("notes.txt", "text"),
    ]);
    let effects = clean_hooks(&declared(), false, HOOKS, &observe(&hooks, &[]));
    perform(&effects, &mut hooks);
    assert_eq!(hooks, directory(&[("post-merge", "mine"), ("pre-commit.sample", "sample"), ("notes.txt", "text")]));
}

#[test]
fn a_second_clean_finds_nothing_to_remove() {
    let mut hooks = directory(&[("pre-commit", "a"), ("post-merge", "mine")]);
    let first = clean_hooks(&declared(), false, HOOKS, &observe(&hooks, &[]));
    perform(&first, &mut hooks);
    let second = clean_hooks(&declared(), false, HOOKS, &observe(&hooks, &[]));
    assert!(!second.iter().any(|e| matches!(e, Effect::RemoveFile { .. })));
    assert_eq!(
        second,
        vec![
            Effect::Print { line: "no hook `pre-commit` to remove, skipping".to_string() },
            Effect::Print { line: "no hook `commit-msg` to remove, skipping".to_string() },
        ]
    );
}

#[test]
fn a_bulk_clean_empties_the_directory() {
    let mut hooks = directory(&[("pre-commit", "a"), ("post-merge", "mine")]);
    let effects = clean_hooks(&Configuration::new(), true, HOOKS, &observe(&hooks, &[]));
    perform(&effects, &mut hooks);
    assert_eq!(hooks, Directory::new());
}
