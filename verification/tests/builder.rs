use hookman::builder::{install_hook, render_inline, select_shell};
use hookman::{
    build_hooks, build_probes, Configuration, Effect, Error, FileState, HookDeclaration, HookEntry,
    Probe, Snapshot,
};

const HOOKS: &str = "/repo/.git/hooks";
const CONFIG: &str = "/repo/hookman.toml";

fn inline(command: &str) -> HookDeclaration {
    HookDeclaration { run: Some(command.to_string()), script: None }
}

fn script(path: &str) -> HookDeclaration {
    HookDeclaration { run: None, script: Some(path.to_string()) }
}

fn create_dir() -> Effect {
    Effect::CreateDir { path: HOOKS.to_string() }
}

fn create(hook: &str) -> Effect {
    Effect::CreateFile { hook: hook.to_string(), path: format!("{HOOKS}/{hook}") }
}

fn write(hook: &str, text: &str) -> Effect {
    Effect::WriteFile { hook: hook.to_string(), path: format!("{HOOKS}/{hook}"), text: text.to_string() }
}

fn executable(hook: &str) -> Effect {
    Effect::MakeExecutable { hook: hook.to_string(), path: format!("{HOOKS}/{hook}"), mode: 0o755 }
}

fn print(line: &str) -> Effect {
    Effect::Print { line: line.to_string() }
}

#[test]
fn the_default_shell_is_used_unless_the_session_shell_is_asked_for() {
    assert_eq!(select_shell(false, None), "/usr/bin/env bash");
    assert_eq!(select_shell(false, Some("/bin/zsh")), "/usr/bin/env bash");
    assert_eq!(select_shell(true, Some("/bin/zsh")), "/bin/zsh");
}

#[test]
fn the_default_shell_stands_in_for_an_unknown_session_shell() {
    assert_eq!(select_shell(true, None), "/usr/bin/env bash");
}

#[test]
fn a_generated_script_has_three_parts() {
    assert_eq!(render_inline("/usr/bin/env bash", "echo hi"), "#!/usr/bin/env bash\nset -e\necho hi\n");
    assert_eq!(render_inline("/bin/zsh", "make lint\nmake test"), "#!/bin/zsh\nset -e\nmake lint\nmake test\n");
    assert_eq!(render_inline("", ""), "#!\nset -e\n\n");
}

#[test]
fn pre_commit_with_an_inline_command_is_installed() {
    let mut cfg = Configuration::new();
    cfg.insert("pre-commit".to_string(), inline("echo hi"));
    let report = build_hooks(false, "hookman.toml", &cfg, None, HOOKS, &Snapshot::new());
    assert_eq!(report.failure, None);
    assert_eq!(
        report.effects,
        vec![
            create_dir(),
            create("pre-commit"),
            write("pre-commit", "#!/usr/bin/env bash\nset -e\necho hi\n"),
            executable("pre-commit"),
            print("installed hook `pre-commit`"),
        ]
    );
}

#[test]
fn the_generated_file_starts_with_a_shebang_then_the_directive_then_the_command() {
    let mut cfg = Configuration::new();
    cfg.insert("pre-commit".to_string(), inline("echo hi"));
    let report = build_hooks(false, "hookman.toml", &cfg, None, HOOKS, &Snapshot::new());
    let text = match &report.effects[2] {
        Effect::WriteFile { text, .. } => text.clone(),
        other => panic!("expected a write, found {other:?}"),
    };
    let lines: Vec<&str> = text.lines().collect();
    assert!(lines[0].starts_with("#!"));
    assert_eq!(lines[1], "set -e");
    assert_eq!(lines[2], "echo hi");
    assert_eq!(lines.len(), 3);
    assert!(matches!(&report.effects[3], Effect::MakeExecutable { hook, mode: 0o755, .. } if hook == "pre-commit"));
}

#[test]
fn a_hook_that_is_already_installed_is_announced_and_replaced() {
    let mut cfg = Configuration::new();
    cfg.insert("pre-commit".to_string(), inline("echo hi"));
    let mut seen = Snapshot::new();
    seen.record(format!("{HOOKS}/pre-commit"), FileState::Present);
    let report = build_hooks(false, CONFIG, &cfg, None, HOOKS, &seen);
    assert_eq!(report.failure, None);
    assert_eq!(
        report.effects,
        vec![
            create_dir(),
            print("overwriting hook `pre-commit`"),
            create("pre-commit"),
            write("pre-commit", "#!/usr/bin/env bash\nset -e\necho hi\n"),
            executable("pre-commit"),
            print("installed hook `pre-commit`"),
        ]
    );
}

#[test]
fn the_session_shell_goes_into_the_shebang_when_asked_for() {
    let mut cfg = Configuration::new();
    cfg.insert("pre-push".to_string(), inline("cargo test"));
    let report = build_hooks(true, CONFIG, &cfg, Some("/bin/fish"), HOOKS, &Snapshot::new());
    assert_eq!(report.effects[2], write("pre-push", "#!/bin/fish\nset -e\ncargo test\n"));
}

#[test]
fn a_script_is_copied_as_it_is() {
    let mut cfg = Configuration::new();
    cfg.insert("commit-msg".to_string(), script("scripts/cm.sh"));
    let mut seen = Snapshot::new();
    seen.record("/repo/scripts/cm.sh".to_string(), FileState::Text("#!/bin/sh\nexit 0\n".to_string()));
    let report = build_hooks(false, CONFIG, &cfg, None, HOOKS, &seen);
    assert_eq!(report.failure, None);
    assert_eq!(
        report.effects,
        vec![
            create_dir(),
            create("commit-msg"),
            write("commit-msg", "#!/bin/sh\nexit 0\n"),
            executable("commit-msg"),
            print("installed hook `commit-msg`"),
        ]
    );
}

#[test]
fn a_script_without_final_newline_gets_none() {
    let mut cfg = Configuration::new();
    cfg.insert("commit-msg".to_string(), script("/opt/cm.sh"));
    let mut seen = Snapshot::new();
    seen.record("/opt/cm.sh".to_string(), FileState::Text("exit 0".to_string()));
    let report = build_hooks(true, CONFIG, &cfg, Some("/bin/zsh"), HOOKS, &seen);
    assert_eq!(report.effects[2], write("commit-msg", "exit 0"));
}

#[test]
fn a_missing_script_ends_the_build_with_no_content_written() {
    let mut cfg = Configuration::new();
    cfg.insert("commit-msg".to_string(), script("./scripts/cm.sh"));
    let report = build_hooks(false, CONFIG, &cfg, None, HOOKS, &Snapshot::new());
    assert_eq!(
        report.failure,
        Some(Error::ScriptNotFound {
            name: "commit-msg".to_string(),
            path: "/repo/./scripts/cm.sh".to_string(),
        })
    );
    assert_eq!(report.effects, vec![create_dir(), create("commit-msg")]);
    assert!(!report.effects.iter().any(|e| matches!(e, Effect::WriteFile { .. })));
}

#[test]
fn hooks_before_a_missing_script_stay_installed() {
    let mut cfg = Configuration::new();
    cfg.insert("pre-commit".to_string(), inline("echo hi"));
    cfg.insert("commit-msg".to_string(), script("./scripts/cm.sh"));
    cfg.insert("pre-push".to_string(), inline("echo later"));
    let report = build_hooks(false, CONFIG, &cfg, None, HOOKS, &Snapshot::new());
    assert!(matches!(report.failure, Some(Error::ScriptNotFound { .. })));
    assert_eq!(
        report.effects,
        vec![
            create_dir(),
            create("pre-commit"),
            write("pre-commit", "#!/usr/bin/env bash\nset -e\necho hi\n"),
            executable("pre-commit"),
            print("installed hook `pre-commit`"),
            create("commit-msg"),
        ]
    );
}

#[test]
fn an_unreadable_script_ends_the_build() {
    let mut cfg = Configuration::new();
    cfg.insert("commit-msg".to_string(), script("/opt/cm.sh"));
    let mut seen = Snapshot::new();
    seen.record("/opt/cm.sh".to_string(), FileState::Unreadable("permission denied".to_string()));
    let report = build_hooks(false, CONFIG, &cfg, None, HOOKS, &seen);
    assert_eq!(
        report.failure,
        Some(Error::FilesystemError {
            operation: "reading script".to_string(),
            path: "/opt/cm.sh".to_string(),
            reason: "permission denied".to_string(),
        })
    );
    assert_eq!(report.effects, vec![create_dir(), create("commit-msg")]);
}

#[test]
fn a_script_whose_contents_were_not_read_ends_the_build() {
    let mut cfg = Configuration::new();
    cfg.insert("commit-msg".to_string(), script("/opt/cm.sh"));
    let mut seen = Snapshot::new();
    seen.record("/opt/cm.sh".to_string(), FileState::Present);
    let report = build_hooks(false, CONFIG, &cfg, None, HOOKS, &seen);
    assert_eq!(
        report.failure,
        Some(Error::FilesystemError {
            operation: "reading script".to_string(),
            path: "/opt/cm.sh".to_string(),
            reason: "its contents were not read".to_string(),
        })
    );
}

#[test]
fn an_unrecognized_name_ends_the_build_before_its_file_is_touched() {
    let mut cfg = Configuration::new();
    cfg.insert("pre-commit".to_string(), inline("echo hi"));
    cfg.insert("pre-comit".to_string(), inline("echo typo"));
    let report = build_hooks(false, CONFIG, &cfg, None, HOOKS, &Snapshot::new());
    assert_eq!(report.failure, Some(Error::UnsupportedHookType { name: "pre-comit".to_string() }));
    assert_eq!(report.effects.len(), 5);
    assert!(!report.effects.iter().any(|e| matches!(e, Effect::CreateFile { hook, .. } if hook == "pre-comit")));
}

#[test]
fn two_sources_end_the_build_before_any_file_is_written() {
    let mut cfg = Configuration::new();
    cfg.insert(
        "pre-commit".to_string(),
        HookDeclaration { run: Some("echo hi".to_string()), script: Some("x.sh".to_string()) },
    );
    let report = build_hooks(false, CONFIG, &cfg, None, HOOKS, &Snapshot::new());
    assert_eq!(report.failure, Some(Error::ConflictingContentSource { name: "pre-commit".to_string() }));
    assert_eq!(report.effects, vec![create_dir()]);
}

#[test]
fn no_source_ends_the_build_before_any_file_is_written() {
    let mut cfg = Configuration::new();
    cfg.insert("pre-commit".to_string(), HookDeclaration { run: None, script: None });
    let report = build_hooks(false, CONFIG, &cfg, None, HOOKS, &Snapshot::new());
    assert_eq!(report.failure, Some(Error::MissingContentSource { name: "pre-commit".to_string() }));
    assert_eq!(report.effects, vec![create_dir()]);
}

#[test]
fn an_empty_configuration_only_creates_the_hook_directory() {
    let report = build_hooks(false, CONFIG, &Configuration::new(), None, HOOKS, &Snapshot::new());
    assert_eq!(report.failure, None);
    assert_eq!(report.effects, vec![create_dir()]);
}

#[test]
fn hooks_are_installed_in_the_order_of_the_configuration() {
    let mut cfg = Configuration::new();
    cfg.insert("pre-push".to_string(), inline("b"));
    cfg.insert("applypatch-msg".to_string(), inline("a"));
    let report = build_hooks(false, CONFIG, &cfg, None, HOOKS, &Snapshot::new());
    assert_eq!(report.effects[1], create("pre-push"));
    assert_eq!(report.effects[5], create("applypatch-msg"));
    assert_eq!(report.effects.len(), 9);
}

#[test]
fn a_second_build_writes_the_same_files() {
    let mut cfg = Configuration::new();
    cfg.insert("pre-commit".to_string(), inline("echo hi"));
    cfg.insert("commit-msg".to_string(), script("/opt/cm.sh"));
    let mut before = Snapshot::new();
    before.record("/opt/cm.sh".to_string(), FileState::Text("exit 0\n".to_string()));
    let first = build_hooks(false, CONFIG, &cfg, None, HOOKS, &before);
    let mut after = Snapshot::new();
    after.record("/opt/cm.sh".to_string(), FileState::Text("exit 0\n".to_string()));
    after.record(format!("{HOOKS}/pre-commit"), FileState::Present);
    after.record(format!("{HOOKS}/commit-msg"), FileState::Present);
    let second = build_hooks(false, CONFIG, &cfg, None, HOOKS, &after);
    assert_eq!(first.failure, None);
    assert_eq!(second.failure, None);
    let quiet = |effects: Vec<Effect>| -> Vec<Effect> {
        effects
            .into_iter()
            .filter(|e| !matches!(e, Effect::Print { line } if line.starts_with("overwriting hook")))
            .collect()
    };
    assert_eq!(second.effects.len(), first.effects.len() + 2);
    assert_eq!(quiet(second.effects), quiet(first.effects));
}

#[test]
fn one_hook_is_planned_like_a_build_of_it_alone() {
    let entry = HookEntry { name: "update".to_string(), hook: inline("true") };
    let report = install_hook(&entry, "/bin/sh", CONFIG, HOOKS, &Snapshot::new());
    assert_eq!(report.failure, None);
    assert_eq!(
        report.effects,
        vec![
            create("update"),
            write("update", "#!/bin/sh\nset -e\ntrue\n"),
            executable("update"),
            print("installed hook `update`"),
        ]
    );
}

#[test]
fn a_build_asks_about_each_hook_and_each_script() {
    let mut cfg = Configuration::new();
    cfg.insert("pre-commit".to_string(), inline("echo hi"));
    cfg.insert("commit-msg".to_string(), script("scripts/cm.sh"));
    assert_eq!(
        build_probes(&cfg, CONFIG, HOOKS),
        vec![
            Probe { path: format!("{HOOKS}/pre-commit"), read: false },
            Probe { path: format!("{HOOKS}/commit-msg"), read: false },
            Probe { path: "/repo/scripts/cm.sh".to_string(), read: true },
        ]
    );
}

#[test]
fn a_build_asks_about_nothing_from_the_first_invalid_hook_on() {
    let mut cfg = Configuration::new();
    cfg.insert("pre-commit".to_string(), inline("echo hi"));
    cfg.insert("bogus".to_string(), inline("echo no"));
    cfg.insert("pre-push".to_string(), inline("echo later"));
    assert_eq!(
        build_probes(&cfg, CONFIG, HOOKS),
        vec![Probe { path: format!("{HOOKS}/pre-commit"), read: false }]
    );
    assert_eq!(build_probes(&Configuration::new(), CONFIG, HOOKS), Vec::new());
}

fn examine(probes: Vec<Probe>, files: &[(&str, &str)]) -> Snapshot {
    let mut seen = Snapshot::new();
    for probe in probes {
        if let Some((_, text)) = files.iter().find(|(path, _)| *path == probe.path) {
            let state = if probe.read { FileState::Text(text.to_string()) } else { FileState::Present };
            seen.record(probe.path, state);
        }
    }
    seen
}

#[test]
fn a_script_that_is_also_the_place_of_a_declared_hook_is_copied() {
    let mut cfg = Configuration::new();
    cfg.insert("pre-commit".to_string(), script("/repo/.git/hooks/pre-push"));
    cfg.insert("pre-push".to_string(), inline("cargo test"));
    let asked = build_probes(&cfg, CONFIG, HOOKS);
    assert_eq!(
        asked,
        vec![
            Probe { path: format!("{HOOKS}/pre-commit"), read: false },
            Probe { path: format!("{HOOKS}/pre-push"), read: true },
            Probe { path: format!("{HOOKS}/pre-push"), read: false },
        ]
    );
    let seen = examine(asked, &[("/repo/.git/hooks/pre-push", "#!/bin/sh\nold push\n")]);
    let report = build_hooks(false, CONFIG, &cfg, None, HOOKS, &seen);
    assert_eq!(report.failure, None);
    assert_eq!(
        report.effects,
        vec![
            create_dir(),
            create("pre-commit"),
            write("pre-commit", "#!/bin/sh\nold push\n"),
            executable("pre-commit"),
            print("installed hook `pre-commit`"),
            print("overwriting hook `pre-push`"),
            create("pre-push"),
            write("pre-push", "#!/usr/bin/env bash\nset -e\ncargo test\n"),
            executable("pre-push"),
            print("installed hook `pre-push`"),
        ]
    );
}
