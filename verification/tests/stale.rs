use hookman::{stale_hooks, warn_stale_hooks, Configuration, HookDeclaration};

fn inline(command: &str) -> HookDeclaration {
    HookDeclaration { run: Some(command.to_string()), script: None }
}

fn names(list: &[&str]) -> Vec<String> {
    list.iter().map(|s| s.to_string()).collect()
}

#[test]
fn an_installed_event_that_is_not_declared_is_stale() {
    let mut cfg = Configuration::new();
    cfg.insert("pre-commit".to_string(), inline("a"));
    assert_eq!(stale_hooks(&cfg, &names(&["pre-commit", "pre-push"])), vec!["pre-push"]);
}

#[test]
fn sample_files_are_not_stale() {
    let cfg = Configuration::new();
    assert_eq!(stale_hooks(&cfg, &names(&["pre-commit.sample", "update.sample"])), Vec::<String>::new());
}

#[test]
fn files_with_unrecognized_names_are_not_stale() {
    let cfg = Configuration::new();
    assert_eq!(stale_hooks(&cfg, &names(&["README", "pre-comit", "my-helper.sh", ""])), Vec::<String>::new());
}

#[test]
fn declared_hooks_are_not_stale() {
    let mut cfg = Configuration::new();
    cfg.insert("pre-commit".to_string(), inline("a"));
    cfg.insert("pre-push".to_string(), inline("b"));
    assert_eq!(stale_hooks(&cfg, &names(&["pre-push", "pre-commit"])), Vec::<String>::new());
}

#[test]
fn stale_hooks_come_in_the_order_of_the_directory() {
    let mut cfg = Configuration::new();
    cfg.insert("pre-commit".to_string(), inline("a"));
    let installed = names(&["update", "pre-commit.sample", "pre-commit", "notes.txt", "commit-msg", "post-merge"]);
    assert_eq!(stale_hooks(&cfg, &installed), vec!["update", "commit-msg", "post-merge"]);
}

#[test]
fn an_empty_directory_has_no_stale_hook() {
    let mut cfg = Configuration::new();
    cfg.insert("pre-commit".to_string(), inline("a"));
    assert_eq!(stale_hooks(&cfg, &Vec::new()), Vec::<String>::new());
    assert_eq!(warn_stale_hooks(&cfg, &Vec::new()), Vec::<String>::new());
}

#[test]
fn each_stale_hook_gets_a_warning() {
    let cfg = Configuration::new();
    assert_eq!(
        warn_stale_hooks(&cfg, &names(&["pre-push", "pre-push.sample", "update"])),
        vec!["\x1b[33m[warning]\x1b[0m: stale hook: pre-push", "\x1b[33m[warning]\x1b[0m: stale hook: update"]
    );
}
