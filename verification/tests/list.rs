use hookman::list::sort_names;
use hookman::{list_hooks, Configuration, HookDeclaration};

fn inline(command: &str) -> HookDeclaration {
    HookDeclaration { run: Some(command.to_string()), script: None }
}

fn configuration(names: &[&str]) -> Configuration {
    let mut cfg = Configuration::new();
    for name in names {
        cfg.insert(name.to_string(), inline("true"));
    }
    cfg
}

#[test]
fn one_declared_hook_is_listed_alone() {
    assert_eq!(list_hooks(&configuration(&["pre-commit"]), "hookman.toml"), vec!["- pre-commit"]);
}

#[test]
fn no_declared_hook_gives_a_notice() {
    assert_eq!(list_hooks(&Configuration::new(), "hookman.toml"), vec!["no hooks defined in hookman.toml"]);
    assert_eq!(list_hooks(&Configuration::new(), "/etc/hooks.toml"), vec!["no hooks defined in /etc/hooks.toml"]);
}

#[test]
fn names_are_listed_in_lexicographic_order() {
    let cfg = configuration(&["pre-push", "commit-msg", "update", "pre-commit", "applypatch-msg"]);
    assert_eq!(
        list_hooks(&cfg, "hookman.toml"),
        vec!["- applypatch-msg", "- commit-msg", "- pre-commit", "- pre-push", "- update"]
    );
}

#[test]
fn the_listing_does_not_depend_on_the_order_of_declaration() {
    let forwards = configuration(&["post-merge", "pre-commit", "pre-rebase"]);
    let backwards = configuration(&["pre-rebase", "pre-commit", "post-merge"]);
    let mixed = configuration(&["pre-commit", "pre-rebase", "post-merge"]);
    let expected = vec!["- post-merge", "- pre-commit", "- pre-rebase"];
    assert_eq!(list_hooks(&forwards, "c"), expected);
    assert_eq!(list_hooks(&backwards, "c"), expected);
    assert_eq!(list_hooks(&mixed, "c"), expected);
}

#[test]
fn every_declared_name_is_listed_once() {
    let names = hookman::list_events();
    let mut cfg = Configuration::new();
    for name in names.iter().rev() {
        cfg.insert(name.clone(), inline("true"));
    }
    let lines = list_hooks(&cfg, "c");
    let mut expected: Vec<String> = names.iter().map(|n| format!("- {n}")).collect();
    expected.sort();
    assert_eq!(lines.len(), 22);
    assert_eq!(lines, expected);
}

#[test]
fn unrecognized_names_are_listed_too() {
    let cfg = configuration(&["zzz", "Alpha", "pre-commit"]);
    assert_eq!(list_hooks(&cfg, "c"), vec!["- Alpha", "- pre-commit", "- zzz"]);
}

#[test]
fn sorting_agrees_with_the_order_of_strings() {
    let names: Vec<String> =
        ["b", "a", "", "ab", "B", "a", "é", "pre-push", "pre-commit"].iter().map(|s| s.to_string()).collect();
    let mut expected = names.clone();
    expected.sort();
    assert_eq!(sort_names(&names), expected);
    assert_eq!(sort_names(&Vec::new()), Vec::<String>::new());
}
