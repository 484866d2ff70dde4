use hookman::{Configuration, HookDeclaration};

fn inline(command: &str) -> HookDeclaration {
    HookDeclaration { run: Some(command.to_string()), script: None }
}

#[test]
fn a_new_configuration_is_empty() {
    let cfg = Configuration::new();
    assert!(cfg.is_empty());
    assert_eq!(cfg.len(), 0);
    assert!(cfg.names().is_empty());
    assert!(!cfg.contains("pre-commit"));
    assert_eq!(cfg.get("pre-commit"), None);
    assert_eq!(cfg.find("pre-commit"), None);
}

#[test]
fn inserted_names_keep_their_order() {
    let mut cfg = Configuration::new();
    cfg.insert("pre-push".to_string(), inline("a"));
    cfg.insert("commit-msg".to_string(), inline("b"));
    cfg.insert("pre-commit".to_string(), inline("c"));
    assert_eq!(cfg.len(), 3);
    assert!(!cfg.is_empty());
    assert_eq!(cfg.names(), vec!["pre-push", "commit-msg", "pre-commit"]);
    assert_eq!(cfg.find("commit-msg"), Some(1));
    assert_eq!(cfg.entry(2).name, "pre-commit");
    assert_eq!(cfg.entry(2).hook, inline("c"));
}

#[test]
fn a_second_insert_under_a_name_replaces_the_first() {
    let mut cfg = Configuration::new();
    cfg.insert("pre-push".to_string(), inline("a"));
    cfg.insert("pre-commit".to_string(), inline("b"));
    cfg.insert("pre-push".to_string(), inline("c"));
    assert_eq!(cfg.len(), 2);
    assert_eq!(cfg.names(), vec!["pre-push", "pre-commit"]);
    assert_eq!(cfg.get("pre-push"), Some(&inline("c")));
    assert_eq!(cfg.get("pre-commit"), Some(&inline("b")));
}

#[test]
fn lookup_is_by_the_whole_name() {
    let mut cfg = Configuration::new();
    cfg.insert("pre-commit".to_string(), inline("a"));
    assert!(cfg.contains("pre-commit"));
    assert!(!cfg.contains("pre-commi"));
    assert!(!cfg.contains("pre-commit "));
    assert!(!cfg.contains(""));
}

#[test]
fn unrecognized_names_can_be_declared() {
    let mut cfg = Configuration::new();
    cfg.insert("not-an-event".to_string(), inline("a"));
    assert!(cfg.contains("not-an-event"));
}
