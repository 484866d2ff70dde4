//! The closed set of hook events that the version-control system knows.

use crate::text::{contains_str, views};
use vstd::prelude::*;
use vstd::string::*;

verus! {

/// The recognized hook event names, in the order in which they are shown.
pub open spec fn valid_hook_names() -> Seq<Seq<char>> {
    seq![
        "applypatch-msg"@,
        "pre-applypatch"@,
        "post-applypatch"@,
        "pre-commit"@,
        "pre-merge-commit"@,
        "prepare-commit-msg"@,
        "commit-msg"@,
        "post-commit"@,
        "pre-rebase"@,
        "post-checkout"@,
        "post-merge"@,
        "pre-push"@,
        "pre-receive"@,
        "update"@,
        "post-receive"@,
        "post-update"@,
        "push-to-checkout"@,
        "pre-auto-gc"@,
        "post-rewrite"@,
        "sendemail-validate"@,
        "fsmonitor-watchman"@,
        "proc-receive"@,
    ]
}

/// Whether `name` is a recognized hook event name.
pub open spec fn is_valid_hook_name(name: Seq<char>) -> bool {
    valid_hook_names().contains(name)
}

/// The recognized hook event names, one per entry, in display order.
pub fn list_events() -> (names: Vec<String>)
    ensures
        views(names@) == valid_hook_names(),
{
    let mut names: Vec<String> = Vec::new();
    names.push(String::from_str("applypatch-msg"));
    names.push(String::from_str("pre-applypatch"));
    names.push(String::from_str("post-applypatch"));
    names.push(String::from_str("pre-commit"));
    names.push(String::from_str("pre-merge-commit"));
    names.push(String::from_str("prepare-commit-msg"));
    names.push(String::from_str("commit-msg"));
    names.push(String::from_str("post-commit"));
    names.push(String::from_str("pre-rebase"));
    names.push(String::from_str("post-checkout"));
    names.push(String::from_str("post-merge"));
    names.push(String::from_str("pre-push"));
    names.push(String::from_str("pre-receive"));
    names.push(String::from_str("update"));
    names.push(String::from_str("post-receive"));
    names.push(String::from_str("post-update"));
    names.push(String::from_str("push-to-checkout"));
    names.push(String::from_str("pre-auto-gc"));
    names.push(String::from_str("post-rewrite"));
    names.push(String::from_str("sendemail-validate"));
    names.push(String::from_str("fsmonitor-watchman"));
    names.push(String::from_str("proc-receive"));
    assert(views(names@) =~= valid_hook_names());
    names
}

/// Whether `name` is a recognized hook event name.
pub fn is_valid_hook(name: &str) -> (r: bool)
    ensures
        r == is_valid_hook_name(name@),
{
    let names = list_events();
    contains_str(&names, name)
}

} // verus!
