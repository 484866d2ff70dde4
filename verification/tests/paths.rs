use hookman::paths::{hook_path, hooks_dir, metadata_dir, resolve_script_path};
use hookman::{find_git_root, root_step, script_base, RootSearch};

#[test]
fn the_hook_directory_lies_below_the_metadata_directory() {
    assert_eq!(metadata_dir("/work/repo"), "/work/repo/.git");
    assert_eq!(hooks_dir("/work/repo"), "/work/repo/.git/hooks");
    assert_eq!(hooks_dir("/"), "/.git/hooks");
}

#[test]
fn a_hook_is_installed_under_its_name() {
    assert_eq!(hook_path("/work/repo/.git/hooks", "pre-commit"), "/work/repo/.git/hooks/pre-commit");
    assert_eq!(hook_path("hooks", "update"), "hooks/update");
}

#[test]
fn a_relative_script_is_taken_from_the_directory_of_the_configuration() {
    assert_eq!(resolve_script_path("scripts/cm.sh", "/work/repo/hookman.toml"), "/work/repo/scripts/cm.sh");
    assert_eq!(resolve_script_path("./scripts/cm.sh", "conf/hookman.toml"), "conf/./scripts/cm.sh");
}

#[test]
fn a_relative_script_beside_a_bare_configuration_name_stays_relative() {
    assert_eq!(resolve_script_path("scripts/cm.sh", "hookman.toml"), "scripts/cm.sh");
}

#[test]
fn an_absolute_script_stands_as_it_is() {
    assert_eq!(resolve_script_path("/opt/hooks/cm.sh", "/work/repo/hookman.toml"), "/opt/hooks/cm.sh");
}

#[test]
fn a_configuration_path_without_parent_leaves_the_script_alone() {
    assert_eq!(resolve_script_path("cm.sh", ""), "cm.sh");
    assert_eq!(resolve_script_path("cm.sh", "/"), "cm.sh");
}

#[test]
fn the_search_ends_at_a_repository() {
    assert_eq!(
        find_git_root("/work/repo/src".to_string(), true),
        RootSearch::Found { root: "/work/repo/src".to_string() }
    );
}

#[test]
fn the_search_climbs_to_the_parent() {
    assert_eq!(
        find_git_root("/work/repo/src".to_string(), false),
        RootSearch::Ascend { dir: "/work/repo".to_string() }
    );
    assert_eq!(find_git_root("/work".to_string(), false), RootSearch::Ascend { dir: "/".to_string() });
}

#[test]
fn the_search_gives_up_at_the_top() {
    assert_eq!(find_git_root("/".to_string(), false), RootSearch::NotFound);
    assert_eq!(find_git_root("".to_string(), false), RootSearch::NotFound);
}

#[test]
fn a_climb_from_a_nested_directory_visits_every_ancestor() {
    let mut dir = "/a/b/c".to_string();
    let mut visited = vec![dir.clone()];
    loop {
        match find_git_root(dir, false) {
            RootSearch::Ascend { dir: parent } => {
                visited.push(parent.clone());
                dir = parent;
            }
            RootSearch::NotFound => break,
            RootSearch::Found { .. } => unreachable!(),
        }
    }
    assert_eq!(visited, vec!["/a/b/c", "/a/b", "/a", "/"]);
}

#[test]
fn a_repository_is_the_root_whatever_its_parent() {
    let found = RootSearch::Found { root: "/work/repo".to_string() };
    assert_eq!(root_step("/work/repo".to_string(), true, Some("/work".to_string())), found);
    assert_eq!(root_step("/work/repo".to_string(), true, None), found);
}

#[test]
fn a_directory_that_is_no_repository_sends_the_search_to_its_parent() {
    assert_eq!(
        root_step("/work/repo".to_string(), false, Some("/work".to_string())),
        RootSearch::Ascend { dir: "/work".to_string() }
    );
    assert_eq!(
        root_step("src".to_string(), false, Some("".to_string())),
        RootSearch::Ascend { dir: "".to_string() }
    );
}

#[test]
fn a_directory_without_parent_that_is_no_repository_ends_the_search() {
    assert_eq!(root_step("/".to_string(), false, None), RootSearch::NotFound);
}

#[test]
fn a_relative_script_is_based_on_the_directory_of_the_configuration() {
    assert_eq!(script_base(true, Some("/work/repo".to_string())), Some("/work/repo".to_string()));
    assert_eq!(script_base(true, Some("".to_string())), Some("".to_string()));
    assert_eq!(script_base(true, None), None);
}

#[test]
fn a_script_that_is_not_relative_has_no_base() {
    assert_eq!(script_base(false, Some("/work/repo".to_string())), None);
    assert_eq!(script_base(false, None), None);
}
