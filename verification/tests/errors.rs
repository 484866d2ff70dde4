use hookman::{Effect, Error, RepositoryUse, ValidationError};

#[test]
fn each_error_has_its_line() {
    assert_eq!(
        Error::ConfigNotFound { path: "hookman.toml".to_string() }.message(),
        "config file not found: hookman.toml"
    );
    assert_eq!(
        Error::ConfigParseError { reason: "expected `=`".to_string() }.message(),
        "parsing hookman.toml: expected `=`"
    );
    assert_eq!(
        Error::RepositoryNotFound { during: RepositoryUse::Build }.message(),
        "not inside a git repository"
    );
    assert_eq!(
        Error::RepositoryNotFound { during: RepositoryUse::Clean }.message(),
        "not inside a Git repository"
    );
    assert_eq!(
        Error::UnsupportedHookType { name: "pre-comit".to_string() }.message(),
        "unsupported hook type `pre-comit`"
    );
    assert_eq!(
        Error::ConflictingContentSource { name: "pre-commit".to_string() }.message(),
        "hook pre-commit: either `run` or `script` can be assigned at a time."
    );
    assert_eq!(
        Error::MissingContentSource { name: "pre-commit".to_string() }.message(),
        "hook pre-commit: you must use either `run` or `script` in the definition."
    );
    assert_eq!(
        Error::ScriptNotFound { name: "commit-msg".to_string(), path: "./scripts/cm.sh".to_string() }.message(),
        "hook commit-msg: script path './scripts/cm.sh' does not exist"
    );
    assert_eq!(
        Error::FilesystemError {
            operation: "creating hook file".to_string(),
            path: "/repo/.git/hooks/update".to_string(),
            reason: "permission denied".to_string(),
        }
        .message(),
        "creating hook file `/repo/.git/hooks/update`: permission denied"
    );
}

#[test]
fn a_refused_hook_gives_the_error_of_its_reason() {
    assert_eq!(
        Error::invalid("x", ValidationError::UnsupportedHookType),
        Error::UnsupportedHookType { name: "x".to_string() }
    );
    assert_eq!(
        Error::invalid("pre-push", ValidationError::ConflictingContentSource),
        Error::ConflictingContentSource { name: "pre-push".to_string() }
    );
    assert_eq!(
        Error::invalid("pre-push", ValidationError::MissingContentSource),
        Error::MissingContentSource { name: "pre-push".to_string() }
    );
}

fn failure(effect: Effect) -> (String, String, String) {
    match effect.failure("disk full") {
        Error::FilesystemError { operation, path, reason } => (operation, path, reason),
        other => panic!("expected a file system error, found {other:?}"),
    }
}

fn parts(operation: &str, path: &str) -> (String, String, String) {
    (operation.to_string(), path.to_string(), "disk full".to_string())
}

#[test]
fn a_failed_effect_names_its_operation_and_its_path() {
    let hook = "update".to_string();
    let path = "/h/update".to_string();
    assert_eq!(failure(Effect::CreateDir { path: "/h".to_string() }), parts("creating .git/hooks directory", "/h"));
    assert_eq!(
        failure(Effect::CreateFile { hook: hook.clone(), path: path.clone() }),
        parts("creating hook file", "/h/update")
    );
    assert_eq!(
        failure(Effect::WriteFile { hook: hook.clone(), path: path.clone(), text: "x".to_string() }),
        parts("writing hook file", "/h/update")
    );
    assert_eq!(
        failure(Effect::MakeExecutable { hook: hook.clone(), path: path.clone(), mode: 0o755 }),
        parts("marking hook file executable", "/h/update")
    );
    assert_eq!(
        failure(Effect::RemoveFile { hook: hook.clone(), path: path.clone() }),
        parts("removing hook file", "/h/update")
    );
    assert_eq!(failure(Effect::RemoveDir { path: "/h".to_string() }), parts("removing directory", "/h"));
    assert_eq!(failure(Effect::Print { line: "hello".to_string() }), parts("printing", ""));
}
