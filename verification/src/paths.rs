//! Paths, held as strings: where the hook directory lies, where a script is
//! looked for, and how the repository root is found.
//!
//! The standard library decides what joining two paths, taking a parent and
//! being relative mean on the platform the library is built for. Each is a
//! function of its arguments alone; it is named here rather than written
//! out, and the functions of this module are stated over those names.

use crate::text::opt_view;
use vstd::prelude::*;
use vstd::string::*;

verus! {

/// What `std::path::Path::join` gives for `base` and `child`.
pub uninterp spec fn joined_path(base: Seq<char>, child: Seq<char>) -> Seq<char>;

/// What `std::path::Path::parent` gives for `path`.
pub uninterp spec fn parent_path(path: Seq<char>) -> Option<Seq<char>>;

/// What `std::path::Path::is_relative` gives for `path`.
pub uninterp spec fn relative_path(path: Seq<char>) -> bool;

/// Calls `std::path::Path::join` on `base` with `child`. Trusted: the result
/// is the path that `join` builds, and it is a function of the two paths
/// alone. Both arguments are valid UTF-8, so the conversion back loses nothing.
#[verifier::external_body]
fn join_path(base: &str, child: &str) -> (r: String)
    ensures
        r@ == joined_path(base@, child@),
{
    std::path::Path::new(base).join(child).to_string_lossy().into_owned()
}

/// Calls `std::path::Path::parent` on `path`. Trusted: the result is what
/// `parent` returns, `None` where the path has no parent, and it is a
/// function of the path alone.
#[verifier::external_body]
fn parent_of(path: &str) -> (r: Option<String>)
    ensures
        opt_view(r) == parent_path(path@),
{
    match std::path::Path::new(path).parent() {
        Some(parent) => Some(parent.to_string_lossy().into_owned()),
        None => None,
    }
}

/// Calls `std::path::Path::is_relative` on `path`. Trusted: the result is
/// what `is_relative` returns, and it is a function of the path alone.
#[verifier::external_body]
fn is_relative(path: &str) -> (r: bool)
    ensures
        r == relative_path(path@),
{
    std::path::Path::new(path).is_relative()
}

/// The metadata directory of the repository rooted at `dir`.
pub open spec fn metadata_dir_of(dir: Seq<char>) -> Seq<char> {
    joined_path(dir, ".git"@)
}

/// The hook directory of the repository rooted at `root`.
pub open spec fn hooks_dir_of(root: Seq<char>) -> Seq<char> {
    joined_path(metadata_dir_of(root), "hooks"@)
}

/// Where the hook `name` is installed below `hooks_dir`.
pub open spec fn hook_path_of(hooks_dir: Seq<char>, name: Seq<char>) -> Seq<char> {
    joined_path(hooks_dir, name)
}

/// Where the script `script` is looked for: a relative path is taken from
/// the directory that holds the configuration file, if that has one; any
/// other path stands as it is.
pub open spec fn resolved_script_path(script: Seq<char>, config_path: Seq<char>) -> Seq<char> {
    if relative_path(script) {
        match parent_path(config_path) {
            Some(dir) => joined_path(dir, script),
            None => script,
        }
    } else {
        script
    }
}

/// The path whose being a directory makes `dir` a repository root.
pub fn metadata_dir(dir: &str) -> (path: String)
    ensures
        path@ == metadata_dir_of(dir@),
{
    join_path(dir, ".git")
}

/// The hook directory of the repository rooted at `root`.
pub fn hooks_dir(root: &str) -> (path: String)
    ensures
        path@ == hooks_dir_of(root@),
{
    let metadata = join_path(root, ".git");
    join_path(metadata.as_str(), "hooks")
}

/// Where the hook `name` is installed below `hooks_dir`.
pub fn hook_path(hooks_dir: &str, name: &str) -> (path: String)
    ensures
        path@ == hook_path_of(hooks_dir@, name@),
{
    join_path(hooks_dir, name)
}

/// The directory that a script is taken from: the directory of the
/// configuration file for a relative script, none for any other.
pub fn script_base(relative: bool, config_dir: Option<String>) -> (base: Option<String>)
    ensures
        opt_view(base) == if relative {
            opt_view(config_dir)
        } else {
            None
        },
{
    if relative {
        config_dir
    } else {
        None
    }
}

/// Where the script `script` of a hook is looked for, given the path of the
/// configuration file that declares it.
pub fn resolve_script_path(script: &str, config_path: &str) -> (path: String)
    ensures
        path@ == resolved_script_path(script@, config_path@),
{
    match script_base(is_relative(script), parent_of(config_path)) {
        Some(dir) => join_path(dir.as_str(), script),
        None => String::from_str(script),
    }
}

/// One step of the search for the repository root.
#[derive(Debug, PartialEq, Eq)]
pub enum RootSearch {
    /// The directory is the repository root.
    Found { root: String },
    /// The directory is no root; the search goes on in its parent.
    Ascend { dir: String },
    /// The directory is no root and has no parent: there is no repository.
    NotFound,
}

pub enum RootSearchView {
    Found { root: Seq<char> },
    Ascend { dir: Seq<char> },
    NotFound,
}

impl View for RootSearch {
    type V = RootSearchView;

    open spec fn view(&self) -> RootSearchView {
        match self {
            RootSearch::Found { root } => RootSearchView::Found { root: root@ },
            RootSearch::Ascend { dir } => RootSearchView::Ascend { dir: dir@ },
            RootSearch::NotFound => RootSearchView::NotFound,
        }
    }
}

/// How the search goes on from `dir`, given whether its metadata directory
/// exists.
pub open spec fn root_search_step(dir: Seq<char>, is_repository: bool) -> RootSearchView {
    if is_repository {
        RootSearchView::Found { root: dir }
    } else {
        match parent_path(dir) {
            Some(parent) => RootSearchView::Ascend { dir: parent },
            None => RootSearchView::NotFound,
        }
    }
}

/// How the search goes on from `dir`, given whether it is a repository and
/// what its parent is: a repository is the root; any other directory sends
/// the search to its parent, and ends it without a root where it has none.
pub fn root_step(dir: String, is_repository: bool, parent: Option<String>) -> (step: RootSearch)
    ensures
        step@ == if is_repository {
            RootSearchView::Found { root: dir@ }
        } else {
            match parent {
                Some(up) => RootSearchView::Ascend { dir: up@ },
                None => RootSearchView::NotFound,
            }
        },
{
    if is_repository {
        RootSearch::Found { root: dir }
    } else {
        match parent {
            Some(up) => RootSearch::Ascend { dir: up },
            None => RootSearch::NotFound,
        }
    }
}

/// One step of the climb towards the repository root. The caller looks
/// whether `metadata_dir(dir)` is a directory and says so in
/// `is_repository`; the first directory for which it is one is the root, and
/// the climb ends without a root at a directory that has no parent.
pub fn find_git_root(dir: String, is_repository: bool) -> (step: RootSearch)
    ensures
        step@ == root_search_step(dir@, is_repository),
{
    let parent = parent_of(dir.as_str());
    root_step(dir, is_repository, parent)
}

} // verus!
