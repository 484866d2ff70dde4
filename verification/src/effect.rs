//! What a command asks its caller to do, and what that does to the hook
//! directory.
//!
//! A command is planned as a list of effects; the caller performs them in
//! order and stops at the first that fails. The hook directory is modelled as
//! a map from hook name to the text of the file installed under that name.

use crate::error::{Error, ErrorView};
use vstd::prelude::*;
use vstd::string::*;

verus! {

/// One step for the caller to perform.
#[derive(Debug, PartialEq, Eq)]
pub enum Effect {
    /// Create the directory `path` and the directories above it.
    CreateDir { path: String },
    /// Create the file of the hook `hook` at `path`, or empty it.
    CreateFile { hook: String, path: String },
    /// Make `text` the contents of the file of the hook `hook` at `path`.
    WriteFile { hook: String, path: String, text: String },
    /// Give the file of the hook `hook` at `path` the permission bits `mode`,
    /// where the platform has permission bits.
    MakeExecutable { hook: String, path: String, mode: u32 },
    /// Remove the file of the hook `hook` at `path`.
    RemoveFile { hook: String, path: String },
    /// Remove the directory `path` with all that it holds.
    RemoveDir { path: String },
    /// Show `line` to the operator.
    Print { line: String },
}

pub enum EffectView {
    CreateDir { path: Seq<char> },
    CreateFile { hook: Seq<char>, path: Seq<char> },
    WriteFile { hook: Seq<char>, path: Seq<char>, text: Seq<char> },
    MakeExecutable { hook: Seq<char>, path: Seq<char>, mode: u32 },
    RemoveFile { hook: Seq<char>, path: Seq<char> },
    RemoveDir { path: Seq<char> },
    Print { line: Seq<char> },
}

impl View for Effect {
    type V = EffectView;

    open spec fn view(&self) -> EffectView {
        match self {
            Effect::CreateDir { path } => EffectView::CreateDir { path: path@ },
            Effect::CreateFile { hook, path } => EffectView::CreateFile {
                hook: hook@,
                path: path@,
            },
            Effect::WriteFile { hook, path, text } => EffectView::WriteFile {
                hook: hook@,
                path: path@,
                text: text@,
            },
            Effect::MakeExecutable { hook, path, mode } => EffectView::MakeExecutable {
                hook: hook@,
                path: path@,
                mode: *mode,
            },
            Effect::RemoveFile { hook, path } => EffectView::RemoveFile {
                hook: hook@,
                path: path@,
            },
            Effect::RemoveDir { path } => EffectView::RemoveDir { path: path@ },
            Effect::Print { line } => EffectView::Print { line: line@ },
        }
    }
}

/// The permission bits of an installed hook: read and execute for all,
/// write for the owner.
pub const EXECUTABLE_MODE: u32 = 0o755;

/// The hook directory: the text installed under each hook name.
pub type HookDir = Map<Seq<char>, Seq<char>>;

impl EffectView {
    /// The hook directory after this effect.
    pub open spec fn apply(self, hooks: HookDir) -> HookDir {
        match self {
            EffectView::CreateFile { hook, path } => hooks.insert(hook, Seq::empty()),
            EffectView::WriteFile { hook, path, text } => hooks.insert(hook, text),
            EffectView::RemoveFile { hook, path } => hooks.remove(hook),
            EffectView::RemoveDir { path } => Map::empty(),
            EffectView::CreateDir { path } => hooks,
            EffectView::MakeExecutable { hook, path, mode } => hooks,
            EffectView::Print { line } => hooks,
        }
    }

    /// What the operation is called in a report of its failure.
    pub open spec fn operation(self) -> Seq<char> {
        match self {
            EffectView::CreateDir { path } => "creating .git/hooks directory"@,
            EffectView::CreateFile { hook, path } => "creating hook file"@,
            EffectView::WriteFile { hook, path, text } => "writing hook file"@,
            EffectView::MakeExecutable { hook, path, mode } => "marking hook file executable"@,
            EffectView::RemoveFile { hook, path } => "removing hook file"@,
            EffectView::RemoveDir { path } => "removing directory"@,
            EffectView::Print { line } => "printing"@,
        }
    }

    /// The path that the effect works on; a printed line has none.
    pub open spec fn target(self) -> Seq<char> {
        match self {
            EffectView::CreateDir { path } => path,
            EffectView::CreateFile { hook, path } => path,
            EffectView::WriteFile { hook, path, text } => path,
            EffectView::MakeExecutable { hook, path, mode } => path,
            EffectView::RemoveFile { hook, path } => path,
            EffectView::RemoveDir { path } => path,
            EffectView::Print { line } => Seq::empty(),
        }
    }
}

/// The hook directory after the effects, performed in order.
pub open spec fn apply_all(effects: Seq<EffectView>, hooks: HookDir) -> HookDir
    decreases effects.len(),
{
    if effects.len() == 0 {
        hooks
    } else {
        apply_all(effects.drop_first(), effects[0].apply(hooks))
    }
}

/// The lines that the effects show, in order.
pub open spec fn printed(effects: Seq<EffectView>) -> Seq<Seq<char>>
    decreases effects.len(),
{
    if effects.len() == 0 {
        Seq::empty()
    } else {
        match effects[0] {
            EffectView::Print { line } => seq![line] + printed(effects.drop_first()),
            _ => printed(effects.drop_first()),
        }
    }
}

/// The views of a sequence of effects, in order.
pub open spec fn effect_views(effects: Seq<Effect>) -> Seq<EffectView> {
    effects.map_values(|e: Effect| e@)
}

/// Performing `first` and then `second` is performing their concatenation.
pub proof fn lemma_apply_all_concat(first: Seq<EffectView>, second: Seq<EffectView>, hooks: HookDir)
    ensures
        apply_all(first + second, hooks) == apply_all(second, apply_all(first, hooks)),
    decreases first.len(),
{
    if first.len() == 0 {
        assert(first + second =~= second);
    } else {
        assert((first + second).drop_first() =~= first.drop_first() + second);
        lemma_apply_all_concat(first.drop_first(), second, first[0].apply(hooks));
    }
}

/// The lines of a concatenation are the lines of its parts, in a row.
pub proof fn lemma_printed_concat(first: Seq<EffectView>, second: Seq<EffectView>)
    ensures
        printed(first + second) == printed(first) + printed(second),
    decreases first.len(),
{
    if first.len() == 0 {
        assert(first + second =~= second);
        assert(printed(first) + printed(second) =~= printed(second));
    } else {
        assert((first + second).drop_first() =~= first.drop_first() + second);
        lemma_printed_concat(first.drop_first(), second);
        assert(printed(first + second) =~= printed(first) + printed(second));
    }
}

/// Adds `effect` at the end of `effects`.
pub(crate) fn push_effect(effects: &mut Vec<Effect>, effect: Effect)
    ensures
        effect_views(final(effects)@) == effect_views(old(effects)@).push(effect@),
{
    effects.push(effect);
    assert(effect_views(effects@) =~= effect_views(old(effects)@).push(effect@));
}

/// Adds `line` at the end of `effects` as a line to show.
pub(crate) fn push_line(effects: &mut Vec<Effect>, line: String)
    ensures
        effect_views(final(effects)@) == effect_views(old(effects)@).push(
            EffectView::Print { line: line@ },
        ),
{
    push_effect(effects, Effect::Print { line });
}

/// Adds `more` at the end of `effects`.
pub(crate) fn append_effects(effects: &mut Vec<Effect>, more: Vec<Effect>)
    ensures
        effect_views(final(effects)@) == effect_views(old(effects)@) + effect_views(more@),
{
    let mut rest = more;
    effects.append(&mut rest);
    assert(effect_views(effects@) =~= effect_views(old(effects)@) + effect_views(more@));
}

impl Effect {
    /// The error to report when this effect fails for the reason `reason`.
    pub fn failure(&self, reason: &str) -> (e: Error)
        ensures
            e@ == (ErrorView::FilesystemError {
                operation: self@.operation(),
                path: self@.target(),
                reason: reason@,
            }),
    {
        let reason = String::from_str(reason);
        match self {
            Effect::CreateDir { path } => Error::FilesystemError {
                operation: String::from_str("creating .git/hooks directory"),
                path: path.clone(),
                reason,
            },
            Effect::CreateFile { hook, path } => Error::FilesystemError {
                operation: String::from_str("creating hook file"),
                path: path.clone(),
                reason,
            },
            Effect::WriteFile { hook, path, text } => Error::FilesystemError {
                operation: String::from_str("writing hook file"),
                path: path.clone(),
                reason,
            },
            Effect::MakeExecutable { hook, path, mode } => Error::FilesystemError {
                operation: String::from_str("marking hook file executable"),
                path: path.clone(),
                reason,
            },
            Effect::RemoveFile { hook, path } => Error::FilesystemError {
                operation: String::from_str("removing hook file"),
                path: path.clone(),
                reason,
            },
            Effect::RemoveDir { path } => Error::FilesystemError {
                operation: String::from_str("removing directory"),
                path: path.clone(),
                reason,
            },
            Effect::Print { line } => Error::FilesystemError {
                operation: String::from_str("printing"),
                path: String::new(),
                reason,
            },
        }
    }
}

/// What a command comes to: the effects to perform, in order, and the error
/// that ends the command once they are performed, if there is one.
#[derive(Debug, PartialEq, Eq)]
pub struct Report {
    pub effects: Vec<Effect>,
    pub failure: Option<Error>,
}

pub struct ReportView {
    pub effects: Seq<EffectView>,
    pub failure: Option<ErrorView>,
}

/// The view of an optional error.
pub open spec fn failure_view(e: Option<Error>) -> Option<ErrorView> {
    match e {
        Some(e) => Some(e@),
        None => None,
    }
}

impl View for Report {
    type V = ReportView;

    open spec fn view(&self) -> ReportView {
        ReportView { effects: effect_views(self.effects@), failure: failure_view(self.failure) }
    }
}

} // verus!
