//! The rules a hook declaration must meet before it is installed.

use crate::config::{ContentSource, ContentSourceView, HookDeclaration, HookDeclarationView};
use crate::error::ValidationError;
use crate::events::{is_valid_hook, is_valid_hook_name};
use vstd::prelude::*;

verus! {

/// The outcome of validating the hook `name`: the name is checked first,
/// then that exactly one content source is present.
pub open spec fn validation(name: Seq<char>, hook: HookDeclarationView) -> Result<
    (),
    ValidationError,
> {
    if !is_valid_hook_name(name) {
        Err(ValidationError::UnsupportedHookType)
    } else if hook.run is Some && hook.script is Some {
        Err(ValidationError::ConflictingContentSource)
    } else if hook.run is None && hook.script is None {
        Err(ValidationError::MissingContentSource)
    } else {
        Ok(())
    }
}

/// The content source of a declaration that names exactly one.
pub open spec fn source_of(hook: HookDeclarationView) -> Option<ContentSourceView> {
    match (hook.run, hook.script) {
        (Some(command), None) => Some(ContentSourceView::Inline(command)),
        (None, Some(path)) => Some(ContentSourceView::ScriptFile(path)),
        _ => None,
    }
}

/// Checks the hook `hook_name` against the rules, in order: a name outside
/// the recognized set, then two content sources, then none.
pub fn validate(hook_name: &str, declaration: &HookDeclaration) -> (r: Result<
    (),
    ValidationError,
>)
    ensures
        r == validation(hook_name@, declaration@),
{
    if !is_valid_hook(hook_name) {
        Err(ValidationError::UnsupportedHookType)
    } else if declaration.run.is_some() && declaration.script.is_some() {
        Err(ValidationError::ConflictingContentSource)
    } else if declaration.run.is_none() && declaration.script.is_none() {
        Err(ValidationError::MissingContentSource)
    } else {
        Ok(())
    }
}

impl HookDeclaration {
    /// The content source, where exactly one is declared.
    pub fn content_source(&self) -> (r: Option<ContentSource>)
        ensures
            crate::validate::source_view(r) == source_of(self@),
    {
        match (&self.run, &self.script) {
            (Some(command), None) => Some(ContentSource::Inline(command.clone())),
            (None, Some(path)) => Some(ContentSource::ScriptFile(path.clone())),
            _ => None,
        }
    }
}

/// The view of an optional content source.
pub open spec fn source_view(s: Option<ContentSource>) -> Option<ContentSourceView> {
    match s {
        Some(c) => Some(c@),
        None => None,
    }
}

/// A declaration passes validation only if it names exactly one content
/// source, and whatever its name a declaration with two sources or with none
/// is refused.
pub proof fn lemma_valid_has_one_source(name: Seq<char>, hook: HookDeclarationView)
    ensures
        validation(name, hook) is Ok ==> source_of(hook) is Some,
        source_of(hook) is None ==> validation(name, hook) is Err,
        validation(name, hook) is Ok <==> is_valid_hook_name(name) && source_of(hook) is Some,
{
}

} // verus!
