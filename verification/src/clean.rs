//! Removing the installed hooks.

use crate::config::{Configuration, HookEntryView};
use crate::effect::{effect_views, push_effect, push_line, Effect, EffectView};
use crate::paths::{hook_path, hook_path_of};
use crate::snapshot::{probe_views, push_probe, FileStateView, Probe, ProbeView, Snapshot};
use crate::text::join3;
use vstd::prelude::*;
use vstd::string::*;

verus! {

/// The line shown when the hook `name` has been removed.
pub open spec fn removed_notice(name: Seq<char>) -> Seq<char> {
    "removed hook `"@ + name + "`"@
}

/// The line shown when the hook `name` is not installed.
pub open spec fn skipped_notice(name: Seq<char>) -> Seq<char> {
    "no hook `"@ + name + "` to remove, skipping"@
}

/// What removing the hook `name` comes to: its file is removed and that is
/// reported, or it is reported that there is nothing to remove.
pub open spec fn removal(
    name: Seq<char>,
    hooks_dir: Seq<char>,
    seen: Map<Seq<char>, FileStateView>,
) -> Seq<EffectView> {
    let path = hook_path_of(hooks_dir, name);
    if seen.contains_key(path) {
        seq![
            EffectView::RemoveFile { hook: name, path },
            EffectView::Print { line: removed_notice(name) },
        ]
    } else {
        seq![EffectView::Print { line: skipped_notice(name) }]
    }
}

/// What removing the hooks of `entries`, in order, comes to.
pub open spec fn removals(
    entries: Seq<HookEntryView>,
    hooks_dir: Seq<char>,
    seen: Map<Seq<char>, FileStateView>,
) -> Seq<EffectView>
    decreases entries.len(),
{
    if entries.len() == 0 {
        Seq::empty()
    } else {
        removals(entries.drop_last(), hooks_dir, seen) + removal(
            entries.last().name,
            hooks_dir,
            seen,
        )
    }
}

/// What a clean comes to: with `all`, the whole hook directory is removed in
/// one step, whatever is declared; without it, the declared hooks are
/// removed one by one.
pub open spec fn clean_plan(
    entries: Seq<HookEntryView>,
    all: bool,
    hooks_dir: Seq<char>,
    seen: Map<Seq<char>, FileStateView>,
) -> Seq<EffectView> {
    if all {
        seq![EffectView::RemoveDir { path: hooks_dir }]
    } else {
        removals(entries, hooks_dir, seen)
    }
}

/// The paths that a clean asks about: with `all` none, without it the place
/// of each declared hook, in order.
pub open spec fn clean_probes_of(entries: Seq<HookEntryView>, all: bool, hooks_dir: Seq<char>) -> Seq<
    ProbeView,
> {
    if all {
        Seq::empty()
    } else {
        entries.map_values(
            |e: HookEntryView| ProbeView { path: hook_path_of(hooks_dir, e.name), read: false },
        )
    }
}

/// The paths to look at before a clean is planned.
pub fn clean_probes(cfg: &Configuration, all: bool, hooks_dir: &str) -> (probes: Vec<Probe>)
    ensures
        probe_views(probes@) == clean_probes_of(cfg@, all, hooks_dir@),
{
    let mut probes: Vec<Probe> = Vec::new();
    if all {
        assert(probe_views(probes@) =~= clean_probes_of(cfg@, all, hooks_dir@));
        return probes;
    }
    let ghost wanted = clean_probes_of(cfg@, all, hooks_dir@);
    assert(probe_views(probes@) =~= wanted.take(0));
    let mut i: usize = 0;
    while i < cfg.len()
        invariant
            i <= cfg@.len(),
            !all,
            wanted == clean_probes_of(cfg@, all, hooks_dir@),
            probe_views(probes@) == wanted.take(i as int),
        decreases cfg@.len() - i,
    {
        push_probe(&mut probes, hook_path(hooks_dir, cfg.entry(i).name.as_str()), false);
        assert(probe_views(probes@) =~= wanted.take(i + 1));
        i = i + 1;
    }
    assert(wanted.take(i as int) =~= wanted);
    probes
}

/// Plans a clean. The declarations are not validated: only the names are
/// used.
pub fn clean_hooks(cfg: &Configuration, all: bool, hooks_dir: &str, seen: &Snapshot) -> (effects:
    Vec<Effect>)
    ensures
        effect_views(effects@) == clean_plan(cfg@, all, hooks_dir@, seen@),
{
    let mut effects: Vec<Effect> = Vec::new();
    if all {
        push_effect(&mut effects, Effect::RemoveDir { path: String::from_str(hooks_dir) });
        assert(effect_views(effects@) =~= clean_plan(cfg@, all, hooks_dir@, seen@));
        return effects;
    }
    assert(effect_views(effects@) =~= removals(cfg@.take(0), hooks_dir@, seen@));
    let mut i: usize = 0;
    while i < cfg.len()
        invariant
            i <= cfg@.len(),
            effect_views(effects@) == removals(cfg@.take(i as int), hooks_dir@, seen@),
        decreases cfg@.len() - i,
    {
        let ghost done = effect_views(effects@);
        let entry = cfg.entry(i);
        let name = entry.name.as_str();
        let path = hook_path(hooks_dir, name);
        if seen.is_present(path.as_str()) {
            push_effect(&mut effects, Effect::RemoveFile { hook: entry.name.clone(), path });
            push_line(&mut effects, join3("removed hook `", name, "`"));
        } else {
            push_line(&mut effects, join3("no hook `", name, "` to remove, skipping"));
        }
        assert(cfg@.take(i + 1).drop_last() =~= cfg@.take(i as int));
        assert(effect_views(effects@) =~= done + removal(name@, hooks_dir@, seen@));
        i = i + 1;
    }
    assert(cfg@.take(i as int) =~= cfg@);
    effects
}

} // verus!
