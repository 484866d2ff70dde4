//! What holds of the commands whatever the configuration and whatever was
//! seen: the general properties of the library, each proved from the
//! definitions that the contracts of the commands use.

use crate::builder::{
    build_plan, fill, install, install_all, lemma_install_all_push, lemma_install_all_stops,
    open_dest, script_text, BuildEnv,
};
use crate::clean::{clean_plan, removal, removals};
use crate::cli::{Command, OptView};
use crate::config::{declares, names_of, HookDeclarationView, HookEntryView};
use crate::effect::{
    apply_all, lemma_apply_all_concat, lemma_printed_concat, printed, EffectView, HookDir,
    ReportView,
};
use crate::error::{ErrorView, ValidationError};
use crate::events::{is_valid_hook_name, valid_hook_names};
use crate::list::{in_order, lemma_in_order, listing, listing_item, name_order};
use crate::paths::{hook_path_of, resolved_script_path};
use crate::session::{command_plan, prints, run_plan, LoadedView, ObservedView};
use crate::snapshot::FileStateView;
use crate::stale::{is_stale, sample_suffix, stale_names, stale_warnings};
use crate::validate::{source_of, validation};
use vstd::prelude::*;
use vstd::relations::sorted_by;

verus! {

/// A declaration with both an inline command and a script path is refused,
/// and so is one with neither, whatever the name; a hook that is refused
/// has nothing done for it, not even its file created.
pub proof fn lemma_ill_formed_rejected(entry: HookEntryView, env: BuildEnv)
    ensures
        entry.hook.run is Some && entry.hook.script is Some ==> validation(entry.name, entry.hook)
            is Err,
        entry.hook.run is None && entry.hook.script is None ==> validation(entry.name, entry.hook)
            is Err,
        is_valid_hook_name(entry.name) && entry.hook.run is Some && entry.hook.script is Some
            ==> validation(entry.name, entry.hook) == Err::<(), ValidationError>(
            ValidationError::ConflictingContentSource,
        ),
        is_valid_hook_name(entry.name) && entry.hook.run is None && entry.hook.script is None
            ==> validation(entry.name, entry.hook) == Err::<(), ValidationError>(
            ValidationError::MissingContentSource,
        ),
        validation(entry.name, entry.hook) matches Err(kind) ==> install(entry, env) == (
            ReportView {
                effects: Seq::empty(),
                failure: Some(ErrorView::invalid(entry.name, kind)),
            }),
{
}

/// A build stops at the first hook that is refused: it ends with the error
/// of that hook, and does what the build of the hooks before it does and
/// nothing more. So the hooks before it stay installed, and neither the
/// refused hook nor a later one has a file written.
pub proof fn lemma_build_stops_at_refused(entries: Seq<HookEntryView>, n: int, env: BuildEnv)
    requires
        0 <= n < entries.len(),
        install_all(entries.take(n), env).failure is None,
        validation(entries[n].name, entries[n].hook) is Err,
    ensures
        build_plan(entries, env).failure == Some(
            ErrorView::invalid(entries[n].name, validation(entries[n].name, entries[n].hook)->Err_0),
        ),
        build_plan(entries, env).effects == build_plan(entries.take(n), env).effects,
{
    lemma_install_all_push(entries.take(n), entries[n], env);
    assert(entries.take(n).push(entries[n]) =~= entries.take(n + 1));
    lemma_install_all_stops(entries, n + 1, env);
    assert(install_all(entries, env).effects =~= install_all(entries.take(n), env).effects);
}

/// A name is refused as unsupported exactly when it is not one of the
/// listed events, whatever is declared under it.
pub proof fn lemma_unrecognized_rejected(name: Seq<char>, hook: HookDeclarationView)
    ensures
        validation(name, hook) == Err::<(), ValidationError>(
            ValidationError::UnsupportedHookType,
        ) <==> !valid_hook_names().contains(name),
{
}

/// Listing shows exactly the declared names, one line for each, in
/// lexicographic order.
pub proof fn lemma_listing_shows_names_in_order(names: Seq<Seq<char>>, config_path: Seq<char>)
    requires
        names.len() > 0,
    ensures
        listing(names, config_path).len() == names.len(),
        forall|i: int|
            0 <= i < names.len() ==> #[trigger] listing(names, config_path)[i] == listing_item(
                in_order(names)[i],
            ),
        sorted_by(in_order(names), name_order()),
        in_order(names).to_multiset() == names.to_multiset(),
{
    lemma_in_order(names);
}

/// Two configurations that declare the same names, in whatever order, are
/// listed alike.
pub proof fn lemma_listing_ignores_order(
    first: Seq<Seq<char>>,
    second: Seq<Seq<char>>,
    config_path: Seq<char>,
)
    requires
        first.to_multiset() == second.to_multiset(),
    ensures
        listing(first, config_path) == listing(second, config_path),
{
    lemma_in_order(first);
    lemma_in_order(second);
    first.to_multiset_ensures();
    second.to_multiset_ensures();
}

/// A file of the hook directory is reported as stale exactly when it is no
/// sample file, is named after a recognized event and is not declared. So a
/// sample file is never reported, nor a file with an unrecognized name, nor
/// a declared hook.
pub proof fn lemma_stale_exactly(
    installed: Seq<Seq<char>>,
    entries: Seq<HookEntryView>,
    name: Seq<char>,
)
    ensures
        stale_names(installed, entries).contains(name) <==> installed.contains(name) && is_stale(
            name,
            entries,
        ),
        sample_suffix().is_suffix_of(name) ==> !stale_names(installed, entries).contains(name),
        !is_valid_hook_name(name) ==> !stale_names(installed, entries).contains(name),
        declares(entries, name) ==> !stale_names(installed, entries).contains(name),
{
    let pred = |n: Seq<char>| is_stale(n, entries);
    let stale = installed.filter(pred);
    if stale.contains(name) {
        let i = choose|i: int| 0 <= i < stale.len() && stale[i] == name;
        installed.lemma_filter_pred(pred, i);
        installed.lemma_filter_contains_rev(pred, name);
    }
    if installed.contains(name) && is_stale(name, entries) {
        let i = choose|i: int| 0 <= i < installed.len() && installed[i] == name;
        installed.lemma_filter_contains(pred, i);
    }
}

/// The names of all but the last entry are names of the entries.
proof fn lemma_declares_drop_last(entries: Seq<HookEntryView>, name: Seq<char>)
    requires
        entries.len() > 0,
        !declares(entries, name),
    ensures
        !declares(entries.drop_last(), name),
        entries.last().name != name,
{
    let names = names_of(entries);
    assert(names[entries.len() - 1] == entries.last().name);
    if declares(entries.drop_last(), name) {
        let shorter = names_of(entries.drop_last());
        let i = choose|i: int| 0 <= i < shorter.len() && shorter[i] == name;
        assert(names[i] == name);
    }
}

/// Without `all`, a clean leaves every hook that is not declared as it was:
/// a file of the hook directory whose name is not a key of the
/// configuration is neither removed nor changed.
pub proof fn lemma_clean_keeps_undeclared(
    entries: Seq<HookEntryView>,
    hooks_dir: Seq<char>,
    seen: Map<Seq<char>, FileStateView>,
    hooks: HookDir,
    name: Seq<char>,
)
    requires
        !declares(entries, name),
    ensures
        apply_all(clean_plan(entries, false, hooks_dir, seen), hooks).contains_key(name)
            == hooks.contains_key(name),
        hooks.contains_key(name) ==> apply_all(
            clean_plan(entries, false, hooks_dir, seen),
            hooks,
        )[name] == hooks[name],
    decreases entries.len(),
{
    if entries.len() > 0 {
        let before = removals(entries.drop_last(), hooks_dir, seen);
        let last = removal(entries.last().name, hooks_dir, seen);
        lemma_declares_drop_last(entries, name);
        lemma_clean_keeps_undeclared(entries.drop_last(), hooks_dir, seen, hooks, name);
        lemma_apply_all_concat(before, last, hooks);
        let mid = apply_all(before, hooks);
        reveal_with_fuel(apply_all, 3);
        assert(apply_all(last, mid).contains_key(name) == mid.contains_key(name));
        assert(mid.contains_key(name) ==> apply_all(last, mid)[name] == mid[name]);
    }
}

/// Without `all`, every file that a clean removes is the file of a
/// declared hook, at its place in the hook directory, and was seen there.
pub proof fn lemma_clean_removes_declared_only(
    entries: Seq<HookEntryView>,
    hooks_dir: Seq<char>,
    seen: Map<Seq<char>, FileStateView>,
    i: int,
)
    requires
        0 <= i < clean_plan(entries, false, hooks_dir, seen).len(),
    ensures
        !(clean_plan(entries, false, hooks_dir, seen)[i] is RemoveDir),
        clean_plan(entries, false, hooks_dir, seen)[i] matches EffectView::RemoveFile {
            hook,
            path,
        } ==> declares(entries, hook) && path == hook_path_of(hooks_dir, hook)
            && seen.contains_key(path),
    decreases entries.len(),
{
    if entries.len() > 0 {
        let before = removals(entries.drop_last(), hooks_dir, seen);
        let names = names_of(entries);
        if i < before.len() {
            lemma_clean_removes_declared_only(entries.drop_last(), hooks_dir, seen, i);
            if let EffectView::RemoveFile { hook, path } = before[i] {
                let shorter = names_of(entries.drop_last());
                let k = choose|k: int| 0 <= k < shorter.len() && shorter[k] == hook;
                assert(names[k] == hook);
            }
        } else {
            assert(names[entries.len() - 1] == entries.last().name);
        }
    }
}

/// With `all`, a clean is one step that removes the hook directory,
/// whatever is declared and whatever was seen.
pub proof fn lemma_clean_all_ignores_configuration(
    entries: Seq<HookEntryView>,
    hooks_dir: Seq<char>,
    seen: Map<Seq<char>, FileStateView>,
    hooks: HookDir,
)
    ensures
        clean_plan(entries, true, hooks_dir, seen) == seq![
            EffectView::RemoveDir { path: hooks_dir },
        ],
        apply_all(clean_plan(entries, true, hooks_dir, seen), hooks) == Map::<
            Seq<char>,
            Seq<char>,
        >::empty(),
{
    reveal_with_fuel(apply_all, 2);
}

/// Whether none of `effects` removes anything.
pub open spec fn removes_nothing(effects: Seq<EffectView>) -> bool {
    forall|i: int|
        0 <= i < effects.len() ==> !((#[trigger] effects[i]) is RemoveFile) && !(effects[i]
            is RemoveDir)
}

/// Effects that remove nothing lay what they write over the hook directory:
/// the outcome is the directory as it was, with what the effects write to an
/// empty directory put on top.
proof fn lemma_writes_overlay(effects: Seq<EffectView>, hooks: HookDir)
    requires
        removes_nothing(effects),
    ensures
        apply_all(effects, hooks) == hooks.union_prefer_right(apply_all(effects, Map::empty())),
    decreases effects.len(),
{
    let nothing = Map::<Seq<char>, Seq<char>>::empty();
    if effects.len() == 0 {
        assert(hooks =~= hooks.union_prefer_right(nothing));
    } else {
        let rest = effects.drop_first();
        assert(removes_nothing(rest)) by {
            assert forall|i: int| 0 <= i < rest.len() implies !((#[trigger] rest[i])
                is RemoveFile) && !(rest[i] is RemoveDir) by {
                assert(rest[i] == effects[i + 1]);
            }
        }
        let first = effects[0];
        lemma_writes_overlay(rest, first.apply(hooks));
        lemma_writes_overlay(rest, first.apply(nothing));
        let top = apply_all(rest, nothing);
        assert(first.apply(hooks).union_prefer_right(top) =~= hooks.union_prefer_right(
            first.apply(nothing).union_prefer_right(top),
        ));
    }
}

/// Performing twice effects that remove nothing comes to performing them
/// once.
pub proof fn lemma_writes_idempotent(effects: Seq<EffectView>, hooks: HookDir)
    requires
        removes_nothing(effects),
    ensures
        apply_all(effects, apply_all(effects, hooks)) == apply_all(effects, hooks),
{
    let top = apply_all(effects, Map::empty());
    lemma_writes_overlay(effects, hooks);
    lemma_writes_overlay(effects, hooks.union_prefer_right(top));
    assert(hooks.union_prefer_right(top).union_prefer_right(top) =~= hooks.union_prefer_right(top));
}

/// A concatenation removes nothing if its parts remove nothing.
proof fn lemma_removes_nothing_concat(first: Seq<EffectView>, second: Seq<EffectView>)
    requires
        removes_nothing(first),
        removes_nothing(second),
    ensures
        removes_nothing(first + second),
{
    assert forall|i: int| 0 <= i < (first + second).len() implies !((#[trigger] (first
        + second)[i]) is RemoveFile) && !((first + second)[i] is RemoveDir) by {
        if i < first.len() {
            assert((first + second)[i] == first[i]);
        } else {
            assert((first + second)[i] == second[i - first.len()]);
        }
    }
}

/// Whether each script that `entries` refer to reads the same in the two
/// surroundings: it is absent in both, or unreadable in both for the same
/// reason, or has the same text in both.
pub open spec fn same_scripts(entries: Seq<HookEntryView>, first: BuildEnv, second: BuildEnv) -> bool {
    forall|i: int|
        0 <= i < entries.len() ==> match source_of((#[trigger] entries[i]).hook) {
            Some(crate::config::ContentSourceView::ScriptFile(script)) => {
                let from = resolved_script_path(script, first.config_path);
                script_text(entries[i].name, from, first.seen) == script_text(
                    entries[i].name,
                    from,
                    second.seen,
                )
            },
            _ => true,
        }
}

/// Whether two builds differ at most in what was seen.
pub open spec fn same_build(first: BuildEnv, second: BuildEnv) -> bool {
    &&& first.shell == second.shell
    &&& first.config_path == second.config_path
    &&& first.hooks_dir == second.hooks_dir
}

/// Whether `line` is the notice that a hook is replaced.
pub open spec fn is_overwrite_notice(line: Seq<char>) -> bool {
    exists|name: Seq<char>| line == crate::builder::overwrite_notice(name)
}

/// The lines that `effects` show, apart from the notices that a hook is
/// replaced.
pub open spec fn output(effects: Seq<EffectView>) -> Seq<Seq<char>> {
    printed(effects).filter(|line: Seq<char>| !is_overwrite_notice(line))
}

/// The output of a concatenation is the output of its parts, in a row.
proof fn lemma_output_concat(first: Seq<EffectView>, second: Seq<EffectView>)
    ensures
        output(first + second) == output(first) + output(second),
{
    lemma_printed_concat(first, second);
    Seq::filter_distributes_over_add(
        printed(first),
        printed(second),
        |line: Seq<char>| !is_overwrite_notice(line),
    );
}

/// What creating the file of a hook comes to, whether or not a file is
/// replaced: the hook is there and empty, nothing is removed, and apart from
/// the notice nothing is shown.
proof fn lemma_open_dest(name: Seq<char>, dest: Seq<char>, replaced: bool, hooks: HookDir)
    ensures
        apply_all(open_dest(name, dest, replaced), hooks) == hooks.insert(name, Seq::empty()),
        removes_nothing(open_dest(name, dest, replaced)),
        output(open_dest(name, dest, replaced)) == Seq::<Seq<char>>::empty(),
{
    reveal_with_fuel(apply_all, 3);
    reveal_with_fuel(printed, 3);
    reveal_with_fuel(Seq::filter, 3);
    let keep = |line: Seq<char>| !is_overwrite_notice(line);
    let shown = printed(open_dest(name, dest, replaced));
    if replaced {
        assert(shown =~= seq![crate::builder::overwrite_notice(name)]);
        assert(is_overwrite_notice(shown[0]));
        assert(shown.drop_last() =~= Seq::<Seq<char>>::empty());
        assert(shown.filter(keep) =~= Seq::<Seq<char>>::empty());
    } else {
        assert(shown =~= Seq::<Seq<char>>::empty());
    }
}

/// Installing one hook removes nothing, and in two builds that differ only
/// in which hooks were already installed it fails alike, does the same to
/// the hook directory and, apart from the notices, shows the same.
proof fn lemma_install_alike(entry: HookEntryView, first: BuildEnv, second: BuildEnv, hooks: HookDir)
    requires
        same_build(first, second),
        same_scripts(seq![entry], first, second),
    ensures
        removes_nothing(install(entry, first).effects),
        install(entry, first).failure == install(entry, second).failure,
        apply_all(install(entry, first).effects, hooks) == apply_all(
            install(entry, second).effects,
            hooks,
        ),
        output(install(entry, first).effects) == output(install(entry, second).effects),
{
    let name = entry.name;
    let dest = hook_path_of(first.hooks_dir, name);
    let open1 = open_dest(name, dest, first.seen.contains_key(dest));
    let open2 = open_dest(name, dest, second.seen.contains_key(dest));
    lemma_open_dest(name, dest, first.seen.contains_key(dest), hooks);
    lemma_open_dest(name, dest, second.seen.contains_key(dest), hooks);
    assert(seq![entry][0] == entry);
    if validation(name, entry.hook) is Ok {
        let text: Option<Seq<char>> = match source_of(entry.hook) {
            Some(crate::config::ContentSourceView::Inline(command)) => Some(
                crate::builder::inline_script(first.shell, command),
            ),
            Some(crate::config::ContentSourceView::ScriptFile(script)) => match script_text(
                name,
                resolved_script_path(script, first.config_path),
                first.seen,
            ) {
                Ok(text) => Some(text),
                Err(_) => None,
            },
            None => None,
        };
        if source_of(entry.hook) is Some {
            match text {
                Some(text) => {
                    let rest = fill(name, dest, text);
                    assert(install(entry, first).effects == open1 + rest);
                    assert(install(entry, second).effects == open2 + rest);
                    lemma_apply_all_concat(open1, rest, hooks);
                    lemma_apply_all_concat(open2, rest, hooks);
                    lemma_output_concat(open1, rest);
                    lemma_output_concat(open2, rest);
                    lemma_removes_nothing_concat(open1, rest);
                },
                None => {
                    assert(install(entry, first).effects == open1);
                    assert(install(entry, second).effects == open2);
                },
            }
        }
    }
}

/// A part of entries whose scripts read the same has the same property.
proof fn lemma_same_scripts_part(
    entries: Seq<HookEntryView>,
    first: BuildEnv,
    second: BuildEnv,
)
    requires
        entries.len() > 0,
        same_scripts(entries, first, second),
    ensures
        same_scripts(seq![entries[0]], first, second),
        same_scripts(entries.drop_first(), first, second),
{
    assert forall|i: int| 0 <= i < 1 implies match source_of((#[trigger] seq![entries[0]][i]).hook) {
        Some(crate::config::ContentSourceView::ScriptFile(script)) => {
            let from = resolved_script_path(script, first.config_path);
            script_text(seq![entries[0]][i].name, from, first.seen) == script_text(
                seq![entries[0]][i].name,
                from,
                second.seen,
            )
        },
        _ => true,
    } by {
        assert(seq![entries[0]][i] == entries[0]);
    }
    let rest = entries.drop_first();
    assert forall|i: int| 0 <= i < rest.len() implies match source_of((#[trigger] rest[i]).hook) {
        Some(crate::config::ContentSourceView::ScriptFile(script)) => {
            let from = resolved_script_path(script, first.config_path);
            script_text(rest[i].name, from, first.seen) == script_text(
                rest[i].name,
                from,
                second.seen,
            )
        },
        _ => true,
    } by {
        assert(rest[i] == entries[i + 1]);
    }
}

/// Installing hooks in order removes nothing, and in two builds that differ
/// only in which hooks were already installed it fails alike, does the same
/// to the hook directory and, apart from the notices, shows the same.
proof fn lemma_install_all_alike(
    entries: Seq<HookEntryView>,
    first: BuildEnv,
    second: BuildEnv,
    hooks: HookDir,
)
    requires
        same_build(first, second),
        same_scripts(entries, first, second),
    ensures
        removes_nothing(install_all(entries, first).effects),
        install_all(entries, first).failure == install_all(entries, second).failure,
        apply_all(install_all(entries, first).effects, hooks) == apply_all(
            install_all(entries, second).effects,
            hooks,
        ),
        output(install_all(entries, first).effects) == output(install_all(entries, second).effects),
    decreases entries.len(),
{
    if entries.len() > 0 {
        lemma_same_scripts_part(entries, first, second);
        lemma_install_alike(entries[0], first, second, hooks);
        let head1 = install(entries[0], first);
        let head2 = install(entries[0], second);
        if head1.failure is None {
            let mid = apply_all(head1.effects, hooks);
            lemma_install_all_alike(entries.drop_first(), first, second, mid);
            let tail1 = install_all(entries.drop_first(), first);
            let tail2 = install_all(entries.drop_first(), second);
            lemma_apply_all_concat(head1.effects, tail1.effects, hooks);
            lemma_apply_all_concat(head2.effects, tail2.effects, hooks);
            lemma_output_concat(head1.effects, tail1.effects);
            lemma_output_concat(head2.effects, tail2.effects);
            lemma_removes_nothing_concat(head1.effects, tail1.effects);
        }
    }
}

/// A build is idempotent. Take two builds of one configuration, with the
/// same interpreter and in the same places, for which each script reads the
/// same; they may differ in which hooks were installed before. Then both
/// end alike, the second leaves the hook directory exactly as the first
/// made it, and apart from the notices that a hook is replaced both show
/// the same lines.
pub proof fn lemma_build_idempotent(
    entries: Seq<HookEntryView>,
    first: BuildEnv,
    second: BuildEnv,
    hooks: HookDir,
)
    requires
        same_build(first, second),
        same_scripts(entries, first, second),
    ensures
        build_plan(entries, second).failure == build_plan(entries, first).failure,
        apply_all(
            build_plan(entries, second).effects,
            apply_all(build_plan(entries, first).effects, hooks),
        ) == apply_all(build_plan(entries, first).effects, hooks),
        output(build_plan(entries, second).effects) == output(build_plan(entries, first).effects),
{
    let head = seq![EffectView::CreateDir { path: first.hooks_dir }];
    let plan1 = build_plan(entries, first).effects;
    let plan2 = build_plan(entries, second).effects;
    let after = apply_all(plan1, hooks);
    assert(removes_nothing(head));
    assert(forall|h: HookDir| apply_all(head, h) == h) by {
        reveal_with_fuel(apply_all, 2);
    }
    lemma_install_all_alike(entries, first, second, after);
    lemma_apply_all_concat(head, install_all(entries, first).effects, after);
    lemma_apply_all_concat(head, install_all(entries, second).effects, after);
    lemma_removes_nothing_concat(head, install_all(entries, first).effects);
    lemma_writes_idempotent(plan1, hooks);
    lemma_output_concat(head, install_all(entries, first).effects);
    lemma_output_concat(head, install_all(entries, second).effects);
}

/// Showing lines changes nothing in the hook directory.
proof fn lemma_prints_change_nothing(lines: Seq<Seq<char>>, hooks: HookDir)
    ensures
        apply_all(prints(lines), hooks) == hooks,
        printed(prints(lines)) == lines,
    decreases lines.len(),
{
    if lines.len() > 0 {
        assert(prints(lines).drop_first() =~= prints(lines.drop_first()));
        lemma_prints_change_nothing(lines.drop_first(), hooks);
        assert(printed(prints(lines)) =~= lines);
    } else {
        assert(printed(prints(lines)) =~= lines);
    }
}

/// Listing reports the declared names whatever the state of the
/// repository: after a build as before it, and outside a repository too, the
/// invocation ends well, changes nothing in the hook directory and shows,
/// after the warnings about stale hooks if they are not left out, the
/// listing of the configuration.
pub proof fn lemma_list_reports_declared(
    opt: OptView,
    entries: Seq<HookEntryView>,
    seen: ObservedView,
    hooks: HookDir,
)
    requires
        opt.command == Command::List,
    ensures
        run_plan(opt, LoadedView::Parsed(entries), seen).failure is None,
        apply_all(run_plan(opt, LoadedView::Parsed(entries), seen).effects, hooks) == hooks,
        printed(run_plan(opt, LoadedView::Parsed(entries), seen).effects) == if opt.ignore_stale {
            listing(names_of(entries), opt.config)
        } else {
            stale_warnings(seen.installed, entries) + listing(names_of(entries), opt.config)
        },
{
    let shown = listing(names_of(entries), opt.config);
    let warned = stale_warnings(seen.installed, entries);
    lemma_prints_change_nothing(shown, hooks);
    lemma_prints_change_nothing(warned, hooks);
    assert(command_plan(opt, entries, seen).effects == prints(shown));
    if opt.ignore_stale {
        assert(Seq::<EffectView>::empty() + prints(shown) =~= prints(shown));
    } else {
        lemma_apply_all_concat(prints(warned), prints(shown), hooks);
        lemma_printed_concat(prints(warned), prints(shown));
    }
}

/// Whether the two snapshots say the same of each path of `probes`: whether
/// it exists and, where its contents are asked for, what they are.
pub open spec fn agree_on(
    probes: Seq<crate::snapshot::ProbeView>,
    first: Map<Seq<char>, FileStateView>,
    second: Map<Seq<char>, FileStateView>,
) -> bool {
    forall|i: int|
        0 <= i < probes.len() ==> {
            let path = (#[trigger] probes[i]).path;
            &&& first.contains_key(path) == second.contains_key(path)
            &&& probes[i].read && first.contains_key(path) ==> first[path] == second[path]
        }
}

/// Snapshots that agree on a list of probes agree on its parts.
proof fn lemma_agree_on_parts(
    head: Seq<crate::snapshot::ProbeView>,
    tail: Seq<crate::snapshot::ProbeView>,
    first: Map<Seq<char>, FileStateView>,
    second: Map<Seq<char>, FileStateView>,
)
    requires
        agree_on(head + tail, first, second),
    ensures
        agree_on(head, first, second),
        agree_on(tail, first, second),
{
    let all = head + tail;
    assert forall|i: int| 0 <= i < head.len() implies {
        let path = (#[trigger] head[i]).path;
        &&& first.contains_key(path) == second.contains_key(path)
        &&& head[i].read && first.contains_key(path) ==> first[path] == second[path]
    } by {
        assert(all[i] == head[i]);
    }
    assert forall|i: int| 0 <= i < tail.len() implies {
        let path = (#[trigger] tail[i]).path;
        &&& first.contains_key(path) == second.contains_key(path)
        &&& tail[i].read && first.contains_key(path) ==> first[path] == second[path]
    } by {
        assert(all[head.len() + i] == tail[i]);
    }
}

/// A build depends on the file system only through the paths it asks
/// about: two snapshots that agree on the probes of a build give the same
/// plan.
pub proof fn lemma_build_reads_only_probes(
    entries: Seq<HookEntryView>,
    first: BuildEnv,
    second: BuildEnv,
)
    requires
        same_build(first, second),
        agree_on(
            crate::builder::build_probes_of(entries, first.config_path, first.hooks_dir),
            first.seen,
            second.seen,
        ),
    ensures
        build_plan(entries, first) == build_plan(entries, second),
{
    lemma_install_all_reads_only_probes(entries, first, second);
}

proof fn lemma_install_all_reads_only_probes(
    entries: Seq<HookEntryView>,
    first: BuildEnv,
    second: BuildEnv,
)
    requires
        same_build(first, second),
        agree_on(
            crate::builder::build_probes_of(entries, first.config_path, first.hooks_dir),
            first.seen,
            second.seen,
        ),
    ensures
        install_all(entries, first) == install_all(entries, second),
    decreases entries.len(),
{
    if entries.len() > 0 {
        let entry = entries[0];
        if validation(entry.name, entry.hook) is Ok {
            let own = crate::builder::hook_probes(entry, first.config_path, first.hooks_dir);
            let others = crate::builder::build_probes_of(
                entries.drop_first(),
                first.config_path,
                first.hooks_dir,
            );
            lemma_agree_on_parts(own, others, first.seen, second.seen);
            assert(own[0].path == hook_path_of(first.hooks_dir, entry.name));
            if let Some(crate::config::ContentSourceView::ScriptFile(script)) = source_of(
                entry.hook,
            ) {
                assert(own[1].path == resolved_script_path(script, first.config_path));
                assert(own[1].read);
            }
            assert(install(entry, first) == install(entry, second));
            lemma_install_all_reads_only_probes(entries.drop_first(), first, second);
        }
    }
}

/// A clean depends on the file system only through the paths it asks
/// about: two snapshots that agree on the probes of a clean give the same
/// plan.
pub proof fn lemma_clean_reads_only_probes(
    entries: Seq<HookEntryView>,
    all: bool,
    hooks_dir: Seq<char>,
    first: Map<Seq<char>, FileStateView>,
    second: Map<Seq<char>, FileStateView>,
)
    requires
        agree_on(crate::clean::clean_probes_of(entries, all, hooks_dir), first, second),
    ensures
        clean_plan(entries, all, hooks_dir, first) == clean_plan(entries, all, hooks_dir, second),
    decreases entries.len(),
{
    if !all && entries.len() > 0 {
        let probes = crate::clean::clean_probes_of(entries, all, hooks_dir);
        let shorter = crate::clean::clean_probes_of(entries.drop_last(), all, hooks_dir);
        assert(probes.drop_last() =~= shorter);
        assert(probes =~= shorter + seq![probes.last()]);
        lemma_agree_on_parts(shorter, seq![probes.last()], first, second);
        lemma_clean_reads_only_probes(entries.drop_last(), all, hooks_dir, first, second);
        assert(probes[entries.len() - 1].path == hook_path_of(hooks_dir, entries.last().name));
    }
}

/// An invocation depends on the file system only through the paths it
/// asks about: what was seen otherwise being the same, two snapshots that
/// agree on the probes of the invocation give the same plan.
pub proof fn lemma_run_reads_only_probes(
    opt: OptView,
    config: LoadedView,
    first: ObservedView,
    second: ObservedView,
)
    requires
        first.root == second.root,
        first.session_shell == second.session_shell,
        first.installed == second.installed,
        agree_on(crate::session::probes_of(opt, config, first.root), first.seen, second.seen),
    ensures
        run_plan(opt, config, first) == run_plan(opt, config, second),
{
    if let (LoadedView::Parsed(entries), Some(root)) = (config, first.root) {
        let dir = crate::paths::hooks_dir_of(root);
        match opt.command {
            Command::Build { use_current_shell } => {
                let shell = crate::builder::selected_shell(use_current_shell, first.session_shell);
                lemma_build_reads_only_probes(
                    entries,
                    BuildEnv { shell, config_path: opt.config, hooks_dir: dir, seen: first.seen },
                    BuildEnv { shell, config_path: opt.config, hooks_dir: dir, seen: second.seen },
                );
            },
            Command::Clean { all } => {
                lemma_clean_reads_only_probes(entries, all, dir, first.seen, second.seen);
            },
            _ => {},
        }
    }
}

/// Without `all`, a clean removes every declared hook whose file was seen:
/// afterwards the hook directory holds no such hook.
pub proof fn lemma_clean_removes_declared(
    entries: Seq<HookEntryView>,
    hooks_dir: Seq<char>,
    seen: Map<Seq<char>, FileStateView>,
    hooks: HookDir,
    name: Seq<char>,
)
    requires
        declares(entries, name),
        seen.contains_key(hook_path_of(hooks_dir, name)),
    ensures
        !apply_all(clean_plan(entries, false, hooks_dir, seen), hooks).contains_key(name),
    decreases entries.len(),
{
    let names = names_of(entries);
    let at = choose|i: int| 0 <= i < names.len() && names[i] == name;
    let before = removals(entries.drop_last(), hooks_dir, seen);
    let last = removal(entries.last().name, hooks_dir, seen);
    lemma_apply_all_concat(before, last, hooks);
    reveal_with_fuel(apply_all, 3);
    if entries.last().name != name {
        let shorter = names_of(entries.drop_last());
        assert(names[entries.len() - 1] == entries.last().name);
        assert(shorter[at] == name);
        lemma_clean_removes_declared(entries.drop_last(), hooks_dir, seen, hooks, name);
    }
}

/// The text that a build installs for a hook: the generated script of an
/// inline command, or the text of the script that the hook refers to.
pub open spec fn installed_text(entry: HookEntryView, env: BuildEnv) -> Seq<char> {
    match source_of(entry.hook) {
        Some(crate::config::ContentSourceView::Inline(command)) => crate::builder::inline_script(
            env.shell,
            command,
        ),
        Some(crate::config::ContentSourceView::ScriptFile(script)) => match script_text(
            entry.name,
            resolved_script_path(script, env.config_path),
            env.seen,
        ) {
            Ok(text) => text,
            Err(_) => Seq::empty(),
        },
        None => Seq::empty(),
    }
}

/// What installing one hook does to the hook directory: nothing where the
/// declaration is refused; otherwise the hook is there afterwards, with its
/// text where the installation went well and empty where it did not, and
/// every other hook is as it was.
proof fn lemma_install_effect(entry: HookEntryView, env: BuildEnv, hooks: HookDir)
    ensures
        validation(entry.name, entry.hook) is Err ==> apply_all(install(entry, env).effects, hooks)
            == hooks,
        validation(entry.name, entry.hook) is Ok && install(entry, env).failure is None
            ==> apply_all(install(entry, env).effects, hooks) == hooks.insert(
            entry.name,
            installed_text(entry, env),
        ),
        validation(entry.name, entry.hook) is Ok && install(entry, env).failure is Some
            ==> apply_all(install(entry, env).effects, hooks) == hooks.insert(
            entry.name,
            Seq::empty(),
        ),
{
    let name = entry.name;
    let dest = hook_path_of(env.hooks_dir, name);
    let opened = open_dest(name, dest, env.seen.contains_key(dest));
    lemma_open_dest(name, dest, env.seen.contains_key(dest), hooks);
    if validation(name, entry.hook) is Ok {
        if install(entry, env).failure is None {
            let rest = fill(name, dest, installed_text(entry, env));
            assert(install(entry, env).effects == opened + rest);
            lemma_apply_all_concat(opened, rest, hooks);
            reveal_with_fuel(apply_all, 4);
            assert(apply_all(rest, hooks.insert(name, Seq::empty())) =~= hooks.insert(
                name,
                installed_text(entry, env),
            ));
        } else {
            assert(install(entry, env).effects == opened);
        }
    }
}

/// A build leaves every hook that is not declared as it was: a file of the
/// hook directory whose name is not a key of the configuration is neither
/// removed nor changed.
pub proof fn lemma_build_keeps_undeclared(
    entries: Seq<HookEntryView>,
    env: BuildEnv,
    hooks: HookDir,
    name: Seq<char>,
)
    requires
        !declares(entries, name),
    ensures
        apply_all(build_plan(entries, env).effects, hooks).contains_key(name)
            == hooks.contains_key(name),
        hooks.contains_key(name) ==> apply_all(build_plan(entries, env).effects, hooks)[name]
            == hooks[name],
{
    let head = seq![EffectView::CreateDir { path: env.hooks_dir }];
    lemma_apply_all_concat(head, install_all(entries, env).effects, hooks);
    assert(apply_all(head, hooks) == hooks) by {
        reveal_with_fuel(apply_all, 2);
    }
    lemma_install_all_keeps_undeclared(entries, env, hooks, name);
}

proof fn lemma_install_all_keeps_undeclared(
    entries: Seq<HookEntryView>,
    env: BuildEnv,
    hooks: HookDir,
    name: Seq<char>,
)
    requires
        !declares(entries, name),
    ensures
        apply_all(install_all(entries, env).effects, hooks).contains_key(name)
            == hooks.contains_key(name),
        hooks.contains_key(name) ==> apply_all(install_all(entries, env).effects, hooks)[name]
            == hooks[name],
    decreases entries.len(),
{
    if entries.len() > 0 {
        let first = install(entries[0], env);
        let names = names_of(entries);
        assert(names[0] == entries[0].name);
        lemma_install_effect(entries[0], env, hooks);
        if first.failure is None {
            let rest = entries.drop_first();
            assert(!declares(rest, name)) by {
                if declares(rest, name) {
                    let shorter = names_of(rest);
                    let i = choose|i: int| 0 <= i < shorter.len() && shorter[i] == name;
                    assert(names[i + 1] == name);
                }
            }
            let mid = apply_all(first.effects, hooks);
            lemma_apply_all_concat(first.effects, install_all(rest, env).effects, hooks);
            lemma_install_all_keeps_undeclared(rest, env, mid, name);
        }
    }
}

/// A build that ends well installs every declared hook: afterwards the
/// hook directory holds, under each declared name, the generated script of
/// the inline command or the text of the script that the hook refers to.
pub proof fn lemma_build_installs_declared(
    entries: Seq<HookEntryView>,
    env: BuildEnv,
    hooks: HookDir,
    i: int,
)
    requires
        names_of(entries).no_duplicates(),
        build_plan(entries, env).failure is None,
        0 <= i < entries.len(),
    ensures
        apply_all(build_plan(entries, env).effects, hooks).contains_key(entries[i].name),
        apply_all(build_plan(entries, env).effects, hooks)[entries[i].name] == installed_text(
            entries[i],
            env,
        ),
{
    let head = seq![EffectView::CreateDir { path: env.hooks_dir }];
    lemma_apply_all_concat(head, install_all(entries, env).effects, hooks);
    assert(apply_all(head, hooks) == hooks) by {
        reveal_with_fuel(apply_all, 2);
    }
    lemma_install_all_installs(entries, env, hooks, i);
}

proof fn lemma_install_all_installs(
    entries: Seq<HookEntryView>,
    env: BuildEnv,
    hooks: HookDir,
    i: int,
)
    requires
        names_of(entries).no_duplicates(),
        install_all(entries, env).failure is None,
        0 <= i < entries.len(),
    ensures
        apply_all(install_all(entries, env).effects, hooks).contains_key(entries[i].name),
        apply_all(install_all(entries, env).effects, hooks)[entries[i].name] == installed_text(
            entries[i],
            env,
        ),
    decreases entries.len(),
{
    let first = install(entries[0], env);
    let rest = entries.drop_first();
    let names = names_of(entries);
    let mid = apply_all(first.effects, hooks);
    lemma_install_effect(entries[0], env, hooks);
    lemma_apply_all_concat(first.effects, install_all(rest, env).effects, hooks);
    assert(names[0] == entries[0].name);
    assert(names_of(rest) =~= names.drop_first());
    if i == 0 {
        assert(!declares(rest, entries[0].name)) by {
            if declares(rest, entries[0].name) {
                let shorter = names_of(rest);
                let k = choose|k: int| 0 <= k < shorter.len() && shorter[k] == entries[0].name;
                assert(names[k + 1] == entries[0].name);
            }
        }
        lemma_install_all_keeps_undeclared(rest, env, mid, entries[0].name);
    } else {
        assert(names_of(rest).no_duplicates()) by {
            assert forall|a: int, b: int|
                0 <= a < names_of(rest).len() && 0 <= b < names_of(rest).len() && a
                    != b implies names_of(rest)[a] != names_of(rest)[b] by {
                assert(names_of(rest)[a] == names[a + 1]);
                assert(names_of(rest)[b] == names[b + 1]);
            }
        }
        assert(rest[i - 1] == entries[i]);
        lemma_install_all_installs(rest, env, mid, i - 1);
    }
}

/// Whether `effect` is a step that a build may take for `entries`: the
/// creation of the hook directory, a line, or the creation, filling or
/// marking of the file of a declared hook at its place in the hook
/// directory, the marking with the permission bits of an installed hook.
pub open spec fn build_step(effect: EffectView, entries: Seq<HookEntryView>, hooks_dir: Seq<char>) -> bool {
    match effect {
        EffectView::CreateDir { path } => path == hooks_dir,
        EffectView::Print { line } => true,
        EffectView::CreateFile { hook, path } => declares(entries, hook) && path == hook_path_of(
            hooks_dir,
            hook,
        ),
        EffectView::WriteFile { hook, path, text } => declares(entries, hook) && path
            == hook_path_of(hooks_dir, hook),
        EffectView::MakeExecutable { hook, path, mode } => declares(entries, hook) && path
            == hook_path_of(hooks_dir, hook) && mode == crate::effect::EXECUTABLE_MODE,
        EffectView::RemoveFile { hook, path } => false,
        EffectView::RemoveDir { path } => false,
    }
}

/// A build touches only the hook directory and the files of declared
/// hooks: every step of its plan creates the hook directory, shows a line,
/// or works on the file of a declared hook at the place of that hook; it
/// removes nothing, and the permission bits it sets are those of an
/// installed hook.
pub proof fn lemma_build_works_on_declared_only(
    entries: Seq<HookEntryView>,
    env: BuildEnv,
    i: int,
)
    requires
        0 <= i < build_plan(entries, env).effects.len(),
    ensures
        build_step(build_plan(entries, env).effects[i], entries, env.hooks_dir),
{
    if i > 0 {
        lemma_install_all_works_on_declared_only(entries, env, i - 1);
    }
}

proof fn lemma_install_all_works_on_declared_only(
    entries: Seq<HookEntryView>,
    env: BuildEnv,
    i: int,
)
    requires
        0 <= i < install_all(entries, env).effects.len(),
    ensures
        build_step(install_all(entries, env).effects[i], entries, env.hooks_dir),
    decreases entries.len(),
{
    let first = install(entries[0], env);
    let names = names_of(entries);
    if i < first.effects.len() {
        assert(names[0] == entries[0].name);
        assert(install_all(entries, env).effects[i] == first.effects[i]);
    } else {
        let rest = entries.drop_first();
        let k = i - first.effects.len();
        assert(install_all(entries, env).effects[i] == install_all(rest, env).effects[k]);
        lemma_install_all_works_on_declared_only(rest, env, k);
        let effect = install_all(rest, env).effects[k];
        assert forall|hook: Seq<char>| declares(rest, hook) implies declares(entries, hook) by {
            let shorter = names_of(rest);
            let at = choose|at: int| 0 <= at < shorter.len() && shorter[at] == hook;
            assert(names[at + 1] == hook);
        }
    }
}

/// A build that ends well fills and marks the file of every declared hook:
/// its plan writes the text of the hook to the place of the hook and gives
/// that file the permission bits of an installed hook.
pub proof fn lemma_build_fills_and_marks_declared(
    entries: Seq<HookEntryView>,
    env: BuildEnv,
    i: int,
)
    requires
        build_plan(entries, env).failure is None,
        0 <= i < entries.len(),
    ensures
        build_plan(entries, env).effects.contains(
            EffectView::WriteFile {
                hook: entries[i].name,
                path: hook_path_of(env.hooks_dir, entries[i].name),
                text: installed_text(entries[i], env),
            },
        ),
        build_plan(entries, env).effects.contains(
            EffectView::MakeExecutable {
                hook: entries[i].name,
                path: hook_path_of(env.hooks_dir, entries[i].name),
                mode: crate::effect::EXECUTABLE_MODE,
            },
        ),
{
    let name = entries[i].name;
    let dest = hook_path_of(env.hooks_dir, name);
    let write = EffectView::WriteFile { hook: name, path: dest, text: installed_text(entries[i], env) };
    let mark = EffectView::MakeExecutable {
        hook: name,
        path: dest,
        mode: crate::effect::EXECUTABLE_MODE,
    };
    lemma_install_all_fills_and_marks(entries, env, i);
    let inner = install_all(entries, env).effects;
    let plan = build_plan(entries, env).effects;
    let a = choose|a: int| 0 <= a < inner.len() && inner[a] == write;
    let b = choose|b: int| 0 <= b < inner.len() && inner[b] == mark;
    assert(plan[a + 1] == write);
    assert(plan[b + 1] == mark);
}

proof fn lemma_install_all_fills_and_marks(entries: Seq<HookEntryView>, env: BuildEnv, i: int)
    requires
        install_all(entries, env).failure is None,
        0 <= i < entries.len(),
    ensures
        install_all(entries, env).effects.contains(
            EffectView::WriteFile {
                hook: entries[i].name,
                path: hook_path_of(env.hooks_dir, entries[i].name),
                text: installed_text(entries[i], env),
            },
        ),
        install_all(entries, env).effects.contains(
            EffectView::MakeExecutable {
                hook: entries[i].name,
                path: hook_path_of(env.hooks_dir, entries[i].name),
                mode: crate::effect::EXECUTABLE_MODE,
            },
        ),
    decreases entries.len(),
{
    let first = install(entries[0], env);
    let rest = entries.drop_first();
    let all = install_all(entries, env).effects;
    let name = entries[i].name;
    let dest = hook_path_of(env.hooks_dir, name);
    let write = EffectView::WriteFile { hook: name, path: dest, text: installed_text(entries[i], env) };
    let mark = EffectView::MakeExecutable {
        hook: name,
        path: dest,
        mode: crate::effect::EXECUTABLE_MODE,
    };
    if i == 0 {
        let opened = open_dest(name, dest, env.seen.contains_key(dest));
        let filled = fill(name, dest, installed_text(entries[0], env));
        assert(first.effects == opened + filled);
        assert(all[opened.len() as int] == write);
        assert(all[opened.len() as int + 1] == mark);
    } else {
        assert(rest[i - 1] == entries[i]);
        lemma_install_all_fills_and_marks(rest, env, i - 1);
        let inner = install_all(rest, env).effects;
        let a = choose|a: int| 0 <= a < inner.len() && inner[a] == write;
        let b = choose|b: int| 0 <= b < inner.len() && inner[b] == mark;
        assert(all[first.effects.len() + a] == write);
        assert(all[first.effects.len() + b] == mark);
    }
}

} // verus!
