//! Installing the declared hooks.

use crate::config::{Configuration, ContentSource, ContentSourceView, HookEntry, HookEntryView};
use crate::effect::{
    append_effects, effect_views, push_effect, push_line, Effect, EffectView, Report, ReportView,
    EXECUTABLE_MODE,
};
use crate::error::{Error, ErrorView};
use crate::paths::{hook_path, hook_path_of, resolve_script_path, resolved_script_path};
use crate::snapshot::{probe_views, push_probe, FileState, FileStateView, Probe, ProbeView, Snapshot};
use crate::text::{join3, slice_view};
use crate::validate::{source_of, validate, validation};
use vstd::prelude::*;
use vstd::string::*;

verus! {

/// The interpreter of a generated script when the operator asks for no other.
pub open spec fn default_shell() -> Seq<char> {
    "/usr/bin/env bash"@
}

/// The interpreter of generated scripts: the shell of the operator's session
/// where that is asked for and known, the default otherwise.
pub open spec fn selected_shell(use_current_shell: bool, session_shell: Option<Seq<char>>) -> Seq<
    char,
> {
    match session_shell {
        Some(shell) if use_current_shell => shell,
        _ => default_shell(),
    }
}

/// The script generated for an inline command: the interpreter line, the
/// directive that makes the script stop at the first failing command, and
/// the command itself.
pub open spec fn inline_script(shell: Seq<char>, command: Seq<char>) -> Seq<char> {
    "#!"@ + shell + "\n"@ + "set -e\n"@ + command + "\n"@
}

/// The line shown before a hook that is already installed is replaced.
pub open spec fn overwrite_notice(name: Seq<char>) -> Seq<char> {
    "overwriting hook `"@ + name + "`"@
}

/// The line shown when a hook has been installed.
pub open spec fn installed_notice(name: Seq<char>) -> Seq<char> {
    "installed hook `"@ + name + "`"@
}

/// What a build works with, besides the configuration.
pub struct BuildEnv {
    /// The interpreter of generated scripts.
    pub shell: Seq<char>,
    /// The path of the configuration file.
    pub config_path: Seq<char>,
    /// The hook directory.
    pub hooks_dir: Seq<char>,
    /// What was seen on the file system.
    pub seen: Map<Seq<char>, FileStateView>,
}

/// The text of the script at `from`, or the error that ends the build of the
/// hook `name`: the script is absent, or it is there and cannot be read.
pub open spec fn script_text(
    name: Seq<char>,
    from: Seq<char>,
    seen: Map<Seq<char>, FileStateView>,
) -> Result<Seq<char>, ErrorView> {
    if !seen.contains_key(from) {
        Err(ErrorView::ScriptNotFound { name, path: from })
    } else {
        match seen[from] {
            FileStateView::Text(text) => Ok(text),
            FileStateView::Unreadable(reason) => Err(
                ErrorView::FilesystemError { operation: "reading script"@, path: from, reason },
            ),
            FileStateView::Present => Err(
                ErrorView::FilesystemError {
                    operation: "reading script"@,
                    path: from,
                    reason: "its contents were not read"@,
                },
            ),
        }
    }
}

/// The effects that put `text` into the created file of the hook `name`.
pub open spec fn fill(name: Seq<char>, dest: Seq<char>, text: Seq<char>) -> Seq<EffectView> {
    seq![
        EffectView::WriteFile { hook: name, path: dest, text },
        EffectView::MakeExecutable { hook: name, path: dest, mode: EXECUTABLE_MODE },
        EffectView::Print { line: installed_notice(name) },
    ]
}

/// The effects that begin the installation of the hook `name`: the notice
/// where a file is replaced, then the creation of the file.
pub open spec fn open_dest(name: Seq<char>, dest: Seq<char>, replaced: bool) -> Seq<EffectView> {
    let create = EffectView::CreateFile { hook: name, path: dest };
    if replaced {
        seq![EffectView::Print { line: overwrite_notice(name) }, create]
    } else {
        seq![create]
    }
}

/// What installing one hook comes to. An invalid declaration is refused
/// before anything is done. A valid one has its file created; then the file
/// is filled, made executable and reported, unless its script is missing or
/// unreadable, which ends the build with the file left empty.
pub open spec fn install(entry: HookEntryView, env: BuildEnv) -> ReportView {
    let name = entry.name;
    let dest = hook_path_of(env.hooks_dir, name);
    let opened = open_dest(name, dest, env.seen.contains_key(dest));
    match validation(name, entry.hook) {
        Err(kind) => ReportView {
            effects: Seq::empty(),
            failure: Some(ErrorView::invalid(name, kind)),
        },
        Ok(()) => match source_of(entry.hook) {
            Some(ContentSourceView::Inline(command)) => ReportView {
                effects: opened + fill(name, dest, inline_script(env.shell, command)),
                failure: None,
            },
            Some(ContentSourceView::ScriptFile(script)) => {
                let from = resolved_script_path(script, env.config_path);
                match script_text(name, from, env.seen) {
                    Ok(text) => ReportView { effects: opened + fill(name, dest, text), failure: None },
                    Err(e) => ReportView { effects: opened, failure: Some(e) },
                }
            },
            None => ReportView { effects: Seq::empty(), failure: None },
        },
    }
}

/// What installing the hooks of `entries` in order comes to: the build stops
/// at the first hook that fails, with what came before it done.
pub open spec fn install_all(entries: Seq<HookEntryView>, env: BuildEnv) -> ReportView
    decreases entries.len(),
{
    if entries.len() == 0 {
        ReportView { effects: Seq::empty(), failure: None }
    } else {
        let first = install(entries[0], env);
        if first.failure is Some {
            first
        } else {
            let rest = install_all(entries.drop_first(), env);
            ReportView { effects: first.effects + rest.effects, failure: rest.failure }
        }
    }
}

/// What a build comes to: the hook directory is created, then the hooks are
/// installed in order, each from what was seen before the build.
pub open spec fn build_plan(entries: Seq<HookEntryView>, env: BuildEnv) -> ReportView {
    let installed = install_all(entries, env);
    ReportView {
        effects: seq![EffectView::CreateDir { path: env.hooks_dir }] + installed.effects,
        failure: installed.failure,
    }
}

/// Installing `done` and then, if that went well, `entry` is installing
/// `done` with `entry` at its end.
pub proof fn lemma_install_all_push(done: Seq<HookEntryView>, entry: HookEntryView, env: BuildEnv)
    ensures
        install_all(done.push(entry), env) == if install_all(done, env).failure is Some {
            install_all(done, env)
        } else {
            ReportView {
                effects: install_all(done, env).effects + install(entry, env).effects,
                failure: install(entry, env).failure,
            }
        },
    decreases done.len(),
{
    let all = done.push(entry);
    if done.len() == 0 {
        assert(all.drop_first() =~= Seq::<HookEntryView>::empty());
        assert(install_all(all.drop_first(), env).effects =~= Seq::<EffectView>::empty());
        assert(install_all(all, env).effects =~= install(entry, env).effects);
        assert(install_all(done, env).effects + install(entry, env).effects =~= install(
            entry,
            env,
        ).effects);
    } else {
        assert(all.drop_first() =~= done.drop_first().push(entry));
        assert(all[0] == done[0]);
        lemma_install_all_push(done.drop_first(), entry, env);
        let first = install(done[0], env);
        if first.failure is None {
            let rest = install_all(done.drop_first(), env);
            if rest.failure is None {
                assert(first.effects + (rest.effects + install(entry, env).effects) =~= (
                first.effects + rest.effects) + install(entry, env).effects);
            }
        }
    }
}

/// The paths that installing one hook asks about: none for an invalid
/// declaration; otherwise the place of the hook and, for a hook that copies
/// a script, the script with its contents.
pub open spec fn hook_probes(entry: HookEntryView, config_path: Seq<char>, hooks_dir: Seq<char>) -> Seq<
    ProbeView,
> {
    let dest = ProbeView { path: hook_path_of(hooks_dir, entry.name), read: false };
    match validation(entry.name, entry.hook) {
        Err(_) => Seq::empty(),
        Ok(()) => match source_of(entry.hook) {
            Some(ContentSourceView::ScriptFile(script)) => seq![
                dest,
                ProbeView { path: resolved_script_path(script, config_path), read: true },
            ],
            _ => seq![dest],
        },
    }
}

/// The paths that a build asks about: those of each hook in order, up to
/// the first hook whose declaration is invalid.
pub open spec fn build_probes_of(
    entries: Seq<HookEntryView>,
    config_path: Seq<char>,
    hooks_dir: Seq<char>,
) -> Seq<ProbeView>
    decreases entries.len(),
{
    if entries.len() == 0 || validation(entries[0].name, entries[0].hook) is Err {
        Seq::empty()
    } else {
        hook_probes(entries[0], config_path, hooks_dir) + build_probes_of(
            entries.drop_first(),
            config_path,
            hooks_dir,
        )
    }
}

/// Whether every declaration of `entries` is valid.
pub open spec fn all_valid(entries: Seq<HookEntryView>) -> bool {
    forall|i: int| 0 <= i < entries.len() ==> validation(
        (#[trigger] entries[i]).name,
        entries[i].hook,
    ) is Ok
}

/// After valid hooks, one more hook adds its own probes.
proof fn lemma_build_probes_push(
    done: Seq<HookEntryView>,
    entry: HookEntryView,
    config_path: Seq<char>,
    hooks_dir: Seq<char>,
)
    requires
        all_valid(done),
    ensures
        build_probes_of(done.push(entry), config_path, hooks_dir) == build_probes_of(
            done,
            config_path,
            hooks_dir,
        ) + hook_probes(entry, config_path, hooks_dir),
    decreases done.len(),
{
    let all = done.push(entry);
    if done.len() == 0 {
        assert(all.drop_first() =~= Seq::<HookEntryView>::empty());
        assert(build_probes_of(all.drop_first(), config_path, hooks_dir) =~= Seq::<
            ProbeView,
        >::empty());
        assert(build_probes_of(all, config_path, hooks_dir) =~= build_probes_of(
            done,
            config_path,
            hooks_dir,
        ) + hook_probes(entry, config_path, hooks_dir));
    } else {
        assert(all.drop_first() =~= done.drop_first().push(entry));
        assert(all[0] == done[0]);
        assert(all_valid(done.drop_first())) by {
            assert forall|i: int| 0 <= i < done.drop_first().len() implies validation(
                (#[trigger] done.drop_first()[i]).name,
                done.drop_first()[i].hook,
            ) is Ok by {
                assert(done.drop_first()[i] == done[i + 1]);
            }
        }
        lemma_build_probes_push(done.drop_first(), entry, config_path, hooks_dir);
        assert(build_probes_of(all, config_path, hooks_dir) =~= build_probes_of(
            done,
            config_path,
            hooks_dir,
        ) + hook_probes(entry, config_path, hooks_dir));
    }
}

/// An invalid hook after `n` valid ones ends the list of probes.
proof fn lemma_build_probes_stop(
    entries: Seq<HookEntryView>,
    n: int,
    config_path: Seq<char>,
    hooks_dir: Seq<char>,
)
    requires
        0 <= n < entries.len(),
        all_valid(entries.take(n)),
        validation(entries[n].name, entries[n].hook) is Err,
    ensures
        build_probes_of(entries, config_path, hooks_dir) == build_probes_of(
            entries.take(n),
            config_path,
            hooks_dir,
        ),
    decreases n,
{
    if n == 0 {
        assert(build_probes_of(entries.take(0), config_path, hooks_dir) =~= Seq::<
            ProbeView,
        >::empty());
    } else {
        let rest = entries.drop_first();
        assert(entries.take(n)[0] == entries[0]);
        assert(rest.take(n - 1) =~= entries.take(n).drop_first());
        assert(all_valid(rest.take(n - 1))) by {
            assert forall|i: int| 0 <= i < rest.take(n - 1).len() implies validation(
                (#[trigger] rest.take(n - 1)[i]).name,
                rest.take(n - 1)[i].hook,
            ) is Ok by {
                assert(rest.take(n - 1)[i] == entries.take(n)[i + 1]);
            }
        }
        lemma_build_probes_stop(rest, n - 1, config_path, hooks_dir);
    }
}

/// The paths to look at before a build is planned.
pub fn build_probes(cfg: &Configuration, config_path: &str, hooks_dir: &str) -> (probes: Vec<
    Probe,
>)
    ensures
        probe_views(probes@) == build_probes_of(cfg@, config_path@, hooks_dir@),
{
    let mut probes: Vec<Probe> = Vec::new();
    assert(probe_views(probes@) =~= build_probes_of(cfg@.take(0), config_path@, hooks_dir@));
    let mut i: usize = 0;
    while i < cfg.len()
        invariant
            i <= cfg@.len(),
            all_valid(cfg@.take(i as int)),
            probe_views(probes@) == build_probes_of(cfg@.take(i as int), config_path@, hooks_dir@),
        decreases cfg@.len() - i,
    {
        let entry = cfg.entry(i);
        let name = entry.name.as_str();
        if validate(name, &entry.hook).is_err() {
            proof {
                lemma_build_probes_stop(cfg@, i as int, config_path@, hooks_dir@);
            }
            return probes;
        }
        proof {
            lemma_build_probes_push(cfg@.take(i as int), cfg@[i as int], config_path@, hooks_dir@);
            assert(cfg@.take(i as int).push(cfg@[i as int]) =~= cfg@.take(i + 1));
        }
        let ghost asked = probe_views(probes@);
        push_probe(&mut probes, hook_path(hooks_dir, name), false);
        match entry.hook.content_source() {
            Some(ContentSource::ScriptFile(script)) => {
                push_probe(&mut probes, resolve_script_path(script.as_str(), config_path), true);
            },
            _ => {},
        }
        assert(probe_views(probes@) =~= asked + hook_probes(entry@, config_path@, hooks_dir@));
        i = i + 1;
    }
    assert(cfg@.take(i as int) =~= cfg@);
    probes
}

/// The interpreter of generated scripts.
pub fn select_shell(use_current_shell: bool, session_shell: Option<&str>) -> (shell: String)
    ensures
        shell@ == selected_shell(use_current_shell, slice_view(session_shell)),
{
    match session_shell {
        Some(shell) if use_current_shell => String::from_str(shell),
        _ => String::from_str("/usr/bin/env bash"),
    }
}

/// The script generated for the inline command `command`.
pub fn render_inline(shell: &str, command: &str) -> (text: String)
    ensures
        text@ == inline_script(shell@, command@),
{
    let mut text = join3("#!", shell, "\n");
    text.append("set -e\n");
    text.append(command);
    text.append("\n");
    text
}

/// The text of the script at `from`, as far as it was seen.
fn read_script(name: &str, from: String, seen: &Snapshot) -> (r: Result<String, Error>)
    ensures
        match r {
            Ok(text) => script_text(name@, from@, seen@) == Ok::<Seq<char>, ErrorView>(text@),
            Err(e) => script_text(name@, from@, seen@) == Err::<Seq<char>, ErrorView>(e@),
        },
{
    match seen.state(from.as_str()) {
        None => Err(Error::ScriptNotFound { name: String::from_str(name), path: from }),
        Some(FileState::Text(text)) => Ok(text.clone()),
        Some(FileState::Unreadable(reason)) => Err(
            Error::FilesystemError {
                operation: String::from_str("reading script"),
                path: from,
                reason: reason.clone(),
            },
        ),
        Some(FileState::Present) => Err(
            Error::FilesystemError {
                operation: String::from_str("reading script"),
                path: from,
                reason: String::from_str("its contents were not read"),
            },
        ),
    }
}

/// Plans the installation of one hook.
pub fn install_hook(
    entry: &HookEntry,
    shell: &str,
    config_path: &str,
    hooks_dir: &str,
    seen: &Snapshot,
) -> (report: Report)
    ensures
        report@ == install(
            entry@,
            BuildEnv { shell: shell@, config_path: config_path@, hooks_dir: hooks_dir@, seen: seen@ },
        ),
{
    let name = entry.name.as_str();
    let mut effects: Vec<Effect> = Vec::new();
    assert(effect_views(effects@) =~= Seq::<EffectView>::empty());
    match validate(name, &entry.hook) {
        Err(kind) => { return Report { effects, failure: Some(Error::invalid(name, kind)) }; },
        Ok(()) => {},
    }
    let source = match entry.hook.content_source() {
        Some(source) => source,
        None => { return Report { effects, failure: None }; },
    };
    let dest = hook_path(hooks_dir, name);
    if seen.is_present(dest.as_str()) {
        push_line(&mut effects, join3("overwriting hook `", name, "`"));
    }
    push_effect(&mut effects, Effect::CreateFile { hook: entry.name.clone(), path: dest.clone() });
    assert(effect_views(effects@) =~= open_dest(name@, dest@, seen@.contains_key(dest@)));
    let text = match source {
        ContentSource::Inline(command) => render_inline(shell, command.as_str()),
        ContentSource::ScriptFile(script) => {
            let from = resolve_script_path(script.as_str(), config_path);
            match read_script(name, from, seen) {
                Ok(text) => text,
                Err(e) => { return Report { effects, failure: Some(e) }; },
            }
        },
    };
    let ghost opened = effect_views(effects@);
    push_effect(
        &mut effects,
        Effect::WriteFile { hook: entry.name.clone(), path: dest.clone(), text },
    );
    push_effect(
        &mut effects,
        Effect::MakeExecutable { hook: entry.name.clone(), path: dest, mode: EXECUTABLE_MODE },
    );
    push_line(&mut effects, join3("installed hook `", name, "`"));
    assert(effect_views(effects@) =~= opened + fill(name@, dest@, text@));
    Report { effects, failure: None }
}

/// Plans a build: the hook directory is created, then each declared hook is
/// validated and installed, in the order of the configuration. The first
/// hook that fails ends the build; the hooks before it stay installed.
/// Every script is copied as `seen` holds it, that is, as it was before the
/// build: what the build itself writes is not read back.
pub fn build_hooks(
    use_current_shell: bool,
    config_path: &str,
    cfg: &Configuration,
    session_shell: Option<&str>,
    hooks_dir: &str,
    seen: &Snapshot,
) -> (report: Report)
    ensures
        report@ == build_plan(
            cfg@,
            BuildEnv {
                shell: selected_shell(use_current_shell, slice_view(session_shell)),
                config_path: config_path@,
                hooks_dir: hooks_dir@,
                seen: seen@,
            },
        ),
{
    let shell = select_shell(use_current_shell, session_shell);
    let ghost env = BuildEnv {
        shell: selected_shell(use_current_shell, slice_view(session_shell)),
        config_path: config_path@,
        hooks_dir: hooks_dir@,
        seen: seen@,
    };
    let ghost head = seq![EffectView::CreateDir { path: hooks_dir@ }];
    let mut effects: Vec<Effect> = Vec::new();
    push_effect(&mut effects, Effect::CreateDir { path: String::from_str(hooks_dir) });
    assert(effect_views(effects@) =~= head + install_all(cfg@.take(0), env).effects);
    let mut i: usize = 0;
    while i < cfg.len()
        invariant
            i <= cfg@.len(),
            head == seq![EffectView::CreateDir { path: hooks_dir@ }],
            shell@ == selected_shell(use_current_shell, slice_view(session_shell)),
            install_all(cfg@.take(i as int), env).failure is None,
            effect_views(effects@) == head + install_all(cfg@.take(i as int), env).effects,
            env == (BuildEnv {
                shell: shell@,
                config_path: config_path@,
                hooks_dir: hooks_dir@,
                seen: seen@,
            }),
        decreases cfg@.len() - i,
    {
        let step = install_hook(cfg.entry(i), shell.as_str(), config_path, hooks_dir, seen);
        proof {
            lemma_install_all_push(cfg@.take(i as int), cfg@[i as int], env);
            assert(cfg@.take(i as int).push(cfg@[i as int]) =~= cfg@.take(i + 1));
        }
        append_effects(&mut effects, step.effects);
        assert(effect_views(effects@) =~= head + install_all(cfg@.take(i + 1), env).effects);
        if step.failure.is_some() {
            proof {
                lemma_install_all_stops(cfg@, i + 1, env);
            }
            return Report { effects, failure: step.failure };
        }
        i = i + 1;
    }
    assert(cfg@.take(i as int) =~= cfg@);
    Report { effects, failure: None }
}

/// Once installing the first `n` hooks has failed, the hooks after them
/// change nothing.
pub proof fn lemma_install_all_stops(entries: Seq<HookEntryView>, n: int, env: BuildEnv)
    requires
        0 <= n <= entries.len(),
        install_all(entries.take(n), env).failure is Some,
    ensures
        install_all(entries, env) == install_all(entries.take(n), env),
    decreases entries.len() - n,
{
    if n < entries.len() {
        lemma_install_all_push(entries.take(n), entries[n], env);
        assert(entries.take(n).push(entries[n]) =~= entries.take(n + 1));
        lemma_install_all_stops(entries, n + 1, env);
    } else {
        assert(entries.take(n) =~= entries);
    }
}

} // verus!
