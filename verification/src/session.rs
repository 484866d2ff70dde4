//! A whole invocation: from what was asked and what was seen to what is to
//! be done.

use crate::builder::{
    build_hooks, build_plan, build_probes, build_probes_of, selected_shell, BuildEnv,
};
use crate::clean::{clean_hooks, clean_plan, clean_probes, clean_probes_of};
use crate::cli::{Command, Opt, OptView};
use crate::config::{names_of, Configuration, HookEntryView};
use crate::effect::{
    append_effects, effect_views, push_line, Effect, EffectView, Report, ReportView,
};
use crate::error::{Error, ErrorView, RepositoryUse};
use crate::events::{list_events, valid_hook_names};
use crate::list::{list_hooks, listing};
use crate::paths::{hooks_dir, hooks_dir_of};
use crate::snapshot::{probe_views, FileStateView, Probe, ProbeView, Snapshot};
use crate::stale::{stale_warnings, warn_stale_hooks};
use crate::text::{opt_view, slice_view, views};
use vstd::prelude::*;
use vstd::string::*;

verus! {

/// How reading the configuration file went.
pub enum Loaded {
    /// There is no file at the path.
    Missing,
    /// The file is there and could not be read.
    Unreadable(String),
    /// The text is not well-formed or has the wrong shape.
    Malformed(String),
    /// The declared hooks.
    Parsed(Configuration),
}

pub enum LoadedView {
    Missing,
    Unreadable(Seq<char>),
    Malformed(Seq<char>),
    Parsed(Seq<HookEntryView>),
}

impl View for Loaded {
    type V = LoadedView;

    open spec fn view(&self) -> LoadedView {
        match self {
            Loaded::Missing => LoadedView::Missing,
            Loaded::Unreadable(reason) => LoadedView::Unreadable(reason@),
            Loaded::Malformed(reason) => LoadedView::Malformed(reason@),
            Loaded::Parsed(cfg) => LoadedView::Parsed(cfg@),
        }
    }
}

/// What the caller saw of the surroundings of the invocation.
pub struct Observed {
    /// The repository root, where one was found.
    pub root: Option<String>,
    /// The shell of the operator's session, where it is known.
    pub session_shell: Option<String>,
    /// The names of the files in the hook directory; none where the
    /// directory could not be listed.
    pub installed: Vec<String>,
    /// What was found at the paths that the invocation asked about.
    pub seen: Snapshot,
}

pub struct ObservedView {
    pub root: Option<Seq<char>>,
    pub session_shell: Option<Seq<char>>,
    pub installed: Seq<Seq<char>>,
    pub seen: Map<Seq<char>, FileStateView>,
}

impl View for Observed {
    type V = ObservedView;

    open spec fn view(&self) -> ObservedView {
        ObservedView {
            root: opt_view(self.root),
            session_shell: opt_view(self.session_shell),
            installed: views(self.installed@),
            seen: self.seen@,
        }
    }
}

/// The effects that show `lines`, one after the other.
pub open spec fn prints(lines: Seq<Seq<char>>) -> Seq<EffectView> {
    lines.map_values(|line: Seq<char>| EffectView::Print { line })
}

/// A report that consists of the error `e`.
pub open spec fn failed(e: ErrorView) -> ReportView {
    ReportView { effects: Seq::empty(), failure: Some(e) }
}

/// A report of effects that end well.
pub open spec fn done(effects: Seq<EffectView>) -> ReportView {
    ReportView { effects, failure: None }
}

/// What the command of `opt` comes to on the declared hooks `entries`. A
/// command that works on the hook directory fails where no repository was
/// found, with an error that says which command it was.
pub open spec fn command_plan(
    opt: OptView,
    entries: Seq<HookEntryView>,
    seen: ObservedView,
) -> ReportView {
    match opt.command {
        Command::ListEvents => done(prints(valid_hook_names())),
        Command::List => done(prints(listing(names_of(entries), opt.config))),
        Command::Build { use_current_shell } => match seen.root {
            None => failed(ErrorView::RepositoryNotFound { during: RepositoryUse::Build }),
            Some(root) => build_plan(
                entries,
                BuildEnv {
                    shell: selected_shell(use_current_shell, seen.session_shell),
                    config_path: opt.config,
                    hooks_dir: hooks_dir_of(root),
                    seen: seen.seen,
                },
            ),
        },
        Command::Clean { all } => match seen.root {
            None => failed(ErrorView::RepositoryNotFound { during: RepositoryUse::Clean }),
            Some(root) => done(clean_plan(entries, all, hooks_dir_of(root), seen.seen)),
        },
    }
}

/// What the invocation comes to. A missing configuration file ends every
/// invocation. An invocation that reads the configuration ends where the
/// file cannot be read or decoded; the listing of events with the warning
/// left out goes on without it. Otherwise the stale hooks are warned about,
/// unless that is left out, and the command follows.
pub open spec fn run_plan(opt: OptView, config: LoadedView, seen: ObservedView) -> ReportView {
    match config {
        LoadedView::Missing => failed(ErrorView::ConfigNotFound { path: opt.config }),
        LoadedView::Unreadable(reason) => if opt.reads_config() {
            failed(
                ErrorView::FilesystemError {
                    operation: "reading config"@,
                    path: opt.config,
                    reason,
                },
            )
        } else {
            done(prints(valid_hook_names()))
        },
        LoadedView::Malformed(reason) => if opt.reads_config() {
            failed(ErrorView::ConfigParseError { reason })
        } else {
            done(prints(valid_hook_names()))
        },
        LoadedView::Parsed(entries) => {
            let warnings = if opt.ignore_stale {
                Seq::empty()
            } else {
                prints(stale_warnings(seen.installed, entries))
            };
            let command = command_plan(opt, entries, seen);
            ReportView { effects: warnings + command.effects, failure: command.failure }
        },
    }
}

/// The paths that the invocation asks about before it is planned: those of
/// a build or of a clean, where one of them is asked for with a
/// configuration and inside a repository; none otherwise.
pub open spec fn probes_of(opt: OptView, config: LoadedView, root: Option<Seq<char>>) -> Seq<
    ProbeView,
> {
    match (config, root) {
        (LoadedView::Parsed(entries), Some(root)) => match opt.command {
            Command::Build { use_current_shell } => build_probes_of(
                entries,
                opt.config,
                hooks_dir_of(root),
            ),
            Command::Clean { all } => clean_probes_of(entries, all, hooks_dir_of(root)),
            _ => Seq::empty(),
        },
        _ => Seq::empty(),
    }
}

/// Adds the effects that show `lines` at the end of `effects`.
fn push_lines(effects: &mut Vec<Effect>, lines: Vec<String>)
    ensures
        effect_views(final(effects)@) == effect_views(old(effects)@) + prints(views(lines@)),
{
    let ghost before = effect_views(effects@);
    let ghost wanted = prints(views(lines@));
    let mut i: usize = 0;
    assert(effect_views(effects@) =~= before + wanted.take(0));
    while i < lines.len()
        invariant
            i <= lines.len(),
            wanted == prints(views(lines@)),
            effect_views(effects@) == before + wanted.take(i as int),
        decreases lines.len() - i,
    {
        let line = lines[i].clone();
        assert(line@ == views(lines@)[i as int]);
        push_line(effects, line);
        assert(effect_views(effects@) =~= before + wanted.take(i + 1));
        i = i + 1;
    }
    assert(wanted.take(i as int) =~= wanted);
}

/// The paths to look at before the invocation is planned.
pub fn probes(opt: &Opt, config: &Loaded, root: Option<&str>) -> (asked: Vec<Probe>)
    ensures
        probe_views(asked@) == probes_of(opt@, config@, slice_view(root)),
{
    let none: Vec<Probe> = Vec::new();
    assert(probe_views(none@) =~= Seq::<ProbeView>::empty());
    match (config, root) {
        (Loaded::Parsed(cfg), Some(root)) => {
            let dir = hooks_dir(root);
            match opt.command {
                Command::Build { use_current_shell } => build_probes(
                    cfg,
                    opt.config.as_str(),
                    dir.as_str(),
                ),
                Command::Clean { all } => clean_probes(cfg, all, dir.as_str()),
                _ => none,
            }
        },
        _ => none,
    }
}

/// Plans the command of `opt` on the configuration `cfg`.
fn run_command(opt: &Opt, cfg: &Configuration, seen: &Observed) -> (report: Report)
    ensures
        report@ == command_plan(opt@, cfg@, seen@),
{
    let mut effects: Vec<Effect> = Vec::new();
    assert(effect_views(effects@) =~= Seq::<EffectView>::empty());
    match opt.command {
        Command::ListEvents => {
            push_lines(&mut effects, list_events());
            assert(effect_views(effects@) =~= prints(valid_hook_names()));
            Report { effects, failure: None }
        },
        Command::List => {
            push_lines(&mut effects, list_hooks(cfg, opt.config.as_str()));
            assert(effect_views(effects@) =~= prints(listing(names_of(cfg@), opt@.config)));
            Report { effects, failure: None }
        },
        Command::Build { use_current_shell } => match &seen.root {
            None => Report {
                effects,
                failure: Some(Error::RepositoryNotFound { during: RepositoryUse::Build }),
            },
            Some(root) => {
                let dir = hooks_dir(root.as_str());
                let shell = match &seen.session_shell {
                    Some(s) => Some(s.as_str()),
                    None => None,
                };
                build_hooks(
                    use_current_shell,
                    opt.config.as_str(),
                    cfg,
                    shell,
                    dir.as_str(),
                    &seen.seen,
                )
            },
        },
        Command::Clean { all } => match &seen.root {
            None => Report {
                effects,
                failure: Some(Error::RepositoryNotFound { during: RepositoryUse::Clean }),
            },
            Some(root) => {
                let dir = hooks_dir(root.as_str());
                Report { effects: clean_hooks(cfg, all, dir.as_str(), &seen.seen), failure: None }
            },
        },
    }
}

/// Plans an invocation from its options, from how reading the
/// configuration went and from what was seen of the surroundings.
pub fn run(opt: &Opt, config: &Loaded, seen: &Observed) -> (report: Report)
    ensures
        report@ == run_plan(opt@, config@, seen@),
{
    let mut effects: Vec<Effect> = Vec::new();
    assert(effect_views(effects@) =~= Seq::<EffectView>::empty());
    match config {
        Loaded::Missing => Report {
            effects,
            failure: Some(Error::ConfigNotFound { path: opt.config.clone() }),
        },
        Loaded::Unreadable(reason) => {
            if opt.needs_config() {
                Report {
                    effects,
                    failure: Some(
                        Error::FilesystemError {
                            operation: String::from_str("reading config"),
                            path: opt.config.clone(),
                            reason: reason.clone(),
                        },
                    ),
                }
            } else {
                push_lines(&mut effects, list_events());
                assert(effect_views(effects@) =~= prints(valid_hook_names()));
                Report { effects, failure: None }
            }
        },
        Loaded::Malformed(reason) => {
            if opt.needs_config() {
                Report {
                    effects,
                    failure: Some(Error::ConfigParseError { reason: reason.clone() }),
                }
            } else {
                push_lines(&mut effects, list_events());
                assert(effect_views(effects@) =~= prints(valid_hook_names()));
                Report { effects, failure: None }
            }
        },
        Loaded::Parsed(cfg) => {
            if !opt.ignore_stale {
                push_lines(&mut effects, warn_stale_hooks(cfg, &seen.installed));
            }
            let ghost warnings = effect_views(effects@);
            let command = run_command(opt, cfg, seen);
            append_effects(&mut effects, command.effects);
            assert(effect_views(effects@) =~= warnings + command_plan(opt@, cfg@, seen@).effects);
            assert(warnings =~= if opt.ignore_stale {
                Seq::<EffectView>::empty()
            } else {
                prints(stale_warnings(seen@.installed, cfg@))
            });
            Report { effects, failure: command.failure }
        },
    }
}

} // verus!
