//! Finding installed hooks that the configuration no longer declares.

use crate::config::{declares, Configuration, HookEntryView};
use crate::events::{is_valid_hook, is_valid_hook_name};
use crate::text::{ends_with, join2, views};
use vstd::prelude::*;
use vstd::string::*;

verus! {

/// The ending of the sample files that the version-control system ships.
pub open spec fn sample_suffix() -> Seq<char> {
    ".sample"@
}

/// Whether the file `name` of the hook directory is a stale hook: it is no
/// sample file, it is named after a recognized event, and the configuration
/// does not declare it.
pub open spec fn is_stale(name: Seq<char>, entries: Seq<HookEntryView>) -> bool {
    &&& !sample_suffix().is_suffix_of(name)
    &&& is_valid_hook_name(name)
    &&& !declares(entries, name)
}

/// The stale hooks among `installed`, in the order of `installed`.
pub open spec fn stale_names(installed: Seq<Seq<char>>, entries: Seq<HookEntryView>) -> Seq<
    Seq<char>,
> {
    installed.filter(|name: Seq<char>| is_stale(name, entries))
}

/// The warning shown for the stale hook `name`.
pub open spec fn stale_warning(name: Seq<char>) -> Seq<char> {
    "\x1b[33m[warning]\x1b[0m: stale hook: "@ + name
}

/// The warnings for the stale hooks among `installed`.
pub open spec fn stale_warnings(installed: Seq<Seq<char>>, entries: Seq<HookEntryView>) -> Seq<
    Seq<char>,
> {
    stale_names(installed, entries).map_values(|name: Seq<char>| stale_warning(name))
}

/// The stale hooks among the file names `installed` of the hook directory.
pub fn stale_hooks(cfg: &Configuration, installed: &Vec<String>) -> (stale: Vec<String>)
    ensures
        views(stale@) == stale_names(views(installed@), cfg@),
{
    let ghost pred = |name: Seq<char>| is_stale(name, cfg@);
    let mut stale: Vec<String> = Vec::new();
    let mut i: usize = 0;
    proof {
        reveal(Seq::filter);
        assert(views(installed@).take(0).filter(pred) =~= views(stale@));
    }
    while i < installed.len()
        invariant
            i <= installed.len(),
            pred == (|name: Seq<char>| is_stale(name, cfg@)),
            views(stale@) == views(installed@).take(i as int).filter(pred),
        decreases installed.len() - i,
    {
        let name = installed[i].as_str();
        let ghost seen = views(installed@).take(i as int);
        proof {
            seen.lemma_filter_push(name@, pred);
            assert(seen.push(name@) =~= views(installed@).take(i + 1));
        }
        if !ends_with(name, ".sample") && is_valid_hook(name) && !cfg.contains(name) {
            let ghost found = views(stale@);
            stale.push(installed[i].clone());
            assert(views(stale@) =~= found.push(name@));
        }
        i = i + 1;
    }
    assert(views(installed@).take(i as int) =~= views(installed@));
    stale
}

/// The warnings to show for the file names `installed` of the hook
/// directory: one for each stale hook, in the order of `installed`.
pub fn warn_stale_hooks(cfg: &Configuration, installed: &Vec<String>) -> (lines: Vec<String>)
    ensures
        views(lines@) == stale_warnings(views(installed@), cfg@),
{
    let stale = stale_hooks(cfg, installed);
    let mut lines: Vec<String> = Vec::new();
    let ghost wanted = stale_warnings(views(installed@), cfg@);
    let mut i: usize = 0;
    assert(views(lines@) =~= wanted.take(0));
    while i < stale.len()
        invariant
            i <= stale.len(),
            views(stale@) == stale_names(views(installed@), cfg@),
            wanted == stale_warnings(views(installed@), cfg@),
            views(lines@) == wanted.take(i as int),
        decreases stale.len() - i,
    {
        let ghost shown = views(lines@);
        let line = join2("\x1b[33m[warning]\x1b[0m: stale hook: ", stale[i].as_str());
        assert(line@ == wanted[i as int]) by {
            assert(views(stale@)[i as int] == stale@[i as int]@);
        }
        lines.push(line);
        assert(views(lines@) =~= shown.push(line@));
        assert(views(lines@) =~= wanted.take(i + 1));
        i = i + 1;
    }
    assert(wanted.take(i as int) =~= wanted);
    lines
}

} // verus!
