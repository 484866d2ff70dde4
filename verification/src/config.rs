//! The declared hooks: what the configuration file says, held as plain values.

use crate::text::{opt_view, views};
use vstd::prelude::*;
use vstd::string::*;

verus! {

/// One hook as it is written in the configuration: an inline command, a path
/// to a script, or (wrongly) both or neither.
#[derive(Debug, PartialEq, Eq)]
pub struct HookDeclaration {
    pub run: Option<String>,
    pub script: Option<String>,
}

pub struct HookDeclarationView {
    pub run: Option<Seq<char>>,
    pub script: Option<Seq<char>>,
}

impl View for HookDeclaration {
    type V = HookDeclarationView;

    open spec fn view(&self) -> HookDeclarationView {
        HookDeclarationView { run: opt_view(self.run), script: opt_view(self.script) }
    }
}

impl Clone for HookDeclaration {
    fn clone(&self) -> (r: Self)
        ensures
            r@ == self@,
    {
        let run = match &self.run {
            Some(s) => Some(s.clone()),
            None => None,
        };
        let script = match &self.script {
            Some(s) => Some(s.clone()),
            None => None,
        };
        HookDeclaration { run, script }
    }
}

/// Where the body of a well-formed hook comes from.
#[derive(Debug, PartialEq, Eq)]
pub enum ContentSource {
    /// A shell snippet to embed in a generated script.
    Inline(String),
    /// The path of a script to copy as it is.
    ScriptFile(String),
}

pub enum ContentSourceView {
    Inline(Seq<char>),
    ScriptFile(Seq<char>),
}

impl View for ContentSource {
    type V = ContentSourceView;

    open spec fn view(&self) -> ContentSourceView {
        match self {
            ContentSource::Inline(s) => ContentSourceView::Inline(s@),
            ContentSource::ScriptFile(s) => ContentSourceView::ScriptFile(s@),
        }
    }
}

/// A declaration together with the event name it is keyed by.
#[derive(Debug, PartialEq, Eq)]
pub struct HookEntry {
    pub name: String,
    pub hook: HookDeclaration,
}

pub struct HookEntryView {
    pub name: Seq<char>,
    pub hook: HookDeclarationView,
}

impl View for HookEntry {
    type V = HookEntryView;

    open spec fn view(&self) -> HookEntryView {
        HookEntryView { name: self.name@, hook: self.hook@ }
    }
}

/// The names of a sequence of entries, in order.
pub open spec fn names_of(entries: Seq<HookEntryView>) -> Seq<Seq<char>> {
    entries.map_values(|e: HookEntryView| e.name)
}

/// Whether `name` is the key of one of `entries`.
pub open spec fn declares(entries: Seq<HookEntryView>, name: Seq<char>) -> bool {
    names_of(entries).contains(name)
}

/// The position of the entry keyed by `name`; meaningful where `declares` holds.
pub open spec fn position_of(entries: Seq<HookEntryView>, name: Seq<char>) -> int {
    names_of(entries).index_of(name)
}

/// The entries after `name` has been set to `hook`: an entry already keyed by
/// `name` keeps its place and takes the new declaration, a new name goes last.
pub open spec fn with_entry(
    entries: Seq<HookEntryView>,
    name: Seq<char>,
    hook: HookDeclarationView,
) -> Seq<HookEntryView> {
    let entry = HookEntryView { name, hook };
    if declares(entries, name) {
        entries.update(position_of(entries, name), entry)
    } else {
        entries.push(entry)
    }
}

/// The declared hooks, keyed by event name. No name occurs twice; the order
/// is the order in which the names were first inserted.
#[derive(Debug)]
pub struct Configuration {
    entries: Vec<HookEntry>,
}

impl View for Configuration {
    type V = Seq<HookEntryView>;

    closed spec fn view(&self) -> Seq<HookEntryView> {
        self.entries@.map_values(|e: HookEntry| e@)
    }
}

impl Configuration {
    #[verifier::type_invariant]
    spec fn names_are_unique(&self) -> bool {
        names_of(self@).no_duplicates()
    }

    /// A configuration that declares no hook.
    pub fn new() -> (cfg: Self)
        ensures
            cfg@ == Seq::<HookEntryView>::empty(),
    {
        let cfg = Configuration { entries: Vec::new() };
        assert(cfg@ =~= Seq::<HookEntryView>::empty());
        cfg
    }

    /// The number of declared hooks.
    pub fn len(&self) -> (n: usize)
        ensures
            n == self@.len(),
    {
        self.entries.len()
    }

    /// Whether no hook is declared.
    pub fn is_empty(&self) -> (r: bool)
        ensures
            r == (self@.len() == 0),
    {
        self.entries.len() == 0
    }

    /// The entry at position `i`.
    pub fn entry(&self, i: usize) -> (e: &HookEntry)
        requires
            i < self@.len(),
        ensures
            e@ == self@[i as int],
    {
        &self.entries[i]
    }

    /// The position of the entry keyed by `name`, if there is one.
    pub fn find(&self, name: &str) -> (r: Option<usize>)
        ensures
            match r {
                Some(i) => {
                    &&& i < self@.len()
                    &&& self@[i as int].name == name@
                    &&& declares(self@, name@)
                    &&& i == position_of(self@, name@)
                },
                None => !declares(self@, name@),
            },
    {
        proof {
            use_type_invariant(self);
        }
        let wanted = String::from_str(name);
        let mut i: usize = 0;
        while i < self.entries.len()
            invariant
                wanted@ == name@,
                i <= self.entries.len(),
                names_of(self@).no_duplicates(),
                forall|j: int| 0 <= j < i ==> names_of(self@)[j] != name@,
            decreases self.entries.len() - i,
        {
            if self.entries[i].name == wanted {
                assert(names_of(self@)[i as int] == name@);
                assert(names_of(self@).contains(name@));
                return Some(i);
            }
            i = i + 1;
        }
        None
    }

    /// Whether a hook is declared under `name`.
    pub fn contains(&self, name: &str) -> (r: bool)
        ensures
            r == declares(self@, name@),
    {
        self.find(name).is_some()
    }

    /// The declaration keyed by `name`, if there is one.
    pub fn get(&self, name: &str) -> (r: Option<&HookDeclaration>)
        ensures
            match r {
                Some(h) => declares(self@, name@) && h@ == self@[position_of(self@, name@)].hook,
                None => !declares(self@, name@),
            },
    {
        match self.find(name) {
            Some(i) => Some(&self.entries[i].hook),
            None => None,
        }
    }

    /// Declares `hook` under `name`, in place of an earlier declaration under
    /// the same name if there is one.
    pub fn insert(&mut self, name: String, hook: HookDeclaration)
        ensures
            final(self)@ == with_entry(old(self)@, name@, hook@),
    {
        let found = self.find(name.as_str());
        let ghost before = self@;
        let ghost entry = HookEntryView { name: name@, hook: hook@ };
        proof {
            use_type_invariant(&*self);
        }
        let mut entries: Vec<HookEntry> = Vec::new();
        std::mem::swap(&mut self.entries, &mut entries);
        assert(entries@.map_values(|e: HookEntry| e@) == before);
        match found {
            Some(i) => {
                entries.set(i, HookEntry { name, hook });
                assert(entries@.map_values(|e: HookEntry| e@) =~= before.update(i as int, entry));
                assert(names_of(before.update(i as int, entry)) =~= names_of(before));
            },
            None => {
                entries.push(HookEntry { name, hook });
                assert(entries@.map_values(|e: HookEntry| e@) =~= before.push(entry));
                let ghost after = names_of(before.push(entry));
                assert(after =~= names_of(before).push(entry.name));
                assert forall|a: int, b: int|
                    0 <= a < after.len() && 0 <= b < after.len() && a != b implies after[a]
                    != after[b] by {
                    if a < names_of(before).len() {
                        assert(names_of(before)[a] == after[a]);
                    }
                    if b < names_of(before).len() {
                        assert(names_of(before)[b] == after[b]);
                    }
                }
            },
        }
        std::mem::swap(&mut self.entries, &mut entries);
        assert(self@ == with_entry(before, name@, hook@));
    }

    /// The declared names, in order; no name occurs twice.
    pub fn names(&self) -> (names: Vec<String>)
        ensures
            views(names@) == names_of(self@),
            views(names@).no_duplicates(),
    {
        proof {
            use_type_invariant(self);
        }
        let mut names: Vec<String> = Vec::new();
        let mut i: usize = 0;
        while i < self.entries.len()
            invariant
                i <= self.entries.len(),
                views(names@) == names_of(self@).take(i as int),
            decreases self.entries.len() - i,
        {
            let name = self.entries[i].name.clone();
            assert(name@ == names_of(self@)[i as int]);
            let ghost seen = views(names@);
            names.push(name);
            assert(views(names@) =~= seen.push(name@));
            assert(views(names@) =~= names_of(self@).take(i + 1));
            i = i + 1;
        }
        assert(names_of(self@).take(i as int) =~= names_of(self@));
        names
    }
}

} // verus!
