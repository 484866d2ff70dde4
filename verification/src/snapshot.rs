//! What was seen on the file system before a command is planned.
//!
//! The library never touches the file system. Its caller looks at the paths
//! that a command asks about and records what it found; a path that was not
//! recorded counts as absent.

use vstd::prelude::*;
use vstd::string::*;

verus! {

/// What was found at a path that exists.
#[derive(Debug, PartialEq, Eq)]
pub enum FileState {
    /// Something is there; its contents were not read.
    Present,
    /// A file with these contents.
    Text(String),
    /// A file that could not be read, and why.
    Unreadable(String),
}

pub enum FileStateView {
    Present,
    Text(Seq<char>),
    Unreadable(Seq<char>),
}

impl View for FileState {
    type V = FileStateView;

    open spec fn view(&self) -> FileStateView {
        match self {
            FileState::Present => FileStateView::Present,
            FileState::Text(text) => FileStateView::Text(text@),
            FileState::Unreadable(reason) => FileStateView::Unreadable(reason@),
        }
    }
}

/// A path for the caller to look at before a command is planned.
#[derive(Debug, PartialEq, Eq)]
pub struct Probe {
    /// The path to look at.
    pub path: String,
    /// Whether the contents are wanted, or only whether the path exists.
    pub read: bool,
}

pub struct ProbeView {
    pub path: Seq<char>,
    pub read: bool,
}

impl View for Probe {
    type V = ProbeView;

    open spec fn view(&self) -> ProbeView {
        ProbeView { path: self.path@, read: self.read }
    }
}

/// The views of a sequence of probes, in order.
pub open spec fn probe_views(probes: Seq<Probe>) -> Seq<ProbeView> {
    probes.map_values(|p: Probe| p@)
}

/// Adds a probe of `path` at the end of `probes`.
pub(crate) fn push_probe(probes: &mut Vec<Probe>, path: String, read: bool)
    ensures
        probe_views(final(probes)@) == probe_views(old(probes)@).push(
            ProbeView { path: path@, read },
        ),
{
    probes.push(Probe { path, read });
    assert(probe_views(probes@) =~= probe_views(old(probes)@).push(
        ProbeView { path: path@, read },
    ));
}

struct Record {
    path: String,
    state: FileState,
}

/// The map that a sequence of records stands for: a later record of a path
/// replaces an earlier one.
spec fn recorded(records: Seq<Record>) -> Map<Seq<char>, FileStateView>
    decreases records.len(),
{
    if records.len() == 0 {
        Map::empty()
    } else {
        recorded(records.drop_last()).insert(records.last().path@, records.last().state@)
    }
}

/// A path whose latest record is at `at` maps to the state recorded there.
proof fn lemma_recorded_latest(records: Seq<Record>, at: int, path: Seq<char>)
    requires
        0 <= at < records.len(),
        records[at].path@ == path,
        forall|j: int| at < j < records.len() ==> records[j].path@ != path,
    ensures
        recorded(records).contains_key(path),
        recorded(records)[path] == records[at].state@,
    decreases records.len(),
{
    if at < records.len() - 1 {
        lemma_recorded_latest(records.drop_last(), at, path);
    }
}

/// A path that no record names is not in the map.
proof fn lemma_recorded_absent(records: Seq<Record>, path: Seq<char>)
    requires
        forall|j: int| 0 <= j < records.len() ==> records[j].path@ != path,
    ensures
        !recorded(records).contains_key(path),
    decreases records.len(),
{
    if records.len() > 0 {
        lemma_recorded_absent(records.drop_last(), path);
    }
}

/// What is known of the file system once `path` has been recorded in the
/// state `state`: the new state, unless it is a bare `Present` for a path of
/// which something is known already, which changes nothing.
pub open spec fn with_record(
    seen: Map<Seq<char>, FileStateView>,
    path: Seq<char>,
    state: FileStateView,
) -> Map<Seq<char>, FileStateView> {
    if state is Present && seen.contains_key(path) {
        seen
    } else {
        seen.insert(path, state)
    }
}

/// The observed part of the file system: for each path that was looked at
/// and exists, what was found there.
pub struct Snapshot {
    records: Vec<Record>,
}

impl View for Snapshot {
    type V = Map<Seq<char>, FileStateView>;

    closed spec fn view(&self) -> Map<Seq<char>, FileStateView> {
        recorded(self.records@)
    }
}

impl Snapshot {
    /// A snapshot in which nothing exists.
    pub fn new() -> (snapshot: Self)
        ensures
            snapshot@ == Map::<Seq<char>, FileStateView>::empty(),
    {
        Snapshot { records: Vec::new() }
    }

    /// Records that `path` exists in the state `state`. What was recorded of
    /// the path before is replaced, except that a bare `Present` never takes
    /// away what is already known of the path.
    pub fn record(&mut self, path: String, state: FileState)
        ensures
            final(self)@ == with_record(old(self)@, path@, state@),
    {
        if matches!(state, FileState::Present) && self.is_present(path.as_str()) {
            return ;
        }
        let ghost before = self.records@;
        self.records.push(Record { path, state });
        assert(self.records@.drop_last() =~= before);
    }

    /// What was found at `path`; `None` where nothing is there.
    pub fn state(&self, path: &str) -> (found: Option<&FileState>)
        ensures
            match found {
                Some(state) => self@.contains_key(path@) && self@[path@] == state@,
                None => !self@.contains_key(path@),
            },
    {
        let wanted = String::from_str(path);
        let mut i: usize = self.records.len();
        while i > 0
            invariant
                wanted@ == path@,
                i <= self.records.len(),
                forall|j: int| i <= j < self.records.len() ==> self.records[j].path@ != path@,
            decreases i,
        {
            i = i - 1;
            if self.records[i].path == wanted {
                proof {
                    lemma_recorded_latest(self.records@, i as int, path@);
                }
                return Some(&self.records[i].state);
            }
        }
        proof {
            lemma_recorded_absent(self.records@, path@);
        }
        None
    }

    /// Whether something was found at `path`.
    pub fn is_present(&self, path: &str) -> (r: bool)
        ensures
            r == self@.contains_key(path@),
    {
        self.state(path).is_some()
    }
}

} // verus!
