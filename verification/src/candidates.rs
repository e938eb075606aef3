//! The entries of a worktree among which the user looks for a path.
use crate::seqs;
use crate::worktree::Entry;
use vstd::prelude::*;

verus! {

/// Which entries are looked through.
#[derive(Clone, Copy, Debug, PartialEq, Eq, Structural)]
pub enum Candidates {
    /// Only directories.
    Directories,
    /// Only files.
    Files,
    /// Directories and files.
    Entries,
}

/// What is known of a worktree at one time.
#[derive(Debug, PartialEq)]
pub struct Snapshot {
    pub id: usize,
    pub root_name: String,
    pub root_entry: Option<Entry>,
    pub file_count: usize,
    pub visible_file_count: usize,
    pub dir_count: usize,
    pub visible_dir_count: usize,
    pub entry_count: usize,
    pub visible_entry_count: usize,
}

/// Which entries a traversal of the worktree visits.
#[derive(Clone, Copy, Debug, PartialEq, Eq, Structural)]
pub struct TraversalRequest {
    pub files: bool,
    pub dirs: bool,
    pub include_ignored: bool,
    /// How many of them are skipped.
    pub start: usize,
}

impl TraversalRequest {
    /// Whether a traversal stops at an entry: at files, at directories or at both, and at ignored
    /// ones only if they are wanted.
    pub open spec fn stops_at(self, entry: Entry) -> bool {
        &&& if entry.is_dir {
            self.dirs
        } else {
            self.files
        }
        &&& entry.is_ignored ==> self.include_ignored
    }

    /// What a traversal of these entries visits.
    pub open spec fn visited(self, entries: Seq<Entry>) -> Seq<Entry> {
        let stops = entries.filter(|entry: Entry| self.stops_at(entry));
        if self.start <= stops.len() {
            stops.skip(self.start as int)
        } else {
            Seq::empty()
        }
    }
}

impl Snapshot {
    /// Whether the counts are those of a worktree with these entries: each is the number of
    /// entries that a traversal visits.
    pub open spec fn counts(self, entries: Seq<Entry>) -> bool {
        let visited = |files: bool, dirs: bool, include_ignored: bool|
            TraversalRequest { files, dirs, include_ignored, start: 0 }.visited(entries).len();
        &&& self.file_count == visited(true, false, true)
        &&& self.visible_file_count == visited(true, false, false)
        &&& self.dir_count == visited(false, true, true)
        &&& self.visible_dir_count == visited(false, true, false)
        &&& self.entry_count == visited(true, true, true)
        &&& self.visible_entry_count == visited(true, true, false)
    }
}

/// The entries of a worktree among which the user looks for a path.
#[derive(Debug, PartialEq)]
pub struct PathMatchCandidateSet {
    pub snapshot: Snapshot,
    pub include_ignored: bool,
    pub include_root_name: bool,
    pub candidates: Candidates,
}

impl PathMatchCandidateSet {
    /// What stands before the path of every entry: the name of the file if the worktree is one
    /// file, and otherwise the name of the worktree with a separator if it is wanted.
    pub open spec fn shown_prefix(self) -> Seq<char> {
        if self.snapshot.root_entry matches Some(root) && !root.is_dir {
            self.snapshot.root_name@
        } else if self.include_root_name {
            self.snapshot.root_name@ + "/"@
        } else {
            Seq::empty()
        }
    }

    /// How many entries there are.
    pub open spec fn count(self) -> usize {
        match (self.candidates, self.include_ignored) {
            (Candidates::Files, true) => self.snapshot.file_count,
            (Candidates::Files, false) => self.snapshot.visible_file_count,
            (Candidates::Directories, true) => self.snapshot.dir_count,
            (Candidates::Directories, false) => self.snapshot.visible_dir_count,
            (Candidates::Entries, true) => self.snapshot.entry_count,
            (Candidates::Entries, false) => self.snapshot.visible_entry_count,
        }
    }

    /// Which entries are visited, from a place on.
    pub open spec fn request(self, start: usize) -> TraversalRequest {
        TraversalRequest {
            files: !(self.candidates is Directories),
            dirs: !(self.candidates is Files),
            include_ignored: self.include_ignored,
            start,
        }
    }

    /// The number of the worktree.
    pub fn id(&self) -> (id: usize)
        ensures
            id == self.snapshot.id,
    {
        self.snapshot.id
    }

    /// How many entries there are.
    pub fn len(&self) -> (len: usize)
        ensures
            len == self.count(),
    {
        match self.candidates {
            Candidates::Files => {
                if self.include_ignored {
                    self.snapshot.file_count
                } else {
                    self.snapshot.visible_file_count
                }
            },
            Candidates::Directories => {
                if self.include_ignored {
                    self.snapshot.dir_count
                } else {
                    self.snapshot.visible_dir_count
                }
            },
            Candidates::Entries => {
                if self.include_ignored {
                    self.snapshot.entry_count
                } else {
                    self.snapshot.visible_entry_count
                }
            },
        }
    }

    /// What stands before the path of every entry.
    pub fn prefix(&self) -> (prefix: String)
        ensures
            prefix@ == self.shown_prefix(),
    {
        let root_is_file = match &self.snapshot.root_entry {
            Some(root) => root.is_file(),
            None => false,
        };
        if root_is_file {
            self.snapshot.root_name.clone()
        } else if self.include_root_name {
            let mut prefix = self.snapshot.root_name.clone();
            prefix.append("/");
            prefix
        } else {
            String::new()
        }
    }

    /// Which entries are visited, from a place on.
    pub fn candidates(&self, start: usize) -> (request: TraversalRequest)
        ensures
            request == self.request(start),
    {
        match self.candidates {
            Candidates::Directories => TraversalRequest {
                files: false,
                dirs: true,
                include_ignored: self.include_ignored,
                start,
            },
            Candidates::Files => TraversalRequest {
                files: true,
                dirs: false,
                include_ignored: self.include_ignored,
                start,
            },
            Candidates::Entries => TraversalRequest {
                files: true,
                dirs: true,
                include_ignored: self.include_ignored,
                start,
            },
        }
    }
}

/// There are as many candidates as are visited from the first on, and as many fewer as are skipped:
/// only directories, only files or both, as wanted, and ignored ones exactly if they are wanted.
pub proof fn law_all_candidates_counted(
    set: PathMatchCandidateSet,
    entries: Seq<Entry>,
    start: usize,
)
    requires
        set.snapshot.counts(entries),
    ensures
        set.count() == set.request(0).visited(entries).len(),
        set.request(start).visited(entries).len() == (if start <= set.count() {
            set.count() - start
        } else {
            0
        }),
        forall|i: int|
            0 <= i < set.request(start).visited(entries).len() ==> {
                let entry = #[trigger] set.request(start).visited(entries)[i];
                &&& entries.contains(entry)
                &&& set.candidates is Directories ==> entry.is_dir
                &&& set.candidates is Files ==> !entry.is_dir
                &&& entry.is_ignored ==> set.include_ignored
            },
        forall|i: int|
            0 <= i < entries.len() && set.request(0).stops_at(#[trigger] entries[i])
                ==> set.request(0).visited(entries).contains(entries[i]),
{
    let request = set.request(start);
    let first = set.request(0);
    let stop = |entry: Entry| request.stops_at(entry);
    assert(stop =~= (|entry: Entry| first.stops_at(entry)));
    let stops = entries.filter(stop);
    assert(stops.skip(0) =~= stops);
    assert(first.visited(entries) == stops);
    assert forall|i: int| 0 <= i < request.visited(entries).len() implies {
        let entry = #[trigger] request.visited(entries)[i];
        &&& entries.contains(entry)
        &&& request.stops_at(entry)
    } by {
        entries.lemma_filter_pred(stop, i + start);
        assert(stops.contains(stops[i + start]));
        entries.lemma_filter_contains_rev(stop, stops[i + start]);
    }
    assert forall|i: int| 0 <= i < entries.len() && first.stops_at(#[trigger] entries[i]) implies first.visited(
        entries,
    ).contains(entries[i]) by {
        entries.lemma_filter_contains(stop, i);
    }
}

/// A set of directories leads through directories only, one of files through files only, and one
/// of entries through both; ignored ones are among them exactly if they are wanted.
pub proof fn law_which_candidates(set: PathMatchCandidateSet, start: usize, entry: Entry)
    ensures
        set.request(start).start == start,
        set.request(start).stops_at(entry) <==> (entry.is_ignored ==> set.include_ignored)
            && match set.candidates {
            Candidates::Directories => entry.is_dir,
            Candidates::Files => !entry.is_dir,
            Candidates::Entries => true,
        },
{
}

/// A traversal stops at entries in their order, and skips as many of them as it is asked to.
pub proof fn law_traversal(
    a: Seq<Entry>,
    b: Seq<Entry>,
    request: TraversalRequest,
    entry: Entry,
)
    requires
        request.start == 0,
    ensures
        request.visited(a + b) == request.visited(a) + request.visited(b),
        request.stops_at(entry) ==> request.visited(seq![entry]) == seq![entry],
        !request.stops_at(entry) ==> request.visited(seq![entry]).len() == 0,
        forall|start: usize|
            (#[trigger] TraversalRequest { start, ..request }.visited(a)) == (if start
                <= request.visited(a).len() {
                request.visited(a).skip(start as int)
            } else {
                Seq::empty()
            }),
{
    let stops = |e: Entry| request.stops_at(e);
    seqs::lemma_filter_concat(a, b, stops);
    assert(forall|s: Seq<Entry>| #[trigger] s.skip(0) =~= s);
    assert(Seq::<Entry>::empty().filter(stops) =~= Seq::empty()) by {
        reveal(Seq::filter);
    }
    assert(Seq::empty().push(entry) =~= seq![entry]);
    seqs::lemma_filter_push(Seq::empty(), stops, entry);
    assert forall|start: usize|
        (#[trigger] TraversalRequest { start, ..request }.visited(a)) == (if start
            <= request.visited(a).len() {
            request.visited(a).skip(start as int)
        } else {
            Seq::empty()
        }) by {
        let other = TraversalRequest { start, ..request };
        let same = |e: Entry| other.stops_at(e);
        assert(same =~= stops);
    }
}

/// What stands before a candidate's path: the name of a root that is a file; otherwise, if root
/// names are wanted, that of the root and a `/`, and nothing if they are not.
pub proof fn law_prefix(set: PathMatchCandidateSet)
    ensures
        ({
            let root_is_file = set.snapshot.root_entry matches Some(root) && !root.is_dir;
            &&& root_is_file ==> set.shown_prefix() == set.snapshot.root_name@
            &&& !root_is_file && !set.include_root_name ==> set.shown_prefix().len() == 0
            &&& !root_is_file && set.include_root_name ==> set.shown_prefix()
                == set.snapshot.root_name@.push('/')
        }),
{
    reveal_strlit("/");
    assert(set.snapshot.root_name@ + "/"@ =~= set.snapshot.root_name@.push('/'));
}

} // verus!
