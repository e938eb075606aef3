//! The directory trees of a project, as far as the project looks into them.
use crate::ids::{ProjectEntryId, WorktreeId};
use crate::path;
use crate::path::{
    components, same_components, strip_component_prefix, strip_prefix, ComponentView, PathComponent,
};
use crate::project_path::ProjectPath;
use crate::seqs;
use vstd::prelude::*;

verus! {

/// A file or directory of a worktree.
#[derive(Debug, PartialEq)]
pub struct Entry {
    pub id: ProjectEntryId,
    /// The path below the root of the worktree.
    pub path: String,
    pub is_dir: bool,
    pub is_ignored: bool,
}

impl Entry {
    /// Whether the entry is a file.
    pub fn is_file(&self) -> (res: bool)
        ensures
            res == !self.is_dir,
    {
        !self.is_dir
    }
}

impl Clone for Entry {
    fn clone(&self) -> (res: Self)
        ensures
            res == *self,
    {
        Entry {
            id: self.id,
            path: self.path.clone(),
            is_dir: self.is_dir,
            is_ignored: self.is_ignored,
        }
    }
}

/// A directory tree.
#[derive(Debug, PartialEq)]
pub struct Worktree {
    pub id: WorktreeId,
    /// The name of the root directory.
    pub root_name: String,
    /// Where the root lies on the machine that holds the tree.
    pub abs_path: String,
    /// Whether the tree appears in the project panel.
    pub is_visible: bool,
    /// Whether the tree lies on this machine.
    pub is_local: bool,
    pub root_entry: Option<Entry>,
    pub entries: Vec<Entry>,
}

/// What a call that hands out a reference found.
pub open spec fn found<T>(res: Option<&T>, want: Option<T>) -> bool {
    match (res, want) {
        (Some(r), Some(w)) => *r == w,
        (None, None) => true,
        _ => false,
    }
}

/// The values behind a list of references.
pub open spec fn targets<T>(list: Seq<&T>) -> Seq<T> {
    list.map_values(|x: &T| *x)
}

impl Worktree {
    /// The entry at the path with these components.
    pub open spec fn entry_at_components(self, list: Seq<ComponentView>) -> Option<Entry> {
        seqs::find_first(self.entries@, |e: Entry| path::path_components(e.path@) == list)
    }

    /// The entry at a path.
    pub open spec fn entry_at(self, path: Seq<char>) -> Option<Entry> {
        self.entry_at_components(path::path_components(path))
    }

    /// The entry with an identifier.
    pub open spec fn entry_with(self, id: ProjectEntryId) -> Option<Entry> {
        seqs::find_first(self.entries@, |e: Entry| e.id == id)
    }

    /// Whether a path of the machine lies in the tree.
    pub open spec fn contains_path(self, abs_path: Seq<char>) -> bool {
        path::starts_with(path::path_components(abs_path), path::path_components(self.abs_path@))
    }

    /// The path below the root of a path that lies in the tree.
    pub open spec fn path_below_root(self, abs_path: Seq<char>) -> Seq<char> {
        path::render(
            path::path_components(abs_path).skip(
                path::path_components(self.abs_path@).len() as int,
            ),
        )
    }

    /// The entry at the path with these components.
    pub fn entry_for_components(&self, list: &Vec<PathComponent>) -> (res: Option<&Entry>)
        ensures
            found(res, self.entry_at_components(path::views(list@))),
    {
        let ghost want = path::views(list@);
        let ghost p = |e: Entry| path::path_components(e.path@) == want;
        let mut i: usize = 0;
        while i < self.entries.len()
            invariant
                i <= self.entries.len(),
                p == (|e: Entry| path::path_components(e.path@) == want),
                want == path::views(list@),
                forall|j: int| 0 <= j < i ==> !p(#[trigger] self.entries@[j]),
            decreases self.entries.len() - i,
        {
            let own = components(self.entries[i].path.as_str());
            if same_components(&own, list) {
                proof {
                    seqs::lemma_find_first_at(self.entries@, p, i as int);
                }
                return Some(&self.entries[i]);
            }
            i = i + 1;
        }
        proof {
            seqs::lemma_find_first_none(self.entries@, p);
        }
        None
    }

    /// The entry at a path.
    pub fn entry_for_path(&self, path: &str) -> (res: Option<&Entry>)
        ensures
            found(res, self.entry_at(path@)),
    {
        let list = components(path);
        self.entry_for_components(&list)
    }

    /// The entry with an identifier.
    pub fn entry_for_id(&self, id: ProjectEntryId) -> (res: Option<&Entry>)
        ensures
            found(res, self.entry_with(id)),
    {
        let ghost p = |e: Entry| e.id == id;
        let mut i: usize = 0;
        while i < self.entries.len()
            invariant
                i <= self.entries.len(),
                p == (|e: Entry| e.id == id),
                forall|j: int| 0 <= j < i ==> !p(#[trigger] self.entries@[j]),
            decreases self.entries.len() - i,
        {
            if self.entries[i].id == id {
                proof {
                    seqs::lemma_find_first_at(self.entries@, p, i as int);
                }
                return Some(&self.entries[i]);
            }
            i = i + 1;
        }
        proof {
            seqs::lemma_find_first_none(self.entries@, p);
        }
        None
    }

    /// Whether a path of the machine lies in the tree.
    pub fn contains_abs_path(&self, abs_path: &str) -> (res: bool)
        ensures
            res == self.contains_path(abs_path@),
    {
        let whole = components(abs_path);
        let base = components(self.abs_path.as_str());
        strip_component_prefix(&whole, &base).is_some()
    }

    /// The path below the root, if the path lies in the tree.
    pub fn relative_path(&self, abs_path: &str) -> (res: Option<String>)
        ensures
            res is Some == self.contains_path(abs_path@),
            res matches Some(rest) ==> rest@ == self.path_below_root(abs_path@),
    {
        strip_prefix(abs_path, self.abs_path.as_str())
    }
}

/// The worktrees of a project, in the order in which they are shown.
#[derive(Debug, PartialEq)]
pub struct WorktreeStore {
    pub worktrees: Vec<Worktree>,
    /// Whether the user put the worktrees into another order.
    pub worktrees_reordered: bool,
}

/// The worktrees that appear in the project panel.
pub open spec fn visible(worktrees: Seq<Worktree>) -> Seq<Worktree> {
    worktrees.filter(|w: Worktree| w.is_visible)
}

/// The place of the worktree with an identifier.
pub open spec fn position(worktrees: Seq<Worktree>, id: WorktreeId) -> Option<int>
    decreases worktrees.len(),
{
    if worktrees.len() == 0 {
        None
    } else if worktrees[0].id == id {
        Some(0)
    } else {
        match position(worktrees.skip(1), id) {
            Some(i) => Some(i + 1),
            None => None,
        }
    }
}

proof fn lemma_position_at(worktrees: Seq<Worktree>, id: WorktreeId, k: int)
    requires
        0 <= k < worktrees.len(),
        worktrees[k].id == id,
        forall|j: int| 0 <= j < k ==> (#[trigger] worktrees[j]).id != id,
    ensures
        position(worktrees, id) == Some(k),
    decreases worktrees.len(),
{
    if k > 0 {
        let rest = worktrees.skip(1);
        assert forall|j: int| 0 <= j < k - 1 implies (#[trigger] rest[j]).id != id by {
            assert(rest[j] == worktrees[j + 1]);
        }
        lemma_position_at(rest, id, k - 1);
    }
}

proof fn lemma_position_none(worktrees: Seq<Worktree>, id: WorktreeId)
    requires
        forall|j: int| 0 <= j < worktrees.len() ==> (#[trigger] worktrees[j]).id != id,
    ensures
        position(worktrees, id) is None,
    decreases worktrees.len(),
{
    if worktrees.len() > 0 {
        let rest = worktrees.skip(1);
        assert forall|j: int| 0 <= j < rest.len() implies (#[trigger] rest[j]).id != id by {
            assert(rest[j] == worktrees[j + 1]);
        }
        lemma_position_none(rest, id);
    }
}

/// What `position` finds.
pub proof fn lemma_position_meaning(worktrees: Seq<Worktree>, id: WorktreeId)
    ensures
        position(worktrees, id) matches Some(k) ==> 0 <= k < worktrees.len() && worktrees[k].id
            == id && forall|j: int| 0 <= j < k ==> (#[trigger] worktrees[j]).id != id,
        position(worktrees, id) is None ==> forall|j: int|
            0 <= j < worktrees.len() ==> (#[trigger] worktrees[j]).id != id,
    decreases worktrees.len(),
{
    if worktrees.len() > 0 && worktrees[0].id != id {
        let rest = worktrees.skip(1);
        lemma_position_meaning(rest, id);
        match position(rest, id) {
            Some(k) => {
                assert forall|j: int| 0 <= j < k + 1 implies (#[trigger] worktrees[j]).id != id by {
                    if j > 0 {
                        assert(rest[j - 1] == worktrees[j]);
                    }
                }
            },
            None => {
                assert forall|j: int| 0 <= j < worktrees.len() implies (#[trigger] worktrees[j]).id
                    != id by {
                    if j > 0 {
                        assert(rest[j - 1] == worktrees[j]);
                    }
                }
            },
        }
    }
}

/// The order after the worktree at `from` was moved to the place `to`.
pub open spec fn moved<T>(list: Seq<T>, from: int, to: int) -> Seq<T> {
    list.remove(from).insert(to, list[from])
}

impl WorktreeStore {
    /// The worktree with an identifier.
    pub open spec fn with_id(self, id: WorktreeId) -> Option<Worktree> {
        seqs::find_first(self.worktrees@, |w: Worktree| w.id == id)
    }

    /// The worktree that holds an entry.
    pub open spec fn with_entry(self, id: ProjectEntryId) -> Option<Worktree> {
        seqs::find_first(self.worktrees@, |w: Worktree| w.entry_with(id) is Some)
    }

    /// The worktree in which a path of the machine lies.
    pub open spec fn with_path(self, abs_path: Seq<char>) -> Option<Worktree> {
        seqs::find_first(self.worktrees@, |w: Worktree| w.contains_path(abs_path))
    }

    /// The worktree of this machine in which a path of the machine lies.
    pub open spec fn local_with_path(self, abs_path: Seq<char>) -> Option<Worktree> {
        seqs::find_first(self.worktrees@, |w: Worktree| w.is_local && w.contains_path(abs_path))
    }

    /// The entry with an identifier.
    pub open spec fn entry_with(self, id: ProjectEntryId) -> Option<Entry> {
        match self.with_entry(id) {
            Some(worktree) => worktree.entry_with(id),
            None => None,
        }
    }

    /// No worktree.
    pub fn new() -> (res: Self)
        ensures
            res.worktrees@ == Seq::<Worktree>::empty(),
            !res.worktrees_reordered,
    {
        WorktreeStore { worktrees: Vec::new(), worktrees_reordered: false }
    }

    /// The worktree with an identifier.
    pub fn worktree_for_id(&self, id: WorktreeId) -> (res: Option<&Worktree>)
        ensures
            found(res, self.with_id(id)),
    {
        let ghost p = |w: Worktree| w.id == id;
        let mut i: usize = 0;
        while i < self.worktrees.len()
            invariant
                i <= self.worktrees.len(),
                p == (|w: Worktree| w.id == id),
                forall|j: int| 0 <= j < i ==> !p(#[trigger] self.worktrees@[j]),
            decreases self.worktrees.len() - i,
        {
            if self.worktrees[i].id == id {
                proof {
                    seqs::lemma_find_first_at(self.worktrees@, p, i as int);
                }
                return Some(&self.worktrees[i]);
            }
            i = i + 1;
        }
        proof {
            seqs::lemma_find_first_none(self.worktrees@, p);
        }
        None
    }

    /// The worktree that holds an entry.
    pub fn worktree_for_entry(&self, id: ProjectEntryId) -> (res: Option<&Worktree>)
        ensures
            found(res, self.with_entry(id)),
    {
        let ghost p = |w: Worktree| w.entry_with(id) is Some;
        let mut i: usize = 0;
        while i < self.worktrees.len()
            invariant
                i <= self.worktrees.len(),
                p == (|w: Worktree| w.entry_with(id) is Some),
                forall|j: int| 0 <= j < i ==> !p(#[trigger] self.worktrees@[j]),
            decreases self.worktrees.len() - i,
        {
            if self.worktrees[i].entry_for_id(id).is_some() {
                proof {
                    seqs::lemma_find_first_at(self.worktrees@, p, i as int);
                }
                return Some(&self.worktrees[i]);
            }
            i = i + 1;
        }
        proof {
            seqs::lemma_find_first_none(self.worktrees@, p);
        }
        None
    }

    /// The entry with an identifier.
    pub fn entry_for_id(&self, id: ProjectEntryId) -> (res: Option<&Entry>)
        ensures
            found(res, self.entry_with(id)),
    {
        match self.worktree_for_entry(id) {
            Some(worktree) => worktree.entry_for_id(id),
            None => None,
        }
    }

    /// The worktree in which a path of the machine lies, and the path below its root.
    pub fn find_worktree(&self, abs_path: &str) -> (res: Option<(&Worktree, String)>)
        ensures
            match self.with_path(abs_path@) {
                Some(worktree) => res matches Some((found, rest)) && *found == worktree && rest@
                    == worktree.path_below_root(abs_path@),
                None => res is None,
            },
    {
        let ghost p = |w: Worktree| w.contains_path(abs_path@);
        let mut i: usize = 0;
        while i < self.worktrees.len()
            invariant
                i <= self.worktrees.len(),
                p == (|w: Worktree| w.contains_path(abs_path@)),
                forall|j: int| 0 <= j < i ==> !p(#[trigger] self.worktrees@[j]),
            decreases self.worktrees.len() - i,
        {
            if let Some(rest) = self.worktrees[i].relative_path(abs_path) {
                proof {
                    seqs::lemma_find_first_at(self.worktrees@, p, i as int);
                }
                return Some((&self.worktrees[i], rest));
            }
            i = i + 1;
        }
        proof {
            seqs::lemma_find_first_none(self.worktrees@, p);
        }
        None
    }

    /// The worktree of this machine in which a path of the machine lies, and the path below its
    /// root.
    pub fn find_local_worktree(&self, abs_path: &str) -> (res: Option<(&Worktree, String)>)
        ensures
            match self.local_with_path(abs_path@) {
                Some(worktree) => res matches Some((found, rest)) && *found == worktree && rest@
                    == worktree.path_below_root(abs_path@),
                None => res is None,
            },
    {
        let ghost p = |w: Worktree| w.is_local && w.contains_path(abs_path@);
        let mut i: usize = 0;
        while i < self.worktrees.len()
            invariant
                i <= self.worktrees.len(),
                p == (|w: Worktree| w.is_local && w.contains_path(abs_path@)),
                forall|j: int| 0 <= j < i ==> !p(#[trigger] self.worktrees@[j]),
            decreases self.worktrees.len() - i,
        {
            if self.worktrees[i].is_local {
                if let Some(rest) = self.worktrees[i].relative_path(abs_path) {
                    proof {
                        seqs::lemma_find_first_at(self.worktrees@, p, i as int);
                    }
                    return Some((&self.worktrees[i], rest));
                }
            }
            i = i + 1;
        }
        proof {
            seqs::lemma_find_first_none(self.worktrees@, p);
        }
        None
    }

    /// The worktrees that appear in the project panel.
    pub fn visible_worktrees(&self) -> (res: Vec<&Worktree>)
        ensures
            targets(res@) == visible(self.worktrees@),
    {
        let ghost p = |w: Worktree| w.is_visible;
        let mut res: Vec<&Worktree> = Vec::new();
        let mut i: usize = 0;
        proof {
            reveal(Seq::filter);
            assert(targets(res@) =~= self.worktrees@.take(0).filter(p));
        }
        while i < self.worktrees.len()
            invariant
                i <= self.worktrees.len(),
                p == (|w: Worktree| w.is_visible),
                targets(res@) == self.worktrees@.take(i as int).filter(p),
            decreases self.worktrees.len() - i,
        {
            let ghost before = targets(res@);
            proof {
                assert(self.worktrees@.take(i as int).push(self.worktrees@[i as int])
                    =~= self.worktrees@.take(i as int + 1));
                seqs::lemma_filter_push(self.worktrees@.take(i as int), p, self.worktrees@[i as int]);
            }
            if self.worktrees[i].is_visible {
                res.push(&self.worktrees[i]);
                assert(targets(res@) =~= before.push(self.worktrees@[i as int]));
            }
            i = i + 1;
        }
        assert(self.worktrees@.take(i as int) =~= self.worktrees@);
        res
    }

    fn index_of(&self, id: WorktreeId) -> (res: Option<usize>)
        ensures
            match position(self.worktrees@, id) {
                Some(k) => res matches Some(i) && i == k && i < self.worktrees.len(),
                None => res is None,
            },
    {
        let mut i: usize = 0;
        while i < self.worktrees.len()
            invariant
                i <= self.worktrees.len(),
                forall|j: int| 0 <= j < i ==> (#[trigger] self.worktrees@[j]).id != id,
            decreases self.worktrees.len() - i,
        {
            if self.worktrees[i].id == id {
                proof {
                    lemma_position_at(self.worktrees@, id, i as int);
                }
                return Some(i);
            }
            i = i + 1;
        }
        proof {
            lemma_position_none(self.worktrees@, id);
        }
        None
    }

    /// Moves a worktree to the place of another; the ones between move up or down by one.
    ///
    /// With the order `11, 22, 33`, moving 22 to 33 gives `11, 33, 22`, and moving 22 to 11
    /// gives `22, 11, 33`. An identifier that is not there is handed back, the source first.
    /// Whether the worktrees then count as reordered is left open.
    pub fn move_worktree(&mut self, source: WorktreeId, destination: WorktreeId) -> (res: Result<
        (),
        WorktreeId,
    >)
        ensures
            match (
                position(old(self).worktrees@, source),
                position(old(self).worktrees@, destination),
            ) {
                (Some(from), Some(to)) => res is Ok && final(self).worktrees@ == moved(
                    old(self).worktrees@,
                    from,
                    to,
                ),
                (None, _) => res == Err::<(), WorktreeId>(source) && final(self).worktrees@
                    == old(self).worktrees@,
                (_, None) => res == Err::<(), WorktreeId>(destination) && final(self).worktrees@
                    == old(self).worktrees@,
            },
    {
        let from = match self.index_of(source) {
            Some(i) => i,
            None => return Err(source),
        };
        let to = match self.index_of(destination) {
            Some(i) => i,
            None => return Err(destination),
        };
        let worktree = self.worktrees.remove(from);
        self.worktrees.insert(to, worktree);
        Ok(())
    }
}

/// A project path is looked up in the worktree that it names.
impl WorktreeStore {
    /// The entry at a project path.
    pub open spec fn entry_at(self, path: ProjectPath) -> Option<Entry> {
        match self.with_id(path.worktree_id) {
            Some(worktree) => worktree.entry_at(path.path@),
            None => None,
        }
    }

    /// The entry at a project path.
    pub fn entry_for_path(&self, path: &ProjectPath) -> (res: Option<&Entry>)
        ensures
            found(res, self.entry_at(*path)),
    {
        match self.worktree_for_id(path.worktree_id) {
            Some(worktree) => worktree.entry_for_path(path.path.as_str()),
            None => None,
        }
    }
}

/// A path that lies in a worktree is the path of the root followed by the path below it.
pub proof fn law_path_below_root(worktree: Worktree, abs_path: Seq<char>)
    requires
        worktree.contains_path(abs_path),
    ensures
        path::path_components(abs_path) == path::path_components(worktree.abs_path@)
            + path::path_components(worktree.path_below_root(abs_path)),
{
    let whole = path::path_components(abs_path);
    let base = path::path_components(worktree.abs_path@);
    path::lemma_path_components_well_formed(abs_path);
    path::lemma_skip_well_formed(whole, base.len() as int);
    path::lemma_render_components(whole.skip(base.len() as int));
    assert(whole =~= whole.take(base.len() as int) + whole.skip(base.len() as int));
}

/// Whether no two worktrees have the same identifier.
pub open spec fn distinct_ids(worktrees: Seq<Worktree>) -> bool {
    forall|i: int, j: int|
        0 <= i < j < worktrees.len() ==> (#[trigger] worktrees[i]).id != (#[trigger] worktrees[j]).id
}

/// Moving a worktree loses none and adds none, puts the moved one at the place of the
/// destination, and leaves the others in their order.
pub proof fn law_move_keeps_worktrees(
    worktrees: Seq<Worktree>,
    source: WorktreeId,
    destination: WorktreeId,
)
    requires
        position(worktrees, source) is Some,
        position(worktrees, destination) is Some,
    ensures
        ({
            let from = position(worktrees, source)->0;
            let to = position(worktrees, destination)->0;
            let after = moved(worktrees, from, to);
            &&& after.to_multiset() == worktrees.to_multiset()
            &&& after[to] == worktrees[from]
            &&& after.remove(to) == worktrees.remove(from)
        }),
{
    broadcast use vstd::multiset::group_multiset_axioms;

    lemma_position_meaning(worktrees, source);
    lemma_position_meaning(worktrees, destination);
    let from = position(worktrees, source)->0;
    let to = position(worktrees, destination)->0;
    let rest = worktrees.remove(from);
    let after = moved(worktrees, from, to);
    assert(after.remove(to) =~= rest);
    vstd::seq_lib::to_multiset_insert(rest, to, worktrees[from]);
    vstd::seq_lib::to_multiset_remove(worktrees, from);
    assert(worktrees.contains(worktrees[from]));
    vstd::seq_lib::to_multiset_contains(worktrees, worktrees[from]);
    assert(after.to_multiset() =~= worktrees.to_multiset());
}

/// Moving a worktree to the place of another, and then to the place of the one that now stands
/// where it stood, restores the order.
pub proof fn law_move_back(worktrees: Seq<Worktree>, source: WorktreeId, destination: WorktreeId)
    requires
        distinct_ids(worktrees),
        position(worktrees, source) is Some,
        position(worktrees, destination) is Some,
    ensures
        ({
            let from = position(worktrees, source)->0;
            let to = position(worktrees, destination)->0;
            let after = moved(worktrees, from, to);
            &&& position(after, source) == Some(to)
            &&& position(after, after[from].id) == Some(from)
            &&& moved(after, to, from) == worktrees
        }),
{
    lemma_position_meaning(worktrees, source);
    lemma_position_meaning(worktrees, destination);
    let from = position(worktrees, source)->0;
    let to = position(worktrees, destination)->0;
    let after = moved(worktrees, from, to);
    lemma_moved(worktrees, from, to);
    lemma_moved_distinct(worktrees, from, to);
    lemma_position_in_distinct(after, to);
    lemma_position_in_distinct(after, from);
}

proof fn lemma_position_in_distinct(worktrees: Seq<Worktree>, k: int)
    requires
        distinct_ids(worktrees),
        0 <= k < worktrees.len(),
    ensures
        position(worktrees, worktrees[k].id) == Some(k),
{
    lemma_position_at(worktrees, worktrees[k].id, k);
}

spec fn source_index(from: int, to: int, k: int) -> int {
    if k == to {
        from
    } else {
        let r = if k < to {
            k
        } else {
            k - 1
        };
        if r < from {
            r
        } else {
            r + 1
        }
    }
}

proof fn lemma_moved<T>(list: Seq<T>, from: int, to: int)
    requires
        0 <= from < list.len(),
        0 <= to < list.len(),
    ensures
        moved(list, from, to).len() == list.len(),
        moved(list, from, to)[to] == list[from],
        moved(moved(list, from, to), to, from) == list,
        forall|k: int|
            0 <= k < list.len() ==> #[trigger] moved(list, from, to)[k] == list[source_index(
                from,
                to,
                k,
            )],
{
    let after = moved(list, from, to);
    assert(after.remove(to) =~= list.remove(from));
    assert(moved(after, to, from) =~= list);
}

proof fn lemma_moved_distinct(worktrees: Seq<Worktree>, from: int, to: int)
    requires
        distinct_ids(worktrees),
        0 <= from < worktrees.len(),
        0 <= to < worktrees.len(),
    ensures
        distinct_ids(moved(worktrees, from, to)),
{
    lemma_moved(worktrees, from, to);
    let after = moved(worktrees, from, to);
    assert forall|i: int, j: int| 0 <= i < j < after.len() implies (#[trigger] after[i]).id != (
    #[trigger] after[j]).id by {
        let oi = source_index(from, to, i);
        let oj = source_index(from, to, j);
        if oi < oj {
            assert(worktrees[oi].id != worktrees[oj].id);
        } else {
            assert(worktrees[oj].id != worktrees[oi].id);
        }
    }
}

/// Looking for a worktree by its identifier, by an entry or by a path gives the first with it, and
/// nothing exactly if there is none. A worktree holds a path whose components start with those of
/// its place.
pub proof fn law_worktree_lookups(
    store: WorktreeStore,
    id: WorktreeId,
    entry_id: ProjectEntryId,
    abs_path: Seq<char>,
)
    ensures
        match store.with_id(id) {
            Some(worktree) => exists|k: int|
                0 <= k < store.worktrees@.len() && #[trigger] store.worktrees@[k] == worktree
                    && worktree.id == id && forall|j: int|
                    0 <= j < k ==> (#[trigger] store.worktrees@[j]).id != id,
            None => forall|j: int|
                0 <= j < store.worktrees@.len() ==> (#[trigger] store.worktrees@[j]).id != id,
        },
        match store.with_entry(entry_id) {
            Some(worktree) => exists|k: int|
                0 <= k < store.worktrees@.len() && #[trigger] store.worktrees@[k] == worktree
                    && has_entry(worktree, entry_id) && forall|j: int|
                    0 <= j < k ==> !has_entry(#[trigger] store.worktrees@[j], entry_id),
            None => forall|j: int|
                0 <= j < store.worktrees@.len() ==> !has_entry(
                    #[trigger] store.worktrees@[j],
                    entry_id,
                ),
        },
        match store.with_path(abs_path) {
            Some(worktree) => exists|k: int|
                0 <= k < store.worktrees@.len() && #[trigger] store.worktrees@[k] == worktree
                    && lies_below(abs_path, worktree) && forall|j: int|
                    0 <= j < k ==> !lies_below(abs_path, #[trigger] store.worktrees@[j]),
            None => forall|j: int|
                0 <= j < store.worktrees@.len() ==> !lies_below(
                    abs_path,
                    #[trigger] store.worktrees@[j],
                ),
        },
        match store.local_with_path(abs_path) {
            Some(worktree) => exists|k: int|
                0 <= k < store.worktrees@.len() && #[trigger] store.worktrees@[k] == worktree
                    && worktree.is_local && lies_below(abs_path, worktree) && forall|j: int|
                    0 <= j < k ==> !((#[trigger] store.worktrees@[j]).is_local && lies_below(
                        abs_path,
                        store.worktrees@[j],
                    )),
            None => forall|j: int|
                0 <= j < store.worktrees@.len() ==> !((#[trigger] store.worktrees@[j]).is_local
                    && lies_below(abs_path, store.worktrees@[j])),
        },
        forall|worktree: Worktree| #[trigger]
            worktree.contains_path(abs_path) == lies_below(abs_path, worktree),
{
    let trees = store.worktrees@;
    seqs::lemma_find_first_index(trees, |w: Worktree| w.id == id);
    if store.with_id(id) is None {
        let p = |w: Worktree| w.id == id;
        assert(forall|j: int| 0 <= j < trees.len() ==> !p(#[trigger] trees[j]));
    } else {
        let p = |w: Worktree| w.id == id;
        let k = choose|k: int|
            0 <= k < trees.len() && trees[k] == store.with_id(id)->0 && p(trees[k]) && forall|j: int|
                0 <= j < k ==> !p(#[trigger] trees[j]);
        assert(trees[k] == store.with_id(id)->0);
        assert forall|j: int| 0 <= j < k implies (#[trigger] trees[j]).id != id by {
            assert(!p(trees[j]));
        }
    }
    let with = |w: Worktree| w.entry_with(entry_id) is Some;
    assert forall|w: Worktree| #[trigger] with(w) == has_entry(w, entry_id) by {
        law_entry_lookups(w, entry_id, Seq::empty());
    }
    seqs::lemma_find_first_index(trees, with);
    if store.with_entry(entry_id) is Some {
        let k = choose|k: int|
            0 <= k < trees.len() && trees[k] == store.with_entry(entry_id)->0 && with(trees[k])
                && forall|j: int| 0 <= j < k ==> !with(#[trigger] trees[j]);
        assert(trees[k] == store.with_entry(entry_id)->0);
        assert forall|j: int| 0 <= j < k implies !has_entry(#[trigger] trees[j], entry_id) by {
            assert(!with(trees[j]));
        }
    } else {
        assert forall|j: int| 0 <= j < trees.len() implies !has_entry(
            #[trigger] trees[j],
            entry_id,
        ) by {
            assert(!with(trees[j]));
        }
    }
    let over = |w: Worktree| w.contains_path(abs_path);
    seqs::lemma_find_first_index(trees, over);
    if store.with_path(abs_path) is Some {
        let k = choose|k: int|
            0 <= k < trees.len() && trees[k] == store.with_path(abs_path)->0 && over(trees[k])
                && forall|j: int| 0 <= j < k ==> !over(#[trigger] trees[j]);
        assert(trees[k] == store.with_path(abs_path)->0);
        assert forall|j: int| 0 <= j < k implies !lies_below(abs_path, #[trigger] trees[j]) by {
            assert(!over(trees[j]));
        }
    } else {
        assert forall|j: int| 0 <= j < trees.len() implies !lies_below(
            abs_path,
            #[trigger] trees[j],
        ) by {
            assert(!over(trees[j]));
        }
    }
    let local = |w: Worktree| w.is_local && w.contains_path(abs_path);
    seqs::lemma_find_first_index(trees, local);
    if store.local_with_path(abs_path) is Some {
        let k = choose|k: int|
            0 <= k < trees.len() && trees[k] == store.local_with_path(abs_path)->0 && local(
                trees[k],
            ) && forall|j: int| 0 <= j < k ==> !local(#[trigger] trees[j]);
        assert(trees[k] == store.local_with_path(abs_path)->0);
        assert forall|j: int| 0 <= j < k implies !((#[trigger] trees[j]).is_local && lies_below(
            abs_path,
            trees[j],
        )) by {
            assert(!local(trees[j]));
        }
    } else {
        assert forall|j: int| 0 <= j < trees.len() implies !((#[trigger] trees[j]).is_local
            && lies_below(abs_path, trees[j])) by {
            assert(!local(trees[j]));
        }
    }
}

/// Whether one of the entries has an identifier.
pub open spec fn has_entry(worktree: Worktree, id: ProjectEntryId) -> bool {
    exists|i: int| 0 <= i < worktree.entries@.len() && (#[trigger] worktree.entries@[i]).id == id
}

/// Whether a path of the machine is the place of a worktree, or a path below it.
pub open spec fn lies_below(abs_path: Seq<char>, worktree: Worktree) -> bool {
    path::path_components(worktree.abs_path@).is_prefix_of(path::path_components(abs_path))
}

/// Whether the entry at `k` is the first of a worktree whose path has these components; whether it
/// is a directory or ignored does not matter.
pub open spec fn first_entry_at(worktree: Worktree, list: Seq<ComponentView>, k: int) -> bool {
    &&& 0 <= k < worktree.entries@.len()
    &&& path::path_components(worktree.entries@[k].path@) == list
    &&& forall|j: int|
        0 <= j < k ==> path::path_components((#[trigger] worktree.entries@[j]).path@) != list
}

/// Looking for an entry of a worktree by its identifier or by its path gives the first with it, and
/// nothing exactly if there is none.
pub proof fn law_entry_lookups(worktree: Worktree, id: ProjectEntryId, path: Seq<char>)
    ensures
        match worktree.entry_with(id) {
            Some(entry) => exists|k: int|
                0 <= k < worktree.entries@.len() && #[trigger] worktree.entries@[k] == entry
                    && entry.id == id && forall|j: int|
                    0 <= j < k ==> (#[trigger] worktree.entries@[j]).id != id,
            None => !has_entry(worktree, id),
        },
        worktree.entry_with(id) is Some ==> has_entry(worktree, id),
        match worktree.entry_at(path) {
            Some(entry) => exists|k: int|
                #[trigger] worktree.entries@[k] == entry && first_entry_at(
                    worktree,
                    path::path_components(path),
                    k,
                ),
            None => forall|j: int|
                0 <= j < worktree.entries@.len() ==> path::path_components(
                    (#[trigger] worktree.entries@[j]).path@,
                ) != path::path_components(path),
        },
{
    let entries = worktree.entries@;
    let own = |e: Entry| e.id == id;
    seqs::lemma_find_first_index(entries, own);
    if worktree.entry_with(id) is Some {
        let k = choose|k: int|
            0 <= k < entries.len() && entries[k] == worktree.entry_with(id)->0 && own(entries[k])
                && forall|j: int| 0 <= j < k ==> !own(#[trigger] entries[j]);
        assert(entries[k] == worktree.entry_with(id)->0);
        assert forall|j: int| 0 <= j < k implies (#[trigger] entries[j]).id != id by {
            assert(!own(entries[j]));
        }
    } else {
        assert forall|j: int| 0 <= j < entries.len() implies (#[trigger] entries[j]).id != id by {
            assert(!own(entries[j]));
        }
    }
    lemma_entry_at(worktree, path::path_components(path));
}

/// What is found at the components of a path.
pub proof fn lemma_entry_at(worktree: Worktree, list: Seq<ComponentView>)
    ensures
        match worktree.entry_at_components(list) {
            Some(entry) => exists|k: int|
                #[trigger] worktree.entries@[k] == entry && first_entry_at(worktree, list, k),
            None => forall|j: int|
                0 <= j < worktree.entries@.len() ==> path::path_components(
                    (#[trigger] worktree.entries@[j]).path@,
                ) != list,
        },
{
    let entries = worktree.entries@;
    let there = |e: Entry| path::path_components(e.path@) == list;
    seqs::lemma_find_first_index(entries, there);
    match worktree.entry_at_components(list) {
        Some(entry) => {
            let k = choose|k: int|
                0 <= k < entries.len() && entries[k] == entry && there(entries[k]) && forall|j: int|
                    0 <= j < k ==> !there(#[trigger] entries[j]);
            assert(entries[k] == entry);
            assert forall|j: int| 0 <= j < k implies path::path_components(
                (#[trigger] entries[j]).path@,
            ) != list by {
                assert(!there(entries[j]));
            }
            assert(first_entry_at(worktree, list, k));
        },
        None => {
            assert forall|j: int| 0 <= j < entries.len() implies path::path_components(
                (#[trigger] entries[j]).path@,
            ) != list by {
                assert(!there(entries[j]));
            }
        },
    }
}

/// The worktrees of the project panel are those that are visible, in their order.
pub proof fn law_visible_worktrees(a: Seq<Worktree>, b: Seq<Worktree>, worktree: Worktree)
    ensures
        visible(a + b) == visible(a) + visible(b),
        worktree.is_visible ==> visible(seq![worktree]) == seq![worktree],
        !worktree.is_visible ==> visible(seq![worktree]) == Seq::<Worktree>::empty(),
        visible(Seq::empty()) == Seq::<Worktree>::empty(),
{
    reveal(Seq::filter);
    seqs::lemma_filter_concat(a, b, |w: Worktree| w.is_visible);
    assert(seq![worktree].drop_last() =~= Seq::empty());
    assert(visible(Seq::empty()) =~= Seq::<Worktree>::empty());
    assert(visible(seq![worktree]) =~= if worktree.is_visible {
        seq![worktree]
    } else {
        Seq::empty()
    });
}

/// What is found is what was looked for, and a list of references shows what they refer to.
pub proof fn law_references<T>(res: Option<&T>, want: Option<T>, list: Seq<&T>)
    ensures
        found(res, want) <==> (res is Some <==> want is Some) && (res is Some ==> Some(*res->0)
            == want),
        targets(list).len() == list.len(),
        forall|i: int| 0 <= i < list.len() ==> #[trigger] targets(list)[i] == *list[i],
{
}

/// Whether the worktree at `k` is the first with an identifier.
pub open spec fn first_with_id(worktrees: Seq<Worktree>, id: WorktreeId, k: int) -> bool {
    &&& 0 <= k < worktrees.len()
    &&& worktrees[k].id == id
    &&& forall|j: int| 0 <= j < k ==> (#[trigger] worktrees[j]).id != id
}

/// What is found by an identifier.
pub proof fn lemma_first_with_id(store: WorktreeStore, id: WorktreeId)
    ensures
        match store.with_id(id) {
            Some(worktree) => exists|k: int| #[trigger]
                store.worktrees@[k] == worktree && first_with_id(store.worktrees@, id, k),
            None => forall|k: int| !#[trigger] first_with_id(store.worktrees@, id, k),
        },
{
    let trees = store.worktrees@;
    law_worktree_lookups(store, id, ProjectEntryId(0), Seq::empty());
    if let Some(worktree) = store.with_id(id) {
        let k = choose|k: int|
            0 <= k < trees.len() && #[trigger] trees[k] == worktree && worktree.id == id && forall|
                j: int,
            |
                0 <= j < k ==> (#[trigger] trees[j]).id != id;
        assert(trees[k] == worktree && first_with_id(trees, id, k));
    }
}

/// What is moved comes to stand where the other stood, while those between
/// make room by one place and all others stay.
pub proof fn law_moved_places<T>(list: Seq<T>, from: int, to: int, k: int)
    requires
        0 <= from < list.len(),
        0 <= to < list.len(),
        0 <= k < list.len(),
    ensures
        moved(list, from, to).len() == list.len(),
        k == to ==> moved(list, from, to)[k] == list[from],
        k < from && k < to ==> moved(list, from, to)[k] == list[k],
        from < k && to < k ==> moved(list, from, to)[k] == list[k],
        from <= k < to ==> moved(list, from, to)[k] == list[k + 1],
        to < k <= from ==> moved(list, from, to)[k] == list[k - 1],
{
}

/// The path below the root is written as what follows the root in the path, and nothing more.
pub proof fn law_text_below_root(worktree: Worktree, abs_path: Seq<char>, list: Seq<ComponentView>)
    requires
        path::path_components(abs_path) == path::path_components(worktree.abs_path@) + list,
    ensures
        worktree.contains_path(abs_path),
        worktree.path_below_root(abs_path) == path::render(list),
{
    let root = path::path_components(worktree.abs_path@);
    assert((root + list).take(root.len() as int) =~= root);
    assert((root + list).skip(root.len() as int) =~= list);
}

} // verus!
