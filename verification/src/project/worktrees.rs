//! Finding worktrees, entries and paths.
use super::{Project, ProjectView};
use crate::event::{Effect, Event, ProjectError};
use crate::ids::{ProjectEntryId, WorktreeId};
use crate::path;
use crate::path::{strip_prefix, ComponentView};
use crate::project_path::ProjectPath;
use crate::seqs;
use crate::worktree;
use crate::worktree::{Entry, Worktree, WorktreeStore};
use vstd::prelude::*;

verus! {

/// What a worktree is asked to do with an entry.
#[allow(inconsistent_fields)]
#[derive(Debug, PartialEq)]
pub enum EntryRequest {
    Create { worktree_id: WorktreeId, path: String, is_directory: bool },
    Copy {
        worktree_id: WorktreeId,
        entry_id: ProjectEntryId,
        relative_worktree_source_path: Option<String>,
        new_path: String,
    },
    Rename { worktree_id: WorktreeId, entry_id: ProjectEntryId, new_path: String },
    Delete { worktree_id: WorktreeId, entry_id: ProjectEntryId, trash: bool },
    Expand { worktree_id: WorktreeId, entry_id: ProjectEntryId },
}

/// How many diagnostics there are.
#[derive(Clone, Copy, Debug, PartialEq, Eq, Structural)]
pub struct DiagnosticSummary {
    pub error_count: usize,
    pub warning_count: usize,
}

/// The number of errors in all.
pub open spec fn error_total(summaries: Seq<DiagnosticSummary>) -> nat
    decreases summaries.len(),
{
    if summaries.len() == 0 {
        0
    } else {
        error_total(summaries.drop_last()) + summaries.last().error_count as nat
    }
}

/// The number of warnings in all.
pub open spec fn warning_total(summaries: Seq<DiagnosticSummary>) -> nat
    decreases summaries.len(),
{
    if summaries.len() == 0 {
        0
    } else {
        warning_total(summaries.drop_last()) + summaries.last().warning_count as nat
    }
}

proof fn lemma_totals_grow(summaries: Seq<DiagnosticSummary>, n: int)
    requires
        0 <= n <= summaries.len(),
    ensures
        error_total(summaries.take(n)) <= error_total(summaries),
        warning_total(summaries.take(n)) <= warning_total(summaries),
    decreases summaries.len(),
{
    if n == summaries.len() {
        assert(summaries.take(n) =~= summaries);
    } else {
        assert(summaries.drop_last().take(n) =~= summaries.take(n));
        lemma_totals_grow(summaries.drop_last(), n);
    }
}

/// Whether a worktree of this machine holds a path of the machine.
pub open spec fn holds(worktree: Worktree, abs_path: Seq<char>) -> bool {
    worktree.is_local && worktree.contains_path(abs_path)
}

/// Whether some worktree of this machine holds a path of the machine.
pub open spec fn held(worktrees: Seq<Worktree>, abs_path: Seq<char>) -> bool {
    exists|i: int| 0 <= i < worktrees.len() && holds(#[trigger] worktrees[i], abs_path)
}

/// Whether some worktree of this machine that appears in the project panel holds a path.
pub open spec fn shown(worktrees: Seq<Worktree>, abs_path: Seq<char>) -> bool {
    exists|i: int|
        0 <= i < worktrees.len() && holds(#[trigger] worktrees[i], abs_path)
            && worktrees[i].is_visible
}

impl ProjectView {
    /// Whether a path of the machine is in the project, and then whether it appears in the
    /// project panel.
    pub open spec fn visibility(self, abs_path: Seq<char>) -> Option<bool> {
        if held(self.worktree_store.worktrees@, abs_path) {
            Some(shown(self.worktree_store.worktrees@, abs_path))
        } else {
            None
        }
    }

    /// The worktree that a path names first of all, if there is one: its root name starts the
    /// path.
    pub open spec fn named_by(self, path: Seq<char>) -> Option<Worktree> {
        seqs::find_first(
            worktree::visible(self.worktree_store.worktrees@),
            |w: Worktree|
                path::starts_with(
                    path::path_components(path),
                    path::path_components(w.root_name@),
                ),
        )
    }

    /// The first worktree that has an entry at a relative path.
    pub open spec fn with_entry_at(self, path: Seq<char>) -> Option<Worktree> {
        seqs::find_first(
            worktree::visible(self.worktree_store.worktrees@),
            |w: Worktree| w.entry_at(path) is Some,
        )
    }

    /// The entry that a project path names.
    pub open spec fn entry_named(self, entry: Option<ProjectPath>) -> Option<ProjectEntryId> {
        match entry {
            Some(path) => match self.worktree_store.entry_at(path) {
                Some(entry) => Some(entry.id),
                None => None,
            },
            None => None,
        }
    }
}

impl Project {
    /// Takes over which worktrees there are.
    pub fn set_worktrees(&mut self, worktrees: Vec<Worktree>)
        requires
            old(self).wf(),
        ensures
            final(self).wf(),
            final(self)@ == (ProjectView {
                worktree_store: WorktreeStore {
                    worktrees,
                    worktrees_reordered: old(self)@.worktree_store.worktrees_reordered,
                },
                ..old(self)@
            }),
    {
        self.worktree_store =
        WorktreeStore { worktrees, worktrees_reordered: self.worktree_store.worktrees_reordered };
    }

    /// Whether the user put the worktrees into another order.
    pub fn set_worktrees_reordered(&mut self, worktrees_reordered: bool)
        requires
            old(self).wf(),
        ensures
            final(self).wf(),
            final(self)@ == (ProjectView {
                worktree_store: WorktreeStore {
                    worktrees_reordered,
                    ..old(self)@.worktree_store
                },
                ..old(self)@
            }),
    {
        self.worktree_store.worktrees_reordered = worktrees_reordered;
    }

    /// All worktrees, also those that do not appear in the project panel.
    pub fn worktrees(&self) -> (res: &Vec<Worktree>)
        ensures
            *res == self@.worktree_store.worktrees,
    {
        &self.worktree_store.worktrees
    }

    /// The worktrees that appear in the project panel.
    pub fn visible_worktrees(&self) -> (res: Vec<&Worktree>)
        ensures
            worktree::targets(res@) == worktree::visible(self@.worktree_store.worktrees@),
    {
        self.worktree_store.visible_worktrees()
    }

    /// The names of the worktrees that appear in the project panel.
    pub fn worktree_root_names(&self) -> (res: Vec<&str>)
        ensures
            res.len() == worktree::visible(self@.worktree_store.worktrees@).len(),
            forall|i: int|
                0 <= i < res.len() ==> (#[trigger] res@[i])@ == worktree::visible(
                    self@.worktree_store.worktrees@,
                )[i].root_name@,
    {
        let trees = self.visible_worktrees();
        let ghost want = worktree::visible(self.worktree_store.worktrees@);
        let mut res: Vec<&str> = Vec::new();
        let mut i: usize = 0;
        assert(trees.len() == worktree::targets(trees@).len());
        while i < trees.len()
            invariant
                i <= trees.len(),
                res.len() == i,
                worktree::targets(trees@) == want,
                trees.len() == want.len(),
                forall|j: int| 0 <= j < i ==> (#[trigger] res@[j])@ == want[j].root_name@,
            decreases trees.len() - i,
        {
            assert(worktree::targets(trees@)[i as int] == *trees@[i as int]);
            res.push(trees[i].root_name.as_str());
            i = i + 1;
        }
        res
    }

    /// The worktree with an identifier.
    pub fn worktree_for_id(&self, id: WorktreeId) -> (res: Option<&Worktree>)
        ensures
            worktree::found(res, self@.worktree_store.with_id(id)),
    {
        self.worktree_store.worktree_for_id(id)
    }

    /// The worktree that holds an entry.
    pub fn worktree_for_entry(&self, entry_id: ProjectEntryId) -> (res: Option<&Worktree>)
        ensures
            worktree::found(res, self@.worktree_store.with_entry(entry_id)),
    {
        self.worktree_store.worktree_for_entry(entry_id)
    }

    /// The identifier of the worktree that holds an entry.
    pub fn worktree_id_for_entry(&self, entry_id: ProjectEntryId) -> (res: Option<WorktreeId>)
        ensures
            res == (match self@.worktree_store.with_entry(entry_id) {
                Some(worktree) => Some(worktree.id),
                None => None,
            }),
    {
        match self.worktree_for_entry(entry_id) {
            Some(worktree) => Some(worktree.id),
            None => None,
        }
    }

    /// Whether an entry is the root of a worktree.
    pub fn entry_is_worktree_root(&self, entry_id: ProjectEntryId) -> (res: bool)
        ensures
            res == (self@.worktree_store.with_entry(entry_id) matches Some(worktree)
                && worktree.root_entry matches Some(root) && root.id == entry_id),
    {
        match self.worktree_for_entry(entry_id) {
            Some(worktree) => match &worktree.root_entry {
                Some(root) => root.id == entry_id,
                None => false,
            },
            None => false,
        }
    }

    /// Whether a path of the machine is in the project, and then whether it appears in the
    /// project panel.
    pub fn visibility_for_path(&self, abs_path: &str) -> (res: Option<bool>)
        ensures
            res == self@.visibility(abs_path@),
    {
        let mut res: Option<bool> = None;
        let ghost worktrees = self.worktree_store.worktrees@;
        let mut i: usize = 0;
        while i < self.worktree_store.worktrees.len()
            invariant
                i <= self.worktree_store.worktrees.len(),
                worktrees == self.worktree_store.worktrees@,
                res is Some <==> exists|j: int|
                    0 <= j < i && holds(#[trigger] worktrees[j], abs_path@),
                res == Some(true) <==> exists|j: int|
                    0 <= j < i && holds(#[trigger] worktrees[j], abs_path@)
                        && worktrees[j].is_visible,
            decreases self.worktree_store.worktrees.len() - i,
        {
            let tree = &self.worktree_store.worktrees[i];
            if tree.is_local && tree.contains_abs_path(abs_path) {
                assert(holds(worktrees[i as int], abs_path@));
                if tree.is_visible {
                    res = Some(true);
                } else if res.is_none() {
                    res = Some(false);
                }
            }
            i = i + 1;
        }
        res
    }

    /// Whether one of the paths is in the project, and then whether one of them appears in the
    /// project panel.
    pub fn visibility_for_paths(&self, paths: &Vec<String>) -> (res: Option<bool>)
        ensures
            res is Some <==> exists|i: int|
                0 <= i < paths.len() && self@.visibility((#[trigger] paths@[i])@) is Some,
            res == Some(true) <==> exists|i: int|
                0 <= i < paths.len() && self@.visibility((#[trigger] paths@[i])@) == Some(true),
    {
        let mut res: Option<bool> = None;
        let mut i: usize = 0;
        while i < paths.len()
            invariant
                i <= paths.len(),
                res is Some <==> exists|j: int|
                    0 <= j < i && self@.visibility((#[trigger] paths@[j])@) is Some,
                res == Some(true) <==> exists|j: int|
                    0 <= j < i && self@.visibility((#[trigger] paths@[j])@) == Some(true),
            decreases paths.len() - i,
        {
            let own = self.visibility_for_path(paths[i].as_str());
            assert(own == self@.visibility(paths@[i as int]@));
            match own {
                Some(true) => {
                    res = Some(true);
                },
                Some(false) => {
                    if res.is_none() {
                        res = Some(false);
                    }
                },
                None => {},
            }
            i = i + 1;
        }
        res
    }

    /// Asks for a new file or directory.
    pub fn create_entry(&self, project_path: ProjectPath, is_directory: bool) -> (res: Result<
        EntryRequest,
        ProjectError,
    >)
        ensures
            res == (if self@.worktree_store.with_id(project_path.worktree_id) is Some {
                Ok(
                    EntryRequest::Create {
                        worktree_id: project_path.worktree_id,
                        path: project_path.path,
                        is_directory,
                    },
                )
            } else {
                Err(ProjectError::NoWorktreeForPath(project_path))
            }),
    {
        if self.worktree_for_id(project_path.worktree_id).is_none() {
            return Err(ProjectError::NoWorktreeForPath(project_path));
        }
        Ok(
            EntryRequest::Create {
                worktree_id: project_path.worktree_id,
                path: project_path.path,
                is_directory,
            },
        )
    }

    /// Asks to copy an entry; nothing happens to one that is not in the project.
    pub fn copy_entry(
        &self,
        entry_id: ProjectEntryId,
        relative_worktree_source_path: Option<String>,
        new_path: String,
    ) -> (res: Option<EntryRequest>)
        ensures
            res == (match self@.worktree_store.with_entry(entry_id) {
                Some(worktree) => Some(
                    EntryRequest::Copy {
                        worktree_id: worktree.id,
                        entry_id,
                        relative_worktree_source_path,
                        new_path,
                    },
                ),
                None => None,
            }),
    {
        match self.worktree_for_entry(entry_id) {
            Some(worktree) => Some(
                EntryRequest::Copy {
                    worktree_id: worktree.id,
                    entry_id,
                    relative_worktree_source_path,
                    new_path,
                },
            ),
            None => None,
        }
    }

    /// Asks to rename an entry.
    pub fn rename_entry(&self, entry_id: ProjectEntryId, new_path: String) -> (res: Result<
        EntryRequest,
        ProjectError,
    >)
        ensures
            res == (match self@.worktree_store.with_entry(entry_id) {
                Some(worktree) => Ok::<EntryRequest, ProjectError>(
                    EntryRequest::Rename { worktree_id: worktree.id, entry_id, new_path },
                ),
                None => Err(ProjectError::NoWorktreeForEntry(entry_id)),
            }),
    {
        match self.worktree_for_entry(entry_id) {
            Some(worktree) => Ok(
                EntryRequest::Rename { worktree_id: worktree.id, entry_id, new_path },
            ),
            None => Err(ProjectError::NoWorktreeForEntry(entry_id)),
        }
    }

    /// Asks to delete an entry.
    pub fn delete_entry(&self, entry_id: ProjectEntryId, trash: bool) -> (res: Option<EntryRequest>)
        ensures
            res == (match self@.worktree_store.with_entry(entry_id) {
                Some(worktree) => Some(
                    EntryRequest::Delete { worktree_id: worktree.id, entry_id, trash },
                ),
                None => None,
            }),
    {
        match self.worktree_for_entry(entry_id) {
            Some(worktree) => Some(
                EntryRequest::Delete { worktree_id: worktree.id, entry_id, trash },
            ),
            None => None,
        }
    }

    /// Asks to look into a directory.
    pub fn expand_entry(&self, worktree_id: WorktreeId, entry_id: ProjectEntryId) -> (res: Option<
        EntryRequest,
    >)
        ensures
            res == (if self@.worktree_store.with_id(worktree_id) is Some {
                Some(EntryRequest::Expand { worktree_id, entry_id })
            } else {
                None
            }),
    {
        match self.worktree_for_id(worktree_id) {
            Some(_) => Some(EntryRequest::Expand { worktree_id, entry_id }),
            None => None,
        }
    }

    /// Moves a worktree to the place of another, as [`WorktreeStore::move_worktree`] says.
    pub fn move_worktree(&mut self, source: WorktreeId, destination: WorktreeId) -> (res: Result<
        (),
        ProjectError,
    >)
        requires
            old(self).wf(),
        ensures
            final(self).wf(),
            final(self)@ == (ProjectView {
                worktree_store: final(self)@.worktree_store,
                ..old(self)@
            }),
            match (
                worktree::position(old(self)@.worktree_store.worktrees@, source),
                worktree::position(old(self)@.worktree_store.worktrees@, destination),
            ) {
                (Some(from), Some(to)) => res == Ok::<(), ProjectError>(())
                    && final(self)@.worktree_store.worktrees@ == worktree::moved(
                    old(self)@.worktree_store.worktrees@,
                    from,
                    to,
                ),
                (None, _) => res == Err::<(), ProjectError>(ProjectError::WorktreeNotFound(source))
                    && final(self)@.worktree_store.worktrees@
                    == old(self)@.worktree_store.worktrees@,
                (_, None) => res == Err::<(), ProjectError>(
                    ProjectError::WorktreeNotFound(destination),
                ) && final(self)@.worktree_store.worktrees@
                    == old(self)@.worktree_store.worktrees@,
            },
    {
        match self.worktree_store.move_worktree(source, destination) {
            Ok(()) => Ok(()),
            Err(id) => Err(ProjectError::WorktreeNotFound(id)),
        }
    }

    /// The worktree in which a path of the machine lies, and the path below its root.
    pub fn find_worktree(&self, abs_path: &str) -> (res: Option<(&Worktree, String)>)
        ensures
            match self@.worktree_store.with_path(abs_path@) {
                Some(worktree) => res matches Some((found, rest)) && *found == worktree && rest@
                    == worktree.path_below_root(abs_path@),
                None => res is None,
            },
    {
        self.worktree_store.find_worktree(abs_path)
    }

    /// The worktree of this machine in which a path of the machine lies, and the path below its
    /// root.
    pub fn find_local_worktree(&self, abs_path: &str) -> (res: Option<(&Worktree, String)>)
        ensures
            match self@.worktree_store.local_with_path(abs_path@) {
                Some(worktree) => res matches Some((found, rest)) && *found == worktree && rest@
                    == worktree.path_below_root(abs_path@),
                None => res is None,
            },
    {
        self.worktree_store.find_local_worktree(abs_path)
    }

    /// The project path of a path of the machine.
    pub fn project_path_for_absolute_path(&self, abs_path: &str) -> (res: Option<ProjectPath>)
        ensures
            match self@.worktree_store.local_with_path(abs_path@) {
                Some(worktree) => res matches Some(path) && path.worktree_id == worktree.id
                    && path.path@ == worktree.path_below_root(abs_path@),
                None => res is None,
            },
    {
        match self.find_local_worktree(abs_path) {
            Some((worktree, path)) => Some(ProjectPath { worktree_id: worktree.id, path }),
            None => None,
        }
    }

    /// Where the root of the worktree of a project path lies.
    pub fn get_workspace_root(&self, project_path: &ProjectPath) -> (res: Option<String>)
        ensures
            res == (match self@.worktree_store.with_id(project_path.worktree_id) {
                Some(worktree) => Some(worktree.abs_path),
                None => None,
            }),
    {
        match self.worktree_for_id(project_path.worktree_id) {
            Some(worktree) => Some(worktree.abs_path.clone()),
            None => None,
        }
    }

    /// Where a project path lies; `absolutized` is what its worktree makes of it.
    pub fn absolute_path(&self, project_path: &ProjectPath, absolutized: Option<String>) -> (res:
        Option<String>)
        ensures
            res == (if self@.worktree_store.with_id(project_path.worktree_id) is Some {
                absolutized
            } else {
                None
            }),
    {
        match self.worktree_for_id(project_path.worktree_id) {
            Some(_) => absolutized,
            None => None,
        }
    }

    /// The entry at a project path.
    pub fn entry_for_path(&self, path: &ProjectPath) -> (res: Option<&Entry>)
        ensures
            worktree::found(res, self@.worktree_store.entry_at(*path)),
    {
        self.worktree_store.entry_for_path(path)
    }

    /// The project path of an entry.
    pub fn path_for_entry(&self, entry_id: ProjectEntryId) -> (res: Option<ProjectPath>)
        ensures
            res == (match self@.worktree_store.with_entry(entry_id) {
                Some(worktree) => match worktree.entry_with(entry_id) {
                    Some(entry) => Some(
                        ProjectPath { worktree_id: worktree.id, path: entry.path },
                    ),
                    None => None,
                },
                None => None,
            }),
    {
        let worktree = match self.worktree_for_entry(entry_id) {
            Some(worktree) => worktree,
            None => return None,
        };
        match worktree.entry_for_id(entry_id) {
            Some(entry) => Some(
                ProjectPath { worktree_id: worktree.id, path: entry.path.clone() },
            ),
            None => None,
        }
    }

    /// The user works on another entry, or on none.
    pub fn set_active_path(&mut self, entry: Option<ProjectPath>) -> (effects: Vec<Effect>)
        requires
            old(self).wf(),
        ensures
            final(self).wf(),
            ({
                let named = old(self)@.entry_named(entry);
                &&& final(self)@ == (ProjectView { active_entry: named, ..old(self)@ })
                &&& effects@ == (if named != old(self)@.active_entry {
                    seq![
                        Effect::SetActiveEntry(named),
                        Effect::Emit(Event::ActiveEntryChanged(named)),
                    ]
                } else {
                    Seq::empty()
                })
            }),
    {
        let new_active_entry: Option<ProjectEntryId> = match entry {
            Some(path) => match self.entry_for_path(&path) {
                Some(entry) => Some(entry.id),
                None => None,
            },
            None => None,
        };
        let same = match (new_active_entry, self.active_entry) {
            (Some(a), Some(b)) => a == b,
            (None, None) => true,
            _ => false,
        };
        if same {
            return Vec::new();
        }
        self.active_entry = new_active_entry;
        vec![
            Effect::SetActiveEntry(new_active_entry),
            Effect::Emit(Event::ActiveEntryChanged(new_active_entry)),
        ]
    }

    /// The project path that a path stands for: one that starts with the root name of a worktree
    /// lies in that worktree; another is a relative path in the first worktree of the project
    /// panel that has an entry there.
    pub fn find_project_path(&self, path: &str) -> (res: Option<ProjectPath>)
        ensures
            match self@.named_by(path@) {
                Some(worktree) => res matches Some(found) && found.worktree_id == worktree.id
                    && found.path@ == path::render(
                    path::path_components(path@).skip(
                        path::path_components(worktree.root_name@).len() as int,
                    ),
                ),
                None => match self@.with_entry_at(path@) {
                    Some(worktree) => res == Some(
                        ProjectPath {
                            worktree_id: worktree.id,
                            path: worktree.entry_at(path@)->0.path,
                        },
                    ),
                    None => res is None,
                },
            },
    {
        let trees = self.visible_worktrees();
        let ghost list = worktree::visible(self.worktree_store.worktrees@);
        let ghost named = |w: Worktree|
            path::starts_with(path::path_components(path@), path::path_components(w.root_name@));
        let ghost at = |w: Worktree| w.entry_at(path@) is Some;
        assert(trees.len() == worktree::targets(trees@).len());
        let mut i: usize = 0;
        while i < trees.len()
            invariant
                i <= trees.len(),
                trees.len() == list.len(),
                worktree::targets(trees@) == list,
                list == worktree::visible(self@.worktree_store.worktrees@),
                named == (|w: Worktree|
                    path::starts_with(
                        path::path_components(path@),
                        path::path_components(w.root_name@),
                    )),
                forall|j: int| 0 <= j < i ==> !named(#[trigger] list[j]),
            decreases trees.len() - i,
        {
            let tree = trees[i];
            assert(worktree::targets(trees@)[i as int] == *tree);
            if let Some(rest) = strip_prefix(path, tree.root_name.as_str()) {
                proof {
                    seqs::lemma_find_first_at(list, named, i as int);
                }
                return Some(ProjectPath { worktree_id: tree.id, path: rest });
            }
            i = i + 1;
        }
        proof {
            seqs::lemma_find_first_none(list, named);
        }
        let mut k: usize = 0;
        while k < trees.len()
            invariant
                k <= trees.len(),
                trees.len() == list.len(),
                worktree::targets(trees@) == list,
                list == worktree::visible(self@.worktree_store.worktrees@),
                self@.named_by(path@) is None,
                at == (|w: Worktree| w.entry_at(path@) is Some),
                forall|j: int| 0 <= j < k ==> !at(#[trigger] list[j]),
            decreases trees.len() - k,
        {
            let tree = trees[k];
            assert(worktree::targets(trees@)[k as int] == *tree);
            if let Some(entry) = tree.entry_for_path(path) {
                proof {
                    seqs::lemma_find_first_at(list, at, k as int);
                }
                return Some(ProjectPath { worktree_id: tree.id, path: entry.path.clone() });
            }
            k = k + 1;
        }
        proof {
            seqs::lemma_find_first_none(list, at);
        }
        None
    }

    /// How many diagnostics there are in all.
    pub fn diagnostic_summary(&self, summaries: &Vec<DiagnosticSummary>) -> (res: DiagnosticSummary)
        requires
            error_total(summaries@) <= usize::MAX,
            warning_total(summaries@) <= usize::MAX,
        ensures
            res.error_count == error_total(summaries@),
            res.warning_count == warning_total(summaries@),
    {
        let mut summary = DiagnosticSummary { error_count: 0, warning_count: 0 };
        let mut i: usize = 0;
        while i < summaries.len()
            invariant
                i <= summaries.len(),
                error_total(summaries@) <= usize::MAX,
                warning_total(summaries@) <= usize::MAX,
                summary.error_count == error_total(summaries@.take(i as int)),
                summary.warning_count == warning_total(summaries@.take(i as int)),
            decreases summaries.len() - i,
        {
            proof {
                lemma_totals_grow(summaries@, i as int + 1);
                assert(summaries@.take(i as int + 1).drop_last() =~= summaries@.take(i as int));
            }
            summary.error_count = summary.error_count + summaries[i].error_count;
            summary.warning_count = summary.warning_count + summaries[i].warning_count;
            i = i + 1;
        }
        assert(summaries@.take(i as int) =~= summaries@);
        summary
    }
}

/// The project path of an entry leads back to the entry, if no two entries of its worktree have
/// the same path and no two worktrees the same identifier.
pub proof fn law_path_leads_to_entry(store: WorktreeStore, entry_id: ProjectEntryId)
    requires
        store.with_entry(entry_id) is Some,
        worktree::distinct_ids(store.worktrees@),
        forall|i: int, j: int|
            #![trigger store.with_entry(entry_id)->0.entries@[i], store.with_entry(entry_id)->0.entries@[j]]
            0 <= i < j < store.with_entry(entry_id)->0.entries@.len() ==> path::path_components(
                store.with_entry(entry_id)->0.entries@[i].path@,
            ) != path::path_components(store.with_entry(entry_id)->0.entries@[j].path@),
    ensures
        ({
            let worktree = store.with_entry(entry_id)->0;
            let entry = worktree.entry_with(entry_id)->0;
            store.entry_at(ProjectPath { worktree_id: worktree.id, path: entry.path }) == Some(entry)
        }),
{
    let worktree = store.with_entry(entry_id)->0;
    let holds_it = |w: Worktree| w.entry_with(entry_id) is Some;
    seqs::lemma_find_first_meaning(store.worktrees@, holds_it);
    let k = choose|k: int| 0 <= k < store.worktrees@.len() && store.worktrees@[k] == worktree;
    let with_id = |w: Worktree| w.id == worktree.id;
    assert forall|j: int| 0 <= j < k implies !with_id(#[trigger] store.worktrees@[j]) by {
        assert(store.worktrees@[j].id != store.worktrees@[k].id);
    }
    seqs::lemma_find_first_at(store.worktrees@, with_id, k);
    assert(store.with_id(worktree.id) == Some(worktree));
    let entry = worktree.entry_with(entry_id)->0;
    let has_id = |e: Entry| e.id == entry_id;
    seqs::lemma_find_first_meaning(worktree.entries@, has_id);
    let n = choose|n: int| 0 <= n < worktree.entries@.len() && worktree.entries@[n] == entry;
    let list = path::path_components(entry.path@);
    let there = |e: Entry| path::path_components(e.path@) == list;
    assert forall|j: int| 0 <= j < n implies !there(#[trigger] worktree.entries@[j]) by {
        assert(path::path_components(worktree.entries@[j].path@) != path::path_components(
            worktree.entries@[n].path@,
        ));
    }
    seqs::lemma_find_first_at(worktree.entries@, there, n);
}

/// Whether a worktree of the project panel has an entry, file or directory, whose path has these
/// components.
pub open spec fn shows_entry(worktree: Worktree, list: Seq<ComponentView>) -> bool {
    worktree.is_visible && exists|k: int|
        0 <= k < worktree.entries@.len() && path::path_components(
            (#[trigger] worktree.entries@[k]).path@,
        ) == list
}

/// Whether the components of a path start with those of the root name of a worktree of the project
/// panel.
pub open spec fn starts_in(list: Seq<ComponentView>, worktree: Worktree) -> bool {
    worktree.is_visible && path::path_components(worktree.root_name@).is_prefix_of(list)
}

/// A path that starts with the root name of a worktree of the project panel lies in the first such
/// worktree, at the rest of the path. Any other stands for the entry, be it a file or a directory,
/// of the first worktree of the project panel that has an entry there, and for nothing exactly if
/// none has.
pub proof fn law_find_project_path(view: ProjectView, path: Seq<char>, res: Option<ProjectPath>)
    requires
        match view.named_by(path) {
            Some(worktree) => res matches Some(found) && found.worktree_id == worktree.id
                && found.path@ == path::render(
                path::path_components(path).skip(
                    path::path_components(worktree.root_name@).len() as int,
                ),
            ),
            None => match view.with_entry_at(path) {
                Some(worktree) => res == Some(
                    ProjectPath {
                        worktree_id: worktree.id,
                        path: worktree.entry_at(path)->0.path,
                    },
                ),
                None => res is None,
            },
        },
    ensures
        ({
            let trees = view.worktree_store.worktrees@;
            let list = path::path_components(path);
            let named = exists|i: int| 0 <= i < trees.len() && starts_in(list, #[trigger] trees[i]);
            &&& named ==> exists|i: int|
                0 <= i < trees.len() && starts_in(list, #[trigger] trees[i]) && (forall|j: int|
                    0 <= j < i ==> !starts_in(list, #[trigger] trees[j])) && (res matches Some(found)
                    && found.worktree_id == trees[i].id && list == path::path_components(
                    trees[i].root_name@,
                ) + path::path_components(found.path@))
            &&& !named ==> (res is None <==> forall|i: int|
                0 <= i < trees.len() ==> !shows_entry(#[trigger] trees[i], list))
            &&& !named && res is Some ==> exists|i: int, k: int|
                #![trigger trees[i].entries@[k]]
                0 <= i < trees.len() && trees[i].is_visible && worktree::first_entry_at(
                    trees[i],
                    list,
                    k,
                ) && (forall|j: int| 0 <= j < i ==> !shows_entry(#[trigger] trees[j], list)) && res
                    == Some(
                    ProjectPath { worktree_id: trees[i].id, path: trees[i].entries@[k].path },
                )
        }),
{
    let trees = view.worktree_store.worktrees@;
    let list = path::path_components(path);
    let shown = |w: Worktree| w.is_visible;
    let named = |w: Worktree| path::starts_with(list, path::path_components(w.root_name@));
    let both_named = |w: Worktree| starts_in(list, w);
    assert forall|w: Worktree| #[trigger] both_named(w) == (shown(w) && named(w)) by {}
    seqs::lemma_find_first_filtered(trees, shown, named, both_named);
    seqs::lemma_find_first_index(trees, both_named);
    let at = |w: Worktree| w.entry_at(path) is Some;
    let both_at = |w: Worktree| shows_entry(w, list);
    assert forall|w: Worktree| #[trigger] both_at(w) == (shown(w) && at(w)) by {
        worktree::lemma_entry_at(w, list);
    }
    seqs::lemma_find_first_filtered(trees, shown, at, both_at);
    seqs::lemma_find_first_index(trees, both_at);
    match view.named_by(path) {
        Some(worktree) => {
            let i = choose|i: int|
                0 <= i < trees.len() && trees[i] == worktree && both_named(trees[i]) && forall|j: int|
                    0 <= j < i ==> !both_named(#[trigger] trees[j]);
            assert(starts_in(list, trees[i]));
            assert forall|j: int| 0 <= j < i implies !starts_in(list, #[trigger] trees[j]) by {
                assert(!both_named(trees[j]));
            }
            let root = path::path_components(worktree.root_name@);
            path::lemma_path_components_well_formed(path);
            path::lemma_skip_well_formed(list, root.len() as int);
            path::lemma_render_components(list.skip(root.len() as int));
            assert(list =~= root + list.skip(root.len() as int));
        },
        None => {
            assert forall|i: int| 0 <= i < trees.len() implies !starts_in(
                list,
                #[trigger] trees[i],
            ) by {
                assert(!both_named(trees[i]));
            }
            match view.with_entry_at(path) {
                Some(worktree) => {
                    let i = choose|i: int|
                        0 <= i < trees.len() && trees[i] == worktree && both_at(trees[i]) && forall|
                            j: int,
                        |
                            0 <= j < i ==> !both_at(#[trigger] trees[j]);
                    assert forall|j: int| 0 <= j < i implies !shows_entry(
                        #[trigger] trees[j],
                        list,
                    ) by {
                        assert(!both_at(trees[j]));
                    }
                    assert(shows_entry(trees[i], list));
                    worktree::lemma_entry_at(worktree, list);
                    let k = choose|k: int| #[trigger]
                        worktree.entries@[k] == worktree.entry_at(path)->0
                            && worktree::first_entry_at(worktree, list, k);
                    assert(trees[i].entries@[k] == worktree.entry_at(path)->0);
                },
                None => {
                    assert forall|i: int| 0 <= i < trees.len() implies !shows_entry(
                        #[trigger] trees[i],
                        list,
                    ) by {
                        assert(!both_at(trees[i]));
                    }
                },
            }
        },
    }
}

/// A path of the machine is in the project exactly if it lies below a worktree of this machine, and
/// appears in the project panel exactly if it lies below a visible one.
pub proof fn law_visibility(view: ProjectView, abs_path: Seq<char>)
    ensures
        view.visibility(abs_path) is Some <==> exists|i: int|
            0 <= i < view.worktree_store.worktrees@.len() && (
            #[trigger] view.worktree_store.worktrees@[i]).is_local && worktree::lies_below(
                abs_path,
                view.worktree_store.worktrees@[i],
            ),
        view.visibility(abs_path) == Some(true) <==> exists|i: int|
            0 <= i < view.worktree_store.worktrees@.len() && (
            #[trigger] view.worktree_store.worktrees@[i]).is_local && worktree::lies_below(
                abs_path,
                view.worktree_store.worktrees@[i],
            ) && view.worktree_store.worktrees@[i].is_visible,
{
    let trees = view.worktree_store.worktrees@;
    assert forall|i: int| 0 <= i < trees.len() implies holds(#[trigger] trees[i], abs_path) == (
    trees[i].is_local && worktree::lies_below(abs_path, trees[i])) by {}
    if view.visibility(abs_path) is Some {
        let i = choose|i: int| 0 <= i < trees.len() && holds(#[trigger] trees[i], abs_path);
        assert(trees[i].is_local && worktree::lies_below(abs_path, trees[i]));
    }
    if view.visibility(abs_path) == Some(true) {
        let i = choose|i: int|
            0 <= i < trees.len() && holds(#[trigger] trees[i], abs_path) && trees[i].is_visible;
        assert(trees[i].is_local && worktree::lies_below(abs_path, trees[i]));
    }
}

/// The diagnostics of two lists of worktrees are those of both, and those of one are its own.
pub proof fn law_diagnostics_add_up(
    a: Seq<DiagnosticSummary>,
    b: Seq<DiagnosticSummary>,
    one: DiagnosticSummary,
)
    ensures
        error_total(a + b) == error_total(a) + error_total(b),
        warning_total(a + b) == warning_total(a) + warning_total(b),
        error_total(seq![one]) == one.error_count,
        warning_total(seq![one]) == one.warning_count,
    decreases b.len(),
{
    assert(seq![one].drop_last() =~= Seq::empty());
    assert(error_total(Seq::empty()) == 0);
    assert(warning_total(Seq::empty()) == 0);
    if b.len() == 0 {
        assert(a + b =~= a);
    } else {
        law_diagnostics_add_up(a, b.drop_last(), one);
        assert((a + b).drop_last() =~= a + b.drop_last());
    }
}

/// The entry that a project path names is the first of the first worktree with its identifier whose
/// path has the same components; no path names none.
pub proof fn law_entry_named(view: ProjectView, path: ProjectPath)
    ensures
        view.entry_named(None) is None,
        view.entry_named(Some(path)) matches Some(id) ==> exists|i: int, k: int|
            #![trigger view.worktree_store.worktrees@[i].entries@[k]]
            worktree::first_with_id(view.worktree_store.worktrees@, path.worktree_id, i)
                && worktree::first_entry_at(
                view.worktree_store.worktrees@[i],
                path::path_components(path.path@),
                k,
            ) && view.worktree_store.worktrees@[i].entries@[k].id == id,
        view.entry_named(Some(path)) is None ==> forall|i: int, k: int|
            #![trigger view.worktree_store.worktrees@[i].entries@[k]]
            !(worktree::first_with_id(view.worktree_store.worktrees@, path.worktree_id, i)
                && worktree::first_entry_at(
                view.worktree_store.worktrees@[i],
                path::path_components(path.path@),
                k,
            )),
{
    let trees = view.worktree_store.worktrees@;
    let list = path::path_components(path.path@);
    worktree::lemma_first_with_id(view.worktree_store, path.worktree_id);
    if let Some(worktree) = view.worktree_store.with_id(path.worktree_id) {
        worktree::lemma_entry_at(worktree, list);
        let i = choose|i: int| #[trigger]
            trees[i] == worktree && worktree::first_with_id(trees, path.worktree_id, i);
        if let Some(entry) = worktree.entry_at(path.path@) {
            let k = choose|k: int| #[trigger]
                worktree.entries@[k] == entry && worktree::first_entry_at(worktree, list, k);
            assert(trees[i].entries@[k] == entry);
        } else {
            assert forall|v: int, k: int|
                #![trigger trees[v].entries@[k]]
                !(worktree::first_with_id(trees, path.worktree_id, v) && worktree::first_entry_at(
                    trees[v],
                    list,
                    k,
                )) by {
                if worktree::first_with_id(trees, path.worktree_id, v) {
                    if v < i {
                        assert(trees[v].id != path.worktree_id);
                    } else if i < v {
                        assert(trees[i].id != path.worktree_id);
                    }
                    assert(trees[v] == worktree);
                    if 0 <= k < worktree.entries@.len() {
                        assert(path::path_components(worktree.entries@[k].path@) != list);
                    }
                }
            }
        }
    }
}

} // verus!
