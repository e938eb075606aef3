//! The open buffers of a project, as far as the project looks into them.
use crate::ids::{BufferId, ProjectEntryId, WorktreeId};
use crate::path;
use crate::project_path::ProjectPath;
use crate::seqs;
use crate::worktree;
use vstd::prelude::*;

verus! {

/// The file that a buffer was read from.
#[derive(Debug, PartialEq)]
pub struct BufferFile {
    pub worktree_id: WorktreeId,
    /// The path below the root of the worktree.
    pub path: String,
    /// The entry of the file, unless the file was deleted.
    pub entry_id: Option<ProjectEntryId>,
    /// Whether the file is kept from the other participants.
    pub is_private: bool,
}

/// An open buffer.
#[derive(Debug, PartialEq)]
pub struct Buffer {
    pub id: BufferId,
    pub file: Option<BufferFile>,
    /// Whether it holds changes that were not saved.
    pub is_dirty: bool,
}

impl Buffer {
    /// Where the file of the buffer lies.
    pub open spec fn file_path(self) -> Option<ProjectPath> {
        match self.file {
            Some(file) => Some(ProjectPath { worktree_id: file.worktree_id, path: file.path }),
            None => None,
        }
    }

    /// Whether the buffer is the buffer of the file at a project path.
    pub open spec fn is_at(self, path: ProjectPath) -> bool {
        self.file_path() matches Some(own) && own.place() == path.place()
    }

    /// Where the file of the buffer lies.
    pub fn project_path(&self) -> (res: Option<ProjectPath>)
        ensures
            res == self.file_path(),
    {
        match &self.file {
            Some(file) => Some(
                ProjectPath { worktree_id: file.worktree_id, path: file.path.clone() },
            ),
            None => None,
        }
    }

    /// The entry of the file of the buffer.
    pub fn entry_id(&self) -> (res: Option<ProjectEntryId>)
        ensures
            res == (match self.file {
                Some(file) => file.entry_id,
                None => None,
            }),
    {
        match &self.file {
            Some(file) => file.entry_id,
            None => None,
        }
    }

    /// Whether the file of the buffer is kept from the other participants.
    pub open spec fn private(self) -> bool {
        self.file matches Some(file) && file.is_private
    }

    /// Whether the file of the buffer is kept from the other participants.
    pub fn is_private(&self) -> (res: bool)
        ensures
            res == self.private(),
    {
        match &self.file {
            Some(file) => file.is_private,
            None => false,
        }
    }
}

/// The open buffers.
#[derive(Debug, PartialEq)]
pub struct BufferStore {
    pub buffers: Vec<Buffer>,
}

/// The paths of the buffers with unsaved changes.
pub open spec fn dirty_paths(buffers: Seq<Buffer>) -> Seq<ProjectPath>
    decreases buffers.len(),
{
    if buffers.len() == 0 {
        Seq::empty()
    } else {
        let before = dirty_paths(buffers.drop_last());
        match buffers.last().file_path() {
            Some(path) if buffers.last().is_dirty => before.push(path),
            _ => before,
        }
    }
}

/// The identifiers of the buffers.
pub open spec fn buffer_ids(buffers: Seq<Buffer>) -> Seq<BufferId> {
    buffers.map_values(|b: Buffer| b.id)
}

impl BufferStore {
    /// The buffer with an identifier.
    pub open spec fn with_id(self, id: BufferId) -> Option<Buffer> {
        seqs::find_first(self.buffers@, |b: Buffer| b.id == id)
    }

    /// The buffer of the file at a project path.
    pub open spec fn with_path(self, path: ProjectPath) -> Option<Buffer> {
        seqs::find_first(self.buffers@, |b: Buffer| b.is_at(path))
    }

    /// No buffer.
    pub fn new() -> (res: Self)
        ensures
            res.buffers@ == Seq::<Buffer>::empty(),
    {
        BufferStore { buffers: Vec::new() }
    }

    /// The buffer with an identifier.
    pub fn get(&self, id: BufferId) -> (res: Option<&Buffer>)
        ensures
            worktree::found(res, self.with_id(id)),
    {
        let ghost p = |b: Buffer| b.id == id;
        let mut i: usize = 0;
        while i < self.buffers.len()
            invariant
                i <= self.buffers.len(),
                p == (|b: Buffer| b.id == id),
                forall|j: int| 0 <= j < i ==> !p(#[trigger] self.buffers@[j]),
            decreases self.buffers.len() - i,
        {
            if self.buffers[i].id == id {
                proof {
                    seqs::lemma_find_first_at(self.buffers@, p, i as int);
                }
                return Some(&self.buffers[i]);
            }
            i = i + 1;
        }
        proof {
            seqs::lemma_find_first_none(self.buffers@, p);
        }
        None
    }

    /// The buffer of the file at a project path.
    pub fn get_by_path(&self, path: &ProjectPath) -> (res: Option<&Buffer>)
        ensures
            worktree::found(res, self.with_path(*path)),
    {
        let ghost p = |b: Buffer| b.is_at(*path);
        let mut i: usize = 0;
        while i < self.buffers.len()
            invariant
                i <= self.buffers.len(),
                p == (|b: Buffer| b.is_at(*path)),
                forall|j: int| 0 <= j < i ==> !p(#[trigger] self.buffers@[j]),
            decreases self.buffers.len() - i,
        {
            if let Some(own) = self.buffers[i].project_path() {
                if own == *path {
                    proof {
                        seqs::lemma_find_first_at(self.buffers@, p, i as int);
                    }
                    return Some(&self.buffers[i]);
                }
            }
            i = i + 1;
        }
        proof {
            seqs::lemma_find_first_none(self.buffers@, p);
        }
        None
    }

    /// The paths of the buffers with unsaved changes.
    pub fn dirty_buffers(&self) -> (res: Vec<ProjectPath>)
        ensures
            res@ == dirty_paths(self.buffers@),
    {
        let mut res: Vec<ProjectPath> = Vec::new();
        let mut i: usize = 0;
        while i < self.buffers.len()
            invariant
                i <= self.buffers.len(),
                res@ == dirty_paths(self.buffers@.take(i as int)),
            decreases self.buffers.len() - i,
        {
            assert(self.buffers@.take(i as int + 1).drop_last() =~= self.buffers@.take(i as int));
            if self.buffers[i].is_dirty {
                if let Some(path) = self.buffers[i].project_path() {
                    res.push(path);
                }
            }
            i = i + 1;
        }
        assert(self.buffers@.take(i as int) =~= self.buffers@);
        res
    }

    /// The identifiers of the buffers.
    pub fn ids(&self) -> (res: Vec<BufferId>)
        ensures
            res@ == buffer_ids(self.buffers@),
    {
        let mut res: Vec<BufferId> = Vec::new();
        let mut i: usize = 0;
        while i < self.buffers.len()
            invariant
                i <= self.buffers.len(),
                res@ == buffer_ids(self.buffers@).take(i as int),
            decreases self.buffers.len() - i,
        {
            res.push(self.buffers[i].id);
            i = i + 1;
            assert(res@ =~= buffer_ids(self.buffers@).take(i as int));
        }
        assert(res@ =~= buffer_ids(self.buffers@));
        res
    }
}

/// Whether the buffer at `k` is the first whose file lies at a path.
pub open spec fn first_buffer_at(buffers: Seq<Buffer>, path: ProjectPath, k: int) -> bool {
    &&& 0 <= k < buffers.len()
    &&& holds_file(buffers[k], path)
    &&& forall|j: int| 0 <= j < k ==> !holds_file(#[trigger] buffers[j], path)
}

/// Whether the file of a buffer lies at a path.
pub open spec fn holds_file(buffer: Buffer, path: ProjectPath) -> bool {
    buffer.file matches Some(file) && file.worktree_id == path.worktree_id
        && path::path_components(file.path@) == path::path_components(path.path@)
}

/// Looking for a buffer by its identifier or by the path of its file gives the first with it, and
/// nothing exactly if there is none.
pub proof fn law_buffer_lookups(store: BufferStore, id: BufferId, path: ProjectPath)
    ensures
        match store.with_id(id) {
            Some(buffer) => exists|k: int|
                0 <= k < store.buffers@.len() && #[trigger] store.buffers@[k] == buffer && buffer.id
                    == id && forall|j: int| 0 <= j < k ==> (#[trigger] store.buffers@[j]).id != id,
            None => forall|j: int|
                0 <= j < store.buffers@.len() ==> (#[trigger] store.buffers@[j]).id != id,
        },
        match store.with_path(path) {
            Some(buffer) => exists|k: int|
                #[trigger] store.buffers@[k] == buffer && first_buffer_at(store.buffers@, path, k),
            None => forall|j: int|
                0 <= j < store.buffers@.len() ==> !holds_file(#[trigger] store.buffers@[j], path),
        },
        forall|buffer: Buffer| #[trigger] buffer.is_at(path) == holds_file(buffer, path),
{
    let buffers = store.buffers@;
    let own = |b: Buffer| b.id == id;
    seqs::lemma_find_first_index(buffers, own);
    if store.with_id(id) is Some {
        let k = choose|k: int|
            0 <= k < buffers.len() && buffers[k] == store.with_id(id)->0 && own(buffers[k])
                && forall|j: int| 0 <= j < k ==> !own(#[trigger] buffers[j]);
        assert(buffers[k] == store.with_id(id)->0);
        assert forall|j: int| 0 <= j < k implies (#[trigger] buffers[j]).id != id by {
            assert(!own(buffers[j]));
        }
    } else {
        assert forall|j: int| 0 <= j < buffers.len() implies (#[trigger] buffers[j]).id != id by {
            assert(!own(buffers[j]));
        }
    }
    let there = |b: Buffer| b.is_at(path);
    seqs::lemma_find_first_index(buffers, there);
    if store.with_path(path) is Some {
        let k = choose|k: int|
            0 <= k < buffers.len() && buffers[k] == store.with_path(path)->0 && there(buffers[k])
                && forall|j: int| 0 <= j < k ==> !there(#[trigger] buffers[j]);
        assert(buffers[k] == store.with_path(path)->0);
        assert forall|j: int| 0 <= j < k implies !holds_file(#[trigger] buffers[j], path) by {
            assert(!there(buffers[j]));
        }
        assert(first_buffer_at(buffers, path, k));
    } else {
        assert forall|j: int| 0 <= j < buffers.len() implies !holds_file(
            #[trigger] buffers[j],
            path,
        ) by {
            assert(!there(buffers[j]));
        }
    }
}

/// The path of a buffer is that of its file, a buffer is private if its file is, and the paths of
/// dirty buffers are those of the files that hold changes, in the order of the buffers.
pub proof fn law_buffer_paths(a: Seq<Buffer>, b: Seq<Buffer>, buffer: Buffer)
    ensures
        buffer.file is None ==> buffer.file_path() is None && !buffer.private(),
        buffer.file matches Some(file) ==> buffer.file_path() == Some(
            ProjectPath { worktree_id: file.worktree_id, path: file.path },
        ) && buffer.private() == file.is_private,
        dirty_paths(Seq::empty()) == Seq::<ProjectPath>::empty(),
        dirty_paths(a + b) == dirty_paths(a) + dirty_paths(b),
        !buffer.is_dirty || buffer.file is None ==> dirty_paths(seq![buffer]) == Seq::<
            ProjectPath,
        >::empty(),
        buffer.is_dirty ==> (buffer.file matches Some(file) ==> dirty_paths(seq![buffer]) == seq![
            ProjectPath { worktree_id: file.worktree_id, path: file.path },
        ]),
        buffer_ids(a).len() == a.len(),
        forall|i: int| 0 <= i < a.len() ==> #[trigger] buffer_ids(a)[i] == a[i].id,
    decreases b.len(),
{
    assert(dirty_paths(Seq::empty()) =~= Seq::<ProjectPath>::empty());
    assert(seq![buffer].drop_last() =~= Seq::empty());
    assert(seq![buffer].last() == buffer);
    assert(dirty_paths(seq![buffer]) =~= match buffer.file_path() {
        Some(path) if buffer.is_dirty => seq![path],
        _ => Seq::empty(),
    });
    if b.len() == 0 {
        assert(a + b =~= a);
        assert(dirty_paths(a) + dirty_paths(b) =~= dirty_paths(a));
    } else {
        law_buffer_paths(a, b.drop_last(), buffer);
        assert((a + b).drop_last() =~= a + b.drop_last());
        assert((a + b).last() == b.last());
        assert(dirty_paths(a + b) =~= dirty_paths(a) + dirty_paths(b));
    }
}

} // verus!
