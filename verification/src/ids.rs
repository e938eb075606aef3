//! Identifiers of the things that a project deals with.
use vstd::prelude::*;

verus! {

/// A directory tree that is part of a project.
#[derive(Clone, Copy, Debug, PartialEq, Eq, Structural, Hash, PartialOrd, Ord)]
pub struct WorktreeId(pub u64);

/// A file or directory of a worktree.
#[derive(Clone, Copy, Debug, PartialEq, Eq, Structural, Hash, PartialOrd, Ord)]
pub struct ProjectEntryId(pub u64);

/// An open buffer.
#[derive(Clone, Copy, Debug, PartialEq, Eq, Structural, Hash, PartialOrd, Ord)]
pub struct BufferId(pub u64);

/// An open image.
#[derive(Clone, Copy, Debug, PartialEq, Eq, Structural, Hash, PartialOrd, Ord)]
pub struct ImageId(pub u64);

/// A running language server.
#[derive(Clone, Copy, Debug, PartialEq, Eq, Structural, Hash, PartialOrd, Ord)]
pub struct LanguageServerId(pub u64);

/// A client of a debug adapter.
#[derive(Clone, Copy, Debug, PartialEq, Eq, Structural, Hash, PartialOrd, Ord)]
pub struct DebugAdapterClientId(pub u64);

/// A connection of one participant to the collaboration server.
#[derive(Clone, Copy, Debug, PartialEq, Eq, Structural, Hash, PartialOrd, Ord)]
pub struct PeerId {
    pub owner_id: u32,
    pub id: u32,
}

/// A value that the surrounding program keeps and that is only passed along here.
#[derive(Clone, Copy, Debug, PartialEq, Eq, Structural, Hash, PartialOrd, Ord)]
pub struct PayloadId(pub u64);

/// The number under which a participant edits buffers.
pub type ReplicaId = u16;

impl WorktreeId {
    /// Reads the number that messages carry.
    pub fn from_proto(id: u64) -> (res: WorktreeId)
        ensures
            res == WorktreeId(id),
    {
        WorktreeId(id)
    }

    /// The number that messages carry.
    pub fn to_proto(&self) -> (id: u64)
        ensures
            id == self.0,
    {
        self.0
    }
}

} // verus!
