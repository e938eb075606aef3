//! Toolchains, debug adapters and repositories: who is asked for them.
use super::Project;
use crate::event::Effect;
use crate::ids::{BufferId, PayloadId, WorktreeId};
use crate::project_path::ProjectPath;
use crate::worktree;
use crate::worktree::Worktree;
use vstd::prelude::*;

verus! {

/// What the store of toolchains is asked.
#[derive(Debug, PartialEq)]
pub enum ToolchainRequest {
    List { worktree_id: WorktreeId, language_name: String },
    Activate { worktree_id: WorktreeId, toolchain: PayloadId },
    Active { worktree_id: WorktreeId, language_name: String },
}

/// What became of a request to open a buffer.
#[derive(Clone, Copy, Debug, PartialEq, Eq, Structural)]
pub enum OpenedBufferEvent {
    Disconnected,
    Opened(BufferId),
    Failed(BufferId, PayloadId),
}

/// How far a debug adapter is.
#[derive(Clone, Copy, Debug, PartialEq, Eq, Structural)]
pub enum DebugAdapterClientState {
    Starting(PayloadId),
    Running(PayloadId),
}

impl Project {
    /// Asks for the toolchains of a language; without a store there are none.
    pub fn available_toolchains(&self, worktree_id: WorktreeId, language_name: String) -> (res:
        Option<ToolchainRequest>)
        ensures
            res == (if self@.toolchain_store {
                Some(ToolchainRequest::List { worktree_id, language_name })
            } else {
                None
            }),
    {
        if self.toolchain_store {
            Some(ToolchainRequest::List { worktree_id, language_name })
        } else {
            None
        }
    }

    /// Asks for a toolchain to be used.
    pub fn activate_toolchain(&self, worktree_id: WorktreeId, toolchain: PayloadId) -> (res: Option<
        ToolchainRequest,
    >)
        ensures
            res == (if self@.toolchain_store {
                Some(ToolchainRequest::Activate { worktree_id, toolchain })
            } else {
                None
            }),
    {
        if !self.toolchain_store {
            return None;
        }
        Some(ToolchainRequest::Activate { worktree_id, toolchain })
    }

    /// Asks for the toolchain that is used.
    pub fn active_toolchain(&self, worktree_id: WorktreeId, language_name: String) -> (res: Option<
        ToolchainRequest,
    >)
        ensures
            res == (if self@.toolchain_store {
                Some(ToolchainRequest::Active { worktree_id, language_name })
            } else {
                None
            }),
    {
        if !self.toolchain_store {
            return None;
        }
        Some(ToolchainRequest::Active { worktree_id, language_name })
    }

    /// Starts the debug adapter of a task, if the task has one.
    pub fn start_debug_adapter_client_from_task(&self, adapter_config: Option<PayloadId>) -> (
    effects: Vec<Effect>)
        ensures
            effects@ == (match adapter_config {
                Some(config) => seq![Effect::StartDebugClient(config)],
                None => Seq::empty(),
            }),
    {
        let mut effects: Vec<Effect> = Vec::new();
        if let Some(config) = adapter_config {
            effects.push(Effect::StartDebugClient(config));
        }
        effects
    }

    /// The worktree of this machine whose repositories hold a project path.
    pub fn get_repo(&self, project_path: &ProjectPath) -> (res: Option<&Worktree>)
        ensures
            worktree::found(
                res,
                match self@.worktree_store.with_id(project_path.worktree_id) {
                    Some(worktree) => if worktree.is_local {
                        Some(worktree)
                    } else {
                        None
                    },
                    None => None,
                },
            ),
    {
        match self.worktree_for_id(project_path.worktree_id) {
            Some(worktree) => {
                if worktree.is_local {
                    Some(worktree)
                } else {
                    None
                }
            },
            None => None,
        }
    }

    /// The first worktree of the project panel, if it lies on this machine: its root repository is
    /// that of the project.
    pub fn get_first_worktree_root_repo(&self) -> (res: Option<&Worktree>)
        ensures
            ({
                let shown = worktree::visible(self@.worktree_store.worktrees@);
                worktree::found(
                    res,
                    if shown.len() > 0 && shown[0].is_local {
                        Some(shown[0])
                    } else {
                        None
                    },
                )
            }),
    {
        let trees = self.visible_worktrees();
        assert(trees.len() == worktree::targets(trees@).len());
        if trees.len() == 0 {
            return None;
        }
        let first = trees[0];
        assert(worktree::targets(trees@)[0] == *first);
        if first.is_local {
            Some(first)
        } else {
            None
        }
    }
}

} // verus!
