//! Requests to language servers and to the ssh server.
use super::{Project, ProjectView};
use crate::buffer;
use crate::event::{ProjectError, SSH_PROJECT_ID};
use crate::ids::{BufferId, LanguageServerId, WorktreeId};
use crate::worktree::Worktree;
use vstd::prelude::*;

verus! {

/// A place in a buffer.
#[derive(Clone, Copy, Debug, PartialEq, Eq, Structural)]
pub struct PointUtf16 {
    pub row: u32,
    pub column: u32,
}

/// Which language server a request goes to.
#[derive(Clone, Copy, Debug, PartialEq, Eq, Structural)]
pub enum LanguageServerToQuery {
    Primary,
    Other(LanguageServerId),
}

/// What a language server is asked for.
#[derive(Debug, PartialEq)]
pub enum LspCommand {
    GetDefinition { position: PointUtf16 },
    GetDeclaration { position: PointUtf16 },
    GetTypeDefinition { position: PointUtf16 },
    GetImplementation { position: PointUtf16 },
    GetReferences { position: PointUtf16 },
    GetDocumentHighlights { position: PointUtf16 },
    PrepareRename { position: PointUtf16 },
    PerformRename { position: PointUtf16, new_name: String, push_to_history: bool },
}

/// A request to a language server. What it creates is kept alive until
/// `release_remotely_created_models` is called.
#[derive(Debug, PartialEq)]
pub struct LspRequest {
    pub buffer_id: BufferId,
    pub server: LanguageServerToQuery,
    pub command: LspCommand,
}

/// The identifiers of the worktrees.
pub open spec fn worktree_ids(worktrees: Seq<Worktree>) -> Seq<WorktreeId> {
    worktrees.map_values(|w: Worktree| w.id)
}

impl ProjectView {
    /// Whether one request more can be counted.
    pub open spec fn can_retain(self) -> bool {
        self.remotely_created_models.retain_count < usize::MAX
    }

    /// The project once a request started.
    pub open spec fn after_retain(self) -> ProjectView {
        ProjectView {
            remotely_created_models: self.remotely_created_models.retained(
                buffer::buffer_ids(self.buffer_store.buffers@),
                worktree_ids(self.worktree_store.worktrees@),
            ),
            ..self
        }
    }

    /// The project once a request ended.
    pub open spec fn after_release(self) -> ProjectView {
        ProjectView {
            remotely_created_models: self.remotely_created_models.released(),
            ..self
        }
    }
}

impl Project {
    /// A request starts: what is open, and what is created until it ends, is kept alive.
    pub fn retain_remotely_created_models(&mut self)
        requires
            old(self).wf(),
            old(self)@.can_retain(),
        ensures
            final(self).wf(),
            final(self)@ == old(self)@.after_retain(),
    {
        let buffers = self.buffer_store.ids();
        let mut worktrees: Vec<WorktreeId> = Vec::new();
        let mut i: usize = 0;
        while i < self.worktree_store.worktrees.len()
            invariant
                i <= self.worktree_store.worktrees.len(),
                worktrees@ == worktree_ids(self.worktree_store.worktrees@).take(i as int),
            decreases self.worktree_store.worktrees.len() - i,
        {
            worktrees.push(self.worktree_store.worktrees[i].id);
            i = i + 1;
            assert(worktrees@ =~= worktree_ids(self.worktree_store.worktrees@).take(i as int));
        }
        assert(worktrees@ =~= worktree_ids(self.worktree_store.worktrees@));
        self.remotely_created_models.retain(buffers, worktrees);
    }

    /// A request ends.
    pub fn release_remotely_created_models(&mut self)
        requires
            old(self).wf(),
            old(self)@.remotely_created_models.retain_count > 0,
        ensures
            final(self).wf(),
            final(self)@ == old(self)@.after_release(),
    {
        self.remotely_created_models.release();
    }

    /// The number of requests that run.
    pub fn running_requests(&self) -> (res: usize)
        ensures
            res == self@.remotely_created_models.retain_count,
    {
        self.remotely_created_models.retain_count()
    }

    /// Whether a buffer is kept alive for a request.
    pub fn retains_buffer(&self, id: BufferId) -> (res: bool)
        ensures
            res == self@.remotely_created_models.buffers.contains(id),
    {
        self.remotely_created_models.retains_buffer(id)
    }

    /// Asks a language server.
    pub fn request_lsp(
        &mut self,
        buffer_id: BufferId,
        server: LanguageServerToQuery,
        command: LspCommand,
    ) -> (res: LspRequest)
        requires
            old(self).wf(),
            old(self)@.can_retain(),
        ensures
            final(self).wf(),
            final(self)@ == old(self)@.after_retain(),
            res == (LspRequest { buffer_id, server, command }),
    {
        self.retain_remotely_created_models();
        LspRequest { buffer_id, server, command }
    }

    fn request_primary(&mut self, buffer_id: BufferId, command: LspCommand) -> (res: LspRequest)
        requires
            old(self).wf(),
            old(self)@.can_retain(),
        ensures
            final(self).wf(),
            final(self)@ == old(self)@.after_retain(),
            res == (LspRequest { buffer_id, server: LanguageServerToQuery::Primary, command }),
    {
        self.request_lsp(buffer_id, LanguageServerToQuery::Primary, command)
    }

    /// Asks where what stands at a place is defined.
    pub fn definition(&mut self, buffer_id: BufferId, position: PointUtf16) -> (res: LspRequest)
        requires
            old(self).wf(),
            old(self)@.can_retain(),
        ensures
            final(self).wf(),
            final(self)@ == old(self)@.after_retain(),
            res == (LspRequest {
                buffer_id,
                server: LanguageServerToQuery::Primary,
                command: LspCommand::GetDefinition { position },
            }),
    {
        self.request_primary(buffer_id, LspCommand::GetDefinition { position })
    }

    /// Asks where what stands at a place is declared.
    pub fn declaration(&mut self, buffer_id: BufferId, position: PointUtf16) -> (res: LspRequest)
        requires
            old(self).wf(),
            old(self)@.can_retain(),
        ensures
            final(self).wf(),
            final(self)@ == old(self)@.after_retain(),
            res == (LspRequest {
                buffer_id,
                server: LanguageServerToQuery::Primary,
                command: LspCommand::GetDeclaration { position },
            }),
    {
        self.request_primary(buffer_id, LspCommand::GetDeclaration { position })
    }

    /// Asks where the type of what stands at a place is defined.
    pub fn type_definition(&mut self, buffer_id: BufferId, position: PointUtf16) -> (res: LspRequest)
        requires
            old(self).wf(),
            old(self)@.can_retain(),
        ensures
            final(self).wf(),
            final(self)@ == old(self)@.after_retain(),
            res == (LspRequest {
                buffer_id,
                server: LanguageServerToQuery::Primary,
                command: LspCommand::GetTypeDefinition { position },
            }),
    {
        self.request_primary(buffer_id, LspCommand::GetTypeDefinition { position })
    }

    /// Asks where what stands at a place is implemented.
    pub fn implementation(&mut self, buffer_id: BufferId, position: PointUtf16) -> (res: LspRequest)
        requires
            old(self).wf(),
            old(self)@.can_retain(),
        ensures
            final(self).wf(),
            final(self)@ == old(self)@.after_retain(),
            res == (LspRequest {
                buffer_id,
                server: LanguageServerToQuery::Primary,
                command: LspCommand::GetImplementation { position },
            }),
    {
        self.request_primary(buffer_id, LspCommand::GetImplementation { position })
    }

    /// Asks where what stands at a place is referred to.
    pub fn references(&mut self, buffer_id: BufferId, position: PointUtf16) -> (res: LspRequest)
        requires
            old(self).wf(),
            old(self)@.can_retain(),
        ensures
            final(self).wf(),
            final(self)@ == old(self)@.after_retain(),
            res == (LspRequest {
                buffer_id,
                server: LanguageServerToQuery::Primary,
                command: LspCommand::GetReferences { position },
            }),
    {
        self.request_primary(buffer_id, LspCommand::GetReferences { position })
    }

    /// Asks where what stands at a place occurs in the buffer.
    pub fn document_highlights(&mut self, buffer_id: BufferId, position: PointUtf16) -> (res:
        LspRequest)
        requires
            old(self).wf(),
            old(self)@.can_retain(),
        ensures
            final(self).wf(),
            final(self)@ == old(self)@.after_retain(),
            res == (LspRequest {
                buffer_id,
                server: LanguageServerToQuery::Primary,
                command: LspCommand::GetDocumentHighlights { position },
            }),
    {
        self.request_primary(buffer_id, LspCommand::GetDocumentHighlights { position })
    }

    /// Asks whether what stands at a place can be renamed.
    pub fn prepare_rename(&mut self, buffer_id: BufferId, position: PointUtf16) -> (res: LspRequest)
        requires
            old(self).wf(),
            old(self)@.can_retain(),
        ensures
            final(self).wf(),
            final(self)@ == old(self)@.after_retain(),
            res == (LspRequest {
                buffer_id,
                server: LanguageServerToQuery::Primary,
                command: LspCommand::PrepareRename { position },
            }),
    {
        self.request_primary(buffer_id, LspCommand::PrepareRename { position })
    }

    /// Asks to rename what stands at a place, such that the user can undo it.
    pub fn perform_rename(
        &mut self,
        buffer_id: BufferId,
        position: PointUtf16,
        new_name: String,
    ) -> (res: LspRequest)
        requires
            old(self).wf(),
            old(self)@.can_retain(),
        ensures
            final(self).wf(),
            final(self)@ == old(self)@.after_retain(),
            res == (LspRequest {
                buffer_id,
                server: LanguageServerToQuery::Primary,
                command: LspCommand::PerformRename { position, new_name, push_to_history: true },
            }),
    {
        self.request_primary(
            buffer_id,
            LspCommand::PerformRename { position, new_name, push_to_history: true },
        )
    }

    /// Asks the ssh server to open its settings, under the number that is handed back.
    pub fn open_server_settings(&mut self) -> (res: Result<u64, ProjectError>)
        requires
            old(self).wf(),
            old(self)@.ssh_client is Some ==> old(self)@.can_retain(),
        ensures
            final(self).wf(),
            match old(self)@.ssh_client {
                Some(_) => res == Ok::<u64, ProjectError>(SSH_PROJECT_ID) && final(self)@
                    == old(self)@.after_retain(),
                None => res == Err::<u64, ProjectError>(ProjectError::NotAnSshProject)
                    && final(self)@ == old(self)@,
            },
    {
        if self.ssh_client.is_none() {
            return Err(ProjectError::NotAnSshProject);
        }
        self.retain_remotely_created_models();
        Ok(SSH_PROJECT_ID)
    }
}

/// A request that starts and ends while nothing else happens leaves the project as it was.
pub proof fn law_request_leaves_no_trace(view: ProjectView)
    requires
        view.remotely_created_models.wf(),
    ensures
        view.after_retain().after_release() == view,
{
    assert(view.after_retain().after_release() =~= view);
}

/// While a request runs, the buffers and worktrees of the project stay alive: those there are when
/// no other runs, all of them, in their order.
pub proof fn law_request_keeps_all(view: ProjectView)
    requires
        view.remotely_created_models.retain_count == 0,
    ensures
        ({
            let kept = view.after_retain().remotely_created_models;
            &&& kept.retain_count == 1
            &&& kept.buffers.len() == view.buffer_store.buffers@.len()
            &&& forall|i: int|
                0 <= i < kept.buffers.len() ==> #[trigger] kept.buffers[i]
                    == view.buffer_store.buffers@[i].id
            &&& kept.worktrees.len() == view.worktree_store.worktrees@.len()
            &&& forall|i: int|
                0 <= i < kept.worktrees.len() ==> #[trigger] kept.worktrees[i]
                    == view.worktree_store.worktrees@[i].id
        }),
{
}

/// A request that starts or ends changes nothing of the project but what is kept alive, and one can
/// start as long as their number can be counted.
pub proof fn law_request_changes_little(view: ProjectView)
    ensures
        (ProjectView {
            remotely_created_models: view.remotely_created_models,
            ..view.after_retain()
        }) == view,
        (ProjectView {
            remotely_created_models: view.remotely_created_models,
            ..view.after_release()
        }) == view,
        view.after_retain().remotely_created_models.retain_count
            == view.remotely_created_models.retain_count + 1,
        view.remotely_created_models.retain_count > 0
            ==> view.after_release().remotely_created_models.retain_count
            == view.remotely_created_models.retain_count - 1,
        view.can_retain() <==> view.remotely_created_models.retain_count + 1 <= usize::MAX,
{
}

} // verus!
