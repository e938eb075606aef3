//! Opening buffers, and handing them to other participants.
use super::{Project, ProjectClientState, ProjectView};
use crate::buffer;
use crate::buffer::{Buffer, BufferStore};
use crate::event::{Effect, ProjectError, Reply};
use crate::ids::{BufferId, PayloadId, PeerId, WorktreeId};
use crate::project_path::ProjectPath;
use crate::worktree;
use vstd::prelude::*;

verus! {

/// How a buffer with a known identifier is got at.
#[derive(Clone, Copy, Debug, PartialEq, Eq, Structural)]
pub enum OpenById {
    /// It is open.
    Ready(BufferId),
    /// The host of the project with this number is asked for it.
    Request { project_id: u64, id: BufferId },
}

impl ProjectView {
    /// How a buffer with a known identifier is got at.
    pub open spec fn open_by_id(self, id: BufferId) -> Result<OpenById, ProjectError> {
        if self.buffer_store.with_id(id) is Some {
            Ok(OpenById::Ready(id))
        } else {
            match self.client_state {
                ProjectClientState::Remote { remote_id, .. } => Ok(
                    OpenById::Request { project_id: remote_id, id },
                ),
                _ => Err(ProjectError::BufferDoesNotExist(id)),
            }
        }
    }
}

impl Project {
    /// Takes over which buffers are open.
    pub fn set_buffers(&mut self, buffers: Vec<Buffer>)
        requires
            old(self).wf(),
        ensures
            final(self).wf(),
            final(self)@ == (ProjectView { buffer_store: BufferStore { buffers }, ..old(self)@ }),
    {
        self.buffer_store = BufferStore { buffers };
    }

    /// The open buffer with an identifier.
    pub fn buffer_for_id(&self, id: BufferId) -> (res: Option<&Buffer>)
        ensures
            worktree::found(res, self@.buffer_store.with_id(id)),
    {
        self.buffer_store.get(id)
    }

    /// The open buffers.
    pub fn opened_buffers(&self) -> (res: &Vec<Buffer>)
        ensures
            *res == self@.buffer_store.buffers,
    {
        &self.buffer_store.buffers
    }

    /// The open buffer of the file at a project path.
    pub fn get_open_buffer(&self, path: &ProjectPath) -> (res: Option<&Buffer>)
        ensures
            worktree::found(res, self@.buffer_store.with_path(*path)),
    {
        self.buffer_store.get_by_path(path)
    }

    /// Whether the file at a project path is open.
    pub fn has_open_buffer(&self, path: &ProjectPath) -> (res: bool)
        ensures
            res == (self@.buffer_store.with_path(*path) is Some),
    {
        self.buffer_store.get_by_path(path).is_some()
    }

    /// The paths of the open buffers with unsaved changes.
    pub fn dirty_buffers(&self) -> (res: Vec<ProjectPath>)
        ensures
            res@ == buffer::dirty_paths(self@.buffer_store.buffers@),
    {
        self.buffer_store.dirty_buffers()
    }

    /// Makes a buffer that belongs to no file. Only a local project can.
    pub fn create_local_buffer(&self, text: String, language: Option<PayloadId>) -> (effects: Vec<
        Effect,
    >)
        requires
            self@.local(),
        ensures
            effects@ == seq![Effect::CreateLocalBuffer { text, language }],
    {
        let mut effects: Vec<Effect> = Vec::new();
        effects.push(Effect::CreateLocalBuffer { text, language });
        effects
    }

    /// The path at which the buffer store is to open a file.
    pub fn open_buffer(&self, path: ProjectPath) -> (res: Result<ProjectPath, ProjectError>)
        ensures
            res == (if self@.disconnected() {
                Err(ProjectError::Disconnected)
            } else {
                Ok(path)
            }),
    {
        if self.is_disconnected() {
            return Err(ProjectError::Disconnected);
        }
        Ok(path)
    }

    /// The path at which the image store is to open an image.
    pub fn open_image(&self, path: ProjectPath) -> (res: Result<ProjectPath, ProjectError>)
        ensures
            res == (if self@.disconnected() {
                Err(ProjectError::Disconnected)
            } else {
                Ok(path)
            }),
    {
        if self.is_disconnected() {
            return Err(ProjectError::Disconnected);
        }
        Ok(path)
    }

    /// The path at which the buffer store is to open a file of the machine.
    pub fn open_local_buffer(&self, abs_path: &str) -> (res: Result<ProjectPath, ProjectError>)
        ensures
            match self@.worktree_store.with_path(abs_path@) {
                None => res == Err::<ProjectPath, ProjectError>(ProjectError::NoSuchPath),
                Some(worktree) => if self@.disconnected() {
                    res == Err::<ProjectPath, ProjectError>(ProjectError::Disconnected)
                } else {
                    res matches Ok(path) && path.worktree_id == worktree.id && path.path@
                        == worktree.path_below_root(abs_path@)
                },
            },
    {
        match self.worktree_store.find_worktree(abs_path) {
            Some((worktree, path)) => self.open_buffer(
                ProjectPath { worktree_id: worktree.id, path },
            ),
            None => Err(ProjectError::NoSuchPath),
        }
    }

    /// How a buffer with a known identifier is got at.
    pub fn open_buffer_by_id(&self, id: BufferId) -> (res: Result<OpenById, ProjectError>)
        ensures
            res == self@.open_by_id(id),
    {
        if self.buffer_for_id(id).is_some() {
            Ok(OpenById::Ready(id))
        } else if self.is_local() || self.is_via_ssh() {
            Err(ProjectError::BufferDoesNotExist(id))
        } else if let Some(project_id) = self.remote_id() {
            Ok(OpenById::Request { project_id, id })
        } else {
            Err(ProjectError::CannotOpenWhileDisconnected)
        }
    }

    /// Sends a buffer to a participant.
    pub fn create_buffer_for_peer(&self, buffer_id: BufferId, peer_id: PeerId) -> (effects: Vec<
        Effect,
    >)
        ensures
            effects@ == seq![Effect::CreateBufferForPeer { buffer_id, peer_id }],
    {
        vec![Effect::CreateBufferForPeer { buffer_id, peer_id }]
    }

    /// Answers a participant who asked for a buffer; a private one is not handed out.
    pub fn respond_to_open_buffer_request(&self, buffer: &Buffer, peer_id: PeerId) -> (res: Reply<
        BufferId,
    >)
        ensures
            buffer.private() ==> res.result == Err::<BufferId, ProjectError>(
                ProjectError::UnsharedItem,
            ) && res.effects@ == Seq::<Effect>::empty(),
            !buffer.private() ==> res.result == Ok::<BufferId, ProjectError>(buffer.id)
                && res.effects@ == seq![
                Effect::CreateBufferForPeer { buffer_id: buffer.id, peer_id },
            ],
    {
        if buffer.is_private() {
            Reply { effects: Vec::new(), result: Err(ProjectError::UnsharedItem) }
        } else {
            Reply {
                effects: self.create_buffer_for_peer(buffer.id, peer_id),
                result: Ok(buffer.id),
            }
        }
    }

    /// A participant asks for a buffer by its identifier. `None` stands for a sender or an
    /// identifier that the message does not give.
    pub fn handle_open_buffer_by_id(&self, sender: Option<PeerId>, id: Option<BufferId>) -> (res:
        Result<(PeerId, OpenById), ProjectError>)
        ensures
            match (sender, id) {
                (None, _) => res == Err::<(PeerId, OpenById), ProjectError>(
                    ProjectError::MissingSender,
                ),
                (Some(_), None) => res == Err::<(PeerId, OpenById), ProjectError>(
                    ProjectError::InvalidBufferId,
                ),
                (Some(peer_id), Some(id)) => match self@.open_by_id(id) {
                    Ok(open) => res == Ok::<(PeerId, OpenById), ProjectError>((peer_id, open)),
                    Err(error) => res == Err::<(PeerId, OpenById), ProjectError>(error),
                },
            },
    {
        let peer_id = match sender {
            Some(peer_id) => peer_id,
            None => return Err(ProjectError::MissingSender),
        };
        let id = match id {
            Some(id) => id,
            None => return Err(ProjectError::InvalidBufferId),
        };
        match self.open_buffer_by_id(id) {
            Ok(open) => Ok((peer_id, open)),
            Err(error) => Err(error),
        }
    }

    /// A participant asks for the file at a path.
    pub fn handle_open_buffer_by_path(
        &self,
        sender: Option<PeerId>,
        worktree_id: u64,
        path: String,
    ) -> (res: Result<(PeerId, ProjectPath), ProjectError>)
        ensures
            match sender {
                None => res == Err::<(PeerId, ProjectPath), ProjectError>(
                    ProjectError::MissingSender,
                ),
                Some(peer_id) => if self@.disconnected() {
                    res == Err::<(PeerId, ProjectPath), ProjectError>(ProjectError::Disconnected)
                } else {
                    res == Ok::<(PeerId, ProjectPath), ProjectError>(
                        (peer_id, ProjectPath { worktree_id: WorktreeId(worktree_id), path }),
                    )
                },
            },
    {
        let peer_id = match sender {
            Some(peer_id) => peer_id,
            None => return Err(ProjectError::MissingSender),
        };
        let path = ProjectPath { worktree_id: WorktreeId::from_proto(worktree_id), path };
        match self.open_buffer(path) {
            Ok(path) => Ok((peer_id, path)),
            Err(error) => Err(error),
        }
    }

    /// A buffer was made because a participant asked for a new one.
    pub fn handle_open_new_buffer(&self, buffer: &Buffer, sender: Option<PeerId>) -> (res: Reply<
        BufferId,
    >)
        ensures
            match sender {
                None => res.result == Err::<BufferId, ProjectError>(ProjectError::MissingSender)
                    && res.effects@ == Seq::<Effect>::empty(),
                Some(peer_id) => if buffer.private() {
                    res.result == Err::<BufferId, ProjectError>(ProjectError::UnsharedItem)
                        && res.effects@ == Seq::<Effect>::empty()
                } else {
                    res.result == Ok::<BufferId, ProjectError>(buffer.id) && res.effects@ == seq![
                        Effect::CreateBufferForPeer { buffer_id: buffer.id, peer_id },
                    ]
                },
            },
    {
        match sender {
            Some(peer_id) => self.respond_to_open_buffer_request(buffer, peer_id),
            None => Reply { effects: Vec::new(), result: Err(ProjectError::MissingSender) },
        }
    }
}

/// A buffer that is open is ready, whoever's project it is; one that is not is asked of the host by
/// a guest, under the number of the project, and does not exist for anyone else.
pub proof fn law_open_by_id(view: ProjectView, id: BufferId)
    ensures
        ({
            let open = exists|k: int|
                0 <= k < view.buffer_store.buffers@.len() && (
                #[trigger] view.buffer_store.buffers@[k]).id == id;
            match view.open_by_id(id) {
                Ok(OpenById::Ready(ready)) => open && ready == id,
                Ok(OpenById::Request { project_id, id: asked }) => !open && asked == id && (
                view.client_state matches ProjectClientState::Remote { remote_id, .. } && remote_id
                    == project_id),
                Err(error) => !open && !(view.client_state is Remote) && error
                    == ProjectError::BufferDoesNotExist(id),
            }
        }),
{
    buffer::law_buffer_lookups(
        view.buffer_store,
        id,
        ProjectPath { worktree_id: WorktreeId(0), path: arbitrary() },
    );
}

} // verus!
