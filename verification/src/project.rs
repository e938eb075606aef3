//! A project: its state, how it comes to be, and what it is.
pub mod breakpoints;
pub mod buffers;
pub mod create;
pub mod diffs;
pub mod events;
pub mod messages;
pub mod ordering;
pub mod participants;
pub mod requests;
pub mod resolve;
pub mod search;
pub mod sharing;
pub mod synchronize;
pub mod tools;
pub mod worktrees;

use crate::buffer::BufferStore;
use crate::collaborators::{Collaborator, Collaborators};
use crate::event::{Capability, Entity};
use crate::ids::{BufferId, PayloadId, PeerId, ProjectEntryId, ReplicaId};
use crate::retained::{RemotelyCreatedModels, RetainedView};
use crate::worktree::WorktreeStore;
use vstd::prelude::*;

verus! {

/// The number of search queries that are remembered.
pub const MAX_PROJECT_SEARCH_HISTORY_SIZE: usize = 500;

/// How the project is connected to other users.
#[derive(Clone, Copy, Debug, PartialEq, Eq, Structural)]
pub enum ProjectClientState {
    /// Single-player mode.
    Local,
    /// Multi-player mode but still a local project.
    Shared { remote_id: u64 },
    /// Multi-player mode but working on a remote project.
    Remote { sharing_has_stopped: bool, capability: Capability, remote_id: u64, replica_id: ReplicaId },
}

/// The connection to the machine on which the files lie.
#[derive(Debug, PartialEq)]
pub struct SshClient {
    pub connection_string: String,
    pub connection_state: PayloadId,
    pub connection_options: PayloadId,
    pub is_disconnected: bool,
}

/// The fields of a search.
#[derive(Clone, Copy, Debug, PartialEq, Eq, Structural)]
pub enum SearchInputKind {
    Query,
    Include,
    Exclude,
}

/// When a query gets an entry of its own in the history.
#[derive(Clone, Copy, Debug, PartialEq, Eq, Structural)]
pub enum QueryInsertionBehavior {
    AlwaysInsert,
    ReplacePreviousIfContains,
}

/// The queries of earlier searches.
#[derive(Debug, PartialEq)]
pub struct SearchHistory {
    pub max_history_len: Option<usize>,
    pub insertion_behavior: QueryInsertionBehavior,
    pub history: Vec<String>,
}

/// A project.
#[derive(Debug)]
pub struct Project {
    active_entry: Option<ProjectEntryId>,
    join_project_response_message_id: u32,
    client_state: ProjectClientState,
    ssh_client: Option<SshClient>,
    collaborators: Collaborators,
    client_subscriptions: Vec<Entity>,
    worktree_store: WorktreeStore,
    buffer_store: BufferStore,
    buffers_needing_diff: Vec<BufferId>,
    remotely_created_models: RemotelyCreatedModels,
    search_history: SearchHistory,
    search_included_history: SearchHistory,
    search_excluded_history: SearchHistory,
    node: Option<PayloadId>,
    toolchain_store: bool,
}

/// What a [`Project`] holds.
#[verifier::ext_equal]
pub struct ProjectView {
    /// The entry that the user works on.
    pub active_entry: Option<ProjectEntryId>,
    /// The number of the message by which the project was joined.
    pub join_project_response_message_id: u32,
    pub client_state: ProjectClientState,
    pub ssh_client: Option<SshClient>,
    pub collaborators: Map<PeerId, Collaborator>,
    /// What messages of the collaboration server are received for.
    pub client_subscriptions: Seq<Entity>,
    pub worktree_store: WorktreeStore,
    pub buffer_store: BufferStore,
    /// The buffers whose diffs are out of date, each once.
    pub buffers_needing_diff: Seq<BufferId>,
    pub remotely_created_models: RetainedView,
    pub search_history: SearchHistory,
    pub search_included_history: SearchHistory,
    pub search_excluded_history: SearchHistory,
    /// The node runtime, if there is one.
    pub node: Option<PayloadId>,
    /// Whether there is a store of toolchains.
    pub toolchain_store: bool,
}

impl View for Project {
    type V = ProjectView;

    closed spec fn view(&self) -> ProjectView {
        ProjectView {
            active_entry: self.active_entry,
            join_project_response_message_id: self.join_project_response_message_id,
            client_state: self.client_state,
            ssh_client: self.ssh_client,
            collaborators: self.collaborators@,
            client_subscriptions: self.client_subscriptions@,
            worktree_store: self.worktree_store,
            buffer_store: self.buffer_store,
            buffers_needing_diff: self.buffers_needing_diff@,
            remotely_created_models: self.remotely_created_models@,
            search_history: self.search_history,
            search_included_history: self.search_included_history,
            search_excluded_history: self.search_excluded_history,
            node: self.node,
            toolchain_store: self.toolchain_store,
        }
    }
}

impl ProjectView {
    /// Whether the files lie on this machine.
    pub open spec fn local(self) -> bool {
        !(self.client_state is Remote) && self.ssh_client is None
    }

    /// Whether the files are reached over ssh.
    pub open spec fn via_ssh(self) -> bool {
        !(self.client_state is Remote) && self.ssh_client is Some
    }

    /// Whether another user shares the project.
    pub open spec fn via_collab(self) -> bool {
        self.client_state is Remote
    }

    /// The number of the project on the collaboration server.
    pub open spec fn shared_id(self) -> Option<u64> {
        match self.client_state {
            ProjectClientState::Local => None,
            ProjectClientState::Shared { remote_id } => Some(remote_id),
            ProjectClientState::Remote { remote_id, .. } => Some(remote_id),
        }
    }

    /// Whether the machine with the files cannot be reached.
    pub open spec fn disconnected(self) -> bool {
        match self.client_state {
            ProjectClientState::Remote { sharing_has_stopped, .. } => sharing_has_stopped,
            ProjectClientState::Local => self.ssh_client matches Some(ssh) && ssh.is_disconnected,
            ProjectClientState::Shared { .. } => false,
        }
    }

    /// Whether the local user may edit.
    pub open spec fn allowed(self) -> Capability {
        match self.client_state {
            ProjectClientState::Remote { capability, .. } => capability,
            _ => Capability::ReadWrite,
        }
    }

    /// Whether the buffers cannot be edited.
    pub open spec fn read_only(self) -> bool {
        self.disconnected() || self.allowed() == Capability::ReadOnly
    }

    /// The number under which the local user edits.
    pub open spec fn own_replica_id(self) -> ReplicaId {
        match self.client_state {
            ProjectClientState::Remote { replica_id, .. } => replica_id,
            _ => if self.ssh_client is Some {
                1
            } else {
                0
            },
        }
    }
}

impl Project {
    /// No participant stands twice, no buffer waits twice for its diff, and nothing is kept
    /// alive while no request runs.
    pub closed spec fn wf(&self) -> bool {
        &&& self.collaborators.wf()
        &&& self.buffers_needing_diff@.no_duplicates()
        &&& self.remotely_created_models@.wf()
    }

    /// In every project that the library hands out, no buffer waits twice for its diff, and nothing
    /// is kept alive while no request runs.
    pub proof fn law_project_invariant(&self)
        requires
            self.wf(),
        ensures
            self@.buffers_needing_diff.no_duplicates(),
            self@.remotely_created_models.wf(),
    {
    }

    /// The number of the project on the collaboration server.
    pub fn remote_id(&self) -> (res: Option<u64>)
        ensures
            res == self@.shared_id(),
    {
        match self.client_state {
            ProjectClientState::Local => None,
            ProjectClientState::Shared { remote_id } => Some(remote_id),
            ProjectClientState::Remote { remote_id, .. } => Some(remote_id),
        }
    }

    /// Whether terminals can be opened.
    pub fn supports_terminal(&self) -> (res: bool)
        ensures
            res == !self@.via_collab(),
    {
        if self.is_local() {
            return true;
        }
        if self.is_via_ssh() {
            return true;
        }
        false
    }

    /// How the ssh connection is shown to the user.
    pub fn ssh_connection_string(&self) -> (res: Option<&String>)
        ensures
            match self@.ssh_client {
                Some(ssh) => res == Some(&ssh.connection_string),
                None => res is None,
            },
    {
        match &self.ssh_client {
            Some(ssh) => Some(&ssh.connection_string),
            None => None,
        }
    }

    /// The state of the ssh connection.
    pub fn ssh_connection_state(&self) -> (res: Option<PayloadId>)
        ensures
            match self@.ssh_client {
                Some(ssh) => res == Some(ssh.connection_state),
                None => res is None,
            },
    {
        match &self.ssh_client {
            Some(ssh) => Some(ssh.connection_state),
            None => None,
        }
    }

    /// The options of the ssh connection.
    pub fn ssh_connection_options(&self) -> (res: Option<PayloadId>)
        ensures
            match self@.ssh_client {
                Some(ssh) => res == Some(ssh.connection_options),
                None => res is None,
            },
    {
        match &self.ssh_client {
            Some(ssh) => Some(ssh.connection_options),
            None => None,
        }
    }

    /// The ssh connection.
    pub fn ssh_client(&self) -> (res: Option<&SshClient>)
        ensures
            match self@.ssh_client {
                Some(ssh) => res == Some(&ssh),
                None => res is None,
            },
    {
        match &self.ssh_client {
            Some(ssh) => Some(ssh),
            None => None,
        }
    }

    /// The ssh connection reports whether it is up.
    pub fn set_ssh_disconnected(&mut self, is_disconnected: bool)
        ensures
            final(self).wf() == old(self).wf(),
            final(self)@ == (ProjectView {
                ssh_client: match old(self)@.ssh_client {
                    Some(ssh) => Some(SshClient { is_disconnected, ..ssh }),
                    None => None,
                },
                ..old(self)@
            }),
    {
        match self.ssh_client.take() {
            Some(ssh) => {
                self.ssh_client = Some(SshClient { is_disconnected, ..ssh });
            },
            None => {},
        }
    }

    /// The number under which the local user edits: that of a participant in a project of
    /// another user, 1 over ssh, and 0 otherwise.
    pub fn replica_id(&self) -> (res: ReplicaId)
        ensures
            res == self@.own_replica_id(),
    {
        match self.client_state {
            ProjectClientState::Remote { replica_id, .. } => replica_id,
            _ => {
                if self.ssh_client.is_some() {
                    1
                } else {
                    0
                }
            },
        }
    }

    /// The node runtime.
    pub fn node_runtime(&self) -> (res: Option<PayloadId>)
        ensures
            res == self@.node,
    {
        self.node
    }

    /// The earlier searches.
    pub fn search_history(&self, kind: SearchInputKind) -> (res: &SearchHistory)
        ensures
            *res == (match kind {
                SearchInputKind::Query => self@.search_history,
                SearchInputKind::Include => self@.search_included_history,
                SearchInputKind::Exclude => self@.search_excluded_history,
            }),
    {
        match kind {
            SearchInputKind::Query => &self.search_history,
            SearchInputKind::Include => &self.search_included_history,
            SearchInputKind::Exclude => &self.search_excluded_history,
        }
    }

    /// The earlier searches, to be changed.
    pub fn search_history_mut(&mut self, kind: SearchInputKind) -> (res: &mut SearchHistory)
        ensures
            *res == (match kind {
                SearchInputKind::Query => old(self)@.search_history,
                SearchInputKind::Include => old(self)@.search_included_history,
                SearchInputKind::Exclude => old(self)@.search_excluded_history,
            }),
            final(self).wf() == old(self).wf(),
            final(self)@ == (match kind {
                SearchInputKind::Query => ProjectView {
                    search_history: *final(res),
                    ..old(self)@
                },
                SearchInputKind::Include => ProjectView {
                    search_included_history: *final(res),
                    ..old(self)@
                },
                SearchInputKind::Exclude => ProjectView {
                    search_excluded_history: *final(res),
                    ..old(self)@
                },
            }),
    {
        match kind {
            SearchInputKind::Query => &mut self.search_history,
            SearchInputKind::Include => &mut self.search_included_history,
            SearchInputKind::Exclude => &mut self.search_excluded_history,
        }
    }

    /// Who takes part.
    pub fn collaborators(&self) -> (res: &Collaborators)
        ensures
            self.wf() ==> res.wf(),
            res@ == self@.collaborators,
    {
        &self.collaborators
    }

    /// A participant who shares the project.
    pub fn host(&self) -> (res: Option<Collaborator>)
        requires
            self.wf(),
        ensures
            match res {
                Some(host) => host.is_host && self@.collaborators.contains_value(host),
                None => forall|key: PeerId| #[trigger]
                    self@.collaborators.contains_key(key) ==> !self@.collaborators[key].is_host,
            },
    {
        self.collaborators.host()
    }

    /// The entry that the user works on.
    pub fn active_entry(&self) -> (res: Option<ProjectEntryId>)
        ensures
            res == self@.active_entry,
    {
        self.active_entry
    }

    /// Whether the machine with the files cannot be reached.
    pub fn is_disconnected(&self) -> (res: bool)
        ensures
            res == self@.disconnected(),
    {
        match self.client_state {
            ProjectClientState::Remote { sharing_has_stopped, .. } => sharing_has_stopped,
            ProjectClientState::Local => self.is_via_ssh() && self.ssh_is_disconnected(),
            ProjectClientState::Shared { .. } => false,
        }
    }

    fn ssh_is_disconnected(&self) -> (res: bool)
        ensures
            res == (self@.ssh_client matches Some(ssh) && ssh.is_disconnected),
    {
        match &self.ssh_client {
            Some(ssh) => ssh.is_disconnected,
            None => false,
        }
    }

    /// Whether the local user may edit.
    pub fn capability(&self) -> (res: Capability)
        ensures
            res == self@.allowed(),
    {
        match self.client_state {
            ProjectClientState::Remote { capability, .. } => capability,
            _ => Capability::ReadWrite,
        }
    }

    /// Whether the buffers cannot be edited.
    pub fn is_read_only(&self) -> (res: bool)
        ensures
            res == self@.read_only(),
    {
        self.is_disconnected() || self.capability() == Capability::ReadOnly
    }

    /// Whether the files lie on this machine.
    pub fn is_local(&self) -> (res: bool)
        ensures
            res == self@.local(),
    {
        match self.client_state {
            ProjectClientState::Remote { .. } => false,
            _ => self.ssh_client.is_none(),
        }
    }

    /// Whether the files are reached over ssh.
    pub fn is_via_ssh(&self) -> (res: bool)
        ensures
            res == self@.via_ssh(),
    {
        match self.client_state {
            ProjectClientState::Remote { .. } => false,
            _ => self.ssh_client.is_some(),
        }
    }

    /// Whether another user shares the project.
    pub fn is_via_collab(&self) -> (res: bool)
        ensures
            res == self@.via_collab(),
    {
        match self.client_state {
            ProjectClientState::Remote { .. } => true,
            _ => false,
        }
    }

    /// Whether the project has several users.
    pub fn is_shared(&self) -> (res: bool)
        ensures
            res == (self@.shared_id() is Some),
    {
        match self.client_state {
            ProjectClientState::Shared { .. } => true,
            ProjectClientState::Local => false,
            ProjectClientState::Remote { .. } => true,
        }
    }
}

/// A project is of exactly one of three sorts: local, over ssh, or of another user.
pub proof fn law_one_sort(view: ProjectView)
    ensures
        view.local() || view.via_ssh() || view.via_collab(),
        !(view.local() && view.via_ssh()),
        !(view.local() && view.via_collab()),
        !(view.via_ssh() && view.via_collab()),
{
}

/// A project that cannot be reached cannot be edited, and a local project can always be.
pub proof fn law_read_only(view: ProjectView)
    ensures
        view.disconnected() ==> view.read_only(),
        view.local() ==> !view.read_only(),
        view.local() ==> view.own_replica_id() == 0,
        view.via_ssh() ==> view.own_replica_id() == 1,
{
}

/// What a project is and may do follows from how it is connected: another user's project is remote
/// and knows its capability and replica; one of this user is on an ssh server exactly if there is
/// an ssh client, and may always be written to while it is connected. Only a project of this user
/// that nobody shares and whose ssh server is gone counts as disconnected from it.
pub proof fn law_connection(view: ProjectView)
    ensures
        match view.client_state {
            ProjectClientState::Remote {
                sharing_has_stopped,
                capability,
                remote_id,
                replica_id,
            } => {
                &&& view.via_collab() && !view.local() && !view.via_ssh()
                &&& view.shared_id() == Some(remote_id)
                &&& view.disconnected() == sharing_has_stopped
                &&& view.allowed() == capability
                &&& view.read_only() == (sharing_has_stopped || capability == Capability::ReadOnly)
                &&& view.own_replica_id() == replica_id
            },
            ProjectClientState::Shared { remote_id } => {
                &&& !view.via_collab() && view.local() == (view.ssh_client is None)
                    && view.via_ssh() == (view.ssh_client is Some)
                &&& view.shared_id() == Some(remote_id)
                &&& !view.disconnected() && !view.read_only()
                &&& view.allowed() == Capability::ReadWrite
                &&& view.ssh_client is None ==> view.own_replica_id() == 0
                &&& view.ssh_client is Some ==> view.own_replica_id() == 1
            },
            ProjectClientState::Local => {
                &&& !view.via_collab() && view.local() == (view.ssh_client is None)
                    && view.via_ssh() == (view.ssh_client is Some)
                &&& view.shared_id() is None
                &&& view.ssh_client is None ==> !view.disconnected()
                &&& view.ssh_client matches Some(ssh) ==> view.disconnected() == ssh.is_disconnected
                &&& view.read_only() == view.disconnected()
                &&& view.allowed() == Capability::ReadWrite
                &&& view.ssh_client is None ==> view.own_replica_id() == 0
                &&& view.ssh_client is Some ==> view.own_replica_id() == 1
            },
        },
{
}

} // verus!
