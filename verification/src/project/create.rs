//! How a project comes to be.
use super::participants;
use super::sharing;
use super::{
    Project, ProjectClientState, ProjectView, QueryInsertionBehavior, SearchHistory, SshClient,
    MAX_PROJECT_SEARCH_HISTORY_SIZE,
};
use crate::buffer::{Buffer, BufferStore};
use crate::collaborators::{Collaborator, Collaborators};
use crate::event::{
    Capability, ChannelRole, Effect, Entity, MessageKind, Outcome, ProjectError, Server, Store,
    StoreKind, SSH_PROJECT_ID,
};
use crate::ids::{BufferId, PayloadId, PeerId, ReplicaId, WorktreeId};
use crate::retained::{RemotelyCreatedModels, RetainedView};
use crate::worktree::{Worktree, WorktreeStore};
use vstd::prelude::*;

verus! {

/// The answer of the collaboration server to a user who joins a project.
#[derive(Debug)]
pub struct JoinProjectResponse {
    /// The number of the message.
    pub message_id: u32,
    pub project_id: u64,
    pub replica_id: u32,
    pub role: ChannelRole,
    pub worktree_ids: Vec<WorktreeId>,
    pub collaborator_user_ids: Vec<u64>,
}

/// How far the local user is in joining a project of another user.
#[derive(Clone, Copy, Debug, PartialEq, Eq, Structural)]
pub enum JoinPhase {
    /// The connection to the collaboration server is made.
    Authenticating,
    /// What [`Project::join_subscriptions`] lists is subscribed to.
    Subscribing,
    /// The collaboration server is asked for the project.
    Requesting,
    /// The answer is there, for [`Project::from_join_project_response`].
    Joined,
    /// Something failed.
    Failed(PayloadId),
}

/// Joining a project of another user.
#[derive(Clone, Copy, Debug, PartialEq, Eq, Structural)]
pub struct Joining {
    /// The number of the project on the collaboration server.
    pub remote_id: u64,
    pub phase: JoinPhase,
}

impl Joining {
    /// Whether something is still to be done.
    pub open spec fn running(self) -> bool {
        !(self.phase is Joined || self.phase is Failed)
    }

    /// What follows once the current step succeeded or failed.
    pub open spec fn advanced(self, result: Result<(), PayloadId>) -> Joining {
        let phase = match (result, self.phase) {
            (Err(error), _) => JoinPhase::Failed(error),
            (Ok(()), JoinPhase::Authenticating) => JoinPhase::Subscribing,
            (Ok(()), JoinPhase::Subscribing) => JoinPhase::Requesting,
            (Ok(()), _) => JoinPhase::Joined,
        };
        Joining { phase, ..self }
    }

    /// The current step succeeded or failed.
    pub fn advance(&mut self, result: Result<(), PayloadId>)
        requires
            old(self).running(),
        ensures
            *final(self) == old(self).advanced(result),
    {
        self.phase =
        match result {
            Err(error) => JoinPhase::Failed(error),
            Ok(()) => match self.phase {
                JoinPhase::Authenticating => JoinPhase::Subscribing,
                JoinPhase::Subscribing => JoinPhase::Requesting,
                _ => JoinPhase::Joined,
            },
        };
    }
}

/// A project is joined only after the connection was made, everything was subscribed to and the
/// collaboration server answered, in this order; the first failure ends it.
pub proof fn law_join_order(
    remote_id: u64,
    connected: Result<(), PayloadId>,
    subscribed: Result<(), PayloadId>,
    answered: Result<(), PayloadId>,
)
    ensures
        ({
            let first = Joining { remote_id, phase: JoinPhase::Authenticating }.advanced(connected);
            let second = first.advanced(subscribed);
            let third = second.advanced(answered);
            &&& connected is Err ==> first.phase is Failed
            &&& connected is Ok ==> first.phase is Subscribing
            &&& connected is Ok && subscribed is Err ==> second.phase is Failed
            &&& connected is Ok && subscribed is Ok ==> second.phase is Requesting
            &&& connected is Ok && subscribed is Ok ==> (third.phase is Joined <==> answered is Ok)
        }),
{
}

/// Whether no query was entered yet.
pub open spec fn is_new_history(history: SearchHistory) -> bool {
    &&& history.max_history_len == Some(MAX_PROJECT_SEARCH_HISTORY_SIZE)
    &&& history.insertion_behavior == QueryInsertionBehavior::AlwaysInsert
    &&& history.history@ == Seq::<String>::empty()
}

impl ProjectView {
    /// Whether nothing has happened in the project yet.
    pub open spec fn is_fresh(self) -> bool {
        &&& self.active_entry is None
        &&& self.collaborators == Map::<PeerId, Collaborator>::empty()
        &&& self.client_subscriptions == Seq::<Entity>::empty()
        &&& self.worktree_store.worktrees@ == Seq::<Worktree>::empty()
        &&& !self.worktree_store.worktrees_reordered
        &&& self.buffer_store.buffers@ == Seq::<Buffer>::empty()
        &&& self.buffers_needing_diff == Seq::<BufferId>::empty()
        &&& self.remotely_created_models == RetainedView::idle()
        &&& is_new_history(self.search_history)
        &&& is_new_history(self.search_included_history)
        &&& is_new_history(self.search_excluded_history)
    }
}

/// What the program sets up for all projects.
pub open spec fn init_effects() -> Seq<Effect> {
    seq![
        Effect::InitConnectionManager,
        Effect::RegisterSettings,
        Effect::AddHandler {
            server: Server::Collab,
            message: MessageKind::AddProjectCollaborator,
            is_request: false,
        },
        Effect::AddHandler {
            server: Server::Collab,
            message: MessageKind::UpdateProjectCollaborator,
            is_request: false,
        },
        Effect::AddHandler {
            server: Server::Collab,
            message: MessageKind::RemoveProjectCollaborator,
            is_request: false,
        },
        Effect::AddHandler {
            server: Server::Collab,
            message: MessageKind::UpdateProject,
            is_request: false,
        },
        Effect::AddHandler {
            server: Server::Collab,
            message: MessageKind::UnshareProject,
            is_request: false,
        },
        Effect::AddHandler {
            server: Server::Collab,
            message: MessageKind::UpdateBuffer,
            is_request: true,
        },
        Effect::AddHandler {
            server: Server::Collab,
            message: MessageKind::UpdateWorktree,
            is_request: false,
        },
        Effect::AddHandler {
            server: Server::Collab,
            message: MessageKind::SynchronizeBuffers,
            is_request: true,
        },
        Effect::AddHandler {
            server: Server::Collab,
            message: MessageKind::FindSearchCandidates,
            is_request: true,
        },
        Effect::AddHandler {
            server: Server::Collab,
            message: MessageKind::OpenBufferById,
            is_request: true,
        },
        Effect::AddHandler {
            server: Server::Collab,
            message: MessageKind::OpenBufferByPath,
            is_request: true,
        },
        Effect::AddHandler {
            server: Server::Collab,
            message: MessageKind::OpenNewBuffer,
            is_request: true,
        },
        Effect::AddHandler {
            server: Server::Collab,
            message: MessageKind::CreateBufferForPeer,
            is_request: false,
        },
        Effect::InitStore { server: Server::Collab, store: Store::Worktree },
        Effect::InitStore { server: Server::Collab, store: Store::Buffer },
        Effect::InitStore { server: Server::Collab, store: Store::Lsp },
        Effect::InitStore { server: Server::Collab, store: Store::SettingsObserver },
        Effect::InitStore { server: Server::Collab, store: Store::Task },
        Effect::InitStore { server: Server::Collab, store: Store::Toolchain },
        Effect::InitStore { server: Server::Collab, store: Store::Dap },
    ]
}

/// What is set up for a project on this machine.
pub open spec fn local_effects(env: Option<PayloadId>) -> Seq<Effect> {
    seq![
        Effect::StartOrderedMessages,
        Effect::CreateSnippets { global_dir: false },
        Effect::CreateWorktreeStore { store_kind: StoreKind::Local, retain_worktrees: false },
        Effect::SubscribeToStore { store: Store::Worktree },
        Effect::CreateEnvironment { cli_environment: env },
        Effect::CreateStore { store: Store::Dap, store_kind: StoreKind::Local },
        Effect::SubscribeToStore { store: Store::Dap },
        Effect::CreateStore { store: Store::Buffer, store_kind: StoreKind::Local },
        Effect::SubscribeToStore { store: Store::Buffer },
        Effect::CreateStore { store: Store::Image, store_kind: StoreKind::Local },
        Effect::SubscribeToStore { store: Store::Image },
        Effect::CreateStore { store: Store::Prettier, store_kind: StoreKind::Local },
        Effect::CreateStore { store: Store::Toolchain, store_kind: StoreKind::Local },
        Effect::CreateTaskStore { store_kind: StoreKind::Local, toolchains: true },
        Effect::CreateStore { store: Store::SettingsObserver, store_kind: StoreKind::Local },
        Effect::SubscribeToStore { store: Store::SettingsObserver },
        Effect::CreateLspStore { store_kind: StoreKind::Local, toolchains: true },
        Effect::SubscribeToStore { store: Store::Lsp },
        Effect::OnRelease,
    ]
}

/// What is set up for a project over ssh.
pub open spec fn ssh_effects() -> Seq<Effect> {
    seq![
        Effect::StartOrderedMessages,
        Effect::CreateSnippets { global_dir: true },
        Effect::CreateWorktreeStore {
            store_kind: StoreKind::Remote { server: Server::Ssh, project_id: SSH_PROJECT_ID },
            retain_worktrees: false,
        },
        Effect::SubscribeToStore { store: Store::Worktree },
        Effect::CreateStore {
            store: Store::Buffer,
            store_kind: StoreKind::Remote { server: Server::Ssh, project_id: SSH_PROJECT_ID },
        },
        Effect::CreateStore {
            store: Store::Image,
            store_kind: StoreKind::Remote { server: Server::Ssh, project_id: SSH_PROJECT_ID },
        },
        Effect::SubscribeToStore { store: Store::Buffer },
        Effect::CreateStore {
            store: Store::Toolchain,
            store_kind: StoreKind::Remote { server: Server::Ssh, project_id: SSH_PROJECT_ID },
        },
        Effect::CreateTaskStore {
            store_kind: StoreKind::Remote { server: Server::Ssh, project_id: SSH_PROJECT_ID },
            toolchains: true,
        },
        Effect::CreateStore { store: Store::SettingsObserver, store_kind: StoreKind::Mirror },
        Effect::SubscribeToStore { store: Store::SettingsObserver },
        Effect::CreateEnvironment { cli_environment: None },
        Effect::CreateLspStore {
            store_kind: StoreKind::Remote { server: Server::Ssh, project_id: SSH_PROJECT_ID },
            toolchains: true,
        },
        Effect::SubscribeToStore { store: Store::Lsp },
        Effect::CreateStore {
            store: Store::Dap,
            store_kind: StoreKind::Remote { server: Server::Collab, project_id: SSH_PROJECT_ID },
        },
        Effect::SubscribeToSsh,
        Effect::ObserveSsh,
        Effect::OnRelease,
        Effect::OnAppQuit,
    ]
}

/// How the messages of the ssh server reach the project.
pub open spec fn ssh_message_effects() -> Seq<Effect> {
    seq![
        Effect::SubscribeToSshEntity { entity: Entity::Project, project_id: SSH_PROJECT_ID },
        Effect::SubscribeToSshEntity { entity: Entity::BufferStore, project_id: SSH_PROJECT_ID },
        Effect::SubscribeToSshEntity { entity: Entity::WorktreeStore, project_id: SSH_PROJECT_ID },
        Effect::SubscribeToSshEntity { entity: Entity::LspStore, project_id: SSH_PROJECT_ID },
        Effect::SubscribeToSshEntity { entity: Entity::DapStore, project_id: SSH_PROJECT_ID },
        Effect::SubscribeToSshEntity {
            entity: Entity::SettingsObserver,
            project_id: SSH_PROJECT_ID,
        },
        Effect::AddHandler {
            server: Server::Ssh,
            message: MessageKind::CreateBufferForPeer,
            is_request: false,
        },
        Effect::AddHandler {
            server: Server::Ssh,
            message: MessageKind::UpdateWorktree,
            is_request: false,
        },
        Effect::AddHandler {
            server: Server::Ssh,
            message: MessageKind::UpdateProject,
            is_request: false,
        },
        Effect::AddHandler { server: Server::Ssh, message: MessageKind::Toast, is_request: false },
        Effect::AddHandler {
            server: Server::Ssh,
            message: MessageKind::LanguageServerPromptRequest,
            is_request: true,
        },
        Effect::AddHandler {
            server: Server::Ssh,
            message: MessageKind::HideToast,
            is_request: false,
        },
        Effect::AddHandler {
            server: Server::Ssh,
            message: MessageKind::UpdateBufferFromSsh,
            is_request: true,
        },
        Effect::InitStore { server: Server::Ssh, store: Store::Buffer },
        Effect::InitStore { server: Server::Ssh, store: Store::Lsp },
        Effect::InitStore { server: Server::Ssh, store: Store::SettingsObserver },
        Effect::InitStore { server: Server::Ssh, store: Store::Task },
        Effect::InitStore { server: Server::Ssh, store: Store::Toolchain },
        Effect::InitStore { server: Server::Ssh, store: Store::Dap },
    ]
}

/// The stores of a project of another user.
pub open spec fn join_store_effects(project_id: u64, run_tasks: bool) -> Seq<Effect> {
    seq![
        Effect::CreateWorktreeStore {
            store_kind: StoreKind::Remote { server: Server::Collab, project_id },
            retain_worktrees: true,
        },
        Effect::CreateStore {
            store: Store::Buffer,
            store_kind: StoreKind::Remote { server: Server::Collab, project_id },
        },
        Effect::CreateStore {
            store: Store::Image,
            store_kind: StoreKind::Remote { server: Server::Collab, project_id },
        },
        Effect::CreateEnvironment { cli_environment: None },
        Effect::CreateStore {
            store: Store::Dap,
            store_kind: StoreKind::Remote { server: Server::Collab, project_id },
        },
        Effect::SetBreakpoints,
        Effect::CreateLspStore {
            store_kind: StoreKind::Remote { server: Server::Collab, project_id },
            toolchains: false,
        },
        Effect::SetLanguageServerStatuses,
        Effect::CreateTaskStore {
            store_kind: if run_tasks {
                StoreKind::Remote { server: Server::Collab, project_id }
            } else {
                StoreKind::Noop
            },
            toolchains: false,
        },
        Effect::CreateStore { store: Store::SettingsObserver, store_kind: StoreKind::Mirror },
        Effect::CreateSnippets { global_dir: false },
    ]
}

/// What a project of another user listens to.
pub open spec fn join_listen_effects() -> Seq<Effect> {
    seq![
        Effect::StartOrderedMessages,
        Effect::SubscribeToStore { store: Store::Worktree },
        Effect::SubscribeToStore { store: Store::Buffer },
        Effect::SubscribeToStore { store: Store::Lsp },
        Effect::SubscribeToStore { store: Store::SettingsObserver },
        Effect::SubscribeToStore { store: Store::Dap },
        Effect::OnRelease,
    ]
}

/// The worktrees of a project of another user are made.
pub open spec fn create_worktree_effects(
    project_id: u64,
    replica_id: ReplicaId,
    ids: Seq<WorktreeId>,
) -> Seq<Effect> {
    ids.map_values(
        |worktree_id: WorktreeId|
            Effect::CreateRemoteWorktree { project_id, replica_id, worktree_id },
    )
}

/// The worktrees are added to the store.
pub open spec fn add_worktree_effects(ids: Seq<WorktreeId>) -> Seq<Effect> {
    ids.map_values(|id: WorktreeId| Effect::AddWorktree(id))
}

/// The subscriptions are connected.
pub open spec fn attach_effects(entities: Seq<Entity>) -> Seq<Effect> {
    entities.map_values(|entity: Entity| Effect::AttachSubscription(entity))
}

/// What is set up for a project of another user.
pub open spec fn join_effects(
    response: JoinProjectResponse,
    run_tasks: bool,
    subscriptions: Seq<Entity>,
) -> Seq<Effect> {
    join_store_effects(response.project_id, run_tasks) + create_worktree_effects(
        response.project_id,
        response.replica_id as ReplicaId,
        response.worktree_ids@,
    ) + join_listen_effects() + add_worktree_effects(response.worktree_ids@) + attach_effects(
        subscriptions,
    ) + seq![Effect::GetUsers(response.collaborator_user_ids)]
}

/// What is subscribed to before a project is joined.
pub open spec fn joined_entities() -> Seq<Entity> {
    seq![
        Entity::Project,
        Entity::BufferStore,
        Entity::WorktreeStore,
        Entity::LspStore,
        Entity::SettingsObserver,
        Entity::DapStore,
    ]
}

impl Project {
    fn new_search_history() -> (res: SearchHistory)
        ensures
            is_new_history(res),
    {
        SearchHistory {
            max_history_len: Some(MAX_PROJECT_SEARCH_HISTORY_SIZE),
            insertion_behavior: QueryInsertionBehavior::AlwaysInsert,
            history: Vec::new(),
        }
    }

    fn fresh(
        client_state: ProjectClientState,
        ssh_client: Option<SshClient>,
        message_id: u32,
        node: Option<PayloadId>,
        toolchain_store: bool,
    ) -> (res: Project)
        ensures
            res.wf(),
            res@.is_fresh(),
            res@.client_state == client_state,
            res@.ssh_client == ssh_client,
            res@.join_project_response_message_id == message_id,
            res@.node == node,
            res@.toolchain_store == toolchain_store,
    {
        Project {
            active_entry: None,
            join_project_response_message_id: message_id,
            client_state,
            ssh_client,
            collaborators: Collaborators::new(),
            client_subscriptions: Vec::new(),
            worktree_store: WorktreeStore::new(),
            buffer_store: BufferStore::new(),
            buffers_needing_diff: Vec::new(),
            remotely_created_models: RemotelyCreatedModels::new(),
            search_history: Project::new_search_history(),
            search_included_history: Project::new_search_history(),
            search_excluded_history: Project::new_search_history(),
            node,
            toolchain_store,
        }
    }

    /// Registers the settings of projects.
    pub fn init_settings() -> (effects: Vec<Effect>)
        ensures
            effects@ == seq![Effect::RegisterSettings],
    {
        vec![Effect::RegisterSettings]
    }

    /// Sets up what all projects share.
    pub fn init() -> (effects: Vec<Effect>)
        ensures
            effects@ == init_effects(),
    {
        vec![
            Effect::InitConnectionManager,
            Effect::RegisterSettings,
            Effect::AddHandler {
                server: Server::Collab,
                message: MessageKind::AddProjectCollaborator,
                is_request: false,
            },
            Effect::AddHandler {
                server: Server::Collab,
                message: MessageKind::UpdateProjectCollaborator,
                is_request: false,
            },
            Effect::AddHandler {
                server: Server::Collab,
                message: MessageKind::RemoveProjectCollaborator,
                is_request: false,
            },
            Effect::AddHandler {
                server: Server::Collab,
                message: MessageKind::UpdateProject,
                is_request: false,
            },
            Effect::AddHandler {
                server: Server::Collab,
                message: MessageKind::UnshareProject,
                is_request: false,
            },
            Effect::AddHandler {
                server: Server::Collab,
                message: MessageKind::UpdateBuffer,
                is_request: true,
            },
            Effect::AddHandler {
                server: Server::Collab,
                message: MessageKind::UpdateWorktree,
                is_request: false,
            },
            Effect::AddHandler {
                server: Server::Collab,
                message: MessageKind::SynchronizeBuffers,
                is_request: true,
            },
            Effect::AddHandler {
                server: Server::Collab,
                message: MessageKind::FindSearchCandidates,
                is_request: true,
            },
            Effect::AddHandler {
                server: Server::Collab,
                message: MessageKind::OpenBufferById,
                is_request: true,
            },
            Effect::AddHandler {
                server: Server::Collab,
                message: MessageKind::OpenBufferByPath,
                is_request: true,
            },
            Effect::AddHandler {
                server: Server::Collab,
                message: MessageKind::OpenNewBuffer,
                is_request: true,
            },
            Effect::AddHandler {
                server: Server::Collab,
                message: MessageKind::CreateBufferForPeer,
                is_request: false,
            },
            Effect::InitStore { server: Server::Collab, store: Store::Worktree },
            Effect::InitStore { server: Server::Collab, store: Store::Buffer },
            Effect::InitStore { server: Server::Collab, store: Store::Lsp },
            Effect::InitStore { server: Server::Collab, store: Store::SettingsObserver },
            Effect::InitStore { server: Server::Collab, store: Store::Task },
            Effect::InitStore { server: Server::Collab, store: Store::Toolchain },
            Effect::InitStore { server: Server::Collab, store: Store::Dap },
        ]
    }

    /// A project whose files lie on this machine.
    pub fn local(node: PayloadId, env: Option<PayloadId>) -> (res: (Project, Vec<Effect>))
        ensures
            res.0.wf(),
            res.0@.is_fresh(),
            res.0@.client_state == ProjectClientState::Local,
            res.0@.ssh_client is None,
            res.0@.join_project_response_message_id == 0,
            res.0@.node == Some(node),
            res.0@.toolchain_store,
            res.1@ == local_effects(env),
    {
        let effects = vec![
            Effect::StartOrderedMessages,
            Effect::CreateSnippets { global_dir: false },
            Effect::CreateWorktreeStore { store_kind: StoreKind::Local, retain_worktrees: false },
            Effect::SubscribeToStore { store: Store::Worktree },
            Effect::CreateEnvironment { cli_environment: env },
            Effect::CreateStore { store: Store::Dap, store_kind: StoreKind::Local },
            Effect::SubscribeToStore { store: Store::Dap },
            Effect::CreateStore { store: Store::Buffer, store_kind: StoreKind::Local },
            Effect::SubscribeToStore { store: Store::Buffer },
            Effect::CreateStore { store: Store::Image, store_kind: StoreKind::Local },
            Effect::SubscribeToStore { store: Store::Image },
            Effect::CreateStore { store: Store::Prettier, store_kind: StoreKind::Local },
            Effect::CreateStore { store: Store::Toolchain, store_kind: StoreKind::Local },
            Effect::CreateTaskStore { store_kind: StoreKind::Local, toolchains: true },
            Effect::CreateStore { store: Store::SettingsObserver, store_kind: StoreKind::Local },
            Effect::SubscribeToStore { store: Store::SettingsObserver },
            Effect::CreateLspStore { store_kind: StoreKind::Local, toolchains: true },
            Effect::SubscribeToStore { store: Store::Lsp },
            Effect::OnRelease,
        ];
        (Project::fresh(ProjectClientState::Local, None, 0, Some(node), true), effects)
    }

    /// A project whose files are reached over ssh.
    pub fn ssh(ssh: SshClient, node: PayloadId) -> (res: (Project, Vec<Effect>))
        ensures
            res.0.wf(),
            res.0@.is_fresh(),
            res.0@.client_state == ProjectClientState::Local,
            res.0@.ssh_client == Some(ssh),
            res.0@.join_project_response_message_id == 0,
            res.0@.node == Some(node),
            res.0@.toolchain_store,
            res.1@ == ssh_effects() + ssh_message_effects(),
    {
        let mut effects = vec![
            Effect::StartOrderedMessages,
            Effect::CreateSnippets { global_dir: true },
            Effect::CreateWorktreeStore {
                store_kind: StoreKind::Remote { server: Server::Ssh, project_id: SSH_PROJECT_ID },
                retain_worktrees: false,
            },
            Effect::SubscribeToStore { store: Store::Worktree },
            Effect::CreateStore {
                store: Store::Buffer,
                store_kind: StoreKind::Remote { server: Server::Ssh, project_id: SSH_PROJECT_ID },
            },
            Effect::CreateStore {
                store: Store::Image,
                store_kind: StoreKind::Remote { server: Server::Ssh, project_id: SSH_PROJECT_ID },
            },
            Effect::SubscribeToStore { store: Store::Buffer },
            Effect::CreateStore {
                store: Store::Toolchain,
                store_kind: StoreKind::Remote { server: Server::Ssh, project_id: SSH_PROJECT_ID },
            },
            Effect::CreateTaskStore {
                store_kind: StoreKind::Remote { server: Server::Ssh, project_id: SSH_PROJECT_ID },
                toolchains: true,
            },
            Effect::CreateStore { store: Store::SettingsObserver, store_kind: StoreKind::Mirror },
            Effect::SubscribeToStore { store: Store::SettingsObserver },
            Effect::CreateEnvironment { cli_environment: None },
            Effect::CreateLspStore {
                store_kind: StoreKind::Remote { server: Server::Ssh, project_id: SSH_PROJECT_ID },
                toolchains: true,
            },
            Effect::SubscribeToStore { store: Store::Lsp },
            Effect::CreateStore {
                store: Store::Dap,
                store_kind: StoreKind::Remote { server: Server::Collab, project_id: SSH_PROJECT_ID },
            },
            Effect::SubscribeToSsh,
            Effect::ObserveSsh,
            Effect::OnRelease,
            Effect::OnAppQuit,
        ];
        let mut message_effects = vec![
            Effect::SubscribeToSshEntity { entity: Entity::Project, project_id: SSH_PROJECT_ID },
            Effect::SubscribeToSshEntity {
                entity: Entity::BufferStore,
                project_id: SSH_PROJECT_ID,
            },
            Effect::SubscribeToSshEntity {
                entity: Entity::WorktreeStore,
                project_id: SSH_PROJECT_ID,
            },
            Effect::SubscribeToSshEntity { entity: Entity::LspStore, project_id: SSH_PROJECT_ID },
            Effect::SubscribeToSshEntity { entity: Entity::DapStore, project_id: SSH_PROJECT_ID },
            Effect::SubscribeToSshEntity {
                entity: Entity::SettingsObserver,
                project_id: SSH_PROJECT_ID,
            },
            Effect::AddHandler {
                server: Server::Ssh,
                message: MessageKind::CreateBufferForPeer,
                is_request: false,
            },
            Effect::AddHandler {
                server: Server::Ssh,
                message: MessageKind::UpdateWorktree,
                is_request: false,
            },
            Effect::AddHandler {
                server: Server::Ssh,
                message: MessageKind::UpdateProject,
                is_request: false,
            },
            Effect::AddHandler {
                server: Server::Ssh,
                message: MessageKind::Toast,
                is_request: false,
            },
            Effect::AddHandler {
                server: Server::Ssh,
                message: MessageKind::LanguageServerPromptRequest,
                is_request: true,
            },
            Effect::AddHandler {
                server: Server::Ssh,
                message: MessageKind::HideToast,
                is_request: false,
            },
            Effect::AddHandler {
                server: Server::Ssh,
                message: MessageKind::UpdateBufferFromSsh,
                is_request: true,
            },
            Effect::InitStore { server: Server::Ssh, store: Store::Buffer },
            Effect::InitStore { server: Server::Ssh, store: Store::Lsp },
            Effect::InitStore { server: Server::Ssh, store: Store::SettingsObserver },
            Effect::InitStore { server: Server::Ssh, store: Store::Task },
            Effect::InitStore { server: Server::Ssh, store: Store::Toolchain },
            Effect::InitStore { server: Server::Ssh, store: Store::Dap },
        ];
        effects.append(&mut message_effects);
        (Project::fresh(ProjectClientState::Local, Some(ssh), 0, Some(node), true), effects)
    }

    /// Starts joining the project of another user.
    pub fn in_room(remote_id: u64) -> (res: Joining)
        ensures
            res == (Joining { remote_id, phase: JoinPhase::Authenticating }),
    {
        Joining { remote_id, phase: JoinPhase::Authenticating }
    }

    /// What to subscribe to on the collaboration server before a project is joined.
    pub fn join_subscriptions() -> (res: Vec<Entity>)
        ensures
            res@ == joined_entities(),
    {
        vec![
            Entity::Project,
            Entity::BufferStore,
            Entity::WorktreeStore,
            Entity::LspStore,
            Entity::SettingsObserver,
            Entity::DapStore,
        ]
    }

    /// A project of another user; `finish_join` follows once the participants were loaded.
    pub fn from_join_project_response(
        response: JoinProjectResponse,
        run_tasks: bool,
        subscriptions: &Vec<Entity>,
    ) -> (res: (Project, Vec<Effect>))
        ensures
            res.0.wf(),
            res.0@.is_fresh(),
            res.0@.client_state == (ProjectClientState::Remote {
                sharing_has_stopped: false,
                capability: sharing::role_capability(response.role),
                remote_id: response.project_id,
                replica_id: response.replica_id as ReplicaId,
            }),
            res.0@.ssh_client is None,
            res.0@.join_project_response_message_id == response.message_id,
            res.0@.node is None,
            !res.0@.toolchain_store,
            res.1@ == join_effects(response, run_tasks, subscriptions@),
    {
        let project_id = response.project_id;
        let replica_id: ReplicaId = #[verifier::truncate] (response.replica_id as ReplicaId);
        let mut effects = vec![
            Effect::CreateWorktreeStore {
                store_kind: StoreKind::Remote { server: Server::Collab, project_id },
                retain_worktrees: true,
            },
            Effect::CreateStore {
                store: Store::Buffer,
                store_kind: StoreKind::Remote { server: Server::Collab, project_id },
            },
            Effect::CreateStore {
                store: Store::Image,
                store_kind: StoreKind::Remote { server: Server::Collab, project_id },
            },
            Effect::CreateEnvironment { cli_environment: None },
            Effect::CreateStore {
                store: Store::Dap,
                store_kind: StoreKind::Remote { server: Server::Collab, project_id },
            },
            Effect::SetBreakpoints,
            Effect::CreateLspStore {
                store_kind: StoreKind::Remote { server: Server::Collab, project_id },
                toolchains: false,
            },
            Effect::SetLanguageServerStatuses,
            Effect::CreateTaskStore {
                store_kind: if run_tasks {
                    StoreKind::Remote { server: Server::Collab, project_id }
                } else {
                    StoreKind::Noop
                },
                toolchains: false,
            },
            Effect::CreateStore { store: Store::SettingsObserver, store_kind: StoreKind::Mirror },
            Effect::CreateSnippets { global_dir: false },
        ];
        let mut worktrees = Project::create_remote_worktrees(
            project_id,
            replica_id,
            &response.worktree_ids,
        );
        effects.append(&mut worktrees);
        let mut listen = vec![
            Effect::StartOrderedMessages,
            Effect::SubscribeToStore { store: Store::Worktree },
            Effect::SubscribeToStore { store: Store::Buffer },
            Effect::SubscribeToStore { store: Store::Lsp },
            Effect::SubscribeToStore { store: Store::SettingsObserver },
            Effect::SubscribeToStore { store: Store::Dap },
            Effect::OnRelease,
        ];
        effects.append(&mut listen);
        let mut project = Project::fresh(
            ProjectClientState::Remote {
                sharing_has_stopped: false,
                capability: Capability::ReadWrite,
                remote_id: project_id,
                replica_id,
            },
            None,
            response.message_id,
            None,
            false,
        );
        let mut role_effects = project.set_role(response.role);
        effects.append(&mut role_effects);
        let mut added = Project::add_worktrees(&response.worktree_ids);
        effects.append(&mut added);
        let mut attached = Project::attach_subscriptions(subscriptions);
        effects.append(&mut attached);
        effects.push(Effect::GetUsers(response.collaborator_user_ids));
        assert(effects@ =~= join_effects(response, run_tasks, subscriptions@));
        (project, effects)
    }

    fn create_remote_worktrees(project_id: u64, replica_id: ReplicaId, ids: &Vec<WorktreeId>) -> (
    effects: Vec<Effect>)
        ensures
            effects@ == create_worktree_effects(project_id, replica_id, ids@),
    {
        let ghost want = create_worktree_effects(project_id, replica_id, ids@);
        let mut effects: Vec<Effect> = Vec::new();
        let mut i: usize = 0;
        while i < ids.len()
            invariant
                i <= ids.len(),
                want == create_worktree_effects(project_id, replica_id, ids@),
                effects@ == want.take(i as int),
            decreases ids.len() - i,
        {
            effects.push(
                Effect::CreateRemoteWorktree { project_id, replica_id, worktree_id: ids[i] },
            );
            i = i + 1;
            assert(effects@ =~= want.take(i as int));
        }
        assert(effects@ =~= want);
        effects
    }

    fn add_worktrees(ids: &Vec<WorktreeId>) -> (effects: Vec<Effect>)
        ensures
            effects@ == add_worktree_effects(ids@),
    {
        let ghost want = add_worktree_effects(ids@);
        let mut effects: Vec<Effect> = Vec::new();
        let mut i: usize = 0;
        while i < ids.len()
            invariant
                i <= ids.len(),
                want == add_worktree_effects(ids@),
                effects@ == want.take(i as int),
            decreases ids.len() - i,
        {
            effects.push(Effect::AddWorktree(ids[i]));
            i = i + 1;
            assert(effects@ =~= want.take(i as int));
        }
        assert(effects@ =~= want);
        effects
    }

    fn attach_subscriptions(entities: &Vec<Entity>) -> (effects: Vec<Effect>)
        ensures
            effects@ == attach_effects(entities@),
    {
        let ghost want = attach_effects(entities@);
        let mut effects: Vec<Effect> = Vec::new();
        let mut i: usize = 0;
        while i < entities.len()
            invariant
                i <= entities.len(),
                want == attach_effects(entities@),
                effects@ == want.take(i as int),
            decreases entities.len() - i,
        {
            effects.push(Effect::AttachSubscription(entities[i]));
            i = i + 1;
            assert(effects@ =~= want.take(i as int));
        }
        assert(effects@ =~= want);
        effects
    }

    /// What follows `from_join_project_response`; `users_loaded` is what became of the users.
    pub fn finish_join(
        &mut self,
        users_loaded: Result<(), PayloadId>,
        collaborators: Vec<Option<Collaborator>>,
        subscriptions: Vec<Entity>,
    ) -> (res: Outcome)
        requires
            old(self).wf(),
        ensures
            final(self).wf(),
            match users_loaded {
                Err(error) => res.is(Seq::empty(), Err(ProjectError::Surroundings(error)))
                    && final(self)@ == old(self)@,
                Ok(()) => if participants::readable(collaborators@) {
                    res.result == Ok::<(), ProjectError>(()) && participants::announces_left(
                        res.effects@,
                        old(self)@.missing_from(collaborators@),
                    ) && final(self)@ == (ProjectView {
                        collaborators: participants::listed(collaborators@),
                        client_subscriptions: old(self)@.client_subscriptions + subscriptions@,
                        ..old(self)@
                    })
                } else {
                    res.is(Seq::empty(), Err(ProjectError::InvalidCollaborator)) && final(self)@
                        == old(self)@
                },
            },
    {
        if let Err(error) = users_loaded {
            return Outcome::refused(ProjectError::Surroundings(error));
        }
        let outcome = self.set_collaborators_from_proto(&collaborators);
        if outcome.result.is_ok() {
            let mut subscriptions = subscriptions;
            self.client_subscriptions.append(&mut subscriptions);
        }
        outcome
    }
}

/// Joining goes on one phase at a time while all goes well, and any failure ends it with the reason
/// that was given; which project is joined never changes.
pub proof fn law_joining(joining: Joining, error: PayloadId)
    ensures
        joining.running() <==> joining.phase is Authenticating || joining.phase is Subscribing
            || joining.phase is Requesting,
        joining.advanced(Err(error)).phase == JoinPhase::Failed(error),
        joining.advanced(Err(error)).remote_id == joining.remote_id,
        joining.advanced(Ok(())).remote_id == joining.remote_id,
        joining.phase is Authenticating ==> joining.advanced(Ok(())).phase is Subscribing,
        joining.phase is Subscribing ==> joining.advanced(Ok(())).phase is Requesting,
        joining.phase is Requesting ==> joining.advanced(Ok(())).phase is Joined,
{
}

/// A new history of searches is empty, always takes what is put into it and holds no more than five
/// hundred entries; a new project has three of them and nothing else yet.
pub proof fn law_fresh(view: ProjectView, history: SearchHistory)
    ensures
        is_new_history(history) <==> history.history@.len() == 0 && history.insertion_behavior
            == QueryInsertionBehavior::AlwaysInsert && history.max_history_len == Some(500usize),
        view.is_fresh() ==> {
            &&& view.active_entry is None
            &&& view.collaborators.dom() == Set::<PeerId>::empty()
            &&& view.client_subscriptions.len() == 0
            &&& view.worktree_store.worktrees@.len() == 0
            &&& !view.worktree_store.worktrees_reordered
            &&& view.buffer_store.buffers@.len() == 0
            &&& view.buffers_needing_diff.len() == 0
            &&& view.remotely_created_models.retain_count == 0
            &&& view.remotely_created_models.buffers.len() == 0
            &&& view.remotely_created_models.worktrees.len() == 0
            &&& view.search_history.history@.len() == 0
            &&& view.search_included_history.history@.len() == 0
            &&& view.search_excluded_history.history@.len() == 0
            &&& is_new_history(view.search_history)
            &&& is_new_history(view.search_included_history)
            &&& is_new_history(view.search_excluded_history)
        },
{
    if history.history@.len() == 0 {
        assert(history.history@ =~= Seq::empty());
    }
}

/// Before any project there is, the settings are registered, the messages of the collaboration
/// server that concern a project are answered, with a reply exactly for those that ask for
/// something, and so are those to every store but that of images and prettier.
pub proof fn law_init()
    ensures
        forall|effect: Effect| #[trigger]
            init_effects().contains(effect) <==> match effect {
                Effect::InitConnectionManager => true,
                Effect::RegisterSettings => true,
                Effect::AddHandler { server, message, is_request } => server is Collab && !(message
                    is UpdateBufferFromSsh || message is Toast || message is HideToast || message
                    is LanguageServerPromptRequest) && is_request == (message is UpdateBuffer
                    || message is SynchronizeBuffers || message is FindSearchCandidates || message
                    is OpenBufferById || message is OpenBufferByPath || message is OpenNewBuffer),
                Effect::InitStore { server, store } => server is Collab && !(store is Image || store
                    is Prettier),
                _ => false,
            },
        init_effects().len() == 22,
        init_effects()[0] is InitConnectionManager,
        init_effects()[1] is RegisterSettings,
{
    let list = init_effects();
    assert(list.contains(list[0]));
    assert(list.contains(list[1]));
    assert(list.contains(list[2]));
    assert(list.contains(list[3]));
    assert(list.contains(list[4]));
    assert(list.contains(list[5]));
    assert(list.contains(list[6]));
    assert(list.contains(list[7]));
    assert(list.contains(list[8]));
    assert(list.contains(list[9]));
    assert(list.contains(list[10]));
    assert(list.contains(list[11]));
    assert(list.contains(list[12]));
    assert(list.contains(list[13]));
    assert(list.contains(list[14]));
    assert(list.contains(list[15]));
    assert(list.contains(list[16]));
    assert(list.contains(list[17]));
    assert(list.contains(list[18]));
    assert(list.contains(list[19]));
    assert(list.contains(list[20]));
    assert(list.contains(list[21]));
}

/// Whether an effect makes a store.
pub open spec fn makes(effect: Effect, store: Store) -> bool {
    match effect {
        Effect::CreateWorktreeStore { .. } => store is Worktree,
        Effect::CreateTaskStore { .. } => store is Task,
        Effect::CreateLspStore { .. } => store is Lsp,
        Effect::CreateStore { store: made, .. } => made == store,
        _ => false,
    }
}

/// Whether every store that is watched was made before.
pub open spec fn made_before_watched(effects: Seq<Effect>) -> bool {
    forall|i: int|
        0 <= i < effects.len() ==> (#[trigger] effects[i] matches Effect::SubscribeToStore { store }
            ==> exists|j: int| 0 <= j < i && makes(#[trigger] effects[j], store))
}

/// A project of this machine has every store on this machine, watches all that report something,
/// each after it was made, and takes over the environment of the command line; it does nothing
/// else.
pub proof fn law_local_project(env: Option<PayloadId>, store: Store)
    ensures
        forall|effect: Effect| #[trigger]
            local_effects(env).contains(effect) <==> match effect {
                Effect::StartOrderedMessages => true,
                Effect::OnRelease => true,
                Effect::CreateSnippets { global_dir } => !global_dir,
                Effect::CreateEnvironment { cli_environment } => cli_environment == env,
                Effect::CreateWorktreeStore { store_kind, retain_worktrees } => store_kind is Local
                    && !retain_worktrees,
                Effect::CreateTaskStore { store_kind, toolchains } => store_kind is Local
                    && toolchains,
                Effect::CreateLspStore { store_kind, toolchains } => store_kind is Local
                    && toolchains,
                Effect::CreateStore { store, store_kind } => store_kind is Local && !(store
                    is Worktree || store is Task || store is Lsp),
                Effect::SubscribeToStore { store } => !(store is Task || store is Toolchain || store
                    is Prettier),
                _ => false,
            },
        local_effects(env).len() == 19,
        made_before_watched(local_effects(env)),
        exists|i: int| 0 <= i < 19 && makes(#[trigger] local_effects(env)[i], store),
{
    let list = local_effects(env);
    assert(list.contains(list[0]));
    assert(list.contains(list[1]));
    assert(list.contains(list[2]));
    assert(list.contains(list[3]));
    assert(list.contains(list[4]));
    assert(list.contains(list[5]));
    assert(list.contains(list[6]));
    assert(list.contains(list[7]));
    assert(list.contains(list[8]));
    assert(list.contains(list[9]));
    assert(list.contains(list[10]));
    assert(list.contains(list[11]));
    assert(list.contains(list[12]));
    assert(list.contains(list[13]));
    assert(list.contains(list[14]));
    assert(list.contains(list[15]));
    assert(list.contains(list[16]));
    assert(list.contains(list[17]));
    assert(list.contains(list[18]));
    assert(makes(list[2], Store::Worktree));
    assert(makes(list[5], Store::Dap));
    assert(makes(list[7], Store::Buffer));
    assert(makes(list[9], Store::Image));
    assert(makes(list[14], Store::SettingsObserver));
    assert(makes(list[16], Store::Lsp));
    assert(makes(list[11], Store::Prettier));
    assert(makes(list[12], Store::Toolchain));
    assert(makes(list[13], Store::Task));
}

/// A project on an ssh server asks that server in all its stores, but for the settings, which it
/// mirrors, and the debug adapters; it watches those that report something and the connection, and
/// ends with the program.
pub proof fn law_ssh_project()
    ensures
        forall|effect: Effect| #[trigger]
            ssh_effects().contains(effect) <==> match effect {
                Effect::StartOrderedMessages => true,
                Effect::OnRelease => true,
                Effect::OnAppQuit => true,
                Effect::SubscribeToSsh => true,
                Effect::ObserveSsh => true,
                Effect::CreateSnippets { global_dir } => global_dir,
                Effect::CreateEnvironment { cli_environment } => cli_environment is None,
                Effect::CreateWorktreeStore { store_kind, retain_worktrees } => asks_ssh(store_kind)
                    && !retain_worktrees,
                Effect::CreateTaskStore { store_kind, toolchains } => asks_ssh(store_kind)
                    && toolchains,
                Effect::CreateLspStore { store_kind, toolchains } => asks_ssh(store_kind)
                    && toolchains,
                Effect::CreateStore { store, store_kind } => match store {
                    Store::Buffer | Store::Image | Store::Toolchain => asks_ssh(store_kind),
                    Store::SettingsObserver => store_kind is Mirror,
                    Store::Dap => store_kind == (StoreKind::Remote {
                        server: Server::Collab,
                        project_id: 0,
                    }),
                    _ => false,
                },
                Effect::SubscribeToStore { store } => store is Worktree || store is Buffer || store
                    is SettingsObserver || store is Lsp,
                _ => false,
            },
        ssh_effects().len() == 19,
        made_before_watched(ssh_effects()),
{
    let list = ssh_effects();
    assert(list.contains(list[0]));
    assert(list.contains(list[1]));
    assert(list.contains(list[2]));
    assert(list.contains(list[3]));
    assert(list.contains(list[4]));
    assert(list.contains(list[5]));
    assert(list.contains(list[6]));
    assert(list.contains(list[7]));
    assert(list.contains(list[8]));
    assert(list.contains(list[9]));
    assert(list.contains(list[10]));
    assert(list.contains(list[11]));
    assert(list.contains(list[12]));
    assert(list.contains(list[13]));
    assert(list.contains(list[14]));
    assert(list.contains(list[15]));
    assert(list.contains(list[16]));
    assert(list.contains(list[17]));
    assert(list.contains(list[18]));
    assert(makes(list[2], Store::Worktree));
    assert(makes(list[4], Store::Buffer));
    assert(makes(list[9], Store::SettingsObserver));
    assert(makes(list[12], Store::Lsp));
}

/// Whether a store asks the ssh server.
pub open spec fn asks_ssh(store_kind: StoreKind) -> bool {
    store_kind == (StoreKind::Remote { server: Server::Ssh, project_id: 0 })
}

/// A project on an ssh server receives that server's messages for every entity, answers those that
/// can come from it, with a reply exactly to a prompt and to an update of a buffer, and lets all
/// its stores but those of worktrees, images and prettier answer theirs.
pub proof fn law_ssh_messages()
    ensures
        forall|effect: Effect| #[trigger]
            ssh_message_effects().contains(effect) <==> match effect {
                Effect::SubscribeToSshEntity { project_id, .. } => project_id == 0,
                Effect::AddHandler { server, message, is_request } => server is Ssh && (message
                    is CreateBufferForPeer || message is UpdateWorktree || message is UpdateProject
                    || message is Toast || message is HideToast || message
                    is LanguageServerPromptRequest || message is UpdateBufferFromSsh) && is_request
                    == (message is LanguageServerPromptRequest || message is UpdateBufferFromSsh),
                Effect::InitStore { server, store } => server is Ssh && !(store is Worktree || store
                    is Image || store is Prettier),
                _ => false,
            },
        ssh_message_effects().len() == 19,
{
    let list = ssh_message_effects();
    assert(list.contains(list[0]));
    assert(list.contains(list[1]));
    assert(list.contains(list[2]));
    assert(list.contains(list[3]));
    assert(list.contains(list[4]));
    assert(list.contains(list[5]));
    assert(list.contains(list[6]));
    assert(list.contains(list[7]));
    assert(list.contains(list[8]));
    assert(list.contains(list[9]));
    assert(list.contains(list[10]));
    assert(list.contains(list[11]));
    assert(list.contains(list[12]));
    assert(list.contains(list[13]));
    assert(list.contains(list[14]));
    assert(list.contains(list[15]));
    assert(list.contains(list[16]));
    assert(list.contains(list[17]));
    assert(list.contains(list[18]));
}

/// A guest's project asks the host in all its stores, under the number of the project, but for the
/// settings, which it mirrors, and the tasks if they cannot be run; it keeps its worktrees, finds no
/// toolchains, and takes over the breakpoints and language servers that there are, each after the
/// store that holds them was made.
pub proof fn law_joined_stores(project_id: u64, run_tasks: bool)
    ensures
        ({
            let host = StoreKind::Remote { server: Server::Collab, project_id };
            let effects = join_store_effects(project_id, run_tasks);
            &&& forall|effect: Effect| #[trigger]
                effects.contains(effect) <==> match effect {
                    Effect::SetBreakpoints => true,
                    Effect::SetLanguageServerStatuses => true,
                    Effect::CreateSnippets { global_dir } => !global_dir,
                    Effect::CreateEnvironment { cli_environment } => cli_environment is None,
                    Effect::CreateWorktreeStore { store_kind, retain_worktrees } => store_kind
                        == host && retain_worktrees,
                    Effect::CreateTaskStore { store_kind, toolchains } => !toolchains && (run_tasks
                        ==> store_kind == host) && (!run_tasks ==> store_kind is Noop),
                    Effect::CreateLspStore { store_kind, toolchains } => !toolchains && store_kind
                        == host,
                    Effect::CreateStore { store, store_kind } => match store {
                        Store::Buffer | Store::Image | Store::Dap => store_kind == host,
                        Store::SettingsObserver => store_kind is Mirror,
                        _ => false,
                    },
                    _ => false,
                }
            &&& effects.len() == 11
            &&& exists|i: int, j: int|
                0 <= i < j < 11 && #[trigger] makes(effects[i], Store::Dap) && #[trigger] effects[j]
                    is SetBreakpoints
            &&& exists|i: int, j: int|
                0 <= i < j < 11 && #[trigger] makes(effects[i], Store::Lsp) && #[trigger] effects[j]
                    is SetLanguageServerStatuses
        }),
{
    let list = join_store_effects(project_id, run_tasks);
    assert(list.contains(list[0]));
    assert(list.contains(list[1]));
    assert(list.contains(list[2]));
    assert(list.contains(list[3]));
    assert(list.contains(list[4]));
    assert(list.contains(list[5]));
    assert(list.contains(list[6]));
    assert(list.contains(list[7]));
    assert(list.contains(list[8]));
    assert(list.contains(list[9]));
    assert(list.contains(list[10]));
    assert(makes(list[4], Store::Dap) && list[5] is SetBreakpoints);
    assert(makes(list[6], Store::Lsp) && list[7] is SetLanguageServerStatuses);
}

/// A guest's project watches the stores that report something and starts sending its messages.
pub proof fn law_joined_listening()
    ensures
        forall|effect: Effect| #[trigger]
            join_listen_effects().contains(effect) <==> match effect {
                Effect::StartOrderedMessages => true,
                Effect::OnRelease => true,
                Effect::SubscribeToStore { store } => store is Worktree || store is Buffer || store
                    is Lsp || store is SettingsObserver || store is Dap,
                _ => false,
            },
        join_listen_effects().len() == 7,
        forall|entity: Entity| #[trigger] joined_entities().contains(entity),
        joined_entities().len() == 6,
{
    let list = join_listen_effects();
    assert(list.contains(list[0]));
    assert(list.contains(list[1]));
    assert(list.contains(list[2]));
    assert(list.contains(list[3]));
    assert(list.contains(list[4]));
    assert(list.contains(list[5]));
    assert(list.contains(list[6]));
    let all = joined_entities();
    assert(all.contains(all[0]));
    assert(all.contains(all[1]));
    assert(all.contains(all[2]));
    assert(all.contains(all[3]));
    assert(all.contains(all[4]));
    assert(all.contains(all[5]));
}

/// A project that is joined has the worktrees that the answer lists, each made under the number and
/// replica of the answer and then added, in their order; what is received reaches the entities that
/// were subscribed to, and the users who take part are loaded last.
pub proof fn law_joined(response: JoinProjectResponse, run_tasks: bool, subscriptions: Seq<Entity>)
    ensures
        ({
            let effects = join_effects(response, run_tasks, subscriptions);
            let n = response.worktree_ids@.len() as int;
            let m = subscriptions.len() as int;
            &&& effects.len() == 11 + n + 7 + n + m + 1
            &&& effects.take(11) == join_store_effects(response.project_id, run_tasks)
            &&& forall|i: int|
                #![trigger response.worktree_ids@[i]]
                0 <= i < n ==> effects[11 + i] == (Effect::CreateRemoteWorktree {
                    project_id: response.project_id,
                    replica_id: response.replica_id as ReplicaId,
                    worktree_id: response.worktree_ids@[i],
                }) && effects[18 + n + i] == Effect::AddWorktree(response.worktree_ids@[i])
            &&& effects.subrange(11 + n, 18 + n) == join_listen_effects()
            &&& forall|i: int|
                0 <= i < m ==> effects[18 + 2 * n + i] == Effect::AttachSubscription(
                    #[trigger] subscriptions[i],
                )
            &&& effects.last() == Effect::GetUsers(response.collaborator_user_ids)
        }),
{
    let effects = join_effects(response, run_tasks, subscriptions);
    let n = response.worktree_ids@.len() as int;
    let stores = join_store_effects(response.project_id, run_tasks);
    assert(stores.len() == 11);
    assert(join_listen_effects().len() == 7);
    assert(effects.take(11) =~= stores);
    assert(effects.subrange(11 + n, 18 + n) =~= join_listen_effects());
}

} // verus!
