//! What a project tells its observers, and what it asks of its surroundings.
use crate::ids::{
    BufferId, DebugAdapterClientId, ImageId, LanguageServerId, PayloadId, PeerId, ProjectEntryId,
    ReplicaId, WorktreeId,
};
use crate::project_path::ProjectPath;
use vstd::prelude::*;

verus! {

/// The number under which a project is known to its own ssh server.
pub const SSH_PROJECT_ID: u64 = 0;

/// Whether the buffers of a project can be edited.
#[derive(Clone, Copy, Debug, PartialEq, Eq, Structural)]
pub enum Capability {
    ReadWrite,
    ReadOnly,
}

/// The role of the local user in a project that someone else shares.
#[derive(Clone, Copy, Debug, PartialEq, Eq, Structural)]
pub enum ChannelRole {
    Admin,
    Member,
    /// Any role that may not edit.
    Other,
}

/// The stores that a project consists of.
#[derive(Clone, Copy, Debug, PartialEq, Eq, Structural)]
pub enum Store {
    Worktree,
    Buffer,
    Image,
    Lsp,
    Dap,
    Task,
    SettingsObserver,
    Toolchain,
    Prettier,
}

/// How a store gets at its contents.
#[derive(Clone, Copy, Debug, PartialEq, Eq, Structural)]
pub enum StoreKind {
    /// It works on this machine.
    Local,
    /// It asks the project of this number on a server.
    Remote { server: Server, project_id: u64 },
    /// It holds what messages bring.
    Mirror,
    /// It holds nothing.
    Noop,
}

/// What can be subscribed to on a server.
#[derive(Clone, Copy, Debug, PartialEq, Eq, Structural)]
pub enum Entity {
    Project,
    BufferStore,
    WorktreeStore,
    LspStore,
    SettingsObserver,
    DapStore,
}

/// The messages that a project answers.
#[derive(Clone, Copy, Debug, PartialEq, Eq, Structural)]
pub enum MessageKind {
    AddProjectCollaborator,
    UpdateProjectCollaborator,
    RemoveProjectCollaborator,
    UpdateProject,
    UnshareProject,
    UpdateBuffer,
    UpdateBufferFromSsh,
    UpdateWorktree,
    SynchronizeBuffers,
    FindSearchCandidates,
    OpenBufferById,
    OpenBufferByPath,
    OpenNewBuffer,
    CreateBufferForPeer,
    Toast,
    HideToast,
    LanguageServerPromptRequest,
}

/// A server that messages go to.
#[derive(Clone, Copy, Debug, PartialEq, Eq, Structural)]
pub enum Server {
    /// The collaboration server.
    Collab,
    /// The server on the other end of the ssh connection.
    Ssh,
}

/// How urgent a prompt is.
#[derive(Clone, Copy, Debug, PartialEq, Eq, Structural)]
pub enum PromptLevel {
    Info,
    Warning,
    Critical,
}

/// An answer that a prompt offers.
#[derive(Clone, Debug, PartialEq)]
pub struct MessageActionItem {
    pub title: String,
    /// Further properties, by name.
    pub properties: Vec<(String, PayloadId)>,
}

/// A question that a language server asks the user.
#[derive(Clone, Debug, PartialEq)]
pub struct LanguageServerPromptRequest {
    pub level: PromptLevel,
    pub message: String,
    pub actions: Vec<MessageActionItem>,
    pub lsp_name: String,
}

/// A message that keeps its place among the operations on buffers.
#[derive(Clone, Copy, Debug, PartialEq, Eq, Structural)]
pub enum BufferOrderedMessage {
    Operation { buffer_id: BufferId, operation: PayloadId },
    LanguageServerUpdate { language_server_id: LanguageServerId, message: PayloadId },
    Resync,
}

/// What a project tells its observers.
#[allow(inconsistent_fields)]
#[derive(Clone, Debug, PartialEq)]
pub enum Event {
    LanguageServerAdded(LanguageServerId, String, Option<WorktreeId>),
    LanguageServerRemoved(LanguageServerId),
    LanguageServerLog(LanguageServerId, PayloadId, String),
    Toast { notification_id: String, message: String },
    HideToast { notification_id: String },
    LanguageServerPrompt(LanguageServerPromptRequest),
    LanguageNotFound(BufferId),
    DebugClientStarted(DebugAdapterClientId),
    DebugClientStopped(DebugAdapterClientId),
    ActiveDebugLineChanged,
    DebugClientEvent { client_id: DebugAdapterClientId, message: PayloadId },
    DebugClientLog(DebugAdapterClientId, String),
    ActiveEntryChanged(Option<ProjectEntryId>),
    ActivateProjectPanel,
    WorktreeAdded,
    WorktreeOrderChanged,
    WorktreeRemoved(WorktreeId),
    WorktreeUpdatedEntries(WorktreeId, PayloadId),
    WorktreeUpdatedGitRepositories,
    DiskBasedDiagnosticsStarted { language_server_id: LanguageServerId },
    DiskBasedDiagnosticsFinished { language_server_id: LanguageServerId },
    DiagnosticsUpdated { path: ProjectPath, language_server_id: LanguageServerId },
    RemoteIdChanged(Option<u64>),
    DisconnectedFromHost,
    DisconnectedFromSshRemote,
    Closed,
    DeletedEntry(ProjectEntryId),
    CollaboratorUpdated { old_peer_id: PeerId, new_peer_id: PeerId },
    CollaboratorJoined(PeerId),
    CollaboratorLeft(PeerId),
    HostReshared,
    Reshared,
    Rejoined,
    RefreshInlayHints,
    RevealInProjectPanel(ProjectEntryId),
    SnippetEdit(BufferId, PayloadId),
}

/// What a project asks of its surroundings, to be done in the order in which it is listed.
#[derive(Debug, PartialEq)]
pub enum Effect {
    /// Tell the observers.
    Emit(Event),
    /// Tell the observers that something changed.
    Notify,
    /// Make the provider of snippets, with the directory of the user's own snippets or without.
    CreateSnippets { global_dir: bool },
    /// Make the provider of environment variables.
    CreateEnvironment { cli_environment: Option<PayloadId> },
    /// Make the store of worktrees.
    CreateWorktreeStore { store_kind: StoreKind, retain_worktrees: bool },
    /// Make the store of tasks, with a way to find toolchains or without.
    CreateTaskStore { store_kind: StoreKind, toolchains: bool },
    /// Make the store of language servers, with a way to find toolchains or without.
    CreateLspStore { store_kind: StoreKind, toolchains: bool },
    /// Make one of the other stores.
    CreateStore { store: Store, store_kind: StoreKind },
    /// Make a worktree that lies on another machine.
    CreateRemoteWorktree { project_id: u64, replica_id: ReplicaId, worktree_id: WorktreeId },
    /// Register the settings.
    RegisterSettings,
    /// Keep the connections of projects of other users up.
    InitConnectionManager,
    /// Let a server's messages to a store be answered.
    InitStore { server: Server, store: Store },
    /// Call `release` when the project is dropped.
    OnRelease,
    /// Call `on_app_quit` when the program ends.
    OnAppQuit,
    /// Watch what a store reports.
    SubscribeToStore { store: Store },
    /// Watch what the ssh connection reports.
    SubscribeToSsh,
    /// Notify the observers whenever the ssh connection changes.
    ObserveSsh,
    /// Let the messages of the collaboration server that concern an entity reach it.
    AttachSubscription(Entity),
    /// Start sending the messages that are ordered with buffer operations.
    StartOrderedMessages,
    /// Receive the messages of the ssh server that concern an entity.
    SubscribeToSshEntity { entity: Entity, project_id: u64 },
    /// Answer a kind of message; `is_request` when a reply is due.
    AddHandler { server: Server, message: MessageKind, is_request: bool },
    /// Put a message among the operations on buffers.
    Enqueue(BufferOrderedMessage),
    /// Tell a store that the project is shared under a number.
    StoreShared { store: Store, project_id: u64 },
    /// Tell a store that the project is no longer shared.
    StoreUnshared { store: Store },
    /// Tell a store that the host is gone.
    StoreDisconnectedFromHost { store: Store },
    /// Tell the language server store that the ssh server is gone.
    LspDisconnectedFromSshRemote,
    /// Forget which buffers were shared with whom.
    ForgetSharedBuffers,
    /// Forget which buffers were shared with one participant.
    ForgetSharedBuffersFor(PeerId),
    /// A participant goes on under another identifier.
    UpdatePeerId { old_peer_id: PeerId, new_peer_id: PeerId },
    /// Drop the buffers that have not arrived completely.
    DiscardIncompleteBuffers,
    /// Remove what a participant left in a buffer.
    RemovePeerFromBuffer { buffer_id: BufferId, replica_id: ReplicaId },
    /// Make a buffer editable, or not.
    SetBufferCapability { buffer_id: BufferId, capability: Capability },
    /// Send the state of the worktrees to the participants.
    SendProjectUpdates,
    /// Forget the settings of a worktree.
    ClearLocalSettings(WorktreeId),
    /// Take over the worktrees that a message lists.
    SetWorktreesFromProto { replica_id: ReplicaId },
    /// Add a worktree that a message lists.
    AddWorktree(WorktreeId),
    /// Take over the language servers that a message lists.
    SetLanguageServerStatuses,
    /// Take over the breakpoints that a message lists.
    SetBreakpoints,
    /// Tell the language server store which entry is active.
    SetActiveEntry(Option<ProjectEntryId>),
    /// Load the users with these numbers.
    GetUsers(Vec<u64>),
    /// Tell the collaboration server that the project is no longer shared.
    SendUnshareProject { project_id: u64 },
    /// Tell the collaboration server that the local user leaves.
    SendLeaveProject { project_id: u64 },
    /// Tell the ssh server that a buffer is closed.
    SendCloseBuffer { project_id: u64, buffer_id: BufferId },
    /// Tell the ssh server that a worktree is gone.
    SendRemoveWorktree { worktree_id: WorktreeId },
    /// Pass an operation on a buffer to the ssh server.
    SendUpdateBuffer { project_id: u64, buffer_id: BufferId, operation: PayloadId },
    /// Shut down the processes of the ssh server.
    ShutdownSsh,
    /// Watch a buffer.
    SubscribeToBuffer(BufferId),
    /// Watch an image.
    SubscribeToImage(ImageId),
    /// Watch a worktree for changes.
    ObserveWorktree(WorktreeId),
    /// Watch what a worktree reports.
    SubscribeToWorktree(WorktreeId),
    /// Record what kinds of projects were found.
    ReportDiscoveredProjectEvents { worktree_id: WorktreeId, changes: PayloadId },
    /// Read a buffer from disk again.
    ReloadBuffer { buffer_id: BufferId, push_to_history: bool },
    /// Read an image from disk again.
    ReloadImage(ImageId),
    /// Recompute the diffs once the current work is done.
    DeferDiffRecalculation,
    /// Recompute the diffs when nothing asked for it during the delay.
    DebounceDiffRecalculation { delay_ms: u64 },
    /// Recompute the diffs of these buffers, and report back.
    RecalculateDiffs(Vec<BufferId>),
    /// Tell the observers of a buffer that it changed.
    NotifyBuffer(BufferId),
    /// Apply a message to a worktree of another machine.
    UpdateWorktreeFromRemote(WorktreeId),
    /// Pass a buffer update on under another project number.
    ForwardUpdateBuffer { server: Server, project_id: u64 },
    /// Let the buffer store answer a buffer update.
    HandleUpdateBuffer,
    /// Send a buffer to a participant.
    CreateBufferForPeer { buffer_id: BufferId, peer_id: PeerId },
    /// Toggle whether a debug adapter ignores the breakpoints.
    ToggleIgnoreBreakpoints(DebugAdapterClientId),
    /// Start a debug adapter.
    StartDebugClient(PayloadId),
    /// Make a buffer that belongs to no file.
    CreateLocalBuffer { text: String, language: Option<PayloadId> },
    /// Let the buffer store take over a buffer that the host sends.
    HandleCreateBufferForPeer { replica_id: ReplicaId, capability: Capability },
}

/// Why a request was refused.
#[derive(Debug, PartialEq)]
pub enum ProjectError {
    AlreadyShared,
    UnshareRemoteProject,
    UnshareUnsharedProject,
    /// A call on the surroundings failed.
    Surroundings(PayloadId),
    EmptyCollaborator,
    InvalidCollaborator,
    MissingOldPeerId,
    MissingNewPeerId,
    UpdateOfUnknownPeer,
    InvalidPeerId,
    UnknownPeer(PeerId),
    Disconnected,
    UnsharedItem,
    NoSuchPath,
    NoWorktreeForPath(ProjectPath),
    NoWorktreeForEntry(ProjectEntryId),
    BufferDoesNotExist(BufferId),
    CannotOpenWhileDisconnected,
    NotAnSshProject,
    CannotListDirectory,
    InvalidPromptLevel,
    MissingQuery,
    SynchronizeReadonlyProject,
    SynchronizeLocalProject,
    InvalidBufferId,
    MissingSender,
    WorktreeNotFound(WorktreeId),
}

/// What a step that hands something back did.
#[derive(Debug, PartialEq)]
pub struct Reply<T> {
    pub effects: Vec<Effect>,
    pub result: Result<T, ProjectError>,
}

/// What a step did: the effects, and whether the step went through.
#[derive(Debug, PartialEq)]
pub struct Outcome {
    pub effects: Vec<Effect>,
    pub result: Result<(), ProjectError>,
}

impl Outcome {
    /// What a step did, in full.
    pub open spec fn is(self, effects: Seq<Effect>, result: Result<(), ProjectError>) -> bool {
        self.effects@ == effects && self.result == result
    }

    /// A step that went through.
    pub fn done(effects: Vec<Effect>) -> (res: Outcome)
        ensures
            res.is(effects@, Ok(())),
    {
        Outcome { effects, result: Ok(()) }
    }

    /// A step that did nothing.
    pub fn refused(error: ProjectError) -> (res: Outcome)
        ensures
            res.is(Seq::empty(), Err(error)),
    {
        Outcome { effects: Vec::new(), result: Err(error) }
    }
}

impl ProjectError {
    /// The text of an error that has the same text every time.
    pub open spec fn fixed_text(self) -> Option<Seq<char>> {
        match self {
            ProjectError::AlreadyShared => Some("project was already shared"@),
            ProjectError::UnshareRemoteProject => Some("attempted to unshare a remote project"@),
            ProjectError::UnshareUnsharedProject => Some(
                "attempted to unshare an unshared project"@,
            ),
            ProjectError::EmptyCollaborator => Some("empty collaborator"@),
            ProjectError::MissingOldPeerId => Some("missing old peer id"@),
            ProjectError::MissingNewPeerId => Some("missing new peer id"@),
            ProjectError::UpdateOfUnknownPeer => Some(
                "received UpdateProjectCollaborator for unknown peer"@,
            ),
            ProjectError::InvalidPeerId => Some("invalid peer id"@),
            ProjectError::NoSuchPath => Some("no such path"@),
            ProjectError::CannotOpenWhileDisconnected => Some(
                "cannot open buffer while disconnected"@,
            ),
            ProjectError::NotAnSshProject => Some("not an ssh project"@),
            ProjectError::CannotListDirectory => Some("cannot list directory in remote project"@),
            ProjectError::InvalidPromptLevel => Some("Invalid prompt level"@),
            ProjectError::MissingQuery => Some("missing query field"@),
            ProjectError::SynchronizeReadonlyProject => Some(
                "can't synchronize remote buffers on a readonly project"@,
            ),
            ProjectError::SynchronizeLocalProject => Some(
                "can't synchronize remote buffers on a local project"@,
            ),
            _ => None,
        }
    }

    /// The text of the error, if it does not depend on more than the kind of error.
    pub fn text(&self) -> (text: Option<&'static str>)
        ensures
            match self.fixed_text() {
                Some(fixed) => text matches Some(text) && text@ == fixed,
                None => text is None,
            },
    {
        match self {
            ProjectError::AlreadyShared => Some("project was already shared"),
            ProjectError::UnshareRemoteProject => Some("attempted to unshare a remote project"),
            ProjectError::UnshareUnsharedProject => Some("attempted to unshare an unshared project"),
            ProjectError::EmptyCollaborator => Some("empty collaborator"),
            ProjectError::MissingOldPeerId => Some("missing old peer id"),
            ProjectError::MissingNewPeerId => Some("missing new peer id"),
            ProjectError::UpdateOfUnknownPeer => Some(
                "received UpdateProjectCollaborator for unknown peer",
            ),
            ProjectError::InvalidPeerId => Some("invalid peer id"),
            ProjectError::NoSuchPath => Some("no such path"),
            ProjectError::CannotOpenWhileDisconnected => Some(
                "cannot open buffer while disconnected",
            ),
            ProjectError::NotAnSshProject => Some("not an ssh project"),
            ProjectError::CannotListDirectory => Some("cannot list directory in remote project"),
            ProjectError::InvalidPromptLevel => Some("Invalid prompt level"),
            ProjectError::MissingQuery => Some("missing query field"),
            ProjectError::SynchronizeReadonlyProject => Some(
                "can't synchronize remote buffers on a readonly project",
            ),
            ProjectError::SynchronizeLocalProject => Some(
                "can't synchronize remote buffers on a local project",
            ),
            _ => None,
        }
    }
}

/// An outcome is what was done and what came of it.
pub proof fn law_outcome(outcome: Outcome, effects: Seq<Effect>, result: Result<(), ProjectError>)
    ensures
        outcome.is(effects, result) <==> outcome.result == result && outcome.effects@.len()
            == effects.len() && forall|i: int|
            0 <= i < effects.len() ==> #[trigger] outcome.effects@[i] == effects[i],
{
    if outcome.effects@.len() == effects.len() && forall|i: int|
        0 <= i < effects.len() ==> #[trigger] outcome.effects@[i] == effects[i] {
        assert(outcome.effects@ =~= effects);
    }
}

/// What a user is told when something fails: that a project is shared already or not at all, that a
/// participant, a path or a message is not what it should be, or that the project is of the wrong
/// sort.
pub proof fn law_error_texts(error: ProjectError)
    ensures
        error is AlreadyShared ==> error.fixed_text() == Some("project was already shared"@),
        error is UnshareRemoteProject ==> error.fixed_text() == Some(
            "attempted to unshare a remote project"@,
        ),
        error is UnshareUnsharedProject ==> error.fixed_text() == Some(
            "attempted to unshare an unshared project"@,
        ),
        error is EmptyCollaborator ==> error.fixed_text() == Some("empty collaborator"@),
        error is MissingOldPeerId ==> error.fixed_text() == Some("missing old peer id"@),
        error is MissingNewPeerId ==> error.fixed_text() == Some("missing new peer id"@),
        error is UpdateOfUnknownPeer ==> error.fixed_text() == Some(
            "received UpdateProjectCollaborator for unknown peer"@,
        ),
        error is InvalidPeerId ==> error.fixed_text() == Some("invalid peer id"@),
        error is NoSuchPath ==> error.fixed_text() == Some("no such path"@),
        error is CannotOpenWhileDisconnected ==> error.fixed_text() == Some(
            "cannot open buffer while disconnected"@,
        ),
        error is NotAnSshProject ==> error.fixed_text() == Some("not an ssh project"@),
        error is CannotListDirectory ==> error.fixed_text() == Some(
            "cannot list directory in remote project"@,
        ),
        error is InvalidPromptLevel ==> error.fixed_text() == Some("Invalid prompt level"@),
        error is MissingQuery ==> error.fixed_text() == Some("missing query field"@),
        error is SynchronizeReadonlyProject ==> error.fixed_text() == Some(
            "can't synchronize remote buffers on a readonly project"@,
        ),
        error is SynchronizeLocalProject ==> error.fixed_text() == Some(
            "can't synchronize remote buffers on a local project"@,
        ),
{
}

} // verus!
