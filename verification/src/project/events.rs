//! What a project makes of what its stores report.
use super::diffs;
use super::{Project, ProjectView};
use crate::event::{
    BufferOrderedMessage, Effect, Event, LanguageServerPromptRequest, Store, SSH_PROJECT_ID,
};
use crate::ids::{
    BufferId, DebugAdapterClientId, ImageId, LanguageServerId, PayloadId, ProjectEntryId, ReplicaId,
    WorktreeId,
};
use crate::project_path::ProjectPath;
use vstd::prelude::*;

verus! {

/// What the store of buffers reports.
#[derive(Debug)]
pub enum BufferStoreEvent {
    BufferAdded(BufferId),
    BufferChangedFilePath,
    BufferDropped(BufferId),
}

/// What the store of images reports.
#[derive(Debug)]
pub enum ImageStoreEvent {
    ImageAdded(ImageId),
}

/// What the store of debug adapters reports.
#[derive(Debug)]
pub enum DapStoreEvent {
    DebugClientStarted(DebugAdapterClientId),
    DebugClientStopped(DebugAdapterClientId),
    DebugClientEvent { client_id: DebugAdapterClientId, message: PayloadId },
    Notification(String),
    BreakpointsChanged,
    ActiveDebugLineChanged,
}

/// What the store of language servers reports.
#[allow(inconsistent_fields)]
#[derive(Debug)]
pub enum LspStoreEvent {
    DiagnosticsUpdated { language_server_id: LanguageServerId, path: ProjectPath },
    LanguageServerAdded(LanguageServerId, String, Option<WorktreeId>),
    LanguageServerRemoved(LanguageServerId),
    LanguageServerLog(LanguageServerId, PayloadId, String),
    LanguageDetected { buffer: BufferId, new_language: Option<PayloadId> },
    RefreshInlayHints,
    LanguageServerPrompt(LanguageServerPromptRequest),
    DiskBasedDiagnosticsStarted { language_server_id: LanguageServerId },
    DiskBasedDiagnosticsFinished { language_server_id: LanguageServerId },
    LanguageServerUpdate { language_server_id: LanguageServerId, message: PayloadId },
    Notification(String),
    /// `replica_id` is that of the user whose edit came last.
    SnippetEdit { buffer_id: BufferId, edits: PayloadId, replica_id: ReplicaId },
}

/// What the ssh connection reports.
#[derive(Clone, Copy, Debug, PartialEq, Eq, Structural)]
pub enum SshRemoteEvent {
    Disconnected,
}

/// Why settings could not be read.
#[derive(Debug)]
pub enum InvalidSettingsError {
    LocalSettings { message: String, path: String },
    /// Settings that are not those of a worktree.
    Other,
}

/// What the observer of settings reports.
#[derive(Debug)]
pub enum SettingsObserverEvent {
    LocalSettingsUpdated(Result<(), InvalidSettingsError>),
}

/// What the store of worktrees reports.
#[derive(Debug)]
pub enum WorktreeStoreEvent {
    WorktreeAdded(WorktreeId),
    WorktreeRemoved(WorktreeId),
    WorktreeReleased(WorktreeId),
    WorktreeOrderChanged,
    WorktreeUpdateSent,
}

/// What a worktree reports.
#[derive(Debug)]
pub enum WorktreeEvent {
    UpdatedEntries(PayloadId),
    UpdatedGitRepositories,
    DeletedEntry(ProjectEntryId),
}

/// What a buffer reports.
#[derive(Clone, Copy, Debug, PartialEq, Eq, Structural)]
pub enum BufferEvent {
    Edited,
    Reloaded,
    DiffBaseChanged,
    ReloadNeeded,
    Operation { operation: PayloadId, is_local: bool },
    /// Anything else.
    Other,
}

/// What an image reports.
#[derive(Clone, Copy, Debug, PartialEq, Eq, Structural)]
pub enum ImageItemEvent {
    ReloadNeeded,
    /// Anything else.
    Other,
}

/// Whether the only effect is a message to the user.
pub open spec fn is_toast(effects: Seq<Effect>, id: Seq<char>, text: Seq<char>) -> bool {
    effects.len() == 1 && (effects[0] matches Effect::Emit(
        Event::Toast { notification_id, message },
    ) && notification_id@ == id && message@ == text)
}

/// Whether the only effect is that a message to the user disappears.
pub open spec fn hides_toast(effects: Seq<Effect>, id: Seq<char>) -> bool {
    effects.len() == 1 && (effects[0] matches Effect::Emit(Event::HideToast { notification_id })
        && notification_id@ == id)
}

/// The message about settings that could not be read.
pub open spec fn settings_failure(quoted_path: Seq<char>, message: Seq<char>) -> Seq<char> {
    "Failed to set local settings in "@ + quoted_path + ":\n"@ + message
}

/// What `Path`'s `Debug` writes for a path: the path in quotes, with escapes.
pub uninterp spec fn quoted_path(path: Seq<char>) -> Seq<char>;

/// Writes a path with `std::path::Path`'s `Debug`, in quotes and with escapes. Only that the
/// result depends on nothing but the path is claimed.
#[verifier::external_body]
fn quote_path(path: &str) -> (quoted: String)
    ensures
        quoted@ == quoted_path(path@),
{
    format!("{:?}", std::path::Path::new(path))
}

/// The message about settings that could not be read, given the path in quotes.
pub fn settings_failure_text(quoted_path: &str, message: &str) -> (text: String)
    ensures
        text@ == settings_failure(quoted_path@, message@),
{
    let mut text = "Failed to set local settings in ".to_owned();
    text.append(quoted_path);
    text.append(":\n");
    text.append(message);
    text
}

impl ProjectView {
    /// The project once a buffer was added.
    pub open spec fn after_buffer_added(self, id: BufferId) -> ProjectView {
        ProjectView {
            remotely_created_models: self.remotely_created_models.with_buffer(id),
            ..self.after_diff_request(id)
        }
    }

    /// The project once a worktree was added.
    pub open spec fn after_worktree_added(self, id: WorktreeId) -> ProjectView {
        ProjectView {
            remotely_created_models: self.remotely_created_models.with_worktree(id),
            ..self
        }
    }
}

/// Whether an event of a buffer makes its diff out of date.
pub open spec fn changes_diff(event: BufferEvent) -> bool {
    event is Edited || event is Reloaded || event is DiffBaseChanged
}

/// What an event of a buffer leads to besides its diff.
pub open spec fn buffer_event_effects(view: ProjectView, id: BufferId, event: BufferEvent) -> Seq<
    Effect,
> {
    match event {
        BufferEvent::ReloadNeeded if !view.via_collab() => seq![
            Effect::ReloadBuffer { buffer_id: id, push_to_history: true },
        ],
        BufferEvent::Operation { operation, is_local: true } => (if view.ssh_client is Some {
            seq![
                Effect::SendUpdateBuffer { project_id: SSH_PROJECT_ID, buffer_id: id, operation },
            ]
        } else {
            Seq::empty()
        }).push(Effect::Enqueue(BufferOrderedMessage::Operation { buffer_id: id, operation })),
        _ => Seq::empty(),
    }
}

impl Project {
    fn register_buffer(&mut self, id: BufferId, debounce: Option<u64>) -> (effects: Vec<Effect>)
        requires
            old(self).wf(),
        ensures
            final(self).wf(),
            final(self)@ == old(self)@.after_buffer_added(id),
            effects@ == diffs::schedule(final(self)@.buffers_needing_diff.len(), debounce).push(
                Effect::SubscribeToBuffer(id),
            ),
    {
        self.remotely_created_models.buffer_created(id);
        let mut effects = self.request_buffer_diff_recalculation(id, debounce);
        effects.push(Effect::SubscribeToBuffer(id));
        effects
    }

    /// What the store of buffers reports; `debounce` is how long requests for diffs are
    /// collected, in milliseconds.
    pub fn on_buffer_store_event(&mut self, event: BufferStoreEvent, debounce: Option<u64>) -> (
    effects: Vec<Effect>)
        requires
            old(self).wf(),
        ensures
            final(self).wf(),
            match event {
                BufferStoreEvent::BufferAdded(id) => final(self)@ == old(self)@.after_buffer_added(
                    id,
                ) && effects@ == diffs::schedule(
                    final(self)@.buffers_needing_diff.len(),
                    debounce,
                ).push(Effect::SubscribeToBuffer(id)),
                BufferStoreEvent::BufferChangedFilePath => final(self)@ == old(self)@ && effects@
                    == Seq::<Effect>::empty(),
                BufferStoreEvent::BufferDropped(buffer_id) => final(self)@ == old(self)@ && effects@
                    == (if old(self)@.ssh_client is Some {
                    seq![Effect::SendCloseBuffer { project_id: SSH_PROJECT_ID, buffer_id }]
                } else {
                    Seq::empty()
                }),
            },
    {
        match event {
            BufferStoreEvent::BufferAdded(id) => self.register_buffer(id, debounce),
            BufferStoreEvent::BufferChangedFilePath => Vec::new(),
            BufferStoreEvent::BufferDropped(buffer_id) => {
                if self.ssh_client.is_some() {
                    vec![Effect::SendCloseBuffer { project_id: SSH_PROJECT_ID, buffer_id }]
                } else {
                    Vec::new()
                }
            },
        }
    }

    /// What the store of images reports.
    pub fn on_image_store_event(&self, event: ImageStoreEvent) -> (effects: Vec<Effect>)
        ensures
            match event {
                ImageStoreEvent::ImageAdded(id) => effects@ == seq![Effect::SubscribeToImage(id)],
            },
    {
        match event {
            ImageStoreEvent::ImageAdded(id) => vec![Effect::SubscribeToImage(id)],
        }
    }

    /// What the store of debug adapters reports.
    pub fn on_dap_store_event(&self, event: DapStoreEvent) -> (effects: Vec<Effect>)
        ensures
            match event {
                DapStoreEvent::DebugClientStarted(id) => effects@ == seq![
                    Effect::Emit(Event::DebugClientStarted(id)),
                ],
                DapStoreEvent::DebugClientStopped(id) => effects@ == seq![
                    Effect::Emit(Event::DebugClientStopped(id)),
                ],
                DapStoreEvent::DebugClientEvent { client_id, message } => effects@ == seq![
                    Effect::Emit(Event::DebugClientEvent { client_id, message }),
                ],
                DapStoreEvent::Notification(message) => is_toast(effects@, "dap"@, message@),
                DapStoreEvent::BreakpointsChanged => effects@ == seq![Effect::Notify],
                DapStoreEvent::ActiveDebugLineChanged => effects@ == seq![
                    Effect::Emit(Event::ActiveDebugLineChanged),
                ],
            },
    {
        let mut effects: Vec<Effect> = Vec::new();
        match event {
            DapStoreEvent::DebugClientStarted(id) => {
                effects.push(Effect::Emit(Event::DebugClientStarted(id)));
            },
            DapStoreEvent::DebugClientStopped(id) => {
                effects.push(Effect::Emit(Event::DebugClientStopped(id)));
            },
            DapStoreEvent::DebugClientEvent { client_id, message } => {
                effects.push(Effect::Emit(Event::DebugClientEvent { client_id, message }));
            },
            DapStoreEvent::Notification(message) => {
                effects.push(
                    Effect::Emit(Event::Toast { notification_id: "dap".to_owned(), message }),
                );
            },
            DapStoreEvent::BreakpointsChanged => {
                effects.push(Effect::Notify);
            },
            DapStoreEvent::ActiveDebugLineChanged => {
                effects.push(Effect::Emit(Event::ActiveDebugLineChanged));
            },
        }
        effects
    }

    /// What the store of language servers reports.
    pub fn on_lsp_store_event(&self, event: LspStoreEvent) -> (effects: Vec<Effect>)
        ensures
            match event {
                LspStoreEvent::DiagnosticsUpdated { language_server_id, path } => effects@ == seq![
                    Effect::Emit(Event::DiagnosticsUpdated { path, language_server_id }),
                ],
                LspStoreEvent::LanguageServerAdded(id, name, worktree_id) => effects@ == seq![
                    Effect::Emit(Event::LanguageServerAdded(id, name, worktree_id)),
                ],
                LspStoreEvent::LanguageServerRemoved(id) => effects@ == seq![
                    Effect::Emit(Event::LanguageServerRemoved(id)),
                ],
                LspStoreEvent::LanguageServerLog(id, log_type, text) => effects@ == seq![
                    Effect::Emit(Event::LanguageServerLog(id, log_type, text)),
                ],
                LspStoreEvent::LanguageDetected { buffer, new_language } => effects@ == (
                if new_language is None {
                    seq![Effect::Emit(Event::LanguageNotFound(buffer))]
                } else {
                    Seq::empty()
                }),
                LspStoreEvent::RefreshInlayHints => effects@ == seq![
                    Effect::Emit(Event::RefreshInlayHints),
                ],
                LspStoreEvent::LanguageServerPrompt(prompt) => effects@ == seq![
                    Effect::Emit(Event::LanguageServerPrompt(prompt)),
                ],
                LspStoreEvent::DiskBasedDiagnosticsStarted { language_server_id } => effects@
                    == seq![
                    Effect::Emit(Event::DiskBasedDiagnosticsStarted { language_server_id }),
                ],
                LspStoreEvent::DiskBasedDiagnosticsFinished { language_server_id } => effects@
                    == seq![
                    Effect::Emit(Event::DiskBasedDiagnosticsFinished { language_server_id }),
                ],
                LspStoreEvent::LanguageServerUpdate { language_server_id, message } => effects@ == (
                if self@.local() {
                    seq![
                        Effect::Enqueue(
                            BufferOrderedMessage::LanguageServerUpdate {
                                language_server_id,
                                message,
                            },
                        ),
                    ]
                } else {
                    Seq::empty()
                }),
                LspStoreEvent::Notification(message) => is_toast(effects@, "lsp"@, message@),
                LspStoreEvent::SnippetEdit { buffer_id, edits, replica_id } => effects@ == (
                if replica_id == self@.own_replica_id() {
                    seq![Effect::Emit(Event::SnippetEdit(buffer_id, edits))]
                } else {
                    Seq::empty()
                }),
            },
    {
        let mut effects: Vec<Effect> = Vec::new();
        match event {
            LspStoreEvent::DiagnosticsUpdated { language_server_id, path } => {
                effects.push(Effect::Emit(Event::DiagnosticsUpdated { path, language_server_id }));
            },
            LspStoreEvent::LanguageServerAdded(id, name, worktree_id) => {
                effects.push(Effect::Emit(Event::LanguageServerAdded(id, name, worktree_id)));
            },
            LspStoreEvent::LanguageServerRemoved(id) => {
                effects.push(Effect::Emit(Event::LanguageServerRemoved(id)));
            },
            LspStoreEvent::LanguageServerLog(id, log_type, text) => {
                effects.push(Effect::Emit(Event::LanguageServerLog(id, log_type, text)));
            },
            LspStoreEvent::LanguageDetected { buffer, new_language } => {
                if new_language.is_none() {
                    effects.push(Effect::Emit(Event::LanguageNotFound(buffer)));
                }
            },
            LspStoreEvent::RefreshInlayHints => {
                effects.push(Effect::Emit(Event::RefreshInlayHints));
            },
            LspStoreEvent::LanguageServerPrompt(prompt) => {
                effects.push(Effect::Emit(Event::LanguageServerPrompt(prompt)));
            },
            LspStoreEvent::DiskBasedDiagnosticsStarted { language_server_id } => {
                effects.push(
                    Effect::Emit(Event::DiskBasedDiagnosticsStarted { language_server_id }),
                );
            },
            LspStoreEvent::DiskBasedDiagnosticsFinished { language_server_id } => {
                effects.push(
                    Effect::Emit(Event::DiskBasedDiagnosticsFinished { language_server_id }),
                );
            },
            LspStoreEvent::LanguageServerUpdate { language_server_id, message } => {
                if self.is_local() {
                    effects.push(
                        Effect::Enqueue(
                            BufferOrderedMessage::LanguageServerUpdate {
                                language_server_id,
                                message,
                            },
                        ),
                    );
                }
            },
            LspStoreEvent::Notification(message) => {
                effects.push(
                    Effect::Emit(Event::Toast { notification_id: "lsp".to_owned(), message }),
                );
            },
            LspStoreEvent::SnippetEdit { buffer_id, edits, replica_id } => {
                if replica_id == self.replica_id() {
                    effects.push(Effect::Emit(Event::SnippetEdit(buffer_id, edits)));
                }
            },
        }
        effects
    }

    /// What the ssh connection reports.
    pub fn on_ssh_event(&self, event: SshRemoteEvent) -> (effects: Vec<Effect>)
        ensures
            effects@ == seq![
                Effect::StoreDisconnectedFromHost { store: Store::Worktree },
                Effect::StoreDisconnectedFromHost { store: Store::Buffer },
                Effect::LspDisconnectedFromSshRemote,
                Effect::Emit(Event::DisconnectedFromSshRemote),
            ],
    {
        match event {
            SshRemoteEvent::Disconnected => vec![
                Effect::StoreDisconnectedFromHost { store: Store::Worktree },
                Effect::StoreDisconnectedFromHost { store: Store::Buffer },
                Effect::LspDisconnectedFromSshRemote,
                Effect::Emit(Event::DisconnectedFromSshRemote),
            ],
        }
    }

    /// What the observer of settings reports.
    pub fn on_settings_observer_event(&self, event: SettingsObserverEvent) -> (effects: Vec<Effect>)
        ensures
            match event {
                SettingsObserverEvent::LocalSettingsUpdated(
                    Err(InvalidSettingsError::LocalSettings { message, path }),
                ) => is_toast(
                    effects@,
                    "local-settings"@,
                    settings_failure(quoted_path(path@), message@),
                ),
                SettingsObserverEvent::LocalSettingsUpdated(Ok(())) => hides_toast(
                    effects@,
                    "local-settings"@,
                ),
                SettingsObserverEvent::LocalSettingsUpdated(Err(InvalidSettingsError::Other)) =>
                    effects@ == Seq::<Effect>::empty(),
            },
    {
        let mut effects: Vec<Effect> = Vec::new();
        match event {
            SettingsObserverEvent::LocalSettingsUpdated(result) => match result {
                Err(InvalidSettingsError::LocalSettings { message, path }) => {
                    let quoted = quote_path(path.as_str());
                    let message = settings_failure_text(quoted.as_str(), message.as_str());
                    effects.push(
                        Effect::Emit(
                            Event::Toast { notification_id: "local-settings".to_owned(), message },
                        ),
                    );
                },
                Ok(()) => {
                    effects.push(
                        Effect::Emit(
                            Event::HideToast { notification_id: "local-settings".to_owned() },
                        ),
                    );
                },
                Err(InvalidSettingsError::Other) => {},
            },
        }
        effects
    }

    /// What the store of worktrees reports.
    pub fn on_worktree_store_event(&mut self, event: WorktreeStoreEvent) -> (effects: Vec<Effect>)
        requires
            old(self).wf(),
        ensures
            final(self).wf(),
            match event {
                WorktreeStoreEvent::WorktreeAdded(id) => final(self)@
                    == old(self)@.after_worktree_added(id) && effects@ == seq![
                    Effect::ObserveWorktree(id),
                    Effect::SubscribeToWorktree(id),
                    Effect::Notify,
                    Effect::Emit(Event::WorktreeAdded),
                ],
                WorktreeStoreEvent::WorktreeRemoved(id) => final(self)@ == old(self)@ && effects@
                    == seq![Effect::Emit(Event::WorktreeRemoved(id))],
                WorktreeStoreEvent::WorktreeReleased(id) => final(self)@ == old(self)@ && effects@
                    == (if old(self)@.ssh_client is Some {
                    seq![Effect::SendRemoveWorktree { worktree_id: id }]
                } else {
                    Seq::empty()
                }).push(Effect::Notify),
                WorktreeStoreEvent::WorktreeOrderChanged => final(self)@ == old(self)@ && effects@
                    == seq![Effect::Emit(Event::WorktreeOrderChanged)],
                WorktreeStoreEvent::WorktreeUpdateSent => final(self)@ == old(self)@ && effects@
                    == Seq::<Effect>::empty(),
            },
    {
        match event {
            WorktreeStoreEvent::WorktreeAdded(id) => {
                let mut effects = self.on_worktree_added(id);
                effects.push(Effect::Emit(Event::WorktreeAdded));
                assert(effects@ =~= seq![
                    Effect::ObserveWorktree(id),
                    Effect::SubscribeToWorktree(id),
                    Effect::Notify,
                    Effect::Emit(Event::WorktreeAdded),
                ]);
                effects
            },
            WorktreeStoreEvent::WorktreeRemoved(id) => vec![
                Effect::Emit(Event::WorktreeRemoved(id)),
            ],
            WorktreeStoreEvent::WorktreeReleased(id) => self.on_worktree_released(id),
            WorktreeStoreEvent::WorktreeOrderChanged => vec![
                Effect::Emit(Event::WorktreeOrderChanged),
            ],
            WorktreeStoreEvent::WorktreeUpdateSent => Vec::new(),
        }
    }

    fn on_worktree_added(&mut self, id: WorktreeId) -> (effects: Vec<Effect>)
        requires
            old(self).wf(),
        ensures
            final(self).wf(),
            final(self)@ == old(self)@.after_worktree_added(id),
            effects@ == seq![
                Effect::ObserveWorktree(id),
                Effect::SubscribeToWorktree(id),
                Effect::Notify,
            ],
    {
        self.remotely_created_models.worktree_created(id);
        vec![Effect::ObserveWorktree(id), Effect::SubscribeToWorktree(id), Effect::Notify]
    }

    fn on_worktree_released(&self, id: WorktreeId) -> (effects: Vec<Effect>)
        ensures
            effects@ == (if self@.ssh_client is Some {
                seq![Effect::SendRemoveWorktree { worktree_id: id }]
            } else {
                Seq::empty()
            }).push(Effect::Notify),
    {
        let mut effects: Vec<Effect> = Vec::new();
        if self.ssh_client.is_some() {
            effects.push(Effect::SendRemoveWorktree { worktree_id: id });
        }
        effects.push(Effect::Notify);
        effects
    }

    /// What a worktree reports.
    pub fn on_worktree_event(&self, id: WorktreeId, event: WorktreeEvent) -> (effects: Vec<Effect>)
        ensures
            match event {
                WorktreeEvent::UpdatedEntries(changes) => effects@ == seq![
                    Effect::Emit(Event::WorktreeUpdatedEntries(id, changes)),
                    Effect::ReportDiscoveredProjectEvents { worktree_id: id, changes },
                ],
                WorktreeEvent::UpdatedGitRepositories => effects@ == seq![
                    Effect::Emit(Event::WorktreeUpdatedGitRepositories),
                ],
                WorktreeEvent::DeletedEntry(entry_id) => effects@ == seq![
                    Effect::Emit(Event::DeletedEntry(entry_id)),
                ],
            },
    {
        match event {
            WorktreeEvent::UpdatedEntries(changes) => vec![
                Effect::Emit(Event::WorktreeUpdatedEntries(id, changes)),
                Effect::ReportDiscoveredProjectEvents { worktree_id: id, changes },
            ],
            WorktreeEvent::UpdatedGitRepositories => vec![
                Effect::Emit(Event::WorktreeUpdatedGitRepositories),
            ],
            WorktreeEvent::DeletedEntry(entry_id) => vec![
                Effect::Emit(Event::DeletedEntry(entry_id)),
            ],
        }
    }

    /// What a buffer reports.
    pub fn on_buffer_event(&mut self, id: BufferId, event: BufferEvent, debounce: Option<u64>) -> (
    effects: Vec<Effect>)
        requires
            old(self).wf(),
        ensures
            final(self).wf(),
            changes_diff(event) ==> final(self)@ == old(self)@.after_diff_request(id) && effects@
                == diffs::schedule(final(self)@.buffers_needing_diff.len(), debounce),
            !changes_diff(event) ==> final(self)@ == old(self)@ && effects@ == buffer_event_effects(
                old(self)@,
                id,
                event,
            ),
    {
        match event {
            BufferEvent::Edited | BufferEvent::Reloaded | BufferEvent::DiffBaseChanged => {
                self.request_buffer_diff_recalculation(id, debounce)
            },
            BufferEvent::ReloadNeeded => {
                let mut effects: Vec<Effect> = Vec::new();
                if !self.is_via_collab() {
                    effects.push(Effect::ReloadBuffer { buffer_id: id, push_to_history: true });
                }
                effects
            },
            BufferEvent::Operation { operation, is_local } => {
                let mut effects: Vec<Effect> = Vec::new();
                if is_local {
                    if self.ssh_client.is_some() {
                        effects.push(
                            Effect::SendUpdateBuffer {
                                project_id: SSH_PROJECT_ID,
                                buffer_id: id,
                                operation,
                            },
                        );
                    }
                    effects.push(
                        Effect::Enqueue(
                            BufferOrderedMessage::Operation { buffer_id: id, operation },
                        ),
                    );
                }
                effects
            },
            BufferEvent::Other => Vec::new(),
        }
    }

    /// What an image reports.
    pub fn on_image_event(&self, id: ImageId, event: ImageItemEvent) -> (effects: Vec<Effect>)
        ensures
            effects@ == (if event is ReloadNeeded && !self@.via_collab() {
                seq![Effect::ReloadImage(id)]
            } else {
                Seq::empty()
            }),
    {
        let mut effects: Vec<Effect> = Vec::new();
        match event {
            ImageItemEvent::ReloadNeeded => {
                if !self.is_via_collab() {
                    effects.push(Effect::ReloadImage(id));
                }
            },
            ImageItemEvent::Other => {},
        }
        effects
    }
}

/// An edit, a reload and a new base make the diff of a buffer out of date, and nothing else does.
pub proof fn law_changes_diff(event: BufferEvent)
    ensures
        match event {
            BufferEvent::Edited => changes_diff(event),
            BufferEvent::Reloaded => changes_diff(event),
            BufferEvent::DiffBaseChanged => changes_diff(event),
            BufferEvent::ReloadNeeded => !changes_diff(event),
            BufferEvent::Operation { .. } => !changes_diff(event),
            BufferEvent::Other => !changes_diff(event),
        },
{
}

/// What an event of a buffer brings about: a local operation is put among the messages to the
/// participants, after it was passed on to the ssh server if there is one; a buffer that must be
/// read again is, unless the project is another user's; nothing else brings anything about.
pub proof fn law_buffer_event(view: ProjectView, id: BufferId, event: BufferEvent, effect: Effect)
    ensures
        buffer_event_effects(view, id, event).contains(effect) <==> match effect {
            Effect::Enqueue(message) => event matches BufferEvent::Operation {
                operation,
                is_local,
            } && is_local && message == (BufferOrderedMessage::Operation {
                buffer_id: id,
                operation,
            }),
            Effect::SendUpdateBuffer { project_id, buffer_id, operation: sent } => event
                matches BufferEvent::Operation { operation, is_local } && is_local
                && view.ssh_client is Some && project_id == 0 && buffer_id == id && sent
                == operation,
            Effect::ReloadBuffer { buffer_id, push_to_history } => event is ReloadNeeded
                && !(view.client_state is Remote) && buffer_id == id && push_to_history,
            _ => false,
        },
        buffer_event_effects(view, id, event).len() <= 2,
        buffer_event_effects(view, id, event).len() == 2 ==> buffer_event_effects(
            view,
            id,
            event,
        )[0] is SendUpdateBuffer,
        buffer_event_effects(view, id, event).len() == 2 ==> view.ssh_client is Some && event
            is Operation,
{
    let list = buffer_event_effects(view, id, event);
    if list.len() > 0 {
        assert(list.contains(list[0]));
    }
    if list.len() > 1 {
        assert(list.contains(list[1]));
    }
}

/// A toast that is shown has the identifier and the text that it is asked to have, and one that is
/// hidden the identifier.
pub proof fn law_toasts(
    effects: Seq<Effect>,
    notification_id: String,
    message: String,
    id: Seq<char>,
    text: Seq<char>,
)
    ensures
        is_toast(seq![Effect::Emit(Event::Toast { notification_id, message })], id, text)
            <==> notification_id@ == id && message@ == text,
        is_toast(effects, id, text) ==> effects.len() == 1 && (effects[0] matches Effect::Emit(event)
            && event is Toast),
        hides_toast(seq![Effect::Emit(Event::HideToast { notification_id })], id)
            <==> notification_id@ == id,
        hides_toast(effects, id) ==> effects.len() == 1 && (effects[0] matches Effect::Emit(event)
            && event is HideToast),
{
}

/// The text of a failure to read settings ends with what went wrong, after a colon and a new line,
/// and names the path before that.
pub proof fn law_settings_failure(quoted_path: Seq<char>, message: Seq<char>)
    ensures
        message.is_suffix_of(settings_failure(quoted_path, message)),
        ({
            let text = settings_failure(quoted_path, message);
            let end = text.len() - message.len();
            &&& end >= quoted_path.len() + 2
            &&& text[end - 1] == '\n' && text[end - 2] == ':'
            &&& text.subrange(end - 2 - quoted_path.len(), end - 2) == quoted_path
        }),
        forall|other: Seq<char>, reason: Seq<char>|
            #![trigger settings_failure(other, reason)]
            settings_failure(other, reason).len() - other.len() - reason.len() == settings_failure(
                quoted_path,
                message,
            ).len() - quoted_path.len() - message.len(),
{
    reveal_strlit("Failed to set local settings in ");
    reveal_strlit(":\n");
    let text = settings_failure(quoted_path, message);
    let end = text.len() - message.len();
    assert(text.subrange(end, text.len() as int) =~= message);
    assert(text.subrange(end - 2 - quoted_path.len(), end - 2) =~= quoted_path);
}

/// A buffer that is added waits for its diff and is kept alive while a request runs, and so is a
/// worktree that is added; nothing else of the project changes.
pub proof fn law_added(view: ProjectView, id: BufferId, worktree_id: WorktreeId)
    ensures
        view.after_buffer_added(id).buffers_needing_diff == view.after_diff_request(
            id,
        ).buffers_needing_diff,
        view.remotely_created_models.retain_count > 0 ==> view.after_buffer_added(
            id,
        ).remotely_created_models.buffers.contains(id),
        view.remotely_created_models.retain_count == 0 ==> view.after_buffer_added(
            id,
        ).remotely_created_models == view.remotely_created_models,
        (ProjectView {
            buffers_needing_diff: view.buffers_needing_diff,
            remotely_created_models: view.remotely_created_models,
            ..view.after_buffer_added(id)
        }) == view,
        view.remotely_created_models.retain_count > 0 ==> view.after_worktree_added(
            worktree_id,
        ).remotely_created_models.worktrees.contains(worktree_id),
        view.remotely_created_models.retain_count == 0 ==> view.after_worktree_added(worktree_id)
            == view,
        (ProjectView {
            remotely_created_models: view.remotely_created_models,
            ..view.after_worktree_added(worktree_id)
        }) == view,
{
    let models = view.remotely_created_models;
    assert(models.buffers.push(id)[models.buffers.len() as int] == id);
    assert(models.worktrees.push(worktree_id)[models.worktrees.len() as int] == worktree_id);
}

} // verus!
