use project::event::{
    BufferOrderedMessage, ChannelRole, Effect, Event, LanguageServerPromptRequest, PromptLevel,
    Store,
};
use project::ids::{
    BufferId, DebugAdapterClientId, ImageId, LanguageServerId, PayloadId, ProjectEntryId,
    WorktreeId,
};
use project::project::create::JoinProjectResponse;
use project::project::events::{
    settings_failure_text, BufferEvent, BufferStoreEvent, DapStoreEvent, ImageItemEvent,
    ImageStoreEvent, InvalidSettingsError, LspStoreEvent, SettingsObserverEvent, SshRemoteEvent,
    WorktreeEvent, WorktreeStoreEvent,
};
use project::project::{Project, SshClient};
use project::project_path::ProjectPath;

fn local() -> Project {
    Project::local(PayloadId(1), None).0
}

fn ssh() -> Project {
    let client = SshClient {
        connection_string: "host".to_string(),
        connection_state: PayloadId(1),
        connection_options: PayloadId(2),
        is_disconnected: false,
    };
    Project::ssh(client, PayloadId(1)).0
}

fn guest() -> Project {
    let response = JoinProjectResponse {
        message_id: 1,
        project_id: 42,
        replica_id: 3,
        role: ChannelRole::Member,
        worktree_ids: vec![],
        collaborator_user_ids: vec![],
    };
    Project::from_join_project_response(response, false, &vec![]).0
}

fn toast(id: &str, message: &str) -> Vec<Effect> {
    vec![Effect::Emit(Event::Toast {
        notification_id: id.to_string(),
        message: message.to_string(),
    })]
}

#[test]
fn added_and_dropped_buffers() {
    let mut project = local();
    assert_eq!(
        project.on_buffer_store_event(BufferStoreEvent::BufferAdded(BufferId(1)), None),
        vec![Effect::DeferDiffRecalculation, Effect::SubscribeToBuffer(BufferId(1))]
    );
    assert_eq!(
        project.on_buffer_store_event(BufferStoreEvent::BufferAdded(BufferId(2)), None),
        vec![Effect::SubscribeToBuffer(BufferId(2))]
    );
    assert!(project
        .on_buffer_store_event(BufferStoreEvent::BufferChangedFilePath, None)
        .is_empty());
    assert!(project
        .on_buffer_store_event(BufferStoreEvent::BufferDropped(BufferId(1)), None)
        .is_empty());
    assert_eq!(
        ssh().on_buffer_store_event(BufferStoreEvent::BufferDropped(BufferId(1)), None),
        vec![Effect::SendCloseBuffer { project_id: 0, buffer_id: BufferId(1) }]
    );
}

#[test]
fn diffs_are_collected() {
    let mut project = local();
    let first = project.request_buffer_diff_recalculation(BufferId(1), Some(10));
    assert_eq!(first, vec![Effect::DebounceDiffRecalculation { delay_ms: 50 }]);
    let second = project.request_buffer_diff_recalculation(BufferId(2), Some(120));
    assert_eq!(second, vec![Effect::DebounceDiffRecalculation { delay_ms: 120 }]);
    project.request_buffer_diff_recalculation(BufferId(1), Some(120));
    assert_eq!(
        project.recalculate_buffer_diffs(),
        vec![Effect::RecalculateDiffs(vec![BufferId(1), BufferId(2)])]
    );
    project.request_buffer_diff_recalculation(BufferId(3), Some(120));
    assert_eq!(
        project.finish_buffer_diffs(&vec![BufferId(1), BufferId(2)]),
        vec![Effect::RecalculateDiffs(vec![BufferId(3)])]
    );
    assert_eq!(
        project.finish_buffer_diffs(&vec![BufferId(3)]),
        vec![Effect::NotifyBuffer(BufferId(3))]
    );
}

#[test]
fn the_only_waiting_buffer_schedules_again() {
    let mut project = local();
    assert_eq!(
        project.request_buffer_diff_recalculation(BufferId(1), None),
        vec![Effect::DeferDiffRecalculation]
    );
    assert_eq!(
        project.request_buffer_diff_recalculation(BufferId(1), None),
        vec![Effect::DeferDiffRecalculation]
    );
    assert!(project.request_buffer_diff_recalculation(BufferId(2), None).is_empty());
}

#[test]
fn buffers_report() {
    let mut project = local();
    for event in [BufferEvent::Edited, BufferEvent::Reloaded, BufferEvent::DiffBaseChanged] {
        assert_eq!(
            project.on_buffer_event(BufferId(1), event, Some(60)),
            vec![Effect::DebounceDiffRecalculation { delay_ms: 60 }]
        );
    }
    assert_eq!(
        project.on_buffer_event(BufferId(1), BufferEvent::ReloadNeeded, None),
        vec![Effect::ReloadBuffer { buffer_id: BufferId(1), push_to_history: true }]
    );
    assert!(guest().on_buffer_event(BufferId(1), BufferEvent::ReloadNeeded, None).is_empty());
    let operation = BufferEvent::Operation { operation: PayloadId(9), is_local: true };
    let enqueue = Effect::Enqueue(BufferOrderedMessage::Operation {
        buffer_id: BufferId(1),
        operation: PayloadId(9),
    });
    assert_eq!(
        project.on_buffer_event(BufferId(1), operation, None),
        vec![Effect::Enqueue(BufferOrderedMessage::Operation {
            buffer_id: BufferId(1),
            operation: PayloadId(9),
        })]
    );
    assert_eq!(
        ssh().on_buffer_event(BufferId(1), operation, None),
        vec![
            Effect::SendUpdateBuffer {
                project_id: 0,
                buffer_id: BufferId(1),
                operation: PayloadId(9)
            },
            enqueue,
        ]
    );
    let remote = BufferEvent::Operation { operation: PayloadId(9), is_local: false };
    assert!(project.on_buffer_event(BufferId(1), remote, None).is_empty());
    assert!(project.on_buffer_event(BufferId(1), BufferEvent::Other, None).is_empty());
}

#[test]
fn images_report() {
    let project = local();
    assert_eq!(
        project.on_image_store_event(ImageStoreEvent::ImageAdded(ImageId(2))),
        vec![Effect::SubscribeToImage(ImageId(2))]
    );
    assert_eq!(
        project.on_image_event(ImageId(2), ImageItemEvent::ReloadNeeded),
        vec![Effect::ReloadImage(ImageId(2))]
    );
    assert!(project.on_image_event(ImageId(2), ImageItemEvent::Other).is_empty());
    assert!(guest().on_image_event(ImageId(2), ImageItemEvent::ReloadNeeded).is_empty());
}

#[test]
fn debug_adapters_report() {
    let project = local();
    let id = DebugAdapterClientId(4);
    assert_eq!(
        project.on_dap_store_event(DapStoreEvent::DebugClientStarted(id)),
        vec![Effect::Emit(Event::DebugClientStarted(id))]
    );
    assert_eq!(
        project.on_dap_store_event(DapStoreEvent::DebugClientStopped(id)),
        vec![Effect::Emit(Event::DebugClientStopped(id))]
    );
    assert_eq!(
        project.on_dap_store_event(DapStoreEvent::DebugClientEvent {
            client_id: id,
            message: PayloadId(1)
        }),
        vec![Effect::Emit(Event::DebugClientEvent { client_id: id, message: PayloadId(1) })]
    );
    assert_eq!(
        project.on_dap_store_event(DapStoreEvent::Notification("stopped".to_string())),
        toast("dap", "stopped")
    );
    assert_eq!(
        project.on_dap_store_event(DapStoreEvent::BreakpointsChanged),
        vec![Effect::Notify]
    );
    assert_eq!(
        project.on_dap_store_event(DapStoreEvent::ActiveDebugLineChanged),
        vec![Effect::Emit(Event::ActiveDebugLineChanged)]
    );
}

#[test]
fn language_servers_report() {
    let project = local();
    let id = LanguageServerId(4);
    let path = ProjectPath { worktree_id: WorktreeId(1), path: "a".to_string() };
    assert_eq!(
        project.on_lsp_store_event(LspStoreEvent::DiagnosticsUpdated {
            language_server_id: id,
            path: path.clone()
        }),
        vec![Effect::Emit(Event::DiagnosticsUpdated { path, language_server_id: id })]
    );
    assert_eq!(
        project.on_lsp_store_event(LspStoreEvent::LanguageServerAdded(
            id,
            "ra".to_string(),
            Some(WorktreeId(1))
        )),
        vec![Effect::Emit(Event::LanguageServerAdded(
            id,
            "ra".to_string(),
            Some(WorktreeId(1))
        ))]
    );
    assert_eq!(
        project.on_lsp_store_event(LspStoreEvent::LanguageServerRemoved(id)),
        vec![Effect::Emit(Event::LanguageServerRemoved(id))]
    );
    assert_eq!(
        project.on_lsp_store_event(LspStoreEvent::LanguageServerLog(
            id,
            PayloadId(2),
            "line".to_string()
        )),
        vec![Effect::Emit(Event::LanguageServerLog(id, PayloadId(2), "line".to_string()))]
    );
    assert_eq!(
        project.on_lsp_store_event(LspStoreEvent::LanguageDetected {
            buffer: BufferId(1),
            new_language: None
        }),
        vec![Effect::Emit(Event::LanguageNotFound(BufferId(1)))]
    );
    assert!(project
        .on_lsp_store_event(LspStoreEvent::LanguageDetected {
            buffer: BufferId(1),
            new_language: Some(PayloadId(1))
        })
        .is_empty());
    assert_eq!(
        project.on_lsp_store_event(LspStoreEvent::RefreshInlayHints),
        vec![Effect::Emit(Event::RefreshInlayHints)]
    );
    assert_eq!(
        project
            .on_lsp_store_event(LspStoreEvent::DiskBasedDiagnosticsStarted { language_server_id: id }),
        vec![Effect::Emit(Event::DiskBasedDiagnosticsStarted { language_server_id: id })]
    );
    assert_eq!(
        project.on_lsp_store_event(LspStoreEvent::DiskBasedDiagnosticsFinished {
            language_server_id: id
        }),
        vec![Effect::Emit(Event::DiskBasedDiagnosticsFinished { language_server_id: id })]
    );
    assert_eq!(
        project.on_lsp_store_event(LspStoreEvent::Notification("hello".to_string())),
        toast("lsp", "hello")
    );
    let prompt = LanguageServerPromptRequest {
        level: PromptLevel::Warning,
        message: "sure?".to_string(),
        actions: vec![],
        lsp_name: "ra".to_string(),
    };
    assert_eq!(
        project.on_lsp_store_event(LspStoreEvent::LanguageServerPrompt(prompt.clone())),
        vec![Effect::Emit(Event::LanguageServerPrompt(prompt))]
    );
}

#[test]
fn only_local_projects_pass_on_language_server_updates() {
    let id = LanguageServerId(4);
    let update = || LspStoreEvent::LanguageServerUpdate {
        language_server_id: id,
        message: PayloadId(5),
    };
    assert_eq!(
        local().on_lsp_store_event(update()),
        vec![Effect::Enqueue(BufferOrderedMessage::LanguageServerUpdate {
            language_server_id: id,
            message: PayloadId(5),
        })]
    );
    assert!(ssh().on_lsp_store_event(update()).is_empty());
    assert!(guest().on_lsp_store_event(update()).is_empty());
}

#[test]
fn only_own_snippet_edits_are_announced() {
    let edit = |replica_id| LspStoreEvent::SnippetEdit {
        buffer_id: BufferId(1),
        edits: PayloadId(6),
        replica_id,
    };
    let announced = vec![Effect::Emit(Event::SnippetEdit(BufferId(1), PayloadId(6)))];
    assert_eq!(local().on_lsp_store_event(edit(0)), announced);
    assert!(local().on_lsp_store_event(edit(1)).is_empty());
    assert!(!ssh().on_lsp_store_event(edit(1)).is_empty());
    assert!(!guest().on_lsp_store_event(edit(3)).is_empty());
}

#[test]
fn the_ssh_connection_reports() {
    assert_eq!(
        ssh().on_ssh_event(SshRemoteEvent::Disconnected),
        vec![
            Effect::StoreDisconnectedFromHost { store: Store::Worktree },
            Effect::StoreDisconnectedFromHost { store: Store::Buffer },
            Effect::LspDisconnectedFromSshRemote,
            Effect::Emit(Event::DisconnectedFromSshRemote),
        ]
    );
}

#[test]
fn settings_report() {
    let project = local();
    let failed = SettingsObserverEvent::LocalSettingsUpdated(Err(
        InvalidSettingsError::LocalSettings {
            message: "expected value".to_string(),
            path: "a \"b\"/.zed".to_string(),
        },
    ));
    assert_eq!(
        project.on_settings_observer_event(failed),
        toast(
            "local-settings",
            "Failed to set local settings in \"a \\\"b\\\"/.zed\":\nexpected value"
        )
    );
    assert_eq!(
        settings_failure_text("\"x\"", "m"),
        "Failed to set local settings in \"x\":\nm"
    );
    assert_eq!(
        project.on_settings_observer_event(SettingsObserverEvent::LocalSettingsUpdated(Ok(()))),
        vec![Effect::Emit(Event::HideToast { notification_id: "local-settings".to_string() })]
    );
    assert!(project
        .on_settings_observer_event(SettingsObserverEvent::LocalSettingsUpdated(Err(
            InvalidSettingsError::Other
        )))
        .is_empty());
}

#[test]
fn worktrees_report() {
    let mut project = local();
    let id = WorktreeId(6);
    assert_eq!(
        project.on_worktree_store_event(WorktreeStoreEvent::WorktreeAdded(id)),
        vec![
            Effect::ObserveWorktree(id),
            Effect::SubscribeToWorktree(id),
            Effect::Notify,
            Effect::Emit(Event::WorktreeAdded),
        ]
    );
    assert_eq!(
        project.on_worktree_store_event(WorktreeStoreEvent::WorktreeRemoved(id)),
        vec![Effect::Emit(Event::WorktreeRemoved(id))]
    );
    assert_eq!(
        project.on_worktree_store_event(WorktreeStoreEvent::WorktreeReleased(id)),
        vec![Effect::Notify]
    );
    assert_eq!(
        ssh().on_worktree_store_event(WorktreeStoreEvent::WorktreeReleased(id)),
        vec![Effect::SendRemoveWorktree { worktree_id: id }, Effect::Notify]
    );
    assert_eq!(
        project.on_worktree_store_event(WorktreeStoreEvent::WorktreeOrderChanged),
        vec![Effect::Emit(Event::WorktreeOrderChanged)]
    );
    assert!(project
        .on_worktree_store_event(WorktreeStoreEvent::WorktreeUpdateSent)
        .is_empty());
    assert_eq!(
        project.on_worktree_event(id, WorktreeEvent::UpdatedEntries(PayloadId(3))),
        vec![
            Effect::Emit(Event::WorktreeUpdatedEntries(id, PayloadId(3))),
            Effect::ReportDiscoveredProjectEvents { worktree_id: id, changes: PayloadId(3) },
        ]
    );
    assert_eq!(
        project.on_worktree_event(id, WorktreeEvent::UpdatedGitRepositories),
        vec![Effect::Emit(Event::WorktreeUpdatedGitRepositories)]
    );
    assert_eq!(
        project.on_worktree_event(id, WorktreeEvent::DeletedEntry(ProjectEntryId(1))),
        vec![Effect::Emit(Event::DeletedEntry(ProjectEntryId(1)))]
    );
}
