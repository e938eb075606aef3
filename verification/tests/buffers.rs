use project::buffer::{Buffer, BufferFile};
use project::event::{
    Capability, ChannelRole, Effect, Event, MessageActionItem, ProjectError, PromptLevel, Server,
};
use project::ids::{BufferId, PayloadId, PeerId, ProjectEntryId, WorktreeId};
use project::project::buffers::OpenById;
use project::project::create::JoinProjectResponse;
use project::project::messages::{
    prompt_response, proto_to_prompt, PromptLevelProto, PromptMessage,
};
use project::project::requests::{LanguageServerToQuery, LspCommand, LspRequest, PointUtf16};
use project::project::synchronize::{
    reopen_requests, synchronization_result, BufferSync, ChunkSender, SyncedBuffer,
};
use project::project::{Project, SshClient};
use project::project_path::ProjectPath;
use project::worktree::Worktree;

fn file(path: &str, is_private: bool) -> Option<BufferFile> {
    Some(BufferFile {
        worktree_id: WorktreeId(1),
        path: path.to_string(),
        entry_id: Some(ProjectEntryId(5)),
        is_private,
    })
}

fn buffer(id: u64, path: Option<&str>, is_dirty: bool) -> Buffer {
    Buffer { id: BufferId(id), file: path.and_then(|p| file(p, false)), is_dirty }
}

fn path(text: &str) -> ProjectPath {
    ProjectPath { worktree_id: WorktreeId(1), path: text.to_string() }
}

fn peer() -> PeerId {
    PeerId { owner_id: 1, id: 2 }
}

fn local() -> Project {
    let mut project = Project::local(PayloadId(1), None).0;
    project.set_worktrees(vec![worktree(true)]);
    project.set_buffers(vec![
        buffer(1, Some("a.rs"), true),
        buffer(2, None, true),
        buffer(3, Some("b.rs"), false),
        buffer(4, Some("c.rs"), true),
    ]);
    project
}

fn worktree(is_local: bool) -> Worktree {
    Worktree {
        id: WorktreeId(1),
        root_name: "p".to_string(),
        abs_path: "/p".to_string(),
        is_visible: true,
        is_local,
        root_entry: None,
        entries: vec![],
    }
}

fn ssh(is_disconnected: bool) -> Project {
    let client = SshClient {
        connection_string: "host".to_string(),
        connection_state: PayloadId(1),
        connection_options: PayloadId(2),
        is_disconnected,
    };
    Project::ssh(client, PayloadId(1)).0
}

fn guest() -> Project {
    let response = JoinProjectResponse {
        message_id: 1,
        project_id: 42,
        replica_id: 3,
        role: ChannelRole::Other,
        worktree_ids: vec![],
        collaborator_user_ids: vec![],
    };
    Project::from_join_project_response(response, false, &vec![]).0
}

#[test]
fn open_buffers_are_found() {
    let project = local();
    assert_eq!(project.buffer_for_id(BufferId(3)).unwrap().id, BufferId(3));
    assert!(project.buffer_for_id(BufferId(9)).is_none());
    assert_eq!(project.get_open_buffer(&path("b.rs")).unwrap().id, BufferId(3));
    assert!(project.has_open_buffer(&path("./b.rs")) == false);
    assert!(project.has_open_buffer(&path("b.rs/.")));
    assert_eq!(project.opened_buffers().len(), 4);
    assert_eq!(project.dirty_buffers(), vec![path("a.rs"), path("c.rs")]);
    assert_eq!(project.opened_buffers()[0].entry_id(), Some(ProjectEntryId(5)));
    assert_eq!(project.opened_buffers()[1].project_path(), None);
}

#[test]
fn buffers_are_opened_while_connected() {
    assert_eq!(local().open_buffer(path("x")), Ok(path("x")));
    assert_eq!(local().open_image(path("x")), Ok(path("x")));
    assert_eq!(ssh(true).open_buffer(path("x")), Err(ProjectError::Disconnected));
    assert_eq!(ssh(true).open_image(path("x")), Err(ProjectError::Disconnected));
    assert_eq!(local().open_local_buffer("/p/src/x.rs"), Ok(path("src/x.rs")));
    assert_eq!(local().open_local_buffer("/q/x.rs"), Err(ProjectError::NoSuchPath));
    assert_eq!(ProjectError::NoSuchPath.text(), Some("no such path"));
    let mut gone = guest();
    gone.set_worktrees(vec![worktree(false)]);
    gone.disconnected_from_host();
    assert_eq!(gone.open_local_buffer("/p/x.rs"), Err(ProjectError::Disconnected));
    assert_eq!(
        local().create_local_buffer("text".to_string(), None),
        vec![Effect::CreateLocalBuffer { text: "text".to_string(), language: None }]
    );
}

#[test]
fn buffers_are_opened_by_identifier() {
    assert_eq!(local().open_buffer_by_id(BufferId(2)), Ok(OpenById::Ready(BufferId(2))));
    assert_eq!(
        local().open_buffer_by_id(BufferId(9)),
        Err(ProjectError::BufferDoesNotExist(BufferId(9)))
    );
    assert_eq!(
        ssh(false).open_buffer_by_id(BufferId(9)),
        Err(ProjectError::BufferDoesNotExist(BufferId(9)))
    );
    assert_eq!(
        guest().open_buffer_by_id(BufferId(9)),
        Ok(OpenById::Request { project_id: 42, id: BufferId(9) })
    );
}

#[test]
fn participants_ask_for_buffers() {
    let project = local();
    let open = buffer(1, Some("a.rs"), false);
    let private = Buffer { id: BufferId(8), file: file("secret", true), is_dirty: false };
    let reply = project.respond_to_open_buffer_request(&open, peer());
    assert_eq!(reply.result, Ok(BufferId(1)));
    assert_eq!(
        reply.effects,
        vec![Effect::CreateBufferForPeer { buffer_id: BufferId(1), peer_id: peer() }]
    );
    let reply = project.respond_to_open_buffer_request(&private, peer());
    assert_eq!(reply.result, Err(ProjectError::UnsharedItem));
    assert!(reply.effects.is_empty());
    assert_eq!(
        project.handle_open_buffer_by_id(Some(peer()), Some(BufferId(1))),
        Ok((peer(), OpenById::Ready(BufferId(1))))
    );
    assert_eq!(
        project.handle_open_buffer_by_id(None, Some(BufferId(1))),
        Err(ProjectError::MissingSender)
    );
    assert_eq!(
        project.handle_open_buffer_by_id(Some(peer()), None),
        Err(ProjectError::InvalidBufferId)
    );
    assert_eq!(
        project.handle_open_buffer_by_path(Some(peer()), 1, "x".to_string()),
        Ok((peer(), path("x")))
    );
    assert_eq!(
        project.handle_open_buffer_by_path(None, 1, "x".to_string()),
        Err(ProjectError::MissingSender)
    );
    assert_eq!(
        ssh(true).handle_open_buffer_by_path(Some(peer()), 1, "x".to_string()),
        Err(ProjectError::Disconnected)
    );
    assert_eq!(project.handle_open_new_buffer(&open, Some(peer())).result, Ok(BufferId(1)));
    assert_eq!(
        project.handle_open_new_buffer(&open, None).result,
        Err(ProjectError::MissingSender)
    );
}

#[test]
fn requests_keep_buffers_alive() {
    let mut project = local();
    let position = PointUtf16 { row: 1, column: 2 };
    let request = project.definition(BufferId(1), position);
    assert_eq!(
        request,
        LspRequest {
            buffer_id: BufferId(1),
            server: LanguageServerToQuery::Primary,
            command: LspCommand::GetDefinition { position },
        }
    );
    assert!(project.retains_buffer(BufferId(4)));
    project.references(BufferId(1), position);
    project.release_remotely_created_models();
    assert!(project.retains_buffer(BufferId(4)));
    project.release_remotely_created_models();
    assert!(!project.retains_buffer(BufferId(4)));
}

#[test]
fn each_request_asks_for_its_own() {
    let mut project = local();
    let position = PointUtf16 { row: 1, column: 2 };
    let id = BufferId(1);
    assert_eq!(
        project.declaration(id, position).command,
        LspCommand::GetDeclaration { position }
    );
    assert_eq!(
        project.type_definition(id, position).command,
        LspCommand::GetTypeDefinition { position }
    );
    assert_eq!(
        project.implementation(id, position).command,
        LspCommand::GetImplementation { position }
    );
    assert_eq!(
        project.document_highlights(id, position).command,
        LspCommand::GetDocumentHighlights { position }
    );
    assert_eq!(
        project.prepare_rename(id, position).command,
        LspCommand::PrepareRename { position }
    );
    assert_eq!(
        project.perform_rename(id, position, "x".to_string()).command,
        LspCommand::PerformRename {
            position,
            new_name: "x".to_string(),
            push_to_history: true
        }
    );
    let other = LanguageServerToQuery::Other(project::ids::LanguageServerId(4));
    assert_eq!(
        project.request_lsp(id, other, LspCommand::GetReferences { position }).server,
        other
    );
}

#[test]
fn server_settings_need_a_server() {
    let mut own = local();
    assert_eq!(own.open_server_settings(), Err(ProjectError::NotAnSshProject));
    assert!(!own.retains_buffer(BufferId(1)));
    let mut over_ssh = ssh(false);
    over_ssh.set_buffers(vec![buffer(1, None, false)]);
    assert_eq!(over_ssh.open_server_settings(), Ok(0));
    assert!(over_ssh.retains_buffer(BufferId(1)));
}

#[test]
fn messages_to_the_user() {
    let project = local();
    assert_eq!(
        project.handle_toast("id".to_string(), "text".to_string()),
        vec![Effect::Emit(Event::Toast {
            notification_id: "id".to_string(),
            message: "text".to_string()
        })]
    );
    assert_eq!(
        project.handle_hide_toast("id".to_string()),
        vec![Effect::Emit(Event::HideToast { notification_id: "id".to_string() })]
    );
}

fn item(title: &str) -> MessageActionItem {
    MessageActionItem { title: title.to_string(), properties: vec![] }
}

#[test]
fn prompts_are_passed_on_and_answered() {
    let project = ssh(false);
    let message = |level| PromptMessage {
        level,
        message: "sure?".to_string(),
        actions: vec!["Yes".to_string(), "No".to_string(), "Yes".to_string()],
        lsp_name: "ra".to_string(),
    };
    let reply = project.handle_language_server_prompt_request(message(None));
    assert_eq!(reply.result, Err(ProjectError::InvalidPromptLevel));
    assert!(reply.effects.is_empty());
    let reply =
        project.handle_language_server_prompt_request(message(Some(PromptLevelProto::Warning)));
    assert_eq!(reply.effects.len(), 1);
    let Effect::Emit(Event::LanguageServerPrompt(prompt)) = &reply.effects[0] else {
        panic!("no prompt");
    };
    assert_eq!(prompt.level, PromptLevel::Warning);
    assert_eq!(prompt.message, "sure?");
    assert_eq!(prompt.lsp_name, "ra");
    assert_eq!(prompt.actions, vec![item("Yes"), item("No"), item("Yes")]);
    let titles = reply.result.unwrap();
    assert_eq!(prompt_response(&titles, &Some(item("Yes"))), Some(0));
    assert_eq!(prompt_response(&titles, &Some(item("No"))), Some(1));
    assert_eq!(prompt_response(&titles, &Some(item("Maybe"))), None);
    assert_eq!(prompt_response(&titles, &None), None);
    let more = MessageActionItem {
        title: "Yes".to_string(),
        properties: vec![("p".to_string(), PayloadId(1))],
    };
    assert_eq!(prompt_response(&titles, &Some(more)), None);
    assert_eq!(proto_to_prompt(PromptLevelProto::Info), PromptLevel::Info);
    assert_eq!(proto_to_prompt(PromptLevelProto::Critical), PromptLevel::Critical);
}

#[test]
fn updates_are_forwarded() {
    assert_eq!(local().handle_update_buffer(), vec![Effect::HandleUpdateBuffer]);
    assert_eq!(
        ssh(false).handle_update_buffer(),
        vec![
            Effect::ForwardUpdateBuffer { server: Server::Ssh, project_id: 0 },
            Effect::HandleUpdateBuffer
        ]
    );
    let mut shared = ssh(false);
    assert_eq!(shared.handle_update_buffer_from_ssh(), vec![Effect::HandleUpdateBuffer]);
    shared.shared(9, Ok(()));
    assert_eq!(
        shared.handle_update_buffer_from_ssh(),
        vec![
            Effect::ForwardUpdateBuffer { server: Server::Collab, project_id: 9 },
            Effect::HandleUpdateBuffer
        ]
    );
    let mut joined = guest();
    joined.set_worktrees(vec![worktree(false)]);
    assert_eq!(
        joined.handle_update_worktree(1),
        vec![Effect::UpdateWorktreeFromRemote(WorktreeId(1))]
    );
    assert!(joined.handle_update_worktree(2).is_empty());
    assert_eq!(
        joined.handle_create_buffer_for_peer(),
        vec![Effect::HandleCreateBufferForPeer {
            replica_id: 3,
            capability: Capability::ReadOnly
        }]
    );
}

#[test]
fn synchronizing_needs_a_host() {
    let mut own = local();
    assert_eq!(own.synchronize_remote_buffers(), Err(ProjectError::SynchronizeLocalProject));
    own.shared(3, Ok(()));
    assert_eq!(own.synchronize_remote_buffers(), Err(ProjectError::SynchronizeLocalProject));
    let mut joined = guest();
    assert_eq!(joined.synchronize_remote_buffers(), Ok(42));
    joined.disconnected_from_host();
    assert_eq!(
        joined.synchronize_remote_buffers(),
        Err(ProjectError::SynchronizeReadonlyProject)
    );
}

#[test]
fn synchronizing_each_buffer() {
    let mut joined = guest();
    joined.set_buffers(vec![buffer(1, None, false)]);
    let answer = vec![
        SyncedBuffer { id: Some(BufferId(1)), version: PayloadId(7) },
        SyncedBuffer { id: None, version: PayloadId(8) },
        SyncedBuffer { id: Some(BufferId(2)), version: PayloadId(9) },
    ];
    assert_eq!(
        joined.plan_synchronization(&answer),
        vec![
            BufferSync::SendOperations { buffer_id: BufferId(1), since: PayloadId(7) },
            BufferSync::Invalid,
            BufferSync::NotOpen,
        ]
    );
    assert_eq!(
        reopen_requests(42, &vec![BufferId(5)]),
        vec![OpenById::Request { project_id: 42, id: BufferId(5) }]
    );
}

#[test]
fn a_synchronization_fails_for_the_first_reason() {
    let send = BufferSync::SendOperations { buffer_id: BufferId(1), since: PayloadId(7) };
    let plan = vec![send, BufferSync::NotOpen, send];
    assert_eq!(synchronization_result(&vec![], &vec![]), Ok(()));
    assert_eq!(synchronization_result(&plan, &vec![Ok(()), Ok(()), Ok(())]), Ok(()));
    assert_eq!(
        synchronization_result(&plan, &vec![Ok(()), Err(PayloadId(1)), Err(PayloadId(2))]),
        Err(ProjectError::Surroundings(PayloadId(2)))
    );
    let plan = vec![send, BufferSync::Invalid, send];
    assert_eq!(
        synchronization_result(&plan, &vec![Ok(()), Ok(()), Ok(())]),
        Err(ProjectError::InvalidBufferId)
    );
    assert_eq!(
        synchronization_result(&plan, &vec![Err(PayloadId(3)), Ok(()), Ok(())]),
        Err(ProjectError::Surroundings(PayloadId(3)))
    );
}

#[test]
fn chunks_are_sent_one_after_the_other() {
    let mut sender = ChunkSender::new(vec![PayloadId(1), PayloadId(2)]);
    assert_eq!(sender.current(), Some(PayloadId(1)));
    sender.answer(Ok(()));
    assert_eq!(sender.current(), Some(PayloadId(2)));
    sender.answer(Ok(()));
    assert_eq!(sender.current(), None);
    assert_eq!(sender.result(), Ok(()));
    let mut sender = ChunkSender::new(vec![PayloadId(1), PayloadId(2)]);
    sender.answer(Err(PayloadId(9)));
    assert_eq!(sender.current(), None);
    assert_eq!(sender.result(), Err(PayloadId(9)));
}
