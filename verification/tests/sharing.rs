use project::buffer::Buffer;
use project::collaborators::Collaborator;
use project::event::{
    BufferOrderedMessage, Capability, ChannelRole, Effect, Entity, Event, ProjectError, Store,
};
use project::ids::{BufferId, PayloadId, PeerId, WorktreeId};
use project::project::create::JoinProjectResponse;
use project::project::{Project, SshClient};
use project::worktree::Worktree;

fn local() -> Project {
    Project::local(PayloadId(1), None).0
}

fn ssh(is_disconnected: bool) -> Project {
    let client = SshClient {
        connection_string: "me@host".to_string(),
        connection_state: PayloadId(10),
        connection_options: PayloadId(11),
        is_disconnected,
    };
    Project::ssh(client, PayloadId(1)).0
}

fn guest(role: ChannelRole) -> Project {
    let response = JoinProjectResponse {
        message_id: 5,
        project_id: 42,
        replica_id: 3,
        role,
        worktree_ids: vec![],
        collaborator_user_ids: vec![],
    };
    Project::from_join_project_response(response, false, &Project::join_subscriptions()).0
}

fn peer(id: u32) -> PeerId {
    PeerId { owner_id: 1, id }
}

fn buffer(id: u64) -> Buffer {
    Buffer { id: BufferId(id), file: None, is_dirty: false }
}

#[test]
fn each_project_is_of_one_sort() {
    for (project, sorts) in [
        (local(), (true, false, false)),
        (ssh(false), (false, true, false)),
        (guest(ChannelRole::Member), (false, false, true)),
    ] {
        assert_eq!((project.is_local(), project.is_via_ssh(), project.is_via_collab()), sorts);
        assert_eq!(project.supports_terminal(), !sorts.2);
    }
}

#[test]
fn replica_ids() {
    assert_eq!(local().replica_id(), 0);
    assert_eq!(ssh(false).replica_id(), 1);
    assert_eq!(guest(ChannelRole::Member).replica_id(), 3);
}

#[test]
fn sharing_a_local_project() {
    let mut project = local();
    assert_eq!(
        project.share_subscriptions(),
        Some(vec![
            Entity::Project,
            Entity::WorktreeStore,
            Entity::BufferStore,
            Entity::LspStore,
            Entity::DapStore,
            Entity::SettingsObserver,
        ])
    );
    let outcome = project.shared(9, Ok(()));
    assert_eq!(outcome.result, Ok(()));
    assert_eq!(
        outcome.effects,
        vec![
            Effect::StoreShared { store: Store::Buffer, project_id: 9 },
            Effect::StoreShared { store: Store::Worktree, project_id: 9 },
            Effect::StoreShared { store: Store::Lsp, project_id: 9 },
            Effect::StoreShared { store: Store::Dap, project_id: 9 },
            Effect::StoreShared { store: Store::Task, project_id: 9 },
            Effect::StoreShared { store: Store::SettingsObserver, project_id: 9 },
            Effect::Emit(Event::RemoteIdChanged(Some(9))),
            Effect::Notify,
        ]
    );
    assert_eq!(project.remote_id(), Some(9));
    assert!(project.is_shared());
    assert!(project.is_local());
    assert_eq!(project.share_subscriptions(), None);
}

#[test]
fn sharing_twice_is_refused() {
    let mut project = local();
    project.shared(9, Ok(()));
    let outcome = project.shared(10, Ok(()));
    assert_eq!(outcome.result, Err(ProjectError::AlreadyShared));
    assert!(outcome.effects.is_empty());
    assert_eq!(project.remote_id(), Some(9));
    assert_eq!(ProjectError::AlreadyShared.text(), Some("project was already shared"));
}

#[test]
fn failed_subscription_leaves_the_project_unshared() {
    let mut project = local();
    let outcome = project.shared(9, Err(PayloadId(77)));
    assert_eq!(outcome.result, Err(ProjectError::Surroundings(PayloadId(77))));
    assert!(outcome.effects.is_empty());
    assert_eq!(project.remote_id(), None);
    assert!(!project.is_shared());
}

#[test]
fn unsharing_undoes_sharing() {
    let mut project = local();
    project.shared(9, Ok(()));
    let outcome = project.unshare();
    assert_eq!(outcome.result, Ok(()));
    assert_eq!(
        outcome.effects,
        vec![
            Effect::StoreUnshared { store: Store::Worktree },
            Effect::ForgetSharedBuffers,
            Effect::StoreUnshared { store: Store::Buffer },
            Effect::StoreUnshared { store: Store::Task },
            Effect::StoreUnshared { store: Store::Dap },
            Effect::StoreUnshared { store: Store::SettingsObserver },
            Effect::SendUnshareProject { project_id: 9 },
            Effect::Notify,
        ]
    );
    assert_eq!(project.remote_id(), None);
    assert!(project.share_subscriptions().is_some());
}

#[test]
fn unsharing_what_is_not_shared_is_refused() {
    let outcome = local().unshare();
    assert_eq!(outcome.result, Err(ProjectError::UnshareUnsharedProject));
    assert_eq!(
        ProjectError::UnshareUnsharedProject.text(),
        Some("attempted to unshare an unshared project")
    );
    let outcome = guest(ChannelRole::Admin).unshare();
    assert_eq!(outcome.result, Err(ProjectError::UnshareRemoteProject));
    assert_eq!(
        ProjectError::UnshareRemoteProject.text(),
        Some("attempted to unshare a remote project")
    );
}

#[test]
fn a_gone_host_makes_the_project_read_only() {
    let mut project = guest(ChannelRole::Member);
    assert!(!project.is_read_only());
    let effects = project.disconnected_from_host();
    assert_eq!(
        effects,
        vec![
            Effect::StoreDisconnectedFromHost { store: Store::Worktree },
            Effect::StoreDisconnectedFromHost { store: Store::Buffer },
            Effect::StoreDisconnectedFromHost { store: Store::Lsp },
            Effect::Emit(Event::DisconnectedFromHost),
            Effect::Notify,
        ]
    );
    assert!(project.is_disconnected());
    assert!(project.is_read_only());
    assert_eq!(project.collaborators().len(), 0);
    assert!(project.disconnected_from_host().is_empty());
}

#[test]
fn a_gone_host_does_nothing_to_a_local_project_but_tell() {
    let mut project = local();
    assert_eq!(
        project.disconnected_from_host(),
        vec![Effect::Emit(Event::DisconnectedFromHost), Effect::Notify]
    );
    assert!(!project.is_disconnected());
}

#[test]
fn roles_decide_about_editing() {
    let mut project = guest(ChannelRole::Other);
    assert_eq!(project.capability(), Capability::ReadOnly);
    assert!(project.is_read_only());
    project.set_buffers(vec![buffer(1), buffer(2)]);
    assert_eq!(
        project.set_role(ChannelRole::Member),
        vec![
            Effect::SetBufferCapability {
                buffer_id: BufferId(1),
                capability: Capability::ReadWrite
            },
            Effect::SetBufferCapability {
                buffer_id: BufferId(2),
                capability: Capability::ReadWrite
            },
        ]
    );
    assert!(project.set_role(ChannelRole::Admin).is_empty());
    assert_eq!(project.capability(), Capability::ReadWrite);
    assert_eq!(project.set_role(ChannelRole::Other).len(), 2);
    assert_eq!(project.capability(), Capability::ReadOnly);
    let mut own = local();
    assert!(own.set_role(ChannelRole::Other).is_empty());
    assert_eq!(own.capability(), Capability::ReadWrite);
}

#[test]
fn ssh_disconnection() {
    let mut project = ssh(true);
    assert!(project.is_disconnected());
    assert!(project.is_read_only());
    project.set_ssh_disconnected(false);
    assert!(!project.is_disconnected());
    project.set_ssh_disconnected(true);
    project.shared(4, Ok(()));
    assert!(!project.is_disconnected());
    assert_eq!(project.ssh_connection_string().map(|s| s.as_str()), Some("me@host"));
    assert_eq!(project.ssh_connection_state(), Some(PayloadId(10)));
    assert_eq!(project.ssh_connection_options(), Some(PayloadId(11)));
    assert!(project.ssh_client().is_some());
    assert_eq!(local().ssh_connection_string(), None);
}

#[test]
fn releasing_each_sort() {
    assert!(local().release().is_empty());
    let mut over_ssh = ssh(false);
    assert_eq!(over_ssh.release(), vec![Effect::ShutdownSsh]);
    assert!(over_ssh.ssh_client().is_none());
    let mut shared = local();
    shared.shared(9, Ok(()));
    let effects = shared.release();
    assert_eq!(effects.len(), 7);
    assert_eq!(effects[6], Effect::SendUnshareProject { project_id: 9 });
    assert_eq!(shared.remote_id(), None);
    let mut joined = guest(ChannelRole::Member);
    let effects = joined.release();
    assert_eq!(effects[0], Effect::SendLeaveProject { project_id: 42 });
    assert_eq!(effects.len(), 4);
    assert!(joined.is_disconnected());
    let mut quitting = ssh(false);
    assert_eq!(quitting.on_app_quit(), vec![Effect::ShutdownSsh]);
    assert!(quitting.on_app_quit().is_empty());
    assert_eq!(local().close(), vec![Effect::Emit(Event::Closed)]);
}

#[test]
fn the_server_ends_the_sharing() {
    let mut shared = local();
    shared.shared(9, Ok(()));
    let outcome = shared.handle_unshare_project();
    assert_eq!(outcome.result, Ok(()));
    assert_eq!(outcome.effects.len(), 8);
    assert!(!shared.is_shared());
    let outcome = shared.handle_unshare_project();
    assert_eq!(outcome.result, Err(ProjectError::UnshareUnsharedProject));
    let mut joined = guest(ChannelRole::Member);
    let outcome = joined.handle_unshare_project();
    assert_eq!(outcome.result, Ok(()));
    assert!(joined.is_disconnected());
    assert!(joined.handle_unshare_project().effects.is_empty());
}

fn collaborator(id: u32, is_host: bool) -> Collaborator {
    Collaborator { peer_id: peer(id), replica_id: id as u16, user_id: 100 + id as u64, is_host }
}

#[test]
fn participants_join_and_leave() {
    let mut project = local();
    project.shared(9, Ok(()));
    project.set_buffers(vec![buffer(1), buffer(2)]);
    let outcome = project.handle_add_collaborator(Some(Some(collaborator(5, false))));
    assert_eq!(outcome.result, Ok(()));
    assert_eq!(
        outcome.effects,
        vec![
            Effect::ForgetSharedBuffersFor(peer(5)),
            Effect::Emit(Event::CollaboratorJoined(peer(5))),
            Effect::Notify,
        ]
    );
    assert_eq!(project.collaborators().get(&peer(5)), Some(collaborator(5, false)));
    let outcome = project.handle_remove_collaborator(Some(peer(5)));
    assert_eq!(outcome.result, Ok(()));
    assert_eq!(
        outcome.effects,
        vec![
            Effect::ForgetSharedBuffersFor(peer(5)),
            Effect::RemovePeerFromBuffer { buffer_id: BufferId(1), replica_id: 5 },
            Effect::RemovePeerFromBuffer { buffer_id: BufferId(2), replica_id: 5 },
            Effect::Emit(Event::CollaboratorLeft(peer(5))),
            Effect::Notify,
        ]
    );
    assert_eq!(project.collaborators().len(), 0);
    let outcome = project.handle_remove_collaborator(Some(peer(5)));
    assert_eq!(outcome.result, Err(ProjectError::UnknownPeer(peer(5))));
    let outcome = project.handle_remove_collaborator(None);
    assert_eq!(outcome.result, Err(ProjectError::InvalidPeerId));
    let outcome = project.handle_add_collaborator(None);
    assert_eq!(outcome.result, Err(ProjectError::EmptyCollaborator));
    let outcome = project.handle_add_collaborator(Some(None));
    assert_eq!(outcome.result, Err(ProjectError::InvalidCollaborator));
}

#[test]
fn participants_go_on_under_another_identifier() {
    let mut project = guest(ChannelRole::Member);
    project.handle_add_collaborator(Some(Some(collaborator(1, true))));
    project.handle_add_collaborator(Some(Some(collaborator(2, false))));
    assert_eq!(project.host(), Some(collaborator(1, true)));
    let outcome = project.handle_update_project_collaborator(Some(peer(2)), Some(peer(8)));
    assert_eq!(
        outcome.effects,
        vec![
            Effect::UpdatePeerId { old_peer_id: peer(2), new_peer_id: peer(8) },
            Effect::Emit(Event::CollaboratorUpdated {
                old_peer_id: peer(2),
                new_peer_id: peer(8)
            }),
            Effect::Notify,
        ]
    );
    assert_eq!(project.collaborators().get(&peer(8)), Some(collaborator(2, false)));
    assert!(!project.collaborators().contains_key(&peer(2)));
    let outcome = project.handle_update_project_collaborator(Some(peer(1)), Some(peer(9)));
    assert_eq!(
        outcome.effects,
        vec![
            Effect::UpdatePeerId { old_peer_id: peer(1), new_peer_id: peer(9) },
            Effect::DiscardIncompleteBuffers,
            Effect::Enqueue(BufferOrderedMessage::Resync),
            Effect::Emit(Event::HostReshared),
            Effect::Emit(Event::CollaboratorUpdated {
                old_peer_id: peer(1),
                new_peer_id: peer(9)
            }),
            Effect::Notify,
        ]
    );
    let outcome = project.handle_update_project_collaborator(Some(peer(1)), Some(peer(9)));
    assert_eq!(outcome.result, Err(ProjectError::UpdateOfUnknownPeer));
    let outcome = project.handle_update_project_collaborator(None, Some(peer(9)));
    assert_eq!(outcome.result, Err(ProjectError::MissingOldPeerId));
    let outcome = project.handle_update_project_collaborator(Some(peer(9)), None);
    assert_eq!(outcome.result, Err(ProjectError::MissingNewPeerId));
}

#[test]
fn resharing_announces_who_left() {
    let mut project = local();
    project.shared(9, Ok(()));
    project.handle_add_collaborator(Some(Some(collaborator(1, false))));
    project.handle_add_collaborator(Some(Some(collaborator(2, false))));
    let outcome = project.reshared(vec![
        Some(collaborator(2, false)),
        Some(collaborator(3, false)),
        Some(Collaborator { user_id: 7, ..collaborator(3, false) }),
    ]);
    assert_eq!(outcome.result, Ok(()));
    assert_eq!(
        outcome.effects,
        vec![
            Effect::ForgetSharedBuffers,
            Effect::Emit(Event::CollaboratorLeft(peer(1))),
            Effect::SendProjectUpdates,
            Effect::Notify,
            Effect::Emit(Event::Reshared),
        ]
    );
    assert_eq!(project.collaborators().len(), 2);
    assert_eq!(project.collaborators().get(&peer(3)).unwrap().user_id, 7);
    let outcome = project.reshared(vec![Some(collaborator(5, false)), None]);
    assert_eq!(outcome.result, Err(ProjectError::InvalidCollaborator));
    assert_eq!(outcome.effects, vec![Effect::ForgetSharedBuffers]);
    assert_eq!(project.collaborators().len(), 2);
}

#[test]
fn rejoining_takes_over_what_the_host_has() {
    let mut project = guest(ChannelRole::Member);
    project.handle_add_collaborator(Some(Some(collaborator(1, true))));
    project.set_worktrees(vec![Worktree {
        id: WorktreeId(4),
        root_name: "r".to_string(),
        abs_path: "/r".to_string(),
        is_visible: true,
        is_local: false,
        root_entry: None,
        entries: vec![],
    }]);
    assert!(project.handle_update_project(5).is_empty());
    assert_eq!(
        project.handle_update_project(6),
        vec![Effect::Notify, Effect::SetWorktreesFromProto { replica_id: 3 }]
    );
    assert_eq!(
        project.rejoined(20),
        vec![
            Effect::ClearLocalSettings(WorktreeId(4)),
            Effect::Notify,
            Effect::SetWorktreesFromProto { replica_id: 3 },
        ]
    );
    assert!(project.handle_update_project(20).is_empty());
    assert_eq!(project.handle_update_project(21).len(), 2);
    let outcome = project.finish_rejoined(Err(PayloadId(3)), vec![]);
    assert_eq!(outcome.result, Err(ProjectError::Surroundings(PayloadId(3))));
    assert_eq!(project.collaborators().len(), 1);
    let outcome = project.finish_rejoined(Ok(()), vec![Some(collaborator(6, true))]);
    assert_eq!(outcome.result, Ok(()));
    assert_eq!(
        outcome.effects,
        vec![
            Effect::Emit(Event::CollaboratorLeft(peer(1))),
            Effect::SetLanguageServerStatuses,
            Effect::SetBreakpoints,
            Effect::Enqueue(BufferOrderedMessage::Resync),
            Effect::Emit(Event::Rejoined),
            Effect::Notify,
        ]
    );
}
