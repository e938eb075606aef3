use project::collaborators::Collaborator;
use project::event::{
    Capability, ChannelRole, Effect, Entity, Event, MessageKind, ProjectError, Server, Store,
    StoreKind,
};
use project::ids::{PayloadId, PeerId, WorktreeId};
use project::project::create::{JoinPhase, JoinProjectResponse, Joining};
use project::project::{Project, QueryInsertionBehavior, SearchInputKind, SshClient};

fn response(role: ChannelRole) -> JoinProjectResponse {
    JoinProjectResponse {
        message_id: 12,
        project_id: 42,
        replica_id: 65_539,
        role,
        worktree_ids: vec![WorktreeId(1), WorktreeId(2)],
        collaborator_user_ids: vec![100, 101],
    }
}

fn position(effects: &[Effect], effect: &Effect) -> usize {
    effects.iter().position(|e| e == effect).unwrap()
}

#[test]
fn a_local_project_starts_fresh() {
    let (project, effects) = Project::local(PayloadId(8), Some(PayloadId(9)));
    assert!(project.is_local());
    assert_eq!(project.node_runtime(), Some(PayloadId(8)));
    assert_eq!(project.active_entry(), None);
    assert!(project.worktrees().is_empty());
    assert!(project.opened_buffers().is_empty());
    assert_eq!(effects.len(), 19);
    assert_eq!(effects[0], Effect::StartOrderedMessages);
    assert!(effects.contains(&Effect::CreateEnvironment { cli_environment: Some(PayloadId(9)) }));
    let made = position(
        &effects,
        &Effect::CreateStore { store: Store::Buffer, store_kind: StoreKind::Local },
    );
    let watched = position(&effects, &Effect::SubscribeToStore { store: Store::Buffer });
    assert_eq!(watched, made + 1);
}

#[test]
fn search_histories_hold_five_hundred_queries() {
    let (mut project, _) = Project::local(PayloadId(8), None);
    for kind in [SearchInputKind::Query, SearchInputKind::Include, SearchInputKind::Exclude] {
        let history = project.search_history(kind);
        assert_eq!(history.max_history_len, Some(500));
        assert_eq!(history.insertion_behavior, QueryInsertionBehavior::AlwaysInsert);
        assert!(history.history.is_empty());
    }
    project.search_history_mut(SearchInputKind::Include).history.push("*.rs".to_string());
    assert_eq!(project.search_history(SearchInputKind::Include).history, vec!["*.rs"]);
    assert!(project.search_history(SearchInputKind::Query).history.is_empty());
    assert!(project.search_history(SearchInputKind::Exclude).history.is_empty());
}

#[test]
fn an_ssh_project_asks_its_server() {
    let client = SshClient {
        connection_string: "host".to_string(),
        connection_state: PayloadId(1),
        connection_options: PayloadId(2),
        is_disconnected: false,
    };
    let (project, effects) = Project::ssh(client, PayloadId(8));
    assert!(project.is_via_ssh());
    assert!(effects.contains(&Effect::CreateSnippets { global_dir: true }));
    assert!(effects.contains(&Effect::CreateStore {
        store: Store::Dap,
        store_kind: StoreKind::Remote { server: Server::Collab, project_id: 0 },
    }));
    assert!(effects.contains(&Effect::CreateStore {
        store: Store::Buffer,
        store_kind: StoreKind::Remote { server: Server::Ssh, project_id: 0 },
    }));
    assert!(!effects.contains(&Effect::SubscribeToStore { store: Store::Image }));
    assert!(effects.contains(&Effect::AddHandler {
        server: Server::Ssh,
        message: MessageKind::LanguageServerPromptRequest,
        is_request: true,
    }));
    assert_eq!(
        effects.last(),
        Some(&Effect::InitStore { server: Server::Ssh, store: Store::Dap })
    );
    assert_eq!(effects.len(), 19 + 6 + 7 + 6);
}

#[test]
fn a_joined_project_is_a_guest() {
    let subscriptions = Project::join_subscriptions();
    let (project, effects) =
        Project::from_join_project_response(response(ChannelRole::Member), false, &subscriptions);
    assert!(project.is_via_collab());
    assert_eq!(project.remote_id(), Some(42));
    assert_eq!(project.replica_id(), 3);
    assert_eq!(project.capability(), Capability::ReadWrite);
    assert_eq!(project.node_runtime(), None);
    assert!(effects.contains(&Effect::CreateTaskStore {
        store_kind: StoreKind::Noop,
        toolchains: false
    }));
    assert!(effects.contains(&Effect::CreateRemoteWorktree {
        project_id: 42,
        replica_id: 3,
        worktree_id: WorktreeId(2),
    }));
    let added = position(&effects, &Effect::AddWorktree(WorktreeId(1)));
    assert_eq!(effects[added + 1], Effect::AddWorktree(WorktreeId(2)));
    assert_eq!(effects[added + 2], Effect::AttachSubscription(Entity::Project));
    assert_eq!(effects.last(), Some(&Effect::GetUsers(vec![100, 101])));
    let (viewer, effects) =
        Project::from_join_project_response(response(ChannelRole::Other), true, &subscriptions);
    assert_eq!(viewer.capability(), Capability::ReadOnly);
    assert!(effects.contains(&Effect::CreateTaskStore {
        store_kind: StoreKind::Remote { server: Server::Collab, project_id: 42 },
        toolchains: false,
    }));
}

#[test]
fn joining_ends_with_the_participants() {
    let subscriptions = Project::join_subscriptions();
    let (mut project, _) =
        Project::from_join_project_response(response(ChannelRole::Member), false, &subscriptions);
    let outcome = project.finish_join(Err(PayloadId(4)), vec![], Project::join_subscriptions());
    assert_eq!(outcome.result, Err(ProjectError::Surroundings(PayloadId(4))));
    let outcome = project.finish_join(Ok(()), vec![None], Project::join_subscriptions());
    assert_eq!(outcome.result, Err(ProjectError::InvalidCollaborator));
    let peer_id = PeerId { owner_id: 1, id: 1 };
    let host = Collaborator { peer_id, replica_id: 0, user_id: 100, is_host: true };
    let outcome = project.finish_join(Ok(()), vec![Some(host)], Project::join_subscriptions());
    assert_eq!(outcome.result, Ok(()));
    assert!(outcome.effects.is_empty());
    assert_eq!(project.host(), Some(host));
}

#[test]
fn joining_goes_step_by_step() {
    let mut joining = Project::in_room(7);
    assert_eq!(joining, Joining { remote_id: 7, phase: JoinPhase::Authenticating });
    joining.advance(Ok(()));
    assert_eq!(joining.phase, JoinPhase::Subscribing);
    joining.advance(Ok(()));
    assert_eq!(joining.phase, JoinPhase::Requesting);
    joining.advance(Ok(()));
    assert_eq!(joining.phase, JoinPhase::Joined);
    let mut failing = Project::in_room(7);
    failing.advance(Ok(()));
    failing.advance(Err(PayloadId(6)));
    assert_eq!(failing.phase, JoinPhase::Failed(PayloadId(6)));
}

#[test]
fn the_program_answers_the_collaboration_server() {
    let effects = Project::init();
    assert_eq!(effects[0], Effect::InitConnectionManager);
    assert_eq!(effects[1], Effect::RegisterSettings);
    assert_eq!(effects.len(), 2 + 13 + 7);
    let requests = effects
        .iter()
        .filter(|e| matches!(e, Effect::AddHandler { is_request: true, .. }))
        .count();
    assert_eq!(requests, 6);
    assert_eq!(Project::init_settings(), vec![Effect::RegisterSettings]);
    assert!(!effects.contains(&Effect::Emit(Event::Closed)));
}
