use project::buffer::{Buffer, BufferFile};
use project::event::{ChannelRole, Effect, ProjectError, Server};
use project::ids::{BufferId, PayloadId, PeerId, ProjectEntryId, WorktreeId};
use project::project::create::JoinProjectResponse;
use project::project::search::{
    remote_candidates, sort_worktree_entries, QueriedBuffer, SearchProgress, SearchQuery,
    SearchSource,
};
use project::project::{Project, SshClient};
use project::sort::stable_sort;
use project::worktree::{Entry, Worktree};

fn queried(id: u64, path: Option<&str>, entry: Option<u64>, file_matches: bool) -> QueriedBuffer {
    QueriedBuffer {
        buffer: Buffer {
            id: BufferId(id),
            file: path.map(|p| BufferFile {
                worktree_id: WorktreeId(1),
                path: p.to_string(),
                entry_id: entry.map(ProjectEntryId),
                is_private: false,
            }),
            is_dirty: false,
        },
        file_matches,
    }
}

fn query(buffers: Option<Vec<QueriedBuffer>>, include_ignored: bool) -> SearchQuery {
    SearchQuery { is_opened_only: true, buffers, include_ignored }
}

fn local() -> Project {
    let mut project = Project::local(PayloadId(1), None).0;
    project.set_worktrees(vec![Worktree {
        id: WorktreeId(1),
        root_name: "p".to_string(),
        abs_path: "/p".to_string(),
        is_visible: true,
        is_local: true,
        root_entry: None,
        entries: vec![
            Entry {
                id: ProjectEntryId(1),
                path: "ignored".to_string(),
                is_dir: false,
                is_ignored: true,
            },
            Entry {
                id: ProjectEntryId(2),
                path: "kept".to_string(),
                is_dir: false,
                is_ignored: false,
            },
        ],
    }]);
    project
}

fn ssh() -> Project {
    let client = SshClient {
        connection_string: "host".to_string(),
        connection_state: PayloadId(1),
        connection_options: PayloadId(2),
        is_disconnected: false,
    };
    Project::ssh(client, PayloadId(1)).0
}

fn guest() -> Project {
    let response = JoinProjectResponse {
        message_id: 1,
        project_id: 42,
        replica_id: 3,
        role: ChannelRole::Member,
        worktree_ids: vec![],
        collaborator_user_ids: vec![],
    };
    Project::from_join_project_response(response, false, &vec![]).0
}

fn by_text(a: &String, _: bool, b: &String, _: bool) -> bool {
    a < b
}

fn ids(list: &[u64]) -> Vec<BufferId> {
    list.iter().map(|id| BufferId(*id)).collect()
}

#[test]
fn open_buffers_are_searched_in_order() {
    let buffers = vec![
        queried(5, Some("z.rs"), Some(2), true),
        queried(9, None, None, false),
        queried(6, Some("a.rs"), None, true),
        queried(3, None, None, true),
        queried(7, Some("m.rs"), Some(2), false),
        queried(8, Some("b.rs"), Some(1), true),
    ];
    let mut project = local();
    assert_eq!(
        project.search(query(Some(buffers), false), by_text),
        SearchSource::Opened(ids(&[3, 9, 6, 5]))
    );
}

#[test]
fn ignored_files_are_searched_if_wanted() {
    let buffers = || Some(vec![queried(8, Some("b.rs"), Some(1), true)]);
    assert_eq!(local().sort_search_candidates(query(buffers(), true), by_text), ids(&[8]));
    assert!(local().sort_search_candidates(query(buffers(), false), by_text).is_empty());
    assert!(local().sort_search_candidates(query(None, false), by_text).is_empty());
}

#[test]
fn closed_files_are_searched_where_they_lie() {
    let closed = || SearchQuery { is_opened_only: false, buffers: None, include_ignored: false };
    assert_eq!(local().search(closed(), by_text), SearchSource::Store { limit: 5_001 });
    assert_eq!(
        ssh().search(closed(), by_text),
        SearchSource::Remote { server: Server::Ssh, project_id: 0, limit: 5_001 }
    );
    let mut joined = guest();
    joined.set_buffers(vec![Buffer { id: BufferId(1), file: None, is_dirty: false }]);
    assert_eq!(
        joined.search(closed(), by_text),
        SearchSource::Remote { server: Server::Collab, project_id: 42, limit: 5_001 }
    );
    assert!(joined.retains_buffer(BufferId(1)));
    joined.release_remotely_created_models();
    assert!(!joined.retains_buffer(BufferId(1)));
}

#[test]
fn participants_search() {
    let peer = PeerId { owner_id: 1, id: 2 };
    let mut project = local();
    assert_eq!(
        project.handle_search_candidate_buffers(None, Some(Ok(())), 3),
        Err(ProjectError::MissingSender)
    );
    assert_eq!(
        project.handle_search_candidate_buffers(Some(peer), None, 3),
        Err(ProjectError::MissingQuery)
    );
    assert_eq!(ProjectError::MissingQuery.text(), Some("missing query field"));
    assert_eq!(
        project.handle_search_candidate_buffers(Some(peer), Some(Err(PayloadId(5))), 3),
        Err(ProjectError::Surroundings(PayloadId(5)))
    );
    assert_eq!(
        project.handle_search_candidate_buffers(Some(peer), Some(Ok(())), 3),
        Ok((peer, SearchSource::Store { limit: 3 }))
    );
    let reply = project.share_search_candidates(&ids(&[4, 2]), peer);
    assert_eq!(reply.result, Ok(ids(&[4, 2])));
    assert_eq!(
        reply.effects,
        vec![
            Effect::CreateBufferForPeer { buffer_id: BufferId(4), peer_id: peer },
            Effect::CreateBufferForPeer { buffer_id: BufferId(2), peer_id: peer },
        ]
    );
}

#[test]
fn a_search_gives_up_at_a_bad_identifier() {
    let answer = vec![Some(BufferId(1)), Some(BufferId(2)), None, Some(BufferId(3))];
    assert_eq!(remote_candidates(&answer), ids(&[1, 2]));
    assert_eq!(remote_candidates(&vec![Some(BufferId(1))]), ids(&[1]));
    assert!(remote_candidates(&vec![]).is_empty());
}

#[test]
fn a_search_stops_after_enough_files() {
    let mut progress = SearchProgress::new();
    for _ in 0..5_000 {
        progress.report(2);
        assert!(!progress.limit_reached());
    }
    progress.report(0);
    assert!(progress.limit_reached());
}

#[test]
fn a_search_stops_after_enough_places() {
    let mut progress = SearchProgress::new();
    progress.report(10_000);
    assert!(!progress.limit_reached());
    progress.report(1);
    assert!(progress.limit_reached());
    let mut progress = SearchProgress::new();
    progress.report(10_001);
    assert!(progress.limit_reached());
}

#[test]
fn entries_are_sorted_directories_first() {
    let entry = |id: u64, path: &str, is_dir: bool| Entry {
        id: ProjectEntryId(id),
        path: path.to_string(),
        is_dir,
        is_ignored: false,
    };
    let mut entries = vec![
        entry(1, "b.rs", false),
        entry(2, "a.rs", false),
        entry(3, "src", true),
        entry(4, "b.rs", false),
        entry(5, "doc", true),
    ];
    sort_worktree_entries(&mut entries, |a, a_file, b, b_file| (a_file, a) < (b_file, b));
    let order: Vec<u64> = entries.iter().map(|e| e.id.0).collect();
    assert_eq!(order, vec![5, 3, 2, 1, 4]);
}

#[test]
fn sorting_agrees_with_std() {
    let items: Vec<(u32, usize)> =
        [5u32, 1, 4, 1, 5, 9, 2, 6, 5, 3].iter().enumerate().map(|(i, k)| (*k, i)).collect();
    let mut want = items.clone();
    want.sort_by(|a, b| a.0.cmp(&b.0));
    assert_eq!(stable_sort(items, &|a: &(u32, usize), b: &(u32, usize)| a.0 < b.0), want);
}
