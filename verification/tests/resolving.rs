use project::buffer::{Buffer, BufferFile};
use project::event::{ChannelRole, ProjectError};
use project::ids::{BufferId, PayloadId, ProjectEntryId, WorktreeId};
use project::project::create::JoinProjectResponse;
use project::project::resolve::{
    directory_names, file_only, resolved_locally, resolved_remotely, BufferPathQuery,
    DirectoryLister, DirectoryQuery, PathMetadata, PathQuery,
};
use project::project::{Project, SshClient};
use project::project_path::{ProjectPath, ResolvedPath};
use project::tilde::home_dir;
use project::worktree::{Entry, Worktree};

fn entry(id: u64, path: &str, is_dir: bool) -> Entry {
    Entry { id: ProjectEntryId(id), path: path.to_string(), is_dir, is_ignored: false }
}

fn tree(id: u64, entries: Vec<Entry>) -> Worktree {
    Worktree {
        id: WorktreeId(id),
        root_name: "p".to_string(),
        abs_path: format!("/p{}", id),
        is_visible: true,
        is_local: true,
        root_entry: Some(entry(0, "", true)),
        entries,
    }
}

fn local() -> Project {
    let mut project = Project::local(PayloadId(1), None).0;
    project.set_worktrees(vec![
        Worktree { root_entry: None, ..tree(9, vec![entry(1, "src/a.rs", false)]) },
        tree(1, vec![entry(2, "src", true), entry(3, "src/b.rs", false)]),
        tree(2, vec![entry(4, "src/a.rs", false), entry(5, "b.rs", false)]),
    ]);
    project
}

fn ssh() -> Project {
    let client = SshClient {
        connection_string: "host".to_string(),
        connection_state: PayloadId(1),
        connection_options: PayloadId(2),
        is_disconnected: false,
    };
    Project::ssh(client, PayloadId(1)).0
}

fn guest() -> Project {
    let response = JoinProjectResponse {
        message_id: 1,
        project_id: 42,
        replica_id: 3,
        role: ChannelRole::Member,
        worktree_ids: vec![],
        collaborator_user_ids: vec![],
    };
    Project::from_join_project_response(response, false, &vec![]).0
}

fn home() -> Option<String> {
    Some("/home/u".to_string())
}

fn buffer(path: Option<&str>) -> Buffer {
    Buffer {
        id: BufferId(1),
        file: path.map(|p| BufferFile {
            worktree_id: WorktreeId(1),
            path: p.to_string(),
            entry_id: None,
            is_private: false,
        }),
        is_dirty: false,
    }
}

fn in_project(id: u64, path: &str, is_dir: bool) -> BufferPathQuery {
    BufferPathQuery::InWorktrees(Some(ResolvedPath::ProjectPath {
        project_path: ProjectPath { worktree_id: WorktreeId(id), path: path.to_string() },
        is_dir,
    }))
}

#[test]
fn paths_are_resolved_in_the_worktrees() {
    let project = local();
    assert_eq!(
        project.resolve_path_in_buffer("src/a.rs", &buffer(None), home()),
        in_project(2, "src/a.rs", false)
    );
    assert_eq!(
        project.resolve_path_in_buffer("b.rs", &buffer(Some("src/c.rs")), home()),
        in_project(1, "src/b.rs", false)
    );
    assert_eq!(
        project.resolve_path_in_buffer("b.rs", &buffer(None), home()),
        in_project(2, "b.rs", false)
    );
    assert_eq!(
        project.resolve_path_in_buffer("../src", &buffer(Some("src/c.rs")), home()),
        in_project(1, "src", true)
    );
    assert_eq!(
        project.resolve_path_in_buffer("./src/../src", &buffer(None), home()),
        in_project(1, "src", true)
    );
    assert_eq!(
        project.resolve_path_in_buffer("missing", &buffer(None), home()),
        BufferPathQuery::InWorktrees(None)
    );
}

#[test]
fn absolute_paths_are_asked_for() {
    let local_query = PathQuery::Local { path: "/etc/hosts".to_string() };
    assert_eq!(
        local().resolve_path_in_buffer("/etc/hosts", &buffer(None), home()),
        BufferPathQuery::Absolute(local_query)
    );
    let remote = || PathQuery::Remote { project_id: 0, path: "~/x".to_string() };
    assert_eq!(
        ssh().resolve_path_in_buffer("~/x", &buffer(None), home()),
        BufferPathQuery::Absolute(remote())
    );
    assert_eq!(ssh().resolve_abs_path("~/x", home()), remote());
    assert_eq!(guest().resolve_abs_path("/x", home()), PathQuery::Nobody);
    assert_eq!(ssh().resolve_abs_file_path("~/x", home()), remote());
}

#[test]
fn a_tilde_is_expanded_on_this_machine() {
    let lister = DirectoryLister::Local;
    let expand = |path: &str| lister.resolve_tilde(&path.to_string(), home());
    assert_eq!(expand("~/x"), "/home/u/x");
    assert_eq!(expand("~"), "/home/u");
    assert_eq!(expand("/a/~"), "/a/~");
    assert_eq!(expand("~other/x"), "~other/x");
    assert_eq!(expand(""), "");
    assert_eq!(lister.resolve_tilde(&"~/x".to_string(), None), "~/x");
    let over_ssh = ssh();
    let remote = DirectoryLister::Project(&over_ssh);
    assert_eq!(remote.resolve_tilde(&"~/x".to_string(), home()), "~/x");
    assert_eq!(
        local().resolve_abs_path("~/x", home()),
        PathQuery::Local { path: "/home/u/x".to_string() }
    );
    assert_eq!(
        local().resolve_abs_file_path("~/x", None),
        PathQuery::Local { path: "~/x".to_string() }
    );
    assert_eq!(
        local().resolve_path_in_buffer("~", &buffer(None), home()),
        BufferPathQuery::Absolute(PathQuery::Local { path: "/home/u".to_string() })
    );
    assert_eq!(
        local().list_directory("~/x".to_string(), home()),
        Ok(DirectoryQuery::Local { path: "/home/u/x".to_string() })
    );
    assert_eq!(
        lister.list_directory("~/x".to_string(), home()),
        Ok(DirectoryQuery::Local { path: "/home/u/x".to_string() })
    );
}

#[test]
fn the_directory_of_the_user_is_that_of_the_environment() {
    for path in ["~", "~/x", "~/", "~x", "/~", "x"] {
        assert_eq!(
            DirectoryLister::Local.resolve_tilde(&path.to_string(), home_dir()),
            shellexpand::tilde(path)
        );
    }
}

#[test]
fn answers_become_paths() {
    let found = |is_dir| ResolvedPath::AbsPath { path: "/x".to_string(), is_dir };
    assert_eq!(resolved_locally("/x".to_string(), Some(true)), Some(found(true)));
    assert_eq!(resolved_locally("/x".to_string(), None), None);
    let answer = |exists| PathMetadata { exists, path: "/x".to_string(), is_dir: false };
    assert_eq!(resolved_remotely(Some(answer(true))), Some(found(false)));
    assert_eq!(resolved_remotely(Some(answer(false))), None);
    assert_eq!(resolved_remotely(None), None);
    assert_eq!(file_only(Some(found(false))), Some(found(false)));
    assert_eq!(file_only(Some(found(true))), None);
    assert_eq!(file_only(None), None);
}

#[test]
fn directories_are_listed_where_they_lie() {
    assert_eq!(
        local().list_directory("/etc".to_string(), home()),
        Ok(DirectoryQuery::Local { path: "/etc".to_string() })
    );
    assert_eq!(
        ssh().list_directory("~/x".to_string(), home()),
        Ok(DirectoryQuery::Remote { project_id: 0, path: "~/x".to_string() })
    );
    assert_eq!(
        guest().list_directory("/etc".to_string(), home()),
        Err(ProjectError::CannotListDirectory)
    );
    assert_eq!(
        ProjectError::CannotListDirectory.text(),
        Some("cannot list directory in remote project")
    );
    let entries = vec![Ok("/etc/hosts".to_string()), Ok("/".to_string()), Ok("/etc/x/".to_string())];
    assert_eq!(
        directory_names(&entries),
        Ok(vec!["hosts".to_string(), "x".to_string()])
    );
    let entries = vec![Ok("/etc/hosts".to_string()), Err(PayloadId(3)), Err(PayloadId(4))];
    assert_eq!(directory_names(&entries), Err(PayloadId(3)));
}

#[test]
fn listing_starts_in_the_first_visible_worktree() {
    let project = local();
    let lister = DirectoryLister::Project(&project);
    assert!(lister.is_local());
    assert_eq!(lister.default_query(), "/p9");
    assert_eq!(
        lister.list_directory("/etc".to_string(), home()),
        Ok(DirectoryQuery::Local { path: "/etc".to_string() })
    );
    assert_eq!(DirectoryLister::Local.default_query(), "~/");
    let empty = guest();
    let lister = DirectoryLister::Project(&empty);
    assert!(!lister.is_local());
    assert_eq!(lister.default_query(), "~/");
    assert_eq!(
        lister.list_directory("/etc".to_string(), home()),
        Err(ProjectError::CannotListDirectory)
    );
    assert_eq!(
        DirectoryLister::Local.list_directory("/a".to_string(), home()),
        Ok(DirectoryQuery::Local { path: "/a".to_string() })
    );
}
