use project::ids::WorktreeId;
use project::project_path::{ProjectPath, ProjectPathProto, ResolvedPath};

#[test]
fn project_path_survives_a_message() {
    let path = ProjectPath { worktree_id: WorktreeId(7), path: "src/main.rs".to_string() };
    let message = path.to_proto();
    assert_eq!(message, ProjectPathProto { worktree_id: 7, path: "src/main.rs".to_string() });
    let back = ProjectPath::from_proto(message);
    assert_eq!(back.worktree_id, WorktreeId(7));
    assert_eq!(back.path, "src/main.rs");
}

#[test]
fn project_paths_are_equal_by_place() {
    let a = ProjectPath::from((WorktreeId(1), "a//b/.".to_string()));
    let b = ProjectPath::from((WorktreeId(1), "a/b".to_string()));
    let c = ProjectPath::from((WorktreeId(2), "a/b".to_string()));
    assert!(a == b);
    assert!(a != c);
    assert_eq!(a.clone().path, "a//b/.");
}

#[test]
fn root_path_is_empty() {
    let root = ProjectPath::root_path(WorktreeId(3));
    assert_eq!(root.worktree_id, WorktreeId(3));
    assert_eq!(root.path, "");
    let location = root.settings_location();
    assert_eq!(location.worktree_id, WorktreeId(3));
    assert_eq!(location.path, "");
}

#[test]
fn resolved_path_parts() {
    let dir = ResolvedPath::AbsPath { path: "/tmp".to_string(), is_dir: true };
    assert!(dir.is_dir());
    assert!(!dir.is_file());
    assert_eq!(dir.abs_path().map(|s| s.as_str()), Some("/tmp"));
    assert!(dir.project_path().is_none());
    let file = ResolvedPath::ProjectPath {
        project_path: ProjectPath::root_path(WorktreeId(1)),
        is_dir: false,
    };
    assert!(file.is_file());
    assert!(file.abs_path().is_none());
    assert!(file.project_path().is_some());
}

#[test]
fn project_paths_are_ordered_by_worktree_and_path() {
    let path = |id, text: &str| ProjectPath::from((WorktreeId(id), text.to_string()));
    assert!(path(1, "z") < path(2, "a"));
    assert!(path(1, "a/z") < path(1, "a.b"));
    assert!(path(1, "a/./b") <= path(1, "a/b"));
    assert!(path(1, "a/b") > path(1, "a"));
}
